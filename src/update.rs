use vstd::prelude::*;
use crate::version::{Version, dec_digits, dec_string};
use crate::parsers::{
    ParseError, ParseErrorKind, parse_version_numbers, parse_chromedriver_version_output,
    parse_chromium_version_output, parse_wmic_version, scan_version, scan_labeled, scan_wmic,
};
use crate::platform::Platform;

verus! {

/// What running an external program gave.
#[derive(Debug)]
pub enum ProgramRun {
    /// There is no file at the program's path.
    NotFound,
    /// The program could not be started; the launch error's text.
    LaunchFailed(String),
    /// The program ran; its captured standard output.
    Finished(String),
}

/// The ways a resolution can fail.
#[derive(Debug)]
pub enum Error {
    /// The program at this path does not exist.
    ProgramDoesNotExist(String),
    /// The program at this path could not be started, for the reason given.
    CantRunProgram(String, String),
    /// A text did not match the version grammar expected of it.
    ParsingVersionFailed(ParseError),
    /// A request to the release server failed, for the reason given.
    RequestFailed(String),
    /// The downloaded archive could not be extracted, for the reason given.
    ZipExtractionFailed(String),
}

/// Whether an installed driver must be replaced to meet `required`: always when
/// none is installed, else when any one of its four components is below the
/// required one, each compared on its own.
pub open spec fn needs_update(current: Option<Version>, required: Version) -> bool {
    match current {
        None => true,
        Some(c) => c.major < required.major || c.minor < required.minor || c.build
            < required.build || c.patch < required.patch,
    }
}

/// The key the release server indexes drivers by: `major.minor.build`.
pub open spec fn lookup_key(v: Version) -> Seq<char> {
    dec_digits(v.major as nat) + seq!['.'] + dec_digits(v.minor as nat) + seq!['.'] + dec_digits(
        v.build as nat,
    )
}

/// The release server's address, with a closing `/`.
pub open spec fn storage_root() -> Seq<char> {
    "https://chromedriver.storage.googleapis.com/"@
}

/// The address that names the driver release for the browser version `v`.
pub open spec fn lookup_url(v: Version) -> Seq<char> {
    storage_root() + "LATEST_RELEASE_"@ + lookup_key(v)
}

/// The address of the driver archive of version `v` for `platform`.
pub open spec fn download_url(v: Version, platform: Platform) -> Seq<char> {
    storage_root() + v.render() + "/chromedriver_"@ + platform.key() + ".zip"@
}

/// With no driver installed, an update is always needed.
pub proof fn lemma_absent_driver_needs_update(required: Version)
    ensures
        needs_update(None, required),
{
}

/// An installed driver that is, component by component, at least the required
/// version is kept; in particular one that equals it.
pub proof fn lemma_componentwise_newer_driver_is_kept(current: Version, required: Version)
    requires
        current.major >= required.major,
        current.minor >= required.minor,
        current.build >= required.build,
        current.patch >= required.patch,
    ensures
        !needs_update(Some(current), required),
        !needs_update(Some(required), required),
{
}

/// An installed driver with any one component below the required one is
/// replaced, however much larger its other components are.
pub proof fn lemma_any_lower_component_needs_update(current: Version, required: Version)
    requires
        current.major < required.major || current.minor < required.minor || current.build
            < required.build || current.patch < required.patch,
    ensures
        needs_update(Some(current), required),
{
}

/// The lookup key leaves the patch component out: versions that differ only
/// in it share their key and their lookup address.
pub proof fn lemma_lookup_ignores_patch(v: Version, w: Version)
    requires
        v.major == w.major,
        v.minor == w.minor,
        v.build == w.build,
    ensures
        lookup_key(v) == lookup_key(w),
        lookup_url(v) == lookup_url(w),
{
}

/// `r` carries the version of the grammar's outcome `o` on `s`, or the failure it describes.
pub open spec fn version_result(r: Result<Version, Error>, s: Seq<char>, o: Result<(Version, int), (ParseErrorKind, int)>) -> bool {
    match o {
        Ok((v, _)) => r == Ok::<Version, Error>(v),
        Err((k, p)) => match r {
            Err(Error::ParsingVersionFailed(e)) => e.kind == k && e.remainder@ == s.subrange(
                p,
                s.len() as int,
            ),
            _ => false,
        },
    }
}

/// `r` carries, as present, the version of the grammar's outcome `o` on `s`, or the failure it describes.
pub open spec fn present_version_result(r: Result<Option<Version>, Error>, s: Seq<char>, o: Result<(Version, int), (ParseErrorKind, int)>) -> bool {
    match o {
        Ok((v, _)) => r == Ok::<Option<Version>, Error>(Some(v)),
        Err((k, p)) => match r {
            Err(Error::ParsingVersionFailed(e)) => e.kind == k && e.remainder@ == s.subrange(
                p,
                s.len() as int,
            ),
            _ => false,
        },
    }
}

/// Decides whether the installed driver, if any, must be replaced by the
/// `new_version` release.
pub fn must_update(current_version: &Option<Version>, new_version: &Version) -> (r: bool)
    ensures
        r == needs_update(*current_version, *new_version),
{
    match current_version {
        Some(c) => c.major < new_version.major || c.minor < new_version.minor || c.build
            < new_version.build || c.patch < new_version.patch,
        None => true,
    }
}

/// The lookup key `major.minor.build` of a browser version.
pub fn get_lookup_key(version: &Version) -> (r: String)
    ensures
        r@ == lookup_key(*version),
{
    let mut s = dec_string(version.major);
    s.append(".");
    let t = dec_string(version.minor);
    s.append(t.as_str());
    s.append(".");
    let t = dec_string(version.build);
    s.append(t.as_str());
    proof {
        reveal_strlit(".");
    }
    s
}

/// The address to ask for the driver release that matches `chrome_version`.
pub fn get_lookup_url(chrome_version: &Version) -> (r: String)
    ensures
        r@ == lookup_url(*chrome_version),
{
    let mut s = String::from_str("https://chromedriver.storage.googleapis.com/");
    s.append("LATEST_RELEASE_");
    let key = get_lookup_key(chrome_version);
    s.append(key.as_str());
    s
}

/// The address of the driver archive of `required_version` for `platform`.
pub fn get_download_url(required_version: &Version, platform: Platform) -> (r: String)
    ensures
        r@ == download_url(*required_version, platform),
{
    let mut s = String::from_str("https://chromedriver.storage.googleapis.com/");
    let v = required_version.to_string();
    s.append(v.as_str());
    s.append("/chromedriver_");
    s.append(platform.get_key());
    s.append(".zip");
    s
}

/// The required driver version, from the release server's answer to the
/// lookup: the answer's text, or the reason the request failed.
pub fn get_required_driver_version(response: Result<String, String>) -> (r: Result<Version, Error>)
    ensures
        match response {
            Err(reason) => r == Err::<Version, Error>(Error::RequestFailed(reason)),
            Ok(body) => version_result(r, body@, scan_version(body@, 0)),
        },
{
    match response {
        Err(reason) => Err(Error::RequestFailed(reason)),
        Ok(body) => match parse_version_numbers(body.as_str()) {
            Ok((_, v)) => Ok(v),
            Err(e) => Err(Error::ParsingVersionFailed(e)),
        },
    }
}

/// The version of the driver at `program_path`, from what running it with
/// `--version` gave: none when there is no file there.
pub fn get_local_driver_version(program_path: &str, run: ProgramRun) -> (r: Result<Option<Version>, Error>)
    ensures
        match run {
            ProgramRun::NotFound => r == Ok::<Option<Version>, Error>(None),
            ProgramRun::LaunchFailed(reason) => match r {
                Err(Error::CantRunProgram(path, why)) => path@ == program_path@ && why == reason,
                _ => false,
            },
            ProgramRun::Finished(out) => present_version_result(
                r,
                out@,
                scan_labeled(out@, "ChromeDriver"@),
            ),
        },
{
    match run {
        ProgramRun::NotFound => Ok(None),
        ProgramRun::LaunchFailed(reason) => Err(
            Error::CantRunProgram(String::from_str(program_path), reason),
        ),
        ProgramRun::Finished(out) => match parse_chromedriver_version_output(out.as_str()) {
            Ok((_, v)) => Ok(Some(v)),
            Err(e) => Err(Error::ParsingVersionFailed(e)),
        },
    }
}

/// The version of the browser, from what running the version query gave: on
/// Windows the management query for the browser file's version, elsewhere the
/// browser itself with `--version`. The program that was run is at `program_path`.
pub fn get_local_browser_version(program_path: &str, platform: Platform, run: ProgramRun) -> (r: Result<Version, Error>)
    ensures
        match run {
            ProgramRun::NotFound => match r {
                Err(Error::ProgramDoesNotExist(path)) => path@ == program_path@,
                _ => false,
            },
            ProgramRun::LaunchFailed(reason) => match r {
                Err(Error::CantRunProgram(path, why)) => path@ == program_path@ && why == reason,
                _ => false,
            },
            ProgramRun::Finished(out) => version_result(
                r,
                out@,
                if platform == Platform::Windows {
                    scan_wmic(out@)
                } else {
                    scan_labeled(out@, "Google Chrome"@)
                },
            ),
        },
{
    match run {
        ProgramRun::NotFound => Err(Error::ProgramDoesNotExist(String::from_str(program_path))),
        ProgramRun::LaunchFailed(reason) => Err(
            Error::CantRunProgram(String::from_str(program_path), reason),
        ),
        ProgramRun::Finished(out) => {
            let parsed = if platform == Platform::Windows {
                parse_wmic_version(out.as_str())
            } else {
                parse_chromium_version_output(out.as_str())
            };
            match parsed {
                Ok((_, v)) => Ok(v),
                Err(e) => Err(Error::ParsingVersionFailed(e)),
            }
        },
    }
}

/// The installed driver's version as reported to the user: its canonical
/// text, or `None` when no driver is installed.
pub fn describe_current_version(current_version: &Option<Version>) -> (r: String)
    ensures
        r@ == match *current_version {
            Some(v) => v.render(),
            None => "None"@,
        },
{
    match current_version {
        Some(v) => v.to_string(),
        None => String::from_str("None"),
    }
}

} // verus!

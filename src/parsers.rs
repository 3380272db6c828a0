use vstd::prelude::*;
use crate::version::{Version, is_digit, digit_value, digits_value, dec_digits, lemma_dec_digits_are_digits, lemma_dec_digits_value};

verus! {

/// What a parser expected at the place where it failed.
#[derive(PartialEq, Eq, Structural, Debug, Clone, Copy)]
pub enum ParseErrorKind {
    /// At least one decimal digit.
    Digits,
    /// The separator `.`.
    Separator,
    /// A fixed literal text: a product label or a query preamble.
    Literal,
    /// Digits that write a number no larger than `u32::MAX`.
    Range,
}

/// A failed parse: what was expected, and the input from where it was expected.
#[derive(Debug)]
pub struct ParseError {
    pub kind: ParseErrorKind,
    pub remainder: String,
}

/// The position where the run of digits starting at `i` ends.
pub open spec fn digit_run_end(s: Seq<char>, i: int) -> int
    decreases s.len() - i,
{
    if 0 <= i < s.len() && is_digit(s[i]) {
        digit_run_end(s, i + 1)
    } else {
        i
    }
}

pub open spec fn is_space(c: char) -> bool {
    c == ' ' || c == '\t'
}

/// The position where the run of spaces and tabs starting at `i` ends.
pub open spec fn space_run_end(s: Seq<char>, i: int) -> int
    decreases s.len() - i,
{
    if 0 <= i < s.len() && is_space(s[i]) {
        space_run_end(s, i + 1)
    } else {
        i
    }
}

/// An unsigned 32-bit number written with one or more digits at `i`, and the
/// position after it; or what failed, and where.
pub open spec fn scan_number(s: Seq<char>, i: int) -> Result<(u32, int), (ParseErrorKind, int)> {
    let e = digit_run_end(s, i);
    if e == i {
        Err((ParseErrorKind::Digits, i))
    } else if digits_value(s.subrange(i, e)) > u32::MAX {
        Err((ParseErrorKind::Range, i))
    } else {
        Ok((digits_value(s.subrange(i, e)) as u32, e))
    }
}

/// A number at `i` followed by `.`.
pub open spec fn scan_component(s: Seq<char>, i: int) -> Result<(u32, int), (ParseErrorKind, int)> {
    match scan_number(s, i) {
        Err(f) => Err(f),
        Ok((n, j)) => if j < s.len() && s[j] == '.' {
            Ok((n, j + 1))
        } else {
            Err((ParseErrorKind::Separator, j))
        },
    }
}

/// Four dot-separated numbers at `i`, and the position after the last one.
pub open spec fn scan_version(s: Seq<char>, i: int) -> Result<(Version, int), (ParseErrorKind, int)> {
    match scan_component(s, i) {
        Err(f) => Err(f),
        Ok((major, i1)) => match scan_component(s, i1) {
            Err(f) => Err(f),
            Ok((minor, i2)) => match scan_component(s, i2) {
                Err(f) => Err(f),
                Ok((build, i3)) => match scan_number(s, i3) {
                    Err(f) => Err(f),
                    Ok((patch, i4)) => Ok((Version { major, minor, build, patch }, i4)),
                },
            },
        },
    }
}

/// The text `lit` at `i`, and the position after it.
pub open spec fn scan_literal(s: Seq<char>, i: int, lit: Seq<char>) -> Result<int, (ParseErrorKind, int)> {
    if i + lit.len() <= s.len() && s.subrange(i, i + lit.len()) == lit {
        Ok(i + lit.len())
    } else {
        Err((ParseErrorKind::Literal, i))
    }
}

/// `label`, then spaces and tabs, then a version, at the start of `s`.
pub open spec fn scan_labeled(s: Seq<char>, label: Seq<char>) -> Result<(Version, int), (ParseErrorKind, int)> {
    match scan_literal(s, 0, label) {
        Err(f) => Err(f),
        Ok(j) => scan_version(s, space_run_end(s, j)),
    }
}

/// The fixed start of the answer of the Windows management query.
pub open spec fn wmic_preamble() -> Seq<char> {
    seq!['\r', '\r', '\n', '\r', '\r', '\n', 'V', 'e', 'r', 's', 'i', 'o', 'n', '=']
}

/// The management query's preamble, then a version, at the start of `s`.
pub open spec fn scan_wmic(s: Seq<char>) -> Result<(Version, int), (ParseErrorKind, int)> {
    match scan_literal(s, 0, wmic_preamble()) {
        Err(f) => Err(f),
        Ok(j) => scan_version(s, j),
    }
}

/// `r` is what the grammar's outcome `o` on the text `s` says: the version and
/// the text after it, or the kind of failure and the text from where it failed.
pub open spec fn agrees(r: Result<(&str, Version), ParseError>, s: Seq<char>, o: Result<(Version, int), (ParseErrorKind, int)>) -> bool {
    match o {
        Ok((v, e)) => match r {
            Ok((rest, w)) => w == v && rest@ == s.subrange(e, s.len() as int),
            Err(_) => false,
        },
        Err((k, p)) => match r {
            Ok(_) => false,
            Err(err) => err.kind == k && err.remainder@ == s.subrange(p, s.len() as int),
        },
    }
}

/// An outcome with positions in `0..=n` that equals the grammar's outcome `o`.
spec fn tracks<T>(r: Result<(T, usize), (ParseErrorKind, usize)>, o: Result<(T, int), (ParseErrorKind, int)>, n: usize) -> bool {
    match r {
        Ok((v, e)) => e <= n && o == Ok::<(T, int), (ParseErrorKind, int)>((v, e as int)),
        Err((k, p)) => p <= n && o == Err::<(T, int), (ParseErrorKind, int)>((k, p as int)),
    }
}

fn digit_at(input: &str, n: usize, k: usize) -> (b: bool)
    requires
        n == input@.len(),
    ensures
        b == (k < n && is_digit(input@[k as int])),
{
    if k < n {
        let c = input.get_char(k);
        '0' <= c && c <= '9'
    } else {
        false
    }
}

fn space_at(input: &str, n: usize, k: usize) -> (b: bool)
    requires
        n == input@.len(),
    ensures
        b == (k < n && is_space(input@[k as int])),
{
    if k < n {
        let c = input.get_char(k);
        c == ' ' || c == '\t'
    } else {
        false
    }
}

fn number_at(input: &str, n: usize, i: usize) -> (r: Result<(u32, usize), (ParseErrorKind, usize)>)
    requires
        n == input@.len(),
        i <= n,
    ensures
        tracks(r, scan_number(input@, i as int), n),
{
    let ghost s = input@;
    let mut k: usize = i;
    let mut value: u64 = 0;
    let mut big = false;
    assert(s.subrange(i as int, i as int) =~= Seq::<char>::empty());
    while digit_at(input, n, k)
        invariant
            n == s.len(),
            s == input@,
            i <= k <= n,
            digit_run_end(s, i as int) == digit_run_end(s, k as int),
            big ==> digits_value(s.subrange(i as int, k as int)) > u32::MAX,
            !big ==> value == digits_value(s.subrange(i as int, k as int)),
            !big ==> value <= u32::MAX,
        decreases n - k,
    {
        let c = input.get_char(k);
        let d = (c as u32) - 48;
        assert(s.subrange(i as int, k + 1).drop_last() =~= s.subrange(i as int, k as int));
        assert(digits_value(s.subrange(i as int, k + 1)) == digits_value(s.subrange(i as int, k as int)) * 10 + digit_value(c));
        if !big {
            let next = value * 10 + d as u64;
            if next > u32::MAX as u64 {
                big = true;
            } else {
                value = next;
            }
        }
        k = k + 1;
    }
    if k == i {
        Err((ParseErrorKind::Digits, i))
    } else if big {
        Err((ParseErrorKind::Range, i))
    } else {
        Ok((value as u32, k))
    }
}

fn component_at(input: &str, n: usize, i: usize) -> (r: Result<(u32, usize), (ParseErrorKind, usize)>)
    requires
        n == input@.len(),
        i <= n,
    ensures
        tracks(r, scan_component(input@, i as int), n),
{
    match number_at(input, n, i) {
        Err(f) => Err(f),
        Ok((v, j)) => {
            if j < n && input.get_char(j) == '.' {
                Ok((v, j + 1))
            } else {
                Err((ParseErrorKind::Separator, j))
            }
        },
    }
}

fn version_at(input: &str, n: usize, i: usize) -> (r: Result<(Version, usize), (ParseErrorKind, usize)>)
    requires
        n == input@.len(),
        i <= n,
    ensures
        tracks(r, scan_version(input@, i as int), n),
{
    let (major, i1) = match component_at(input, n, i) {
        Err(f) => return Err(f),
        Ok(x) => x,
    };
    let (minor, i2) = match component_at(input, n, i1) {
        Err(f) => return Err(f),
        Ok(x) => x,
    };
    let (build, i3) = match component_at(input, n, i2) {
        Err(f) => return Err(f),
        Ok(x) => x,
    };
    let (patch, i4) = match number_at(input, n, i3) {
        Err(f) => return Err(f),
        Ok(x) => x,
    };
    Ok((Version { major, minor, build, patch }, i4))
}

fn literal_at(input: &str, n: usize, i: usize, lit: &str) -> (r: Result<usize, (ParseErrorKind, usize)>)
    requires
        n == input@.len(),
        i <= n,
    ensures
        match r {
            Ok(e) => e <= n && scan_literal(input@, i as int, lit@) == Ok::<int, (ParseErrorKind, int)>(e as int),
            Err((k, p)) => p <= n && scan_literal(input@, i as int, lit@) == Err::<int, (ParseErrorKind, int)>((k, p as int)),
        },
{
    let m = lit.unicode_len();
    if m > n - i {
        return Err((ParseErrorKind::Literal, i));
    }
    let mut j: usize = 0;
    while j < m
        invariant
            n == input@.len(),
            m == lit@.len(),
            i + m <= n,
            j <= m,
            forall|t: int| 0 <= t < j ==> input@[i + t] == lit@[t],
        decreases m - j,
    {
        if input.get_char(i + j) != lit.get_char(j) {
            assert(input@.subrange(i as int, i + m)[j as int] != lit@[j as int]);
            return Err((ParseErrorKind::Literal, i));
        }
        j = j + 1;
    }
    assert(input@.subrange(i as int, i + m) =~= lit@);
    Ok(i + m)
}

fn space_end(input: &str, n: usize, i: usize) -> (e: usize)
    requires
        n == input@.len(),
        i <= n,
    ensures
        e as int == space_run_end(input@, i as int),
        e <= n,
{
    let mut k: usize = i;
    while space_at(input, n, k)
        invariant
            n == input@.len(),
            i <= k <= n,
            space_run_end(input@, i as int) == space_run_end(input@, k as int),
        decreases n - k,
    {
        k = k + 1;
    }
    k
}

proof fn lemma_digit_run_end(s: Seq<char>, i: int, e: int)
    requires
        0 <= i <= e <= s.len(),
        forall|j: int| i <= j < e ==> is_digit(#[trigger] s[j]),
        e == s.len() || !is_digit(s[e]),
    ensures
        digit_run_end(s, i) == e,
    decreases e - i,
{
    if i < e {
        lemma_digit_run_end(s, i + 1, e);
    }
}

/// The decimal text of `n` at `i`, not followed by a digit, scans as `n`.
proof fn lemma_scan_dec(s: Seq<char>, i: int, n: nat)
    requires
        n <= u32::MAX,
        0 <= i,
        i + dec_digits(n).len() <= s.len(),
        s.subrange(i, i + dec_digits(n).len()) == dec_digits(n),
        i + dec_digits(n).len() == s.len() || !is_digit(s[i + dec_digits(n).len()]),
    ensures
        scan_number(s, i) == Ok::<(u32, int), (ParseErrorKind, int)>((n as u32, i + dec_digits(n).len())),
{
    let e = i + dec_digits(n).len();
    lemma_dec_digits_are_digits(n);
    lemma_dec_digits_value(n);
    assert forall|j: int| i <= j < e implies is_digit(#[trigger] s[j]) by {
        assert(s[j] == s.subrange(i, e)[j - i]);
    }
    lemma_digit_run_end(s, i, e);
}

/// Reading back the canonical text of a version gives that version, with
/// nothing left over.
pub proof fn lemma_parse_render_round_trip(v: Version)
    ensures
        scan_version(v.render(), 0) == Ok::<(Version, int), (ParseErrorKind, int)>((v, v.render().len() as int)),
{
    let a = dec_digits(v.major as nat);
    let b = dec_digits(v.minor as nat);
    let c = dec_digits(v.build as nat);
    let d = dec_digits(v.patch as nat);
    let s = v.render();
    lemma_dec_digits_are_digits(v.minor as nat);
    lemma_dec_digits_are_digits(v.build as nat);
    lemma_dec_digits_are_digits(v.patch as nat);
    let i1: int = a.len() as int + 1;
    let i2: int = i1 + b.len() + 1;
    let i3: int = i2 + c.len() + 1;
    assert(s.len() == i3 + d.len());
    assert(s.subrange(0, a.len() as int) =~= a);
    assert(s[a.len() as int] == '.');
    lemma_scan_dec(s, 0, v.major as nat);
    assert(s.subrange(i1, i1 + b.len()) =~= b);
    assert(s[i1 + b.len()] == '.');
    lemma_scan_dec(s, i1, v.minor as nat);
    assert(s.subrange(i2, i2 + c.len()) =~= c);
    assert(s[i2 + c.len()] == '.');
    lemma_scan_dec(s, i2, v.build as nat);
    assert(s.subrange(i3, i3 + d.len()) =~= d);
    lemma_scan_dec(s, i3, v.patch as nat);
}

/// Turns a positioned outcome into the parsers' result form.
fn finish<'a>(input: &'a str, n: usize, r: Result<(Version, usize), (ParseErrorKind, usize)>) -> (out: Result<(&'a str, Version), ParseError>)
    requires
        n == input@.len(),
        match r {
            Ok((_, e)) => e <= n,
            Err((_, p)) => p <= n,
        },
    ensures
        match r {
            Ok((v, e)) => agrees(out, input@, Ok::<(Version, int), (ParseErrorKind, int)>((v, e as int))),
            Err((k, p)) => agrees(out, input@, Err::<(Version, int), (ParseErrorKind, int)>((k, p as int))),
        },
{
    match r {
        Ok((v, e)) => Ok((input.substring_char(e, n), v)),
        Err((kind, p)) => Err(ParseError { kind, remainder: String::from_str(input.substring_char(p, n)) }),
    }
}

/// Parses four dot-separated numbers at the start of `input`, such as
/// `89.0.4389.23`; what follows them is returned untouched.
pub fn parse_version_numbers(input: &str) -> (r: Result<(&str, Version), ParseError>)
    ensures
        agrees(r, input@, scan_version(input@, 0)),
{
    let n = input.unicode_len();
    let o = version_at(input, n, 0);
    finish(input, n, o)
}

/// Parses `application`, then spaces and tabs, then four dot-separated
/// numbers, at the start of `input`; what follows is returned untouched.
pub fn parse_version_output<'a>(input: &'a str, application: &'a str) -> (r: Result<(&'a str, Version), ParseError>)
    ensures
        agrees(r, input@, scan_labeled(input@, application@)),
{
    let n = input.unicode_len();
    let o = match literal_at(input, n, 0, application) {
        Err(f) => Err(f),
        Ok(j) => {
            let k = space_end(input, n, j);
            version_at(input, n, k)
        },
    };
    finish(input, n, o)
}

/// Parses the output of `chromedriver --version`, such as
/// `ChromeDriver 89.0.4389.23 (61b08ee2c50024bab004e48d2b1b083cdbdac579-refs/branch-heads/4389@{#294})`.
pub fn parse_chromedriver_version_output(input: &str) -> (r: Result<(&str, Version), ParseError>)
    ensures
        agrees(r, input@, scan_labeled(input@, "ChromeDriver"@)),
{
    parse_version_output(input, "ChromeDriver")
}

/// Parses the output of `google-chrome --version`, such as `Google Chrome 109.0.5414.87`.
pub fn parse_chromium_version_output(input: &str) -> (r: Result<(&str, Version), ParseError>)
    ensures
        agrees(r, input@, scan_labeled(input@, "Google Chrome"@)),
{
    parse_version_output(input, "Google Chrome")
}

/// Parses the answer of the Windows management query for a file's version:
/// two lines ended by `\r\r\n`, then `Version=` and four dot-separated numbers.
pub fn parse_wmic_version(input: &str) -> (r: Result<(&str, Version), ParseError>)
    ensures
        agrees(r, input@, scan_wmic(input@)),
{
    let preamble = "\r\r\n\r\r\nVersion=";
    proof {
        reveal_strlit("\r\r\n\r\r\nVersion=");
        assert(preamble@ =~= wmic_preamble());
    }
    let n = input.unicode_len();
    let o = match literal_at(input, n, 0, preamble) {
        Err(f) => Err(f),
        Ok(j) => version_at(input, n, j),
    };
    finish(input, n, o)
}

} // verus!

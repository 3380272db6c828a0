use vstd::prelude::*;

verus! {

/// A four-part version number `major.minor.build.patch`.
#[derive(PartialEq, Eq, Structural, Debug, Clone, Copy)]
pub struct Version {
    pub major: u32,
    pub minor: u32,
    pub build: u32,
    pub patch: u32,
}

/// The character of a decimal digit `d < 10`.
pub open spec fn digit_char(d: nat) -> char {
    ((d + 48) as u8) as char
}

pub open spec fn is_digit(c: char) -> bool {
    '0' <= c <= '9'
}

/// The value of a digit character.
pub open spec fn digit_value(c: char) -> nat {
    ((c as u32) - 48) as nat
}

/// The shortest decimal writing of `n`: no sign, no leading zero.
pub open spec fn dec_digits(n: nat) -> Seq<char>
    decreases n,
{
    if n < 10 {
        seq![digit_char(n)]
    } else {
        dec_digits(n / 10).push(digit_char(n % 10))
    }
}

/// The number that a sequence of digits writes in base ten.
pub open spec fn digits_value(s: Seq<char>) -> nat
    decreases s.len(),
{
    if s.len() == 0 {
        0
    } else {
        digits_value(s.drop_last()) * 10 + digit_value(s.last())
    }
}

impl Version {
    /// The canonical text `major.minor.build.patch`.
    pub open spec fn render(self) -> Seq<char> {
        dec_digits(self.major as nat) + seq!['.'] + dec_digits(self.minor as nat) + seq!['.']
            + dec_digits(self.build as nat) + seq!['.'] + dec_digits(self.patch as nat)
    }

    pub fn new(major: u32, minor: u32, build: u32, patch: u32) -> (r: Self)
        ensures
            r == (Version { major, minor, build, patch }),
    {
        Self { major, minor, build, patch }
    }

    /// Renders the version as `major.minor.build.patch`.
    pub fn to_string(&self) -> (r: String)
        ensures
            r@ == self.render(),
    {
        let mut s = dec_string(self.major);
        s.append(".");
        let t = dec_string(self.minor);
        s.append(t.as_str());
        s.append(".");
        let t = dec_string(self.build);
        s.append(t.as_str());
        s.append(".");
        let t = dec_string(self.patch);
        s.append(t.as_str());
        proof {
            reveal_strlit(".");
        }
        s
    }
}

/// The one-character text of a digit `d < 10`.
fn digit_str(d: u32) -> (r: &'static str)
    requires
        d < 10,
    ensures
        r@ == seq![digit_char(d as nat)],
{
    proof {
        reveal_strlit("0");
        reveal_strlit("1");
        reveal_strlit("2");
        reveal_strlit("3");
        reveal_strlit("4");
        reveal_strlit("5");
        reveal_strlit("6");
        reveal_strlit("7");
        reveal_strlit("8");
        reveal_strlit("9");
    }
    let r = match d {
        0 => "0",
        1 => "1",
        2 => "2",
        3 => "3",
        4 => "4",
        5 => "5",
        6 => "6",
        7 => "7",
        8 => "8",
        _ => "9",
    };
    assert(r@ =~= seq![digit_char(d as nat)]);
    r
}

/// The decimal text of `n`.
pub fn dec_string(n: u32) -> (r: String)
    ensures
        r@ == dec_digits(n as nat),
    decreases n,
{
    if n < 10 {
        String::from_str(digit_str(n))
    } else {
        let mut s = dec_string(n / 10);
        s.append(digit_str(n % 10));
        s
    }
}

/// Every character of a decimal writing is a digit, and there is at least one.
pub proof fn lemma_dec_digits_are_digits(n: nat)
    ensures
        dec_digits(n).len() >= 1,
        forall|j: int| 0 <= j < dec_digits(n).len() ==> is_digit(#[trigger] dec_digits(n)[j]),
    decreases n,
{
    if n >= 10 {
        lemma_dec_digits_are_digits(n / 10);
    }
}

/// Reading back a decimal writing gives the number written.
pub proof fn lemma_dec_digits_value(n: nat)
    ensures
        digits_value(dec_digits(n)) == n,
    decreases n,
{
    if n < 10 {
        assert(seq![digit_char(n)].drop_last() =~= Seq::<char>::empty());
        assert(digit_value(digit_char(n)) == n);
        assert(dec_digits(n).last() == digit_char(n));
        assert(digits_value(dec_digits(n)) == digits_value(Seq::<char>::empty()) * 10 + n);
    } else {
        lemma_dec_digits_value(n / 10);
        assert(dec_digits(n).drop_last() =~= dec_digits(n / 10));
        assert(digit_value(digit_char(n % 10)) == n % 10);
        assert(n == (n / 10) * 10 + n % 10);
        assert(dec_digits(n).last() == digit_char(n % 10));
        assert(digits_value(dec_digits(n)) == digits_value(dec_digits(n / 10)) * 10 + n % 10);
    }
}

} // verus!

//! Scalar versions: a manifest value that is a text, a real number or a
//! small whole number, together with its textual form and the rule that
//! decides which of the three a bare token stands for.
use vstd::prelude::*;

verus! {

/// Appending one character to a `String` (`String::push`): afterwards the
/// string holds what it held, followed by that character.
pub assume_specification[ std::string::String::push ](s: &mut std::string::String, c: char)
    ensures
        final(s)@ == old(s)@.push(c),
;

/// The mathematical value of a scalar version.
pub enum Scalar {
    /// Any text that is not taken for a number.
    Text(Seq<char>),
    /// A real number, held as the digits it was written with.
    Real(Seq<char>),
    /// A whole number below 65536.
    Whole(nat),
}

/// A version as a manifest states it.
///
/// Two versions are ordered by variant first (`String`, then `Float`, then
/// `Int`) and by what they hold second. A `Float` carries the text of the
/// number, so two reals compare as texts: the order is structural, and it
/// is not the numeric order across or within variants.
#[derive(Debug, Clone)]
pub enum Version {
    /// A text, such as `7.3.2` or `v1`.
    String(String),
    /// A real number, as the text that denotes it, such as `7.1`.
    Float(String),
    /// A whole number, such as `7`.
    Int(u16),
}

impl View for Version {
    type V = Scalar;

    open spec fn view(&self) -> Scalar {
        match self {
            Version::String(s) => Scalar::Text(s@),
            Version::Float(s) => Scalar::Real(s@),
            Version::Int(n) => Scalar::Whole(*n as nat),
        }
    }
}

/// The character that stands for a digit below ten.
pub open spec fn digit_char(d: nat) -> char {
    if d == 0 {
        '0'
    } else if d == 1 {
        '1'
    } else if d == 2 {
        '2'
    } else if d == 3 {
        '3'
    } else if d == 4 {
        '4'
    } else if d == 5 {
        '5'
    } else if d == 6 {
        '6'
    } else if d == 7 {
        '7'
    } else if d == 8 {
        '8'
    } else {
        '9'
    }
}

/// The decimal numeral of `n`, without leading zeros.
pub open spec fn decimal(n: nat) -> Seq<char>
    decreases n,
{
    if n < 10 {
        seq![digit_char(n)]
    } else {
        decimal(n / 10).push(digit_char(n % 10))
    }
}

/// The textual form of a scalar: a text or a real as it stands, a whole
/// number as its decimal numeral.
pub open spec fn scalar_text(v: Scalar) -> Seq<char> {
    match v {
        Scalar::Text(s) => s,
        Scalar::Real(s) => s,
        Scalar::Whole(n) => decimal(n),
    }
}

fn digit_of(d: u16) -> (c: char)
    requires
        d < 10,
    ensures
        c == digit_char(d as nat),
{
    if d == 0 {
        '0'
    } else if d == 1 {
        '1'
    } else if d == 2 {
        '2'
    } else if d == 3 {
        '3'
    } else if d == 4 {
        '4'
    } else if d == 5 {
        '5'
    } else if d == 6 {
        '6'
    } else if d == 7 {
        '7'
    } else if d == 8 {
        '8'
    } else {
        '9'
    }
}

/// The decimal numeral of a whole number, as a string.
pub fn decimal_text(n: u16) -> (r: String)
    ensures
        r@ == decimal(n as nat),
    decreases n,
{
    if n < 10 {
        let mut s = String::new();
        s.push(digit_of(n));
        s
    } else {
        let mut s = decimal_text(n / 10);
        s.push(digit_of(n % 10));
        s
    }
}

/// The value of a digit character, and -1 for any other character.
pub open spec fn digit_value(c: char) -> int {
    if c == '0' {
        0
    } else if c == '1' {
        1
    } else if c == '2' {
        2
    } else if c == '3' {
        3
    } else if c == '4' {
        4
    } else if c == '5' {
        5
    } else if c == '6' {
        6
    } else if c == '7' {
        7
    } else if c == '8' {
        8
    } else if c == '9' {
        9
    } else {
        -1
    }
}

/// The index of the first character at or after `from` that is no digit, or
/// the length of `s` where digits run to its end.
pub open spec fn digit_run(s: Seq<char>, from: int) -> int
    decreases s.len() - from,
{
    if 0 <= from < s.len() && digit_value(s[from]) >= 0 {
        digit_run(s, from + 1)
    } else {
        from
    }
}

/// The number that a sequence of digits denotes, read from the left.
pub open spec fn numeral_value(s: Seq<char>) -> int
    decreases s.len(),
{
    if s.len() == 0 {
        0
    } else {
        numeral_value(s.drop_last()) * 10 + digit_value(s.last())
    }
}

/// The integer pattern: one to five digits, no leading zero but in `0`
/// itself, and a value below 65536.
pub open spec fn is_whole(s: Seq<char>) -> bool {
    &&& 1 <= s.len() <= 5
    &&& digit_run(s, 0) == s.len()
    &&& (s.len() > 1 ==> s[0] != '0')
    &&& numeral_value(s) <= 65535
}

/// Where the digits of a number start: behind one leading sign, if any.
pub open spec fn after_sign(s: Seq<char>) -> int {
    if s.len() > 0 && (s[0] == '-' || s[0] == '+') {
        1
    } else {
        0
    }
}

/// The float pattern: an optional sign, one or more digits and, optionally,
/// a point followed by one or more digits.
pub open spec fn is_real(s: Seq<char>) -> bool {
    let start = after_sign(s);
    let point = digit_run(s, start);
    &&& point > start
    &&& (point == s.len() || (s[point] == '.' && point + 1 < s.len() && digit_run(s, point + 1)
        == s.len()))
}

/// The scalar that a bare token stands for: a whole number where it has the
/// integer pattern, else a real where it has the float pattern, else a text.
pub open spec fn classify_token(s: Seq<char>) -> Scalar {
    if is_whole(s) {
        Scalar::Whole(numeral_value(s) as nat)
    } else if is_real(s) {
        Scalar::Real(s)
    } else {
        Scalar::Text(s)
    }
}

fn value_of(c: char) -> (d: Option<u16>)
    ensures
        match d {
            Some(v) => v as int == digit_value(c),
            None => digit_value(c) == -1,
        },
{
    if c == '0' {
        Some(0)
    } else if c == '1' {
        Some(1)
    } else if c == '2' {
        Some(2)
    } else if c == '3' {
        Some(3)
    } else if c == '4' {
        Some(4)
    } else if c == '5' {
        Some(5)
    } else if c == '6' {
        Some(6)
    } else if c == '7' {
        Some(7)
    } else if c == '8' {
        Some(8)
    } else if c == '9' {
        Some(9)
    } else {
        None
    }
}

/// A run of digits that starts at `from` ends where `digit_run` says, seen
/// from any index inside the run.
proof fn digit_run_step(s: Seq<char>, from: int, at: int)
    requires
        0 <= from <= at <= s.len(),
        forall|j: int| from <= j < at ==> digit_value(#[trigger] s[j]) >= 0,
    ensures
        digit_run(s, from) == digit_run(s, at),
    decreases at - from,
{
    if from < at {
        digit_run_step(s, from + 1, at);
    }
}

fn scan_digits(s: &str, len: usize, from: usize) -> (end: usize)
    requires
        len == s@.len(),
        from <= len,
    ensures
        end == digit_run(s@, from as int),
        from <= end <= len,
{
    let mut at: usize = from;
    while at < len
        invariant
            len == s@.len(),
            from <= at <= len,
            forall|j: int| from <= j < at ==> digit_value(#[trigger] s@[j]) >= 0,
        decreases len - at,
    {
        if value_of(s.get_char(at)).is_none() {
            proof {
                digit_run_step(s@, from as int, at as int);
            }
            return at;
        }
        at = at + 1;
    }
    proof {
        digit_run_step(s@, from as int, at as int);
    }
    at
}

fn whole_of(s: &str, len: usize) -> (r: Option<u16>)
    requires
        len == s@.len(),
    ensures
        match r {
            Some(n) => is_whole(s@) && n as int == numeral_value(s@),
            None => !is_whole(s@),
        },
{
    if len < 1 || len > 5 || scan_digits(s, len, 0) != len {
        return None;
    }
    if len > 1 && s.get_char(0) == '0' {
        return None;
    }
    let mut acc: u32 = 0;
    let mut at: usize = 0;
    while at < len
        invariant
            len == s@.len(),
            len <= 5,
            at <= len,
            digit_run(s@, 0) == len,
            acc as int == numeral_value(s@.take(at as int)),
            acc as int <= pow10(at as nat) - 1,
        decreases len - at,
    {
        proof {
            digits_before_run(s@, 0, at as int);
            assert(s@.take(at as int + 1).drop_last() =~= s@.take(at as int));
            pow10_small(at as nat);
        }
        let d = value_of(s.get_char(at));
        match d {
            Some(v) => {
                acc = acc * 10 + v as u32;
            },
            None => {
                return None;
            },
        }
        at = at + 1;
    }
    assert(s@.take(len as int) =~= s@);
    if acc <= 65535 {
        Some(acc as u16)
    } else {
        None
    }
}

/// The whole number that `s` denotes, where `s` has the integer pattern.
pub fn whole_text(s: &str) -> (r: Option<u16>)
    ensures
        match r {
            Some(n) => is_whole(s@) && n as int == numeral_value(s@),
            None => !is_whole(s@),
        },
{
    whole_of(s, s.unicode_len())
}

fn real_form(s: &str, len: usize) -> (r: bool)
    requires
        len == s@.len(),
    ensures
        r == is_real(s@),
{
    let mut start: usize = 0;
    if len > 0 {
        let first = s.get_char(0);
        if first == '-' || first == '+' {
            start = 1;
        }
    }
    let point = scan_digits(s, len, start);
    if point <= start {
        return false;
    }
    if point == len {
        return true;
    }
    if s.get_char(point) != '.' || point + 1 >= len {
        return false;
    }
    scan_digits(s, len, point + 1) == len
}

/// Ten to the power `k`.
spec fn pow10(k: nat) -> int
    decreases k,
{
    if k == 0 {
        1
    } else {
        10 * pow10((k - 1) as nat)
    }
}

proof fn pow10_small(k: nat)
    requires
        k <= 5,
    ensures
        1 <= pow10(k) <= 100000,
        pow10(k + 1) == 10 * pow10(k),
{
    reveal_with_fuel(pow10, 8);
}

/// Every index before the end of a digit run holds a digit.
proof fn digits_before_run(s: Seq<char>, from: int, at: int)
    requires
        0 <= from <= at < digit_run(s, from),
    ensures
        at < s.len(),
        digit_value(s[at]) >= 0,
    decreases at - from,
{
    if from < at {
        digits_before_run(s, from + 1, at);
    }
}

impl Version {
    /// The textual form of this version.
    pub fn to_text(&self) -> (r: String)
        ensures
            r@ == scalar_text(self@),
    {
        match self {
            Version::String(s) => s.clone(),
            Version::Float(s) => s.clone(),
            Version::Int(n) => decimal_text(*n),
        }
    }

    /// The version that a bare token stands for. The integer pattern is
    /// tried first, then the float pattern; what has neither is a text.
    pub fn classify(token: &str) -> (r: Version)
        ensures
            r@ == classify_token(token@),
    {
        let len = token.unicode_len();
        match whole_of(token, len) {
            Some(n) => Version::Int(n),
            None => {
                if real_form(token, len) {
                    Version::Float(String::from_str(token))
                } else {
                    Version::String(String::from_str(token))
                }
            },
        }
    }
}

/// Whether a scalar is the one that its own textual form stands for: any
/// whole number; a real whose text has the float pattern and not the
/// integer pattern; a text that has neither pattern.
pub open spec fn reads_as_itself(v: Scalar) -> bool {
    match v {
        Scalar::Text(s) => !is_whole(s) && !is_real(s),
        Scalar::Real(s) => !is_whole(s) && is_real(s),
        Scalar::Whole(n) => true,
    }
}

proof fn decimal_is_numeral(n: nat)
    ensures
        decimal(n).len() >= 1,
        digit_run(decimal(n), 0) == decimal(n).len(),
        numeral_value(decimal(n)) == n,
        n > 0 ==> decimal(n)[0] != '0',
    decreases n,
{
    let s = decimal(n);
    if n < 10 {
        assert(numeral_value(s.drop_last()) == 0);
        digit_run_step(s, 0, 1);
    } else {
        let d = decimal(n / 10);
        decimal_is_numeral(n / 10);
        assert(s.drop_last() =~= d);
        assert forall|j: int| 0 <= j < s.len() implies digit_value(#[trigger] s[j]) >= 0 by {
            if j < d.len() {
                digits_before_run(d, 0, j);
            }
        }
        digit_run_step(s, 0, s.len() as int);
    }
}

proof fn decimal_is_short(n: nat)
    requires
        n <= 65535,
    ensures
        decimal(n).len() <= 5,
{
    reveal_with_fuel(decimal, 6);
}

/// The textual form of a version stands for that same version exactly
/// where the version reads as itself. Every `Int` does; a `String` such as
/// `7` does not, since its text has the integer pattern.
pub proof fn text_round_trip(v: Version)
    ensures
        classify_token(scalar_text(v@)) == v@ <==> reads_as_itself(v@),
        v is Int ==> classify_token(scalar_text(v@)) == v@,
{
    match v {
        Version::Int(n) => {
            decimal_is_numeral(n as nat);
            decimal_is_short(n as nat);
        },
        _ => {},
    }
}

} // verus!

//! Text handling shared by the other modules: decimal numbers, prefixes and
//! substring search, all stated over `Seq<char>`.

use vstd::prelude::*;
use vstd::std_specs::iter::IteratorSpec;
use vstd::string::*;

verus! {

/// Whether `c` is one of the decimal digits `0` to `9`.
pub open spec fn is_digit(c: char) -> bool {
    '0' <= c <= '9'
}

/// The number that the decimal digit `c` stands for.
pub open spec fn digit_value(c: char) -> nat {
    (c as int - '0' as int) as nat
}

/// The decimal digit that stands for `d`, for `d` below ten.
pub open spec fn digit_char(d: nat) -> char {
    (d + '0' as nat) as char
}

/// Whether every character of `s` is a decimal digit.
pub open spec fn all_digits(s: Seq<char>) -> bool {
    forall|i: int| 0 <= i < s.len() ==> is_digit(#[trigger] s[i])
}

/// The number written by the digits `digits`, read as base ten, the most
/// significant digit first. The empty sequence stands for zero.
pub open spec fn decimal_value(digits: Seq<char>) -> nat
    decreases digits.len(),
{
    if digits.len() == 0 {
        0
    } else {
        10 * decimal_value(digits.drop_last()) + digit_value(digits.last())
    }
}

/// The shortest decimal writing of `n`: no sign, and no leading zero except
/// for zero itself.
pub open spec fn decimal_text(n: nat) -> Seq<char>
    decreases n,
{
    if n < 10 {
        seq![digit_char(n)]
    } else {
        decimal_text(n / 10).push(digit_char(n % 10))
    }
}

/// `s` without its leading `+`, if it has one.
pub open spec fn without_plus(s: Seq<char>) -> Seq<char> {
    if s.len() > 0 && s[0] == '+' {
        s.drop_first()
    } else {
        s
    }
}

/// The port number that `s` writes, if it writes one: an optional `+`, then
/// one or more decimal digits and nothing else, with a value of at most 65535.
/// Leading zeros are accepted; spaces, a `-` and an empty text are not.
pub open spec fn port_number(s: Seq<char>) -> Option<u16> {
    let digits = without_plus(s);
    if digits.len() > 0 && all_digits(digits) && decimal_value(digits) <= u16::MAX {
        Some(decimal_value(digits) as u16)
    } else {
        None
    }
}

/// The part of `s` before the first occurrence of `stop`; all of `s` where
/// `stop` does not occur.
pub open spec fn prefix_before(s: Seq<char>, stop: char) -> Seq<char>
    decreases s.len(),
{
    if s.len() == 0 || s[0] == stop {
        Seq::empty()
    } else {
        seq![s[0]] + prefix_before(s.drop_first(), stop)
    }
}

/// Whether `needle` stands in `hay` at position `at`.
pub open spec fn occurs_at(needle: Seq<char>, hay: Seq<char>, at: int) -> bool {
    &&& 0 <= at
    &&& at + needle.len() <= hay.len()
    &&& hay.subrange(at, at + needle.len()) == needle
}

/// Whether `needle` occurs somewhere in `hay` as a contiguous run of
/// characters, compared exactly. The empty text occurs in every text.
pub open spec fn is_substring(needle: Seq<char>, hay: Seq<char>) -> bool {
    exists|at: int| occurs_at(needle, hay, at)
}

/// A value of a longer digit sequence is at least that of any of its prefixes.
pub proof fn lemma_decimal_value_grows(digits: Seq<char>, k: int)
    requires
        0 <= k <= digits.len(),
    ensures
        decimal_value(digits.take(k)) <= decimal_value(digits),
    decreases digits.len() - k,
{
    if k == digits.len() {
        assert(digits.take(k) == digits);
    } else {
        lemma_decimal_value_grows(digits.drop_last(), k);
        assert(digits.drop_last().take(k) == digits.take(k));
    }
}

/// The decimal writing of a number is made of digits, at least one, and
/// writes that number.
pub proof fn lemma_decimal_text(n: nat)
    ensures
        decimal_text(n).len() > 0,
        all_digits(decimal_text(n)),
        decimal_value(decimal_text(n)) == n,
    decreases n,
{
    if n < 10 {
        let text = decimal_text(n);
        assert(text.drop_last() == Seq::<char>::empty());
        assert(decimal_value(text.drop_last()) == 0);
    } else {
        lemma_decimal_text(n / 10);
        let front = decimal_text(n / 10);
        let text = decimal_text(n);
        assert(text.drop_last() == front);
        assert forall|i: int| 0 <= i < text.len() implies is_digit(#[trigger] text[i]) by {
            if i < front.len() {
                assert(text[i] == front[i]);
            }
        }
    }
}

/// Reading the decimal writing of a port number gives the number back.
pub proof fn lemma_port_number_of_decimal_text(port: u16)
    ensures
        port_number(decimal_text(port as nat)) == Some(port),
{
    lemma_decimal_text(port as nat);
    assert(is_digit(decimal_text(port as nat)[0]));
}

/// What the prefix before `stop` is, said without recursion: it is the part of
/// `s` up to a position that holds `stop` or ends `s`, with no `stop` before it.
pub proof fn lemma_prefix_before(s: Seq<char>, stop: char, k: int)
    requires
        0 <= k <= s.len(),
        forall|i: int| 0 <= i < k ==> s[i] != stop,
        k == s.len() || s[k] == stop,
    ensures
        prefix_before(s, stop) == s.take(k),
    decreases s.len(),
{
    if k == 0 {
        assert(s.take(0) == Seq::<char>::empty());
    } else {
        let rest = s.drop_first();
        assert forall|i: int| 0 <= i < k - 1 implies rest[i] != stop by {
            assert(rest[i] == s[i + 1]);
        }
        lemma_prefix_before(rest, stop, k - 1);
        assert(seq![s[0]] + rest.take(k - 1) == s.take(k));
    }
}

/// Appends `string` to `strings`.
pub fn push_string(strings: &mut Vec<String>, string: String)
    ensures
        final(strings).deep_view() == old(strings).deep_view().push(string@),
{
    let ghost before = strings.deep_view();
    strings.push(string);
    assert forall|i: int| 0 <= i < before.len() implies strings.deep_view()[i] == before[i] by {
        assert(before[i] == old(strings)@[i]@);
    }
    assert(strings.deep_view() =~= before.push(string@));
}

/// The characters of `s`, in order.
pub fn to_chars(s: &str) -> (chars: Vec<char>)
    ensures
        chars@ == s@,
{
    let mut chars: Vec<char> = Vec::new();
    for c in it: s.chars()
        invariant
            chars@ == it.seq().take(it.index() as int),
            it.seq() == s@,
    {
        chars.push(c);
    }
    chars
}

/// Reads a port number from `chars[from..to]`.
pub fn parse_digits(chars: &Vec<char>, from: usize, to: usize) -> (port: Option<u16>)
    requires
        from <= to <= chars.len(),
    ensures
        port == port_number(chars@.subrange(from as int, to as int)),
{
    let ghost text = chars@.subrange(from as int, to as int);
    let mut at: usize = from;
    if at < to && chars[at] == '+' {
        at = at + 1;
    }
    let ghost digits = chars@.subrange(at as int, to as int);
    assert(digits == without_plus(text));
    if at == to {
        return None;
    }
    let start: usize = at;
    let mut value: u32 = 0;
    while at < to
        invariant
            from <= start <= at <= to <= chars.len(),
            text == chars@.subrange(from as int, to as int),
            digits == without_plus(text),
            digits == chars@.subrange(start as int, to as int),
            digits.len() > 0,
            all_digits(digits.take(at - start)),
            value == decimal_value(digits.take(at - start)),
            value <= u16::MAX,
        decreases to - at,
    {
        let c: char = chars[at];
        assert(c == digits[at - start]);
        if !('0' <= c && c <= '9') {
            return None;
        }
        let d: u32 = c as u32 - '0' as u32;
        let ghost longer = digits.take(at - start + 1);
        assert(longer.drop_last() == digits.take(at - start));
        assert(longer.last() == c);
        value = value * 10 + d;
        assert(value == decimal_value(longer));
        if value > 65535 {
            proof {
                lemma_decimal_value_grows(digits, at - start + 1);
            }
            return None;
        }
        at = at + 1;
    }
    assert(digits.take(at - start) == digits);
    Some(value as u16)
}

/// Where the first `stop` stands in `chars`, or the length of `chars` where
/// there is none.
pub fn find_char(chars: &Vec<char>, stop: char) -> (at: usize)
    ensures
        at <= chars.len(),
        forall|i: int| 0 <= i < at ==> chars[i] != stop,
        at == chars.len() || chars[at as int] == stop,
        prefix_before(chars@, stop) == chars@.take(at as int),
{
    let mut at: usize = 0;
    while at < chars.len() && chars[at] != stop
        invariant
            at <= chars.len(),
            forall|i: int| 0 <= i < at ==> chars[i] != stop,
        decreases chars.len() - at,
    {
        at = at + 1;
    }
    proof {
        lemma_prefix_before(chars@, stop, at as int);
    }
    at
}

/// The one-character text of the decimal digit for `d`.
fn digit_text(d: u16) -> (text: &'static str)
    requires
        d < 10,
    ensures
        text@ == seq![digit_char(d as nat)],
{
    proof {
        reveal_strlit("0");
        reveal_strlit("1");
        reveal_strlit("2");
        reveal_strlit("3");
        reveal_strlit("4");
        reveal_strlit("5");
        reveal_strlit("6");
        reveal_strlit("7");
        reveal_strlit("8");
        reveal_strlit("9");
    }
    let text = if d == 0 {
        "0"
    } else if d == 1 {
        "1"
    } else if d == 2 {
        "2"
    } else if d == 3 {
        "3"
    } else if d == 4 {
        "4"
    } else if d == 5 {
        "5"
    } else if d == 6 {
        "6"
    } else if d == 7 {
        "7"
    } else if d == 8 {
        "8"
    } else {
        "9"
    };
    assert(text@ =~= seq![digit_char(d as nat)]);
    text
}

/// Writes `n` in decimal at the end of `out`.
pub fn push_decimal(out: &mut String, n: u16)
    ensures
        final(out)@ == old(out)@ + decimal_text(n as nat),
    decreases n,
{
    if n >= 10 {
        push_decimal(out, n / 10);
    }
    out.append(digit_text(n % 10));
}

/// Whether `needle` occurs in `hay`. This is `str::contains` of the standard
/// library with a string as the pattern, which the library documents as true
/// exactly when the pattern matches a sub-slice of the text; the contract says
/// the same over the characters of both.
#[verifier::external_body]
pub(crate) fn contains(hay: &str, needle: &str) -> (found: bool)
    ensures
        found == is_substring(needle@, hay@),
{
    hay.contains(needle)
}

} // verus!

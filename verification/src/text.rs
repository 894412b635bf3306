//! Text building blocks: equality of strings, decimal numbers and the parts of
//! a string before a separator.
use vstd::prelude::*;

verus! {

/// `String::push` appends one character to the text.
pub assume_specification[ String::push ](s: &mut String, c: char)
    ensures
        final(s)@ == old(s)@.push(c),
;

/// Whether two strings hold the same characters.
pub fn same_text(a: &str, b: &str) -> (same: bool)
    ensures
        same == (a@ == b@),
{
    a.to_owned() == b.to_owned()
}

/// The strings one after the other.
pub fn joined(a: &str, b: &str) -> (text: String)
    ensures
        text@ == a@ + b@,
{
    let mut text = a.to_owned();
    text.append(b);
    text
}

/// The decimal digit of a number below ten.
pub open spec fn digit(d: nat) -> char {
    (48 + d) as char
}

/// A number in decimal, without leading zeros.
pub open spec fn decimal(n: nat) -> Seq<char>
    decreases n,
{
    if n < 10 {
        seq![digit(n)]
    } else {
        decimal(n / 10).push(digit(n % 10))
    }
}

/// Appends `n` in decimal to a text.
pub fn push_decimal(text: &mut String, n: u128)
    ensures
        final(text)@ == old(text)@ + decimal(n as nat),
    decreases n,
{
    let d: u8 = 48 + (n % 10) as u8;
    if n >= 10 {
        push_decimal(text, n / 10);
    }
    text.push(d as char);
}

/// An integer in decimal, with a minus sign if it is negative.
pub open spec fn signed(n: int) -> Seq<char> {
    if n < 0 {
        "-"@ + decimal((-n) as nat)
    } else {
        decimal(n as nat)
    }
}

/// An integer in decimal.
pub fn signed_text(n: i128) -> (text: String)
    ensures
        text@ == signed(n as int),
{
    if n < 0 {
        let mut text = "-".to_owned();
        push_decimal(&mut text, (-(n + 1)) as u128 + 1);
        text
    } else {
        decimal_text(n as u128)
    }
}

/// A number in decimal.
pub fn decimal_text(n: u128) -> (text: String)
    ensures
        text@ == decimal(n as nat),
{
    let mut text = String::new();
    push_decimal(&mut text, n);
    assert(Seq::<char>::empty() + decimal(n as nat) =~= decimal(n as nat));
    text
}

/// A text between quotation marks, with escapes, as `std` writes it for debugging.
pub uninterp spec fn quoted(text: Seq<char>) -> Seq<char>;

/// Quotes a text with the `Debug` format of `str`.
///
/// Trusted: the outcome depends on the text alone.
#[verifier::external_body]
pub(crate) fn quote(text: &str) -> (q: String)
    ensures
        q@ == quoted(text@),
{
    format!("{text:?}")
}

/// The characters of `s` before the first `stop`, or all of them if there is none.
pub open spec fn before_first(s: Seq<char>, stop: char) -> Seq<char>
    decreases s.len(),
{
    if s.len() == 0 || s[0] == stop {
        Seq::empty()
    } else {
        seq![s[0]] + before_first(s.drop_first(), stop)
    }
}

/// What precedes the first `stop` holds no `stop`, is a prefix of `s`, and is
/// either all of `s` or followed by `stop`.
pub proof fn lemma_before_first(s: Seq<char>, stop: char)
    ensures
        before_first(s, stop).len() <= s.len(),
        before_first(s, stop) == s.take(before_first(s, stop).len() as int),
        !before_first(s, stop).contains(stop),
        before_first(s, stop).len() < s.len() ==> s[before_first(s, stop).len() as int] == stop,
    decreases s.len(),
{
    if s.len() == 0 || s[0] == stop {
    } else {
        lemma_before_first(s.drop_first(), stop);
        let rest = before_first(s.drop_first(), stop);
        assert(before_first(s, stop) =~= s.take(before_first(s, stop).len() as int));
        assert forall|i: int| 0 <= i < before_first(s, stop).len() implies before_first(s, stop)[i]
            != stop by {
            if i > 0 {
                assert(before_first(s, stop)[i] == rest[i - 1]);
                assert(rest.contains(rest[i - 1]));
            }
        }
    }
}

/// A prefix without `stop` that `stop` follows, or that is the whole text, is
/// what precedes the first `stop`.
pub proof fn lemma_before_first_is(s: Seq<char>, stop: char, n: int)
    requires
        0 <= n <= s.len(),
        forall|i: int| 0 <= i < n ==> s[i] != stop,
        n < s.len() ==> s[n] == stop,
    ensures
        before_first(s, stop) == s.take(n),
    decreases n,
{
    if n > 0 {
        lemma_before_first_is(s.drop_first(), stop, n - 1);
        assert(seq![s[0]] + s.drop_first().take(n - 1) =~= s.take(n));
    } else {
        assert(s.take(0) =~= Seq::empty());
    }
}

/// The part of a text before the first `stop`.
pub fn text_before(s: &str, stop: char) -> (part: String)
    ensures
        part@ == before_first(s@, stop),
{
    let mut part = String::new();
    assert(s@.take(0) =~= Seq::<char>::empty());
    for c in it: s.chars()
        invariant
            it.seq() == s@,
            part@ == s@.take(it.index()),
            forall|i: int| 0 <= i < it.index() ==> s@[i] != stop,
    {
        if c == stop {
            proof {
                lemma_before_first_is(s@, stop, it.index());
            }
            return part;
        }
        part.push(c);
        assert(s@.take(it.index() + 1) =~= s@.take(it.index()).push(c));
    }
    proof {
        lemma_before_first_is(s@, stop, s@.len() as int);
    }
    part
}

} // verus!

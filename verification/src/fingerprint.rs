//! Certificate fingerprints: the SHA-256 of the certificate in hexadecimal.
use vstd::prelude::*;

verus! {

/// The SHA-256 digest of some bytes.
pub uninterp spec fn sha256(data: Seq<u8>) -> Seq<u8>;

/// Computes a digest with `sha2::Sha256`.
///
/// Trusted: the digest depends on the data alone and has 32 bytes.
#[verifier::external_body]
pub(crate) fn sha256_digest(data: &[u8]) -> (digest: Vec<u8>)
    ensures
        digest@ == sha256(data@),
        digest@.len() == 32,
{
    let digest = <sha2::Sha256 as sha2::Digest>::digest(data);
    digest.to_vec()
}

/// The lower-case hexadecimal digit of a number below sixteen.
pub open spec fn hex_digit(d: int) -> char {
    if d < 10 {
        (48 + d) as char
    } else {
        (87 + d) as char
    }
}

/// Bytes in lower-case hexadecimal, two digits each.
pub open spec fn hex(data: Seq<u8>) -> Seq<char>
    decreases data.len(),
{
    if data.len() == 0 {
        Seq::empty()
    } else {
        hex(data.drop_last()).push(hex_digit(data.last() as int / 16)).push(
            hex_digit(data.last() as int % 16),
        )
    }
}

fn push_hex_digit(text: &mut String, d: u8)
    requires
        d < 16,
    ensures
        final(text)@ == old(text)@.push(hex_digit(d as int)),
{
    let code: u8 = if d < 10 {
        48 + d
    } else {
        87 + d
    };
    text.push(code as char);
}

/// Whether a character is a lower-case hexadecimal digit.
pub open spec fn is_lower_hex(c: char) -> bool {
    '0' <= c <= '9' || 'a' <= c <= 'f'
}

/// Whether a character is a hexadecimal digit of either case.
pub open spec fn is_hex(c: char) -> bool {
    is_lower_hex(c) || 'A' <= c <= 'F'
}

/// A hexadecimal digit in lower case; other characters stay.
pub open spec fn lower(c: char) -> char {
    if 'A' <= c <= 'F' {
        (c as u32 + 32) as char
    } else {
        c
    }
}

/// The digits of a fingerprint, in lower case and without anything else.
pub open spec fn normalized(s: Seq<char>) -> Seq<char>
    decreases s.len(),
{
    if s.len() == 0 {
        Seq::empty()
    } else if is_hex(s.last()) {
        normalized(s.drop_last()).push(lower(s.last()))
    } else {
        normalized(s.drop_last())
    }
}

/// The length of a number in hexadecimal is twice that of its bytes, and every
/// character is a lower-case digit.
pub proof fn lemma_hex(data: Seq<u8>)
    ensures
        hex(data).len() == 2 * data.len(),
        forall|i: int| 0 <= i < hex(data).len() ==> is_lower_hex(#[trigger] hex(data)[i]),
    decreases data.len(),
{
    if data.len() > 0 {
        lemma_hex(data.drop_last());
    }
}

/// Bytes in lower-case hexadecimal.
pub fn to_hex(data: &[u8]) -> (text: String)
    ensures
        text@ == hex(data@),
{
    let mut text = String::new();
    let mut i: usize = 0;
    assert(data@.take(0) =~= Seq::empty());
    while i < data.len()
        invariant
            i <= data@.len(),
            text@ == hex(data@.take(i as int)),
        decreases data@.len() - i,
    {
        assert(data@.take(i + 1).drop_last() =~= data@.take(i as int));
        assert(data@.take(i + 1).last() == data@[i as int]);
        push_hex_digit(&mut text, data[i] / 16);
        push_hex_digit(&mut text, data[i] % 16);
        i = i + 1;
    }
    assert(data@.take(data@.len() as int) =~= data@);
    text
}

/// The SHA-256 of some bytes in lower-case hexadecimal.
pub fn sha256_hex(data: &[u8]) -> (text: String)
    ensures
        text@ == hex(sha256(data@)),
        text@.len() == 64,
        forall|i: int| 0 <= i < text@.len() ==> is_lower_hex(#[trigger] text@[i]),
{
    let digest = sha256_digest(data);
    proof {
        lemma_hex(digest@);
    }
    to_hex(digest.as_slice())
}

/// The hexadecimal digits of a configured fingerprint in lower case. Colons,
/// blanks and any other characters are dropped.
pub fn normalize_fingerprint(s: &str) -> (text: String)
    ensures
        text@ == normalized(s@),
{
    let mut text = String::new();
    assert(s@.take(0) =~= Seq::empty());
    for c in it: s.chars()
        invariant
            it.seq() == s@,
            text@ == normalized(s@.take(it.index())),
    {
        assert(s@.take(it.index() + 1).drop_last() =~= s@.take(it.index()));
        assert(s@.take(it.index() + 1).last() == c);
        if ('0' <= c && c <= '9') || ('a' <= c && c <= 'f') {
            text.push(c);
        } else if 'A' <= c && c <= 'F' {
            let code: u8 = c as u8 + 32;
            text.push(code as char);
        }
    }
    assert(s@.take(s@.len() as int) =~= s@);
    text
}

/// The normal form of two texts one after the other.
pub proof fn lemma_normalized_concat(a: Seq<char>, b: Seq<char>)
    ensures
        normalized(a + b) == normalized(a) + normalized(b),
    decreases b.len(),
{
    if b.len() == 0 {
        assert(a + b =~= a);
        assert(normalized(a) + normalized(b) =~= normalized(a));
    } else {
        assert((a + b).drop_last() =~= a + b.drop_last());
        assert((a + b).last() == b.last());
        lemma_normalized_concat(a, b.drop_last());
        assert(normalized(a + b) =~= normalized(a) + normalized(b));
    }
}

/// A normal form holds lower-case digits only.
pub proof fn law_normalized_is_lower_hex(s: Seq<char>)
    ensures
        forall|i: int| 0 <= i < normalized(s).len() ==> is_lower_hex(#[trigger] normalized(s)[i]),
        normalized(s).len() <= s.len(),
    decreases s.len(),
{
    if s.len() > 0 {
        law_normalized_is_lower_hex(s.drop_last());
    }
}

/// A text of lower-case digits is its own normal form.
pub proof fn law_lower_hex_is_normal(s: Seq<char>)
    requires
        forall|i: int| 0 <= i < s.len() ==> is_lower_hex(#[trigger] s[i]),
    ensures
        normalized(s) == s,
    decreases s.len(),
{
    if s.len() > 0 {
        assert forall|i: int| 0 <= i < s.drop_last().len() implies is_lower_hex(
            #[trigger] s.drop_last()[i],
        ) by {
            assert(s.drop_last()[i] == s[i]);
        }
        law_lower_hex_is_normal(s.drop_last());
        assert(s.drop_last().push(s.last()) =~= s);
    }
}

/// Normalizing twice changes nothing more.
pub proof fn law_normalize_idempotent(s: Seq<char>)
    ensures
        normalized(normalized(s)) == normalized(s),
{
    law_normalized_is_lower_hex(s);
    law_lower_hex_is_normal(normalized(s));
}

/// Separators do not matter: a character that is no hexadecimal digit can be
/// put anywhere into a fingerprint.
pub proof fn law_separator_ignored(before: Seq<char>, c: char, after: Seq<char>)
    requires
        !is_hex(c),
    ensures
        normalized(before + seq![c] + after) == normalized(before + after),
{
    lemma_normalized_concat(before + seq![c], after);
    lemma_normalized_concat(before, after);
    assert((before + seq![c]).drop_last() =~= before);
}

/// Case does not matter: two digits that differ in case alone are the same in a
/// fingerprint.
pub proof fn law_case_ignored(before: Seq<char>, c: char, d: char, after: Seq<char>)
    requires
        is_hex(c),
        is_hex(d),
        lower(c) == lower(d),
    ensures
        normalized(before + seq![c] + after) == normalized(before + seq![d] + after),
{
    lemma_normalized_concat(before + seq![c], after);
    lemma_normalized_concat(before + seq![d], after);
    assert((before + seq![c]).drop_last() =~= before);
    assert((before + seq![d]).drop_last() =~= before);
}

/// A computed fingerprint is its own normal form.
pub proof fn law_computed_fingerprint_is_normal(data: Seq<u8>)
    ensures
        normalized(hex(sha256(data))) == hex(sha256(data)),
{
    lemma_hex(sha256(data));
    law_lower_hex_is_normal(hex(sha256(data)));
}

} // verus!

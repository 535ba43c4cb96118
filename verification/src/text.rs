//! Small text utilities shared by both supervisors: byte-to-text decoding,
//! decimal rendering of port numbers, and Unix-style path joining.

use vstd::prelude::*;

verus! {

/// True when every byte of `s` is a 7-bit ASCII code.
pub open spec fn is_ascii_bytes(s: Seq<u8>) -> bool {
    forall|i: int| 0 <= i < s.len() ==> s[i] < 128
}

/// The characters that a sequence of ASCII bytes denotes, one per byte.
pub open spec fn ascii_chars_of(s: Seq<u8>) -> Seq<char> {
    s.map_values(|b: u8| b as char)
}

/// The text that lossy UTF-8 decoding yields for `bytes`: every invalid
/// sequence is replaced by the replacement character, so decoding never
/// fails.  The result depends on the bytes alone.
pub uninterp spec fn lossy_text_of(bytes: Seq<u8>) -> Seq<char>;

/// Relies on alloc::string::String::from_utf8_lossy: decodes `bytes` as
/// UTF-8, substituting the replacement character for invalid sequences.
/// On ASCII input the decoding is the identity, byte for byte.
#[verifier::external_body]
pub fn decode_utf8_lossy(bytes: &Vec<u8>) -> (r: String)
    ensures
        r@ == lossy_text_of(bytes@),
        is_ascii_bytes(bytes@) ==> r@ == ascii_chars_of(bytes@),
{
    String::from_utf8_lossy(bytes).into_owned()
}

/// Whether two string slices carry the same characters.
pub fn str_eq(a: &str, b: &str) -> (r: bool)
    ensures
        r == (a@ == b@),
{
    let n: usize = a.unicode_len();
    if n != b.unicode_len() {
        return false;
    }
    let mut i: usize = 0;
    while i < n
        invariant
            n == a@.len(),
            n == b@.len(),
            i <= n,
            forall|j: int| 0 <= j < i ==> a@[j] == b@[j],
        decreases n - i,
    {
        if a.get_char(i) != b.get_char(i) {
            return false;
        }
        i = i + 1;
    }
    proof {
        assert(a@ =~= b@);
    }
    true
}

/// The decimal digits of `n`, most significant first, as ASCII byte codes.
pub open spec fn dec_digits(n: nat) -> Seq<u8>
    decreases n,
{
    if n < 10 {
        seq![(48 + n) as u8]
    } else {
        dec_digits(n / 10).push((48 + n % 10) as u8)
    }
}

/// The decimal rendering of `n` as text.
pub open spec fn dec_chars(n: nat) -> Seq<char> {
    ascii_chars_of(dec_digits(n))
}

/// Renders `n` in decimal, exactly as its mathematical digit string.
pub fn u16_to_decimal(n: u16) -> (r: String)
    ensures
        r@ == dec_chars(n as nat),
{
    let mut digits: Vec<u8> = Vec::new();
    let mut m: u16 = n;
    let d0: u8 = (m % 10) as u8 + 48;
    digits.push(d0);
    m = m / 10;
    while m != 0
        invariant
            dec_digits(n as nat) == (if m == 0 {
                Seq::<u8>::empty()
            } else {
                dec_digits(m as nat)
            }) + digits@,
            forall|i: int| 0 <= i < digits@.len() ==> 48 <= #[trigger] digits@[i] < 58,
        decreases m,
    {
        let d: u8 = (m % 10) as u8 + 48;
        digits.insert(0, d);
        m = m / 10;
    }
    proof {
        assert(digits@ == dec_digits(n as nat));
        assert(is_ascii_bytes(digits@));
    }
    decode_utf8_lossy(&digits)
}

/// Unix path joining: an absolute `rel` replaces `base`; otherwise the two
/// are joined with a single separator (none is added after an empty base or
/// one that already ends in a separator).
pub open spec fn spec_join_path(base: Seq<char>, rel: Seq<char>) -> Seq<char> {
    if rel.len() > 0 && rel[0] == '/' {
        rel
    } else if base.len() == 0 {
        rel
    } else if base[base.len() - 1] == '/' {
        base + rel
    } else {
        base + seq!['/'] + rel
    }
}

/// Joins a relative path to a base directory, Unix style.
pub fn join_path(base: &str, rel: &str) -> (r: String)
    ensures
        r@ == spec_join_path(base@, rel@),
{
    proof {
        reveal_strlit("/");
    }
    let rel_len: usize = rel.unicode_len();
    if rel_len > 0 && rel.get_char(0) == '/' {
        rel.to_owned()
    } else {
        let base_len: usize = base.unicode_len();
        if base_len == 0 {
            rel.to_owned()
        } else if base.get_char(base_len - 1) == '/' {
            let joined = base.to_owned();
            joined.concat(rel)
        } else {
            let joined = base.to_owned();
            let with_sep = joined.concat("/");
            proof {
                assert(with_sep@ == base@ + seq!['/']);
            }
            with_sep.concat(rel)
        }
    }
}

} // verus!

//! Small helpers for strings viewed as byte sequences.

use vstd::prelude::*;

verus! {

/// The UTF-8 bytes of a character sequence: the bytes `str::as_bytes`
/// returns for a string with these characters.
pub open spec fn str_bytes(s: Seq<char>) -> Seq<u8> {
    vstd::utf8::encode_utf8(s)
}

/// The views of an optional string.
pub open spec fn opt_view(o: Option<String>) -> Option<Seq<char>> {
    match o {
        Some(s) => Some(s@),
        None => None,
    }
}

/// Append the UTF-8 bytes of `s` to `out`.
pub(crate) fn push_str_bytes(out: &mut Vec<u8>, s: &str)
    ensures
        final(out)@ == old(out)@ + str_bytes(s@),
{
    out.extend_from_slice(s.as_bytes());
}

/// Relies on `str` equality from std: two string slices are equal
/// exactly when they hold the same characters.
#[verifier::external_body]
pub(crate) fn str_eq(a: &str, b: &str) -> (r: bool)
    ensures
        r == (a@ == b@),
{
    a == b
}

/// Whether two strings hold the same characters.
pub fn string_eq(a: &String, b: &String) -> (r: bool)
    ensures
        r == (a@ == b@),
{
    <String as PartialEq>::eq(a, b)
}

/// Two character sequences with the same UTF-8 encoding are the same.
pub proof fn lemma_str_bytes_injective(a: Seq<char>, b: Seq<char>)
    requires
        str_bytes(a) == str_bytes(b),
    ensures
        a == b,
{
    vstd::utf8::encode_utf8_decode_utf8(a);
    vstd::utf8::encode_utf8_decode_utf8(b);
}

/// UTF-8 encoding distributes over concatenation.
pub proof fn lemma_str_bytes_concat(a: Seq<char>, b: Seq<char>)
    ensures
        str_bytes(a + b) == str_bytes(a) + str_bytes(b),
    decreases a.len(),
{
    if a.len() == 0 {
        assert(a + b =~= b);
        assert(str_bytes(a) + str_bytes(b) =~= str_bytes(b));
    } else {
        assert((a + b)[0] == a[0]);
        assert((a + b).drop_first() =~= a.drop_first() + b);
        lemma_str_bytes_concat(a.drop_first(), b);
        assert(str_bytes(a + b) =~= str_bytes(a) + str_bytes(b));
    }
}

/// The decimal digit characters of a number, most significant first.
pub open spec fn dec_chars(n: nat) -> Seq<char>
    decreases n,
{
    if n < 10 {
        seq![((48 + n) as u8) as char]
    } else {
        dec_chars(n / 10) + seq![((48 + n % 10) as u8) as char]
    }
}

/// The decimal digit characters encode to the decimal digit bytes.
pub proof fn lemma_dec_chars_bytes(n: nat)
    ensures
        str_bytes(dec_chars(n)) == dec_bytes(n),
    decreases n,
{
    if n < 10 {
        lemma_ascii_char_bytes((48 + n) as u8);
        assert(str_bytes(dec_chars(n)) =~= dec_bytes(n));
    } else {
        lemma_dec_chars_bytes(n / 10);
        lemma_str_bytes_concat(dec_chars(n / 10), seq![((48 + n % 10) as u8) as char]);
        lemma_ascii_char_bytes((48 + n % 10) as u8);
        assert(str_bytes(dec_chars(n)) =~= dec_bytes(n));
    }
}

/// A single character below 0x80 encodes to its own byte.
pub proof fn lemma_ascii_char_bytes(b: u8)
    requires
        b < 128,
    ensures
        str_bytes(seq![b as char]) == seq![b],
{
    let c = b as char;
    let s = c as u32;
    assert(s == b);
    assert(vstd::utf8::has_width_1_encoding(s));
    assert((s & 0x7F) as u8 == b) by (bit_vector)
        requires
            s == b && b < 128,
    ;
    let cs = seq![c];
    assert(cs.len() == 1 && cs[0] == c);
    assert(cs.drop_first() =~= Seq::<char>::empty());
    assert(str_bytes(Seq::<char>::empty()) =~= Seq::<u8>::empty());
    assert(vstd::utf8::encode_scalar(s) =~= seq![b]);
    assert(str_bytes(cs) =~= vstd::utf8::encode_scalar(s) + str_bytes(cs.drop_first()));
    assert(str_bytes(seq![b as char]) =~= seq![b]);
}

/// The decimal digit bytes of a number, most significant first.
pub open spec fn dec_bytes(n: nat) -> Seq<u8>
    decreases n,
{
    if n < 10 {
        seq![(48 + n) as u8]
    } else {
        dec_bytes(n / 10) + seq![(48 + n % 10) as u8]
    }
}

/// Append the decimal digits of `n` to `out`.
pub fn push_dec(out: &mut Vec<u8>, n: u64)
    ensures
        final(out)@ == old(out)@ + dec_bytes(n as nat),
    decreases n,
{
    if n < 10 {
        out.push(48 + (n as u8));
        proof {
            assert(out@ =~= old(out)@ + dec_bytes(n as nat));
        }
    } else {
        push_dec(out, n / 10);
        out.push(48 + ((n % 10) as u8));
        proof {
            assert(out@ =~= old(out)@ + dec_bytes(n as nat));
        }
    }
}

/// Relies on `String::from_utf8`: it succeeds exactly on valid UTF-8,
/// and the returned string holds exactly the given bytes.
#[verifier::external_body]
pub(crate) fn bytes_to_string(v: Vec<u8>) -> (r: Option<String>)
    ensures
        r matches Some(s) ==> str_bytes(s@) == v@,
        vstd::utf8::valid_utf8(v@) ==> r is Some,
{
    String::from_utf8(v).ok()
}

/// Whether two byte strings are equal.
pub fn bytes_equal(a: &Vec<u8>, b: &Vec<u8>) -> (r: bool)
    ensures
        r == (a@ == b@),
{
    let n = a.len();
    if n != b.len() {
        return false;
    }
    let mut i: usize = 0;
    while i < n
        invariant
            n == a@.len(),
            n == b@.len(),
            i <= n,
            forall|j: int| 0 <= j < i ==> a@[j] == b@[j],
        decreases n - i,
    {
        if a[i] != b[i] {
            return false;
        }
        i += 1;
    }
    proof {
        assert(a@ =~= b@);
    }
    true
}

/// A copy of a byte vector.
pub fn clone_bytes(v: &Vec<u8>) -> (r: Vec<u8>)
    ensures
        r@ == v@,
{
    vstd::slice::slice_to_vec(v.as_slice())
}

/// A copy of a byte slice.
pub fn clone_bytes_from_slice(v: &[u8]) -> (r: Vec<u8>)
    ensures
        r@ == v@,
{
    vstd::slice::slice_to_vec(v)
}

/// A copy of an optional string.
pub fn clone_opt_string(o: &Option<String>) -> (r: Option<String>)
    ensures
        r == *o,
{
    match o {
        Some(s) => Some(s.clone()),
        None => None,
    }
}

} // verus!

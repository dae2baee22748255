//! Strings seen as their UTF-8 bytes: cutting a string at byte indices that are
//! character boundaries, concatenating strings, and boxing them.
use vstd::prelude::*;
use vstd::string::StringSliceAdditionalSpecFns;
use vstd::utf8::{
    encode_scalar, encode_utf8, encode_utf8_valid_utf8, is_char_boundary,
    is_char_boundary_iff_not_is_continuation_byte, is_char_boundary_start_end_of_seq,
};

verus! {

/// The UTF-8 bytes of a sequence of characters, as the bytes of a `str` or `String` holding it.
pub open spec fn utf8_bytes(chars: Seq<char>) -> Seq<u8> {
    encode_utf8(chars)
}

/// Every byte of `bytes` is an ASCII byte.
pub open spec fn all_ascii(bytes: Seq<u8>) -> bool {
    forall|i: int| 0 <= i < bytes.len() ==> #[trigger] bytes[i] < 128
}

/// In a string whose bytes are all ASCII, every byte index is a character boundary.
pub proof fn lemma_ascii_char_boundaries(s: &str)
    requires
        all_ascii(s.spec_bytes()),
    ensures
        forall|i: int|
            0 <= i <= s.spec_bytes().len() ==> #[trigger] is_char_boundary(s.spec_bytes(), i),
{
    let bytes = s.spec_bytes();
    encode_utf8_valid_utf8(s@);
    is_char_boundary_start_end_of_seq(bytes);
    assert forall|i: int| 0 <= i <= bytes.len() implies #[trigger] is_char_boundary(bytes, i) by {
        if i < bytes.len() {
            assert(bytes[i] < 128);
            is_char_boundary_iff_not_is_continuation_byte(bytes, i);
        }
    }
}

/// A character boundary of a string at or before `end` is one of its first `end` bytes too.
proof fn lemma_char_boundary_of_prefix(s: &str, front: &str, start: int, end: int)
    requires
        0 <= start <= end <= s.spec_bytes().len(),
        is_char_boundary(s.spec_bytes(), start),
        front.spec_bytes() == s.spec_bytes().subrange(0, end),
    ensures
        is_char_boundary(front.spec_bytes(), start),
{
    let bytes = s.spec_bytes();
    let front_bytes = front.spec_bytes();
    encode_utf8_valid_utf8(s@);
    encode_utf8_valid_utf8(front@);
    is_char_boundary_start_end_of_seq(front_bytes);
    if start < end {
        is_char_boundary_iff_not_is_continuation_byte(bytes, start);
        is_char_boundary_iff_not_is_continuation_byte(front_bytes, start);
        assert(front_bytes[start] == bytes[start]);
    }
}

/// The UTF-8 bytes of a concatenation are the concatenation of the UTF-8 bytes.
pub proof fn lemma_utf8_concat(front: Seq<char>, back: Seq<char>)
    ensures
        utf8_bytes(front + back) == utf8_bytes(front) + utf8_bytes(back),
    decreases front.len(),
{
    if front.len() == 0 {
        assert(front + back =~= back);
        assert(utf8_bytes(front) + utf8_bytes(back) =~= utf8_bytes(back));
    } else {
        lemma_utf8_concat(front.drop_first(), back);
        assert((front + back).drop_first() =~= front.drop_first() + back);
        assert((front + back)[0] == front[0]);
        assert(utf8_bytes(front + back) =~= utf8_bytes(front) + utf8_bytes(back));
    }
}

/// The part of `string` between the byte indices `start` and `end`, which must be character
/// boundaries.
pub fn substring(string: &str, start: usize, end: usize) -> (r: &str)
    requires
        start <= end <= string.spec_bytes().len(),
        is_char_boundary(string.spec_bytes(), start as int),
        is_char_boundary(string.spec_bytes(), end as int),
    ensures
        r.spec_bytes() == string.spec_bytes().subrange(start as int, end as int),
{
    let (front, _) = string.split_at(end);
    proof {
        lemma_char_boundary_of_prefix(string, front, start as int, end as int);
    }
    let (_, middle) = front.split_at(start);
    proof {
        assert(middle.spec_bytes() =~= string.spec_bytes().subrange(start as int, end as int));
    }
    middle
}

/// The part of `string` before the byte index `mid`, which must be a character boundary.
pub fn prefix(string: &str, mid: usize) -> (r: &str)
    requires
        mid <= string.spec_bytes().len(),
        is_char_boundary(string.spec_bytes(), mid as int),
    ensures
        r.spec_bytes() == string.spec_bytes().subrange(0, mid as int),
{
    let (front, _) = string.split_at(mid);
    front
}

/// The part of `string` from the byte index `mid` on, which must be a character boundary.
pub fn suffix(string: &str, mid: usize) -> (r: &str)
    requires
        mid <= string.spec_bytes().len(),
        is_char_boundary(string.spec_bytes(), mid as int),
    ensures
        r.spec_bytes() == string.spec_bytes().subrange(mid as int, string.spec_bytes().len() as int),
{
    let (_, back) = string.split_at(mid);
    back
}

/// Copies `string` into a new boxed string: `Box::<str>::from`.
#[verifier::external_body]
pub(crate) fn box_from_str(string: &str) -> (r: Box<str>)
    ensures
        r@ == string@,
{
    Box::<str>::from(string)
}

/// Turns `string` into a boxed string: `String::into_boxed_str`.
#[verifier::external_body]
pub(crate) fn box_from_string(string: String) -> (r: Box<str>)
    ensures
        r@ == string@,
{
    string.into_boxed_str()
}

/// The string that is `front` followed by `back`.
pub fn concat(front: &str, back: &str) -> (r: String)
    ensures
        r@ == front@ + back@,
        utf8_bytes(r@) == front.spec_bytes() + back.spec_bytes(),
{
    let mut joined = front.to_owned();
    joined.append(back);
    proof {
        lemma_utf8_concat(front@, back@);
    }
    joined
}

/// The bytes of `bytes` from index `start` on.
pub open spec fn bytes_from(bytes: Seq<u8>, start: usize) -> Seq<u8> {
    bytes.skip(start as int)
}

/// How many bytes two slices share at the front.
pub fn common_prefix_len(left: &[u8], right: &[u8]) -> (r: usize)
    ensures
        r <= left@.len(),
        r <= right@.len(),
        forall|j: int| 0 <= j < r ==> left@[j] == right@[j],
        r < left@.len() && r < right@.len() ==> left@[r as int] != right@[r as int],
{
    let mut i: usize = 0;
    while i < left.len() && i < right.len()
        invariant
            i <= left@.len(),
            i <= right@.len(),
            forall|j: int| 0 <= j < i ==> left@[j] == right@[j],
        decreases left@.len() - i,
    {
        if left[i] != right[i] {
            return i;
        }
        i += 1;
    }
    i
}

/// Whether two byte slices hold the same bytes.
pub fn bytes_equal(left: &[u8], right: &[u8]) -> (r: bool)
    ensures
        r == (left@ == right@),
{
    if left.len() != right.len() {
        return false;
    }
    let mut i: usize = 0;
    while i < left.len()
        invariant
            left@.len() == right@.len(),
            0 <= i <= left@.len(),
            forall|j: int| 0 <= j < i ==> left@[j] == right@[j],
        decreases left@.len() - i,
    {
        if left[i] != right[i] {
            return false;
        }
        i += 1;
    }
    proof {
        assert(left@ =~= right@);
    }
    true
}

/// The single-byte string `:` has the UTF-8 bytes `[58]`.
pub proof fn lemma_colon_bytes(colon: &str)
    requires
        colon@ == seq![':'],
    ensures
        colon.spec_bytes() == seq![58u8],
{
    let c: u32 = ':' as u32;
    assert(c == 58);
    assert((c & 0x7F) as u8 == 58u8) by (bit_vector)
        requires
            c == 58,
    ;
    assert(colon@.drop_first() =~= Seq::<char>::empty());
    assert(encode_utf8(colon@.drop_first()) =~= Seq::<u8>::empty());
    assert(colon@[0] as u32 == c);
    assert(encode_scalar(c) =~= seq![58u8]);
    assert(colon.spec_bytes() =~= seq![58u8]);
}

} // verus!

//! Validation of delimited ids: which bytes an id may hold, how its components are
//! separated, and which error a string that is not an id gives.
use vstd::prelude::*;
use vstd::string::StringSliceAdditionalSpecFns;

verus! {

/// The byte that separates the components of an id: `:` (58).
pub const SEPARATOR: u8 = 58;

/// Bytes allowed inside a component: `[a-z0-9-_./]`, that is `a` (97) to `z` (122),
/// `0` (48) to `9` (57), `.` (46), `_` (95), `-` (45) and `/` (47).
pub open spec fn spec_is_valid_byte(byte: u8) -> bool {
    ||| 97 <= byte <= 122
    ||| 48 <= byte <= 57
    ||| byte == 46
    ||| byte == 95
    ||| byte == 45
    ||| byte == 47
}

/// A byte that may appear nowhere in an id: neither a separator nor a component byte.
pub open spec fn is_unexpected_byte(byte: u8) -> bool {
    byte != SEPARATOR && !spec_is_valid_byte(byte)
}

/// `i` is the index of the first unexpected byte of `bytes`.
pub open spec fn is_first_unexpected(bytes: Seq<u8>, i: int) -> bool {
    &&& 0 <= i < bytes.len()
    &&& is_unexpected_byte(bytes[i])
    &&& forall|j: int| 0 <= j < i ==> !is_unexpected_byte(#[trigger] bytes[j])
}

/// `bytes` holds at least one unexpected byte.
pub open spec fn has_unexpected_byte(bytes: Seq<u8>) -> bool {
    exists|i: int| 0 <= i < bytes.len() && is_unexpected_byte(#[trigger] bytes[i])
}

/// The number of separators in `bytes`.
pub open spec fn separator_count(bytes: Seq<u8>) -> nat
    decreases bytes.len(),
{
    if bytes.len() == 0 {
        0
    } else {
        separator_count(bytes.drop_last()) + if bytes.last() == SEPARATOR {
            1nat
        } else {
            0nat
        }
    }
}

/// An error encountered while converting a string into a delimited id with `N` components.
#[derive(Clone, Copy, Debug, PartialEq, Eq)]
pub enum ParseError<const N: usize> {
    /// There was an invalid amount of components.
    UnexpectedComponentCount(usize),
    /// There was an unexpected character in the namespace or id - one not in `[a-z0-9-_./]`.
    UnexpectedCharacter(usize),
}

/// What validating `bytes` as an id with `N` components gives: the index of the first
/// unexpected byte if there is one, else whether the number of components is `N`.
/// The empty string has no components (`0`); it is the one id with `N == 0`, and it is also
/// a single empty component.
pub open spec fn spec_validate<const N: usize>(bytes: Seq<u8>) -> Result<(), ParseError<N>> {
    if has_unexpected_byte(bytes) {
        Err(ParseError::UnexpectedCharacter((choose|i: int| is_first_unexpected(bytes, i)) as usize))
    } else if separator_count(bytes) + 1 == N || (N == 0 && bytes.len() == 0) {
        Ok(())
    } else if bytes.len() == 0 {
        Err(ParseError::UnexpectedComponentCount(0))
    } else {
        Err(ParseError::UnexpectedComponentCount((separator_count(bytes) + 1) as usize))
    }
}

/// `bytes` is a valid id with `N` components.
pub open spec fn is_valid_id<const N: usize>(bytes: Seq<u8>) -> bool {
    spec_validate::<N>(bytes) is Ok
}

/// A string's byte length is at most `isize::MAX`, as for every allocation in Rust.
pub open spec fn fits_in_memory(bytes: Seq<u8>) -> bool {
    bytes.len() <= isize::MAX
}

/// Whether `byte` may stand inside a component.
pub fn is_valid_byte(byte: u8) -> (r: bool)
    ensures
        r == spec_is_valid_byte(byte),
{
    (97 <= byte && byte <= 122) || (48 <= byte && byte <= 57) || byte == 46 || byte == 95
        || byte == 45 || byte == 47
}

/// There is one first unexpected byte: the one that `spec_validate` reports.
pub proof fn lemma_first_unexpected_unique(bytes: Seq<u8>, i: int)
    requires
        is_first_unexpected(bytes, i),
    ensures
        has_unexpected_byte(bytes),
        (choose|k: int| is_first_unexpected(bytes, k)) == i,
{
    assert(is_unexpected_byte(bytes[i]));
    let k = choose|k: int| is_first_unexpected(bytes, k);
    assert(is_first_unexpected(bytes, k));
    if k < i {
        assert(!is_unexpected_byte(bytes[k]));
    } else if i < k {
        assert(!is_unexpected_byte(bytes[i]));
    }
}

/// Counting the separators of a prefix one byte longer.
pub proof fn lemma_separator_count_step(bytes: Seq<u8>, i: int)
    requires
        0 <= i < bytes.len(),
    ensures
        separator_count(bytes.take(i + 1)) == separator_count(bytes.take(i)) + if bytes[i]
            == SEPARATOR {
            1nat
        } else {
            0nat
        },
{
    assert(bytes.take(i + 1).drop_last() =~= bytes.take(i));
}

/// Validates that `string` is a valid delimited id with `N` components, returning [`Err`] if not.
///
/// # Errors
///
/// - [`ParseError::UnexpectedComponentCount`] if `string` has the wrong number of components.
/// - [`ParseError::UnexpectedCharacter`] if `string` has any characters not in `[a-z0-9-_./]`.
pub fn validate<const N: usize>(string: &str) -> (r: Result<(), ParseError<N>>)
    requires
        fits_in_memory(string.spec_bytes()),
    ensures
        r == spec_validate::<N>(string.spec_bytes()),
{
    let bytes = string.as_bytes();
    let ghost seq = bytes@;
    let mut i: usize = 0;
    let mut separators_found: usize = 0;
    while i < bytes.len()
        invariant
            seq == bytes@,
            seq == string.spec_bytes(),
            fits_in_memory(seq),
            0 <= i <= seq.len(),
            separators_found == separator_count(seq.take(i as int)),
            separators_found <= i,
            forall|j: int| 0 <= j < i ==> !is_unexpected_byte(#[trigger] seq[j]),
        decreases seq.len() - i,
    {
        let byte = bytes[i];
        proof {
            lemma_separator_count_step(seq, i as int);
        }
        if byte == SEPARATOR {
            separators_found += 1;
        } else if !is_valid_byte(byte) {
            proof {
                lemma_first_unexpected_unique(seq, i as int);
            }
            return Err(ParseError::UnexpectedCharacter(i));
        }
        i += 1;
    }
    proof {
        assert(seq.take(seq.len() as int) =~= seq);
        assert(!has_unexpected_byte(seq));
    }
    let component_count = separators_found + 1;
    if component_count == N || N == 0 && bytes.len() == 0 {
        Ok(())
    } else if bytes.len() == 0 {
        Err(ParseError::UnexpectedComponentCount(0))
    } else {
        Err(ParseError::UnexpectedComponentCount(component_count))
    }
}

} // verus!

//! Properties of ids that span several operations: what validation reports, which strings
//! are ids of which length, and what splitting gives back of joining.
use vstd::prelude::*;

use crate::components::{
    has_no_separator, lemma_no_separator_count, lemma_split_append_plain, lemma_split_len,
    lemma_split_parts, join_components, lemma_component_valid, lemma_join_valid,
    lemma_separator_count_concat, lemma_split_join, lemma_zero_count_no_separator,
    split_components,
};
use crate::id::{are_component_ends, component_start};
use crate::loose::{
    has_whitespace, is_first_whitespace, is_whitespace_byte, spec_validate_loose,
    ParseError as LooseParseError,
};
use crate::validation::{
    fits_in_memory, has_unexpected_byte, is_first_unexpected, is_unexpected_byte, is_valid_id,
    separator_count, spec_is_valid_byte, spec_validate, ParseError, SEPARATOR,
};

verus! {

/// An unexpected-character error names the first byte of the string that may not stand in
/// an id.
pub proof fn law_unexpected_character_is_first_invalid<const N: usize>(bytes: Seq<u8>, i: usize)
    requires
        fits_in_memory(bytes),
        spec_validate::<N>(bytes) == Err::<(), ParseError<N>>(ParseError::UnexpectedCharacter(i)),
    ensures
        is_first_unexpected(bytes, i as int),
{
    if !has_unexpected_byte(bytes) {
        assert(spec_validate::<N>(bytes) is Ok || spec_validate::<N>(bytes) matches Err(
            ParseError::UnexpectedComponentCount(_),
        ));
    } else {
        let w = choose|w: int| 0 <= w < bytes.len() && is_unexpected_byte(#[trigger] bytes[w]);
        lemma_first_unexpected_exists(bytes, w);
        let k = choose|k: int| is_first_unexpected(bytes, k);
        assert(is_first_unexpected(bytes, k));
        assert(k as usize == i);
    }
}

/// If some byte is unexpected, one of them comes first.
proof fn lemma_first_unexpected_exists(bytes: Seq<u8>, w: int)
    requires
        0 <= w < bytes.len(),
        is_unexpected_byte(bytes[w]),
    ensures
        exists|k: int| is_first_unexpected(bytes, k),
    decreases w,
{
    if forall|j: int| 0 <= j < w ==> !is_unexpected_byte(#[trigger] bytes[j]) {
        assert(is_first_unexpected(bytes, w));
    } else {
        let j = choose|j: int| 0 <= j < w && is_unexpected_byte(#[trigger] bytes[j]);
        lemma_first_unexpected_exists(bytes, j);
    }
}

/// The empty string is the one and only id with no components.
pub proof fn law_only_empty_id_has_no_components(bytes: Seq<u8>)
    ensures
        is_valid_id::<0>(bytes) <==> bytes.len() == 0,
{
    if bytes.len() == 0 {
        assert(!has_unexpected_byte(bytes));
    }
}

/// The empty string is a valid (empty) component.
pub proof fn law_empty_component_is_valid()
    ensures
        is_valid_id::<1>(Seq::<u8>::empty()),
{
    let empty = Seq::<u8>::empty();
    assert(!has_unexpected_byte(empty));
}

/// A non-empty string is an id for at most one number of components.
pub proof fn law_component_count_is_unique<const N: usize, const M: usize>(bytes: Seq<u8>)
    requires
        bytes.len() > 0,
        is_valid_id::<N>(bytes),
        is_valid_id::<M>(bytes),
    ensures
        N == M,
{
}

/// A component is its own only component.
pub proof fn law_component_splits_into_itself(bytes: Seq<u8>)
    requires
        is_valid_id::<1>(bytes),
    ensures
        split_components(bytes) == seq![bytes],
{
    lemma_component_valid(bytes);
    lemma_join_valid::<1>(seq![bytes]);
    assert(join_components(seq![bytes]) == bytes);
}

/// Two components concatenated form a component.
pub proof fn law_concatenated_components_are_a_component(front: Seq<u8>, back: Seq<u8>)
    requires
        is_valid_id::<1>(front),
        is_valid_id::<1>(back),
    ensures
        is_valid_id::<1>(front + back),
{
    lemma_component_valid(front);
    lemma_component_valid(back);
    let joined = front + back;
    assert forall|i: int| 0 <= i < joined.len() implies spec_is_valid_byte(#[trigger] joined[i]) by {
        if i < front.len() {
            assert(joined[i] == front[i]);
        } else {
            assert(joined[i] == back[i - front.len()]);
        }
    }
    lemma_component_valid(joined);
}

/// A namespace and a path joined by a separator form a valid namespaced id, whose two
/// components are that namespace and that path.
pub proof fn law_split_of_two_components(namespace: Seq<u8>, path: Seq<u8>)
    requires
        is_valid_id::<1>(namespace),
        is_valid_id::<1>(path),
    ensures
        is_valid_id::<2>(namespace + seq![58u8] + path),
        split_components(namespace + seq![58u8] + path) == seq![namespace, path],
{
    let pair = seq![namespace, path];
    assert(pair.drop_last() =~= seq![namespace]);
    assert(join_components(seq![namespace]) == namespace);
    assert(join_components(pair) == namespace + seq![58u8] + path);
    lemma_join_valid::<2>(pair);
}

/// A namespace, a path and an operation joined by separators form a valid operation id,
/// whose three components are those three.
pub proof fn law_split_of_three_components(namespace: Seq<u8>, path: Seq<u8>, operation: Seq<u8>)
    requires
        is_valid_id::<1>(namespace),
        is_valid_id::<1>(path),
        is_valid_id::<1>(operation),
    ensures
        is_valid_id::<3>(namespace + seq![58u8] + path + seq![58u8] + operation),
        split_components(namespace + seq![58u8] + path + seq![58u8] + operation)
            == seq![namespace, path, operation],
{
    let triple = seq![namespace, path, operation];
    assert(triple.drop_last() =~= seq![namespace, path]);
    assert(triple.drop_last().drop_last() =~= seq![namespace]);
    assert(join_components(seq![namespace]) == namespace);
    assert(join_components(seq![namespace, path]) == namespace + seq![58u8] + path);
    assert(join_components(triple) == namespace + seq![58u8] + path + seq![58u8]
        + operation);
    lemma_join_valid::<3>(triple);
}


/// A loosely checked namespaced id made of a namespace, a colon and an id splits into that
/// namespace and that id.
pub proof fn law_loose_split_of_two_parts(namespace: Seq<u8>, id: Seq<u8>)
    requires
        spec_validate_loose(namespace + seq![58u8] + id) is Ok,
    ensures
        split_components(namespace + seq![58u8] + id) == seq![namespace, id],
{
    let sep = seq![58u8];
    let joined = namespace + sep + id;
    lemma_separator_count_concat(namespace + sep, id);
    lemma_separator_count_concat(namespace, sep);
    assert(sep.drop_last() =~= Seq::<u8>::empty());
    assert(separator_count(sep) == 1);
    lemma_zero_count_no_separator(namespace);
    lemma_zero_count_no_separator(id);
    let pair = seq![namespace, id];
    assert(pair.drop_last() =~= seq![namespace]);
    assert(join_components(seq![namespace]) == namespace);
    assert(join_components(pair) == joined);
    lemma_split_join(pair);
}

/// The bytes that may stand in an id: `a` to `z`, `0` to `9`, `-`, `.`, `/`, `_`, and the
/// separator `:`.
pub open spec fn may_stand_in_id(byte: u8) -> bool {
    ||| 97 <= byte <= 122
    ||| 48 <= byte <= 57
    ||| byte == 45
    ||| byte == 46
    ||| byte == 47
    ||| byte == 95
    ||| byte == 58
}

/// A single byte is a valid component exactly when it is a lowercase ASCII letter, an ASCII
/// digit, or one of `-`, `.`, `/`, `_`.
pub proof fn law_component_bytes(byte: u8)
    ensures
        is_valid_id::<1>(seq![byte]) <==> (97 <= byte <= 122 || 48 <= byte <= 57 || byte == 45
            || byte == 46 || byte == 47 || byte == 95),
{
    lemma_component_valid(seq![byte]);
    assert(seq![byte][0] == byte);
}

/// Separators are counted one by one: none in the empty sequence, one for each `:` (58), and
/// the count of a concatenation is the sum of the counts.
pub proof fn law_separators_counted(front: Seq<u8>, back: Seq<u8>, byte: u8)
    ensures
        separator_count(Seq::<u8>::empty()) == 0,
        separator_count(seq![byte]) == if byte == 58 {
            1nat
        } else {
            0nat
        },
        separator_count(front + back) == separator_count(front) + separator_count(back),
{
    lemma_separator_count_concat(front, back);
    assert(seq![byte].drop_last() =~= Seq::<u8>::empty());
}

/// A string is an id with `N` components exactly when each of its bytes may stand in an id
/// and it has `N - 1` separators, or it is empty and `N` is `0`.
pub proof fn law_valid_id_bytes<const N: usize>(bytes: Seq<u8>)
    ensures
        is_valid_id::<N>(bytes) <==> ((forall|i: int|
            0 <= i < bytes.len() ==> #[trigger] may_stand_in_id(bytes[i])) && (separator_count(
            bytes,
        ) + 1 == N || (N == 0 && bytes.len() == 0))),
{
    if forall|i: int| 0 <= i < bytes.len() ==> #[trigger] may_stand_in_id(bytes[i]) {
        assert forall|i: int| 0 <= i < bytes.len() implies !is_unexpected_byte(
            #[trigger] bytes[i],
        ) by {
            assert(may_stand_in_id(bytes[i]));
        }
    }
    if !has_unexpected_byte(bytes) {
        assert forall|i: int| 0 <= i < bytes.len() implies #[trigger] may_stand_in_id(bytes[i]) by {
            assert(!is_unexpected_byte(bytes[i]));
        }
    }
}

/// Validation reports an unexpected character at `i` exactly when byte `i` is the first byte
/// that may not stand in an id.
pub proof fn law_unexpected_character_at<const N: usize>(bytes: Seq<u8>, i: usize)
    requires
        fits_in_memory(bytes),
    ensures
        spec_validate::<N>(bytes) == Err::<(), ParseError<N>>(ParseError::UnexpectedCharacter(i))
            <==> (i < bytes.len() && !may_stand_in_id(bytes[i as int]) && forall|j: int|
            0 <= j < i ==> #[trigger] may_stand_in_id(bytes[j])),
{
    if i < bytes.len() && !may_stand_in_id(bytes[i as int]) && forall|j: int|
        0 <= j < i ==> #[trigger] may_stand_in_id(bytes[j]) {
        assert forall|j: int| 0 <= j < i implies !is_unexpected_byte(#[trigger] bytes[j]) by {
            assert(may_stand_in_id(bytes[j]));
        }
        crate::validation::lemma_first_unexpected_unique(bytes, i as int);
    }
    if spec_validate::<N>(bytes) == Err::<(), ParseError<N>>(ParseError::UnexpectedCharacter(i)) {
        law_unexpected_character_is_first_invalid::<N>(bytes, i);
        assert forall|j: int| 0 <= j < i implies #[trigger] may_stand_in_id(bytes[j]) by {
            assert(!is_unexpected_byte(bytes[j]));
        }
    }
}

/// The ASCII whitespace of `char::is_whitespace`: tab, line feed, vertical tab, form feed,
/// carriage return and space.
pub open spec fn is_ascii_whitespace_char(byte: u8) -> bool {
    byte == 9 || byte == 10 || byte == 11 || byte == 12 || byte == 13 || byte == 32
}

/// A loose id holds no ASCII whitespace, and the first whitespace byte of a string is the one
/// that loose validation reports.
pub proof fn law_loose_ids_hold_no_whitespace(bytes: Seq<u8>, i: usize)
    requires
        fits_in_memory(bytes),
    ensures
        spec_validate_loose(bytes) is Ok ==> forall|k: int|
            0 <= k < bytes.len() ==> !is_ascii_whitespace_char(#[trigger] bytes[k]),
        (i < bytes.len() && is_ascii_whitespace_char(bytes[i as int]) && forall|j: int|
            0 <= j < i ==> !is_ascii_whitespace_char(#[trigger] bytes[j])) ==> spec_validate_loose(
            bytes,
        ) == Err::<(), LooseParseError>(LooseParseError::UnexpectedWhitespace(i)),
{
    if spec_validate_loose(bytes) is Ok {
        assert forall|k: int| 0 <= k < bytes.len() implies !is_ascii_whitespace_char(
            #[trigger] bytes[k],
        ) by {
            if is_ascii_whitespace_char(bytes[k]) {
                assert(is_whitespace_byte(bytes[k]));
                assert(has_whitespace(bytes));
            }
        }
    }
    if i < bytes.len() && is_ascii_whitespace_char(bytes[i as int]) && forall|j: int|
        0 <= j < i ==> !is_ascii_whitespace_char(#[trigger] bytes[j]) {
        assert(is_whitespace_byte(bytes[i as int]));
        assert forall|j: int| 0 <= j < i implies !is_whitespace_byte(#[trigger] bytes[j]) by {
            assert(!is_ascii_whitespace_char(bytes[j]));
        }
        assert(is_first_whitespace(bytes, i as int));
        assert(has_whitespace(bytes));
        let k = choose|k: int| is_first_whitespace(bytes, k);
        assert(is_first_whitespace(bytes, k));
        if k < i {
            assert(!is_ascii_whitespace_char(bytes[k]));
        } else if i < k {
            assert(!is_whitespace_byte(bytes[i as int]));
        }
    }
}

/// How a sequence splits into components: one without a `:` (58) is its own only
/// component, and a `:` followed by bytes without one starts a last component of those bytes.
pub proof fn law_split_structure(front: Seq<u8>, last: Seq<u8>)
    requires
        forall|i: int| 0 <= i < last.len() ==> #[trigger] last[i] != 58,
    ensures
        split_components(last) == seq![last],
        split_components(front + seq![58u8] + last) == split_components(front).push(last),
{
    assert(has_no_separator(last));
    lemma_split_append_plain(Seq::<u8>::empty(), last);
    assert(Seq::<u8>::empty() + last =~= last);
    assert(seq![Seq::<u8>::empty()].update(0, Seq::<u8>::empty() + last) =~= seq![last]);
    let with_sep = front + seq![58u8];
    assert(with_sep.drop_last() =~= front);
    lemma_split_len(front);
    lemma_split_append_plain(with_sep, last);
    let parts = split_components(with_sep);
    assert(parts == split_components(front).push(Seq::<u8>::empty()));
    assert(parts.update(parts.len() - 1, parts.last() + last) =~= split_components(front).push(
        last,
    ));
}

/// A string of id bytes that is not an id with `N` components is reported with its number of
/// components: one more than its separators, or none for the empty string.
pub proof fn law_component_count_reported<const N: usize>(bytes: Seq<u8>)
    requires
        forall|i: int| 0 <= i < bytes.len() ==> #[trigger] may_stand_in_id(bytes[i]),
        !is_valid_id::<N>(bytes),
    ensures
        spec_validate::<N>(bytes) == Err::<(), ParseError<N>>(
            ParseError::UnexpectedComponentCount(
                if bytes.len() == 0 {
                    0
                } else {
                    (separator_count(bytes) + 1) as usize
                },
            ),
        ),
{
    law_valid_id_bytes::<N>(bytes);
    assert forall|i: int| 0 <= i < bytes.len() implies !is_unexpected_byte(#[trigger] bytes[i]) by {
        assert(may_stand_in_id(bytes[i]));
    }
}

/// On a string without ASCII whitespace, loose validation reports how many separators it
/// holds: the empty string has no namespace, no separator means no id, one is a loose id, and
/// more are too many.
pub proof fn law_loose_separator_outcome(bytes: Seq<u8>)
    requires
        forall|i: int| 0 <= i < bytes.len() ==> !is_ascii_whitespace_char(#[trigger] bytes[i]),
    ensures
        spec_validate_loose(bytes) == if bytes.len() == 0 {
            Err::<(), LooseParseError>(LooseParseError::ExpectedNamespace)
        } else if separator_count(bytes) == 0 {
            Err(LooseParseError::ExpectedId)
        } else if separator_count(bytes) == 1 {
            Ok(())
        } else {
            Err(LooseParseError::TooManySeparators(separator_count(bytes) as usize))
        },
{
    if has_whitespace(bytes) {
        let k = choose|k: int| 0 <= k < bytes.len() && is_whitespace_byte(#[trigger] bytes[k]);
        assert(!is_ascii_whitespace_char(bytes[k]));
    }
    if bytes.len() == 0 {
        assert(separator_count(bytes) == 0);
    }
}

/// The end index of each component but the last is the position of a separator with exactly
/// as many separators before it as components before it.
pub proof fn law_component_ends_at_separators(bytes: Seq<u8>, ends: Seq<usize>)
    requires
        are_component_ends(bytes, ends),
        ends.len() == split_components(bytes).len(),
    ensures
        forall|k: int|
            0 <= k < ends.len() - 1 ==> bytes[#[trigger] ends[k] as int] == 58 && separator_count(
                bytes.take(ends[k] as int),
            ) == k,
        ends.len() >= 1 ==> ends.last() == bytes.len(),
{
    lemma_split_parts(bytes);
    assert forall|m: int| 0 <= m < ends.len() implies has_no_separator(
        bytes.subrange(component_start(ends, m), #[trigger] ends[m] as int),
    ) by {
        assert(bytes.subrange(component_start(ends, m), ends[m] as int) == split_components(
            bytes,
        )[m]);
    }
    assert forall|k: int| 0 <= k < ends.len() - 1 implies bytes[#[trigger] ends[k] as int] == 58
        && separator_count(bytes.take(ends[k] as int)) == k by {
        lemma_count_before_end(bytes, ends, k);
    }
}

/// Induction step of `law_component_ends_at_separators`.
proof fn lemma_count_before_end(bytes: Seq<u8>, ends: Seq<usize>, k: int)
    requires
        0 <= k < ends.len(),
        forall|m: int|
            0 <= m <= k ==> component_start(ends, m) <= #[trigger] ends[m] <= bytes.len(),
        forall|m: int|
            0 <= m <= k ==> has_no_separator(
                bytes.subrange(component_start(ends, m), #[trigger] ends[m] as int),
            ),
        forall|m: int| 0 <= m < k ==> bytes[#[trigger] ends[m] as int] == SEPARATOR,
    ensures
        separator_count(bytes.take(ends[k] as int)) == k,
    decreases k,
{
    let start = component_start(ends, k);
    let piece = bytes.subrange(start, ends[k] as int);
    assert(component_start(ends, k) <= ends[k]);
    assert(has_no_separator(piece));
    lemma_no_separator_count(piece);
    if k == 0 {
        assert(bytes.take(ends[0] as int) =~= piece);
    } else {
        lemma_count_before_end(bytes, ends, k - 1);
        let prev = ends[k - 1] as int;
        let before = bytes.take(prev);
        assert(component_start(ends, k - 1) <= ends[k - 1]);
        assert(bytes[prev] == SEPARATOR);
        let sep = seq![bytes[prev]];
        assert(bytes.take(ends[k] as int) =~= before + sep + piece);
        lemma_separator_count_concat(before + sep, piece);
        lemma_separator_count_concat(before, sep);
        assert(sep.drop_last() =~= Seq::<u8>::empty());
        assert(separator_count(Seq::<u8>::empty()) == 0);
        assert(separator_count(sep) == 1);
    }
}

} // verus!

//! How an id splits into components at its separators, how components join back into
//! an id, and the facts that tie the two to validation.
use vstd::prelude::*;

use crate::text::all_ascii;

use crate::validation::{
    has_unexpected_byte, is_unexpected_byte, is_valid_id, separator_count, spec_is_valid_byte,
    SEPARATOR,
};

verus! {

/// The components of `bytes`: the runs of bytes between its separators, in order.
/// A sequence with `k` separators has `k + 1` components, some of which may be empty.
pub open spec fn split_components(bytes: Seq<u8>) -> Seq<Seq<u8>>
    decreases bytes.len(),
{
    if bytes.len() == 0 {
        seq![Seq::<u8>::empty()]
    } else {
        let init = split_components(bytes.drop_last());
        if bytes.last() == SEPARATOR {
            init.push(Seq::<u8>::empty())
        } else {
            init.update(init.len() - 1, init.last().push(bytes.last()))
        }
    }
}

/// The components `parts` joined with a separator between each two neighbours.
pub open spec fn join_components(parts: Seq<Seq<u8>>) -> Seq<u8>
    decreases parts.len(),
{
    if parts.len() == 0 {
        Seq::<u8>::empty()
    } else if parts.len() == 1 {
        parts[0]
    } else {
        join_components(parts.drop_last()) + seq![SEPARATOR] + parts.last()
    }
}

/// `bytes` holds no separator.
pub open spec fn has_no_separator(bytes: Seq<u8>) -> bool {
    forall|i: int| 0 <= i < bytes.len() ==> #[trigger] bytes[i] != SEPARATOR
}

/// Every byte of `bytes` may stand inside a component.
pub open spec fn all_valid_bytes(bytes: Seq<u8>) -> bool {
    forall|i: int| 0 <= i < bytes.len() ==> spec_is_valid_byte(#[trigger] bytes[i])
}

/// A sequence with `k` separators has `k + 1` components.
pub proof fn lemma_split_len(bytes: Seq<u8>)
    ensures
        split_components(bytes).len() == separator_count(bytes) + 1,
    decreases bytes.len(),
{
    if bytes.len() > 0 {
        lemma_split_len(bytes.drop_last());
    }
}

/// No component holds a separator, and the components of a sequence without unexpected
/// bytes are made of component bytes only.
pub proof fn lemma_split_parts(bytes: Seq<u8>)
    ensures
        forall|k: int|
            0 <= k < split_components(bytes).len() ==> has_no_separator(
                #[trigger] split_components(bytes)[k],
            ),
        !has_unexpected_byte(bytes) ==> forall|k: int|
            0 <= k < split_components(bytes).len() ==> all_valid_bytes(
                #[trigger] split_components(bytes)[k],
            ),
    decreases bytes.len(),
{
    if bytes.len() > 0 {
        let init = bytes.drop_last();
        lemma_split_parts(init);
        lemma_split_len(init);
        if !has_unexpected_byte(bytes) {
            assert(!has_unexpected_byte(init)) by {
                assert forall|i: int| 0 <= i < init.len() implies !is_unexpected_byte(
                    #[trigger] init[i],
                ) by {
                    assert(init[i] == bytes[i]);
                }
            }
            assert(!is_unexpected_byte(bytes[bytes.len() - 1]));
        }
    }
}

/// Appending `extra` to the last of several components.
proof fn lemma_join_extend_last(parts: Seq<Seq<u8>>, extra: Seq<u8>)
    requires
        parts.len() >= 1,
    ensures
        join_components(parts.update(parts.len() - 1, parts.last() + extra)) == join_components(
            parts,
        ) + extra,
{
    let updated = parts.update(parts.len() - 1, parts.last() + extra);
    if parts.len() > 1 {
        assert(updated.drop_last() =~= parts.drop_last());
        assert(join_components(updated) =~= join_components(parts) + extra);
    } else {
        assert(join_components(updated) =~= join_components(parts) + extra);
    }
}

/// Joining the components of a sequence gives the sequence back.
pub proof fn lemma_join_split(bytes: Seq<u8>)
    ensures
        join_components(split_components(bytes)) == bytes,
    decreases bytes.len(),
{
    if bytes.len() > 0 {
        let init = bytes.drop_last();
        let parts = split_components(init);
        lemma_join_split(init);
        lemma_split_len(init);
        if bytes.last() == SEPARATOR {
            let pushed = parts.push(Seq::<u8>::empty());
            assert(pushed.drop_last() =~= parts);
            assert(join_components(pushed) =~= bytes);
        } else {
            lemma_join_extend_last(parts, seq![bytes.last()]);
            assert(parts.last() + seq![bytes.last()] =~= parts.last().push(bytes.last()));
            assert(bytes =~= init + seq![bytes.last()]);
        }
    }
}

/// Appending bytes without a separator extends the last component.
pub proof fn lemma_split_append_plain(front: Seq<u8>, tail: Seq<u8>)
    requires
        has_no_separator(tail),
    ensures
        split_components(front + tail) == split_components(front).update(
            split_components(front).len() - 1,
            split_components(front).last() + tail,
        ),
    decreases tail.len(),
{
    lemma_split_len(front);
    let parts = split_components(front);
    if tail.len() == 0 {
        assert(front + tail =~= front);
        assert(parts.last() + tail =~= parts.last());
        assert(parts.update(parts.len() - 1, parts.last()) =~= parts);
    } else {
        let shorter = tail.drop_last();
        assert(has_no_separator(shorter)) by {
            assert forall|i: int| 0 <= i < shorter.len() implies #[trigger] shorter[i]
                != SEPARATOR by {
                assert(shorter[i] == tail[i]);
            }
        }
        lemma_split_append_plain(front, shorter);
        assert((front + tail).drop_last() =~= front + shorter);
        assert((front + tail).last() == tail.last());
        assert(tail.last() != SEPARATOR) by {
            assert(tail[tail.len() - 1] != SEPARATOR);
        }
        let mid = parts.update(parts.len() - 1, parts.last() + shorter);
        assert(mid.last() =~= parts.last() + shorter);
        assert((parts.last() + shorter).push(tail.last()) =~= parts.last() + tail);
        assert(mid.update(mid.len() - 1, mid.last().push(tail.last())) =~= parts.update(
            parts.len() - 1,
            parts.last() + tail,
        ));
    }
}

/// Splitting the join of components without separators gives the components back.
pub proof fn lemma_split_join(parts: Seq<Seq<u8>>)
    requires
        parts.len() >= 1,
        forall|k: int| 0 <= k < parts.len() ==> has_no_separator(#[trigger] parts[k]),
    ensures
        split_components(join_components(parts)) == parts,
    decreases parts.len(),
{
    if parts.len() == 1 {
        let empty = Seq::<u8>::empty();
        assert(has_no_separator(parts[0]));
        lemma_split_append_plain(empty, parts[0]);
        assert(empty + parts[0] =~= parts[0]);
        assert(split_components(empty) =~= seq![empty]);
        assert(empty + parts[0] =~= parts[0]);
        assert(seq![empty].update(0, empty + parts[0]) =~= parts);
    } else {
        let init = parts.drop_last();
        assert forall|k: int| 0 <= k < init.len() implies has_no_separator(#[trigger] init[k]) by {
            assert(init[k] == parts[k]);
        }
        lemma_split_join(init);
        let front = join_components(init) + seq![SEPARATOR];
        assert(front.drop_last() =~= join_components(init));
        let split_front = split_components(front);
        assert(split_front =~= init.push(Seq::<u8>::empty()));
        assert(has_no_separator(parts.last())) by {
            assert(has_no_separator(parts[parts.len() - 1]));
        }
        lemma_split_append_plain(front, parts.last());
        assert(Seq::<u8>::empty() + parts.last() =~= parts.last());
        assert(split_front.update(split_front.len() - 1, split_front.last() + parts.last())
            =~= parts);
    }
}

/// A sequence without separators has none to count.
pub proof fn lemma_no_separator_count(bytes: Seq<u8>)
    requires
        has_no_separator(bytes),
    ensures
        separator_count(bytes) == 0,
    decreases bytes.len(),
{
    if bytes.len() > 0 {
        let init = bytes.drop_last();
        assert(has_no_separator(init)) by {
            assert forall|i: int| 0 <= i < init.len() implies #[trigger] init[i] != SEPARATOR by {
                assert(init[i] == bytes[i]);
            }
        }
        assert(bytes[bytes.len() - 1] != SEPARATOR);
        lemma_no_separator_count(init);
    }
}

/// Separators of a concatenation: those of both parts.
pub proof fn lemma_separator_count_concat(front: Seq<u8>, back: Seq<u8>)
    ensures
        separator_count(front + back) == separator_count(front) + separator_count(back),
    decreases back.len(),
{
    if back.len() == 0 {
        assert(front + back =~= front);
    } else {
        lemma_separator_count_concat(front, back.drop_last());
        assert((front + back).drop_last() =~= front + back.drop_last());
        assert((front + back).last() == back.last());
    }
}

/// A sequence with no separators to count holds none.
pub proof fn lemma_zero_count_no_separator(bytes: Seq<u8>)
    requires
        separator_count(bytes) == 0,
    ensures
        has_no_separator(bytes),
    decreases bytes.len(),
{
    if bytes.len() > 0 {
        let init = bytes.drop_last();
        lemma_zero_count_no_separator(init);
        assert forall|i: int| 0 <= i < bytes.len() implies #[trigger] bytes[i] != SEPARATOR by {
            if i < init.len() {
                assert(bytes[i] == init[i]);
            }
        }
    }
}

/// A sequence with exactly one separator, at `p`, has the two components around it.
pub proof fn lemma_split_at_single_separator(bytes: Seq<u8>, p: int)
    requires
        0 <= p < bytes.len(),
        bytes[p] == SEPARATOR,
        separator_count(bytes) == 1,
    ensures
        split_components(bytes) == seq![bytes.subrange(0, p), bytes.subrange(p + 1, bytes.len() as int)],
{
    let front = bytes.subrange(0, p);
    let back = bytes.subrange(p + 1, bytes.len() as int);
    let sep = seq![SEPARATOR];
    assert(bytes =~= front + sep + back);
    lemma_separator_count_concat(front + sep, back);
    lemma_separator_count_concat(front, sep);
    assert(sep.drop_last() =~= Seq::<u8>::empty());
    assert(separator_count(sep) == 1);
    lemma_zero_count_no_separator(front);
    lemma_zero_count_no_separator(back);
    let pair = seq![front, back];
    assert(pair.drop_last() =~= seq![front]);
    assert(join_components(seq![front]) == front);
    assert(join_components(pair) == front + sep + back);
    lemma_split_join(pair);
}

/// A valid component is exactly a sequence of component bytes.
pub proof fn lemma_component_valid(bytes: Seq<u8>)
    ensures
        is_valid_id::<1>(bytes) <==> all_valid_bytes(bytes),
{
    if all_valid_bytes(bytes) {
        assert(!has_unexpected_byte(bytes)) by {
            assert forall|i: int| 0 <= i < bytes.len() implies !is_unexpected_byte(
                #[trigger] bytes[i],
            ) by {
                assert(spec_is_valid_byte(bytes[i]));
            }
        }
        assert(has_no_separator(bytes)) by {
            assert forall|i: int| 0 <= i < bytes.len() implies #[trigger] bytes[i]
                != SEPARATOR by {
                assert(spec_is_valid_byte(bytes[i]));
            }
        }
        lemma_no_separator_count(bytes);
    }
    if is_valid_id::<1>(bytes) {
        assert(!has_unexpected_byte(bytes));
        lemma_split_len(bytes);
        lemma_split_parts(bytes);
        assert(split_components(bytes).len() == 1);
        lemma_join_split(bytes);
        assert(join_components(split_components(bytes)) == split_components(bytes)[0]);
        assert(all_valid_bytes(split_components(bytes)[0]));
    }
}

/// A valid id with `N >= 1` components has exactly `N` components, each a valid component.
pub proof fn lemma_valid_id_components<const N: usize>(bytes: Seq<u8>)
    requires
        N >= 1,
        is_valid_id::<N>(bytes),
    ensures
        split_components(bytes).len() == N,
        forall|k: int|
            0 <= k < N ==> #[trigger] is_valid_id::<1>(split_components(bytes)[k]),
        forall|k: int|
            0 <= k < N ==> #[trigger] all_valid_bytes(split_components(bytes)[k]),
{
    lemma_split_len(bytes);
    lemma_split_parts(bytes);
    if separator_count(bytes) + 1 != N {
        assert(N == 0 && bytes.len() == 0);
    }
    assert forall|k: int| 0 <= k < N implies #[trigger] is_valid_id::<1>(
        split_components(bytes)[k],
    ) by {
        lemma_component_valid(split_components(bytes)[k]);
    }
}

/// Concatenating sequences without unexpected bytes gives none.
pub proof fn lemma_concat_no_unexpected(front: Seq<u8>, back: Seq<u8>)
    requires
        !has_unexpected_byte(front),
        !has_unexpected_byte(back),
    ensures
        !has_unexpected_byte(front + back),
{
    let whole = front + back;
    assert forall|i: int| 0 <= i < whole.len() implies !is_unexpected_byte(#[trigger] whole[i]) by {
        if i < front.len() {
            assert(whole[i] == front[i]);
        } else {
            assert(whole[i] == back[i - front.len()]);
        }
    }
}

/// Joining `N >= 1` valid components gives a valid id with `N` components.
pub proof fn lemma_join_valid<const N: usize>(parts: Seq<Seq<u8>>)
    requires
        N >= 1,
        parts.len() == N,
        forall|k: int| 0 <= k < parts.len() ==> #[trigger] is_valid_id::<1>(parts[k]),
    ensures
        is_valid_id::<N>(join_components(parts)),
        split_components(join_components(parts)) == parts,
    decreases parts.len(),
{
    assert forall|k: int| 0 <= k < parts.len() implies has_no_separator(#[trigger] parts[k]) by {
        assert(is_valid_id::<1>(parts[k]));
        lemma_component_valid(parts[k]);
        assert forall|i: int| 0 <= i < parts[k].len() implies #[trigger] parts[k][i]
            != SEPARATOR by {
            assert(spec_is_valid_byte(parts[k][i]));
        }
    }
    lemma_split_join(parts);
    lemma_split_len(join_components(parts));
    lemma_join_no_unexpected(parts);
}

/// The join of valid components holds no unexpected byte.
proof fn lemma_join_no_unexpected(parts: Seq<Seq<u8>>)
    requires
        forall|k: int| 0 <= k < parts.len() ==> #[trigger] is_valid_id::<1>(parts[k]),
    ensures
        !has_unexpected_byte(join_components(parts)),
    decreases parts.len(),
{
    if parts.len() == 1 {
        assert(is_valid_id::<1>(parts[0]));
    } else if parts.len() > 1 {
        let init = parts.drop_last();
        assert forall|k: int| 0 <= k < init.len() implies #[trigger] is_valid_id::<1>(init[k]) by {
            assert(init[k] == parts[k]);
        }
        lemma_join_no_unexpected(init);
        let sep = seq![SEPARATOR];
        assert(!has_unexpected_byte(sep)) by {
            assert forall|i: int| 0 <= i < sep.len() implies !is_unexpected_byte(
                #[trigger] sep[i],
            ) by {}
        }
        lemma_concat_no_unexpected(join_components(init), sep);
        assert(is_valid_id::<1>(parts[parts.len() - 1]));
        lemma_concat_no_unexpected(join_components(init) + sep, parts.last());
    }
}

/// The bytes of a valid id are ASCII bytes.
pub proof fn lemma_valid_id_ascii<const N: usize>(bytes: Seq<u8>)
    requires
        is_valid_id::<N>(bytes),
    ensures
        all_ascii(bytes),
        !has_unexpected_byte(bytes),
{
    assert forall|i: int| 0 <= i < bytes.len() implies #[trigger] bytes[i] < 128 by {
        assert(!is_unexpected_byte(bytes[i]));
    }
}

} // verus!

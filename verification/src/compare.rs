//! Comparisons between ids and the strings that spell them, and between owned, borrowed and
//! shared forms of one id: two sides are equal when they hold the same bytes, and are ordered
//! as their bytes are, lexicographically, as `str` is.
use std::cmp::Ordering;

use vstd::prelude::*;
use vstd::std_specs::cmp::{PartialEqSpecImpl, PartialOrdSpecImpl};
use vstd::string::StringSliceAdditionalSpecFns;

use crate::id::{ArcDelimitedId, DelimitedId, DelimitedIdRef};
use crate::loose::NamespacedId as LooseNamespacedId;
use crate::loose::NamespacedIdRef as LooseNamespacedIdRef;
use crate::text::{bytes_equal, bytes_from, common_prefix_len};

verus! {

/// How `left` is ordered against `right`, as `-1` (before), `0` (equal) or `1` (after): by
/// the first byte where they differ, or, where one is a prefix of the other, the shorter first.
pub open spec fn lexicographic_order(left: Seq<u8>, right: Seq<u8>) -> int
    decreases left.len(),
{
    if left.len() == 0 {
        if right.len() == 0 {
            0
        } else {
            -1
        }
    } else if right.len() == 0 {
        1
    } else if left[0] < right[0] {
        -1
    } else if left[0] > right[0] {
        1
    } else {
        lexicographic_order(left.drop_first(), right.drop_first())
    }
}

/// The `Ordering` that the sign of `order` stands for.
pub open spec fn ordering_of(order: int) -> Ordering {
    if order < 0 {
        Ordering::Less
    } else if order == 0 {
        Ordering::Equal
    } else {
        Ordering::Greater
    }
}

/// `a` and `b` hold the same bytes, one by one.
pub open spec fn same_bytes(a: Seq<u8>, b: Seq<u8>) -> bool {
    a.len() == b.len() && forall|i: int| 0 <= i < a.len() ==> a[i] == b[i]
}

/// `a` comes before `b` at index `i`: they agree on the first `i` bytes, and there `a` ends
/// while `b` goes on, or `a` holds the smaller byte.
pub open spec fn precedes_at(a: Seq<u8>, b: Seq<u8>, i: int) -> bool {
    &&& 0 <= i <= a.len()
    &&& i <= b.len()
    &&& forall|j: int| 0 <= j < i ==> a[j] == b[j]
    &&& (i == a.len() && i < b.len()) || (i < a.len() && i < b.len() && a[i] < b[i])
}

/// `a` comes before `b` in the dictionary order of bytes.
pub open spec fn precedes(a: Seq<u8>, b: Seq<u8>) -> bool {
    exists|i: int| #[trigger] precedes_at(a, b, i)
}

/// Where two sequences start with the same byte, that byte changes neither their order
/// nor whether they hold the same bytes.
proof fn lemma_shared_first_byte(a: Seq<u8>, b: Seq<u8>)
    requires
        a.len() > 0,
        b.len() > 0,
        a[0] == b[0],
    ensures
        precedes(a, b) <==> precedes(a.drop_first(), b.drop_first()),
        same_bytes(a, b) <==> same_bytes(a.drop_first(), b.drop_first()),
{
    let (ta, tb) = (a.drop_first(), b.drop_first());
    if precedes(a, b) {
        let i = choose|i: int| #[trigger] precedes_at(a, b, i);
        assert(i >= 1);
        assert forall|j: int| 0 <= j < i - 1 implies ta[j] == tb[j] by {
            assert(a[j + 1] == b[j + 1]);
        }
        assert(precedes_at(ta, tb, i - 1));
    }
    if precedes(ta, tb) {
        let i = choose|i: int| #[trigger] precedes_at(ta, tb, i);
        assert forall|j: int| 0 <= j < i + 1 implies a[j] == b[j] by {
            if j > 0 {
                assert(ta[j - 1] == tb[j - 1]);
            }
        }
        assert(precedes_at(a, b, i + 1));
    }
    if same_bytes(ta, tb) {
        assert forall|j: int| 0 <= j < a.len() implies a[j] == b[j] by {
            if j > 0 {
                assert(ta[j - 1] == tb[j - 1]);
            }
        }
    }
    if same_bytes(a, b) {
        assert forall|j: int| 0 <= j < ta.len() implies ta[j] == tb[j] by {
            assert(a[j + 1] == b[j + 1]);
        }
    }
}

/// What the dictionary order of bytes says of two sequences: `0` when they hold the same
/// bytes, `-1` when the first comes before, `1` when it comes after.
proof fn lemma_lexicographic_order_meaning(a: Seq<u8>, b: Seq<u8>)
    ensures
        lexicographic_order(a, b) == 0 <==> same_bytes(a, b),
        lexicographic_order(a, b) == -1 <==> precedes(a, b),
        lexicographic_order(a, b) == 1 <==> precedes(b, a),
        lexicographic_order(a, b) == -1 || lexicographic_order(a, b) == 0 || lexicographic_order(
            a,
            b,
        ) == 1,
    decreases a.len(),
{
    if a.len() == 0 || b.len() == 0 {
        if a.len() < b.len() {
            assert(precedes_at(a, b, 0));
        }
        if b.len() < a.len() {
            assert(precedes_at(b, a, 0));
        }
        if precedes(a, b) {
            let i = choose|i: int| #[trigger] precedes_at(a, b, i);
        }
        if precedes(b, a) {
            let i = choose|i: int| #[trigger] precedes_at(b, a, i);
        }
    } else if a[0] != b[0] {
        if a[0] < b[0] {
            assert(precedes_at(a, b, 0));
        } else {
            assert(precedes_at(b, a, 0));
        }
        if precedes(a, b) {
            let i = choose|i: int| #[trigger] precedes_at(a, b, i);
            if i > 0 {
                assert(a[0] == b[0]);
            }
        }
        if precedes(b, a) {
            let i = choose|i: int| #[trigger] precedes_at(b, a, i);
            if i > 0 {
                assert(b[0] == a[0]);
            }
        }
    } else {
        lemma_lexicographic_order_meaning(a.drop_first(), b.drop_first());
        lemma_shared_first_byte(a, b);
        lemma_shared_first_byte(b, a);
        if same_bytes(a, b) {
            assert(same_bytes(b, a));
        }
    }
}

/// Comparing by bytes orders two sequences as a dictionary does: equal when they hold the same
/// bytes, before when the first differs by a smaller byte or ends first, after otherwise.
pub proof fn law_byte_order_is_dictionary_order(a: Seq<u8>, b: Seq<u8>)
    ensures
        ordering_of(lexicographic_order(a, b)) == Ordering::Equal <==> same_bytes(a, b),
        ordering_of(lexicographic_order(a, b)) == Ordering::Less <==> precedes(a, b),
        ordering_of(lexicographic_order(a, b)) == Ordering::Greater <==> precedes(b, a),
{
    lemma_lexicographic_order_meaning(a, b);
}

/// Bytes that two sequences share at the front do not change how they are ordered.
proof fn lemma_order_after_common_prefix(left: Seq<u8>, right: Seq<u8>, i: usize)
    requires
        i <= left.len(),
        i <= right.len(),
        forall|j: int| 0 <= j < i ==> left[j] == right[j],
    ensures
        lexicographic_order(left, right) == lexicographic_order(
            bytes_from(left, i),
            bytes_from(right, i),
        ),
    decreases i,
{
    if i == 0 {
        assert(bytes_from(left, 0) =~= left);
        assert(bytes_from(right, 0) =~= right);
    } else {
        let shorter = (i - 1) as usize;
        assert(left[0] == right[0]);
        assert forall|j: int| 0 <= j < shorter implies left.drop_first()[j]
            == right.drop_first()[j] by {
            assert(left[j + 1] == right[j + 1]);
        }
        lemma_order_after_common_prefix(left.drop_first(), right.drop_first(), shorter);
        assert(bytes_from(left.drop_first(), shorter) =~= bytes_from(left, i));
        assert(bytes_from(right.drop_first(), shorter) =~= bytes_from(right, i));
    }
}

/// How the bytes of `left` are ordered against those of `right`.
pub fn compare_byte_slices(left: &[u8], right: &[u8]) -> (r: Ordering)
    ensures
        r == ordering_of(lexicographic_order(left@, right@)),
{
    let i = common_prefix_len(left, right);
    proof {
        lemma_order_after_common_prefix(left@, right@, i);
    }
    if i < left.len() && i < right.len() {
        let l = left[i];
        let r = right[i];
        proof {
            assert(bytes_from(left@, i)[0] == l);
            assert(bytes_from(right@, i)[0] == r);
        }
        if l < r {
            Ordering::Less
        } else {
            Ordering::Greater
        }
    } else if i == left.len() && i == right.len() {
        proof {
            assert(bytes_from(left@, i).len() == 0);
            assert(bytes_from(right@, i).len() == 0);
        }
        Ordering::Equal
    } else if i == left.len() {
        proof {
            assert(bytes_from(left@, i).len() == 0);
        }
        Ordering::Less
    } else {
        proof {
            assert(bytes_from(right@, i).len() == 0);
        }
        Ordering::Greater
    }
}

impl<'b, const N: usize> PartialEq<&'b DelimitedId<N>> for DelimitedId<N> {
    fn eq(&self, other: &&'b DelimitedId<N>) -> (r: bool) {
        bytes_equal(self.as_str().as_bytes(), other.as_str().as_bytes())
    }
}

impl<'b, const N: usize> PartialEqSpecImpl<&'b DelimitedId<N>> for DelimitedId<N> {
    open spec fn obeys_eq_spec() -> bool {
        true
    }

    open spec fn eq_spec(&self, other: &&'b DelimitedId<N>) -> bool {
        self@ == other@
    }
}

impl<'b, const N: usize> PartialOrd<&'b DelimitedId<N>> for DelimitedId<N> {
    fn partial_cmp(&self, other: &&'b DelimitedId<N>) -> (r: Option<Ordering>) {
        Some(compare_byte_slices(self.as_str().as_bytes(), other.as_str().as_bytes()))
    }
}

impl<'b, const N: usize> PartialOrdSpecImpl<&'b DelimitedId<N>> for DelimitedId<N> {
    open spec fn obeys_partial_cmp_spec() -> bool {
        true
    }

    open spec fn partial_cmp_spec(&self, other: &&'b DelimitedId<N>) -> Option<Ordering> {
        Some(ordering_of(lexicographic_order(self@, other@)))
    }
}

impl<'a, const N: usize> PartialEq<DelimitedIdRef<'a, N>> for DelimitedId<N> {
    fn eq(&self, other: &DelimitedIdRef<'a, N>) -> (r: bool) {
        bytes_equal(self.as_str().as_bytes(), other.as_str().as_bytes())
    }
}

impl<'a, const N: usize> PartialEqSpecImpl<DelimitedIdRef<'a, N>> for DelimitedId<N> {
    open spec fn obeys_eq_spec() -> bool {
        true
    }

    open spec fn eq_spec(&self, other: &DelimitedIdRef<'a, N>) -> bool {
        self@ == other@
    }
}

impl<'a, const N: usize> PartialOrd<DelimitedIdRef<'a, N>> for DelimitedId<N> {
    fn partial_cmp(&self, other: &DelimitedIdRef<'a, N>) -> (r: Option<Ordering>) {
        Some(compare_byte_slices(self.as_str().as_bytes(), other.as_str().as_bytes()))
    }
}

impl<'a, const N: usize> PartialOrdSpecImpl<DelimitedIdRef<'a, N>> for DelimitedId<N> {
    open spec fn obeys_partial_cmp_spec() -> bool {
        true
    }

    open spec fn partial_cmp_spec(&self, other: &DelimitedIdRef<'a, N>) -> Option<Ordering> {
        Some(ordering_of(lexicographic_order(self@, other@)))
    }
}

impl<const N: usize> PartialEq<str> for DelimitedId<N> {
    fn eq(&self, other: &str) -> (r: bool) {
        bytes_equal(self.as_str().as_bytes(), other.as_bytes())
    }
}

impl<const N: usize> PartialEqSpecImpl<str> for DelimitedId<N> {
    open spec fn obeys_eq_spec() -> bool {
        true
    }

    open spec fn eq_spec(&self, other: &str) -> bool {
        self@ == other.spec_bytes()
    }
}

impl<const N: usize> PartialOrd<str> for DelimitedId<N> {
    fn partial_cmp(&self, other: &str) -> (r: Option<Ordering>) {
        Some(compare_byte_slices(self.as_str().as_bytes(), other.as_bytes()))
    }
}

impl<const N: usize> PartialOrdSpecImpl<str> for DelimitedId<N> {
    open spec fn obeys_partial_cmp_spec() -> bool {
        true
    }

    open spec fn partial_cmp_spec(&self, other: &str) -> Option<Ordering> {
        Some(ordering_of(lexicographic_order(self@, other.spec_bytes())))
    }
}

impl<'b, const N: usize> PartialEq<&'b str> for DelimitedId<N> {
    fn eq(&self, other: &&'b str) -> (r: bool) {
        bytes_equal(self.as_str().as_bytes(), other.as_bytes())
    }
}

impl<'b, const N: usize> PartialEqSpecImpl<&'b str> for DelimitedId<N> {
    open spec fn obeys_eq_spec() -> bool {
        true
    }

    open spec fn eq_spec(&self, other: &&'b str) -> bool {
        self@ == (*other).spec_bytes()
    }
}

impl<'b, const N: usize> PartialOrd<&'b str> for DelimitedId<N> {
    fn partial_cmp(&self, other: &&'b str) -> (r: Option<Ordering>) {
        Some(compare_byte_slices(self.as_str().as_bytes(), other.as_bytes()))
    }
}

impl<'b, const N: usize> PartialOrdSpecImpl<&'b str> for DelimitedId<N> {
    open spec fn obeys_partial_cmp_spec() -> bool {
        true
    }

    open spec fn partial_cmp_spec(&self, other: &&'b str) -> Option<Ordering> {
        Some(ordering_of(lexicographic_order(self@, (*other).spec_bytes())))
    }
}

impl<'b, const N: usize> PartialEq<DelimitedId<N>> for &'b DelimitedId<N> {
    fn eq(&self, other: &DelimitedId<N>) -> (r: bool) {
        bytes_equal(self.as_str().as_bytes(), other.as_str().as_bytes())
    }
}

impl<'b, const N: usize> PartialEqSpecImpl<DelimitedId<N>> for &'b DelimitedId<N> {
    open spec fn obeys_eq_spec() -> bool {
        true
    }

    open spec fn eq_spec(&self, other: &DelimitedId<N>) -> bool {
        self@ == other@
    }
}

impl<'b, const N: usize> PartialOrd<DelimitedId<N>> for &'b DelimitedId<N> {
    fn partial_cmp(&self, other: &DelimitedId<N>) -> (r: Option<Ordering>) {
        Some(compare_byte_slices(self.as_str().as_bytes(), other.as_str().as_bytes()))
    }
}

impl<'b, const N: usize> PartialOrdSpecImpl<DelimitedId<N>> for &'b DelimitedId<N> {
    open spec fn obeys_partial_cmp_spec() -> bool {
        true
    }

    open spec fn partial_cmp_spec(&self, other: &DelimitedId<N>) -> Option<Ordering> {
        Some(ordering_of(lexicographic_order(self@, other@)))
    }
}

impl<'b, 'a, const N: usize> PartialEq<DelimitedIdRef<'a, N>> for &'b DelimitedId<N> {
    fn eq(&self, other: &DelimitedIdRef<'a, N>) -> (r: bool) {
        bytes_equal(self.as_str().as_bytes(), other.as_str().as_bytes())
    }
}

impl<'b, 'a, const N: usize> PartialEqSpecImpl<DelimitedIdRef<'a, N>> for &'b DelimitedId<N> {
    open spec fn obeys_eq_spec() -> bool {
        true
    }

    open spec fn eq_spec(&self, other: &DelimitedIdRef<'a, N>) -> bool {
        self@ == other@
    }
}

impl<'b, 'a, const N: usize> PartialOrd<DelimitedIdRef<'a, N>> for &'b DelimitedId<N> {
    fn partial_cmp(&self, other: &DelimitedIdRef<'a, N>) -> (r: Option<Ordering>) {
        Some(compare_byte_slices(self.as_str().as_bytes(), other.as_str().as_bytes()))
    }
}

impl<'b, 'a, const N: usize> PartialOrdSpecImpl<DelimitedIdRef<'a, N>> for &'b DelimitedId<N> {
    open spec fn obeys_partial_cmp_spec() -> bool {
        true
    }

    open spec fn partial_cmp_spec(&self, other: &DelimitedIdRef<'a, N>) -> Option<Ordering> {
        Some(ordering_of(lexicographic_order(self@, other@)))
    }
}

impl<'b, const N: usize> PartialEq<str> for &'b DelimitedId<N> {
    fn eq(&self, other: &str) -> (r: bool) {
        bytes_equal(self.as_str().as_bytes(), other.as_bytes())
    }
}

impl<'b, const N: usize> PartialEqSpecImpl<str> for &'b DelimitedId<N> {
    open spec fn obeys_eq_spec() -> bool {
        true
    }

    open spec fn eq_spec(&self, other: &str) -> bool {
        self@ == other.spec_bytes()
    }
}

impl<'b, const N: usize> PartialOrd<str> for &'b DelimitedId<N> {
    fn partial_cmp(&self, other: &str) -> (r: Option<Ordering>) {
        Some(compare_byte_slices(self.as_str().as_bytes(), other.as_bytes()))
    }
}

impl<'b, const N: usize> PartialOrdSpecImpl<str> for &'b DelimitedId<N> {
    open spec fn obeys_partial_cmp_spec() -> bool {
        true
    }

    open spec fn partial_cmp_spec(&self, other: &str) -> Option<Ordering> {
        Some(ordering_of(lexicographic_order(self@, other.spec_bytes())))
    }
}

impl<'a, const N: usize> PartialEq<DelimitedId<N>> for DelimitedIdRef<'a, N> {
    fn eq(&self, other: &DelimitedId<N>) -> (r: bool) {
        bytes_equal(self.as_str().as_bytes(), other.as_str().as_bytes())
    }
}

impl<'a, const N: usize> PartialEqSpecImpl<DelimitedId<N>> for DelimitedIdRef<'a, N> {
    open spec fn obeys_eq_spec() -> bool {
        true
    }

    open spec fn eq_spec(&self, other: &DelimitedId<N>) -> bool {
        self@ == other@
    }
}

impl<'a, const N: usize> PartialOrd<DelimitedId<N>> for DelimitedIdRef<'a, N> {
    fn partial_cmp(&self, other: &DelimitedId<N>) -> (r: Option<Ordering>) {
        Some(compare_byte_slices(self.as_str().as_bytes(), other.as_str().as_bytes()))
    }
}

impl<'a, const N: usize> PartialOrdSpecImpl<DelimitedId<N>> for DelimitedIdRef<'a, N> {
    open spec fn obeys_partial_cmp_spec() -> bool {
        true
    }

    open spec fn partial_cmp_spec(&self, other: &DelimitedId<N>) -> Option<Ordering> {
        Some(ordering_of(lexicographic_order(self@, other@)))
    }
}

impl<'a, 'b, const N: usize> PartialEq<&'b DelimitedId<N>> for DelimitedIdRef<'a, N> {
    fn eq(&self, other: &&'b DelimitedId<N>) -> (r: bool) {
        bytes_equal(self.as_str().as_bytes(), other.as_str().as_bytes())
    }
}

impl<'a, 'b, const N: usize> PartialEqSpecImpl<&'b DelimitedId<N>> for DelimitedIdRef<'a, N> {
    open spec fn obeys_eq_spec() -> bool {
        true
    }

    open spec fn eq_spec(&self, other: &&'b DelimitedId<N>) -> bool {
        self@ == other@
    }
}

impl<'a, 'b, const N: usize> PartialOrd<&'b DelimitedId<N>> for DelimitedIdRef<'a, N> {
    fn partial_cmp(&self, other: &&'b DelimitedId<N>) -> (r: Option<Ordering>) {
        Some(compare_byte_slices(self.as_str().as_bytes(), other.as_str().as_bytes()))
    }
}

impl<'a, 'b, const N: usize> PartialOrdSpecImpl<&'b DelimitedId<N>> for DelimitedIdRef<'a, N> {
    open spec fn obeys_partial_cmp_spec() -> bool {
        true
    }

    open spec fn partial_cmp_spec(&self, other: &&'b DelimitedId<N>) -> Option<Ordering> {
        Some(ordering_of(lexicographic_order(self@, other@)))
    }
}

impl<'a, const N: usize> PartialEq<str> for DelimitedIdRef<'a, N> {
    fn eq(&self, other: &str) -> (r: bool) {
        bytes_equal(self.as_str().as_bytes(), other.as_bytes())
    }
}

impl<'a, const N: usize> PartialEqSpecImpl<str> for DelimitedIdRef<'a, N> {
    open spec fn obeys_eq_spec() -> bool {
        true
    }

    open spec fn eq_spec(&self, other: &str) -> bool {
        self@ == other.spec_bytes()
    }
}

impl<'a, const N: usize> PartialOrd<str> for DelimitedIdRef<'a, N> {
    fn partial_cmp(&self, other: &str) -> (r: Option<Ordering>) {
        Some(compare_byte_slices(self.as_str().as_bytes(), other.as_bytes()))
    }
}

impl<'a, const N: usize> PartialOrdSpecImpl<str> for DelimitedIdRef<'a, N> {
    open spec fn obeys_partial_cmp_spec() -> bool {
        true
    }

    open spec fn partial_cmp_spec(&self, other: &str) -> Option<Ordering> {
        Some(ordering_of(lexicographic_order(self@, other.spec_bytes())))
    }
}

impl<'a, 'b, const N: usize> PartialEq<&'b str> for DelimitedIdRef<'a, N> {
    fn eq(&self, other: &&'b str) -> (r: bool) {
        bytes_equal(self.as_str().as_bytes(), other.as_bytes())
    }
}

impl<'a, 'b, const N: usize> PartialEqSpecImpl<&'b str> for DelimitedIdRef<'a, N> {
    open spec fn obeys_eq_spec() -> bool {
        true
    }

    open spec fn eq_spec(&self, other: &&'b str) -> bool {
        self@ == (*other).spec_bytes()
    }
}

impl<'a, 'b, const N: usize> PartialOrd<&'b str> for DelimitedIdRef<'a, N> {
    fn partial_cmp(&self, other: &&'b str) -> (r: Option<Ordering>) {
        Some(compare_byte_slices(self.as_str().as_bytes(), other.as_bytes()))
    }
}

impl<'a, 'b, const N: usize> PartialOrdSpecImpl<&'b str> for DelimitedIdRef<'a, N> {
    open spec fn obeys_partial_cmp_spec() -> bool {
        true
    }

    open spec fn partial_cmp_spec(&self, other: &&'b str) -> Option<Ordering> {
        Some(ordering_of(lexicographic_order(self@, (*other).spec_bytes())))
    }
}

impl<const N: usize> PartialEq<DelimitedId<N>> for str {
    fn eq(&self, other: &DelimitedId<N>) -> (r: bool) {
        bytes_equal(self.as_bytes(), other.as_str().as_bytes())
    }
}

impl<const N: usize> PartialEqSpecImpl<DelimitedId<N>> for str {
    open spec fn obeys_eq_spec() -> bool {
        true
    }

    open spec fn eq_spec(&self, other: &DelimitedId<N>) -> bool {
        self.spec_bytes() == other@
    }
}

impl<const N: usize> PartialOrd<DelimitedId<N>> for str {
    fn partial_cmp(&self, other: &DelimitedId<N>) -> (r: Option<Ordering>) {
        Some(compare_byte_slices(self.as_bytes(), other.as_str().as_bytes()))
    }
}

impl<const N: usize> PartialOrdSpecImpl<DelimitedId<N>> for str {
    open spec fn obeys_partial_cmp_spec() -> bool {
        true
    }

    open spec fn partial_cmp_spec(&self, other: &DelimitedId<N>) -> Option<Ordering> {
        Some(ordering_of(lexicographic_order(self.spec_bytes(), other@)))
    }
}

impl<'b, const N: usize> PartialEq<&'b DelimitedId<N>> for str {
    fn eq(&self, other: &&'b DelimitedId<N>) -> (r: bool) {
        bytes_equal(self.as_bytes(), other.as_str().as_bytes())
    }
}

impl<'b, const N: usize> PartialEqSpecImpl<&'b DelimitedId<N>> for str {
    open spec fn obeys_eq_spec() -> bool {
        true
    }

    open spec fn eq_spec(&self, other: &&'b DelimitedId<N>) -> bool {
        self.spec_bytes() == other@
    }
}

impl<'b, const N: usize> PartialOrd<&'b DelimitedId<N>> for str {
    fn partial_cmp(&self, other: &&'b DelimitedId<N>) -> (r: Option<Ordering>) {
        Some(compare_byte_slices(self.as_bytes(), other.as_str().as_bytes()))
    }
}

impl<'b, const N: usize> PartialOrdSpecImpl<&'b DelimitedId<N>> for str {
    open spec fn obeys_partial_cmp_spec() -> bool {
        true
    }

    open spec fn partial_cmp_spec(&self, other: &&'b DelimitedId<N>) -> Option<Ordering> {
        Some(ordering_of(lexicographic_order(self.spec_bytes(), other@)))
    }
}

impl<'a, const N: usize> PartialEq<DelimitedIdRef<'a, N>> for str {
    fn eq(&self, other: &DelimitedIdRef<'a, N>) -> (r: bool) {
        bytes_equal(self.as_bytes(), other.as_str().as_bytes())
    }
}

impl<'a, const N: usize> PartialEqSpecImpl<DelimitedIdRef<'a, N>> for str {
    open spec fn obeys_eq_spec() -> bool {
        true
    }

    open spec fn eq_spec(&self, other: &DelimitedIdRef<'a, N>) -> bool {
        self.spec_bytes() == other@
    }
}

impl<'a, const N: usize> PartialOrd<DelimitedIdRef<'a, N>> for str {
    fn partial_cmp(&self, other: &DelimitedIdRef<'a, N>) -> (r: Option<Ordering>) {
        Some(compare_byte_slices(self.as_bytes(), other.as_str().as_bytes()))
    }
}

impl<'a, const N: usize> PartialOrdSpecImpl<DelimitedIdRef<'a, N>> for str {
    open spec fn obeys_partial_cmp_spec() -> bool {
        true
    }

    open spec fn partial_cmp_spec(&self, other: &DelimitedIdRef<'a, N>) -> Option<Ordering> {
        Some(ordering_of(lexicographic_order(self.spec_bytes(), other@)))
    }
}

impl<'b, const N: usize> PartialEq<DelimitedId<N>> for &'b str {
    fn eq(&self, other: &DelimitedId<N>) -> (r: bool) {
        bytes_equal(self.as_bytes(), other.as_str().as_bytes())
    }
}

impl<'b, const N: usize> PartialEqSpecImpl<DelimitedId<N>> for &'b str {
    open spec fn obeys_eq_spec() -> bool {
        true
    }

    open spec fn eq_spec(&self, other: &DelimitedId<N>) -> bool {
        (*self).spec_bytes() == other@
    }
}

impl<'b, const N: usize> PartialOrd<DelimitedId<N>> for &'b str {
    fn partial_cmp(&self, other: &DelimitedId<N>) -> (r: Option<Ordering>) {
        Some(compare_byte_slices(self.as_bytes(), other.as_str().as_bytes()))
    }
}

impl<'b, const N: usize> PartialOrdSpecImpl<DelimitedId<N>> for &'b str {
    open spec fn obeys_partial_cmp_spec() -> bool {
        true
    }

    open spec fn partial_cmp_spec(&self, other: &DelimitedId<N>) -> Option<Ordering> {
        Some(ordering_of(lexicographic_order((*self).spec_bytes(), other@)))
    }
}

impl<'b, 'a, const N: usize> PartialEq<DelimitedIdRef<'a, N>> for &'b str {
    fn eq(&self, other: &DelimitedIdRef<'a, N>) -> (r: bool) {
        bytes_equal(self.as_bytes(), other.as_str().as_bytes())
    }
}

impl<'b, 'a, const N: usize> PartialEqSpecImpl<DelimitedIdRef<'a, N>> for &'b str {
    open spec fn obeys_eq_spec() -> bool {
        true
    }

    open spec fn eq_spec(&self, other: &DelimitedIdRef<'a, N>) -> bool {
        (*self).spec_bytes() == other@
    }
}

impl<'b, 'a, const N: usize> PartialOrd<DelimitedIdRef<'a, N>> for &'b str {
    fn partial_cmp(&self, other: &DelimitedIdRef<'a, N>) -> (r: Option<Ordering>) {
        Some(compare_byte_slices(self.as_bytes(), other.as_str().as_bytes()))
    }
}

impl<'b, 'a, const N: usize> PartialOrdSpecImpl<DelimitedIdRef<'a, N>> for &'b str {
    open spec fn obeys_partial_cmp_spec() -> bool {
        true
    }

    open spec fn partial_cmp_spec(&self, other: &DelimitedIdRef<'a, N>) -> Option<Ordering> {
        Some(ordering_of(lexicographic_order((*self).spec_bytes(), other@)))
    }
}

impl<'b> PartialEq<&'b LooseNamespacedId> for LooseNamespacedId {
    fn eq(&self, other: &&'b LooseNamespacedId) -> (r: bool) {
        bytes_equal(self.as_str().as_bytes(), other.as_str().as_bytes())
    }
}

impl<'b> PartialEqSpecImpl<&'b LooseNamespacedId> for LooseNamespacedId {
    open spec fn obeys_eq_spec() -> bool {
        true
    }

    open spec fn eq_spec(&self, other: &&'b LooseNamespacedId) -> bool {
        self@ == other@
    }
}

impl<'b> PartialOrd<&'b LooseNamespacedId> for LooseNamespacedId {
    fn partial_cmp(&self, other: &&'b LooseNamespacedId) -> (r: Option<Ordering>) {
        Some(compare_byte_slices(self.as_str().as_bytes(), other.as_str().as_bytes()))
    }
}

impl<'b> PartialOrdSpecImpl<&'b LooseNamespacedId> for LooseNamespacedId {
    open spec fn obeys_partial_cmp_spec() -> bool {
        true
    }

    open spec fn partial_cmp_spec(&self, other: &&'b LooseNamespacedId) -> Option<Ordering> {
        Some(ordering_of(lexicographic_order(self@, other@)))
    }
}

impl<'a> PartialEq<LooseNamespacedIdRef<'a>> for LooseNamespacedId {
    fn eq(&self, other: &LooseNamespacedIdRef<'a>) -> (r: bool) {
        bytes_equal(self.as_str().as_bytes(), other.as_str().as_bytes())
    }
}

impl<'a> PartialEqSpecImpl<LooseNamespacedIdRef<'a>> for LooseNamespacedId {
    open spec fn obeys_eq_spec() -> bool {
        true
    }

    open spec fn eq_spec(&self, other: &LooseNamespacedIdRef<'a>) -> bool {
        self@ == other@
    }
}

impl<'a> PartialOrd<LooseNamespacedIdRef<'a>> for LooseNamespacedId {
    fn partial_cmp(&self, other: &LooseNamespacedIdRef<'a>) -> (r: Option<Ordering>) {
        Some(compare_byte_slices(self.as_str().as_bytes(), other.as_str().as_bytes()))
    }
}

impl<'a> PartialOrdSpecImpl<LooseNamespacedIdRef<'a>> for LooseNamespacedId {
    open spec fn obeys_partial_cmp_spec() -> bool {
        true
    }

    open spec fn partial_cmp_spec(&self, other: &LooseNamespacedIdRef<'a>) -> Option<Ordering> {
        Some(ordering_of(lexicographic_order(self@, other@)))
    }
}

impl PartialEq<str> for LooseNamespacedId {
    fn eq(&self, other: &str) -> (r: bool) {
        bytes_equal(self.as_str().as_bytes(), other.as_bytes())
    }
}

impl PartialEqSpecImpl<str> for LooseNamespacedId {
    open spec fn obeys_eq_spec() -> bool {
        true
    }

    open spec fn eq_spec(&self, other: &str) -> bool {
        self@ == other.spec_bytes()
    }
}

impl PartialOrd<str> for LooseNamespacedId {
    fn partial_cmp(&self, other: &str) -> (r: Option<Ordering>) {
        Some(compare_byte_slices(self.as_str().as_bytes(), other.as_bytes()))
    }
}

impl PartialOrdSpecImpl<str> for LooseNamespacedId {
    open spec fn obeys_partial_cmp_spec() -> bool {
        true
    }

    open spec fn partial_cmp_spec(&self, other: &str) -> Option<Ordering> {
        Some(ordering_of(lexicographic_order(self@, other.spec_bytes())))
    }
}

impl<'b> PartialEq<&'b str> for LooseNamespacedId {
    fn eq(&self, other: &&'b str) -> (r: bool) {
        bytes_equal(self.as_str().as_bytes(), other.as_bytes())
    }
}

impl<'b> PartialEqSpecImpl<&'b str> for LooseNamespacedId {
    open spec fn obeys_eq_spec() -> bool {
        true
    }

    open spec fn eq_spec(&self, other: &&'b str) -> bool {
        self@ == (*other).spec_bytes()
    }
}

impl<'b> PartialOrd<&'b str> for LooseNamespacedId {
    fn partial_cmp(&self, other: &&'b str) -> (r: Option<Ordering>) {
        Some(compare_byte_slices(self.as_str().as_bytes(), other.as_bytes()))
    }
}

impl<'b> PartialOrdSpecImpl<&'b str> for LooseNamespacedId {
    open spec fn obeys_partial_cmp_spec() -> bool {
        true
    }

    open spec fn partial_cmp_spec(&self, other: &&'b str) -> Option<Ordering> {
        Some(ordering_of(lexicographic_order(self@, (*other).spec_bytes())))
    }
}

impl<'b> PartialEq<LooseNamespacedId> for &'b LooseNamespacedId {
    fn eq(&self, other: &LooseNamespacedId) -> (r: bool) {
        bytes_equal(self.as_str().as_bytes(), other.as_str().as_bytes())
    }
}

impl<'b> PartialEqSpecImpl<LooseNamespacedId> for &'b LooseNamespacedId {
    open spec fn obeys_eq_spec() -> bool {
        true
    }

    open spec fn eq_spec(&self, other: &LooseNamespacedId) -> bool {
        self@ == other@
    }
}

impl<'b> PartialOrd<LooseNamespacedId> for &'b LooseNamespacedId {
    fn partial_cmp(&self, other: &LooseNamespacedId) -> (r: Option<Ordering>) {
        Some(compare_byte_slices(self.as_str().as_bytes(), other.as_str().as_bytes()))
    }
}

impl<'b> PartialOrdSpecImpl<LooseNamespacedId> for &'b LooseNamespacedId {
    open spec fn obeys_partial_cmp_spec() -> bool {
        true
    }

    open spec fn partial_cmp_spec(&self, other: &LooseNamespacedId) -> Option<Ordering> {
        Some(ordering_of(lexicographic_order(self@, other@)))
    }
}

impl<'b, 'a> PartialEq<LooseNamespacedIdRef<'a>> for &'b LooseNamespacedId {
    fn eq(&self, other: &LooseNamespacedIdRef<'a>) -> (r: bool) {
        bytes_equal(self.as_str().as_bytes(), other.as_str().as_bytes())
    }
}

impl<'b, 'a> PartialEqSpecImpl<LooseNamespacedIdRef<'a>> for &'b LooseNamespacedId {
    open spec fn obeys_eq_spec() -> bool {
        true
    }

    open spec fn eq_spec(&self, other: &LooseNamespacedIdRef<'a>) -> bool {
        self@ == other@
    }
}

impl<'b, 'a> PartialOrd<LooseNamespacedIdRef<'a>> for &'b LooseNamespacedId {
    fn partial_cmp(&self, other: &LooseNamespacedIdRef<'a>) -> (r: Option<Ordering>) {
        Some(compare_byte_slices(self.as_str().as_bytes(), other.as_str().as_bytes()))
    }
}

impl<'b, 'a> PartialOrdSpecImpl<LooseNamespacedIdRef<'a>> for &'b LooseNamespacedId {
    open spec fn obeys_partial_cmp_spec() -> bool {
        true
    }

    open spec fn partial_cmp_spec(&self, other: &LooseNamespacedIdRef<'a>) -> Option<Ordering> {
        Some(ordering_of(lexicographic_order(self@, other@)))
    }
}

impl<'b> PartialEq<str> for &'b LooseNamespacedId {
    fn eq(&self, other: &str) -> (r: bool) {
        bytes_equal(self.as_str().as_bytes(), other.as_bytes())
    }
}

impl<'b> PartialEqSpecImpl<str> for &'b LooseNamespacedId {
    open spec fn obeys_eq_spec() -> bool {
        true
    }

    open spec fn eq_spec(&self, other: &str) -> bool {
        self@ == other.spec_bytes()
    }
}

impl<'b> PartialOrd<str> for &'b LooseNamespacedId {
    fn partial_cmp(&self, other: &str) -> (r: Option<Ordering>) {
        Some(compare_byte_slices(self.as_str().as_bytes(), other.as_bytes()))
    }
}

impl<'b> PartialOrdSpecImpl<str> for &'b LooseNamespacedId {
    open spec fn obeys_partial_cmp_spec() -> bool {
        true
    }

    open spec fn partial_cmp_spec(&self, other: &str) -> Option<Ordering> {
        Some(ordering_of(lexicographic_order(self@, other.spec_bytes())))
    }
}

impl<'a> PartialEq<LooseNamespacedId> for LooseNamespacedIdRef<'a> {
    fn eq(&self, other: &LooseNamespacedId) -> (r: bool) {
        bytes_equal(self.as_str().as_bytes(), other.as_str().as_bytes())
    }
}

impl<'a> PartialEqSpecImpl<LooseNamespacedId> for LooseNamespacedIdRef<'a> {
    open spec fn obeys_eq_spec() -> bool {
        true
    }

    open spec fn eq_spec(&self, other: &LooseNamespacedId) -> bool {
        self@ == other@
    }
}

impl<'a> PartialOrd<LooseNamespacedId> for LooseNamespacedIdRef<'a> {
    fn partial_cmp(&self, other: &LooseNamespacedId) -> (r: Option<Ordering>) {
        Some(compare_byte_slices(self.as_str().as_bytes(), other.as_str().as_bytes()))
    }
}

impl<'a> PartialOrdSpecImpl<LooseNamespacedId> for LooseNamespacedIdRef<'a> {
    open spec fn obeys_partial_cmp_spec() -> bool {
        true
    }

    open spec fn partial_cmp_spec(&self, other: &LooseNamespacedId) -> Option<Ordering> {
        Some(ordering_of(lexicographic_order(self@, other@)))
    }
}

impl<'a, 'b> PartialEq<&'b LooseNamespacedId> for LooseNamespacedIdRef<'a> {
    fn eq(&self, other: &&'b LooseNamespacedId) -> (r: bool) {
        bytes_equal(self.as_str().as_bytes(), other.as_str().as_bytes())
    }
}

impl<'a, 'b> PartialEqSpecImpl<&'b LooseNamespacedId> for LooseNamespacedIdRef<'a> {
    open spec fn obeys_eq_spec() -> bool {
        true
    }

    open spec fn eq_spec(&self, other: &&'b LooseNamespacedId) -> bool {
        self@ == other@
    }
}

impl<'a, 'b> PartialOrd<&'b LooseNamespacedId> for LooseNamespacedIdRef<'a> {
    fn partial_cmp(&self, other: &&'b LooseNamespacedId) -> (r: Option<Ordering>) {
        Some(compare_byte_slices(self.as_str().as_bytes(), other.as_str().as_bytes()))
    }
}

impl<'a, 'b> PartialOrdSpecImpl<&'b LooseNamespacedId> for LooseNamespacedIdRef<'a> {
    open spec fn obeys_partial_cmp_spec() -> bool {
        true
    }

    open spec fn partial_cmp_spec(&self, other: &&'b LooseNamespacedId) -> Option<Ordering> {
        Some(ordering_of(lexicographic_order(self@, other@)))
    }
}

impl<'a> PartialEq<str> for LooseNamespacedIdRef<'a> {
    fn eq(&self, other: &str) -> (r: bool) {
        bytes_equal(self.as_str().as_bytes(), other.as_bytes())
    }
}

impl<'a> PartialEqSpecImpl<str> for LooseNamespacedIdRef<'a> {
    open spec fn obeys_eq_spec() -> bool {
        true
    }

    open spec fn eq_spec(&self, other: &str) -> bool {
        self@ == other.spec_bytes()
    }
}

impl<'a> PartialOrd<str> for LooseNamespacedIdRef<'a> {
    fn partial_cmp(&self, other: &str) -> (r: Option<Ordering>) {
        Some(compare_byte_slices(self.as_str().as_bytes(), other.as_bytes()))
    }
}

impl<'a> PartialOrdSpecImpl<str> for LooseNamespacedIdRef<'a> {
    open spec fn obeys_partial_cmp_spec() -> bool {
        true
    }

    open spec fn partial_cmp_spec(&self, other: &str) -> Option<Ordering> {
        Some(ordering_of(lexicographic_order(self@, other.spec_bytes())))
    }
}

impl<'a, 'b> PartialEq<&'b str> for LooseNamespacedIdRef<'a> {
    fn eq(&self, other: &&'b str) -> (r: bool) {
        bytes_equal(self.as_str().as_bytes(), other.as_bytes())
    }
}

impl<'a, 'b> PartialEqSpecImpl<&'b str> for LooseNamespacedIdRef<'a> {
    open spec fn obeys_eq_spec() -> bool {
        true
    }

    open spec fn eq_spec(&self, other: &&'b str) -> bool {
        self@ == (*other).spec_bytes()
    }
}

impl<'a, 'b> PartialOrd<&'b str> for LooseNamespacedIdRef<'a> {
    fn partial_cmp(&self, other: &&'b str) -> (r: Option<Ordering>) {
        Some(compare_byte_slices(self.as_str().as_bytes(), other.as_bytes()))
    }
}

impl<'a, 'b> PartialOrdSpecImpl<&'b str> for LooseNamespacedIdRef<'a> {
    open spec fn obeys_partial_cmp_spec() -> bool {
        true
    }

    open spec fn partial_cmp_spec(&self, other: &&'b str) -> Option<Ordering> {
        Some(ordering_of(lexicographic_order(self@, (*other).spec_bytes())))
    }
}

impl PartialEq<LooseNamespacedId> for str {
    fn eq(&self, other: &LooseNamespacedId) -> (r: bool) {
        bytes_equal(self.as_bytes(), other.as_str().as_bytes())
    }
}

impl PartialEqSpecImpl<LooseNamespacedId> for str {
    open spec fn obeys_eq_spec() -> bool {
        true
    }

    open spec fn eq_spec(&self, other: &LooseNamespacedId) -> bool {
        self.spec_bytes() == other@
    }
}

impl PartialOrd<LooseNamespacedId> for str {
    fn partial_cmp(&self, other: &LooseNamespacedId) -> (r: Option<Ordering>) {
        Some(compare_byte_slices(self.as_bytes(), other.as_str().as_bytes()))
    }
}

impl PartialOrdSpecImpl<LooseNamespacedId> for str {
    open spec fn obeys_partial_cmp_spec() -> bool {
        true
    }

    open spec fn partial_cmp_spec(&self, other: &LooseNamespacedId) -> Option<Ordering> {
        Some(ordering_of(lexicographic_order(self.spec_bytes(), other@)))
    }
}

impl<'b> PartialEq<&'b LooseNamespacedId> for str {
    fn eq(&self, other: &&'b LooseNamespacedId) -> (r: bool) {
        bytes_equal(self.as_bytes(), other.as_str().as_bytes())
    }
}

impl<'b> PartialEqSpecImpl<&'b LooseNamespacedId> for str {
    open spec fn obeys_eq_spec() -> bool {
        true
    }

    open spec fn eq_spec(&self, other: &&'b LooseNamespacedId) -> bool {
        self.spec_bytes() == other@
    }
}

impl<'b> PartialOrd<&'b LooseNamespacedId> for str {
    fn partial_cmp(&self, other: &&'b LooseNamespacedId) -> (r: Option<Ordering>) {
        Some(compare_byte_slices(self.as_bytes(), other.as_str().as_bytes()))
    }
}

impl<'b> PartialOrdSpecImpl<&'b LooseNamespacedId> for str {
    open spec fn obeys_partial_cmp_spec() -> bool {
        true
    }

    open spec fn partial_cmp_spec(&self, other: &&'b LooseNamespacedId) -> Option<Ordering> {
        Some(ordering_of(lexicographic_order(self.spec_bytes(), other@)))
    }
}

impl<'a> PartialEq<LooseNamespacedIdRef<'a>> for str {
    fn eq(&self, other: &LooseNamespacedIdRef<'a>) -> (r: bool) {
        bytes_equal(self.as_bytes(), other.as_str().as_bytes())
    }
}

impl<'a> PartialEqSpecImpl<LooseNamespacedIdRef<'a>> for str {
    open spec fn obeys_eq_spec() -> bool {
        true
    }

    open spec fn eq_spec(&self, other: &LooseNamespacedIdRef<'a>) -> bool {
        self.spec_bytes() == other@
    }
}

impl<'a> PartialOrd<LooseNamespacedIdRef<'a>> for str {
    fn partial_cmp(&self, other: &LooseNamespacedIdRef<'a>) -> (r: Option<Ordering>) {
        Some(compare_byte_slices(self.as_bytes(), other.as_str().as_bytes()))
    }
}

impl<'a> PartialOrdSpecImpl<LooseNamespacedIdRef<'a>> for str {
    open spec fn obeys_partial_cmp_spec() -> bool {
        true
    }

    open spec fn partial_cmp_spec(&self, other: &LooseNamespacedIdRef<'a>) -> Option<Ordering> {
        Some(ordering_of(lexicographic_order(self.spec_bytes(), other@)))
    }
}

impl<'b> PartialEq<LooseNamespacedId> for &'b str {
    fn eq(&self, other: &LooseNamespacedId) -> (r: bool) {
        bytes_equal(self.as_bytes(), other.as_str().as_bytes())
    }
}

impl<'b> PartialEqSpecImpl<LooseNamespacedId> for &'b str {
    open spec fn obeys_eq_spec() -> bool {
        true
    }

    open spec fn eq_spec(&self, other: &LooseNamespacedId) -> bool {
        (*self).spec_bytes() == other@
    }
}

impl<'b> PartialOrd<LooseNamespacedId> for &'b str {
    fn partial_cmp(&self, other: &LooseNamespacedId) -> (r: Option<Ordering>) {
        Some(compare_byte_slices(self.as_bytes(), other.as_str().as_bytes()))
    }
}

impl<'b> PartialOrdSpecImpl<LooseNamespacedId> for &'b str {
    open spec fn obeys_partial_cmp_spec() -> bool {
        true
    }

    open spec fn partial_cmp_spec(&self, other: &LooseNamespacedId) -> Option<Ordering> {
        Some(ordering_of(lexicographic_order((*self).spec_bytes(), other@)))
    }
}

impl<'b, 'a> PartialEq<LooseNamespacedIdRef<'a>> for &'b str {
    fn eq(&self, other: &LooseNamespacedIdRef<'a>) -> (r: bool) {
        bytes_equal(self.as_bytes(), other.as_str().as_bytes())
    }
}

impl<'b, 'a> PartialEqSpecImpl<LooseNamespacedIdRef<'a>> for &'b str {
    open spec fn obeys_eq_spec() -> bool {
        true
    }

    open spec fn eq_spec(&self, other: &LooseNamespacedIdRef<'a>) -> bool {
        (*self).spec_bytes() == other@
    }
}

impl<'b, 'a> PartialOrd<LooseNamespacedIdRef<'a>> for &'b str {
    fn partial_cmp(&self, other: &LooseNamespacedIdRef<'a>) -> (r: Option<Ordering>) {
        Some(compare_byte_slices(self.as_bytes(), other.as_str().as_bytes()))
    }
}

impl<'b, 'a> PartialOrdSpecImpl<LooseNamespacedIdRef<'a>> for &'b str {
    open spec fn obeys_partial_cmp_spec() -> bool {
        true
    }

    open spec fn partial_cmp_spec(&self, other: &LooseNamespacedIdRef<'a>) -> Option<Ordering> {
        Some(ordering_of(lexicographic_order((*self).spec_bytes(), other@)))
    }
}

/// `==` between DelimitedId<N> and &DelimitedId<N> holds exactly when both spell the same bytes.
pub proof fn law_eq_owned_with_owned_ref<'b, const N: usize>(x: &DelimitedId<N>, y: &&'b DelimitedId<N>, r: bool)
    requires
        call_ensures(<DelimitedId<N> as PartialEq<&'b DelimitedId<N>>>::eq, (x, y), r),
    ensures
        r <==> same_bytes(x@, y@),
{
    if same_bytes(x@, y@) {
        assert(x@ =~= y@);
    }
}

/// Ordering DelimitedId<N> against &DelimitedId<N> is the dictionary order of their bytes.
pub proof fn law_order_owned_with_owned_ref<'b, const N: usize>(x: &DelimitedId<N>, y: &&'b DelimitedId<N>, r: Option<Ordering>)
    requires
        call_ensures(PartialOrd::<&'b DelimitedId<N>>::partial_cmp, (x, y), r),
    ensures
        r is Some,
        r == Some(Ordering::Equal) <==> same_bytes(x@, y@),
        r == Some(Ordering::Less) <==> precedes(x@, y@),
        r == Some(Ordering::Greater) <==> precedes(y@, x@),
{
    law_byte_order_is_dictionary_order(x@, y@);
}

/// `==` between DelimitedId<N> and DelimitedIdRef<N> holds exactly when both spell the same bytes.
pub proof fn law_eq_owned_with_borrowed<'a, const N: usize>(x: &DelimitedId<N>, y: &DelimitedIdRef<'a, N>, r: bool)
    requires
        call_ensures(<DelimitedId<N> as PartialEq<DelimitedIdRef<'a, N>>>::eq, (x, y), r),
    ensures
        r <==> same_bytes(x@, y@),
{
    if same_bytes(x@, y@) {
        assert(x@ =~= y@);
    }
}

/// Ordering DelimitedId<N> against DelimitedIdRef<N> is the dictionary order of their bytes.
pub proof fn law_order_owned_with_borrowed<'a, const N: usize>(x: &DelimitedId<N>, y: &DelimitedIdRef<'a, N>, r: Option<Ordering>)
    requires
        call_ensures(PartialOrd::<DelimitedIdRef<'a, N>>::partial_cmp, (x, y), r),
    ensures
        r is Some,
        r == Some(Ordering::Equal) <==> same_bytes(x@, y@),
        r == Some(Ordering::Less) <==> precedes(x@, y@),
        r == Some(Ordering::Greater) <==> precedes(y@, x@),
{
    law_byte_order_is_dictionary_order(x@, y@);
}

/// `==` between DelimitedId<N> and str holds exactly when both spell the same bytes.
pub proof fn law_eq_owned_with_str<const N: usize>(x: &DelimitedId<N>, y: &str, r: bool)
    requires
        call_ensures(<DelimitedId<N> as PartialEq<str>>::eq, (x, y), r),
    ensures
        r <==> same_bytes(x@, y.spec_bytes()),
{
    if same_bytes(x@, y.spec_bytes()) {
        assert(x@ =~= y.spec_bytes());
    }
}

/// Ordering DelimitedId<N> against str is the dictionary order of their bytes.
pub proof fn law_order_owned_with_str<const N: usize>(x: &DelimitedId<N>, y: &str, r: Option<Ordering>)
    requires
        call_ensures(PartialOrd::<str>::partial_cmp, (x, y), r),
    ensures
        r is Some,
        r == Some(Ordering::Equal) <==> same_bytes(x@, y.spec_bytes()),
        r == Some(Ordering::Less) <==> precedes(x@, y.spec_bytes()),
        r == Some(Ordering::Greater) <==> precedes(y.spec_bytes(), x@),
{
    law_byte_order_is_dictionary_order(x@, y.spec_bytes());
}

/// `==` between DelimitedId<N> and &str holds exactly when both spell the same bytes.
pub proof fn law_eq_owned_with_str_ref<'b, const N: usize>(x: &DelimitedId<N>, y: &&'b str, r: bool)
    requires
        call_ensures(<DelimitedId<N> as PartialEq<&'b str>>::eq, (x, y), r),
    ensures
        r <==> same_bytes(x@, (*y).spec_bytes()),
{
    if same_bytes(x@, (*y).spec_bytes()) {
        assert(x@ =~= (*y).spec_bytes());
    }
}

/// Ordering DelimitedId<N> against &str is the dictionary order of their bytes.
pub proof fn law_order_owned_with_str_ref<'b, const N: usize>(x: &DelimitedId<N>, y: &&'b str, r: Option<Ordering>)
    requires
        call_ensures(PartialOrd::<&'b str>::partial_cmp, (x, y), r),
    ensures
        r is Some,
        r == Some(Ordering::Equal) <==> same_bytes(x@, (*y).spec_bytes()),
        r == Some(Ordering::Less) <==> precedes(x@, (*y).spec_bytes()),
        r == Some(Ordering::Greater) <==> precedes((*y).spec_bytes(), x@),
{
    law_byte_order_is_dictionary_order(x@, (*y).spec_bytes());
}

/// `==` between &DelimitedId<N> and DelimitedId<N> holds exactly when both spell the same bytes.
pub proof fn law_eq_owned_ref_with_owned<'b, const N: usize>(x: &&'b DelimitedId<N>, y: &DelimitedId<N>, r: bool)
    requires
        call_ensures(<&'b DelimitedId<N> as PartialEq<DelimitedId<N>>>::eq, (x, y), r),
    ensures
        r <==> same_bytes(x@, y@),
{
    if same_bytes(x@, y@) {
        assert(x@ =~= y@);
    }
}

/// Ordering &DelimitedId<N> against DelimitedId<N> is the dictionary order of their bytes.
pub proof fn law_order_owned_ref_with_owned<'b, const N: usize>(x: &&'b DelimitedId<N>, y: &DelimitedId<N>, r: Option<Ordering>)
    requires
        call_ensures(PartialOrd::<DelimitedId<N>>::partial_cmp, (x, y), r),
    ensures
        r is Some,
        r == Some(Ordering::Equal) <==> same_bytes(x@, y@),
        r == Some(Ordering::Less) <==> precedes(x@, y@),
        r == Some(Ordering::Greater) <==> precedes(y@, x@),
{
    law_byte_order_is_dictionary_order(x@, y@);
}

/// `==` between &DelimitedId<N> and DelimitedIdRef<N> holds exactly when both spell the same bytes.
pub proof fn law_eq_owned_ref_with_borrowed<'b, 'a, const N: usize>(x: &&'b DelimitedId<N>, y: &DelimitedIdRef<'a, N>, r: bool)
    requires
        call_ensures(<&'b DelimitedId<N> as PartialEq<DelimitedIdRef<'a, N>>>::eq, (x, y), r),
    ensures
        r <==> same_bytes(x@, y@),
{
    if same_bytes(x@, y@) {
        assert(x@ =~= y@);
    }
}

/// Ordering &DelimitedId<N> against DelimitedIdRef<N> is the dictionary order of their bytes.
pub proof fn law_order_owned_ref_with_borrowed<'b, 'a, const N: usize>(x: &&'b DelimitedId<N>, y: &DelimitedIdRef<'a, N>, r: Option<Ordering>)
    requires
        call_ensures(PartialOrd::<DelimitedIdRef<'a, N>>::partial_cmp, (x, y), r),
    ensures
        r is Some,
        r == Some(Ordering::Equal) <==> same_bytes(x@, y@),
        r == Some(Ordering::Less) <==> precedes(x@, y@),
        r == Some(Ordering::Greater) <==> precedes(y@, x@),
{
    law_byte_order_is_dictionary_order(x@, y@);
}

/// `==` between &DelimitedId<N> and str holds exactly when both spell the same bytes.
pub proof fn law_eq_owned_ref_with_str<'b, const N: usize>(x: &&'b DelimitedId<N>, y: &str, r: bool)
    requires
        call_ensures(<&'b DelimitedId<N> as PartialEq<str>>::eq, (x, y), r),
    ensures
        r <==> same_bytes(x@, y.spec_bytes()),
{
    if same_bytes(x@, y.spec_bytes()) {
        assert(x@ =~= y.spec_bytes());
    }
}

/// Ordering &DelimitedId<N> against str is the dictionary order of their bytes.
pub proof fn law_order_owned_ref_with_str<'b, const N: usize>(x: &&'b DelimitedId<N>, y: &str, r: Option<Ordering>)
    requires
        call_ensures(PartialOrd::<str>::partial_cmp, (x, y), r),
    ensures
        r is Some,
        r == Some(Ordering::Equal) <==> same_bytes(x@, y.spec_bytes()),
        r == Some(Ordering::Less) <==> precedes(x@, y.spec_bytes()),
        r == Some(Ordering::Greater) <==> precedes(y.spec_bytes(), x@),
{
    law_byte_order_is_dictionary_order(x@, y.spec_bytes());
}

/// `==` between DelimitedIdRef<N> and DelimitedId<N> holds exactly when both spell the same bytes.
pub proof fn law_eq_borrowed_with_owned<'a, const N: usize>(x: &DelimitedIdRef<'a, N>, y: &DelimitedId<N>, r: bool)
    requires
        call_ensures(<DelimitedIdRef<'a, N> as PartialEq<DelimitedId<N>>>::eq, (x, y), r),
    ensures
        r <==> same_bytes(x@, y@),
{
    if same_bytes(x@, y@) {
        assert(x@ =~= y@);
    }
}

/// Ordering DelimitedIdRef<N> against DelimitedId<N> is the dictionary order of their bytes.
pub proof fn law_order_borrowed_with_owned<'a, const N: usize>(x: &DelimitedIdRef<'a, N>, y: &DelimitedId<N>, r: Option<Ordering>)
    requires
        call_ensures(PartialOrd::<DelimitedId<N>>::partial_cmp, (x, y), r),
    ensures
        r is Some,
        r == Some(Ordering::Equal) <==> same_bytes(x@, y@),
        r == Some(Ordering::Less) <==> precedes(x@, y@),
        r == Some(Ordering::Greater) <==> precedes(y@, x@),
{
    law_byte_order_is_dictionary_order(x@, y@);
}

/// `==` between DelimitedIdRef<N> and &DelimitedId<N> holds exactly when both spell the same bytes.
pub proof fn law_eq_borrowed_with_owned_ref<'a, 'b, const N: usize>(x: &DelimitedIdRef<'a, N>, y: &&'b DelimitedId<N>, r: bool)
    requires
        call_ensures(<DelimitedIdRef<'a, N> as PartialEq<&'b DelimitedId<N>>>::eq, (x, y), r),
    ensures
        r <==> same_bytes(x@, y@),
{
    if same_bytes(x@, y@) {
        assert(x@ =~= y@);
    }
}

/// Ordering DelimitedIdRef<N> against &DelimitedId<N> is the dictionary order of their bytes.
pub proof fn law_order_borrowed_with_owned_ref<'a, 'b, const N: usize>(x: &DelimitedIdRef<'a, N>, y: &&'b DelimitedId<N>, r: Option<Ordering>)
    requires
        call_ensures(PartialOrd::<&'b DelimitedId<N>>::partial_cmp, (x, y), r),
    ensures
        r is Some,
        r == Some(Ordering::Equal) <==> same_bytes(x@, y@),
        r == Some(Ordering::Less) <==> precedes(x@, y@),
        r == Some(Ordering::Greater) <==> precedes(y@, x@),
{
    law_byte_order_is_dictionary_order(x@, y@);
}

/// `==` between DelimitedIdRef<N> and str holds exactly when both spell the same bytes.
pub proof fn law_eq_borrowed_with_str<'a, const N: usize>(x: &DelimitedIdRef<'a, N>, y: &str, r: bool)
    requires
        call_ensures(<DelimitedIdRef<'a, N> as PartialEq<str>>::eq, (x, y), r),
    ensures
        r <==> same_bytes(x@, y.spec_bytes()),
{
    if same_bytes(x@, y.spec_bytes()) {
        assert(x@ =~= y.spec_bytes());
    }
}

/// Ordering DelimitedIdRef<N> against str is the dictionary order of their bytes.
pub proof fn law_order_borrowed_with_str<'a, const N: usize>(x: &DelimitedIdRef<'a, N>, y: &str, r: Option<Ordering>)
    requires
        call_ensures(PartialOrd::<str>::partial_cmp, (x, y), r),
    ensures
        r is Some,
        r == Some(Ordering::Equal) <==> same_bytes(x@, y.spec_bytes()),
        r == Some(Ordering::Less) <==> precedes(x@, y.spec_bytes()),
        r == Some(Ordering::Greater) <==> precedes(y.spec_bytes(), x@),
{
    law_byte_order_is_dictionary_order(x@, y.spec_bytes());
}

/// `==` between DelimitedIdRef<N> and &str holds exactly when both spell the same bytes.
pub proof fn law_eq_borrowed_with_str_ref<'a, 'b, const N: usize>(x: &DelimitedIdRef<'a, N>, y: &&'b str, r: bool)
    requires
        call_ensures(<DelimitedIdRef<'a, N> as PartialEq<&'b str>>::eq, (x, y), r),
    ensures
        r <==> same_bytes(x@, (*y).spec_bytes()),
{
    if same_bytes(x@, (*y).spec_bytes()) {
        assert(x@ =~= (*y).spec_bytes());
    }
}

/// Ordering DelimitedIdRef<N> against &str is the dictionary order of their bytes.
pub proof fn law_order_borrowed_with_str_ref<'a, 'b, const N: usize>(x: &DelimitedIdRef<'a, N>, y: &&'b str, r: Option<Ordering>)
    requires
        call_ensures(PartialOrd::<&'b str>::partial_cmp, (x, y), r),
    ensures
        r is Some,
        r == Some(Ordering::Equal) <==> same_bytes(x@, (*y).spec_bytes()),
        r == Some(Ordering::Less) <==> precedes(x@, (*y).spec_bytes()),
        r == Some(Ordering::Greater) <==> precedes((*y).spec_bytes(), x@),
{
    law_byte_order_is_dictionary_order(x@, (*y).spec_bytes());
}

/// `==` between str and DelimitedId<N> holds exactly when both spell the same bytes.
pub proof fn law_eq_str_with_owned<const N: usize>(x: &str, y: &DelimitedId<N>, r: bool)
    requires
        call_ensures(<str as PartialEq<DelimitedId<N>>>::eq, (x, y), r),
    ensures
        r <==> same_bytes(x.spec_bytes(), y@),
{
    if same_bytes(x.spec_bytes(), y@) {
        assert(x.spec_bytes() =~= y@);
    }
}

/// Ordering str against DelimitedId<N> is the dictionary order of their bytes.
pub proof fn law_order_str_with_owned<const N: usize>(x: &str, y: &DelimitedId<N>, r: Option<Ordering>)
    requires
        call_ensures(PartialOrd::<DelimitedId<N>>::partial_cmp, (x, y), r),
    ensures
        r is Some,
        r == Some(Ordering::Equal) <==> same_bytes(x.spec_bytes(), y@),
        r == Some(Ordering::Less) <==> precedes(x.spec_bytes(), y@),
        r == Some(Ordering::Greater) <==> precedes(y@, x.spec_bytes()),
{
    law_byte_order_is_dictionary_order(x.spec_bytes(), y@);
}

/// `==` between str and &DelimitedId<N> holds exactly when both spell the same bytes.
pub proof fn law_eq_str_with_owned_ref<'b, const N: usize>(x: &str, y: &&'b DelimitedId<N>, r: bool)
    requires
        call_ensures(<str as PartialEq<&'b DelimitedId<N>>>::eq, (x, y), r),
    ensures
        r <==> same_bytes(x.spec_bytes(), y@),
{
    if same_bytes(x.spec_bytes(), y@) {
        assert(x.spec_bytes() =~= y@);
    }
}

/// Ordering str against &DelimitedId<N> is the dictionary order of their bytes.
pub proof fn law_order_str_with_owned_ref<'b, const N: usize>(x: &str, y: &&'b DelimitedId<N>, r: Option<Ordering>)
    requires
        call_ensures(PartialOrd::<&'b DelimitedId<N>>::partial_cmp, (x, y), r),
    ensures
        r is Some,
        r == Some(Ordering::Equal) <==> same_bytes(x.spec_bytes(), y@),
        r == Some(Ordering::Less) <==> precedes(x.spec_bytes(), y@),
        r == Some(Ordering::Greater) <==> precedes(y@, x.spec_bytes()),
{
    law_byte_order_is_dictionary_order(x.spec_bytes(), y@);
}

/// `==` between str and DelimitedIdRef<N> holds exactly when both spell the same bytes.
pub proof fn law_eq_str_with_borrowed<'a, const N: usize>(x: &str, y: &DelimitedIdRef<'a, N>, r: bool)
    requires
        call_ensures(<str as PartialEq<DelimitedIdRef<'a, N>>>::eq, (x, y), r),
    ensures
        r <==> same_bytes(x.spec_bytes(), y@),
{
    if same_bytes(x.spec_bytes(), y@) {
        assert(x.spec_bytes() =~= y@);
    }
}

/// Ordering str against DelimitedIdRef<N> is the dictionary order of their bytes.
pub proof fn law_order_str_with_borrowed<'a, const N: usize>(x: &str, y: &DelimitedIdRef<'a, N>, r: Option<Ordering>)
    requires
        call_ensures(PartialOrd::<DelimitedIdRef<'a, N>>::partial_cmp, (x, y), r),
    ensures
        r is Some,
        r == Some(Ordering::Equal) <==> same_bytes(x.spec_bytes(), y@),
        r == Some(Ordering::Less) <==> precedes(x.spec_bytes(), y@),
        r == Some(Ordering::Greater) <==> precedes(y@, x.spec_bytes()),
{
    law_byte_order_is_dictionary_order(x.spec_bytes(), y@);
}

/// `==` between &str and DelimitedId<N> holds exactly when both spell the same bytes.
pub proof fn law_eq_str_ref_with_owned<'b, const N: usize>(x: &&'b str, y: &DelimitedId<N>, r: bool)
    requires
        call_ensures(<&'b str as PartialEq<DelimitedId<N>>>::eq, (x, y), r),
    ensures
        r <==> same_bytes((*x).spec_bytes(), y@),
{
    if same_bytes((*x).spec_bytes(), y@) {
        assert((*x).spec_bytes() =~= y@);
    }
}

/// Ordering &str against DelimitedId<N> is the dictionary order of their bytes.
pub proof fn law_order_str_ref_with_owned<'b, const N: usize>(x: &&'b str, y: &DelimitedId<N>, r: Option<Ordering>)
    requires
        call_ensures(PartialOrd::<DelimitedId<N>>::partial_cmp, (x, y), r),
    ensures
        r is Some,
        r == Some(Ordering::Equal) <==> same_bytes((*x).spec_bytes(), y@),
        r == Some(Ordering::Less) <==> precedes((*x).spec_bytes(), y@),
        r == Some(Ordering::Greater) <==> precedes(y@, (*x).spec_bytes()),
{
    law_byte_order_is_dictionary_order((*x).spec_bytes(), y@);
}

/// `==` between &str and DelimitedIdRef<N> holds exactly when both spell the same bytes.
pub proof fn law_eq_str_ref_with_borrowed<'b, 'a, const N: usize>(x: &&'b str, y: &DelimitedIdRef<'a, N>, r: bool)
    requires
        call_ensures(<&'b str as PartialEq<DelimitedIdRef<'a, N>>>::eq, (x, y), r),
    ensures
        r <==> same_bytes((*x).spec_bytes(), y@),
{
    if same_bytes((*x).spec_bytes(), y@) {
        assert((*x).spec_bytes() =~= y@);
    }
}

/// Ordering &str against DelimitedIdRef<N> is the dictionary order of their bytes.
pub proof fn law_order_str_ref_with_borrowed<'b, 'a, const N: usize>(x: &&'b str, y: &DelimitedIdRef<'a, N>, r: Option<Ordering>)
    requires
        call_ensures(PartialOrd::<DelimitedIdRef<'a, N>>::partial_cmp, (x, y), r),
    ensures
        r is Some,
        r == Some(Ordering::Equal) <==> same_bytes((*x).spec_bytes(), y@),
        r == Some(Ordering::Less) <==> precedes((*x).spec_bytes(), y@),
        r == Some(Ordering::Greater) <==> precedes(y@, (*x).spec_bytes()),
{
    law_byte_order_is_dictionary_order((*x).spec_bytes(), y@);
}

/// `==` between DelimitedId<N> and DelimitedId<N> holds exactly when both spell the same bytes.
pub proof fn law_eq_owned<const N: usize>(x: &DelimitedId<N>, y: &DelimitedId<N>, r: bool)
    requires
        call_ensures(<DelimitedId<N> as PartialEq>::eq, (x, y), r),
    ensures
        r <==> same_bytes(x@, y@),
{
    if same_bytes(x@, y@) {
        assert(x@ =~= y@);
    }
}

/// `==` between DelimitedIdRef<N> and DelimitedIdRef<N> holds exactly when both spell the same bytes.
pub proof fn law_eq_borrowed<'a, const N: usize>(x: &DelimitedIdRef<'a, N>, y: &DelimitedIdRef<'a, N>, r: bool)
    requires
        call_ensures(<DelimitedIdRef<'a, N> as PartialEq>::eq, (x, y), r),
    ensures
        r <==> same_bytes(x@, y@),
{
    if same_bytes(x@, y@) {
        assert(x@ =~= y@);
    }
}

/// `==` between ArcDelimitedId<N> and ArcDelimitedId<N> holds exactly when both spell the same bytes.
pub proof fn law_eq_shared<const N: usize>(x: &ArcDelimitedId<N>, y: &ArcDelimitedId<N>, r: bool)
    requires
        call_ensures(<ArcDelimitedId<N> as PartialEq>::eq, (x, y), r),
    ensures
        r <==> same_bytes(x@, y@),
{
    if same_bytes(x@, y@) {
        assert(x@ =~= y@);
    }
}

/// `==` between LooseNamespacedId and &LooseNamespacedId holds exactly when both spell the same bytes.
pub proof fn law_eq_loose_owned_with_owned_ref<'b>(x: &LooseNamespacedId, y: &&'b LooseNamespacedId, r: bool)
    requires
        call_ensures(<LooseNamespacedId as PartialEq<&'b LooseNamespacedId>>::eq, (x, y), r),
    ensures
        r <==> same_bytes(x@, y@),
{
    if same_bytes(x@, y@) {
        assert(x@ =~= y@);
    }
}

/// Ordering LooseNamespacedId against &LooseNamespacedId is the dictionary order of their bytes.
pub proof fn law_order_loose_owned_with_owned_ref<'b>(x: &LooseNamespacedId, y: &&'b LooseNamespacedId, r: Option<Ordering>)
    requires
        call_ensures(PartialOrd::<&'b LooseNamespacedId>::partial_cmp, (x, y), r),
    ensures
        r is Some,
        r == Some(Ordering::Equal) <==> same_bytes(x@, y@),
        r == Some(Ordering::Less) <==> precedes(x@, y@),
        r == Some(Ordering::Greater) <==> precedes(y@, x@),
{
    law_byte_order_is_dictionary_order(x@, y@);
}

/// `==` between LooseNamespacedId and LooseNamespacedIdRef<'a> holds exactly when both spell the same bytes.
pub proof fn law_eq_loose_owned_with_borrowed<'a>(x: &LooseNamespacedId, y: &LooseNamespacedIdRef<'a>, r: bool)
    requires
        call_ensures(<LooseNamespacedId as PartialEq<LooseNamespacedIdRef<'a>>>::eq, (x, y), r),
    ensures
        r <==> same_bytes(x@, y@),
{
    if same_bytes(x@, y@) {
        assert(x@ =~= y@);
    }
}

/// Ordering LooseNamespacedId against LooseNamespacedIdRef<'a> is the dictionary order of their bytes.
pub proof fn law_order_loose_owned_with_borrowed<'a>(x: &LooseNamespacedId, y: &LooseNamespacedIdRef<'a>, r: Option<Ordering>)
    requires
        call_ensures(PartialOrd::<LooseNamespacedIdRef<'a>>::partial_cmp, (x, y), r),
    ensures
        r is Some,
        r == Some(Ordering::Equal) <==> same_bytes(x@, y@),
        r == Some(Ordering::Less) <==> precedes(x@, y@),
        r == Some(Ordering::Greater) <==> precedes(y@, x@),
{
    law_byte_order_is_dictionary_order(x@, y@);
}

/// `==` between LooseNamespacedId and str holds exactly when both spell the same bytes.
pub proof fn law_eq_loose_owned_with_str(x: &LooseNamespacedId, y: &str, r: bool)
    requires
        call_ensures(<LooseNamespacedId as PartialEq<str>>::eq, (x, y), r),
    ensures
        r <==> same_bytes(x@, y.spec_bytes()),
{
    if same_bytes(x@, y.spec_bytes()) {
        assert(x@ =~= y.spec_bytes());
    }
}

/// Ordering LooseNamespacedId against str is the dictionary order of their bytes.
pub proof fn law_order_loose_owned_with_str(x: &LooseNamespacedId, y: &str, r: Option<Ordering>)
    requires
        call_ensures(PartialOrd::<str>::partial_cmp, (x, y), r),
    ensures
        r is Some,
        r == Some(Ordering::Equal) <==> same_bytes(x@, y.spec_bytes()),
        r == Some(Ordering::Less) <==> precedes(x@, y.spec_bytes()),
        r == Some(Ordering::Greater) <==> precedes(y.spec_bytes(), x@),
{
    law_byte_order_is_dictionary_order(x@, y.spec_bytes());
}

/// `==` between LooseNamespacedId and &str holds exactly when both spell the same bytes.
pub proof fn law_eq_loose_owned_with_str_ref<'b>(x: &LooseNamespacedId, y: &&'b str, r: bool)
    requires
        call_ensures(<LooseNamespacedId as PartialEq<&'b str>>::eq, (x, y), r),
    ensures
        r <==> same_bytes(x@, (*y).spec_bytes()),
{
    if same_bytes(x@, (*y).spec_bytes()) {
        assert(x@ =~= (*y).spec_bytes());
    }
}

/// Ordering LooseNamespacedId against &str is the dictionary order of their bytes.
pub proof fn law_order_loose_owned_with_str_ref<'b>(x: &LooseNamespacedId, y: &&'b str, r: Option<Ordering>)
    requires
        call_ensures(PartialOrd::<&'b str>::partial_cmp, (x, y), r),
    ensures
        r is Some,
        r == Some(Ordering::Equal) <==> same_bytes(x@, (*y).spec_bytes()),
        r == Some(Ordering::Less) <==> precedes(x@, (*y).spec_bytes()),
        r == Some(Ordering::Greater) <==> precedes((*y).spec_bytes(), x@),
{
    law_byte_order_is_dictionary_order(x@, (*y).spec_bytes());
}

/// `==` between &LooseNamespacedId and LooseNamespacedId holds exactly when both spell the same bytes.
pub proof fn law_eq_loose_owned_ref_with_owned<'b>(x: &&'b LooseNamespacedId, y: &LooseNamespacedId, r: bool)
    requires
        call_ensures(<&'b LooseNamespacedId as PartialEq<LooseNamespacedId>>::eq, (x, y), r),
    ensures
        r <==> same_bytes(x@, y@),
{
    if same_bytes(x@, y@) {
        assert(x@ =~= y@);
    }
}

/// Ordering &LooseNamespacedId against LooseNamespacedId is the dictionary order of their bytes.
pub proof fn law_order_loose_owned_ref_with_owned<'b>(x: &&'b LooseNamespacedId, y: &LooseNamespacedId, r: Option<Ordering>)
    requires
        call_ensures(PartialOrd::<LooseNamespacedId>::partial_cmp, (x, y), r),
    ensures
        r is Some,
        r == Some(Ordering::Equal) <==> same_bytes(x@, y@),
        r == Some(Ordering::Less) <==> precedes(x@, y@),
        r == Some(Ordering::Greater) <==> precedes(y@, x@),
{
    law_byte_order_is_dictionary_order(x@, y@);
}

/// `==` between &LooseNamespacedId and LooseNamespacedIdRef<'a> holds exactly when both spell the same bytes.
pub proof fn law_eq_loose_owned_ref_with_borrowed<'b, 'a>(x: &&'b LooseNamespacedId, y: &LooseNamespacedIdRef<'a>, r: bool)
    requires
        call_ensures(<&'b LooseNamespacedId as PartialEq<LooseNamespacedIdRef<'a>>>::eq, (x, y), r),
    ensures
        r <==> same_bytes(x@, y@),
{
    if same_bytes(x@, y@) {
        assert(x@ =~= y@);
    }
}

/// Ordering &LooseNamespacedId against LooseNamespacedIdRef<'a> is the dictionary order of their bytes.
pub proof fn law_order_loose_owned_ref_with_borrowed<'b, 'a>(x: &&'b LooseNamespacedId, y: &LooseNamespacedIdRef<'a>, r: Option<Ordering>)
    requires
        call_ensures(PartialOrd::<LooseNamespacedIdRef<'a>>::partial_cmp, (x, y), r),
    ensures
        r is Some,
        r == Some(Ordering::Equal) <==> same_bytes(x@, y@),
        r == Some(Ordering::Less) <==> precedes(x@, y@),
        r == Some(Ordering::Greater) <==> precedes(y@, x@),
{
    law_byte_order_is_dictionary_order(x@, y@);
}

/// `==` between &LooseNamespacedId and str holds exactly when both spell the same bytes.
pub proof fn law_eq_loose_owned_ref_with_str<'b>(x: &&'b LooseNamespacedId, y: &str, r: bool)
    requires
        call_ensures(<&'b LooseNamespacedId as PartialEq<str>>::eq, (x, y), r),
    ensures
        r <==> same_bytes(x@, y.spec_bytes()),
{
    if same_bytes(x@, y.spec_bytes()) {
        assert(x@ =~= y.spec_bytes());
    }
}

/// Ordering &LooseNamespacedId against str is the dictionary order of their bytes.
pub proof fn law_order_loose_owned_ref_with_str<'b>(x: &&'b LooseNamespacedId, y: &str, r: Option<Ordering>)
    requires
        call_ensures(PartialOrd::<str>::partial_cmp, (x, y), r),
    ensures
        r is Some,
        r == Some(Ordering::Equal) <==> same_bytes(x@, y.spec_bytes()),
        r == Some(Ordering::Less) <==> precedes(x@, y.spec_bytes()),
        r == Some(Ordering::Greater) <==> precedes(y.spec_bytes(), x@),
{
    law_byte_order_is_dictionary_order(x@, y.spec_bytes());
}

/// `==` between LooseNamespacedIdRef<'a> and LooseNamespacedId holds exactly when both spell the same bytes.
pub proof fn law_eq_loose_borrowed_with_owned<'a>(x: &LooseNamespacedIdRef<'a>, y: &LooseNamespacedId, r: bool)
    requires
        call_ensures(<LooseNamespacedIdRef<'a> as PartialEq<LooseNamespacedId>>::eq, (x, y), r),
    ensures
        r <==> same_bytes(x@, y@),
{
    if same_bytes(x@, y@) {
        assert(x@ =~= y@);
    }
}

/// Ordering LooseNamespacedIdRef<'a> against LooseNamespacedId is the dictionary order of their bytes.
pub proof fn law_order_loose_borrowed_with_owned<'a>(x: &LooseNamespacedIdRef<'a>, y: &LooseNamespacedId, r: Option<Ordering>)
    requires
        call_ensures(PartialOrd::<LooseNamespacedId>::partial_cmp, (x, y), r),
    ensures
        r is Some,
        r == Some(Ordering::Equal) <==> same_bytes(x@, y@),
        r == Some(Ordering::Less) <==> precedes(x@, y@),
        r == Some(Ordering::Greater) <==> precedes(y@, x@),
{
    law_byte_order_is_dictionary_order(x@, y@);
}

/// `==` between LooseNamespacedIdRef<'a> and &LooseNamespacedId holds exactly when both spell the same bytes.
pub proof fn law_eq_loose_borrowed_with_owned_ref<'a, 'b>(x: &LooseNamespacedIdRef<'a>, y: &&'b LooseNamespacedId, r: bool)
    requires
        call_ensures(<LooseNamespacedIdRef<'a> as PartialEq<&'b LooseNamespacedId>>::eq, (x, y), r),
    ensures
        r <==> same_bytes(x@, y@),
{
    if same_bytes(x@, y@) {
        assert(x@ =~= y@);
    }
}

/// Ordering LooseNamespacedIdRef<'a> against &LooseNamespacedId is the dictionary order of their bytes.
pub proof fn law_order_loose_borrowed_with_owned_ref<'a, 'b>(x: &LooseNamespacedIdRef<'a>, y: &&'b LooseNamespacedId, r: Option<Ordering>)
    requires
        call_ensures(PartialOrd::<&'b LooseNamespacedId>::partial_cmp, (x, y), r),
    ensures
        r is Some,
        r == Some(Ordering::Equal) <==> same_bytes(x@, y@),
        r == Some(Ordering::Less) <==> precedes(x@, y@),
        r == Some(Ordering::Greater) <==> precedes(y@, x@),
{
    law_byte_order_is_dictionary_order(x@, y@);
}

/// `==` between LooseNamespacedIdRef<'a> and str holds exactly when both spell the same bytes.
pub proof fn law_eq_loose_borrowed_with_str<'a>(x: &LooseNamespacedIdRef<'a>, y: &str, r: bool)
    requires
        call_ensures(<LooseNamespacedIdRef<'a> as PartialEq<str>>::eq, (x, y), r),
    ensures
        r <==> same_bytes(x@, y.spec_bytes()),
{
    if same_bytes(x@, y.spec_bytes()) {
        assert(x@ =~= y.spec_bytes());
    }
}

/// Ordering LooseNamespacedIdRef<'a> against str is the dictionary order of their bytes.
pub proof fn law_order_loose_borrowed_with_str<'a>(x: &LooseNamespacedIdRef<'a>, y: &str, r: Option<Ordering>)
    requires
        call_ensures(PartialOrd::<str>::partial_cmp, (x, y), r),
    ensures
        r is Some,
        r == Some(Ordering::Equal) <==> same_bytes(x@, y.spec_bytes()),
        r == Some(Ordering::Less) <==> precedes(x@, y.spec_bytes()),
        r == Some(Ordering::Greater) <==> precedes(y.spec_bytes(), x@),
{
    law_byte_order_is_dictionary_order(x@, y.spec_bytes());
}

/// `==` between LooseNamespacedIdRef<'a> and &str holds exactly when both spell the same bytes.
pub proof fn law_eq_loose_borrowed_with_str_ref<'a, 'b>(x: &LooseNamespacedIdRef<'a>, y: &&'b str, r: bool)
    requires
        call_ensures(<LooseNamespacedIdRef<'a> as PartialEq<&'b str>>::eq, (x, y), r),
    ensures
        r <==> same_bytes(x@, (*y).spec_bytes()),
{
    if same_bytes(x@, (*y).spec_bytes()) {
        assert(x@ =~= (*y).spec_bytes());
    }
}

/// Ordering LooseNamespacedIdRef<'a> against &str is the dictionary order of their bytes.
pub proof fn law_order_loose_borrowed_with_str_ref<'a, 'b>(x: &LooseNamespacedIdRef<'a>, y: &&'b str, r: Option<Ordering>)
    requires
        call_ensures(PartialOrd::<&'b str>::partial_cmp, (x, y), r),
    ensures
        r is Some,
        r == Some(Ordering::Equal) <==> same_bytes(x@, (*y).spec_bytes()),
        r == Some(Ordering::Less) <==> precedes(x@, (*y).spec_bytes()),
        r == Some(Ordering::Greater) <==> precedes((*y).spec_bytes(), x@),
{
    law_byte_order_is_dictionary_order(x@, (*y).spec_bytes());
}

/// `==` between str and LooseNamespacedId holds exactly when both spell the same bytes.
pub proof fn law_eq_loose_str_with_owned(x: &str, y: &LooseNamespacedId, r: bool)
    requires
        call_ensures(<str as PartialEq<LooseNamespacedId>>::eq, (x, y), r),
    ensures
        r <==> same_bytes(x.spec_bytes(), y@),
{
    if same_bytes(x.spec_bytes(), y@) {
        assert(x.spec_bytes() =~= y@);
    }
}

/// Ordering str against LooseNamespacedId is the dictionary order of their bytes.
pub proof fn law_order_loose_str_with_owned(x: &str, y: &LooseNamespacedId, r: Option<Ordering>)
    requires
        call_ensures(PartialOrd::<LooseNamespacedId>::partial_cmp, (x, y), r),
    ensures
        r is Some,
        r == Some(Ordering::Equal) <==> same_bytes(x.spec_bytes(), y@),
        r == Some(Ordering::Less) <==> precedes(x.spec_bytes(), y@),
        r == Some(Ordering::Greater) <==> precedes(y@, x.spec_bytes()),
{
    law_byte_order_is_dictionary_order(x.spec_bytes(), y@);
}

/// `==` between str and &LooseNamespacedId holds exactly when both spell the same bytes.
pub proof fn law_eq_loose_str_with_owned_ref<'b>(x: &str, y: &&'b LooseNamespacedId, r: bool)
    requires
        call_ensures(<str as PartialEq<&'b LooseNamespacedId>>::eq, (x, y), r),
    ensures
        r <==> same_bytes(x.spec_bytes(), y@),
{
    if same_bytes(x.spec_bytes(), y@) {
        assert(x.spec_bytes() =~= y@);
    }
}

/// Ordering str against &LooseNamespacedId is the dictionary order of their bytes.
pub proof fn law_order_loose_str_with_owned_ref<'b>(x: &str, y: &&'b LooseNamespacedId, r: Option<Ordering>)
    requires
        call_ensures(PartialOrd::<&'b LooseNamespacedId>::partial_cmp, (x, y), r),
    ensures
        r is Some,
        r == Some(Ordering::Equal) <==> same_bytes(x.spec_bytes(), y@),
        r == Some(Ordering::Less) <==> precedes(x.spec_bytes(), y@),
        r == Some(Ordering::Greater) <==> precedes(y@, x.spec_bytes()),
{
    law_byte_order_is_dictionary_order(x.spec_bytes(), y@);
}

/// `==` between str and LooseNamespacedIdRef<'a> holds exactly when both spell the same bytes.
pub proof fn law_eq_loose_str_with_borrowed<'a>(x: &str, y: &LooseNamespacedIdRef<'a>, r: bool)
    requires
        call_ensures(<str as PartialEq<LooseNamespacedIdRef<'a>>>::eq, (x, y), r),
    ensures
        r <==> same_bytes(x.spec_bytes(), y@),
{
    if same_bytes(x.spec_bytes(), y@) {
        assert(x.spec_bytes() =~= y@);
    }
}

/// Ordering str against LooseNamespacedIdRef<'a> is the dictionary order of their bytes.
pub proof fn law_order_loose_str_with_borrowed<'a>(x: &str, y: &LooseNamespacedIdRef<'a>, r: Option<Ordering>)
    requires
        call_ensures(PartialOrd::<LooseNamespacedIdRef<'a>>::partial_cmp, (x, y), r),
    ensures
        r is Some,
        r == Some(Ordering::Equal) <==> same_bytes(x.spec_bytes(), y@),
        r == Some(Ordering::Less) <==> precedes(x.spec_bytes(), y@),
        r == Some(Ordering::Greater) <==> precedes(y@, x.spec_bytes()),
{
    law_byte_order_is_dictionary_order(x.spec_bytes(), y@);
}

/// `==` between &str and LooseNamespacedId holds exactly when both spell the same bytes.
pub proof fn law_eq_loose_str_ref_with_owned<'b>(x: &&'b str, y: &LooseNamespacedId, r: bool)
    requires
        call_ensures(<&'b str as PartialEq<LooseNamespacedId>>::eq, (x, y), r),
    ensures
        r <==> same_bytes((*x).spec_bytes(), y@),
{
    if same_bytes((*x).spec_bytes(), y@) {
        assert((*x).spec_bytes() =~= y@);
    }
}

/// Ordering &str against LooseNamespacedId is the dictionary order of their bytes.
pub proof fn law_order_loose_str_ref_with_owned<'b>(x: &&'b str, y: &LooseNamespacedId, r: Option<Ordering>)
    requires
        call_ensures(PartialOrd::<LooseNamespacedId>::partial_cmp, (x, y), r),
    ensures
        r is Some,
        r == Some(Ordering::Equal) <==> same_bytes((*x).spec_bytes(), y@),
        r == Some(Ordering::Less) <==> precedes((*x).spec_bytes(), y@),
        r == Some(Ordering::Greater) <==> precedes(y@, (*x).spec_bytes()),
{
    law_byte_order_is_dictionary_order((*x).spec_bytes(), y@);
}

/// `==` between &str and LooseNamespacedIdRef<'a> holds exactly when both spell the same bytes.
pub proof fn law_eq_loose_str_ref_with_borrowed<'b, 'a>(x: &&'b str, y: &LooseNamespacedIdRef<'a>, r: bool)
    requires
        call_ensures(<&'b str as PartialEq<LooseNamespacedIdRef<'a>>>::eq, (x, y), r),
    ensures
        r <==> same_bytes((*x).spec_bytes(), y@),
{
    if same_bytes((*x).spec_bytes(), y@) {
        assert((*x).spec_bytes() =~= y@);
    }
}

/// Ordering &str against LooseNamespacedIdRef<'a> is the dictionary order of their bytes.
pub proof fn law_order_loose_str_ref_with_borrowed<'b, 'a>(x: &&'b str, y: &LooseNamespacedIdRef<'a>, r: Option<Ordering>)
    requires
        call_ensures(PartialOrd::<LooseNamespacedIdRef<'a>>::partial_cmp, (x, y), r),
    ensures
        r is Some,
        r == Some(Ordering::Equal) <==> same_bytes((*x).spec_bytes(), y@),
        r == Some(Ordering::Less) <==> precedes((*x).spec_bytes(), y@),
        r == Some(Ordering::Greater) <==> precedes(y@, (*x).spec_bytes()),
{
    law_byte_order_is_dictionary_order((*x).spec_bytes(), y@);
}

/// `==` between LooseNamespacedId and LooseNamespacedId holds exactly when both spell the same bytes.
pub proof fn law_eq_loose_owned(x: &LooseNamespacedId, y: &LooseNamespacedId, r: bool)
    requires
        call_ensures(<LooseNamespacedId as PartialEq>::eq, (x, y), r),
    ensures
        r <==> same_bytes(x@, y@),
{
    if same_bytes(x@, y@) {
        assert(x@ =~= y@);
    }
}

/// `==` between LooseNamespacedIdRef<'a> and LooseNamespacedIdRef<'a> holds exactly when both spell the same bytes.
pub proof fn law_eq_loose_borrowed<'a>(x: &LooseNamespacedIdRef<'a>, y: &LooseNamespacedIdRef<'a>, r: bool)
    requires
        call_ensures(<LooseNamespacedIdRef<'a> as PartialEq>::eq, (x, y), r),
    ensures
        r <==> same_bytes(x@, y@),
{
    if same_bytes(x@, y@) {
        assert(x@ =~= y@);
    }
}

} // verus!

//! Delimited ids: strings of `N` components separated by `:`, borrowed
//! ([`DelimitedIdRef`]), owned ([`DelimitedId`]) and shared ([`ArcDelimitedId`]), with the
//! component, namespaced and operation views of them.
use std::sync::Arc;

use vstd::prelude::*;
use vstd::string::StringSliceAdditionalSpecFns;

use crate::components::{
    lemma_split_len, lemma_valid_id_ascii, lemma_valid_id_components, split_components,
};
use crate::laws::{
    law_concatenated_components_are_a_component, law_split_of_three_components,
    law_split_of_two_components,
};
use crate::text::{
    all_ascii, box_from_str, box_from_string, bytes_equal, concat, lemma_ascii_char_boundaries,
    lemma_colon_bytes, prefix, substring, suffix, utf8_bytes,
};
use crate::validation::{
    fits_in_memory, is_valid_id, spec_validate, validate, ParseError, SEPARATOR,
};

verus! {

/// The index at which component `k` starts, given the end indices `ends` of the components:
/// the start of the id for the first, else one past the separator that ends the one before.
pub open spec fn component_start(ends: Seq<usize>, k: int) -> int {
    if k == 0 {
        0
    } else {
        ends[k - 1] + 1
    }
}

/// The end index of each component of `bytes`, as the separators and the end of `bytes`
/// place them, and the components they delimit.
pub open spec fn are_component_ends(bytes: Seq<u8>, ends: Seq<usize>) -> bool {
    &&& forall|k: int|
        0 <= k < ends.len() ==> component_start(ends, k) <= #[trigger] ends[k] <= bytes.len()
    &&& forall|k: int|
        0 <= k < ends.len() ==> bytes.subrange(component_start(ends, k), #[trigger] ends[k] as int)
            == split_components(bytes)[k]
    &&& forall|k: int| 0 <= k < ends.len() - 1 ==> bytes[#[trigger] ends[k] as int] == SEPARATOR
    &&& ends.len() >= 1 ==> ends.last() == bytes.len()
}

/// Turns a vector of exactly `N` items into an array: `<[T; N]>::try_from`.
#[verifier::external_body]
fn vec_into_array<T, const N: usize>(items: Vec<T>) -> (r: [T; N])
    requires
        items@.len() == N,
    ensures
        r@ == items@,
{
    let converted: Result<[T; N], Vec<T>> = items.try_into();
    converted.ok().unwrap()
}

/// A reference to a [`DelimitedId`], akin to a `&str`.
///
/// This is identical to `&str` in every way, except that it has the invariant of being a valid
/// [`DelimitedId`] (see [`validate`] for the requirements).
#[derive(Clone, Copy, Debug, Hash, PartialOrd, Ord)]
pub struct DelimitedIdRef<'a, const N: usize> {
    inner: &'a str,
}

impl<'a, const N: usize> View for DelimitedIdRef<'a, N> {
    type V = Seq<u8>;

    /// The UTF-8 bytes of the id.
    closed spec fn view(&self) -> Seq<u8> {
        self.inner.spec_bytes()
    }
}

impl<'a, const N: usize> DelimitedIdRef<'a, N> {
    #[verifier::type_invariant]
    closed spec fn is_valid(self) -> bool {
        is_valid_id::<N>(self.inner.spec_bytes())
    }

    /// Gets the string representation of this id.
    #[must_use]
    pub fn as_str(self) -> (r: &'a str)
        ensures
            r.spec_bytes() == self@,
            is_valid_id::<N>(self@),
    {
        proof {
            use_type_invariant(self);
        }
        self.inner
    }

    /// Losslessly converts `string` into a [`DelimitedIdRef`], or returns [`Err`] if it is not a
    /// valid id.
    ///
    /// # Errors
    ///
    /// - [`ParseError::UnexpectedComponentCount`] if `string` doesn't have the correct number
    ///   of components.
    /// - [`ParseError::UnexpectedCharacter`] if `string` has a character not in `[a-z0-9-_./]`.
    pub fn new(string: &'a str) -> (r: Result<Self, ParseError<N>>)
        requires
            fits_in_memory(string.spec_bytes()),
        ensures
            match spec_validate::<N>(string.spec_bytes()) {
                Ok(()) => r matches Ok(id) && id@ == string.spec_bytes(),
                Err(e) => r == Err::<Self, ParseError<N>>(e),
            },
    {
        if let Err(err) = validate::<N>(string) {
            return Err(err);
        }
        Ok(Self::from_str_unchecked(string))
    }

    /// Converts `string`, which must already be a valid id, into a [`DelimitedIdRef`] without
    /// checking it again.
    #[must_use]
    pub fn from_str_unchecked(string: &'a str) -> (r: Self)
        requires
            is_valid_id::<N>(string.spec_bytes()),
        ensures
            r@ == string.spec_bytes(),
    {
        DelimitedIdRef { inner: string }
    }

    /// The index one past the end of each component: the index of the separator that ends it,
    /// or the length of the id for the last one.
    pub fn component_end_indicies(self) -> (r: [usize; N])
        ensures
            r@.len() == N,
            are_component_ends(self@, r@),
    {
        let ends = self.component_ends();
        vec_into_array(ends)
    }

    #[verifier::rlimit(100)]
    fn component_ends(self) -> (r: Vec<usize>)
        ensures
            r@.len() == N,
            are_component_ends(self@, r@),
    {
        proof {
            use_type_invariant(self);
        }
        let mut ends: Vec<usize> = Vec::new();
        if N == 0 {
            return ends;
        }
        let bytes = self.inner.as_bytes();
        let ghost seq = bytes@;
        proof {
            lemma_valid_id_components::<N>(seq);
            lemma_split_len(seq);
            assert(seq.take(0) =~= Seq::<u8>::empty());
            assert(seq.subrange(0, 0) =~= Seq::<u8>::empty());
        }
        let mut i: usize = 0;
        while i < bytes.len()
            invariant
                seq == bytes@,
                0 <= i <= seq.len(),
                split_components(seq.take(i as int)).len() == ends@.len() + 1,
                forall|k: int|
                    0 <= k < ends@.len() ==> component_start(ends@, k) <= #[trigger] ends@[k]
                        < i,
                forall|k: int|
                    0 <= k < ends@.len() ==> seq.subrange(
                        component_start(ends@, k),
                        #[trigger] ends@[k] as int,
                    ) == split_components(seq.take(i as int))[k],
                forall|k: int| 0 <= k < ends@.len() ==> seq[#[trigger] ends@[k] as int] == SEPARATOR,
                component_start(ends@, ends@.len() as int) <= i,
                seq.subrange(component_start(ends@, ends@.len() as int), i as int)
                    == split_components(seq.take(i as int))[ends@.len() as int],
            decreases seq.len() - i,
        {
            let ghost old_ends = ends@;
            let ghost old_parts = split_components(seq.take(i as int));
            proof {
                assert(seq.take(i + 1).drop_last() =~= seq.take(i as int));
                assert(seq.take(i + 1).last() == seq[i as int]);
            }
            if bytes[i] == SEPARATOR {
                ends.push(i);
                proof {
                    let parts = split_components(seq.take(i + 1));
                    assert(parts == old_parts.push(Seq::<u8>::empty()));
                    assert forall|k: int| 0 <= k < ends@.len() implies seq.subrange(
                        component_start(ends@, k),
                        #[trigger] ends@[k] as int,
                    ) == parts[k] by {
                        if k < old_ends.len() {
                            assert(ends@[k] == old_ends[k]);
                            assert(component_start(ends@, k) == component_start(old_ends, k));
                        }
                    }
                    assert(seq.subrange(i + 1, i + 1) =~= Seq::<u8>::empty());
                }
            } else {
                proof {
                    let parts = split_components(seq.take(i + 1));
                    let start = component_start(ends@, ends@.len() as int);
                    assert(parts == old_parts.update(
                        old_parts.len() - 1,
                        old_parts.last().push(seq[i as int]),
                    ));
                    assert(seq.subrange(start, i + 1) =~= seq.subrange(start, i as int).push(
                        seq[i as int],
                    ));
                    assert forall|k: int| 0 <= k < ends@.len() implies seq.subrange(
                        component_start(ends@, k),
                        #[trigger] ends@[k] as int,
                    ) == parts[k] by {
                        assert(parts[k] == old_parts[k]);
                    }
                }
            }
            i += 1;
        }
        proof {
            assert(seq.take(seq.len() as int) =~= seq);
        }
        ends.push(i);
        proof {
            assert forall|k: int| 0 <= k < ends@.len() implies seq.subrange(
                component_start(ends@, k),
                #[trigger] ends@[k] as int,
            ) == split_components(seq)[k] by {
                if k < ends@.len() - 1 {
                    assert(ends@[k] == ends@.drop_last()[k]);
                    assert(component_start(ends@, k) == component_start(ends@.drop_last(), k));
                } else {
                    assert(component_start(ends@, k) == component_start(ends@.drop_last(), k));
                }
            }
            assert forall|k: int| 0 <= k < ends@.len() - 1 implies seq[#[trigger] ends@[k] as int]
                == SEPARATOR by {
                assert(ends@[k] == ends@.drop_last()[k]);
            }
            assert forall|k: int|
                0 <= k < ends@.len() implies component_start(ends@, k) <= #[trigger] ends@[k]
                <= seq.len() by {
                if k < ends@.len() - 1 {
                    assert(ends@[k] == ends@.drop_last()[k]);
                    assert(component_start(ends@, k) == component_start(ends@.drop_last(), k));
                } else {
                    assert(component_start(ends@, k) == component_start(ends@.drop_last(), k));
                }
            }
        }
        ends
    }

    /// Returns an array of all components of this id, in order, without any delimiters.
    #[must_use]
    pub fn components(self) -> (r: [IdComponentRef<'a>; N])
        ensures
            r@.len() == N,
            forall|k: int| 0 <= k < N ==> (#[trigger] r@[k])@ == split_components(self@)[k],
    {
        proof {
            use_type_invariant(self);
        }
        let ends = self.component_ends();
        let mut parts: Vec<IdComponentRef<'a>> = Vec::new();
        if N == 0 {
            return vec_into_array(parts);
        }
        proof {
            lemma_valid_id_components::<N>(self@);
            lemma_valid_id_ascii::<N>(self@);
            lemma_ascii_char_boundaries(self.inner);
        }
        let mut k: usize = 0;
        while k < N
            invariant
                N >= 1,
                ends@.len() == N,
                are_component_ends(self@, ends@),
                all_ascii(self.inner.spec_bytes()),
                self.inner.spec_bytes() == self@,
                split_components(self@).len() == N,
                forall|m: int| 0 <= m < N ==> #[trigger] is_valid_id::<1>(split_components(self@)[m]),
                0 <= k <= N,
                parts@.len() == k,
                forall|m: int| 0 <= m < k ==> (#[trigger] parts@[m])@ == split_components(self@)[m],
            decreases N - k,
        {
            proof {
                assert(component_start(ends@, k as int) <= ends@[k as int]);
            }
            let start = if k == 0 {
                0
            } else {
                ends[k - 1] + 1
            };
            proof {
                lemma_ascii_char_boundaries(self.inner);
            }
            let piece = substring(self.inner, start, ends[k]);
            proof {
                assert(is_valid_id::<1>(split_components(self@)[k as int]));
            }
            parts.push(DelimitedIdRef { inner: piece });
            k += 1;
        }
        vec_into_array(parts)
    }

    /// Copies this id into an owned [`DelimitedId`].
    #[must_use]
    pub fn to_owned(self) -> (r: DelimitedId<N>)
        ensures
            r@ == self@,
    {
        proof {
            use_type_invariant(self);
        }
        DelimitedId { inner: box_from_str(self.inner) }
    }
}

impl<'a, const N: usize> PartialEq for DelimitedIdRef<'a, N> {
    fn eq(&self, other: &Self) -> (r: bool) {
        bytes_equal(self.inner.as_bytes(), other.inner.as_bytes())
    }
}

impl<'a, const N: usize> vstd::std_specs::cmp::PartialEqSpecImpl for DelimitedIdRef<'a, N> {
    open spec fn obeys_eq_spec() -> bool {
        true
    }

    open spec fn eq_spec(&self, other: &Self) -> bool {
        self@ == other@
    }
}

impl<'a, const N: usize> Eq for DelimitedIdRef<'a, N> {

}

/// An id that is made up of `N` different components that are all separated by `:` delimiters.
///
/// This is identical to `Box<str>` in every way, except that it has the invariant of being a valid
/// [`DelimitedId`] (see [`validate`] for the requirements).
#[derive(Debug, Hash, PartialOrd, Ord)]
pub struct DelimitedId<const N: usize> {
    inner: Box<str>,
}

impl<const N: usize> View for DelimitedId<N> {
    type V = Seq<u8>;

    /// The UTF-8 bytes of the id.
    closed spec fn view(&self) -> Seq<u8> {
        utf8_bytes(self.inner@)
    }
}

impl<const N: usize> DelimitedId<N> {
    #[verifier::type_invariant]
    closed spec fn is_valid(self) -> bool {
        is_valid_id::<N>(utf8_bytes(self.inner@))
    }

    /// Gets the string representation of this id.
    #[must_use]
    pub fn as_str(&self) -> (r: &str)
        ensures
            r.spec_bytes() == self@,
            is_valid_id::<N>(self@),
    {
        proof {
            use_type_invariant(self);
        }
        &self.inner
    }

    /// Borrows this id as a [`DelimitedIdRef`].
    #[must_use]
    pub fn as_id_ref(&self) -> (r: DelimitedIdRef<'_, N>)
        ensures
            r@ == self@,
    {
        DelimitedIdRef::from_str_unchecked(self.as_str())
    }

    /// Creates a new [`DelimitedId`] from a [`String`].
    ///
    /// # Errors
    ///
    /// - See [`validate`].
    pub fn try_from_string(string: String) -> (r: Result<Self, ParseError<N>>)
        requires
            fits_in_memory(utf8_bytes(string@)),
        ensures
            match spec_validate::<N>(utf8_bytes(string@)) {
                Ok(()) => r matches Ok(id) && id@ == utf8_bytes(string@),
                Err(e) => r == Err::<Self, ParseError<N>>(e),
            },
    {
        validate::<N>(string.as_str())?;
        Ok(Self::from_box_unchecked(box_from_string(string)))
    }

    /// Creates a new [`DelimitedId`] from a [`Box<str>`].
    ///
    /// # Errors
    ///
    /// - See [`validate`].
    pub fn try_from_box(string: Box<str>) -> (r: Result<Self, ParseError<N>>)
        requires
            fits_in_memory(utf8_bytes(string@)),
        ensures
            match spec_validate::<N>(utf8_bytes(string@)) {
                Ok(()) => r matches Ok(id) && id@ == utf8_bytes(string@),
                Err(e) => r == Err::<Self, ParseError<N>>(e),
            },
    {
        validate::<N>(&string)?;
        Ok(Self::from_box_unchecked(string))
    }

    /// Creates a new [`DelimitedId`] by allocating a [`&str`].
    ///
    /// # Errors
    ///
    /// - See [`validate`].
    pub fn try_from_str(string: &str) -> (r: Result<Self, ParseError<N>>)
        requires
            fits_in_memory(string.spec_bytes()),
        ensures
            match spec_validate::<N>(string.spec_bytes()) {
                Ok(()) => r matches Ok(id) && id@ == string.spec_bytes(),
                Err(e) => r == Err::<Self, ParseError<N>>(e),
            },
    {
        validate::<N>(string)?;
        Ok(Self::from_box_unchecked(box_from_str(string)))
    }

    /// Converts `string`, which must already be a valid id, into a [`DelimitedId`] without
    /// checking it again.
    #[must_use]
    pub fn from_box_unchecked(string: Box<str>) -> (r: Self)
        requires
            is_valid_id::<N>(utf8_bytes(string@)),
        ensures
            r@ == utf8_bytes(string@),
    {
        DelimitedId { inner: string }
    }
}

/// A reference to an [`IdComponent`], akin to a `&str`.
pub type IdComponentRef<'a> = DelimitedIdRef<'a, 1>;

/// An owned component of a [`NamespacedId`] or [`OperationId`] (without delimiters).
pub type IdComponent = DelimitedId<1>;

/// A reference to a [`NamespacedId`], akin to a `&str`.
pub type NamespacedIdRef<'a> = DelimitedIdRef<'a, 2>;

/// An owned id that is prefixed with a namespace, like `<namespace>:<path>`.
pub type NamespacedId = DelimitedId<2>;

/// A reference to an [`OperationId`], akin to a `&str`.
pub type OperationIdRef<'a> = DelimitedIdRef<'a, 3>;

/// A [`NamespacedId`] plus an operation, like `<namespace>:<path>:<operation>`.
pub type OperationId = DelimitedId<3>;

impl<'a> DelimitedIdRef<'a, 1> {
    /// Concatenates two components into one owned component.
    ///
    /// This always works, as both sides are valid id components without separators.
    #[must_use]
    pub fn concat(self, rhs: IdComponentRef<'_>) -> (r: IdComponent)
        ensures
            r@ == self@ + rhs@,
    {
        proof {
            use_type_invariant(self);
            use_type_invariant(rhs);
            law_concatenated_components_are_a_component(self@, rhs@);
        }
        let combined = concat(self.inner, rhs.inner);
        DelimitedId::from_box_unchecked(box_from_string(combined))
    }
}

impl<'a> DelimitedIdRef<'a, 2> {
    /// Returns the portion of the id before the colon.
    #[must_use]
    pub fn namespace(self) -> (r: IdComponentRef<'a>)
        ensures
            r@ == split_components(self@)[0],
    {
        proof {
            use_type_invariant(self);
            lemma_valid_id_components::<2>(self@);
            lemma_valid_id_ascii::<2>(self@);
            lemma_ascii_char_boundaries(self.inner);
        }
        let namespace_len = self.namespace_len();
        let namespace = prefix(self.inner, namespace_len);
        DelimitedIdRef { inner: namespace }
    }

    /// Returns the portion of the id after the colon.
    #[must_use]
    pub fn path(self) -> (r: IdComponentRef<'a>)
        ensures
            r@ == split_components(self@)[1],
    {
        proof {
            use_type_invariant(self);
            lemma_valid_id_components::<2>(self@);
            lemma_valid_id_ascii::<2>(self@);
            lemma_ascii_char_boundaries(self.inner);
        }
        let namespace_len = self.namespace_len();
        let path = suffix(self.inner, namespace_len + 1);
        DelimitedIdRef { inner: path }
    }

    /// The length of the namespace: the index of the colon.
    fn namespace_len(self) -> (r: usize)
        ensures
            r < self@.len() <= usize::MAX,
            self@[r as int] == SEPARATOR,
            self@.subrange(0, r as int) == split_components(self@)[0],
            self@.subrange(r + 1, self@.len() as int) == split_components(self@)[1],
    {
        let ends = self.component_ends();
        proof {
            assert(component_start(ends@, 1) <= ends@[1]);
        }
        ends[0]
    }
}

impl<'a> DelimitedIdRef<'a, 3> {
    /// Returns the first two components of the id - the namespaced id.
    #[must_use]
    pub fn namespaced_id(self) -> (r: NamespacedIdRef<'a>)
        ensures
            r@ == split_components(self@)[0] + seq![SEPARATOR] + split_components(self@)[1],
    {
        proof {
            use_type_invariant(self);
            lemma_valid_id_components::<3>(self@);
            lemma_valid_id_ascii::<3>(self@);
            lemma_ascii_char_boundaries(self.inner);
        }
        let ends = self.component_ends();
        proof {
            assert(component_start(ends@, 1) <= ends@[1]);
            assert(component_start(ends@, 2) <= ends@[2]);
        }
        let second_colon = ends[1];
        let namespaced_id = prefix(self.inner, second_colon);
        proof {
            let parts = split_components(self@);
            assert(self@.subrange(0, second_colon as int) =~= self@.subrange(0, ends@[0] as int)
                + seq![SEPARATOR] + self@.subrange(ends@[0] + 1, second_colon as int));
            law_split_of_two_components(parts[0], parts[1]);
        }
        DelimitedIdRef { inner: namespaced_id }
    }

    /// Returns the first component of the id - the namespace.
    #[must_use]
    pub fn namespace(self) -> (r: IdComponentRef<'a>)
        ensures
            r@ == split_components(self@)[0],
    {
        let namespaced_id = self.namespaced_id();
        proof {
            use_type_invariant(self);
            lemma_valid_id_components::<3>(self@);
            law_split_of_two_components(split_components(self@)[0], split_components(self@)[1]);
        }
        namespaced_id.namespace()
    }

    /// Returns the second component of the id - the path.
    #[must_use]
    pub fn path(self) -> (r: IdComponentRef<'a>)
        ensures
            r@ == split_components(self@)[1],
    {
        let namespaced_id = self.namespaced_id();
        proof {
            use_type_invariant(self);
            lemma_valid_id_components::<3>(self@);
            law_split_of_two_components(split_components(self@)[0], split_components(self@)[1]);
        }
        namespaced_id.path()
    }

    /// Returns the third component of the id - the operation.
    #[must_use]
    pub fn operation(self) -> (r: IdComponentRef<'a>)
        ensures
            r@ == split_components(self@)[2],
    {
        proof {
            use_type_invariant(self);
            lemma_valid_id_components::<3>(self@);
            lemma_valid_id_ascii::<3>(self@);
            lemma_ascii_char_boundaries(self.inner);
        }
        let ends = self.component_ends();
        proof {
            assert(component_start(ends@, 2) <= ends@[2]);
        }
        let operation = suffix(self.inner, ends[1] + 1);
        DelimitedIdRef { inner: operation }
    }
}

impl DelimitedId<2> {
    /// Creates a new [`NamespacedId`] from a separated `namespace` and `path`.
    #[must_use]
    pub fn new(namespace: IdComponentRef<'_>, path: IdComponentRef<'_>) -> (r: Self)
        ensures
            r@ == namespace@ + seq![SEPARATOR] + path@,
    {
        let colon = ":";
        proof {
            reveal_strlit(":");
            assert(colon@ =~= seq![':']);
            lemma_colon_bytes(colon);
        }
        let front = concat(namespace.as_str(), colon);
        let string = concat(front.as_str(), path.as_str());
        proof {
            use_type_invariant(namespace);
            use_type_invariant(path);
            law_split_of_two_components(namespace@, path@);
        }
        Self::from_box_unchecked(box_from_string(string))
    }
}

impl DelimitedId<3> {
    /// Creates a new [`OperationId`] from a separated `namespace`, `path`, and `operation`.
    #[must_use]
    pub fn new(
        namespace: IdComponentRef<'_>,
        path: IdComponentRef<'_>,
        operation: IdComponentRef<'_>,
    ) -> (r: Self)
        ensures
            r@ == namespace@ + seq![SEPARATOR] + path@ + seq![SEPARATOR] + operation@,
    {
        let colon = ":";
        proof {
            reveal_strlit(":");
            assert(colon@ =~= seq![':']);
            lemma_colon_bytes(colon);
        }
        let first = concat(namespace.as_str(), colon);
        let second = concat(first.as_str(), path.as_str());
        let third = concat(second.as_str(), colon);
        let string = concat(third.as_str(), operation.as_str());
        proof {
            use_type_invariant(namespace);
            use_type_invariant(path);
            use_type_invariant(operation);
            law_split_of_three_components(namespace@, path@, operation@);
        }
        Self::from_box_unchecked(box_from_string(string))
    }
}

impl<const N: usize> PartialEq for DelimitedId<N> {
    fn eq(&self, other: &Self) -> (r: bool) {
        bytes_equal(self.as_str().as_bytes(), other.as_str().as_bytes())
    }
}

impl<const N: usize> vstd::std_specs::cmp::PartialEqSpecImpl for DelimitedId<N> {
    open spec fn obeys_eq_spec() -> bool {
        true
    }

    open spec fn eq_spec(&self, other: &Self) -> bool {
        self@ == other@
    }
}

impl<const N: usize> Eq for DelimitedId<N> {

}

/// Every id can be read as the string that spells it.
impl<'a, const N: usize> AsRef<str> for DelimitedIdRef<'a, N> {
    fn as_ref(&self) -> (r: &str)
        ensures
            <str as StringSliceAdditionalSpecFns>::spec_bytes(r) == self@,
    {
        self.as_str()
    }
}

impl<'a, const N: usize> std::borrow::Borrow<str> for DelimitedIdRef<'a, N> {
    fn borrow(&self) -> (r: &str)
        ensures
            <str as StringSliceAdditionalSpecFns>::spec_bytes(r) == self@,
    {
        self.as_str()
    }
}

impl<const N: usize> AsRef<str> for DelimitedId<N> {
    fn as_ref(&self) -> (r: &str)
        ensures
            <str as StringSliceAdditionalSpecFns>::spec_bytes(r) == self@,
    {
        self.as_str()
    }
}

impl<const N: usize> std::borrow::Borrow<str> for DelimitedId<N> {
    fn borrow(&self) -> (r: &str)
        ensures
            <str as StringSliceAdditionalSpecFns>::spec_bytes(r) == self@,
    {
        self.as_str()
    }
}

/// Copying a borrowed id into an owned one.
impl<'a, const N: usize> From<DelimitedIdRef<'a, N>> for DelimitedId<N> {
    fn from(value: DelimitedIdRef<'a, N>) -> (r: Self)
        ensures
            r@ == value@,
    {
        value.to_owned()
    }
}

/// The owned id that a conversion gives is only known by its bytes: another allocation with
/// the same bytes is as good, so no single spec value is named for it.
impl<'a, const N: usize> vstd::std_specs::convert::FromSpecImpl<DelimitedIdRef<'a, N>> for DelimitedId<N> {
    open spec fn obeys_from_spec() -> bool {
        false
    }

    closed spec fn from_spec(value: DelimitedIdRef<'a, N>) -> Self {
        choose|owned: Self| owned@ == value@
    }
}

impl<const N: usize> Clone for DelimitedId<N> {
    fn clone(&self) -> (r: Self)
        ensures
            r@ == self@,
    {
        self.as_id_ref().to_owned()
    }
}

/// An id that is made up of `N` different components that are all separated by `:` delimiters.
///
/// This is identical to `Arc<str>` in every way, except that it has the invariant of being a
/// valid [`DelimitedId`] (see [`validate`] for the requirements).
#[derive(Debug, Hash, PartialOrd, Ord)]
pub struct ArcDelimitedId<const N: usize> {
    inner: Arc<DelimitedId<N>>,
}

impl<const N: usize> View for ArcDelimitedId<N> {
    type V = Seq<u8>;

    /// The UTF-8 bytes of the id.
    closed spec fn view(&self) -> Seq<u8> {
        self.inner@
    }
}

impl<const N: usize> ArcDelimitedId<N> {
    /// Gets the string representation of this id.
    #[must_use]
    pub fn as_str(&self) -> (r: &str)
        ensures
            r.spec_bytes() == self@,
            is_valid_id::<N>(self@),
    {
        self.inner.as_str()
    }

    /// Borrows this id as a [`DelimitedIdRef`].
    #[must_use]
    pub fn as_id_ref(&self) -> (r: DelimitedIdRef<'_, N>)
        ensures
            r@ == self@,
    {
        self.inner.as_id_ref()
    }
}

impl<const N: usize> PartialEq for ArcDelimitedId<N> {
    fn eq(&self, other: &Self) -> (r: bool) {
        bytes_equal(self.as_str().as_bytes(), other.as_str().as_bytes())
    }
}

impl<const N: usize> vstd::std_specs::cmp::PartialEqSpecImpl for ArcDelimitedId<N> {
    open spec fn obeys_eq_spec() -> bool {
        true
    }

    open spec fn eq_spec(&self, other: &Self) -> bool {
        self@ == other@
    }
}

impl<const N: usize> Eq for ArcDelimitedId<N> {

}

/// Another pointer to the same shared value: `<Arc<T> as Clone>::clone`.
#[verifier::external_body]
fn share<T>(shared: &Arc<T>) -> (r: Arc<T>)
    ensures
        r == *shared,
{
    Arc::clone(shared)
}

impl<const N: usize> Clone for ArcDelimitedId<N> {
    fn clone(&self) -> (r: Self)
        ensures
            r@ == self@,
    {
        ArcDelimitedId { inner: share(&self.inner) }
    }
}

/// A shared id can be read as the string that spells it.
impl<const N: usize> AsRef<str> for ArcDelimitedId<N> {
    fn as_ref(&self) -> (r: &str)
        ensures
            <str as StringSliceAdditionalSpecFns>::spec_bytes(r) == self@,
    {
        self.as_str()
    }
}

impl<const N: usize> std::borrow::Borrow<str> for ArcDelimitedId<N> {
    fn borrow(&self) -> (r: &str)
        ensures
            <str as StringSliceAdditionalSpecFns>::spec_bytes(r) == self@,
    {
        self.as_str()
    }
}

/// Moves an owned id into a shared one.
impl<const N: usize> From<DelimitedId<N>> for ArcDelimitedId<N> {
    fn from(value: DelimitedId<N>) -> (r: Self)
        ensures
            r@ == value@,
    {
        ArcDelimitedId { inner: Arc::new(value) }
    }
}

impl<const N: usize> vstd::std_specs::convert::FromSpecImpl<DelimitedId<N>> for ArcDelimitedId<N> {
    open spec fn obeys_from_spec() -> bool {
        true
    }

    closed spec fn from_spec(value: DelimitedId<N>) -> Self {
        ArcDelimitedId { inner: Arc::new(value) }
    }
}

/// A shared [`IdComponent`].
pub type ArcIdComponent = ArcDelimitedId<1>;

/// A shared [`NamespacedId`].
pub type ArcNamespacedId = ArcDelimitedId<2>;

/// A shared [`OperationId`].
pub type ArcOperationId = ArcDelimitedId<3>;

} // verus!

//! Loosely checked namespaced ids, `<namespace>:<id>`: a string with exactly one separator
//! and no ASCII whitespace. The other characters are not checked, but a string whose first
//! non-ASCII byte comes before any whitespace lies outside the contracts of this module
//! (see [`validation_stalls`]); so every loose id is in fact ASCII.
use vstd::prelude::*;
use vstd::string::StringSliceAdditionalSpecFns;

use crate::components::{lemma_split_at_single_separator, split_components};
use crate::text::{
    all_ascii, box_from_str, box_from_string, bytes_equal, concat, lemma_ascii_char_boundaries,
    lemma_colon_bytes, prefix, suffix, utf8_bytes,
};
use crate::validation::{lemma_separator_count_step, separator_count, SEPARATOR};

verus! {

/// An error encountered while parsing a [`NamespacedId`].
#[derive(Clone, Copy, Debug, PartialEq, Eq)]
pub enum ParseError {
    /// The string was empty.
    ExpectedNamespace,
    /// The string had no separator (`:`).
    ExpectedId,
    /// The string had more than one separator; it holds how many.
    TooManySeparators(usize),
    /// The string had ASCII whitespace; it holds the index of the first.
    UnexpectedWhitespace(usize),
}

/// The ASCII characters that are whitespace: tab (9), line feed (10), vertical tab (11),
/// form feed (12), carriage return (13) and space (32).
pub open spec fn is_whitespace_byte(byte: u8) -> bool {
    byte == 9 || byte == 10 || byte == 11 || byte == 12 || byte == 13 || byte == 32
}

/// `i` is the index of the first whitespace byte of `bytes`.
pub open spec fn is_first_whitespace(bytes: Seq<u8>, i: int) -> bool {
    &&& 0 <= i < bytes.len()
    &&& is_whitespace_byte(bytes[i])
    &&& forall|j: int| 0 <= j < i ==> !is_whitespace_byte(#[trigger] bytes[j])
}

/// `bytes` holds a whitespace byte.
pub open spec fn has_whitespace(bytes: Seq<u8>) -> bool {
    exists|i: int| 0 <= i < bytes.len() && is_whitespace_byte(#[trigger] bytes[i])
}

/// `bytes` meets a non-ASCII byte before any whitespace. A scan that stops at whitespace and
/// never moves past a non-ASCII byte would not return on such bytes; they lie outside the
/// `requires` of every function of this module that validates.
pub open spec fn validation_stalls(bytes: Seq<u8>) -> bool {
    exists|i: int|
        0 <= i < bytes.len() && #[trigger] bytes[i] >= 128 && forall|j: int|
            0 <= j < i ==> !is_whitespace_byte(#[trigger] bytes[j])
}

/// What validating `bytes` as a loose namespaced id gives: the index of its first whitespace
/// if it has one, else which of no, one or several separators it holds.
pub open spec fn spec_validate_loose(bytes: Seq<u8>) -> Result<(), ParseError> {
    if has_whitespace(bytes) {
        Err(ParseError::UnexpectedWhitespace((choose|i: int| is_first_whitespace(bytes, i)) as usize))
    } else if separator_count(bytes) == 0 {
        if bytes.len() == 0 {
            Err(ParseError::ExpectedNamespace)
        } else {
            Err(ParseError::ExpectedId)
        }
    } else if separator_count(bytes) == 1 {
        Ok(())
    } else {
        Err(ParseError::TooManySeparators(separator_count(bytes) as usize))
    }
}

/// `bytes` is a loose namespaced id.
pub open spec fn is_loose_id(bytes: Seq<u8>) -> bool {
    spec_validate_loose(bytes) is Ok && !validation_stalls(bytes)
}

/// There is one first whitespace byte: the one that `spec_validate_loose` reports.
proof fn lemma_first_whitespace_unique(bytes: Seq<u8>, i: int)
    requires
        is_first_whitespace(bytes, i),
    ensures
        has_whitespace(bytes),
        (choose|k: int| is_first_whitespace(bytes, k)) == i,
{
    assert(is_whitespace_byte(bytes[i]));
    let k = choose|k: int| is_first_whitespace(bytes, k);
    assert(is_first_whitespace(bytes, k));
    if k < i {
        assert(!is_whitespace_byte(bytes[k]));
    } else if i < k {
        assert(!is_whitespace_byte(bytes[i]));
    }
}

/// A loose id is made of ASCII bytes.
proof fn lemma_loose_id_ascii(bytes: Seq<u8>)
    requires
        is_loose_id(bytes),
    ensures
        all_ascii(bytes),
{
    assert forall|i: int| 0 <= i < bytes.len() implies #[trigger] bytes[i] < 128 by {
        if bytes[i] >= 128 {
            assert forall|j: int| 0 <= j < i implies !is_whitespace_byte(#[trigger] bytes[j]) by {
                if is_whitespace_byte(bytes[j]) {
                    assert(has_whitespace(bytes));
                }
            }
            assert(validation_stalls(bytes));
        }
    }
}

/// Checks that `string` is `<namespace>:<id>` with no ASCII whitespace.
fn validate(string: &str) -> (r: Result<(), ParseError>)
    requires
        !validation_stalls(string.spec_bytes()),
    ensures
        r == spec_validate_loose(string.spec_bytes()),
{
    let bytes = string.as_bytes();
    let ghost seq = bytes@;
    let mut i: usize = 0;
    let mut separators_found: usize = 0;
    while i < bytes.len()
        invariant
            seq == bytes@,
            seq == string.spec_bytes(),
            0 <= i <= seq.len(),
            separators_found == separator_count(seq.take(i as int)),
            separators_found <= i,
            forall|j: int| 0 <= j < i ==> !is_whitespace_byte(#[trigger] seq[j]),
        decreases seq.len() - i,
    {
        let byte = bytes[i];
        proof {
            lemma_separator_count_step(seq, i as int);
        }
        if byte == SEPARATOR {
            separators_found += 1;
        } else if byte == 9 || byte == 10 || byte == 11 || byte == 12 || byte == 13 || byte == 32 {
            proof {
                lemma_first_whitespace_unique(seq, i as int);
            }
            return Err(ParseError::UnexpectedWhitespace(i));
        }
        i += 1;
    }
    proof {
        assert(seq.take(seq.len() as int) =~= seq);
        assert(!has_whitespace(seq));
    }
    if separators_found == 0 {
        if bytes.len() == 0 {
            Err(ParseError::ExpectedNamespace)
        } else {
            Err(ParseError::ExpectedId)
        }
    } else if separators_found == 1 {
        Ok(())
    } else {
        Err(ParseError::TooManySeparators(separators_found))
    }
}

/// A reference to a [`NamespacedId`], akin to a `&str`.
#[derive(Clone, Copy, Debug, Hash, PartialOrd, Ord)]
pub struct NamespacedIdRef<'a> {
    inner: &'a str,
}

impl<'a> View for NamespacedIdRef<'a> {
    type V = Seq<u8>;

    /// The UTF-8 bytes of the id.
    closed spec fn view(&self) -> Seq<u8> {
        self.inner.spec_bytes()
    }
}

impl<'a> NamespacedIdRef<'a> {
    #[verifier::type_invariant]
    closed spec fn is_valid(self) -> bool {
        is_loose_id(self.inner.spec_bytes())
    }

    /// Gets the string representation of this id.
    #[must_use]
    pub fn as_str(self) -> (r: &'a str)
        ensures
            r.spec_bytes() == self@,
            is_loose_id(self@),
    {
        proof {
            use_type_invariant(self);
        }
        self.inner
    }

    /// Losslessly converts `string` into a [`NamespacedIdRef`], or returns [`Err`] if it is
    /// not `<namespace>:<id>` without whitespace.
    pub fn try_from_str(string: &'a str) -> (r: Result<Self, ParseError>)
        requires
            !validation_stalls(string.spec_bytes()),
        ensures
            match spec_validate_loose(string.spec_bytes()) {
                Ok(()) => r matches Ok(id) && id@ == string.spec_bytes(),
                Err(e) => r == Err::<Self, ParseError>(e),
            },
    {
        if let Err(err) = validate(string) {
            return Err(err);
        }
        Ok(Self::from_str_unchecked(string))
    }

    /// Converts `string`, which must already be a loose id, into a [`NamespacedIdRef`] without
    /// checking it again.
    #[must_use]
    pub fn from_str_unchecked(string: &'a str) -> (r: Self)
        requires
            is_loose_id(string.spec_bytes()),
        ensures
            r@ == string.spec_bytes(),
    {
        NamespacedIdRef { inner: string }
    }

    /// Returns the portion of the id before the colon.
    #[must_use]
    pub fn namespace(self) -> (r: &'a str)
        ensures
            r.spec_bytes() == split_components(self@)[0],
    {
        proof {
            use_type_invariant(self);
            lemma_loose_id_ascii(self@);
            lemma_ascii_char_boundaries(self.inner);
        }
        let namespace_len = self.namespace_len();
        prefix(self.inner, namespace_len)
    }

    /// Returns the portion of the id after the colon.
    #[must_use]
    pub fn id(self) -> (r: &'a str)
        ensures
            r.spec_bytes() == split_components(self@)[1],
    {
        proof {
            use_type_invariant(self);
            lemma_loose_id_ascii(self@);
            lemma_ascii_char_boundaries(self.inner);
        }
        let namespace_len = self.namespace_len();
        suffix(self.inner, namespace_len + 1)
    }

    /// The length of the namespace: the index of the colon.
    fn namespace_len(self) -> (r: usize)
        ensures
            r < self@.len() <= usize::MAX,
            self@.subrange(0, r as int) == split_components(self@)[0],
            self@.subrange(r + 1, self@.len() as int) == split_components(self@)[1],
    {
        proof {
            use_type_invariant(self);
        }
        let bytes = self.inner.as_bytes();
        let ghost seq = bytes@;
        let mut i: usize = 0;
        while i < bytes.len()
            invariant
                seq == bytes@,
                seq == self@,
                separator_count(seq) == 1,
                0 <= i <= seq.len(),
                separator_count(seq.take(i as int)) == 0,
            decreases seq.len() - i,
        {
            proof {
                lemma_separator_count_step(seq, i as int);
            }
            if bytes[i] == SEPARATOR {
                proof {
                    lemma_split_at_single_separator(seq, i as int);
                }
                return i;
            }
            i += 1;
        }
        // Not reached: the id holds a separator, which the loop returns at.
        proof {
            assert(seq.take(seq.len() as int) =~= seq);
        }
        i
    }

    /// Copies this id into an owned [`NamespacedId`].
    #[must_use]
    pub fn to_owned(self) -> (r: NamespacedId)
        ensures
            r@ == self@,
    {
        proof {
            use_type_invariant(self);
        }
        NamespacedId { inner: box_from_str(self.inner) }
    }
}

impl<'a> PartialEq for NamespacedIdRef<'a> {
    fn eq(&self, other: &Self) -> (r: bool) {
        bytes_equal(self.inner.as_bytes(), other.inner.as_bytes())
    }
}

impl<'a> vstd::std_specs::cmp::PartialEqSpecImpl for NamespacedIdRef<'a> {
    open spec fn obeys_eq_spec() -> bool {
        true
    }

    open spec fn eq_spec(&self, other: &Self) -> bool {
        self@ == other@
    }
}

impl<'a> Eq for NamespacedIdRef<'a> {

}

/// An owned id that is prefixed with a namespace, like `<namespace>:<id>`.
#[derive(Debug, Hash, PartialOrd, Ord)]
pub struct NamespacedId {
    inner: Box<str>,
}

impl View for NamespacedId {
    type V = Seq<u8>;

    /// The UTF-8 bytes of the id.
    closed spec fn view(&self) -> Seq<u8> {
        utf8_bytes(self.inner@)
    }
}

impl NamespacedId {
    #[verifier::type_invariant]
    closed spec fn is_valid(self) -> bool {
        is_loose_id(utf8_bytes(self.inner@))
    }

    /// Gets the string representation of this id.
    #[must_use]
    pub fn as_str(&self) -> (r: &str)
        ensures
            r.spec_bytes() == self@,
            is_loose_id(self@),
    {
        proof {
            use_type_invariant(self);
        }
        &self.inner
    }

    /// Borrows this id as a [`NamespacedIdRef`].
    #[must_use]
    pub fn as_id_ref(&self) -> (r: NamespacedIdRef<'_>)
        ensures
            r@ == self@,
    {
        NamespacedIdRef::from_str_unchecked(self.as_str())
    }

    /// Creates a new [`NamespacedId`] of `namespace`, a colon, and `id`.
    ///
    /// # Errors
    ///
    /// - The errors of validating the joined string.
    pub fn try_new(namespace: &str, id: &str) -> (r: Result<Self, ParseError>)
        requires
            !validation_stalls(namespace.spec_bytes() + seq![SEPARATOR] + id.spec_bytes()),
        ensures
            match spec_validate_loose(namespace.spec_bytes() + seq![SEPARATOR] + id.spec_bytes()) {
                Ok(()) => r matches Ok(joined) && joined@ == namespace.spec_bytes() + seq![
                    SEPARATOR,
                ] + id.spec_bytes(),
                Err(e) => r == Err::<Self, ParseError>(e),
            },
    {
        let colon = ":";
        proof {
            reveal_strlit(":");
            assert(colon@ =~= seq![':']);
            lemma_colon_bytes(colon);
        }
        let front = concat(namespace, colon);
        let string = concat(front.as_str(), id);
        Self::try_from_box(box_from_string(string))
    }

    /// Creates a new [`NamespacedId`] from a [`Box<str>`].
    ///
    /// # Errors
    ///
    /// - The errors of validating `string`.
    pub fn try_from_box(string: Box<str>) -> (r: Result<Self, ParseError>)
        requires
            !validation_stalls(utf8_bytes(string@)),
        ensures
            match spec_validate_loose(utf8_bytes(string@)) {
                Ok(()) => r matches Ok(id) && id@ == utf8_bytes(string@),
                Err(e) => r == Err::<Self, ParseError>(e),
            },
    {
        validate(&string)?;
        Ok(Self::from_box_unchecked(string))
    }

    /// Creates a new [`NamespacedId`] by allocating a [`&str`].
    ///
    /// # Errors
    ///
    /// - The errors of validating `string`.
    pub fn try_from_str(string: &str) -> (r: Result<Self, ParseError>)
        requires
            !validation_stalls(string.spec_bytes()),
        ensures
            match spec_validate_loose(string.spec_bytes()) {
                Ok(()) => r matches Ok(id) && id@ == string.spec_bytes(),
                Err(e) => r == Err::<Self, ParseError>(e),
            },
    {
        validate(string)?;
        Ok(Self::from_box_unchecked(box_from_str(string)))
    }

    /// Converts `string`, which must already be a loose id, into a [`NamespacedId`] without
    /// checking it again.
    #[must_use]
    pub fn from_box_unchecked(string: Box<str>) -> (r: Self)
        requires
            is_loose_id(utf8_bytes(string@)),
        ensures
            r@ == utf8_bytes(string@),
    {
        NamespacedId { inner: string }
    }
}

impl PartialEq for NamespacedId {
    fn eq(&self, other: &Self) -> (r: bool) {
        bytes_equal(self.as_str().as_bytes(), other.as_str().as_bytes())
    }
}

impl vstd::std_specs::cmp::PartialEqSpecImpl for NamespacedId {
    open spec fn obeys_eq_spec() -> bool {
        true
    }

    open spec fn eq_spec(&self, other: &Self) -> bool {
        self@ == other@
    }
}

impl Eq for NamespacedId {

}

/// Every id can be read as the string that spells it.
impl<'a> AsRef<str> for NamespacedIdRef<'a> {
    fn as_ref(&self) -> (r: &str)
        ensures
            <str as StringSliceAdditionalSpecFns>::spec_bytes(r) == self@,
    {
        self.as_str()
    }
}

impl<'a> std::borrow::Borrow<str> for NamespacedIdRef<'a> {
    fn borrow(&self) -> (r: &str)
        ensures
            <str as StringSliceAdditionalSpecFns>::spec_bytes(r) == self@,
    {
        self.as_str()
    }
}

impl AsRef<str> for NamespacedId {
    fn as_ref(&self) -> (r: &str)
        ensures
            <str as StringSliceAdditionalSpecFns>::spec_bytes(r) == self@,
    {
        self.as_str()
    }
}

impl std::borrow::Borrow<str> for NamespacedId {
    fn borrow(&self) -> (r: &str)
        ensures
            <str as StringSliceAdditionalSpecFns>::spec_bytes(r) == self@,
    {
        self.as_str()
    }
}

/// Copying a borrowed id into an owned one.
impl<'a> From<NamespacedIdRef<'a>> for NamespacedId {
    fn from(value: NamespacedIdRef<'a>) -> (r: Self)
        ensures
            r@ == value@,
    {
        value.to_owned()
    }
}

/// The owned id that a conversion gives is only known by its bytes: another allocation with
/// the same bytes is as good, so no single spec value is named for it.
impl<'a> vstd::std_specs::convert::FromSpecImpl<NamespacedIdRef<'a>> for NamespacedId {
    open spec fn obeys_from_spec() -> bool {
        false
    }

    closed spec fn from_spec(value: NamespacedIdRef<'a>) -> Self {
        choose|owned: Self| owned@ == value@
    }
}

impl Clone for NamespacedId {
    fn clone(&self) -> (r: Self)
        ensures
            r@ == self@,
    {
        self.as_id_ref().to_owned()
    }
}

} // verus!

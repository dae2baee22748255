use namespaced_id::loose::{NamespacedId, NamespacedIdRef, ParseError};

#[test]
fn lib_roundtrip_check() {
    assert_eq!(
        Ok("namespace:id"),
        NamespacedIdRef::try_from_str("namespace:id").map(NamespacedIdRef::as_str)
    );
}

#[test]
fn lib_expected_namespace_error() {
    assert_eq!(
        Err(ParseError::ExpectedNamespace),
        NamespacedIdRef::try_from_str("")
    );
}

#[test]
fn lib_expected_id_error() {
    assert_eq!(
        Err(ParseError::ExpectedId),
        NamespacedIdRef::try_from_str("a")
    );
}

#[test]
fn lib_too_many_separators_error() {
    assert_eq!(
        Err(ParseError::TooManySeparators(2)),
        NamespacedIdRef::try_from_str("a:b:c")
    );
}

#[test]
fn lib_unexpected_whitespace_error() {
    assert_eq!(
        Err(ParseError::UnexpectedWhitespace(4)),
        NamespacedIdRef::try_from_str("name space:id")
    );
}

#[test]
fn lib_extract_namespace() {
    assert_eq!(
        "namespace",
        NamespacedIdRef::try_from_str("namespace:id").unwrap().namespace()
    );
}

#[test]
fn lib_extract_id() {
    assert_eq!(
        "id",
        NamespacedIdRef::try_from_str("namespace:id").unwrap().id()
    );
}

#[test]
fn lib_empty_namespace_and_id() {
    match NamespacedIdRef::try_from_str(":") {
        Ok(id) => {
            assert_eq!("", id.namespace());
            assert_eq!("", id.id());
        }
        Err(err) => {
            panic!("{err:?}");
        }
    }
}

#[test]
fn lib_owned_roundtrip() {
    assert_eq!(
        "namespace:id",
        NamespacedIdRef::try_from_str("namespace:id").unwrap().to_owned().as_str()
    );
}

#[test]
fn try_new() {
    match NamespacedId::try_new("namespace", "id") {
        Ok(id) => {
            assert_eq!("namespace:id", id);
        }
        Err(err) => {
            panic!("{err:?}");
        }
    }
}

#[test]
fn loose_ids_accept_other_ascii_characters() {
    let id = NamespacedIdRef::try_from_str("Name.Space:I!d#").unwrap();
    assert_eq!("Name.Space", id.namespace());
    assert_eq!("I!d#", id.id());
}

#[test]
fn loose_whitespace_kinds() {
    assert_eq!(
        Err(ParseError::UnexpectedWhitespace(1)),
        NamespacedIdRef::try_from_str("a\tb:c")
    );
    assert_eq!(
        Err(ParseError::UnexpectedWhitespace(1)),
        NamespacedIdRef::try_from_str("a\u{b}b:c")
    );
    assert_eq!(
        Err(ParseError::UnexpectedWhitespace(3)),
        NamespacedIdRef::try_from_str("a:b\n")
    );
    assert_eq!(
        Err(ParseError::UnexpectedWhitespace(1)),
        NamespacedIdRef::try_from_str("a b:\u{e9}")
    );
}

#[test]
fn loose_whitespace_before_separator_count() {
    assert_eq!(
        Err(ParseError::UnexpectedWhitespace(3)),
        NamespacedIdRef::try_from_str("a:b c:d")
    );
}

#[test]
fn loose_try_new_errors() {
    assert_eq!(
        Err(ParseError::TooManySeparators(2)),
        NamespacedId::try_new("a:b", "c")
    );
    assert_eq!(
        Err(ParseError::UnexpectedWhitespace(6)),
        NamespacedId::try_new("a", "bcde f")
    );
    let id = NamespacedId::try_new("", "").unwrap();
    assert_eq!(":", id.as_str());
}

#[test]
fn loose_ids_compare_with_strings() {
    let id = NamespacedIdRef::try_from_str("a:b").unwrap();
    assert_eq!(id, "a:b");
    assert_ne!(id, "a:c");
    assert_eq!(id.to_owned(), "a:b");
}

#[test]
fn loose_owned_parts() {
    let id = NamespacedId::try_from_box(Box::<str>::from("ns:path")).unwrap();
    assert_eq!("ns", id.as_id_ref().namespace());
    assert_eq!("path", id.as_id_ref().id());
    assert_eq!(id.clone(), id);
    assert_eq!(
        Err(ParseError::ExpectedId),
        NamespacedId::try_from_str("nspath")
    );
}

#[test]
fn loose_owned_and_borrowed_ids_compare() {
    let borrowed = NamespacedIdRef::try_from_str("a:b").unwrap();
    let owned = borrowed.to_owned();
    assert_eq!(owned, borrowed);
    assert_eq!(borrowed, owned);
    let as_ref: &str = owned.as_ref();
    assert_eq!("a:b", as_ref);
}

#[test]
fn loose_ids_order_and_convert() {
    let a = NamespacedIdRef::try_from_str("a:b").unwrap();
    let owned = NamespacedId::from(a);
    assert!(a < "b:a");
    assert!(owned > "a:a");
    assert!(*"a:b" == owned);
    assert!(&owned == a);
    assert_eq!("a:b", owned.as_str());
}

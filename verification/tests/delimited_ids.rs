use namespaced_id::{
    validate, ArcDelimitedId, DelimitedId, DelimitedIdRef, IdComponentRef, NamespacedId,
    NamespacedIdRef, OperationId, OperationIdRef, ParseError,
};
use namespaced_id::text::{prefix, substring, suffix};

#[test]
fn roundtrip_check() {
    assert_eq!(
        Ok("namespace:path"),
        NamespacedIdRef::new("namespace:path").map(NamespacedIdRef::as_str)
    );
}

#[test]
fn expected_namespace_error() {
    assert_eq!(
        Err(ParseError::UnexpectedComponentCount(0)),
        NamespacedIdRef::new("")
    );
}

#[test]
fn expected_id_error() {
    assert_eq!(
        Err(ParseError::UnexpectedComponentCount(1)),
        NamespacedIdRef::new("a")
    );
}

#[test]
fn too_many_separators_error() {
    assert_eq!(
        Err(ParseError::UnexpectedComponentCount(3)),
        NamespacedIdRef::new("a:b:c")
    );
}

#[test]
fn unexpected_whitespace_error() {
    assert_eq!(
        Err(ParseError::UnexpectedCharacter(4)),
        NamespacedIdRef::new("name space:path")
    );
}

#[test]
fn extract_namespace() {
    assert_eq!(
        "namespace",
        NamespacedIdRef::new("namespace:path").unwrap().namespace()
    );
}

#[test]
fn extract_id() {
    assert_eq!(
        "path",
        NamespacedIdRef::new("namespace:path").unwrap().path()
    );
}

#[test]
fn empty_namespace_and_id() {
    match NamespacedIdRef::new(":") {
        Ok(id) => {
            assert_eq!("", id.namespace());
            assert_eq!("", id.path());
        }
        Err(err) => {
            panic!("{err:?}");
        }
    }
}

#[test]
fn owned_roundtrip() {
    assert_eq!(
        "namespace:path",
        NamespacedIdRef::new("namespace:path").unwrap().to_owned().as_str()
    );
}

#[test]
fn components_identity() {
    let id = IdComponentRef::new("ident").unwrap();
    let [component] = id.components();

    assert_eq!(id, component);
    assert_eq!("ident", component);
}

#[test]
fn concat() {
    let id = NamespacedIdRef::new("namespace:path").unwrap();

    let [namespace, id] = id.components();
    let id = id.concat(IdComponentRef::new("_suffixed").unwrap());
    let id = NamespacedId::new(namespace, id.as_id_ref());

    assert_eq!("namespace:path_suffixed", id);
}

#[test]
fn empty_id() {
    let id = DelimitedIdRef::<0>::new("")
        .expect("the empty string is a (and the only) valid DelimitedIdRef::<0>");

    // make sure some operations don't panic
    let [] = id.component_end_indicies();
    let [] = id.components();
    assert_eq!("", id.as_str());
}

#[test]
fn empty_id_fails() {
    assert!(DelimitedIdRef::<0>::new("a").is_err());
    assert!(DelimitedIdRef::<0>::new(":").is_err());
    assert!(DelimitedIdRef::<0>::new(" ").is_err());
}

#[test]
fn validate_accepts_allowed_characters() {
    assert_eq!(Ok(()), validate::<2>("a-z_0.9/x:y"));
    assert_eq!(Ok(()), validate::<3>("namespace:path:operation"));
    assert_eq!(Ok(()), validate::<1>("component"));
}

#[test]
fn validate_reports_first_unexpected_character() {
    assert_eq!(
        Err(ParseError::UnexpectedCharacter(3)),
        validate::<2>("ab:C:d e")
    );
    assert_eq!(Err(ParseError::UnexpectedCharacter(0)), validate::<1>("!"));
}

#[test]
fn validate_reports_non_ascii_character() {
    assert_eq!(
        Err(ParseError::UnexpectedCharacter(1)),
        validate::<1>("a\u{e9}")
    );
}

#[test]
fn validate_component_counts() {
    assert_eq!(Ok(()), validate::<0>(""));
    assert_eq!(Ok(()), validate::<1>(""));
    assert_eq!(
        Err(ParseError::UnexpectedComponentCount(0)),
        validate::<3>("")
    );
    assert_eq!(
        Err(ParseError::UnexpectedComponentCount(1)),
        validate::<0>("a")
    );
    assert_eq!(
        Err(ParseError::UnexpectedComponentCount(2)),
        validate::<1>("a:b")
    );
    assert_eq!(
        Err(ParseError::UnexpectedComponentCount(4)),
        validate::<3>(":::")
    );
}

#[test]
fn components_of_operation_id() {
    let id = OperationIdRef::new("namespace:path:operation").unwrap();
    let components = id.components();
    let strs: Vec<&str> = components.iter().map(|c| c.as_str()).collect();
    assert_eq!(vec!["namespace", "path", "operation"], strs);
    assert_eq!([9, 14, 24], id.component_end_indicies());
}

#[test]
fn operation_id_parts() {
    let id = OperationIdRef::new("namespace:path:operation").unwrap();
    assert_eq!("namespace:path", id.namespaced_id().as_str());
    assert_eq!(
        NamespacedIdRef::new("namespace:path").unwrap(),
        id.namespaced_id()
    );
    assert_eq!("namespace", id.namespace().as_str());
    assert_eq!("path", id.path().as_str());
    assert_eq!("operation", id.operation().as_str());
}

#[test]
fn operation_id_with_empty_parts() {
    let id = OperationIdRef::new("::").unwrap();
    assert_eq!(":", id.namespaced_id().as_str());
    assert_eq!("", id.namespace().as_str());
    assert_eq!("", id.path().as_str());
    assert_eq!("", id.operation().as_str());
}

#[test]
fn new_namespaced_id() {
    let id = NamespacedId::new(
        IdComponentRef::new("namespace").unwrap(),
        IdComponentRef::new("path").unwrap(),
    );
    assert_eq!("namespace:path", id.as_str());
    assert_eq!("namespace", id.as_id_ref().namespace().as_str());
    assert_eq!("path", id.as_id_ref().path().as_str());
}

#[test]
fn new_operation_id() {
    let id = OperationId::new(
        IdComponentRef::new("namespace").unwrap(),
        IdComponentRef::new("path").unwrap(),
        IdComponentRef::new("operation").unwrap(),
    );
    assert_eq!("namespace:path:operation", id.as_str());
    assert_eq!("operation", id.as_id_ref().operation().as_str());
}

#[test]
fn components_join_back() {
    let text = "a:bc:d.e";
    let id = OperationIdRef::new(text).unwrap();
    let joined: Vec<&str> = id.components().iter().map(|c| c.as_str()).collect();
    assert_eq!(text, joined.join(":"));
}

#[test]
fn concatenated_components() {
    let a = IdComponentRef::new("ab").unwrap();
    let b = IdComponentRef::new("").unwrap();
    assert_eq!("ab", a.concat(b).as_str());
    assert_eq!("abab", a.concat(a).as_str());
}

#[test]
fn owned_constructors() {
    let from_string = NamespacedId::try_from_string(String::from("a:b")).unwrap();
    let from_box = NamespacedId::try_from_box(Box::<str>::from("a:b")).unwrap();
    let from_str = NamespacedId::try_from_str("a:b").unwrap();
    assert_eq!(from_string, from_box);
    assert_eq!(from_box, from_str);
    assert_eq!(
        Err(ParseError::UnexpectedComponentCount(1)),
        NamespacedId::try_from_str("ab")
    );
    assert_eq!(
        Err(ParseError::UnexpectedCharacter(0)),
        DelimitedId::<1>::try_from_string(String::from("A"))
    );
}

#[test]
fn equality_is_by_content() {
    let a = NamespacedIdRef::new("a:b").unwrap();
    let b = NamespacedIdRef::new("a:c").unwrap();
    assert_ne!(a, b);
    assert_eq!(a, NamespacedIdRef::new("a:b").unwrap());
    assert_eq!(a.to_owned(), a.to_owned().clone());
}

#[test]
fn shared_ids() {
    let owned = NamespacedId::try_from_str("ns:path").unwrap();
    let shared = ArcDelimitedId::from(owned);
    let other = shared.clone();
    assert_eq!(shared, other);
    assert_eq!("ns:path", other.as_str());
    assert_eq!("path", other.as_id_ref().path().as_str());
}

#[test]
fn ids_compare_with_strings() {
    let id = NamespacedIdRef::new("a:b").unwrap();
    assert_eq!(id, "a:b");
    assert_ne!(id, "a:b:c");
    assert_eq!("a:b", id.to_owned());
    assert_ne!(id.to_owned(), "b:a");
}


#[test]
fn substrings_of_non_ascii_strings() {
    assert_eq!(":", substring("\u{e9}:a", 2, 3));
    assert_eq!("\u{e9}", prefix("\u{e9}:a", 2));
    assert_eq!(":a", suffix("\u{e9}:a", 2));
    assert_eq!("", substring("abc", 1, 1));
}

#[test]
fn owned_and_borrowed_ids_compare() {
    let borrowed = NamespacedIdRef::new("a:b").unwrap();
    let owned = borrowed.to_owned();
    assert_eq!(owned, borrowed);
    assert_eq!(borrowed, owned);
    assert_ne!(NamespacedId::try_from_str("a:c").unwrap(), borrowed);
    let as_ref: &str = owned.as_ref();
    assert_eq!("a:b", as_ref);
    let borrowed_str: &str = std::borrow::Borrow::borrow(&borrowed);
    assert_eq!("a:b", borrowed_str);
}

#[test]
fn ids_order_like_their_strings() {
    let a = NamespacedIdRef::new("a:b").unwrap();
    let owned_b = NamespacedId::try_from_str("a:c").unwrap();
    assert!(a < owned_b);
    assert!(owned_b > a);
    assert!(a < "a:ba");
    assert!("a:" < a);
    assert!(*"a:b" == a);
    assert!(a == *"a:b");
    assert!(&owned_b == "a:c");
    assert!(owned_b == &owned_b);
    assert!(&owned_b > a);
    assert_eq!(
        Some(std::cmp::Ordering::Equal),
        owned_b.partial_cmp("a:c")
    );
    assert_eq!(
        Some(std::cmp::Ordering::Less),
        "a:b".partial_cmp(&owned_b)
    );
}

#[test]
fn conversions_between_forms() {
    let borrowed = OperationIdRef::new("x:y:z").unwrap();
    let owned = OperationId::from(borrowed);
    assert_eq!("x:y:z", owned.as_str());
    let shared: ArcDelimitedId<3> = ArcDelimitedId::from(owned);
    assert_eq!("x:y:z", shared.as_str());
}

use ir_tree::ir::{Attribute, Identifier, NamedAttribute, Type};
use ir_tree::Error;

#[test]
fn types_are_read_from_text() {
    assert_eq!(Type::parse("i64"), Some(Type::integer(64)));
    assert_eq!(Type::parse("i1"), Some(Type::integer(1)));
    assert_eq!(Type::parse("i007"), Some(Type::integer(7)));
    assert_eq!(Type::parse("i4294967295"), Some(Type::integer(4294967295)));
    assert_eq!(Type::parse("index"), Some(Type::index()));
}

#[test]
fn what_is_no_type_yields_no_value() {
    assert_eq!(Type::parse(""), None);
    assert_eq!(Type::parse("i"), None);
    assert_eq!(Type::parse("i4294967296"), None);
    assert_eq!(Type::parse("i99999999999999999999999999"), None);
    assert_eq!(Type::parse("i6x"), None);
    assert_eq!(Type::parse("I64"), None);
    assert_eq!(Type::parse("indexx"), None);
    assert_eq!(Type::parse(" i64"), None);
    assert_eq!(Type::parse("i-1"), None);
}

#[test]
fn attributes_are_read_from_text() {
    assert!(matches!(Attribute::parse("unit"), Some(Attribute::Unit)));
    assert!(matches!(
        Attribute::parse("0 : i32"),
        Some(Attribute::Integer(0, Type::Integer(32)))
    ));
    assert!(matches!(
        Attribute::parse("-12 : index"),
        Some(Attribute::Integer(-12, Type::Index))
    ));
    assert!(matches!(
        Attribute::parse("9223372036854775807 : i64"),
        Some(Attribute::Integer(i64::MAX, Type::Integer(64)))
    ));
    assert!(matches!(
        Attribute::parse("-9223372036854775808 : i64"),
        Some(Attribute::Integer(i64::MIN, Type::Integer(64)))
    ));
    assert!(matches!(
        Attribute::parse("i16"),
        Some(Attribute::Type(Type::Integer(16)))
    ));
    match Attribute::parse("\"add\"") {
        Some(Attribute::String(text)) => assert_eq!(text, "add"),
        other => panic!("{:?}", other),
    }
    match Attribute::parse("\"\"") {
        Some(Attribute::String(text)) => assert_eq!(text, ""),
        other => panic!("{:?}", other),
    }
    match Attribute::parse("\"a b : c\"") {
        Some(Attribute::String(text)) => assert_eq!(text, "a b : c"),
        other => panic!("{:?}", other),
    }
}

#[test]
fn what_is_no_attribute_yields_no_value() {
    for text in [
        "",
        "unit ",
        "\"",
        "\"open",
        "\"a\"b\"",
        "0",
        "0 : ",
        "0 :i32",
        "0: i32",
        "0 : i",
        " : i32",
        "- : i32",
        "-",
        "9223372036854775808 : i64",
        "-9223372036854775809 : i64",
        "1 2 : i32",
        "0x10 : i32",
        "(i64, i64) -> i64",
    ] {
        assert!(Attribute::parse(text).is_none(), "{:?}", text);
    }
}

#[test]
fn named_attribute_is_read_from_text() {
    let named = NamedAttribute::new_parsed("value", "0 : i32").unwrap();

    assert_eq!(named.identifier, Identifier::new("value"));
    assert_eq!(named.identifier.as_str(), "value");
    assert!(matches!(
        named.attribute,
        Attribute::Integer(0, Type::Integer(32))
    ));
}

#[test]
fn named_attribute_hands_back_the_text_that_is_no_attribute() {
    assert_eq!(
        NamedAttribute::new_parsed("value", "0 : ").unwrap_err(),
        Error::NamedAttributeParse("0 : ".into())
    );
}

#[test]
fn named_attribute_from_parts_always_succeeds() {
    let named = NamedAttribute::new(Identifier::new("flag"), Attribute::Unit).unwrap();

    assert_eq!(named.identifier, Identifier::new("flag"));
    assert!(matches!(named.attribute, Attribute::Unit));
    let copy = named.clone();
    assert_eq!(copy.identifier, named.identifier);
}

#[test]
fn identifiers_are_equal_by_text() {
    assert_eq!(Identifier::new("foo"), Identifier::new("foo"));
    assert_ne!(Identifier::new("foo"), Identifier::new("bar"));
    assert_eq!(Identifier::new("foo").clone(), Identifier::new("foo"));
}

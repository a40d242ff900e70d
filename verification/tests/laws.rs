use query_params::{assemble, register, FieldDecl, FieldValue, QueryParams, TypeDesc};

fn rendered(decls: Vec<FieldDecl>, values: Vec<FieldValue>) -> String {
    let schema = register(&decls).expect("the declaration is supported");
    let record = schema.bind(values).expect("the values are of the declared shapes");
    record.to_query_params()
}

fn optional_u8() -> TypeDesc {
    TypeDesc::option(TypeDesc::named("u8"))
}

fn pointer_u8() -> TypeDesc {
    TypeDesc::pointer(TypeDesc::named("u8"))
}

/// `^\?[^&]+(&[^&]+)*$`, read off the text.
fn has_query_form(query: &str) -> bool {
    match query.strip_prefix('?') {
        Some(rest) => !rest.is_empty() && rest.split('&').all(|part| !part.is_empty()),
        None => false,
    }
}

#[test]
fn record_without_emitted_fields_is_empty() {
    let decls = vec![
        FieldDecl::new("a", optional_u8()),
        FieldDecl::new("b", pointer_u8()),
        FieldDecl::new("c", TypeDesc::named("String")),
        FieldDecl::new("d", TypeDesc::vec(TypeDesc::named("u8"))),
        FieldDecl::new("e", TypeDesc::Tuple(vec![TypeDesc::named("String")])),
    ];
    let values = vec![
        FieldValue::absent(),
        FieldValue::null(),
        FieldValue::scalar(""),
        FieldValue::Sequence(vec![]),
        FieldValue::Tuple(vec![FieldValue::scalar("")]),
    ];
    assert_eq!(rendered(decls, values), "");
}

#[test]
fn query_has_the_documented_form() {
    let decls = vec![
        FieldDecl::new("a", TypeDesc::named("u8")),
        FieldDecl::new("b", optional_u8()),
        FieldDecl::new("c", TypeDesc::vec(TypeDesc::named("u8"))),
    ];
    let values = vec![
        FieldValue::scalar("1"),
        FieldValue::absent(),
        FieldValue::Sequence(vec![FieldValue::scalar("2"), FieldValue::scalar("3")]),
    ];
    let query = rendered(decls, values);
    assert_eq!(query, "?a=1&c=2,3");
    assert!(has_query_form(&query));
}

#[test]
fn text_that_ends_with_the_separator_leaves_the_form() {
    let query = rendered(
        vec![FieldDecl::new("a", TypeDesc::named("String"))],
        vec![FieldValue::scalar("x&")],
    );
    assert_eq!(query, "?a=x&");
    assert!(!has_query_form(&query));
}

#[test]
fn declared_order_is_kept() {
    let decls = vec![
        FieldDecl::new("zeta", TypeDesc::named("u8")),
        FieldDecl::new("alpha", TypeDesc::named("u8")),
        FieldDecl::new("mid", optional_u8()),
        FieldDecl::new("beta", TypeDesc::named("u8")),
    ];
    let values = vec![
        FieldValue::scalar("3"),
        FieldValue::scalar("2"),
        FieldValue::absent(),
        FieldValue::scalar("1"),
    ];
    assert_eq!(rendered(decls, values), "?zeta=3&alpha=2&beta=1");
}

#[test]
fn absence_and_nullity_look_alike() {
    let with_absent = rendered(
        vec![
            FieldDecl::new("a", TypeDesc::named("u8")),
            FieldDecl::new("x", optional_u8()),
            FieldDecl::new("b", TypeDesc::named("u8")),
        ],
        vec![FieldValue::scalar("1"), FieldValue::absent(), FieldValue::scalar("2")],
    );
    let with_null = rendered(
        vec![
            FieldDecl::new("a", TypeDesc::named("u8")),
            FieldDecl::new("x", pointer_u8()),
            FieldDecl::new("b", TypeDesc::named("u8")),
        ],
        vec![FieldValue::scalar("1"), FieldValue::null(), FieldValue::scalar("2")],
    );
    let without = rendered(
        vec![
            FieldDecl::new("a", TypeDesc::named("u8")),
            FieldDecl::new("b", TypeDesc::named("u8")),
        ],
        vec![FieldValue::scalar("1"), FieldValue::scalar("2")],
    );
    assert_eq!(with_absent, with_null);
    assert_eq!(with_absent, without);
    assert_eq!(without, "?a=1&b=2");
}

#[test]
fn sequence_without_survivors_is_suppressed() {
    let decls = || {
        vec![
            FieldDecl::new("s", TypeDesc::vec(optional_u8())),
            FieldDecl::new("k", TypeDesc::named("u8")),
        ]
    };
    let none_left = vec![
        FieldValue::Sequence(vec![FieldValue::absent(), FieldValue::absent()]),
        FieldValue::scalar("1"),
    ];
    let no_elements = vec![FieldValue::Sequence(vec![]), FieldValue::scalar("1")];
    assert_eq!(rendered(decls(), none_left), "?k=1");
    assert_eq!(rendered(decls(), no_elements), "?k=1");
}

#[test]
fn encoding_twice_gives_the_same_text() {
    let decls = vec![
        FieldDecl::new("a", TypeDesc::named("u8")),
        FieldDecl::new("b", TypeDesc::vec(TypeDesc::named("u8"))),
    ];
    let schema = register(&decls).unwrap();
    let record = schema
        .bind(vec![
            FieldValue::scalar("1"),
            FieldValue::Sequence(vec![FieldValue::scalar("2"), FieldValue::scalar("3")]),
        ])
        .unwrap();
    let first = record.to_query_params();
    let second = record.to_query_params();
    assert_eq!(first, second);
    assert_eq!(assemble(&record), first);
    assert_eq!(*record.value(0), FieldValue::Scalar("1".to_string()));
    assert_eq!(first, "?a=1&b=2,3");
}

#[test]
fn fragment_of_an_emitted_field_is_not_empty() {
    let query = rendered(
        vec![FieldDecl::new("", TypeDesc::named("u8"))],
        vec![FieldValue::scalar("1")],
    );
    assert_eq!(query, "?=1");
}

use query_params::{classify, FieldShape, TypeDesc};

fn leaf() -> TypeDesc {
    TypeDesc::named("u8")
}

fn optional(inner: TypeDesc) -> TypeDesc {
    TypeDesc::option(inner)
}

fn vector(inner: TypeDesc) -> TypeDesc {
    TypeDesc::vec(inner)
}

fn boxed(shape: FieldShape) -> Box<FieldShape> {
    Box::new(shape)
}

#[test]
fn leaf_is_scalar() {
    assert_eq!(classify(&leaf()), FieldShape::Scalar);
    assert_eq!(classify(&TypeDesc::named("Custom")), FieldShape::Scalar);
    assert_eq!(classify(&TypeDesc::applied("Wrapper", leaf(), true)), FieldShape::Scalar);
}

#[test]
fn leaf_that_does_not_render_is_unsupported() {
    assert_eq!(classify(&TypeDesc::opaque("Custom")), FieldShape::Unsupported);
    assert_eq!(classify(&TypeDesc::applied("Wrapper", leaf(), false)), FieldShape::Unsupported);
}

#[test]
fn option_is_optional() {
    assert_eq!(classify(&optional(leaf())), FieldShape::Optional(boxed(FieldShape::Scalar)));
}

#[test]
fn option_is_known_by_name_alone() {
    assert_eq!(
        classify(&TypeDesc::applied("Option", leaf(), true)),
        FieldShape::Optional(boxed(FieldShape::Scalar)),
    );
    assert_eq!(classify(&TypeDesc::named("Option")), FieldShape::Unsupported);
    assert_eq!(classify(&TypeDesc::named("Vec")), FieldShape::Unsupported);
    assert_eq!(classify(&TypeDesc::named("option")), FieldShape::Scalar);
}

#[test]
fn nested_option_is_unsupported() {
    assert_eq!(classify(&optional(optional(leaf()))), FieldShape::Unsupported);
    assert_eq!(classify(&optional(TypeDesc::pointer(optional(leaf())))), FieldShape::Unsupported);
    assert_eq!(
        classify(&optional(TypeDesc::reference(TypeDesc::pointer(optional(leaf()))))),
        FieldShape::Unsupported,
    );
}

#[test]
fn option_of_sequence_of_tuple_and_of_reference() {
    assert_eq!(
        classify(&optional(vector(leaf()))),
        FieldShape::Optional(boxed(FieldShape::Sequence(boxed(FieldShape::Scalar), false))),
    );
    assert_eq!(
        classify(&optional(TypeDesc::Tuple(vec![leaf()]))),
        FieldShape::Optional(boxed(FieldShape::Tuple(vec![FieldShape::Scalar]))),
    );
    assert_eq!(
        classify(&optional(TypeDesc::pointer(leaf()))),
        FieldShape::Optional(boxed(FieldShape::Indirection(boxed(FieldShape::Scalar)))),
    );
}

#[test]
fn sequences_tell_fixed_from_dynamic() {
    assert_eq!(
        classify(&TypeDesc::array(leaf())),
        FieldShape::Sequence(boxed(FieldShape::Scalar), true),
    );
    assert_eq!(
        classify(&TypeDesc::slice(leaf())),
        FieldShape::Sequence(boxed(FieldShape::Scalar), false),
    );
    assert_eq!(classify(&vector(leaf())), FieldShape::Sequence(boxed(FieldShape::Scalar), false));
}

#[test]
fn sequence_elements() {
    assert_eq!(
        classify(&vector(TypeDesc::pointer(leaf()))),
        FieldShape::Sequence(boxed(FieldShape::Indirection(boxed(FieldShape::Scalar))), false),
    );
    assert_eq!(
        classify(&TypeDesc::array(TypeDesc::reference(leaf()))),
        FieldShape::Sequence(boxed(FieldShape::Indirection(boxed(FieldShape::Scalar))), true),
    );
    assert_eq!(
        classify(&vector(optional(leaf()))),
        FieldShape::Sequence(boxed(FieldShape::Optional(boxed(FieldShape::Scalar))), false),
    );
}

#[test]
fn sequence_of_anything_else_is_unsupported() {
    assert_eq!(classify(&vector(vector(leaf()))), FieldShape::Unsupported);
    assert_eq!(classify(&TypeDesc::array(TypeDesc::array(leaf()))), FieldShape::Unsupported);
    assert_eq!(classify(&vector(TypeDesc::Tuple(vec![leaf()]))), FieldShape::Unsupported);
    assert_eq!(
        classify(&vector(TypeDesc::pointer(TypeDesc::pointer(leaf())))),
        FieldShape::Unsupported,
    );
    assert_eq!(classify(&vector(optional(TypeDesc::pointer(leaf())))), FieldShape::Unsupported);
    assert_eq!(classify(&vector(TypeDesc::pointer(optional(leaf())))), FieldShape::Unsupported);
    assert_eq!(classify(&vector(TypeDesc::Other)), FieldShape::Unsupported);
}

#[test]
fn tuple_elements() {
    assert_eq!(
        classify(&TypeDesc::Tuple(vec![leaf(), TypeDesc::pointer(leaf()), TypeDesc::reference(leaf())])),
        FieldShape::Tuple(vec![
            FieldShape::Scalar,
            FieldShape::Indirection(boxed(FieldShape::Scalar)),
            FieldShape::Indirection(boxed(FieldShape::Scalar)),
        ]),
    );
    assert_eq!(classify(&TypeDesc::Tuple(vec![])), FieldShape::Tuple(vec![]));
}

#[test]
fn tuple_of_anything_else_is_unsupported() {
    assert_eq!(classify(&TypeDesc::Tuple(vec![leaf(), optional(leaf())])), FieldShape::Unsupported);
    assert_eq!(classify(&TypeDesc::Tuple(vec![vector(leaf()), leaf()])), FieldShape::Unsupported);
    assert_eq!(
        classify(&TypeDesc::Tuple(vec![TypeDesc::Tuple(vec![leaf()])])),
        FieldShape::Unsupported,
    );
    assert_eq!(
        classify(&TypeDesc::Tuple(vec![TypeDesc::pointer(TypeDesc::pointer(leaf()))])),
        FieldShape::Unsupported,
    );
    assert_eq!(classify(&TypeDesc::Tuple(vec![leaf(), TypeDesc::Other])), FieldShape::Unsupported);
}

#[test]
fn indirections_nest() {
    assert_eq!(
        classify(&TypeDesc::pointer(TypeDesc::reference(TypeDesc::slice(leaf())))),
        FieldShape::Indirection(boxed(FieldShape::Indirection(boxed(FieldShape::Sequence(
            boxed(FieldShape::Scalar),
            false,
        ))))),
    );
    assert_eq!(
        classify(&TypeDesc::pointer(optional(TypeDesc::pointer(leaf())))),
        FieldShape::Indirection(boxed(FieldShape::Optional(boxed(FieldShape::Indirection(
            boxed(FieldShape::Scalar),
        ))))),
    );
}

#[test]
fn indirection_to_unsupported_is_unsupported() {
    assert_eq!(classify(&TypeDesc::pointer(TypeDesc::Other)), FieldShape::Unsupported);
    assert_eq!(classify(&TypeDesc::reference(optional(optional(leaf())))), FieldShape::Unsupported);
    assert_eq!(classify(&TypeDesc::Other), FieldShape::Unsupported);
}

#[test]
fn classified_shapes_are_supported() {
    let supported = [
        leaf(),
        optional(vector(optional(leaf()))),
        TypeDesc::pointer(TypeDesc::Tuple(vec![leaf(), TypeDesc::pointer(leaf())])),
    ];
    for ty in supported.iter() {
        assert!(classify(ty).is_supported());
    }
    assert!(!classify(&vector(vector(leaf()))).is_supported());
}

#[test]
fn shapes_made_by_hand() {
    let nested = FieldShape::Optional(boxed(FieldShape::Optional(boxed(FieldShape::Scalar))));
    assert!(!nested.is_supported());
    let hidden = FieldShape::Optional(boxed(FieldShape::Indirection(boxed(FieldShape::Optional(
        boxed(FieldShape::Scalar),
    )))));
    assert!(!hidden.is_supported());
    assert!(FieldShape::Indirection(boxed(FieldShape::Optional(boxed(FieldShape::Scalar))))
        .wraps_optional());
    assert!(!FieldShape::Indirection(boxed(FieldShape::Scalar)).wraps_optional());
    assert!(FieldShape::Indirection(boxed(FieldShape::Scalar)).is_scalar_like());
    assert!(!FieldShape::Optional(boxed(FieldShape::Scalar)).is_scalar_like());
    assert!(FieldShape::Optional(boxed(FieldShape::Scalar)).is_element());
    assert!(!FieldShape::Sequence(boxed(FieldShape::Scalar), true).is_element());
    assert!(!FieldShape::Sequence(boxed(FieldShape::Sequence(boxed(FieldShape::Scalar), true)), true)
        .is_supported());
    assert!(!FieldShape::Tuple(vec![FieldShape::Unsupported]).is_supported());
}

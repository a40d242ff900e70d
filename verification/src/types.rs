//! Declared types: what a record's declaration says of a field's type, as far
//! as classification reads it.

use vstd::prelude::*;
use vstd::string::StringExecFns;

verus! {

/// The mathematical model of a declared type.
#[verifier::ext_equal]
pub enum TypeModel {
    /// A type written by name, with its leading type argument if it has one,
    /// and whether values of the type render as text.
    Named { name: Seq<char>, argument: Option<Box<TypeModel>>, renders: bool },
    /// A statically sized array of the given element type.
    Array(Box<TypeModel>),
    /// A dynamically sized slice of the given element type.
    Slice(Box<TypeModel>),
    /// A tuple of the given element types, in order.
    Tuple(Seq<TypeModel>),
    /// A raw pointer to the given type; it may be null.
    Pointer(Box<TypeModel>),
    /// A reference to the given type.
    Reference(Box<TypeModel>),
    /// Any other form of type.
    Other,
}

/// A declared type, as whoever registers a record type hands it over.
///
/// Only what classification reads is kept: the form of the type, for a type
/// written by name the name it begins with and its leading type argument,
/// and for a leaf whether its values render as text.
#[derive(Debug, PartialEq, Eq)]
pub enum TypeDesc {
    /// A type written by name: `u8`, `String`, `Option<T>`, `Vec<T>`, a type
    /// of the caller's own.
    Named { name: String, argument: Option<Box<TypeDesc>>, renders: bool },
    /// `[T; N]`.
    Array(Box<TypeDesc>),
    /// `[T]`.
    Slice(Box<TypeDesc>),
    /// `(A, B, ..)`.
    Tuple(Vec<TypeDesc>),
    /// `*const T` or `*mut T`.
    Pointer(Box<TypeDesc>),
    /// `&T` or `&mut T`.
    Reference(Box<TypeDesc>),
    /// Any other form of type.
    Other,
}

/// The models of a run of declared types, position by position.
pub open spec fn type_models(types: Seq<TypeDesc>) -> Seq<TypeModel>
    decreases types,
{
    Seq::new(
        types.len(),
        |i: int|
            if 0 <= i < types.len() {
                types[i].model()
            } else {
                TypeModel::Other
            },
    )
}

impl TypeDesc {
    /// The model of this declared type.
    pub open spec fn model(&self) -> TypeModel
        decreases self,
    {
        match self {
            TypeDesc::Named { name, argument, renders } => TypeModel::Named {
                name: name@,
                argument: match argument {
                    Some(inner) => Some(Box::new(inner.model())),
                    None => None,
                },
                renders: *renders,
            },
            TypeDesc::Array(element) => TypeModel::Array(Box::new(element.model())),
            TypeDesc::Slice(element) => TypeModel::Slice(Box::new(element.model())),
            TypeDesc::Tuple(elements) => TypeModel::Tuple(type_models(elements@)),
            TypeDesc::Pointer(target) => TypeModel::Pointer(Box::new(target.model())),
            TypeDesc::Reference(target) => TypeModel::Reference(Box::new(target.model())),
            TypeDesc::Other => TypeModel::Other,
        }
    }

    /// A type written by name alone, whose values render as text.
    pub fn named(name: &str) -> (ty: TypeDesc)
        ensures
            ty@ == (TypeModel::Named { name: name@, argument: None, renders: true }),
    {
        TypeDesc::Named { name: String::from_str(name), argument: None, renders: true }
    }

    /// A type written by name alone, whose values do not render as text.
    pub fn opaque(name: &str) -> (ty: TypeDesc)
        ensures
            ty@ == (TypeModel::Named { name: name@, argument: None, renders: false }),
    {
        TypeDesc::Named { name: String::from_str(name), argument: None, renders: false }
    }

    /// A type written by name with a leading type argument, such as
    /// `Option<T>` or `Vec<T>`.
    pub fn applied(name: &str, argument: TypeDesc, renders: bool) -> (ty: TypeDesc)
        ensures
            ty@ == (TypeModel::Named {
                name: name@,
                argument: Some(Box::new(argument@)),
                renders,
            }),
    {
        TypeDesc::Named {
            name: String::from_str(name),
            argument: Some(Box::new(argument)),
            renders,
        }
    }

    /// The optional type `Option<T>` of the given content type.
    pub fn option(content: TypeDesc) -> (ty: TypeDesc)
        ensures
            ty@ == (TypeModel::Named {
                name: "Option"@,
                argument: Some(Box::new(content@)),
                renders: false,
            }),
    {
        TypeDesc::Named {
            name: String::from_str("Option"),
            argument: Some(Box::new(content)),
            renders: false,
        }
    }

    /// The list type `Vec<T>` of the given element type.
    pub fn vec(element: TypeDesc) -> (ty: TypeDesc)
        ensures
            ty@ == (TypeModel::Named {
                name: "Vec"@,
                argument: Some(Box::new(element@)),
                renders: false,
            }),
    {
        TypeDesc::Named {
            name: String::from_str("Vec"),
            argument: Some(Box::new(element)),
            renders: false,
        }
    }

    /// The array type `[T; N]` of the given element type.
    pub fn array(element: TypeDesc) -> (ty: TypeDesc)
        ensures
            ty@ == TypeModel::Array(Box::new(element@)),
    {
        TypeDesc::Array(Box::new(element))
    }

    /// The slice type `[T]` of the given element type.
    pub fn slice(element: TypeDesc) -> (ty: TypeDesc)
        ensures
            ty@ == TypeModel::Slice(Box::new(element@)),
    {
        TypeDesc::Slice(Box::new(element))
    }

    /// The raw pointer type to the given type.
    pub fn pointer(target: TypeDesc) -> (ty: TypeDesc)
        ensures
            ty@ == TypeModel::Pointer(Box::new(target@)),
    {
        TypeDesc::Pointer(Box::new(target))
    }

    /// The reference type to the given type.
    pub fn reference(target: TypeDesc) -> (ty: TypeDesc)
        ensures
            ty@ == TypeModel::Reference(Box::new(target@)),
    {
        TypeDesc::Reference(Box::new(target))
    }
}

impl View for TypeDesc {
    type V = TypeModel;

    open spec fn view(&self) -> TypeModel {
        self.model()
    }
}

} // verus!

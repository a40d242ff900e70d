//! Registration of a record type, and the records of a registered type.

use vstd::prelude::*;
use vstd::string::StringExecFns;
use crate::classify::{classify, shape_of};
use crate::shape::{FieldShape, ShapeModel};
use crate::types::TypeDesc;
use crate::value::{admits, conforms, value_models, FieldValue, ValueModel};

verus! {

/// One field of a record's declaration: its name and its declared type.
#[derive(Debug, PartialEq, Eq)]
pub struct FieldDecl {
    pub name: String,
    pub ty: TypeDesc,
}

impl FieldDecl {
    /// The declaration of a field of the given name and declared type.
    pub fn new(name: &str, ty: TypeDesc) -> (decl: FieldDecl)
        ensures
            decl.name@ == name@,
            decl.ty == ty,
    {
        FieldDecl { name: String::from_str(name), ty }
    }
}

/// A record type could not be registered: a field's declared type has no
/// supported shape.
#[derive(Debug, PartialEq, Eq)]
pub struct SchemaError {
    /// The name of the offending field.
    pub field: String,
}

/// The model of a registered field: its name and its shape.
pub struct FieldModel {
    pub name: Seq<char>,
    pub shape: ShapeModel,
}

/// The model of a field of a record: its name, its shape and its value.
pub struct EntryModel {
    pub name: Seq<char>,
    pub shape: ShapeModel,
    pub value: ValueModel,
}

/// Whether the declaration at the given index cannot be registered.
pub open spec fn rejected(decls: Seq<FieldDecl>, index: int) -> bool {
    0 <= index < decls.len() && shape_of(decls[index].ty@) is Unsupported
}

/// The fields that a declaration registers, in declared order.
pub open spec fn registered(decls: Seq<FieldDecl>) -> Seq<FieldModel> {
    Seq::new(
        decls.len(),
        |i: int| FieldModel { name: decls[i].name@, shape: shape_of(decls[i].ty@) },
    )
}

/// Whether every field has a supported shape.
pub open spec fn all_supported(fields: Seq<FieldModel>) -> bool {
    forall|i: int| 0 <= i < fields.len() ==> (#[trigger] fields[i]).shape.supported()
}

/// Whether the values are, one for one, of the shapes of the fields.
pub open spec fn admits_all(fields: Seq<FieldModel>, values: Seq<ValueModel>) -> bool {
    values.len() == fields.len() && forall|i: int|
        0 <= i < fields.len() ==> admits((#[trigger] fields[i]).shape, values[i])
}

/// The fields of a record, from the fields of its type and their values.
pub open spec fn entries(fields: Seq<FieldModel>, values: Seq<ValueModel>) -> Seq<EntryModel> {
    Seq::new(
        fields.len(),
        |i: int| EntryModel { name: fields[i].name, shape: fields[i].shape, value: values[i] },
    )
}

/// A registered field.
struct FieldSpec {
    name: String,
    shape: FieldShape,
}

/// A registered record type: its fields in declared order, each with a
/// supported shape.
pub struct Schema {
    fields: Vec<FieldSpec>,
}

impl View for Schema {
    type V = Seq<FieldModel>;

    closed spec fn view(&self) -> Seq<FieldModel> {
        Seq::new(
            self.fields.len() as nat,
            |i: int| FieldModel { name: self.fields[i].name@, shape: self.fields[i].shape@ },
        )
    }
}

impl Schema {
    #[verifier::type_invariant]
    spec fn well_formed(self) -> bool {
        all_supported(self@)
    }

    /// The number of fields.
    pub fn len(&self) -> (n: usize)
        ensures
            n == self@.len(),
            all_supported(self@),
    {
        proof {
            use_type_invariant(self);
        }
        self.fields.len()
    }

    /// The name of the field at the given index.
    pub fn name(&self, index: usize) -> (name: &String)
        requires
            index < self@.len(),
        ensures
            name@ == self@[index as int].name,
    {
        &self.fields[index].name
    }

    /// The shape of the field at the given index.
    pub fn shape(&self, index: usize) -> (shape: &FieldShape)
        requires
            index < self@.len(),
        ensures
            shape@ == self@[index as int].shape,
            shape@.supported(),
    {
        proof {
            use_type_invariant(self);
        }
        &self.fields[index].shape
    }

    /// Makes a record of this type from the values of its fields, in declared
    /// order: `None` when the values are not of the shapes of the fields.
    pub fn bind(&self, values: Vec<FieldValue>) -> (record: Option<Record<'_>>)
        ensures
            record is Some <==> admits_all(self@, value_models(values@)),
            record matches Some(record) ==> record@ == entries(self@, value_models(values@)),
    {
        if values.len() != self.fields.len() {
            return None;
        }
        let mut i: usize = 0;
        while i < values.len()
            invariant
                i <= values.len(),
                values.len() == self.fields.len(),
                forall|k: int|
                    0 <= k < i ==> admits((#[trigger] self@[k]).shape, value_models(values@)[k]),
            decreases values.len() - i,
        {
            if !conforms(&self.fields[i].shape, &values[i]) {
                assert(!admits(self@[i as int].shape, value_models(values@)[i as int]));
                return None;
            }
            i += 1;
        }
        Some(Record { schema: self, values })
    }
}

/// Registers a record type from its declaration. Every field must classify to
/// a supported shape; the error names the first field that does not.
pub fn register(decls: &Vec<FieldDecl>) -> (outcome: Result<Schema, SchemaError>)
    ensures
        match outcome {
            Ok(schema) => {
                &&& forall|i: int| !rejected(decls@, i)
                &&& schema@ == registered(decls@)
            },
            Err(error) => exists|i: int|
                {
                    &&& #[trigger] rejected(decls@, i)
                    &&& forall|j: int| 0 <= j < i ==> !rejected(decls@, j)
                    &&& error.field@ == decls[i].name@
                },
        },
{
    let mut fields: Vec<FieldSpec> = Vec::new();
    let mut i: usize = 0;
    while i < decls.len()
        invariant
            i <= decls.len(),
            fields.len() == i,
            forall|k: int| 0 <= k < i ==> !rejected(decls@, k),
            forall|k: int|
                0 <= k < i ==> (#[trigger] fields[k]).name@ == decls[k].name@ && fields[k].shape@
                    == shape_of(decls[k].ty@) && fields[k].shape@.supported(),
        decreases decls.len() - i,
    {
        let shape = classify(&decls[i].ty);
        match shape {
            FieldShape::Unsupported => {
                assert(rejected(decls@, i as int));
                return Err(SchemaError { field: decls[i].name.clone() });
            },
            _ => {},
        }
        fields.push(FieldSpec { name: decls[i].name.clone(), shape });
        i += 1;
    }
    let schema = Schema { fields };
    assert(schema@ =~= registered(decls@));
    Ok(schema)
}

/// A record of a registered type: the values of its fields, each of the shape
/// of its field.
pub struct Record<'a> {
    schema: &'a Schema,
    values: Vec<FieldValue>,
}

impl<'a> View for Record<'a> {
    type V = Seq<EntryModel>;

    closed spec fn view(&self) -> Seq<EntryModel> {
        entries(self.schema@, value_models(self.values@))
    }
}

/// Whether every field has a supported shape and a value of that shape.
pub open spec fn conforming(fields: Seq<EntryModel>) -> bool {
    forall|i: int|
        0 <= i < fields.len() ==> (#[trigger] fields[i]).shape.supported() && admits(
            fields[i].shape,
            fields[i].value,
        )
}

impl<'a> Record<'a> {
    #[verifier::type_invariant]
    spec fn well_formed(self) -> bool {
        admits_all(self.schema@, value_models(self.values@))
    }

    /// The number of fields.
    pub fn len(&self) -> (n: usize)
        ensures
            n == self@.len(),
            conforming(self@),
    {
        proof {
            use_type_invariant(self);
            use_type_invariant(self.schema);
        }
        self.values.len()
    }

    /// The name of the field at the given index.
    pub fn name(&self, index: usize) -> (name: &String)
        requires
            index < self@.len(),
        ensures
            name@ == self@[index as int].name,
    {
        self.schema.name(index)
    }

    /// The shape of the field at the given index.
    pub fn shape(&self, index: usize) -> (shape: &FieldShape)
        requires
            index < self@.len(),
        ensures
            shape@ == self@[index as int].shape,
    {
        self.schema.shape(index)
    }

    /// The value of the field at the given index.
    pub fn value(&self, index: usize) -> (value: &FieldValue)
        requires
            index < self@.len(),
        ensures
            value@ == self@[index as int].value,
    {
        proof {
            use_type_invariant(self);
        }
        &self.values[index]
    }
}

} // verus!

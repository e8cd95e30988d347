//! The records that a transformation hands out: one [`Struct`] per object
//! node, each with its ordered [`Field`]s.

use crate::text::text_view;
use vstd::prelude::*;

verus! {

/// What a [`Field`] holds, as plain values.
pub struct FieldView {
    pub name: Seq<char>,
    pub field_type: Seq<char>,
    pub description: Option<Seq<char>>,
}

/// What a [`Struct`] holds, as plain values.
pub struct StructView {
    pub name: Seq<char>,
    pub description: Option<Seq<char>>,
    pub fields: Seq<FieldView>,
}

/// A named, typed, optionally described member of a [`Struct`].
#[derive(Debug, PartialEq, Eq)]
pub struct Field {
    name: String,
    field_type: String,
    description: Option<String>,
}

impl View for Field {
    type V = FieldView;

    closed spec fn view(&self) -> FieldView {
        FieldView {
            name: self.name@,
            field_type: self.field_type@,
            description: text_view(self.description),
        }
    }
}

impl Field {
    /// A field with the given name, type and description.
    pub fn new(name: &str, field_type: &str, description: Option<String>) -> (field: Field)
        ensures
            field@ == (FieldView {
                name: name@,
                field_type: field_type@,
                description: text_view(description),
            }),
    {
        Field { name: name.to_owned(), field_type: field_type.to_owned(), description }
    }

    /// The name of the field.
    pub fn name(&self) -> (name: &str)
        ensures
            name@ == self@.name,
    {
        self.name.as_str()
    }

    /// The name of the type of the field.
    pub fn field_type(&self) -> (field_type: &str)
        ensures
            field_type@ == self@.field_type,
    {
        self.field_type.as_str()
    }

    /// The description of the field, if it has one.
    pub fn description(&self) -> (description: Option<&str>)
        ensures
            match description {
                Some(d) => self@.description == Some(d@),
                None => self@.description is None,
            },
    {
        match &self.description {
            Some(d) => Some(d.as_str()),
            None => None,
        }
    }
}

/// The fields of a record, each as plain values, in their order.
pub open spec fn field_views(fields: Seq<Field>) -> Seq<FieldView> {
    fields.map_values(|f: Field| f@)
}

/// Whether `fields` holds the fields `views`, one for one in their order.
pub open spec fn holds_fields(fields: Seq<Field>, views: Seq<FieldView>) -> bool {
    &&& fields.len() == views.len()
    &&& forall|i: int| 0 <= i < fields.len() ==> (#[trigger] fields[i])@ == views[i]
}

/// One generated type: a name, an optional description and ordered fields.
#[derive(Debug, PartialEq, Eq)]
pub struct Struct {
    name: String,
    fields: Vec<Field>,
    description: Option<String>,
}

impl View for Struct {
    type V = StructView;

    closed spec fn view(&self) -> StructView {
        StructView {
            name: self.name@,
            description: text_view(self.description),
            fields: field_views(self.fields@),
        }
    }
}

impl Struct {
    /// A record with the given name, description and fields.
    pub fn new(name: &str, description: Option<String>, fields: Vec<Field>) -> (record: Struct)
        ensures
            record@ == (StructView {
                name: name@,
                description: text_view(description),
                fields: field_views(fields@),
            }),
    {
        Struct { name: name.to_owned(), description, fields }
    }

    /// The name of the record.
    pub fn name(&self) -> (name: &str)
        ensures
            name@ == self@.name,
    {
        self.name.as_str()
    }

    /// The description of the record, if it has one.
    pub fn description(&self) -> (description: Option<&str>)
        ensures
            match description {
                Some(d) => self@.description == Some(d@),
                None => self@.description is None,
            },
    {
        match &self.description {
            Some(d) => Some(d.as_str()),
            None => None,
        }
    }

    /// The fields of the record, in their order.
    pub fn fields(&self) -> (fields: &Vec<Field>)
        ensures
            holds_fields(fields@, self@.fields),
    {
        &self.fields
    }
}

/// Whether `structs` holds the records `views`, one for one in their order.
pub open spec fn holds_records(structs: Seq<Struct>, views: Seq<StructView>) -> bool {
    &&& structs.len() == views.len()
    &&& forall|i: int| 0 <= i < structs.len() ==> (#[trigger] structs[i])@ == views[i]
}

/// The list of records that a renderer turns into source text.
#[derive(Debug)]
pub struct StructsTemplate {
    pub structs: Vec<Struct>,
}

} // verus!

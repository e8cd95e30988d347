//! The transformation of a schema tree into a flat list of records.
//!
//! An object node becomes one record, named by its title. Each of its
//! properties becomes one field, in the order of the properties. Where a
//! property is itself an object, the records of that sub-tree are listed
//! before the record that refers to them. The first fault ends the walk.
//!
//! Every object node needs a title of its own, the nested ones too: the name
//! of a property never stands in for the title of the object below it.

use crate::error::{SchemaError, SchemaErrorView};
use crate::naming::{as_pascal_case, as_snake_case, pascal_case_of, snake_case_of};
use crate::record::{field_views, holds_fields, holds_records, Field, FieldView, Struct, StructView};
use crate::schema::{Schema, SchemaView};
use crate::text::text_eq;
use vstd::prelude::*;

verus! {

/// The field type that stands for a type tag other than `object`.
pub open spec fn primitive_type(type_tag: Seq<char>) -> Option<Seq<char>> {
    if type_tag == "integer"@ {
        Some("i64"@)
    } else if type_tag == "float"@ {
        Some("f64"@)
    } else if type_tag == "string"@ {
        Some("String"@)
    } else {
        None
    }
}

/// The records of the tree below `schema`, the record of `schema` itself last.
pub open spec fn transform(schema: SchemaView) -> Result<Seq<StructView>, SchemaErrorView>
    decreases schema, 0int,
{
    if schema.type_tag != "object"@ {
        Err(SchemaErrorView::UnsupportedRootType { type_tag: schema.type_tag })
    } else if schema.properties is None {
        Err(SchemaErrorView::MissingProperties { property: None, title: schema.title })
    } else if schema.title is None {
        Err(SchemaErrorView::MissingTitle { property: None })
    } else {
        match process_prefix(schema.properties->0, schema.properties->0.len()) {
            Err(fault) => Err(fault),
            Ok((nested, fields)) => Ok(
                nested.push(
                    StructView {
                        name: pascal_case_of(schema.title->0),
                        description: schema.description,
                        fields,
                    },
                ),
            ),
        }
    }
}

/// The field that the property `key` with the schema `schema` becomes, and
/// the records of the tree below it: none unless the property is an object.
pub open spec fn process(key: Seq<char>, schema: SchemaView) -> Result<
    (Seq<StructView>, FieldView),
    SchemaErrorView,
>
    decreases schema, 1int,
{
    if schema.type_tag == "object"@ {
        match transform(schema) {
            Err(fault) => Err(fault.under(key)),
            Ok(nested) => Ok(
                (
                    nested,
                    FieldView {
                        name: snake_case_of(key),
                        field_type: pascal_case_of(schema.title->0),
                        description: schema.description,
                    },
                ),
            ),
        }
    } else {
        match primitive_type(schema.type_tag) {
            Some(field_type) => Ok(
                (
                    Seq::empty(),
                    FieldView { name: snake_case_of(key), field_type, description: schema.description },
                ),
            ),
            None => Err(
                SchemaErrorView::UnsupportedFieldType { key, type_tag: schema.type_tag },
            ),
        }
    }
}

/// The first `n` of `properties`, taken in order: the records of their
/// sub-trees one list after the other, and their fields. The fault of the
/// first property that has one, if any has.
pub open spec fn process_prefix(properties: Seq<(Seq<char>, SchemaView)>, n: nat) -> Result<
    (Seq<StructView>, Seq<FieldView>),
    SchemaErrorView,
>
    decreases properties, n,
{
    if n == 0 || n > properties.len() {
        Ok((Seq::empty(), Seq::empty()))
    } else {
        match process_prefix(properties, (n - 1) as nat) {
            Err(fault) => Err(fault),
            Ok((structs, fields)) => match process(properties[n - 1].0, properties[n - 1].1) {
                Err(fault) => Err(fault),
                Ok((nested, field)) => Ok((structs + nested, fields.push(field))),
            },
        }
    }
}

/// Whether `outcome` is what `expected` says: the same records in the same
/// order, or the same fault.
pub open spec fn is_outcome(
    outcome: Result<Vec<Struct>, SchemaError>,
    expected: Result<Seq<StructView>, SchemaErrorView>,
) -> bool {
    match (outcome, expected) {
        (Ok(structs), Ok(views)) => holds_records(structs@, views),
        (Err(fault), Err(view)) => fault@ == view,
        _ => false,
    }
}

/// Whether `outcome` is what `expected` says: the same records in the same
/// order with the same field, or the same fault.
pub open spec fn is_field_outcome(
    outcome: Result<(Vec<Struct>, Field), SchemaError>,
    expected: Result<(Seq<StructView>, FieldView), SchemaErrorView>,
) -> bool {
    match (outcome, expected) {
        (Ok((structs, field)), Ok((views, view))) => holds_records(structs@, views) && field@
            == view,
        (Err(fault), Err(view)) => fault@ == view,
        _ => false,
    }
}

/// The field type that stands for the type tag `type_tag`, where the tag is
/// that of a primitive type.
pub fn field_type_of(type_tag: &str) -> (field_type: Option<&'static str>)
    ensures
        match field_type {
            Some(name) => primitive_type(type_tag@) == Some(name@),
            None => primitive_type(type_tag@) is None,
        },
{
    if text_eq(type_tag, "integer") {
        Some("i64")
    } else if text_eq(type_tag, "float") {
        Some("f64")
    } else if text_eq(type_tag, "string") {
        Some("String")
    } else {
        None
    }
}

impl Schema {
    /// The records of this tree, each listed after the records that its fields
    /// refer to, the record of this node last.
    pub fn into_structs(&self) -> (outcome: Result<Vec<Struct>, SchemaError>)
        ensures
            is_outcome(outcome, transform(self@)),
        decreases self@, 0int,
    {
        if !text_eq(self.type_tag.as_str(), "object") {
            return Err(SchemaError::UnsupportedRootType { type_tag: self.type_tag.clone() });
        }
        let properties = match &self.properties {
            Some(properties) => properties,
            None => {
                return Err(
                    SchemaError::MissingProperties { property: None, title: self.title.clone() },
                );
            },
        };
        let title = match &self.title {
            Some(title) => title,
            None => {
                return Err(SchemaError::MissingTitle { property: None });
            },
        };
        let mut structs: Vec<Struct> = Vec::new();
        let mut fields: Vec<Field> = Vec::new();
        let n = properties.len();
        let mut i: usize = 0;
        while i < n
            invariant
                n == properties@.len(),
                i <= n,
                self@.type_tag == "object"@,
                self@.title is Some,
                self@.properties == Some(properties@),
                process_prefix(properties@, i as nat) is Ok,
                holds_records(structs@, process_prefix(properties@, i as nat)->Ok_0.0),
                holds_fields(fields@, process_prefix(properties@, i as nat)->Ok_0.1),
            decreases n - i,
        {
            let (key, schema) = properties.entry(i);
            match process_type(key, schema) {
                Err(fault) => {
                    proof {
                        assert(process_prefix(properties@, (i + 1) as nat) == Err::<
                            (Seq<StructView>, Seq<FieldView>),
                            _,
                        >(fault@));
                        lemma_fault_stays(properties@, (i + 1) as nat, n as nat);
                    }
                    return Err(fault);
                },
                Ok((mut nested, field)) => {
                    structs.append(&mut nested);
                    fields.push(field);
                },
            }
            i += 1;
        }
        let name = as_pascal_case(title.as_str());
        let record = Struct::new(name.as_str(), self.description.clone(), fields);
        proof {
            assert(field_views(fields@) =~= process_prefix(properties@, n as nat)->Ok_0.1);
        }
        structs.push(record);
        Ok(structs)
    }
}

/// The field that the property `name` with the schema `schema` becomes, and
/// the records of the tree below it, which are to stand before the record
/// that holds the field.
pub fn process_type(name: &str, schema: &Schema) -> (outcome: Result<
    (Vec<Struct>, Field),
    SchemaError,
>)
    ensures
        is_field_outcome(outcome, process(name@, schema@)),
    decreases schema@, 1int,
{
    if text_eq(schema.type_tag.as_str(), "object") {
        match schema.into_structs() {
            Err(fault) => Err(fault.under(name)),
            Ok(nested) => {
                // The record of the nested object is the last of its list, and
                // the name of that record is the type of the field.
                assert(nested@[nested@.len() - 1]@.name == pascal_case_of(schema@.title->0));
                let field = Field::new(
                    as_snake_case(name).as_str(),
                    nested[nested.len() - 1].name(),
                    schema.description.clone(),
                );
                Ok((nested, field))
            },
        }
    } else {
        match field_type_of(schema.type_tag.as_str()) {
            Some(field_type) => {
                let field = Field::new(
                    as_snake_case(name).as_str(),
                    field_type,
                    schema.description.clone(),
                );
                Ok((Vec::new(), field))
            },
            None => Err(
                SchemaError::UnsupportedFieldType {
                    key: name.to_owned(),
                    type_tag: schema.type_tag.clone(),
                },
            ),
        }
    }
}

/// A fault among the first `n` properties is the fault of every longer prefix.
pub proof fn lemma_fault_stays(properties: Seq<(Seq<char>, SchemaView)>, n: nat, m: nat)
    requires
        n <= m <= properties.len(),
        process_prefix(properties, n) is Err,
    ensures
        process_prefix(properties, m) == process_prefix(properties, n),
    decreases m - n,
{
    if n < m {
        lemma_fault_stays(properties, n, (m - 1) as nat);
    }
}

} // verus!

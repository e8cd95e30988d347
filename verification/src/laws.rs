//! What holds of every transformation, proved from its definition.

use crate::error::SchemaErrorView;
use crate::naming::{pascal_case_of, snake_case_of};
use crate::record::{FieldView, StructView};
use crate::schema::SchemaView;
use crate::transform::{lemma_fault_stays, primitive_type, process, process_prefix, transform};
use vstd::prelude::*;

verus! {

/// An object node with a title whose properties are all integers, floats or
/// strings.
pub open spec fn is_flat_object(schema: SchemaView) -> bool {
    &&& schema.type_tag == "object"@
    &&& schema.title is Some
    &&& schema.properties is Some
    &&& forall|i: int|
        0 <= i < schema.properties->0.len() ==> primitive_type(
            (#[trigger] schema.properties->0[i]).1.type_tag,
        ) is Some
}

/// The field that a property of a primitive type becomes.
pub open spec fn primitive_field(property: (Seq<char>, SchemaView)) -> FieldView {
    FieldView {
        name: snake_case_of(property.0),
        field_type: primitive_type(property.1.type_tag)->0,
        description: property.1.description,
    }
}

/// The number of records that the first `n` of `properties` bring.
pub open spec fn records_before(properties: Seq<(Seq<char>, SchemaView)>, n: nat) -> nat {
    process_prefix(properties, n)->Ok_0.0.len()
}

/// The table of field types: `integer`, `float` and `string` each have the
/// field type that stands for them, and `object` has none.
pub proof fn lemma_type_table()
    ensures
        primitive_type("integer"@) == Some("i64"@),
        primitive_type("float"@) == Some("f64"@),
        primitive_type("string"@) == Some("String"@),
        primitive_type("object"@) is None,
{
    reveal_strlit("object");
    reveal_strlit("integer");
    reveal_strlit("float");
    reveal_strlit("string");
    assert("integer"@.len() == 7);
    assert("float"@.len() == 5);
    assert("string"@.len() == 6);
    assert("object"@[0] == 'o');
    assert("string"@[0] == 's');
}

/// A root that is not an object is refused, and the fault names its type.
pub proof fn lemma_root_must_be_object(schema: SchemaView)
    requires
        schema.type_tag != "object"@,
    ensures
        transform(schema) == Err::<Seq<StructView>, _>(
            SchemaErrorView::UnsupportedRootType { type_tag: schema.type_tag },
        ),
{
}

/// An object without properties is refused, whatever else it holds.
pub proof fn lemma_object_needs_properties(schema: SchemaView)
    requires
        schema.type_tag == "object"@,
        schema.properties is None,
    ensures
        transform(schema) == Err::<Seq<StructView>, _>(
            SchemaErrorView::MissingProperties { property: None, title: schema.title },
        ),
{
}

/// An object with properties and without a title is refused, whatever its
/// properties are.
pub proof fn lemma_object_needs_title(schema: SchemaView)
    requires
        schema.type_tag == "object"@,
        schema.properties is Some,
        schema.title is None,
    ensures
        transform(schema) == Err::<Seq<StructView>, _>(
            SchemaErrorView::MissingTitle { property: None },
        ),
{
}

/// A property whose type is neither `object` nor primitive is refused, and
/// the fault names the property and the type.
pub proof fn lemma_property_type_must_be_known(key: Seq<char>, schema: SchemaView)
    requires
        schema.type_tag != "object"@,
        primitive_type(schema.type_tag) is None,
    ensures
        process(key, schema) == Err::<(Seq<StructView>, FieldView), _>(
            SchemaErrorView::UnsupportedFieldType { key, type_tag: schema.type_tag },
        ),
{
}

/// The walk ends at the first faulty property: where the properties before
/// place `k` are sound and the one at `k` is not, the fault of that one is the
/// fault of the whole object.
pub proof fn lemma_first_fault_wins(schema: SchemaView, k: int)
    requires
        schema.type_tag == "object"@,
        schema.title is Some,
        schema.properties is Some,
        0 <= k < schema.properties->0.len(),
        process_prefix(schema.properties->0, k as nat) is Ok,
        process(schema.properties->0[k].0, schema.properties->0[k].1) is Err,
    ensures
        transform(schema) is Err,
        transform(schema)->Err_0 == process(
            schema.properties->0[k].0,
            schema.properties->0[k].1,
        )->Err_0,
{
    let properties = schema.properties->0;
    assert(process_prefix(properties, (k + 1) as nat) is Err);
    lemma_fault_stays(properties, (k + 1) as nat, properties.len());
}

/// An object is refused for the first of its properties whose type is
/// neither `object` nor primitive, where the properties before it are sound:
/// the fault names that property and its type.
pub proof fn lemma_unknown_property_type_is_refused(schema: SchemaView, k: int)
    requires
        schema.type_tag == "object"@,
        schema.title is Some,
        schema.properties is Some,
        0 <= k < schema.properties->0.len(),
        process_prefix(schema.properties->0, k as nat) is Ok,
        schema.properties->0[k].1.type_tag != "object"@,
        primitive_type(schema.properties->0[k].1.type_tag) is None,
    ensures
        transform(schema) == Err::<Seq<StructView>, _>(
            SchemaErrorView::UnsupportedFieldType {
                key: schema.properties->0[k].0,
                type_tag: schema.properties->0[k].1.type_tag,
            },
        ),
{
    lemma_property_type_must_be_known(schema.properties->0[k].0, schema.properties->0[k].1);
    lemma_first_fault_wins(schema, k);
}

/// Where the first `m` properties are sound, so are the first `n` of them,
/// and what these bring is the beginning of what those bring: one field for
/// each property, in the order of the properties.
pub proof fn lemma_prefix_grows(properties: Seq<(Seq<char>, SchemaView)>, n: nat, m: nat)
    requires
        n <= m <= properties.len(),
        process_prefix(properties, m) is Ok,
    ensures
        process_prefix(properties, n) is Ok,
        process_prefix(properties, n)->Ok_0.1.len() == n,
        process_prefix(properties, m)->Ok_0.1.len() == m,
        process_prefix(properties, n)->Ok_0.0.len() <= process_prefix(properties, m)->Ok_0.0.len(),
        process_prefix(properties, n)->Ok_0.0 == process_prefix(properties, m)->Ok_0.0.subrange(
            0,
            process_prefix(properties, n)->Ok_0.0.len() as int,
        ),
        process_prefix(properties, n)->Ok_0.1 == process_prefix(properties, m)->Ok_0.1.subrange(
            0,
            n as int,
        ),
    decreases m,
{
    lemma_field_count(properties, m);
    if n < m {
        lemma_prefix_grows(properties, n, (m - 1) as nat);
        lemma_field_count(properties, (m - 1) as nat);
        let shorter = process_prefix(properties, (m - 1) as nat)->Ok_0;
        let longer = process_prefix(properties, m)->Ok_0;
        let short = process_prefix(properties, n)->Ok_0;
        assert(short.0 =~= longer.0.subrange(0, short.0.len() as int));
        assert(short.1 =~= longer.1.subrange(0, n as int));
    } else {
        let all = process_prefix(properties, n)->Ok_0;
        assert(all.0 =~= all.0.subrange(0, all.0.len() as int));
        assert(all.1 =~= all.1.subrange(0, n as int));
    }
}

/// Sound properties bring one field each.
pub proof fn lemma_field_count(properties: Seq<(Seq<char>, SchemaView)>, n: nat)
    requires
        n <= properties.len(),
        process_prefix(properties, n) is Ok,
    ensures
        process_prefix(properties, n)->Ok_0.1.len() == n,
    decreases n,
{
    if n > 0 {
        lemma_field_count(properties, (n - 1) as nat);
    }
}

/// The record of a sound object comes last in its list. It has the name
/// made from the title, the description of the object, and as many fields as
/// the object has properties.
pub proof fn lemma_own_record_comes_last(schema: SchemaView)
    requires
        transform(schema) is Ok,
    ensures
        schema.type_tag == "object"@,
        schema.title is Some,
        schema.properties is Some,
        transform(schema)->Ok_0.len() > 0,
        transform(schema)->Ok_0.last().name == pascal_case_of(schema.title->0),
        transform(schema)->Ok_0.last().description == schema.description,
        transform(schema)->Ok_0.last().fields.len() == schema.properties->0.len(),
{
    let properties = schema.properties->0;
    lemma_field_count(properties, properties.len());
}

/// The fields of a sound object follow its properties in their order: the
/// field at place `k` is the field that the property at place `k` becomes,
/// with the name made from the name of that property and with its
/// description.
pub proof fn lemma_fields_follow_properties(schema: SchemaView, k: int)
    requires
        transform(schema) is Ok,
        0 <= k < schema.properties->0.len(),
    ensures
        process(schema.properties->0[k].0, schema.properties->0[k].1) is Ok,
        transform(schema)->Ok_0.last().fields[k] == process(
            schema.properties->0[k].0,
            schema.properties->0[k].1,
        )->Ok_0.1,
        transform(schema)->Ok_0.last().fields[k].name == snake_case_of(schema.properties->0[k].0),
        transform(schema)->Ok_0.last().fields[k].description
            == schema.properties->0[k].1.description,
{
    let properties = schema.properties->0;
    let n = properties.len();
    lemma_prefix_grows(properties, (k + 1) as nat, n);
    lemma_prefix_grows(properties, k as nat, (k + 1) as nat);
    let all = process_prefix(properties, n)->Ok_0;
    let upto = process_prefix(properties, (k + 1) as nat)->Ok_0;
    assert(upto.1[k] == all.1.subrange(0, k + 1)[k]);
}

/// A sound object without nested objects gives exactly one record. Its fields
/// are those of the properties, as many and in the same order.
pub proof fn lemma_flat_object_gives_one_record(schema: SchemaView)
    requires
        is_flat_object(schema),
    ensures
        transform(schema) == Ok::<_, SchemaErrorView>(
            seq![
                StructView {
                    name: pascal_case_of(schema.title->0),
                    description: schema.description,
                    fields: schema.properties->0.map_values(
                        |property: (Seq<char>, SchemaView)| primitive_field(property),
                    ),
                },
            ],
        ),
{
    let properties = schema.properties->0;
    lemma_flat_prefix(properties, properties.len());
    let fields = properties.map_values(
        |property: (Seq<char>, SchemaView)| primitive_field(property),
    );
    assert(fields.subrange(0, properties.len() as int) =~= fields);
    let record = StructView {
        name: pascal_case_of(schema.title->0),
        description: schema.description,
        fields,
    };
    assert(Seq::<StructView>::empty().push(record) =~= seq![record]);
}

/// The first `n` properties of a flat object bring no records and one field
/// each.
pub proof fn lemma_flat_prefix(properties: Seq<(Seq<char>, SchemaView)>, n: nat)
    requires
        n <= properties.len(),
        forall|i: int|
            0 <= i < properties.len() ==> primitive_type((#[trigger] properties[i]).1.type_tag)
                is Some,
    ensures
        process_prefix(properties, n) == Ok::<_, SchemaErrorView>(
            (
                Seq::<StructView>::empty(),
                properties.map_values(
                    |property: (Seq<char>, SchemaView)| primitive_field(property),
                ).subrange(0, n as int),
            ),
        ),
    decreases n,
{
    let fields = properties.map_values(
        |property: (Seq<char>, SchemaView)| primitive_field(property),
    );
    if n == 0 {
        assert(fields.subrange(0, 0) =~= Seq::empty());
    } else {
        lemma_flat_prefix(properties, (n - 1) as nat);
        lemma_type_table();
        let property = properties[n - 1];
        assert(primitive_type(property.1.type_tag) is Some);
        assert(process(property.0, property.1) == Ok::<_, SchemaErrorView>(
            (Seq::<StructView>::empty(), primitive_field(property)),
        ));
        assert(Seq::<StructView>::empty() + Seq::<StructView>::empty() =~= Seq::<
            StructView,
        >::empty());
        assert(fields.subrange(0, n - 1).push(primitive_field(property)) =~= fields.subrange(
            0,
            n as int,
        ));
    }
}

/// A record stands before every record that refers to it. Where the property
/// at place `k` of a sound object is itself an object, the records of its
/// tree stand together in the list, its own record last among them, all of
/// them before the record of the object, whose field at place `k` has the
/// name of that record as its type.
pub proof fn lemma_nested_records_come_first(schema: SchemaView, k: int)
    requires
        transform(schema) is Ok,
        0 <= k < schema.properties->0.len(),
        schema.properties->0[k].1.type_tag == "object"@,
    ensures
        transform(schema.properties->0[k].1) is Ok,
        ({
            let records = transform(schema)->Ok_0;
            let nested = transform(schema.properties->0[k].1)->Ok_0;
            let start = records_before(schema.properties->0, k as nat) as int;
            &&& nested.len() > 0
            &&& start + nested.len() < records.len()
            &&& records.subrange(start, start + nested.len()) == nested
            &&& records[start + nested.len() - 1].name == pascal_case_of(
                schema.properties->0[k].1.title->0,
            )
            &&& records.last().fields[k].field_type == records[start + nested.len() - 1].name
        }),
{
    let properties = schema.properties->0;
    let n = properties.len();
    lemma_own_record_comes_last(schema);
    lemma_fields_follow_properties(schema, k);
    lemma_prefix_grows(properties, (k + 1) as nat, n);
    lemma_prefix_grows(properties, k as nat, (k + 1) as nat);
    let records = transform(schema)->Ok_0;
    let nested = transform(properties[k].1)->Ok_0;
    let before = process_prefix(properties, k as nat)->Ok_0.0;
    let upto = process_prefix(properties, (k + 1) as nat)->Ok_0.0;
    let all = process_prefix(properties, n)->Ok_0.0;
    let start = before.len() as int;
    assert(upto == before + nested);
    assert(records.subrange(start, start + nested.len()) =~= nested) by {
        assert forall|j: int| 0 <= j < nested.len() implies records[start + j] == nested[j] by {
            assert(upto[start + j] == nested[j]);
            assert(upto[start + j] == all.subrange(0, upto.len() as int)[start + j]);
        }
    }
    assert(records[start + nested.len() - 1] == nested[nested.len() - 1]);
}

} // verus!

use vstd::prelude::*;

use crate::bind::merge::{put, put_definition};
use crate::bind::schema::{
    properties_distinct, JsonValue, ObjectValidation, Schema, SchemaObject, SubschemaValidation,
};

verus! {

/// A schema object with nothing set.
fn blank_object() -> (r: SchemaObject)
    ensures
        r.title is None,
        r.instance_type is None,
        r.enum_values is None,
        r.reference is None,
        r.subschemas is None,
        r.object is None,
{
    SchemaObject {
        title: None,
        instance_type: None,
        enum_values: None,
        reference: None,
        subschemas: None,
        object: None,
    }
}

/// Whether `s` is a schema admitting only the string `tag`.
pub open spec fn is_tag_schema(s: Schema, tag: Seq<char>) -> bool {
    &&& s matches Schema::Object(o)
    &&& o.title is None
    &&& o.instance_type is None
    &&& o.reference is None
    &&& o.subschemas is None
    &&& o.object is None
    &&& o.enum_values matches Some(vs)
    &&& vs@.len() == 1
    &&& vs@[0] matches JsonValue::String(t)
    &&& t@ == tag
}

/// Whether `s` is a schema that only refers to the definition `name`.
pub open spec fn is_reference_schema(s: Schema, name: Seq<char>) -> bool {
    &&& s matches Schema::Object(o)
    &&& o.title is None
    &&& o.instance_type is None
    &&& o.enum_values is None
    &&& o.subschemas is None
    &&& o.object is None
    &&& o.reference matches Some(r)
    &&& r@ == "#/definitions/"@ + name
}

/// Whether `s` is the schema of one variant of a tagged union: an object
/// whose required `type` is the string `tag` and whose required `value`
/// is the definition `name`.
pub open spec fn is_tagged_variant(s: Schema, tag: Seq<char>, name: Seq<char>) -> bool {
    &&& s matches Schema::Object(o)
    &&& o.title is None
    &&& o.instance_type is None
    &&& o.enum_values is None
    &&& o.reference is None
    &&& o.subschemas is None
    &&& o.object matches Some(ov)
    &&& properties_distinct(ov)
    &&& ov.properties@.len() == 2
    &&& ov.properties@[0].0@ == "type"@
    &&& is_tag_schema(ov.properties@[0].1, tag)
    &&& ov.properties@[1].0@ == "value"@
    &&& is_reference_schema(ov.properties@[1].1, name)
    &&& ov.required@.len() == 2
    &&& ov.required@[0]@ == "type"@
    &&& ov.required@[1]@ == "value"@
}

/// Whether `s` is a tagged union titled `title` of the two variants
/// `(tag_a, name_a)` and `(tag_b, name_b)`, in that order.
pub open spec fn is_tagged_union(
    s: Schema,
    title: Seq<char>,
    tag_a: Seq<char>,
    name_a: Seq<char>,
    tag_b: Seq<char>,
    name_b: Seq<char>,
) -> bool {
    &&& s matches Schema::Object(o)
    &&& o.title matches Some(t)
    &&& t@ == title
    &&& o.instance_type is None
    &&& o.enum_values is None
    &&& o.reference is None
    &&& o.object is None
    &&& o.subschemas matches Some(sub)
    &&& sub.one_of matches Some(vs)
    &&& vs@.len() == 2
    &&& is_tagged_variant(vs@[0], tag_a, name_a)
    &&& is_tagged_variant(vs@[1], tag_b, name_b)
}

/// The schema of one variant of a tagged union: an object whose `type` is
/// the string `tag` and whose `value` refers to the definition `name`; both
/// must be there.
pub fn tagged_variant(tag: &str, name: &str) -> (r: Schema)
    ensures
        is_tagged_variant(r, tag@, name@),
{
    let tag_schema = Schema::Object(
        SchemaObject { enum_values: Some(vec![JsonValue::String(String::from_str(tag))]), ..blank_object() },
    );
    let mut reference = String::from_str("#/definitions/");
    reference.append(name);
    let value_schema = Schema::Object(SchemaObject { reference: Some(reference), ..blank_object() });
    let properties = vec![(String::from_str("type"), tag_schema), (String::from_str("value"), value_schema)];
    let required = vec![String::from_str("type"), String::from_str("value")];
    proof {
        reveal_strlit("type");
        reveal_strlit("value");
        assert("type"@.len() == 4 && "value"@.len() == 5);
        assert(properties@[0].0@ == "type"@);
        assert(properties@[1].0@ == "value"@);
    }
    Schema::Object(
        SchemaObject { object: Some(ObjectValidation { properties, required }), ..blank_object() },
    )
}

/// Whether `s` is the union, titled `title`, of `a` and `b` in that order.
pub open spec fn is_union_of(s: Schema, title: String, a: Schema, b: Schema) -> bool {
    &&& s matches Schema::Object(o)
    &&& o.title == Some(title)
    &&& o.instance_type is None
    &&& o.enum_values is None
    &&& o.reference is None
    &&& o.object is None
    &&& o.subschemas matches Some(sub)
    &&& sub.one_of matches Some(vs)
    &&& vs@ == seq![a, b]
}

/// The schema of a union of two tagged variants, titled `title`.
fn tagged_union(title: String, a: Schema, b: Schema) -> (r: Schema)
    ensures
        is_union_of(r, title, a, b),
{
    let variants = vec![a, b];
    Schema::Object(
        SchemaObject {
            title: Some(title),
            subschemas: Some(SubschemaValidation { one_of: Some(variants) }),
            ..blank_object()
        },
    )
}

/// The name of the schema of a view of records whose schema is named
/// `record`.
pub fn view_schema_name(record: &str) -> (r: String)
    ensures
        r@ == "api_View_"@ + record@,
{
    let mut r = String::from_str("api_View_");
    r.append(record);
    r
}

/// The name of the schema of a result whose success schema is named
/// `success`.
pub fn result_schema_name(success: &str) -> (r: String)
    ensures
        r@ == "api_Result_"@ + success@,
{
    let mut r = String::from_str("api_Result_");
    r.append(success);
    r
}

/// The schema of a view of records whose schema is named `record`: a
/// union of the public form (tag `pub`, the definition `public`) and the
/// private form (tag `pri`, the definition `private`).
pub fn view_schema(record: &str, public: &str, private: &str) -> (r: Schema)
    ensures
        is_tagged_union(r, "api_View_"@ + record@, "pub"@, public@, "pri"@, private@),
{
    let a = tagged_variant("pub", public);
    let b = tagged_variant("pri", private);
    tagged_union(view_schema_name(record), a, b)
}

/// The schema of a result: a union of its success (tag `success`, the
/// definition `success`) and its failure (tag `failure`, the definition
/// `failure`).
pub fn result_schema(success: &str, failure: &str) -> (r: Schema)
    ensures
        is_tagged_union(r, "api_Result_"@ + success@, "success"@, success@, "failure"@, failure@),
{
    let a = tagged_variant("success", success);
    let b = tagged_variant("failure", failure);
    tagged_union(result_schema_name(success), a, b)
}

/// The schema of a result, as `result_schema` gives it, with the schemas it
/// refers to registered among `definitions`: the success schema under the
/// name `success`, then the failure schema under the name `failure`, each
/// over any definition that has its name.
pub fn result_schema_with_definitions(
    success: String,
    success_schema: Schema,
    failure: String,
    failure_schema: Schema,
    definitions: &mut Vec<(String, Schema)>,
) -> (r: Schema)
    ensures
        is_tagged_union(r, "api_Result_"@ + success@, "success"@, success@, "failure"@, failure@),
        final(definitions)@ == put(put(old(definitions)@, success, success_schema), failure, failure_schema),
{
    let r = result_schema(success.as_str(), failure.as_str());
    put_definition(definitions, success, success_schema);
    put_definition(definitions, failure, failure_schema);
    r
}

} // verus!

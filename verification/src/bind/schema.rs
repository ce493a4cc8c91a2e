use vstd::prelude::*;

verus! {

/// The kind of JSON value a schema admits.
#[derive(Clone, Copy, PartialEq, Eq, Structural, Debug)]
pub enum InstanceType {
    Null,
    Boolean,
    Integer,
    Number,
    String,
    Array,
    Object,
}

/// One instance type, or several.
pub enum SingleOrVec {
    Single(InstanceType),
    Vec(Vec<InstanceType>),
}

/// A value an enumerating schema lists: a string, a number (with its value
/// where it is an `i64`), or any other JSON value.
pub enum JsonValue {
    String(String),
    Number(Option<i64>),
    Other,
}

/// The sub-schemas of a schema; of them, only `oneOf` is read here.
pub struct SubschemaValidation {
    pub one_of: Option<Vec<Schema>>,
}

/// What an object schema says of the properties of an object: each
/// property's name and schema, in order of name, and the names of the
/// properties that must be there. The properties stand for a map: in a
/// well formed one no name occurs twice (`properties_distinct`).
pub struct ObjectValidation {
    pub properties: Vec<(String, Schema)>,
    pub required: Vec<String>,
}

/// A JSON schema object, as far as it is read here.
pub struct SchemaObject {
    /// The title of the schema's metadata.
    pub title: Option<String>,
    pub instance_type: Option<SingleOrVec>,
    pub enum_values: Option<Vec<JsonValue>>,
    /// A reference to another schema (`#/definitions/...`).
    pub reference: Option<String>,
    pub subschemas: Option<SubschemaValidation>,
    pub object: Option<ObjectValidation>,
}

/// A JSON schema: `true` or `false`, or a schema object.
pub enum Schema {
    Bool(bool),
    Object(SchemaObject),
}

/// A property of an object schema: its schema, and whether it must be there.
pub struct ObjectProperty<'a> {
    pub schema: &'a Schema,
    pub required: bool,
}

/// Whether `name` is among `names`.
pub open spec fn listed(names: Seq<String>, name: Seq<char>) -> bool {
    exists|i: int| 0 <= i < names.len() && (#[trigger] names[i])@ == name
}

fn is_listed(names: &Vec<String>, name: &String) -> (r: bool)
    ensures
        r == listed(names@, name@),
{
    let n = names.len();
    let mut i: usize = 0;
    while i < n
        invariant
            n == names@.len(),
            i <= n,
            forall|j: int| 0 <= j < i ==> (#[trigger] names@[j])@ != name@,
        decreases n - i,
    {
        if names[i] == *name {
            return true;
        }
        i = i + 1;
    }
    false
}

/// The object validation of a schema, if it is an object schema that has one.
pub fn object_validation(schema: &Schema) -> (r: Option<&ObjectValidation>)
    ensures
        match *schema {
            Schema::Object(o) => match o.object {
                Some(v) => r == Some(&v),
                None => r is None,
            },
            Schema::Bool(_) => r is None,
        },
{
    match schema {
        Schema::Object(object) => match &object.object {
            Some(v) => Some(v),
            Option::None => Option::None,
        },
        Schema::Bool(_) => Option::None,
    }
}

/// The properties of an object schema, in order of name, each with whether
/// it is required; `None` for a schema that is not an object schema.
pub fn object_properties<'a>(schema: &'a Schema) -> (r: Option<Vec<(String, ObjectProperty<'a>)>>)
    ensures
        match object_validation_of(*schema) {
            Some(v) => r matches Some(ps) && ps@.len() == v.properties@.len() && forall|i: int|
                0 <= i < ps@.len() ==> (#[trigger] ps@[i]).0@ == v.properties@[i].0@
                    && *ps@[i].1.schema == v.properties@[i].1 && ps@[i].1.required == listed(
                    v.required@,
                    v.properties@[i].0@,
                ) && (properties_distinct(v) ==> forall|i: int, j: int|
                    0 <= i < j < ps@.len() ==> ps@[i].0@ != ps@[j].0@),
            None => r is None,
        },
{
    match object_validation(schema) {
        Option::None => Option::None,
        Some(v) => {
            let mut properties: Vec<(String, ObjectProperty<'a>)> = Vec::new();
            let n = v.properties.len();
            let mut i: usize = 0;
            while i < n
                invariant
                    n == v.properties@.len(),
                    i <= n,
                    object_validation_of(*schema) == Some(*v),
                    properties@.len() == i,
                    forall|j: int|
                        0 <= j < i ==> (#[trigger] properties@[j]).0@ == v.properties@[j].0@
                            && *properties@[j].1.schema == v.properties@[j].1
                            && properties@[j].1.required == listed(v.required@, v.properties@[j].0@),
                decreases n - i,
            {
                let (name, property) = &v.properties[i];
                let required = is_listed(&v.required, name);
                properties.push((name.clone(), ObjectProperty { schema: property, required }));
                i = i + 1;
            }
            Some(properties)
        },
    }
}

/// Whether no two properties have the same name.
pub open spec fn properties_distinct(v: ObjectValidation) -> bool {
    forall|i: int, j: int| 0 <= i < j < v.properties@.len() ==> v.properties@[i].0@ != v.properties@[j].0@
}

/// The object validation of a schema, if it is an object schema that has one.
pub open spec fn object_validation_of(schema: Schema) -> Option<ObjectValidation> {
    match schema {
        Schema::Object(o) => o.object,
        Schema::Bool(_) => None,
    }
}

/// The position of the first property with the name.
pub open spec fn first_property(props: Seq<(String, Schema)>, name: Seq<char>) -> int {
    choose|i: int|
        0 <= i < props.len() && (#[trigger] props[i]).0@ == name && forall|j: int|
            0 <= j < i ==> props[j].0@ != name
}

pub open spec fn has_property(props: Seq<(String, Schema)>, name: Seq<char>) -> bool {
    exists|i: int| 0 <= i < props.len() && (#[trigger] props[i]).0@ == name
}

/// The single string a `type` property's schema enumerates, if it has one.
pub open spec fn type_tag(s: Schema) -> Option<Seq<char>> {
    match s {
        Schema::Object(o) => match o.enum_values {
            Some(vs) => if vs@.len() == 1 {
                match vs@[0] {
                    JsonValue::String(t) => Some(t@),
                    _ => None,
                }
            } else {
                None
            },
            None => None,
        },
        Schema::Bool(_) => None,
    }
}

/// The name of a schema: its title, if it has one; else the single string
/// its `type` property enumerates, if it has such a property.
pub open spec fn schema_name(schema: Schema) -> Option<Seq<char>> {
    match schema {
        Schema::Object(o) => match o.title {
            Some(t) => Some(t@),
            None => match o.object {
                Some(v) => if has_property(v.properties@, "type"@) {
                    type_tag(v.properties@[first_property(v.properties@, "type"@)].1)
                } else {
                    None
                },
                None => None,
            },
        },
        Schema::Bool(_) => None,
    }
}

/// The name of a schema: its title, or the single string its `type`
/// property enumerates.
pub fn name(schema: &Schema) -> (r: Option<&str>)
    ensures
        match r {
            Some(n) => schema_name(*schema) == Some(n@),
            None => schema_name(*schema) is None,
        },
{
    if let Schema::Object(object) = schema {
        if let Some(title) = &object.title {
            return Some(title.as_str());
        }
        if let Some(properties) = object_properties(schema) {
            let ghost v = object.object.unwrap();
            let tag_key = String::from_str("type");
            proof {
                reveal_strlit("type");
            }
            let n = properties.len();
            let mut i: usize = 0;
            while i < n
                invariant
                    n == properties@.len(),
                    n == v.properties@.len(),
                    i <= n,
                    tag_key@ == "type"@,
                    *schema == Schema::Object(*object),
                    object.title is None,
                    object.object == Some(v),
                    forall|j: int|
                        0 <= j < n ==> (#[trigger] properties@[j]).0@ == v.properties@[j].0@
                            && *properties@[j].1.schema == v.properties@[j].1,
                    forall|j: int| 0 <= j < i ==> v.properties@[j].0@ != "type"@,
                decreases n - i,
            {
                if properties[i].0 == tag_key {
                    proof {
                        let k = first_property(v.properties@, "type"@);
                        assert(v.properties@[i as int].0@ == "type"@);
                        if k < i {
                            assert(v.properties@[k].0@ != "type"@);
                        }
                        assert(k == i);
                    }
                    let property = properties[i].1.schema;
                    if let Schema::Object(o) = property {
                        if let Some(enum_values) = &o.enum_values {
                            if enum_values.len() == 1 {
                                if let JsonValue::String(s) = &enum_values[0] {
                                    return Some(s.as_str());
                                }
                            }
                        }
                    }
                    return Option::None;
                }
                i = i + 1;
            }
        }
    }
    Option::None
}

} // verus!

verus! {

/// A schema with the definitions it refers to.
pub struct RootSchema {
    pub schema: SchemaObject,
    pub definitions: Vec<(String, Schema)>,
}

} // verus!

use semio_record::ast::TypeExpr;
use semio_record::bind::generate::{
    name_to_path, schema_object_to_type, try_parse_schema, try_parse_schema_object,
};
use semio_record::bind::imports::Imports;
use semio_record::bind::merge::{into, root_schema, version, VersionSchema};
use semio_record::bind::schema::{
    name, object_properties, object_validation, InstanceType, JsonValue, ObjectValidation,
    RootSchema, Schema, SchemaObject, SingleOrVec, SubschemaValidation,
};

fn empty_object() -> SchemaObject {
    SchemaObject {
        title: None,
        instance_type: None,
        enum_values: None,
        reference: None,
        subschemas: None,
        object: None,
    }
}

fn typed(t: InstanceType) -> Schema {
    Schema::Object(SchemaObject { instance_type: Some(SingleOrVec::Single(t)), ..empty_object() })
}

fn reference(r: &str) -> Schema {
    Schema::Object(SchemaObject { reference: Some(r.to_string()), ..empty_object() })
}

fn tag(t: &str) -> Schema {
    Schema::Object(SchemaObject {
        enum_values: Some(vec![JsonValue::String(t.to_string())]),
        ..empty_object()
    })
}

#[test]
fn name_to_path_splits_on_underscores() {
    assert_eq!(name_to_path("module_V0_Frozen"), "/module/V0/Frozen");
    assert_eq!(name_to_path("Single"), "/Single");
}

#[test]
fn object_schema_gives_an_interface_and_its_imports() {
    let object = SchemaObject {
        object: Some(ObjectValidation {
            properties: vec![
                ("x".to_string(), typed(InstanceType::Number)),
                ("y".to_string(), reference("#/definitions/a_Bar")),
                ("z".to_string(), Schema::Bool(true)),
            ],
            required: vec!["x".to_string()],
        }),
        ..empty_object()
    };
    let text = try_parse_schema_object("Foo", "/a/Foo".to_string(), &object).unwrap();
    assert_eq!(
        text,
        "import Bar from \"./Bar\";\ninterface Foo {\n  x: number;\n  y?: Bar;\n}\nexport default Foo;"
    );
}

#[test]
fn union_schema_gives_a_namespace_and_the_union() {
    let variant = |t: &str| {
        Schema::Object(SchemaObject {
            object: Some(ObjectValidation {
                properties: vec![
                    ("type".to_string(), tag(t)),
                    ("value".to_string(), typed(InstanceType::String)),
                ],
                required: vec!["type".to_string(), "value".to_string()],
            }),
            ..empty_object()
        })
    };
    let object = SchemaObject {
        subschemas: Some(SubschemaValidation { one_of: Some(vec![variant("a"), variant("b")]) }),
        ..empty_object()
    };
    let text = try_parse_schema_object("U", "/U".to_string(), &object).unwrap();
    assert_eq!(
        text,
        "namespace U {\n  export interface a {\n    type: (\"a\");\n    value: string;\n  }\n  export interface b {\n    type: (\"b\");\n    value: string;\n  }\n}\ntype U = (U.a | U.b);\nexport default U;"
    );
}

#[test]
fn empty_union_is_void() {
    let object = SchemaObject {
        subschemas: Some(SubschemaValidation { one_of: Some(vec![]) }),
        ..empty_object()
    };
    let text = try_parse_schema_object("E", "/E".to_string(), &object).unwrap();
    assert_eq!(text, "type E = void;\nnamespace E {\n\n}\ntype E = ();\nexport default E;");
}

#[test]
fn listed_values_and_instance_types() {
    let listed = SchemaObject {
        enum_values: Some(vec![
            JsonValue::String("on".to_string()),
            JsonValue::Number(Some(-3)),
            JsonValue::Other,
        ]),
        ..empty_object()
    };
    assert_eq!(
        try_parse_schema_object("L", "/L".to_string(), &listed).unwrap(),
        "type L = (\"on\" | -3 | never);\nexport default L;"
    );
    let several = SchemaObject {
        instance_type: Some(SingleOrVec::Vec(vec![InstanceType::Null, InstanceType::Boolean])),
        ..empty_object()
    };
    assert_eq!(
        try_parse_schema_object("S", "/S".to_string(), &several).unwrap(),
        "type S = (null | boolean);\nexport default S;"
    );
    assert_eq!(
        try_parse_schema_object("N", "/N".to_string(), &empty_object()).unwrap(),
        "export default N;"
    );
}

#[test]
fn non_integer_number_is_refused() {
    let listed = SchemaObject {
        enum_values: Some(vec![JsonValue::Number(None)]),
        ..empty_object()
    };
    assert_eq!(try_parse_schema_object("L", "/L".to_string(), &listed), None);
}

#[test]
fn bool_schema_gives_empty_text() {
    assert_eq!(try_parse_schema("B", "/B".to_string(), &Schema::Bool(false)), Some(String::new()));
}

#[test]
fn schema_name_prefers_title_then_type_tag() {
    let titled = Schema::Object(SchemaObject { title: Some("T".to_string()), ..empty_object() });
    assert_eq!(name(&titled), Some("T"));
    let tagged = Schema::Object(SchemaObject {
        object: Some(ObjectValidation {
            properties: vec![("type".to_string(), tag("kind"))],
            required: vec![],
        }),
        ..empty_object()
    });
    assert_eq!(name(&tagged), Some("kind"));
    assert_eq!(name(&Schema::Bool(true)), None);
    assert!(object_validation(&tagged).is_some());
    let props = object_properties(&tagged).unwrap();
    assert_eq!(props.len(), 1);
    assert_eq!(props[0].0, "type");
    assert!(!props[0].1.required);
}

#[test]
fn merging_keeps_first_definitions_and_titles_win() {
    let mut res: Vec<(String, Schema)> = Vec::new();
    into(vec![("A".to_string(), Schema::Bool(true)), ("A".to_string(), Schema::Bool(false))], &mut res);
    assert_eq!(res.len(), 1);
    assert!(matches!(res[0].1, Schema::Bool(true)));
    let root = RootSchema {
        schema: SchemaObject { title: Some("A".to_string()), ..empty_object() },
        definitions: vec![("B".to_string(), Schema::Bool(true))],
    };
    root_schema(root, &mut res);
    assert_eq!(res.len(), 2);
    assert!(matches!(res[0].1, Schema::Object(_)));
    let untitled = || RootSchema { schema: empty_object(), definitions: vec![("C".to_string(), Schema::Bool(true))] };
    version(
        VersionSchema { public: untitled(), private: untitled(), action: untitled(), frozen: untitled() },
        &mut res,
    );
    assert_eq!(res.len(), 3);
}

#[test]
fn merged_names_stay_distinct() {
    let mut res = vec![("A".to_string(), Schema::Bool(true)), ("B".to_string(), Schema::Bool(false))];
    let root = RootSchema {
        schema: SchemaObject { title: Some("B".to_string()), ..empty_object() },
        definitions: vec![
            ("A".to_string(), Schema::Bool(false)),
            ("C".to_string(), Schema::Bool(true)),
            ("C".to_string(), Schema::Bool(false)),
        ],
    };
    root_schema(root, &mut res);
    let mut names: Vec<&str> = res.iter().map(|(n, _)| n.as_str()).collect();
    assert_eq!(names, vec!["A", "B", "C"]);
    names.dedup();
    assert_eq!(names.len(), 3);
    assert!(matches!(res[0].1, Schema::Bool(true)));
    assert!(matches!(res[1].1, Schema::Object(_)));
    assert!(matches!(res[2].1, Schema::Bool(true)));
}

fn shape(e: &TypeExpr) -> String {
    match e {
        TypeExpr::Identifier(x) => format!("id:{}", x),
        TypeExpr::StringLiteral(x) => format!("str:{}", x),
        TypeExpr::NumberLiteral(n) => format!("num:{}", n),
        TypeExpr::Union(ts) => format!("union[{}]", ts.iter().map(shape).collect::<Vec<_>>().join(",")),
        _ => "other".to_string(),
    }
}

#[test]
fn schema_object_types_have_their_shapes() {
    let mut imports = Imports::new("File", "/dir");
    let listed = SchemaObject {
        enum_values: Some(vec![JsonValue::String("a".to_string()), JsonValue::Number(Some(3)), JsonValue::Other]),
        ..empty_object()
    };
    assert_eq!(shape(&schema_object_to_type(&listed, &mut imports)), "union[str:a,num:3,id:never]");
    let referenced = SchemaObject { reference: Some("#/definitions/acl_Acl".to_string()), ..empty_object() };
    assert_eq!(shape(&schema_object_to_type(&referenced, &mut imports)), "id:Acl");
    assert_eq!(imports.get("Acl").map(|p| p.as_str()), Some("/acl/Acl"));
    let several = SchemaObject {
        instance_type: Some(SingleOrVec::Vec(vec![InstanceType::String, InstanceType::Null])),
        ..empty_object()
    };
    assert_eq!(shape(&schema_object_to_type(&several, &mut imports)), "union[id:string,id:null]");
    let single = SchemaObject { instance_type: Some(SingleOrVec::Single(InstanceType::Integer)), ..empty_object() };
    assert_eq!(shape(&schema_object_to_type(&single, &mut imports)), "id:number");
    assert_eq!(shape(&schema_object_to_type(&empty_object(), &mut imports)), "id:any");
}

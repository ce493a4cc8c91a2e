use semio_record::api::tagged::{
    result_schema, result_schema_name, result_schema_with_definitions, tagged_variant, view_schema,
    view_schema_name,
};
use semio_record::bind::schema::{JsonValue, Schema};

fn tag_of(s: &Schema) -> Option<String> {
    match s {
        Schema::Object(o) => match o.enum_values.as_deref() {
            Some([JsonValue::String(t)]) => Some(t.clone()),
            _ => None,
        },
        _ => None,
    }
}

fn reference_of(s: &Schema) -> Option<String> {
    match s {
        Schema::Object(o) => o.reference.clone(),
        _ => None,
    }
}

fn check_variant(s: &Schema, tag: &str, reference: &str) {
    let Schema::Object(o) = s else { panic!("object schema expected") };
    assert!(o.title.is_none());
    let ov = o.object.as_ref().expect("object validation");
    assert_eq!(ov.properties.len(), 2);
    assert_eq!(ov.properties[0].0, "type");
    assert_eq!(tag_of(&ov.properties[0].1).as_deref(), Some(tag));
    assert_eq!(ov.properties[1].0, "value");
    assert_eq!(reference_of(&ov.properties[1].1).as_deref(), Some(reference));
    assert_eq!(ov.required, vec!["type".to_string(), "value".to_string()]);
}

#[test]
fn schema_names() {
    assert_eq!(view_schema_name("module_v0_Module"), "api_View_module_v0_Module");
    assert_eq!(result_schema_name("api_GetSuccess"), "api_Result_api_GetSuccess");
}

#[test]
fn tagged_variant_shape() {
    check_variant(&tagged_variant("pub", "module_v0_Public"), "pub", "#/definitions/module_v0_Public");
}

#[test]
fn view_schema_shape() {
    let s = view_schema("module_v0_Module", "module_v0_Public", "module_v0_Unfrozen");
    let Schema::Object(o) = &s else { panic!("object schema expected") };
    assert_eq!(o.title.as_deref(), Some("api_View_module_v0_Module"));
    let vs = o.subschemas.as_ref().unwrap().one_of.as_ref().unwrap();
    assert_eq!(vs.len(), 2);
    check_variant(&vs[0], "pub", "#/definitions/module_v0_Public");
    check_variant(&vs[1], "pri", "#/definitions/module_v0_Unfrozen");
}

#[test]
fn result_schema_shape() {
    let s = result_schema("api_GetSuccess", "api_Failure");
    let Schema::Object(o) = &s else { panic!("object schema expected") };
    assert_eq!(o.title.as_deref(), Some("api_Result_api_GetSuccess"));
    assert!(o.object.is_none());
    let vs = o.subschemas.as_ref().unwrap().one_of.as_ref().unwrap();
    assert_eq!(vs.len(), 2);
    check_variant(&vs[0], "success", "#/definitions/api_GetSuccess");
    check_variant(&vs[1], "failure", "#/definitions/api_Failure");
}

#[test]
fn result_schema_registers_its_definitions() {
    let mut definitions = vec![
        ("api_Failure".to_string(), Schema::Bool(false)),
        ("Other".to_string(), Schema::Bool(true)),
    ];
    let s = result_schema_with_definitions(
        "api_GetSuccess".to_string(),
        Schema::Bool(true),
        "api_Failure".to_string(),
        Schema::Bool(true),
        &mut definitions,
    );
    let Schema::Object(o) = &s else { panic!("object schema expected") };
    assert_eq!(o.title.as_deref(), Some("api_Result_api_GetSuccess"));
    let names: Vec<&str> = definitions.iter().map(|(n, _)| n.as_str()).collect();
    assert_eq!(names, vec!["api_Failure", "Other", "api_GetSuccess"]);
    assert!(matches!(definitions[0].1, Schema::Bool(true)));
    assert!(matches!(definitions[2].1, Schema::Bool(true)));
}

use semio_record::bind::schema::Schema;
use semio_record::bind::plan::{write_plan, Step};
use semio_record::bind::scope::{rescope, Scope};

fn flag(s: &Schema) -> Option<bool> {
    match s {
        Schema::Bool(b) => Some(*b),
        Schema::Object(_) => None,
    }
}

fn names<T>(entries: &[(String, T)]) -> Vec<&str> {
    entries.iter().map(|(n, _)| n.as_str()).collect()
}

fn child<'a>(s: &'a Scope, name: &str) -> &'a Scope {
    &s.children.iter().find(|(n, _)| n == name).expect("child scope").1
}

fn definition(s: &Scope, name: &str) -> Option<bool> {
    s.definitions.iter().find(|(n, _)| n == name).and_then(|(_, d)| flag(d))
}

#[test]
fn rescope_groups_by_name_pieces() {
    let root = rescope(vec![
        ("module_v0_Public".to_string(), Schema::Bool(true)),
        ("module_v0_Action".to_string(), Schema::Bool(false)),
        ("acl_Acl".to_string(), Schema::Bool(true)),
        ("Uuid".to_string(), Schema::Bool(false)),
    ]);
    assert_eq!(names(&root.definitions), vec!["Uuid"]);
    assert_eq!(definition(&root, "Uuid"), Some(false));
    assert_eq!(names(&root.children), vec!["module", "acl"]);
    let module = child(&root, "module");
    assert!(module.definitions.is_empty());
    let v0 = child(module, "v0");
    assert_eq!(names(&v0.definitions), vec!["Public", "Action"]);
    assert_eq!(definition(v0, "Public"), Some(true));
    assert_eq!(definition(v0, "Action"), Some(false));
    assert!(v0.children.is_empty());
    let acl = child(&root, "acl");
    assert_eq!(definition(acl, "Acl"), Some(true));
}

#[test]
fn rescope_of_nothing_is_empty() {
    let root = rescope(vec![]);
    assert!(root.definitions.is_empty());
    assert!(root.children.is_empty());
}

#[test]
fn rescope_later_definition_takes_the_place() {
    let root = rescope(vec![
        ("a_b".to_string(), Schema::Bool(true)),
        ("a_b".to_string(), Schema::Bool(false)),
    ]);
    let a = child(&root, "a");
    assert_eq!(names(&a.definitions), vec!["b"]);
    assert_eq!(definition(a, "b"), Some(false));
}

#[test]
fn rescope_keeps_empty_pieces() {
    let root = rescope(vec![("_x_".to_string(), Schema::Bool(true))]);
    let first = child(&root, "");
    let second = child(first, "x");
    assert_eq!(names(&second.definitions), vec![""]);
    assert_eq!(definition(second, ""), Some(true));
}

fn describe(step: &Step) -> String {
    match step {
        Step::Dir(dirs) => format!("dir /{}", dirs.join("/")),
        Step::File(f) => format!(
            "file /{} {} {} {:?}",
            f.dirs.join("/"),
            f.name,
            f.logical_path,
            flag(f.schema)
        ),
    }
}

#[test]
fn write_plan_walks_depth_first() {
    let root = rescope(vec![
        ("module_v0_Public".to_string(), Schema::Bool(true)),
        ("module_v0_Action".to_string(), Schema::Bool(false)),
        ("Uuid".to_string(), Schema::Bool(false)),
        ("acl_Acl".to_string(), Schema::Bool(true)),
    ]);
    let steps: Vec<String> = write_plan(&root).iter().map(describe).collect();
    assert_eq!(
        steps,
        vec![
            "dir /".to_string(),
            "file / Uuid /Uuid Some(false)".to_string(),
            "dir /module".to_string(),
            "dir /module/v0".to_string(),
            "file /module/v0 Public /module/v0/Public Some(true)".to_string(),
            "file /module/v0 Action /module/v0/Action Some(false)".to_string(),
            "dir /acl".to_string(),
            "file /acl Acl /acl/Acl Some(true)".to_string(),
        ]
    );
}

#[test]
fn write_plan_of_empty_scope() {
    let root = rescope(vec![]);
    let steps: Vec<String> = write_plan(&root).iter().map(describe).collect();
    assert_eq!(steps, vec!["dir /".to_string()]);
}

use semio_record::ast::ImportDecl;
use semio_record::bind::imports::Imports;

#[test]
fn add_same_path_different_names() {
    let mut imports = Imports::new("MyFile", "/MyFile");
    assert_eq!(imports.add("Foo", "/Bar"), "Foo");
    assert_eq!(imports.add("Bar", "/Bar"), "Foo");
    assert_eq!(imports.entries().len(), 1);
}

#[test]
fn add_same_name_different_paths() {
    let mut imports = Imports::new("MyFile", "/MyFile");
    assert_eq!(imports.add("Foo", "/Foo"), "Foo");
    assert_eq!(imports.add("Foo", "/Bar"), "Bar");
    assert_eq!(imports.entries().len(), 2);
}

#[test]
fn add_same_name_as_file() {
    let mut imports = Imports::new("MyFile", "/MyFile");
    assert_eq!(imports.add("MyFile", "/Foo/MyFile"), "FooMyFile");
    assert_eq!(imports.entries().len(), 1);
}

#[test]
fn add_takes_longer_suffixes_until_free() {
    let mut imports = Imports::new("File", "/dir");
    assert_eq!(imports.add("C", "/a/b/C"), "C");
    assert_eq!(imports.add("C", "/x/b/C"), "bC");
    assert_eq!(imports.add("C", "/y/b/C"), "ybC");
    assert_eq!(imports.get("bC").map(|p| p.as_str()), Some("/x/b/C"));
    assert_eq!(imports.entries().len(), 3);
}

#[test]
fn try_add_refuses_when_every_name_is_taken() {
    let mut imports = Imports::new("F", "/dir");
    assert_eq!(imports.add("X", "/a/X"), "X");
    assert_eq!(imports.add("/X", "/b"), "/X");
    assert_eq!(imports.try_add("X", "/X"), None);
    assert_eq!(imports.entries().len(), 2);
    assert_eq!(imports.try_add("Y", "/Y"), Some("Y".to_string()));
}

#[test]
fn import_decls_are_relative_to_the_file() {
    let mut imports = Imports::new("File", "/a");
    imports.add("B", "/a/B");
    imports.add("C", "/c/C");
    let mut decls: Vec<(String, String)> = imports
        .import_decls()
        .into_iter()
        .map(|d: ImportDecl| (d.name, d.path))
        .collect();
    decls.sort();
    assert_eq!(
        decls,
        vec![
            ("B".to_string(), "./B".to_string()),
            ("C".to_string(), "./../c/C".to_string()),
        ]
    );
    assert_eq!(imports.try_decls().map(|d| d.len()), Some(2));
}

#[test]
fn relative_import_from_absolute_file_is_refused() {
    let mut imports = Imports::new("File", "/a");
    imports.add("B", "rel/B");
    assert!(imports.try_import_decls().is_none());
    assert!(imports.try_decls().is_none());
}

#[test]
fn add_keeps_earlier_imports() {
    let mut imports = Imports::new("File", "/dir");
    assert_eq!(imports.add("C", "/a/C"), "C");
    assert_eq!(imports.add("D", "/b/D"), "D");
    assert_eq!(imports.add("C", "/c/C"), "cC");
    assert_eq!(imports.get("C").map(|p| p.as_str()), Some("/a/C"));
    assert_eq!(imports.get("D").map(|p| p.as_str()), Some("/b/D"));
    assert_eq!(imports.add("Other", "/a/C"), "C");
    assert_eq!(imports.entries().len(), 3);
}

#[test]
fn paths_with_the_same_components_are_one_path() {
    let mut imports = Imports::new("File", "/dir");
    assert_eq!(imports.add("Foo", "/Bar"), "Foo");
    assert_eq!(imports.add("Baz", "/Bar/"), "Foo");
    assert_eq!(imports.add("Qux", "/x/./Bar"), "Qux");
    assert_eq!(imports.add("Other", "/x/Bar/"), "Qux");
    assert_eq!(imports.get("Qux").map(|p| p.as_str()), Some("/x/Bar"));
    assert_eq!(imports.entries().len(), 2);
}

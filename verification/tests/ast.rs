use semio_record::ast::{
    Block, BlockComponent, Decl, ExportDefaultDecl, File, ImportDecl, InterfaceDecl,
    InterfaceField, NamespaceDecl, ToTypescript, TypeDecl, TypeExpr,
};
use semio_record::text::i64_to_string;

#[test]
fn blocks_render_nested_lines_two_spaces_deeper() {
    let mut inner = Block::new();
    inner.add_line("b".to_string());
    let mut block = Block::new();
    block.add_line("a".to_string());
    block.add_block(inner);
    let mut tail = Block::new();
    tail.add_line("c".to_string());
    block.concat_block(tail);
    assert_eq!(block.to_string(1), "  a\n    b\n  c");
    let mut single = Block::new();
    single.add_line("only".to_string());
    assert_eq!(single.into_single_line(), Some("only".to_string()));
    assert_eq!(Block::new().into_single_line(), None);
    assert_eq!(BlockComponent::Line("x".to_string()).into_line(), Some("x".to_string()));
    assert!(BlockComponent::Line("x".to_string()).into_block().is_none());
}

#[test]
fn type_expressions_render_on_one_line() {
    let t = TypeExpr::union(vec![
        TypeExpr::identifier("A".to_string()),
        TypeExpr::array(TypeExpr::string_literal("s".to_string())),
        TypeExpr::dictionary(TypeExpr::number_literal(-12)),
    ]);
    assert_eq!(t.to_typescript().to_string(0), "(A | \"s\"[] | { [key: string]: -12 })");
}

#[test]
fn declarations_render() {
    let mut interface = InterfaceDecl::export("I".to_string());
    interface.add_field(InterfaceField {
        name: "f".to_string(),
        description: Some("doc".to_string()),
        optional: Some(true),
        ty: TypeExpr::identifier("number".to_string()),
    });
    let mut namespace = NamespaceDecl::new("N".to_string());
    namespace.append(Decl::Interface(interface));
    let mut file = File::new();
    file.append(Decl::Namespace(namespace));
    file.append(Decl::Type(TypeDecl::new("T".to_string(), TypeExpr::identifier("N.I".to_string()))));
    file.prepend_all(vec![
        Decl::Import(ImportDecl { name: "A".to_string(), path: "./A".to_string() }),
        Decl::Import(ImportDecl { name: "B".to_string(), path: "./B".to_string() }),
    ]);
    file.append(Decl::ExportDefault(ExportDefaultDecl { identifier: "T".to_string() }));
    assert_eq!(
        file.to_typescript().to_string(0),
        "import B from \"./B\";\nimport A from \"./A\";\nnamespace N {\n  export interface I {\n    /** doc */\n\n    f?: number;\n  }\n}\ntype T = N.I;\nexport default T;"
    );
}

#[test]
fn decimal_text() {
    assert_eq!(i64_to_string(0), "0");
    assert_eq!(i64_to_string(-907), "-907");
    assert_eq!(i64_to_string(i64::MIN), "-9223372036854775808");
}

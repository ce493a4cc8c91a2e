use vstd::prelude::*;

use super::bimap_map::{no_pairs, one_to_one};
use super::imports::{add_terminates, added, imports_resolvable, lists_imports, Imports, ImportsView};
use super::paths::{file_name, normal_path, path_file_name, pop_path, popped_path, push_path, pushed_path};
use super::schema::{
    listed, name, object_validation, object_validation_of, schema_name, InstanceType, JsonValue,
    ObjectValidation, Schema, SchemaObject, SingleOrVec,
};
use crate::ast::{
    decls_ts, depth, fields_ts, lemma_decls_concat, lemma_depth_bound, piece_depth, render,
    ts_type, ts_union, Decl, ExportDefaultDecl, File, ImportDecl, InterfaceDecl, InterfaceField,
    LineTree, NamespaceDecl, ToTypescript, TypeDecl, TypeExpr,
};
use crate::text::{decimal, join, lemma_split_on_nonempty, split_on, split_on_char};

verus! {

// ---------------------------------------------------------------------------
// The TypeScript text of schema types

/// The TypeScript name of an instance type.
pub open spec fn instance_ts(t: InstanceType) -> Seq<char> {
    match t {
        InstanceType::Null => "null"@,
        InstanceType::Boolean => "boolean"@,
        InstanceType::Integer => "number"@,
        InstanceType::Number => "number"@,
        InstanceType::String => "string"@,
        InstanceType::Array => "Array"@,
        InstanceType::Object => "object"@,
    }
}

/// The TypeScript type of a listed value: a string literal, a number
/// literal, or `never` for anything else.
pub open spec fn value_text(v: JsonValue) -> Seq<char> {
    match v {
        JsonValue::String(s) => "\""@ + s@ + "\""@,
        JsonValue::Number(Some(n)) => decimal(n as int),
        _ => "never"@,
    }
}

/// Every listed number is an `i64` (the only numbers a type can list).
pub open spec fn values_ok(vs: Seq<JsonValue>) -> bool {
    forall|i: int| 0 <= i < vs.len() ==> !((#[trigger] vs[i]) matches JsonValue::Number(None))
}

/// A union of alternatives: `(a | b | ...)`.
pub open spec fn union_text(pieces: Seq<Seq<char>>) -> Seq<char> {
    "("@ + join(pieces, " | "@) + ")"@
}

pub open spec fn values_union(vs: Seq<JsonValue>) -> Seq<char> {
    union_text(vs.map_values(|v: JsonValue| value_text(v)))
}

pub open spec fn instance_type_text(it: SingleOrVec) -> Seq<char> {
    match it {
        SingleOrVec::Single(t) => instance_ts(t),
        SingleOrVec::Vec(ts) => union_text(ts@.map_values(|t: InstanceType| instance_ts(t))),
    }
}

/// The text of a union of type expressions is that of a union of their
/// texts.
pub proof fn lemma_union_text(types: Seq<TypeExpr>)
    ensures
        ts_union(types) == join(types.map_values(|t: TypeExpr| ts_type(t)), " | "@),
    decreases types.len(),
{
    let texts = types.map_values(|t: TypeExpr| ts_type(t));
    if types.len() > 1 {
        let p = types.subrange(0, types.len() - 1);
        lemma_union_text(p);
        assert(texts.subrange(0, texts.len() - 1) =~= p.map_values(|t: TypeExpr| ts_type(t)));
    }
}

/// Whether `e` is the identifier `name`.
pub open spec fn is_identifier(e: TypeExpr, name: Seq<char>) -> bool {
    match e {
        TypeExpr::Identifier(x) => x@ == name,
        _ => false,
    }
}

/// Whether `e` is the type a listed value stands for: a string literal of
/// the string, a number literal of the number, or `never`.
pub open spec fn is_value_expr(v: JsonValue, e: TypeExpr) -> bool {
    match v {
        JsonValue::String(s) => match e {
            TypeExpr::StringLiteral(t) => t@ == s@,
            _ => false,
        },
        JsonValue::Number(n) => match n {
            Some(k) => e == TypeExpr::NumberLiteral(k),
            None => false,
        },
        JsonValue::Other => is_identifier(e, "never"@),
    }
}

/// Whether `e` is the union of the types the listed values stand for.
pub open spec fn is_values_expr(vs: Seq<JsonValue>, e: TypeExpr) -> bool {
    match e {
        TypeExpr::Union(ts) => ts@.len() == vs.len() && forall|i: int|
            0 <= i < vs.len() ==> is_value_expr(vs[i], #[trigger] ts@[i]),
        _ => false,
    }
}

/// Whether `e` is the identifier of an instance type, or the union of the
/// identifiers of several.
pub open spec fn is_instance_expr(it: SingleOrVec, e: TypeExpr) -> bool {
    match it {
        SingleOrVec::Single(t) => is_identifier(e, instance_ts(t)),
        SingleOrVec::Vec(ts) => match e {
            TypeExpr::Union(es) => es@.len() == ts@.len() && forall|i: int|
                0 <= i < ts@.len() ==> is_identifier(#[trigger] es@[i], instance_ts(ts@[i])),
            _ => false,
        },
    }
}

/// The TypeScript name of an instance type.
fn instance_type_to_ts(t: &InstanceType) -> (r: String)
    ensures
        r@ == instance_ts(*t),
{
    match t {
        InstanceType::Null => String::from_str("null"),
        InstanceType::Boolean => String::from_str("boolean"),
        InstanceType::Integer => String::from_str("number"),
        InstanceType::Number => String::from_str("number"),
        InstanceType::String => String::from_str("string"),
        InstanceType::Array => String::from_str("Array"),
        InstanceType::Object => String::from_str("object"),
    }
}

/// The type of a listed value.
fn value_type(v: &JsonValue) -> (r: TypeExpr)
    requires
        !(*v matches JsonValue::Number(None)),
    ensures
        ts_type(r) == value_text(*v),
        is_value_expr(*v, r),
{
    match v {
        JsonValue::String(s) => TypeExpr::string_literal(s.clone()),
        JsonValue::Number(n) => TypeExpr::number_literal(n.unwrap()),
        JsonValue::Other => TypeExpr::identifier(String::from_str("never")),
    }
}

/// The union of the types of the listed values.
fn values_type(vs: &Vec<JsonValue>) -> (r: TypeExpr)
    requires
        values_ok(vs@),
    ensures
        ts_type(r) == values_union(vs@),
        is_values_expr(vs@, r),
{
    let mut types: Vec<TypeExpr> = Vec::new();
    let n = vs.len();
    let mut i: usize = 0;
    while i < n
        invariant
            n == vs@.len(),
            i <= n,
            values_ok(vs@),
            types@.len() == i,
            forall|j: int| 0 <= j < i ==> ts_type(#[trigger] types@[j]) == value_text(vs@[j]),
            forall|j: int| 0 <= j < i ==> is_value_expr(vs@[j], #[trigger] types@[j]),
        decreases n - i,
    {
        let t = value_type(&vs[i]);
        types.push(t);
        i = i + 1;
    }
    let r = TypeExpr::union(types);
    proof {
        lemma_union_text(types@);
        assert(types@.map_values(|t: TypeExpr| ts_type(t)) =~= vs@.map_values(
            |v: JsonValue| value_text(v),
        ));
    }
    r
}

/// The type an instance type (or several) names.
fn instance_type_expr(it: &SingleOrVec) -> (r: TypeExpr)
    ensures
        ts_type(r) == instance_type_text(*it),
        is_instance_expr(*it, r),
{
    match it {
        SingleOrVec::Single(single) => TypeExpr::identifier(instance_type_to_ts(single)),
        SingleOrVec::Vec(vec) => {
            let mut types: Vec<TypeExpr> = Vec::new();
            let n = vec.len();
            let mut i: usize = 0;
            while i < n
                invariant
                    n == vec@.len(),
                    i <= n,
                    types@.len() == i,
                    forall|j: int| 0 <= j < i ==> ts_type(#[trigger] types@[j]) == instance_ts(vec@[j]),
                    forall|j: int| 0 <= j < i ==> is_identifier(#[trigger] types@[j], instance_ts(vec@[j])),
                decreases n - i,
            {
                types.push(TypeExpr::identifier(instance_type_to_ts(&vec[i])));
                i = i + 1;
            }
            let r = TypeExpr::union(types);
            proof {
                lemma_union_text(types@);
                assert(types@.map_values(|t: TypeExpr| ts_type(t)) =~= vec@.map_values(
                    |t: InstanceType| instance_ts(t),
                ));
            }
            r
        },
    }
}

// ---------------------------------------------------------------------------
// Definition names and their paths

/// The prefix every local definition reference starts with.
pub open spec fn definitions_prefix() -> Seq<char> {
    "#/definitions/"@
}

/// A reference with every leading `#/definitions/` taken off.
pub open spec fn strip_definitions(r: Seq<char>) -> Seq<char>
    decreases r.len(),
{
    if r.len() >= 14 && r.subrange(0, 14) == definitions_prefix() {
        strip_definitions(r.subrange(14, r.len() as int))
    } else {
        r
    }
}

/// The pieces of `s` between its underscores (`str::split('_')`).
pub open spec fn split_underscores(s: Seq<char>) -> Seq<Seq<char>> {
    split_on(s, '_')
}

/// The path of a definition name: the root, then each of the name's pieces
/// between underscores pushed in turn.
pub open spec fn path_of_parts(parts: Seq<Seq<char>>) -> Seq<char>
    decreases parts.len(),
{
    if parts.len() == 0 {
        pushed_path(Seq::empty(), "/"@)
    } else {
        pushed_path(path_of_parts(parts.drop_last()), parts.last())
    }
}

pub open spec fn name_path(name: Seq<char>) -> Seq<char> {
    path_of_parts(split_underscores(name))
}

/// Splitting at underscores always gives at least one piece.
pub proof fn lemma_split_nonempty(s: Seq<char>)
    ensures
        split_underscores(s).len() >= 1,
{
    lemma_split_on_nonempty(s, '_');
}

/// A reference with every leading `#/definitions/` taken off.
fn strip_definitions_of(r: &str) -> (s: String)
    ensures
        s@ == strip_definitions(r@),
{
    let prefix = String::from_str("#/definitions/");
    proof {
        reveal_strlit("#/definitions/");
    }
    let mut rest = String::from_str(r);
    loop
        invariant
            prefix@ == definitions_prefix(),
            strip_definitions(rest@) == strip_definitions(r@),
        decreases rest@.len(),
    {
        let len = rest.as_str().unicode_len();
        if len >= 14 {
            let head = String::from_str(rest.as_str().substring_char(0, 14));
            if head == prefix {
                let tail = String::from_str(rest.as_str().substring_char(14, len));
                rest = tail;
                continue;
            }
        }
        return rest;
    }
}

/// The pieces of `s` between its underscores.
pub(crate) fn split_underscores_of(s: &str) -> (r: Vec<String>)
    ensures
        r@.map_values(|p: String| p@) == split_underscores(s@),
{
    split_on_char(s, '_')
}

/// The path of a definition name: `/`, then each piece of the name between
/// underscores pushed in turn.
pub fn name_to_path(name: &str) -> (r: String)
    ensures
        r@ == name_path(name@),
{
    let parts = split_underscores_of(name);
    let ghost ps = parts@.map_values(|p: String| p@);
    let mut path = String::new();
    push_path(&mut path, "/");
    proof {
        reveal_strlit("/");
        assert(ps.subrange(0, 0) =~= Seq::<Seq<char>>::empty());
    }
    let n = parts.len();
    let mut i: usize = 0;
    while i < n
        invariant
            n == parts@.len(),
            ps == parts@.map_values(|p: String| p@),
            i <= n,
            path@ == path_of_parts(ps.subrange(0, i as int)),
        decreases n - i,
    {
        push_path(&mut path, parts[i].as_str());
        proof {
            assert(ps.subrange(0, i + 1).drop_last() =~= ps.subrange(0, i as int));
            assert(ps.subrange(0, i + 1).last() == parts@[i as int]@);
        }
        i = i + 1;
    }
    assert(ps.subrange(0, n as int) =~= ps);
    path
}

// ---------------------------------------------------------------------------
// The type of a schema object

/// The path a reference names.
pub open spec fn reference_path(r: Seq<char>) -> Seq<char> {
    name_path(strip_definitions(r))
}

/// Whether the type of a schema object can be found: its listed numbers are
/// `i64`s; its reference's path ends in a name, under which the path can be
/// imported.
pub open spec fn type_ok(o: SchemaObject, v: ImportsView) -> bool {
    match o.enum_values {
        Some(vs) => values_ok(vs@),
        None => match o.reference {
            Some(r) => {
                let path = reference_path(r@);
                path_file_name(path) is Some && add_terminates(v, path_file_name(path).unwrap(), normal_path(path))
            },
            None => true,
        },
    }
}

/// The text of the type of a schema object, and the imports after it: the
/// union of its listed values; else the name its reference is imported
/// under; else its instance type(s); else `any`.
pub open spec fn type_text(o: SchemaObject, v: ImportsView) -> (Seq<char>, ImportsView) {
    match o.enum_values {
        Some(vs) => (values_union(vs@), v),
        None => match o.reference {
            Some(r) => {
                let path = reference_path(r@);
                let (w, n) = added(v, path_file_name(path).unwrap(), normal_path(path));
                (n, w)
            },
            None => match o.instance_type {
                Some(it) => (instance_type_text(it), v),
                None => ("any"@, v),
            },
        },
    }
}

/// Whether `e` is the type of a schema object: the union of its listed
/// values; else the identifier its reference is imported under; else its
/// instance type(s); else `any`.
pub open spec fn is_type_expr(o: SchemaObject, v: ImportsView, e: TypeExpr) -> bool {
    match o.enum_values {
        Some(vs) => is_values_expr(vs@, e),
        None => match o.reference {
            Some(_) => is_identifier(e, type_text(o, v).0),
            None => match o.instance_type {
                Some(it) => is_instance_expr(it, e),
                None => is_identifier(e, "any"@),
            },
        },
    }
}

/// The TypeScript type of a schema object; a reference is imported.
pub fn schema_object_to_type(object: &SchemaObject, imports: &mut Imports) -> (r: TypeExpr)
    requires
        one_to_one(old(imports)@.pairs),
        type_ok(*object, old(imports)@),
    ensures
        one_to_one(final(imports)@.pairs),
        (ts_type(r), final(imports)@) == type_text(*object, old(imports)@),
        is_type_expr(*object, old(imports)@, r),
{
    if let Some(enum_values) = &object.enum_values {
        values_type(enum_values)
    } else if let Some(reference) = &object.reference {
        let stripped = strip_definitions_of(reference.as_str());
        let path = name_to_path(stripped.as_str());
        let name = file_name(path.as_str()).unwrap();
        let import_name = imports.add(name.as_str(), path.as_str());
        TypeExpr::identifier(import_name)
    } else if let Some(instance_type) = &object.instance_type {
        instance_type_expr(instance_type)
    } else {
        TypeExpr::identifier(String::from_str("any"))
    }
}

/// Whether the type of a schema object can be found, importing what it
/// refers to where it can.
fn check_type(object: &SchemaObject, imports: &mut Imports) -> (r: bool)
    requires
        one_to_one(old(imports)@.pairs),
    ensures
        one_to_one(final(imports)@.pairs),
        r == type_ok(*object, old(imports)@),
        r ==> final(imports)@ == type_text(*object, old(imports)@).1,
{
    if let Some(enum_values) = &object.enum_values {
        let n = enum_values.len();
        let mut i: usize = 0;
        while i < n
            invariant
                n == enum_values@.len(),
                i <= n,
                imports@ == old(imports)@,
                one_to_one(imports@.pairs),
                object.enum_values == Some(*enum_values),
                forall|j: int|
                    0 <= j < i ==> !((#[trigger] enum_values@[j]) matches JsonValue::Number(None)),
            decreases n - i,
        {
            if let JsonValue::Number(Option::None) = &enum_values[i] {
                return false;
            }
            i = i + 1;
        }
        true
    } else if let Some(reference) = &object.reference {
        let stripped = strip_definitions_of(reference.as_str());
        let path = name_to_path(stripped.as_str());
        match file_name(path.as_str()) {
            Option::None => false,
            Some(name) => imports.try_add(name.as_str(), path.as_str()).is_some(),
        }
    } else {
        true
    }
}

// ---------------------------------------------------------------------------
// Interfaces

/// The line of an interface field: its name, a `?` if it is not required,
/// and its type.
pub open spec fn field_entry(name: Seq<char>, required: bool, ty: Seq<char>) -> LineTree {
    LineTree::Line(
        name + (if required {
            Seq::empty()
        } else {
            "?"@
        }) + ": "@ + ty + ";"@,
    )
}

/// The field lines of the properties whose schemas are objects, in order,
/// and the imports after their types.
pub open spec fn fields_lines(props: Seq<(String, Schema)>, required: Seq<String>, v: ImportsView) -> (Seq<LineTree>, ImportsView)
    decreases props.len(),
{
    if props.len() == 0 {
        (Seq::empty(), v)
    } else {
        let (ls, w) = fields_lines(props.drop_last(), required, v);
        match props.last().1 {
            Schema::Object(o) => {
                let (t, w2) = type_text(o, w);
                (ls.push(field_entry(props.last().0@, listed(required, props.last().0@), t)), w2)
            },
            Schema::Bool(_) => (ls, w),
        }
    }
}

pub open spec fn fields_ok(props: Seq<(String, Schema)>, required: Seq<String>, v: ImportsView) -> bool
    decreases props.len(),
{
    if props.len() == 0 {
        true
    } else {
        fields_ok(props.drop_last(), required, v) && match props.last().1 {
            Schema::Object(o) => type_ok(o, fields_lines(props.drop_last(), required, v).1),
            Schema::Bool(_) => true,
        }
    }
}

/// `export interface Name {` (or without `export`), the fields, `}`.
pub open spec fn interface_lines(export: bool, name: Seq<char>, fields: Seq<LineTree>) -> Seq<LineTree> {
    seq![
        LineTree::Line(
            (if export {
                "export "@
            } else {
                Seq::empty()
            }) + "interface "@ + name + " {"@,
        ),
        LineTree::Nested(fields),
        LineTree::Line("}"@),
    ]
}

proof fn lemma_fields_prefix(props: Seq<(String, Schema)>, required: Seq<String>, v: ImportsView, i: int)
    requires
        0 <= i <= props.len(),
        fields_ok(props, required, v),
    ensures
        fields_ok(props.take(i), required, v),
    decreases props.len() - i,
{
    if i < props.len() {
        lemma_fields_prefix(props, required, v, i + 1);
        assert(props.take(i + 1).drop_last() =~= props.take(i));
    } else {
        assert(props.take(i) =~= props);
    }
}

proof fn lemma_fields_flat(props: Seq<(String, Schema)>, required: Seq<String>, v: ImportsView)
    ensures
        forall|i: int|
            0 <= i < fields_lines(props, required, v).0.len() ==> #[trigger] fields_lines(
                props,
                required,
                v,
            ).0[i] is Line,
    decreases props.len(),
{
    if props.len() > 0 {
        lemma_fields_flat(props.drop_last(), required, v);
    }
}

/// Adds to an interface a field for each property whose schema is an
/// object, its type found (and imported) in turn.
fn emit_fields(props: &Vec<(String, Schema)>, required: &Vec<String>, imports: &mut Imports, interface: &mut InterfaceDecl)
    requires
        one_to_one(old(imports)@.pairs),
        fields_ok(props@, required@, old(imports)@),
    ensures
        one_to_one(final(imports)@.pairs),
        final(interface).export == old(interface).export,
        final(interface).name == old(interface).name,
        fields_ts(final(interface).fields@) == fields_ts(old(interface).fields@) + fields_lines(props@, required@, old(imports)@).0,
        final(imports)@ == fields_lines(props@, required@, old(imports)@).1,
{
    let ghost v0 = imports@;
    let ghost start = interface.fields@;
    let n = props.len();
    let mut i: usize = 0;
    assert(props@.take(0) =~= Seq::<(String, Schema)>::empty());
    while i < n
        invariant
            n == props@.len(),
            i <= n,
            one_to_one(imports@.pairs),
            fields_ok(props@, required@, v0),
            interface.export == old(interface).export,
            interface.name == old(interface).name,
            fields_ts(interface.fields@) == fields_ts(start) + fields_lines(props@.take(i as int), required@, v0).0,
            imports@ == fields_lines(props@.take(i as int), required@, v0).1,
        decreases n - i,
    {
        proof {
            lemma_fields_prefix(props@, required@, v0, i + 1);
            assert(props@.take(i + 1).drop_last() =~= props@.take(i as int));
            assert(props@.take(i + 1).last() == props@[i as int]);
        }
        let (name, property) = &props[i];
        if let Schema::Object(object) = property {
            let ty = schema_object_to_type(object, imports);
            let is_required = required_listed(required, name);
            let field = InterfaceField {
                name: name.clone(),
                optional: Some(!is_required),
                description: Option::None,
                ty,
            };
            let ghost before = interface.fields@;
            interface.add_field(field);
            proof {
                let fs = interface.fields@;
                assert(fs.subrange(0, fs.len() - 1) =~= before);
                assert(fields_ts(fs) == fields_ts(before) + crate::ast::field_ts(field));
            }
        }
        i = i + 1;
    }
    assert(props@.take(n as int) =~= props@);
}

/// Whether a name is among the required ones.
fn required_listed(required: &Vec<String>, name: &String) -> (r: bool)
    ensures
        r == listed(required@, name@),
{
    let n = required.len();
    let mut i: usize = 0;
    while i < n
        invariant
            n == required@.len(),
            i <= n,
            forall|j: int| 0 <= j < i ==> (#[trigger] required@[j])@ != name@,
        decreases n - i,
    {
        if required[i] == *name {
            return true;
        }
        i = i + 1;
    }
    false
}

/// Whether the type of every field can be found, importing in turn.
fn check_fields(props: &Vec<(String, Schema)>, required: &Vec<String>, imports: &mut Imports) -> (r: bool)
    requires
        one_to_one(old(imports)@.pairs),
    ensures
        one_to_one(final(imports)@.pairs),
        r == fields_ok(props@, required@, old(imports)@),
        r ==> final(imports)@ == fields_lines(props@, required@, old(imports)@).1,
{
    let ghost v0 = imports@;
    let n = props.len();
    let mut i: usize = 0;
    assert(props@.take(0) =~= Seq::<(String, Schema)>::empty());
    while i < n
        invariant
            n == props@.len(),
            i <= n,
            one_to_one(imports@.pairs),
            v0 == old(imports)@,
            fields_ok(props@.take(i as int), required@, v0),
            imports@ == fields_lines(props@.take(i as int), required@, v0).1,
        decreases n - i,
    {
        proof {
            assert(props@.take(i + 1).drop_last() =~= props@.take(i as int));
            assert(props@.take(i + 1).last() == props@[i as int]);
        }
        if let Schema::Object(object) = &props[i].1 {
            let ghost before = imports@;
            if !check_type(object, imports) {
                proof {
                    assert(!type_ok(*object, before));
                    if fields_ok(props@, required@, v0) {
                        lemma_fields_prefix(props@, required@, v0, i + 1);
                        assert(fields_ok(props@.take(i + 1), required@, v0));
                        assert(false);
                    }
                    assert(!fields_ok(props@, required@, v0));
                    assert(v0 == old(imports)@);
                }
                return false;
            }
        }
        i = i + 1;
    }
    assert(props@.take(n as int) =~= props@);
    true
}

// ---------------------------------------------------------------------------
// The variants of a union

/// The fields of a variant schema, if it is an object schema.
pub open spec fn variant_fields(s: Schema, v: ImportsView) -> (Seq<LineTree>, ImportsView) {
    match object_validation_of(s) {
        Some(ov) => fields_lines(ov.properties@, ov.required@, v),
        None => (Seq::empty(), v),
    }
}

pub open spec fn variant_fields_ok(s: Schema, v: ImportsView) -> bool {
    match object_validation_of(s) {
        Some(ov) => fields_ok(ov.properties@, ov.required@, v),
        None => true,
    }
}

/// For the variants of a union, in order: the lines of an exported
/// interface for each variant that has a name, those names, and the imports
/// after their fields' types.
pub open spec fn variants_lines(schemas: Seq<Schema>, v: ImportsView) -> (Seq<LineTree>, Seq<Seq<char>>, ImportsView)
    decreases schemas.len(),
{
    if schemas.len() == 0 {
        (Seq::empty(), Seq::empty(), v)
    } else {
        let (ls, ns, w) = variants_lines(schemas.drop_last(), v);
        match schema_name(schemas.last()) {
            None => (ls, ns, w),
            Some(vn) => {
                let (fls, w2) = variant_fields(schemas.last(), w);
                (ls + interface_lines(true, vn, fls), ns.push(vn), w2)
            },
        }
    }
}

pub open spec fn variants_ok(schemas: Seq<Schema>, v: ImportsView) -> bool
    decreases schemas.len(),
{
    if schemas.len() == 0 {
        true
    } else {
        variants_ok(schemas.drop_last(), v) && (schema_name(schemas.last()) is Some
            ==> variant_fields_ok(schemas.last(), variants_lines(schemas.drop_last(), v).2))
    }
}

proof fn lemma_variants_prefix(schemas: Seq<Schema>, v: ImportsView, i: int)
    requires
        0 <= i <= schemas.len(),
        variants_ok(schemas, v),
    ensures
        variants_ok(schemas.take(i), v),
    decreases schemas.len() - i,
{
    if i < schemas.len() {
        lemma_variants_prefix(schemas, v, i + 1);
        assert(schemas.take(i + 1).drop_last() =~= schemas.take(i));
    } else {
        assert(schemas.take(i) =~= schemas);
    }
}

proof fn lemma_variants_shallow(schemas: Seq<Schema>, v: ImportsView)
    ensures
        forall|i: int|
            0 <= i < variants_lines(schemas, v).0.len() ==> piece_depth(
                #[trigger] variants_lines(schemas, v).0[i],
            ) <= 1,
    decreases schemas.len(),
{
    if schemas.len() > 0 {
        lemma_variants_shallow(schemas.drop_last(), v);
        let (ls, ns, w) = variants_lines(schemas.drop_last(), v);
        if let Some(vn) = schema_name(schemas.last()) {
            let (fls, w2) = variant_fields(schemas.last(), w);
            lemma_fields_flat_any(schemas.last(), w);
            lemma_depth_bound(fls, 0);
            let il = interface_lines(true, vn, fls);
            assert forall|i: int| 0 <= i < (ls + il).len() implies piece_depth(#[trigger] (ls + il)[i]) <= 1 by {
                if i >= ls.len() {
                    assert((ls + il)[i] == il[i - ls.len()]);
                }
            }
        }
    }
}

proof fn lemma_fields_flat_any(s: Schema, v: ImportsView)
    ensures
        forall|i: int| 0 <= i < variant_fields(s, v).0.len() ==> piece_depth(#[trigger] variant_fields(s, v).0[i]) == 0,
{
    match object_validation_of(s) {
        Some(ov) => {
            lemma_fields_flat(ov.properties@, ov.required@, v);
        },
        None => {},
    }
}

/// Adds to a namespace an exported interface for each variant that has a
/// name, with a field for each of its object properties.
fn emit_variants(one_of: &Vec<Schema>, imports: &mut Imports, namespace: &mut NamespaceDecl)
    requires
        one_to_one(old(imports)@.pairs),
        variants_ok(one_of@, old(imports)@),
        old(namespace).decls@.len() == 0,
    ensures
        one_to_one(final(imports)@.pairs),
        final(namespace).name == old(namespace).name,
        decls_ts(final(namespace).decls@) == variants_lines(one_of@, old(imports)@).0,
        final(imports)@ == variants_lines(one_of@, old(imports)@).2,
        final(namespace).decls@.len() == variants_lines(one_of@, old(imports)@).1.len(),
        forall|k: int|
            0 <= k < final(namespace).decls@.len() ==> (#[trigger] final(namespace).decls@[k]) is Interface
                && final(namespace).decls@[k]->Interface_0.name@ == variants_lines(one_of@, old(imports)@).1[k],
{
    let ghost v0 = imports@;
    let n = one_of.len();
    let mut i: usize = 0;
    assert(one_of@.take(0) =~= Seq::<Schema>::empty());
    while i < n
        invariant
            n == one_of@.len(),
            i <= n,
            one_to_one(imports@.pairs),
            v0 == old(imports)@,
            variants_ok(one_of@, v0),
            namespace.name == old(namespace).name,
            decls_ts(namespace.decls@) == variants_lines(one_of@.take(i as int), v0).0,
            imports@ == variants_lines(one_of@.take(i as int), v0).2,
            namespace.decls@.len() == variants_lines(one_of@.take(i as int), v0).1.len(),
            forall|k: int|
                0 <= k < namespace.decls@.len() ==> (#[trigger] namespace.decls@[k]) is Interface
                    && namespace.decls@[k]->Interface_0.name@ == variants_lines(one_of@.take(i as int), v0).1[k],
        decreases n - i,
    {
        proof {
            lemma_variants_prefix(one_of@, v0, i + 1);
            assert(one_of@.take(i + 1).drop_last() =~= one_of@.take(i as int));
            assert(one_of@.take(i + 1).last() == one_of@[i as int]);
        }
        let schema = &one_of[i];
        if let Some(variant_name) = name(schema) {
            let mut interface = InterfaceDecl::export(String::from_str(variant_name));
            if let Some(ov) = object_validation(schema) {
                emit_fields(&ov.properties, &ov.required, imports, &mut interface);
            }
            let ghost before = namespace.decls@;
            proof {
                let w = variants_lines(one_of@.take(i as int), v0).2;
                assert(fields_ts(Seq::<InterfaceField>::empty()) =~= Seq::<LineTree>::empty());
                assert(Seq::<LineTree>::empty() + variant_fields(*schema, w).0 =~= variant_fields(*schema, w).0);
                assert(fields_ts(interface.fields@) == variant_fields(*schema, w).0);
                assert(crate::ast::interface_ts(interface) =~= interface_lines(
                    true,
                    variant_name@,
                    fields_ts(interface.fields@),
                ));
            }
            let ghost il = interface_lines(true, variant_name@, fields_ts(interface.fields@));
            let ghost d = Decl::Interface(interface);
            proof {
                assert(crate::ast::decl_ts(d) == crate::ast::interface_ts(interface));
            }
            namespace.append(Decl::Interface(interface));
            proof {
                let ds = namespace.decls@;
                assert(ds.subrange(0, ds.len() - 1) =~= before);
                assert(ds[ds.len() - 1] == d);
                assert(decls_ts(ds) == decls_ts(before) + il);
                let prev = one_of@.take(i as int);
                let cur = one_of@.take(i + 1);
                assert(cur.drop_last() == prev);
                assert(cur.last() == *schema);
                assert(schema_name(cur.last()) == Some(variant_name@));
                assert(variants_lines(cur, v0).0 == variants_lines(prev, v0).0 + il);
            }
        }
        i = i + 1;
    }
    assert(one_of@.take(n as int) =~= one_of@);
}

/// Whether the fields of every named variant can be typed, importing in
/// turn.
fn check_variants(one_of: &Vec<Schema>, imports: &mut Imports) -> (r: bool)
    requires
        one_to_one(old(imports)@.pairs),
    ensures
        one_to_one(final(imports)@.pairs),
        r == variants_ok(one_of@, old(imports)@),
        r ==> final(imports)@ == variants_lines(one_of@, old(imports)@).2,
{
    let ghost v0 = imports@;
    let n = one_of.len();
    let mut i: usize = 0;
    assert(one_of@.take(0) =~= Seq::<Schema>::empty());
    while i < n
        invariant
            n == one_of@.len(),
            i <= n,
            one_to_one(imports@.pairs),
            v0 == old(imports)@,
            variants_ok(one_of@.take(i as int), v0),
            imports@ == variants_lines(one_of@.take(i as int), v0).2,
        decreases n - i,
    {
        proof {
            assert(one_of@.take(i + 1).drop_last() =~= one_of@.take(i as int));
            assert(one_of@.take(i + 1).last() == one_of@[i as int]);
        }
        let schema = &one_of[i];
        if name(schema).is_some() {
            if let Some(ov) = object_validation(schema) {
                let ghost before = imports@;
                if !check_fields(&ov.properties, &ov.required, imports) {
                    proof {
                        assert(!variant_fields_ok(*schema, before));
                        if variants_ok(one_of@, v0) {
                            lemma_variants_prefix(one_of@, v0, i + 1);
                            assert(variants_ok(one_of@.take(i + 1), v0));
                            assert(false);
                        }
                    }
                    return false;
                }
            }
        }
        i = i + 1;
    }
    assert(one_of@.take(n as int) =~= one_of@);
    true
}

// ---------------------------------------------------------------------------
// The declarations of a definition

/// `type Name = <type>;`
pub open spec fn type_decl_line(name: Seq<char>, ty: Seq<char>) -> LineTree {
    LineTree::Line("type "@ + name + " = "@ + ty + ";"@)
}

/// The declarations a definition's schema object gives, and the imports
/// after them. A union (`oneOf`) gives a namespace of the variants'
/// interfaces and the union of them (with a `void` type first when there
/// are no variants); an object schema an interface; a schema that lists
/// values the union of them; a schema with instance types those types.
pub open spec fn body_lines(name: Seq<char>, o: SchemaObject, v: ImportsView) -> (Seq<LineTree>, ImportsView) {
    match o.subschemas {
        Some(sub) => match sub.one_of {
            Some(one_of) => {
                let (inner, names, w) = variants_lines(one_of@, v);
                let void_decl = if one_of@.len() == 0 {
                    seq![type_decl_line(name, "void"@)]
                } else {
                    Seq::empty()
                };
                let union = union_text(names.map_values(|n: Seq<char>| name + "."@ + n));
                (
                    void_decl + seq![
                        LineTree::Line("namespace "@ + name + " {"@),
                        LineTree::Nested(inner),
                        LineTree::Line("}"@),
                    ] + seq![type_decl_line(name, union)],
                    w,
                )
            },
            None => (Seq::empty(), v),
        },
        None => match o.object {
            Some(ov) => {
                let (fls, w) = fields_lines(ov.properties@, ov.required@, v);
                (interface_lines(false, name, fls), w)
            },
            None => match o.enum_values {
                Some(vs) => (seq![type_decl_line(name, values_union(vs@))], v),
                None => match o.instance_type {
                    Some(it) => (seq![type_decl_line(name, instance_type_text(it))], v),
                    None => (Seq::empty(), v),
                },
            },
        },
    }
}

pub open spec fn body_ok(name: Seq<char>, o: SchemaObject, v: ImportsView) -> bool {
    match o.subschemas {
        Some(sub) => match sub.one_of {
            Some(one_of) => variants_ok(one_of@, v),
            None => true,
        },
        None => match o.object {
            Some(ov) => fields_ok(ov.properties@, ov.required@, v),
            None => match o.enum_values {
                Some(vs) => values_ok(vs@),
                None => true,
            },
        },
    }
}

proof fn lemma_body_shallow(name: Seq<char>, o: SchemaObject, v: ImportsView)
    ensures
        forall|i: int|
            0 <= i < body_lines(name, o, v).0.len() ==> piece_depth(#[trigger] body_lines(name, o, v).0[i]) <= 2,
{
    match o.subschemas {
        Some(sub) => match sub.one_of {
            Some(one_of) => {
                lemma_variants_shallow(one_of@, v);
                lemma_depth_bound(variants_lines(one_of@, v).0, 1);
            },
            None => {},
        },
        None => match o.object {
            Some(ov) => {
                lemma_fields_flat(ov.properties@, ov.required@, v);
                lemma_depth_bound(fields_lines(ov.properties@, ov.required@, v).0, 0);
            },
            None => {},
        },
    }
}

fn append_decl(file: &mut File, decl: Decl)
    ensures
        decls_ts(final(file).decls@) == decls_ts(old(file).decls@) + crate::ast::decl_ts(decl),
{
    let ghost before = file.decls@;
    file.append(decl);
    proof {
        let ds = file.decls@;
        assert(ds.subrange(0, ds.len() - 1) =~= before);
    }
}

/// Adds to the file the declarations of a definition's schema object.
fn emit_body(name: &str, object: &SchemaObject, imports: &mut Imports, file: &mut File)
    requires
        one_to_one(old(imports)@.pairs),
        body_ok(name@, *object, old(imports)@),
    ensures
        one_to_one(final(imports)@.pairs),
        decls_ts(final(file).decls@) == decls_ts(old(file).decls@) + body_lines(name@, *object, old(imports)@).0,
        final(imports)@ == body_lines(name@, *object, old(imports)@).1,
{
    let ghost v0 = imports@;
    let ghost start = decls_ts(file.decls@);
    if let Some(subschemas) = &object.subschemas {
        if let Some(one_of) = &subschemas.one_of {
            if one_of.len() == 0 {
                append_decl(file, Decl::Type(TypeDecl::new(String::from_str(name), TypeExpr::identifier(String::from_str("void")))));
            }
            let ghost after_void = decls_ts(file.decls@);
            let mut namespace = NamespaceDecl::new(String::from_str(name));
            emit_variants(one_of, imports, &mut namespace);
            let ghost names = variants_lines(one_of@, v0).1;
            let mut union: Vec<TypeExpr> = Vec::new();
            let n = namespace.decls.len();
            let mut i: usize = 0;
            while i < n
                invariant
                    n == namespace.decls@.len(),
                    n == names.len(),
                    i <= n,
                    forall|k: int|
                        0 <= k < n ==> (#[trigger] namespace.decls@[k]) is Interface
                            && namespace.decls@[k]->Interface_0.name@ == names[k],
                    union@.len() == i,
                    forall|k: int| 0 <= k < i ==> ts_type(#[trigger] union@[k]) == name@ + "."@ + names[k],
                decreases n - i,
            {
                if let Decl::Interface(interface) = &namespace.decls[i] {
                    let mut id = String::from_str(name);
                    id.append(".");
                    id.append(interface.name.as_str());
                    union.push(TypeExpr::identifier(id));
                }
                i = i + 1;
            }
            proof {
                lemma_union_text(union@);
                assert(union@.map_values(|t: TypeExpr| ts_type(t)) =~= names.map_values(
                    |m: Seq<char>| name@ + "."@ + m,
                ));
            }
            append_decl(file, Decl::Namespace(namespace));
            append_decl(file, Decl::Type(TypeDecl::new(String::from_str(name), TypeExpr::union(union))));
            proof {
                reveal_strlit("void");
                let body = body_lines(name@, *object, v0).0;
                assert(decls_ts(file.decls@) =~= start + body);
            }
        } else {
            proof {
                assert(decls_ts(file.decls@) =~= start + Seq::<LineTree>::empty());
            }
        }
    } else if let Some(object_validation) = &object.object {
        let mut interface = InterfaceDecl::new(String::from_str(name));
        emit_fields(&object_validation.properties, &object_validation.required, imports, &mut interface);
        proof {
            assert(fields_ts(Seq::<InterfaceField>::empty()) =~= Seq::<LineTree>::empty());
            assert(crate::ast::interface_ts(interface) =~= interface_lines(false, name@, fields_ts(interface.fields@)));
        }
        append_decl(file, Decl::Interface(interface));
    } else if let Some(enum_values) = &object.enum_values {
        append_decl(file, Decl::Type(TypeDecl::new(String::from_str(name), values_type(enum_values))));
    } else if let Some(instance_type) = &object.instance_type {
        append_decl(file, Decl::Type(TypeDecl::new(String::from_str(name), instance_type_expr(instance_type))));
    } else {
        proof {
            assert(decls_ts(file.decls@) =~= start + Seq::<LineTree>::empty());
        }
    }
}

/// Whether the declarations of a definition's schema object can be made,
/// importing in turn.
fn check_body(name: &str, object: &SchemaObject, imports: &mut Imports) -> (r: bool)
    requires
        one_to_one(old(imports)@.pairs),
    ensures
        one_to_one(final(imports)@.pairs),
        r == body_ok(name@, *object, old(imports)@),
        r ==> final(imports)@ == body_lines(name@, *object, old(imports)@).1,
{
    if let Some(subschemas) = &object.subschemas {
        if let Some(one_of) = &subschemas.one_of {
            check_variants(one_of, imports)
        } else {
            true
        }
    } else if let Some(object_validation) = &object.object {
        check_fields(&object_validation.properties, &object_validation.required, imports)
    } else if let Some(enum_values) = &object.enum_values {
        let n = enum_values.len();
        let mut i: usize = 0;
        while i < n
            invariant
                n == enum_values@.len(),
                i <= n,
                imports@ == old(imports)@,
                one_to_one(imports@.pairs),
                object.subschemas is None,
                object.object is None,
                object.enum_values == Some(*enum_values),
                forall|j: int|
                    0 <= j < i ==> !((#[trigger] enum_values@[j]) matches JsonValue::Number(None)),
            decreases n - i,
        {
            if let JsonValue::Number(Option::None) = &enum_values[i] {
                return false;
            }
            i = i + 1;
        }
        true
    } else {
        true
    }
}

// ---------------------------------------------------------------------------
// A definition's file

/// The imports a definition's file starts with: none, for the file `name`
/// in the directory of `logical_path`.
pub open spec fn start_imports(name: Seq<char>, logical_path: Seq<char>) -> ImportsView {
    ImportsView { name, path: popped_path(logical_path), pairs: no_pairs() }
}

/// The imports a definition's file ends with.
pub open spec fn final_imports(name: Seq<char>, logical_path: Seq<char>, o: SchemaObject) -> ImportsView {
    body_lines(name, o, start_imports(name, logical_path)).1
}

/// Whether the file of a definition can be made: every type can be found
/// and every import has a path relative to the file's directory.
pub open spec fn object_ok(name: Seq<char>, logical_path: Seq<char>, o: SchemaObject) -> bool {
    &&& body_ok(name, o, start_imports(name, logical_path))
    &&& imports_resolvable(final_imports(name, logical_path, o))
}

/// `import Name from "path";`
pub open spec fn import_line(d: ImportDecl) -> LineTree {
    LineTree::Line("import "@ + d.name@ + " from \""@ + d.path@ + "\";"@)
}

/// The lines of a definition's file, given the order of its imports: the
/// imports, the definition's declarations, then its default export.
pub open spec fn object_file(name: Seq<char>, logical_path: Seq<char>, o: SchemaObject, ds: Seq<ImportDecl>) -> Seq<LineTree> {
    ds.map_values(|d: ImportDecl| import_line(d)) + body_lines(
        name,
        o,
        start_imports(name, logical_path),
    ).0 + seq![LineTree::Line("export default "@ + name + ";"@)]
}

/// `text` is the file of the definition, its imports in some order.
pub open spec fn generated(name: Seq<char>, logical_path: Seq<char>, o: SchemaObject, text: Seq<char>) -> bool {
    exists|ds: Seq<ImportDecl>|
        lists_imports(ds, final_imports(name, logical_path, o)) && text == render(
            #[trigger] object_file(name, logical_path, o, ds),
            0,
        )
}

/// Imports in reverse order are imports in some order.
proof fn lemma_reverse_lists(ds: Seq<ImportDecl>, v: ImportsView)
    requires
        lists_imports(ds, v),
    ensures
        lists_imports(ds.reverse(), v),
{
    let r = ds.reverse();
    assert forall|i: int, j: int| 0 <= i < j < r.len() implies (#[trigger] r[i]).name@ != (#[trigger] r[j]).name@ by {
        assert(r[i] == ds[ds.len() - 1 - i]);
        assert(r[j] == ds[ds.len() - 1 - j]);
    }
    assert forall|l: Seq<char>| #[trigger] v.pairs.contains_key(l) implies exists|i: int|
        0 <= i < r.len() && (#[trigger] r[i]).name@ == l by {
        let k = choose|k: int| 0 <= k < ds.len() && (#[trigger] ds[k]).name@ == l;
        assert(r[ds.len() - 1 - k] == ds[k]);
    }
    assert forall|i: int| 0 <= i < r.len() implies v.pairs.contains_key((#[trigger] r[i]).name@)
        && r[i].path@ == super::imports::import_path(v, v.pairs[r[i].name@]) by {
        assert(r[i] == ds[ds.len() - 1 - i]);
    }
}

/// The lines of import declarations.
proof fn lemma_import_decls_ts(ds: Seq<Decl>)
    requires
        forall|i: int| 0 <= i < ds.len() ==> (#[trigger] ds[i]) is Import,
    ensures
        decls_ts(ds) == ds.map_values(|d: Decl| d->Import_0).map_values(|d: ImportDecl| import_line(d)),
    decreases ds.len(),
{
    if ds.len() > 0 {
        let p = ds.subrange(0, ds.len() - 1);
        lemma_import_decls_ts(p);
        let last = ds[ds.len() - 1];
        assert(crate::ast::decl_ts(last) == crate::ast::import_ts(last->Import_0));
        assert(ds.map_values(|d: Decl| d->Import_0).map_values(|d: ImportDecl| import_line(d))
            =~= p.map_values(|d: Decl| d->Import_0).map_values(|d: ImportDecl| import_line(d)).push(
            import_line(last->Import_0),
        ));
    } else {
        assert(ds.map_values(|d: Decl| d->Import_0).map_values(|d: ImportDecl| import_line(d))
            =~= Seq::<LineTree>::empty());
    }
}

/// The TypeScript source of a definition's file: an import for each other
/// definition it refers to, its declarations, and its default export. The
/// imports come in an order that nothing fixes.
pub fn parse_schema_object(name: &str, logical_path: String, object: &SchemaObject) -> (r: String)
    requires
        object_ok(name@, logical_path@, *object),
    ensures
        generated(name@, logical_path@, *object, r@),
{
    let ghost lp = logical_path@;
    let mut logical_path = logical_path;
    pop_path(&mut logical_path);
    let mut imports = Imports::new(name, logical_path.as_str());
    let mut file = File::new();
    proof {
        assert(decls_ts(file.decls@) =~= Seq::<LineTree>::empty());
    }
    emit_body(name, object, &mut imports, &mut file);
    let ghost body = file.decls@;
    let decls = imports.decls();
    let ghost given = decls@;
    file.prepend_all(decls);
    append_decl(&mut file, Decl::ExportDefault(ExportDefaultDecl { identifier: String::from_str(name) }));
    let ghost ds = given.reverse().map_values(|d: Decl| d->Import_0);
    proof {
        let v = final_imports(name@, lp, *object);
        assert(given.reverse().map_values(|d: Decl| d->Import_0) =~= given.map_values(|d: Decl| d->Import_0).reverse());
        lemma_reverse_lists(given.map_values(|d: Decl| d->Import_0), v);
        assert forall|i: int| 0 <= i < given.reverse().len() implies (#[trigger] given.reverse()[i]) is Import by {
            assert(given.reverse()[i] == given[given.len() - 1 - i]);
        }
        lemma_import_decls_ts(given.reverse());
        lemma_decls_concat(given.reverse(), body);
        let file_ts = decls_ts(file.decls@);
        assert(file_ts =~= object_file(name@, lp, *object, ds));
        lemma_body_shallow(name@, *object, start_imports(name@, lp));
        let f = object_file(name@, lp, *object, ds);
        assert forall|i: int| 0 <= i < f.len() implies #[trigger] piece_depth(f[i]) <= 2 by {
            let il = ds.map_values(|d: ImportDecl| import_line(d));
            let bl = body_lines(name@, *object, start_imports(name@, lp)).0;
            if i < il.len() {
                assert(f[i] == il[i]);
            } else if i < il.len() + bl.len() {
                assert(f[i] == bl[i - il.len()]);
            }
        }
        lemma_depth_bound(f, 2);
    }
    let block = file.to_typescript();
    block.to_string(0)
}

/// Whether a definition's file can be made.
fn check_object(name: &str, logical_path: String, object: &SchemaObject) -> (r: bool)
    ensures
        r == object_ok(name@, logical_path@, *object),
{
    let mut logical_path = logical_path;
    pop_path(&mut logical_path);
    let mut imports = Imports::new(name, logical_path.as_str());
    if !check_body(name, object, &mut imports) {
        return false;
    }
    imports.try_import_decls().is_some()
}

/// The TypeScript source of a definition's file, where it can be made:
/// every listed number is an `i64`, every reference's path ends in a name
/// under which it can be imported, and every import has a path relative to
/// the file's directory. `None` otherwise.
pub fn try_parse_schema_object(name: &str, logical_path: String, object: &SchemaObject) -> (r: Option<String>)
    ensures
        r is Some <==> object_ok(name@, logical_path@, *object),
        r matches Some(text) ==> generated(name@, logical_path@, *object, text@),
{
    if check_object(name, logical_path.clone(), object) {
        Some(parse_schema_object(name, logical_path, object))
    } else {
        Option::None
    }
}

/// Whether a definition's file can be made: always, for a `true` or `false`
/// schema.
pub open spec fn schema_ok(name: Seq<char>, logical_path: Seq<char>, s: Schema) -> bool {
    match s {
        Schema::Object(o) => object_ok(name, logical_path, o),
        Schema::Bool(_) => true,
    }
}

/// `text` is the file of a definition: empty for a `true` or `false`
/// schema.
pub open spec fn schema_generated(name: Seq<char>, logical_path: Seq<char>, s: Schema, text: Seq<char>) -> bool {
    match s {
        Schema::Object(o) => generated(name, logical_path, o, text),
        Schema::Bool(_) => text == Seq::<char>::empty(),
    }
}

/// The TypeScript source of a definition's file; empty for a `true` or
/// `false` schema.
pub fn parse_schema(name: &str, logical_path: String, schema: &Schema) -> (r: String)
    requires
        schema_ok(name@, logical_path@, *schema),
    ensures
        schema_generated(name@, logical_path@, *schema, r@),
{
    match schema {
        Schema::Object(object) => parse_schema_object(name, logical_path, object),
        Schema::Bool(_) => String::new(),
    }
}

/// The TypeScript source of a definition's file, where it can be made;
/// `None` otherwise.
pub fn try_parse_schema(name: &str, logical_path: String, schema: &Schema) -> (r: Option<String>)
    ensures
        r is Some <==> schema_ok(name@, logical_path@, *schema),
        r matches Some(text) ==> schema_generated(name@, logical_path@, *schema, text@),
{
    match schema {
        Schema::Object(object) => try_parse_schema_object(name, logical_path, object),
        Schema::Bool(_) => Some(String::new()),
    }
}

} // verus!

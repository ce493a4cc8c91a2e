use vstd::prelude::*;
use crate::text::decimal;
use crate::text::i64_to_string;
use std::collections::VecDeque;

verus! {

/// The shape of a rendered block: a line of text, or a nested block whose
/// lines are indented one level deeper.
pub enum LineTree {
    Line(Seq<char>),
    Nested(Seq<LineTree>),
}

/// `n` levels of indentation, two spaces each.
pub open spec fn spaces(n: nat) -> Seq<char> {
    Seq::new(2 * n, |i: int| ' ')
}

/// The text of a sequence of trees at indentation `indent`: one piece per
/// tree, joined by newlines.
pub open spec fn render(ts: Seq<LineTree>, indent: nat) -> Seq<char>
    decreases ts, 1nat,
{
    if ts.len() == 0 {
        Seq::empty()
    } else if ts.len() == 1 {
        render_piece(ts[0], indent)
    } else {
        render(ts.subrange(0, ts.len() - 1), indent) + seq!['\n'] + render_piece(
            ts[ts.len() - 1],
            indent,
        )
    }
}

/// The text of one tree: an indented line, or a nested block rendered one
/// level deeper.
pub open spec fn render_piece(t: LineTree, indent: nat) -> Seq<char>
    decreases t, 0nat,
{
    match t {
        LineTree::Line(l) => spaces(indent) + l,
        LineTree::Nested(ts) => render(ts, indent + 1),
    }
}

pub enum BlockComponent {
    Line(String),
    Block(Block),
}

pub struct Block {
    pub components: Vec<BlockComponent>,
}

pub open spec fn component_tree(c: BlockComponent) -> LineTree
    decreases c, 0nat,
{
    match c {
        BlockComponent::Line(l) => LineTree::Line(l@),
        BlockComponent::Block(b) => LineTree::Nested(components_trees(b.components@)),
    }
}

pub open spec fn components_trees(cs: Seq<BlockComponent>) -> Seq<LineTree>
    decreases cs, 1nat,
{
    if cs.len() == 0 {
        Seq::empty()
    } else {
        components_trees(cs.subrange(0, cs.len() - 1)).push(component_tree(cs[cs.len() - 1]))
    }
}

impl View for Block {
    type V = Seq<LineTree>;

    open spec fn view(&self) -> Seq<LineTree> {
        components_trees(self.components@)
    }
}

} // verus!

verus! {

/// How many levels of nesting a sequence of trees holds.
pub open spec fn depth(ts: Seq<LineTree>) -> nat
    decreases ts, 1nat,
{
    if ts.len() == 0 {
        0
    } else {
        let rest = depth(ts.subrange(0, ts.len() - 1));
        let last = piece_depth(ts[ts.len() - 1]);
        if rest >= last {
            rest
        } else {
            last
        }
    }
}

pub open spec fn piece_depth(t: LineTree) -> nat
    decreases t, 0nat,
{
    match t {
        LineTree::Line(_) => 0,
        LineTree::Nested(ts) => 1 + depth(ts),
    }
}

pub proof fn lemma_components_trees(cs: Seq<BlockComponent>)
    ensures
        components_trees(cs).len() == cs.len(),
        forall|i: int|
            0 <= i < cs.len() ==> #[trigger] components_trees(cs)[i] == component_tree(cs[i]),
    decreases cs.len(),
{
    if cs.len() > 0 {
        lemma_components_trees(cs.subrange(0, cs.len() - 1));
    }
}

pub proof fn lemma_components_trees_concat(a: Seq<BlockComponent>, b: Seq<BlockComponent>)
    ensures
        components_trees(a + b) == components_trees(a) + components_trees(b),
{
    lemma_components_trees(a);
    lemma_components_trees(b);
    lemma_components_trees(a + b);
    assert(components_trees(a + b) =~= components_trees(a) + components_trees(b));
}

/// A sequence of trees is no deeper than a bound that each of its pieces
/// keeps.
pub proof fn lemma_depth_bound(ts: Seq<LineTree>, k: nat)
    requires
        forall|i: int| 0 <= i < ts.len() ==> #[trigger] piece_depth(ts[i]) <= k,
    ensures
        depth(ts) <= k,
    decreases ts.len(),
{
    if ts.len() > 0 {
        let p = ts.subrange(0, ts.len() - 1);
        assert forall|i: int| 0 <= i < p.len() implies #[trigger] piece_depth(p[i]) <= k by {
            assert(p[i] == ts[i]);
        }
        lemma_depth_bound(p, k);
        assert(piece_depth(ts[ts.len() - 1]) <= k);
    }
}

proof fn lemma_depth_prefix(ts: Seq<LineTree>, i: int)
    requires
        0 <= i <= ts.len(),
    ensures
        depth(ts.subrange(0, i)) <= depth(ts),
        forall|j: int| 0 <= j < i ==> #[trigger] piece_depth(ts[j]) <= depth(ts),
    decreases ts.len() - i,
{
    if i < ts.len() {
        lemma_depth_prefix(ts, i + 1);
        assert(ts.subrange(0, i + 1).subrange(0, i) =~= ts.subrange(0, i));
        assert(ts.subrange(0, i + 1)[i] == ts[i]);
    } else {
        assert(ts.subrange(0, i) =~= ts);
        if i > 0 {
            lemma_depth_prefix_last(ts, i);
        }
    }
}

proof fn lemma_depth_prefix_last(ts: Seq<LineTree>, i: int)
    requires
        0 < i <= ts.len(),
        ts.subrange(0, i) =~= ts,
    ensures
        forall|j: int| 0 <= j < i ==> #[trigger] piece_depth(ts[j]) <= depth(ts),
    decreases i,
{
    assert forall|j: int| 0 <= j < i implies #[trigger] piece_depth(ts[j]) <= depth(ts) by {
        lemma_depth_elem(ts, j);
    }
}

proof fn lemma_depth_elem(ts: Seq<LineTree>, j: int)
    requires
        0 <= j < ts.len(),
    ensures
        piece_depth(ts[j]) <= depth(ts),
    decreases ts.len(),
{
    if j < ts.len() - 1 {
        let p = ts.subrange(0, ts.len() - 1);
        lemma_depth_elem(p, j);
        assert(p[j] == ts[j]);
    }
}

proof fn lemma_render_step(ts: Seq<LineTree>, i: int, indent: nat)
    requires
        1 <= i < ts.len(),
    ensures
        render(ts.subrange(0, i + 1), indent) == render(ts.subrange(0, i), indent) + seq!['\n']
            + render_piece(ts[i], indent),
{
    let s = ts.subrange(0, i + 1);
    assert(s.subrange(0, s.len() - 1) =~= ts.subrange(0, i));
    assert(s[s.len() - 1] == ts[i]);
}

impl BlockComponent {
    pub fn into_line(self) -> (r: Option<String>)
        ensures
            match self {
                BlockComponent::Line(line) => r == Some(line),
                BlockComponent::Block(_) => r is None,
            },
    {
        match self {
            BlockComponent::Line(line) => Some(line),
            BlockComponent::Block(_block) => None,
        }
    }

    pub fn into_block(self) -> (r: Option<Block>)
        ensures
            match self {
                BlockComponent::Line(_) => r is None,
                BlockComponent::Block(block) => r == Some(block),
            },
    {
        match self {
            BlockComponent::Line(_line) => None,
            BlockComponent::Block(block) => Some(block),
        }
    }
}

/// `indent` levels of indentation.
fn indentation(indent: u32) -> (r: String)
    ensures
        r@ == spaces(indent as nat),
{
    let mut r = String::new();
    let mut k: u32 = 0;
    while k < indent
        invariant
            k <= indent,
            r@ == spaces(k as nat),
        decreases indent - k,
    {
        proof {
            reveal_strlit("  ");
        }
        r.append("  ");
        k = k + 1;
        assert(r@ =~= spaces(k as nat));
    }
    r
}

impl Block {
    pub fn new() -> (r: Self)
        ensures
            r@ == Seq::<LineTree>::empty(),
    {
        Self { components: Vec::new() }
    }

    pub fn add_line(&mut self, line: String)
        ensures
            final(self)@ == old(self)@.push(LineTree::Line(line@)),
    {
        let ghost old_cs = self.components@;
        self.components.push(BlockComponent::Line(line));
        proof {
            let cs = self.components@;
            assert(cs.subrange(0, cs.len() - 1) =~= old_cs);
            assert(component_tree(cs[cs.len() - 1]) == LineTree::Line(line@));
        }
    }

    pub fn add_block(&mut self, block: Block)
        ensures
            final(self)@ == old(self)@.push(LineTree::Nested(block@)),
    {
        let ghost old_cs = self.components@;
        self.components.push(BlockComponent::Block(block));
        proof {
            let cs = self.components@;
            assert(cs.subrange(0, cs.len() - 1) =~= old_cs);
            assert(component_tree(cs[cs.len() - 1]) == LineTree::Nested(block@));
        }
    }

    pub fn concat_block(&mut self, block: Block)
        ensures
            final(self)@ == old(self)@ + block@,
    {
        let ghost old_cs = self.components@;
        let ghost added = block.components@;
        let mut rest = block.components;
        self.components.append(&mut rest);
        proof {
            lemma_components_trees_concat(old_cs, added);
        }
    }
}


impl Block {
    /// Renders the block as text: one line per component, nested blocks
    /// indented one level (two spaces) deeper, lines joined by newlines.
    pub fn to_string(&self, indent: u32) -> (r: String)
        requires
            indent + depth(self@) <= u32::MAX,
        ensures
            r@ == render(self@, indent as nat),
        decreases self,
    {
        let indent_string = indentation(indent);
        let mut res = String::new();
        let n = self.components.len();
        let ghost ts = self@;
        proof {
            lemma_components_trees(self.components@);
        }
        let mut i: usize = 0;
        while i < n
            invariant
                n == self.components@.len(),
                ts == self@,
                ts.len() == n,
                forall|j: int| 0 <= j < n ==> #[trigger] ts[j] == component_tree(self.components@[j]),
                indent + depth(ts) <= u32::MAX,
                indent_string@ == spaces(indent as nat),
                i <= n,
                res@ == render(ts.subrange(0, i as int), indent as nat),
            decreases n - i,
        {
            let piece = match &self.components[i] {
                BlockComponent::Line(line) => {
                    let mut p = indent_string.clone();
                    p.append(line.as_str());
                    p
                },
                BlockComponent::Block(block) => {
                    proof {
                        lemma_depth_elem(ts, i as int);
                        assert(decreases_to!(self => self.components));
                        assert(decreases_to!(self.components => self.components@));
                        assert(decreases_to!(self.components@ => self.components@[i as int]));
                    }
                    block.to_string(indent + 1)
                },
            };
            assert(piece@ == render_piece(ts[i as int], indent as nat));
            if i > 0 {
                proof {
                    reveal_strlit("\n");
                    lemma_render_step(ts, i as int, indent as nat);
                }
                res.append("\n");
            } else {
                assert(ts.subrange(0, 1) =~= seq![ts[0]]);
            }
            res.append(piece.as_str());
            i = i + 1;
        }
        proof {
            assert(ts.subrange(0, n as int) =~= ts);
        }
        res
    }

    /// The only line of a block that holds exactly one component, a line.
    pub fn into_single_line(self) -> (r: Option<String>)
        ensures
            self.components@.len() == 1 && self.components@[0] is Line ==> r == Some(
                self.components@[0]->Line_0,
            ),
            !(self.components@.len() == 1 && self.components@[0] is Line) ==> r is None,
    {
        if self.components.len() == 1 {
            let mut components = self.components;
            let first = components.remove(0);
            first.into_line()
        } else {
            None
        }
    }
}

} // verus!

verus! {

/// Values that render as TypeScript source.
pub trait ToTypescript {
    /// The lines this value renders as.
    spec fn typescript(&self) -> Seq<LineTree>;

    fn to_typescript(&self) -> (b: Block)
        ensures
            b@ == self.typescript(),
    ;
}

pub enum TypeExpr {
    Identifier(String),
    Union(Vec<TypeExpr>),
    Dictionary(Box<TypeExpr>),
    StringLiteral(String),
    NumberLiteral(i64),
    Array(Box<TypeExpr>),
}

/// The TypeScript text of a type expression (always a single line).
pub open spec fn ts_type(e: TypeExpr) -> Seq<char>
    decreases e, 1nat,
{
    match e {
        TypeExpr::Identifier(name) => name@,
        TypeExpr::Union(types) => "("@ + ts_union(types@) + ")"@,
        TypeExpr::StringLiteral(value) => "\""@ + value@ + "\""@,
        TypeExpr::NumberLiteral(value) => decimal(value as int),
        TypeExpr::Dictionary(ty) => "{ [key: string]: "@ + ts_type(*ty) + " }"@,
        TypeExpr::Array(ty) => ts_type(*ty) + "[]"@,
    }
}

/// The members of a union, joined by ` | `.
pub open spec fn ts_union(types: Seq<TypeExpr>) -> Seq<char>
    decreases types, 0nat,
{
    if types.len() == 0 {
        Seq::empty()
    } else if types.len() == 1 {
        ts_type(types[0])
    } else {
        ts_union(types.subrange(0, types.len() - 1)) + " | "@ + ts_type(types[types.len() - 1])
    }
}

proof fn lemma_union_step(types: Seq<TypeExpr>, i: int)
    requires
        1 <= i < types.len(),
    ensures
        ts_union(types.subrange(0, i + 1)) == ts_union(types.subrange(0, i)) + " | "@ + ts_type(
            types[i],
        ),
{
    let s = types.subrange(0, i + 1);
    assert(s.subrange(0, s.len() - 1) =~= types.subrange(0, i));
}

/// A block made of a single line.
pub open spec fn single_line(l: Seq<char>) -> Seq<LineTree> {
    seq![LineTree::Line(l)]
}

proof fn lemma_single_line(b: Block, l: Seq<char>)
    requires
        b@ == single_line(l),
    ensures
        b.components@.len() == 1,
        b.components@[0] is Line,
        b.components@[0]->Line_0@ == l,
{
    lemma_components_trees(b.components@);
    assert(components_trees(b.components@)[0] == component_tree(b.components@[0]));
    assert(component_tree(b.components@[0]) == LineTree::Line(l));
}

/// Renders a type expression as the one line it always takes.
fn type_line(e: &TypeExpr) -> (r: String)
    ensures
        r@ == ts_type(*e),
    decreases e, 1nat,
{
    let b = type_block(e);
    proof {
        lemma_single_line(b, ts_type(*e));
    }
    b.into_single_line().unwrap()
}

fn type_block(e: &TypeExpr) -> (b: Block)
    ensures
        b@ == single_line(ts_type(*e)),
    decreases e, 0nat,
{
    let mut ret = Block::new();
    match e {
        TypeExpr::Identifier(name) => ret.add_line(name.clone()),
        TypeExpr::Union(types) => {
            let mut line = String::new();
            line.append("(");
            let mut joined = String::new();
            let n = types.len();
            let mut i: usize = 0;
            while i < n
                invariant
                    *e == TypeExpr::Union(*types),
                    n == types@.len(),
                    i <= n,
                    joined@ == ts_union(types@.subrange(0, i as int)),
                decreases n - i,
            {
                proof {
                    assert(decreases_to!(*e => (*e)->Union_0));
                    assert(decreases_to!(*types => types@));
                    assert(decreases_to!(types@ => types@[i as int]));
                }
                let t = type_line(&types[i]);
                if i > 0 {
                    proof {
                        lemma_union_step(types@, i as int);
                    }
                    joined.append(" | ");
                } else {
                    assert(types@.subrange(0, 1) =~= seq![types@[0]]);
                }
                joined.append(t.as_str());
                i = i + 1;
            }
            assert(types@.subrange(0, n as int) =~= types@);
            line.append(joined.as_str());
            line.append(")");
            ret.add_line(line)
        },
        TypeExpr::StringLiteral(value) => {
            let mut line = String::new();
            line.append("\"");
            line.append(value.as_str());
            line.append("\"");
            ret.add_line(line)
        },
        TypeExpr::NumberLiteral(value) => ret.add_line(i64_to_string(*value)),
        TypeExpr::Dictionary(ty) => {
            let mut line = String::new();
            line.append("{ [key: string]: ");
            let inner = type_line(ty);
            line.append(inner.as_str());
            line.append(" }");
            ret.add_line(line)
        },
        TypeExpr::Array(ty) => {
            let mut line = type_line(ty);
            line.append("[]");
            ret.add_line(line)
        },
    }
    assert(ret@ =~= single_line(ts_type(*e)));
    ret
}

impl TypeExpr {
    pub fn identifier(string: String) -> (r: Self)
        ensures
            r == TypeExpr::Identifier(string),
    {
        Self::Identifier(string)
    }

    pub fn union(types: Vec<TypeExpr>) -> (r: Self)
        ensures
            r == TypeExpr::Union(types),
    {
        Self::Union(types)
    }

    pub fn string_literal(string: String) -> (r: Self)
        ensures
            r == TypeExpr::StringLiteral(string),
    {
        Self::StringLiteral(string)
    }

    pub fn number_literal(number: i64) -> (r: Self)
        ensures
            r == TypeExpr::NumberLiteral(number),
    {
        Self::NumberLiteral(number)
    }

    pub fn dictionary(ty: TypeExpr) -> (r: Self)
        ensures
            r == TypeExpr::Dictionary(Box::new(ty)),
    {
        Self::Dictionary(Box::new(ty))
    }

    pub fn array(ty: TypeExpr) -> (r: Self)
        ensures
            r == TypeExpr::Array(Box::new(ty)),
    {
        Self::Array(Box::new(ty))
    }
}

impl ToTypescript for TypeExpr {
    open spec fn typescript(&self) -> Seq<LineTree> {
        single_line(ts_type(*self))
    }

    fn to_typescript(&self) -> (b: Block) {
        type_block(self)
    }
}

} // verus!

verus! {

pub struct InterfaceField {
    pub name: String,
    pub description: Option<String>,
    pub optional: Option<bool>,
    pub ty: TypeExpr,
}

/// The declaration line of an interface field: `name`, a `?` when the field
/// is optional, `: ` and its type, and a closing `;`.
pub open spec fn field_line(f: InterfaceField) -> Seq<char> {
    f.name@ + (if f.optional == Some(true) {
        "?"@
    } else {
        Seq::empty()
    }) + ": "@ + ts_type(f.ty) + ";"@
}

/// A field renders as its doc comment, if it has a description, then its
/// declaration line.
pub open spec fn field_ts(f: InterfaceField) -> Seq<LineTree> {
    match f.description {
        Some(d) => seq![LineTree::Line("/** "@ + d@ + " */\n"@), LineTree::Line(field_line(f))],
        None => single_line(field_line(f)),
    }
}

impl ToTypescript for InterfaceField {
    open spec fn typescript(&self) -> Seq<LineTree> {
        field_ts(*self)
    }

    fn to_typescript(&self) -> (b: Block) {
        let mut ret = Block::new();
        if let Some(description) = &self.description {
            let mut doc = String::new();
            doc.append("/** ");
            doc.append(description.as_str());
            doc.append(" */\n");
            ret.add_line(doc);
        }
        let mut line = String::new();
        line.append(self.name.as_str());
        let optional = match self.optional {
            Some(o) => o,
            None => false,
        };
        if optional {
            line.append("?");
        }
        line.append(": ");
        let ty = type_line(&self.ty);
        line.append(ty.as_str());
        line.append(";");
        ret.add_line(line);
        assert(ret@ =~= field_ts(*self));
        ret
    }
}

/// The lines of a sequence of fields, one after another.
pub open spec fn fields_ts(fs: Seq<InterfaceField>) -> Seq<LineTree>
    decreases fs.len(),
{
    if fs.len() == 0 {
        Seq::empty()
    } else {
        fields_ts(fs.subrange(0, fs.len() - 1)) + field_ts(fs[fs.len() - 1])
    }
}

pub struct InterfaceDecl {
    pub export: Option<bool>,
    pub name: String,
    pub fields: Vec<InterfaceField>,
}

/// `export interface Name {` (or without `export`), the fields one level
/// deeper, then `}`.
pub open spec fn interface_ts(d: InterfaceDecl) -> Seq<LineTree> {
    seq![
        LineTree::Line(
            (if d.export == Some(true) {
                "export "@
            } else {
                Seq::empty()
            }) + "interface "@ + d.name@ + " {"@,
        ),
        LineTree::Nested(fields_ts(d.fields@)),
        LineTree::Line("}"@),
    ]
}

impl InterfaceDecl {
    pub fn new(name: String) -> (r: Self)
        ensures
            r.export is None,
            r.name == name,
            r.fields@.len() == 0,
    {
        Self { export: None, name, fields: Vec::new() }
    }

    pub fn export(name: String) -> (r: Self)
        ensures
            r.export == Some(true),
            r.name == name,
            r.fields@.len() == 0,
    {
        Self { export: Some(true), name, fields: Vec::new() }
    }

    pub fn add_field(&mut self, field: InterfaceField)
        ensures
            final(self).export == old(self).export,
            final(self).name == old(self).name,
            final(self).fields@ == old(self).fields@.push(field),
    {
        self.fields.push(field);
    }
}

impl ToTypescript for InterfaceDecl {
    open spec fn typescript(&self) -> Seq<LineTree> {
        interface_ts(*self)
    }

    fn to_typescript(&self) -> (b: Block) {
        let mut ret = Block::new();
        let mut line = String::new();
        let export = match self.export {
            Some(e) => e,
            None => false,
        };
        if export {
            line.append("export ");
        }
        line.append("interface ");
        line.append(self.name.as_str());
        line.append(" {");
        ret.add_line(line);
        let mut inner = Block::new();
        let n = self.fields.len();
        let mut i: usize = 0;
        while i < n
            invariant
                n == self.fields@.len(),
                i <= n,
                inner@ == fields_ts(self.fields@.subrange(0, i as int)),
            decreases n - i,
        {
            let fb = self.fields[i].to_typescript();
            inner.concat_block(fb);
            proof {
                let s = self.fields@.subrange(0, i + 1);
                assert(s.subrange(0, s.len() - 1) =~= self.fields@.subrange(0, i as int));
            }
            i = i + 1;
        }
        assert(self.fields@.subrange(0, n as int) =~= self.fields@);
        ret.add_block(inner);
        ret.add_line(String::from_str("}"));
        assert(ret@ =~= interface_ts(*self));
        ret
    }
}

pub struct TypeDecl {
    pub name: String,
    pub ty: TypeExpr,
}

impl TypeDecl {
    pub fn new(name: String, ty: TypeExpr) -> (r: Self)
        ensures
            r.name == name,
            r.ty == ty,
    {
        Self { name, ty }
    }
}

/// `type Name = <type>;`
pub open spec fn type_decl_ts(d: TypeDecl) -> Seq<LineTree> {
    single_line("type "@ + d.name@ + " = "@ + ts_type(d.ty) + ";"@)
}

impl ToTypescript for TypeDecl {
    open spec fn typescript(&self) -> Seq<LineTree> {
        type_decl_ts(*self)
    }

    fn to_typescript(&self) -> (b: Block) {
        let mut ret = Block::new();
        let mut line = String::new();
        line.append("type ");
        line.append(self.name.as_str());
        line.append(" = ");
        let ty = type_line(&self.ty);
        line.append(ty.as_str());
        line.append(";");
        ret.add_line(line);
        assert(ret@ =~= type_decl_ts(*self));
        ret
    }
}

pub struct ImportDecl {
    pub name: String,
    pub path: String,
}

/// `import Name from "path";`
pub open spec fn import_ts(d: ImportDecl) -> Seq<LineTree> {
    single_line("import "@ + d.name@ + " from \""@ + d.path@ + "\";"@)
}

impl ToTypescript for ImportDecl {
    open spec fn typescript(&self) -> Seq<LineTree> {
        import_ts(*self)
    }

    fn to_typescript(&self) -> (b: Block) {
        let mut ret = Block::new();
        let mut line = String::new();
        line.append("import ");
        line.append(self.name.as_str());
        line.append(" from \"");
        line.append(self.path.as_str());
        line.append("\";");
        ret.add_line(line);
        assert(ret@ =~= import_ts(*self));
        ret
    }
}

pub struct ExportDefaultDecl {
    pub identifier: String,
}

/// `export default identifier;`
pub open spec fn export_default_ts(d: ExportDefaultDecl) -> Seq<LineTree> {
    single_line("export default "@ + d.identifier@ + ";"@)
}

impl ToTypescript for ExportDefaultDecl {
    open spec fn typescript(&self) -> Seq<LineTree> {
        export_default_ts(*self)
    }

    fn to_typescript(&self) -> (b: Block) {
        let mut ret = Block::new();
        let mut line = String::new();
        line.append("export default ");
        line.append(self.identifier.as_str());
        line.append(";");
        ret.add_line(line);
        assert(ret@ =~= export_default_ts(*self));
        ret
    }
}

pub struct NamespaceDecl {
    pub name: String,
    pub decls: Vec<Decl>,
}

pub enum Decl {
    Type(TypeDecl),
    Interface(InterfaceDecl),
    Namespace(NamespaceDecl),
    Import(ImportDecl),
    ExportDefault(ExportDefaultDecl),
}

/// The lines of a declaration.
pub open spec fn decl_ts(d: Decl) -> Seq<LineTree>
    decreases d, 2nat,
{
    match d {
        Decl::Type(t) => type_decl_ts(t),
        Decl::Interface(i) => interface_ts(i),
        Decl::Namespace(ns) => namespace_ts(ns),
        Decl::Import(i) => import_ts(i),
        Decl::ExportDefault(e) => export_default_ts(e),
    }
}

/// `namespace Name {`, the declarations one level deeper, then `}`.
pub open spec fn namespace_ts(ns: NamespaceDecl) -> Seq<LineTree>
    decreases ns, 1nat,
{
    seq![
        LineTree::Line("namespace "@ + ns.name@ + " {"@),
        LineTree::Nested(decls_ts(ns.decls@)),
        LineTree::Line("}"@),
    ]
}

/// The lines of a sequence of declarations, one after another.
pub open spec fn decls_ts(ds: Seq<Decl>) -> Seq<LineTree>
    decreases ds, 0nat,
{
    if ds.len() == 0 {
        Seq::empty()
    } else {
        decls_ts(ds.subrange(0, ds.len() - 1)) + decl_ts(ds[ds.len() - 1])
    }
}

/// The lines of two runs of declarations, one after the other.
pub proof fn lemma_decls_concat(a: Seq<Decl>, b: Seq<Decl>)
    ensures
        decls_ts(a + b) == decls_ts(a) + decls_ts(b),
    decreases b.len(),
{
    if b.len() == 0 {
        assert(a + b =~= a);
    } else {
        let bp = b.subrange(0, b.len() - 1);
        lemma_decls_concat(a, bp);
        assert((a + b).subrange(0, (a + b).len() - 1) =~= a + bp);
        assert((a + b)[(a + b).len() - 1] == b[b.len() - 1]);
    }
}

proof fn lemma_decls_step(ds: Seq<Decl>, i: int)
    requires
        0 <= i < ds.len(),
    ensures
        decls_ts(ds.subrange(0, i + 1)) == decls_ts(ds.subrange(0, i)) + decl_ts(ds[i]),
{
    let s = ds.subrange(0, i + 1);
    assert(s.subrange(0, s.len() - 1) =~= ds.subrange(0, i));
}

impl NamespaceDecl {
    pub fn new(name: String) -> (r: Self)
        ensures
            r.name == name,
            r.decls@.len() == 0,
    {
        Self { name, decls: Vec::new() }
    }

    pub fn append(&mut self, decl: Decl)
        ensures
            final(self).name == old(self).name,
            final(self).decls@ == old(self).decls@.push(decl),
    {
        self.decls.push(decl);
    }
}

fn decl_block(d: &Decl) -> (b: Block)
    ensures
        b@ == decl_ts(*d),
    decreases d, 1nat,
{
    match d {
        Decl::Type(t) => t.to_typescript(),
        Decl::Interface(i) => i.to_typescript(),
        Decl::Namespace(ns) => {
            proof {
                assert(decreases_to!(*d => (*d)->Namespace_0));
            }
            namespace_block(ns)
        },
        Decl::Import(i) => i.to_typescript(),
        Decl::ExportDefault(e) => e.to_typescript(),
    }
}

fn namespace_block(ns: &NamespaceDecl) -> (b: Block)
    ensures
        b@ == namespace_ts(*ns),
    decreases ns, 0nat,
{
    let mut ret = Block::new();
    let mut line = String::new();
    line.append("namespace ");
    line.append(ns.name.as_str());
    line.append(" {");
    ret.add_line(line);
    let mut inner = Block::new();
    let n = ns.decls.len();
    let mut i: usize = 0;
    while i < n
        invariant
            n == ns.decls@.len(),
            i <= n,
            inner@ == decls_ts(ns.decls@.subrange(0, i as int)),
        decreases n - i,
    {
        proof {
            assert(decreases_to!(*ns => ns.decls));
            assert(decreases_to!(ns.decls => ns.decls@));
            assert(decreases_to!(ns.decls@ => ns.decls@[i as int]));
            lemma_decls_step(ns.decls@, i as int);
        }
        let db = decl_block(&ns.decls[i]);
        inner.concat_block(db);
        i = i + 1;
    }
    assert(ns.decls@.subrange(0, n as int) =~= ns.decls@);
    ret.add_block(inner);
    ret.add_line(String::from_str("}"));
    assert(ret@ =~= namespace_ts(*ns));
    ret
}

impl ToTypescript for NamespaceDecl {
    open spec fn typescript(&self) -> Seq<LineTree> {
        namespace_ts(*self)
    }

    fn to_typescript(&self) -> (b: Block) {
        namespace_block(self)
    }
}

impl ToTypescript for Decl {
    open spec fn typescript(&self) -> Seq<LineTree> {
        decl_ts(*self)
    }

    fn to_typescript(&self) -> (b: Block) {
        decl_block(self)
    }
}

pub struct File {
    pub decls: VecDeque<Decl>,
}

impl File {
    pub fn new() -> (r: Self)
        ensures
            r.decls@.len() == 0,
    {
        Self { decls: VecDeque::new() }
    }

    pub fn append(&mut self, decl: Decl)
        ensures
            final(self).decls@ == old(self).decls@.push(decl),
    {
        self.decls.push_back(decl);
    }

    /// Puts each declaration in front of the file, in turn: the last one
    /// given ends up first.
    pub fn prepend_all(&mut self, decls: Vec<Decl>)
        ensures
            final(self).decls@ == decls@.reverse() + old(self).decls@,
    {
        let ghost old_decls = self.decls@;
        let ghost given = decls@;
        let n = decls.len();
        let mut rest = decls;
        let mut taken: usize = 0;
        // Take the declarations from the front of `rest`, in order.
        while rest.len() > 0
            invariant
                taken + rest@.len() == n,
                n == given.len(),
                rest@ == given.subrange(taken as int, n as int),
                self.decls@ == given.subrange(0, taken as int).reverse() + old_decls,
            decreases rest.len(),
        {
            let d = rest.remove(0);
            self.decls.push_front(d);
            proof {
                assert(given.subrange(0, taken + 1).reverse() =~= seq![given[taken as int]]
                    + given.subrange(0, taken as int).reverse());
                assert(rest@ =~= given.subrange(taken + 1, n as int));
            }
            taken = taken + 1;
            assert(self.decls@ =~= given.subrange(0, taken as int).reverse() + old_decls);
        }
        assert(given.subrange(0, n as int) =~= given);
    }
}

impl ToTypescript for File {
    open spec fn typescript(&self) -> Seq<LineTree> {
        decls_ts(self.decls@)
    }

    fn to_typescript(&self) -> (b: Block) {
        let mut ret = Block::new();
        let n = self.decls.len();
        let mut i: usize = 0;
        while i < n
            invariant
                n == self.decls@.len(),
                i <= n,
                ret@ == decls_ts(self.decls@.subrange(0, i as int)),
            decreases n - i,
        {
            proof {
                lemma_decls_step(self.decls@, i as int);
            }
            let db = decl_block(&self.decls[i]);
            ret.concat_block(db);
            i = i + 1;
        }
        assert(self.decls@.subrange(0, n as int) =~= self.decls@);
        ret
    }
}

} // verus!

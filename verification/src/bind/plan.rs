use vstd::prelude::*;

use super::generate::path_of_parts;
use super::paths::push_path;
use super::schema::Schema;
use super::scope::{children_view, pieces, scope_view, Scope, ScopeView};

verus! {

/// A definition's file: the directories it is in, from the output directory
/// down; the definition's name (the file is named after it, with `.ts`); its
/// logical path; and its schema.
pub struct PlannedFile<'a> {
    pub dirs: Vec<String>,
    pub name: String,
    pub logical_path: String,
    pub schema: &'a Schema,
}

/// One step of writing out a scope tree.
pub enum Step<'a> {
    /// Make the directory reached by these names from the output directory.
    Dir(Vec<String>),
    /// Write a definition's file.
    File(PlannedFile<'a>),
}

/// What a step does, over plain values.
pub enum StepView {
    Dir(Seq<Seq<char>>),
    File(Seq<Seq<char>>, Seq<char>, Seq<char>, Schema),
}

/// The view of a step.
pub open spec fn step_view(st: Step) -> StepView {
    match st {
        Step::Dir(d) => StepView::Dir(pieces(d@)),
        Step::File(f) => StepView::File(pieces(f.dirs@), f.name@, f.logical_path@, *f.schema),
    }
}

/// The views of some steps.
pub open spec fn steps_view(sts: Seq<Step>) -> Seq<StepView> {
    sts.map_values(|st: Step| step_view(st))
}

/// The steps that write out the scope `s` in the directory `dirs`: make the
/// directory; write the file of each definition, in order, its logical path
/// being the root with `dirs` and the definition's name pushed in turn; then
/// write out each child scope, in order, in its own directory.
pub open spec fn scope_steps(s: ScopeView, dirs: Seq<Seq<char>>) -> Seq<StepView>
    decreases s,
{
    seq![StepView::Dir(dirs)] + definition_steps(s.definitions, dirs) + children_steps(s.children, dirs)
}

/// The steps that write the files of some definitions in the directory
/// `dirs`.
pub open spec fn definition_steps(ds: Seq<(Seq<char>, Schema)>, dirs: Seq<Seq<char>>) -> Seq<StepView> {
    ds.map_values(
        |d: (Seq<char>, Schema)| StepView::File(dirs, d.0, path_of_parts(dirs.push(d.0)), d.1),
    )
}

/// The steps that write out some child scopes of the directory `dirs`.
pub open spec fn children_steps(cs: Seq<(Seq<char>, ScopeView)>, dirs: Seq<Seq<char>>) -> Seq<StepView>
    decreases cs,
{
    if cs.len() == 0 {
        Seq::empty()
    } else {
        children_steps(cs.drop_last(), dirs) + scope_steps(cs.last().1, dirs.push(cs.last().0))
    }
}

/// A copy of a list of names.
fn clone_names(v: &Vec<String>) -> (r: Vec<String>)
    ensures
        r@ == v@,
{
    let mut r: Vec<String> = Vec::new();
    let n = v.len();
    let mut i: usize = 0;
    while i < n
        invariant
            n == v@.len(),
            i <= n,
            r@ == v@.take(i as int),
        decreases n - i,
    {
        r.push(v[i].clone());
        proof {
            assert(v@.take(i + 1) =~= v@.take(i as int).push(v@[i as int]));
        }
        i = i + 1;
    }
    proof {
        assert(v@.take(n as int) =~= v@);
    }
    r
}

/// Adds the steps that write out `scope` in the directory `dirs` whose
/// logical path is `logical`.
fn plan_into<'a>(scope: &'a Scope, dirs: &Vec<String>, logical: &String, out: &mut Vec<Step<'a>>)
    requires
        logical@ == path_of_parts(pieces(dirs@)),
    ensures
        steps_view(final(out)@) == steps_view(old(out)@) + scope_steps(scope_view(*scope), pieces(dirs@)),
    decreases scope,
{
    let ghost dv = pieces(dirs@);
    let ghost sv = scope_view(*scope);
    let ghost start = steps_view(out@);
    out.push(Step::Dir(clone_names(dirs)));
    proof {
        assert(steps_view(out@) =~= start + seq![StepView::Dir(dv)]);
    }
    let ghost after_dir = steps_view(out@);
    let nd = scope.definitions.len();
    let mut i: usize = 0;
    while i < nd
        invariant
            nd == scope.definitions@.len(),
            i <= nd,
            sv == scope_view(*scope),
            dv == pieces(dirs@),
            logical@ == path_of_parts(dv),
            steps_view(out@) == after_dir + definition_steps(sv.definitions.take(i as int), dv),
        decreases nd - i,
    {
        let name = &scope.definitions[i].0;
        let mut child_logical = logical.clone();
        push_path(&mut child_logical, name.as_str());
        let ghost before = steps_view(out@);
        out.push(
            Step::File(
                PlannedFile {
                    dirs: clone_names(dirs),
                    name: name.clone(),
                    logical_path: child_logical,
                    schema: &scope.definitions[i].1,
                },
            ),
        );
        proof {
            assert(dv.push(name@).drop_last() =~= dv);
            assert(path_of_parts(dv.push(name@)) == child_logical@);
            assert(sv.definitions[i as int] == (name@, scope.definitions@[i as int].1));
            assert(sv.definitions.take(i + 1) =~= sv.definitions.take(i as int).push(sv.definitions[i as int]));
            assert(steps_view(out@) =~= before.push(step_view(out@.last())));
            assert(definition_steps(sv.definitions.take(i + 1), dv) =~= definition_steps(
                sv.definitions.take(i as int),
                dv,
            ).push(step_view(out@.last())));
        }
        i = i + 1;
    }
    proof {
        assert(sv.definitions.take(nd as int) =~= sv.definitions);
    }
    let ghost after_defs = steps_view(out@);
    let nc = scope.children.len();
    proof {
        super::scope::lemma_children_view_facts(scope.children@);
        assert(children_view(scope.children@).take(0) =~= Seq::<(Seq<char>, ScopeView)>::empty());
        assert(after_defs + children_steps(Seq::empty(), dv) =~= after_defs);
    }
    let mut j: usize = 0;
    while j < nc
        invariant
            nc == scope.children@.len(),
            j <= nc,
            sv == scope_view(*scope),
            sv.children == children_view(scope.children@),
            sv.children.len() == nc,
            forall|k: int|
                0 <= k < nc ==> #[trigger] sv.children[k] == (
                    scope.children@[k].0@,
                    scope_view(scope.children@[k].1),
                ),
            dv == pieces(dirs@),
            logical@ == path_of_parts(dv),
            steps_view(out@) == after_defs + children_steps(sv.children.take(j as int), dv),
        decreases nc - j,
    {
        let name = &scope.children[j].0;
        let child = &scope.children[j].1;
        let mut child_dirs = clone_names(dirs);
        child_dirs.push(name.clone());
        let mut child_logical = logical.clone();
        push_path(&mut child_logical, name.as_str());
        proof {
            assert(pieces(child_dirs@) =~= dv.push(name@));
            assert(dv.push(name@).drop_last() =~= dv);
            assert(decreases_to!(*scope => scope.children));
            assert(decreases_to!(scope.children => scope.children@));
            assert(decreases_to!(scope.children@ => scope.children@[j as int]));
            assert(decreases_to!(scope.children@[j as int] => scope.children@[j as int].1));
        }
        let ghost before = steps_view(out@);
        plan_into(child, &child_dirs, &child_logical, out);
        proof {
            let cs = sv.children.take(j + 1);
            assert(cs.drop_last() =~= sv.children.take(j as int));
            assert(cs.last() == sv.children[j as int]);
            assert(steps_view(out@) =~= after_defs + children_steps(cs, dv));
        }
        j = j + 1;
    }
    proof {
        assert(sv.children.take(nc as int) =~= sv.children);
        assert(steps_view(out@) =~= start + scope_steps(sv, dv));
    }
}

/// The steps that write out a scope tree: its root directory first, then
/// as `scope_steps` says.
pub fn write_plan<'a>(root: &'a Scope) -> (r: Vec<Step<'a>>)
    ensures
        steps_view(r@) == scope_steps(scope_view(*root), Seq::empty()),
{
    let mut out: Vec<Step<'a>> = Vec::new();
    let dirs: Vec<String> = Vec::new();
    let mut logical = String::new();
    push_path(&mut logical, "/");
    proof {
        reveal_strlit("/");
        assert(pieces(dirs@) =~= Seq::<Seq<char>>::empty());
        assert(steps_view(out@) =~= Seq::<StepView>::empty());
    }
    plan_into(root, &dirs, &logical, &mut out);
    proof {
        assert(Seq::<StepView>::empty() + scope_steps(scope_view(*root), Seq::empty()) =~= scope_steps(
            scope_view(*root),
            Seq::empty(),
        ));
    }
    out
}

} // verus!

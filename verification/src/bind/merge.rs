use vstd::prelude::*;

use super::schema::{RootSchema, Schema};

verus! {

/// The schemas of one schema version of a record type.
pub struct VersionSchema {
    pub public: RootSchema,
    pub private: RootSchema,
    pub action: RootSchema,
    pub frozen: RootSchema,
}

/// Whether some definition has the name.
pub open spec fn has_def(defs: Seq<(String, Schema)>, name: Seq<char>) -> bool {
    exists|i: int| 0 <= i < defs.len() && (#[trigger] defs[i]).0@ == name
}

/// The position of the first definition with the name.
pub open spec fn def_position(defs: Seq<(String, Schema)>, name: Seq<char>) -> int {
    choose|i: int|
        0 <= i < defs.len() && (#[trigger] defs[i]).0@ == name && forall|j: int|
            0 <= j < i ==> defs[j].0@ != name
}

/// The definitions with the new ones added in order, each only where its
/// name is not yet there.
pub open spec fn merged(res: Seq<(String, Schema)>, defs: Seq<(String, Schema)>) -> Seq<(String, Schema)>
    decreases defs.len(),
{
    if defs.len() == 0 {
        res
    } else {
        let r = merged(res, defs.drop_last());
        if has_def(r, defs.last().0@) {
            r
        } else {
            r.push(defs.last())
        }
    }
}

/// The definitions with `(name, s)` put in: over the first definition with
/// that name, or at the end.
pub open spec fn put(res: Seq<(String, Schema)>, name: String, s: Schema) -> Seq<(String, Schema)> {
    if has_def(res, name@) {
        res.update(def_position(res, name@), (name, s))
    } else {
        res.push((name, s))
    }
}

/// The definitions after a root schema is merged in: the root itself under
/// its title, if it has one, then its definitions where their names are not
/// yet there.
pub open spec fn with_root(res: Seq<(String, Schema)>, root: RootSchema) -> Seq<(String, Schema)> {
    let r = match root.schema.title {
        Some(t) => put(res, t, Schema::Object(root.schema)),
        None => res,
    };
    merged(r, root.definitions@)
}

/// The position of the first definition with the name, if any.
fn find_def(res: &Vec<(String, Schema)>, name: &String) -> (r: Option<usize>)
    ensures
        match r {
            Some(i) => i < res@.len() && i == def_position(res@, name@) && has_def(res@, name@),
            None => !has_def(res@, name@),
        },
{
    let n = res.len();
    let mut i: usize = 0;
    while i < n
        invariant
            n == res@.len(),
            i <= n,
            forall|j: int| 0 <= j < i ==> (#[trigger] res@[j]).0@ != name@,
        decreases n - i,
    {
        if res[i].0 == *name {
            proof {
                let k = def_position(res@, name@);
                assert(res@[i as int].0@ == name@);
                if k < i {
                    assert(res@[k].0@ != name@);
                }
            }
            return Some(i);
        }
        i = i + 1;
    }
    Option::None
}

/// Adds the definitions, in order, each only where its name is not yet
/// there.
pub fn into(definitions: Vec<(String, Schema)>, res: &mut Vec<(String, Schema)>)
    ensures
        final(res)@ == merged(old(res)@, definitions@),
{
    let ghost all = definitions@;
    let mut rest = definitions;
    let n = rest.len();
    let mut taken: usize = 0;
    assert(all.take(0) =~= Seq::<(String, Schema)>::empty());
    while rest.len() > 0
        invariant
            taken + rest@.len() == n,
            n == all.len(),
            rest@ == all.subrange(taken as int, n as int),
            res@ == merged(old(res)@, all.take(taken as int)),
        decreases rest@.len(),
    {
        let (name, schema) = rest.remove(0);
        proof {
            assert(all.take(taken + 1).drop_last() =~= all.take(taken as int));
            assert(all.take(taken + 1).last() == all[taken as int]);
            assert(rest@ =~= all.subrange(taken + 1, n as int));
        }
        if find_def(res, &name).is_none() {
            res.push((name, schema));
        }
        taken = taken + 1;
    }
    assert(all.take(n as int) =~= all);
}

/// Puts the definition `(name, schema)` in: over the first definition with
/// that name, or at the end.
pub fn put_definition(res: &mut Vec<(String, Schema)>, name: String, schema: Schema)
    ensures
        final(res)@ == put(old(res)@, name, schema),
{
    match find_def(res, &name) {
        Some(i) => {
            res.set(i, (name, schema));
        },
        Option::None => {
            res.push((name, schema));
        },
    }
}

/// Merges a root schema in: the root itself under its title, if it has one
/// (over any definition with that name), then its definitions where their
/// names are not yet there.
pub fn root_schema(root: RootSchema, res: &mut Vec<(String, Schema)>)
    ensures
        final(res)@ == with_root(old(res)@, root),
{
    let RootSchema { schema, definitions } = root;
    match &schema.title {
        Some(title) => {
            let title = title.clone();
            put_definition(res, title, Schema::Object(schema));
        },
        Option::None => {},
    }
    into(definitions, res);
}

/// Merges in the public, private, action and frozen schemas of a version,
/// in that order.
pub fn version(version_schema: VersionSchema, res: &mut Vec<(String, Schema)>)
    ensures
        final(res)@ == with_root(
            with_root(
                with_root(with_root(old(res)@, version_schema.public), version_schema.private),
                version_schema.action,
            ),
            version_schema.frozen,
        ),
{
    let VersionSchema { public, private, action, frozen } = version_schema;
    root_schema(public, res);
    root_schema(private, res);
    root_schema(action, res);
    root_schema(frozen, res);
}

} // verus!

use std::collections::HashSet;
use vstd::prelude::*;

use super::frozen;
use crate::acl::action::WithAcl;
use crate::acl::{Acl, AclView};
use crate::record::{
    BlobDependencies, Migrate, MigrateError, RecordView, UnfrozenReference, Uuid,
};
use crate::ty::{unfrozen_ty_deps, FrozenTy, UnfrozenTy};

verus! {

/// One variant of an enumeration: its name and the type it carries.
pub struct EnumerationVariant {
    pub name: String,
    pub ty: UnfrozenTy,
}

pub struct EnumerationVariantView {
    pub name: Seq<char>,
    pub ty: UnfrozenTy,
}

impl View for EnumerationVariant {
    type V = EnumerationVariantView;

    open spec fn view(&self) -> EnumerationVariantView {
        EnumerationVariantView { name: self.name@, ty: self.ty }
    }
}

impl Clone for EnumerationVariant {
    fn clone(&self) -> (r: Self)
        ensures
            r@ == self@,
    {
        EnumerationVariant { name: self.name.clone(), ty: self.ty.clone() }
    }
}

pub struct IdEnumerationVariant {
    pub id: Uuid,
    pub variant: EnumerationVariant,
}

/// An enumeration type. Its variants keep the order in which they were
/// listed; no id occurs twice among them.
pub struct Enumeration {
    pub parent: Uuid,
    pub name: String,
    pub acl: Acl,
    pub variants: Vec<(Uuid, EnumerationVariant)>,
}

pub struct EnumerationView {
    pub parent: Uuid,
    pub name: Seq<char>,
    pub acl: AclView,
    pub variants: Seq<(Uuid, EnumerationVariantView)>,
}

pub open spec fn variants_view(vs: Seq<(Uuid, EnumerationVariant)>) -> Seq<(Uuid, EnumerationVariantView)> {
    vs.map_values(|p: (Uuid, EnumerationVariant)| (p.0, p.1@))
}

impl View for Enumeration {
    type V = EnumerationView;

    open spec fn view(&self) -> EnumerationView {
        EnumerationView {
            parent: self.parent,
            name: self.name@,
            acl: self.acl@,
            variants: variants_view(self.variants@),
        }
    }
}

/// No variant id occurs twice.
pub open spec fn ids_unique<V>(vs: Seq<(Uuid, V)>) -> bool {
    forall|i: int, j: int| 0 <= i < j < vs.len() ==> vs[i].0 != vs[j].0
}

/// The position of the first variant with the name.
pub open spec fn first_named(vs: Seq<(Uuid, EnumerationVariantView)>, name: Seq<char>) -> int {
    choose|i: int|
        0 <= i < vs.len() && (#[trigger] vs[i]).1.name == name && forall|j: int|
            0 <= j < i ==> vs[j].1.name != name
}

/// Whether some variant has the name.
pub open spec fn has_named(vs: Seq<(Uuid, EnumerationVariantView)>, name: Seq<char>) -> bool {
    exists|i: int| 0 <= i < vs.len() && (#[trigger] vs[i]).1.name == name
}

/// The record references of every variant's type, in variant order.
pub open spec fn variants_deps(vs: Seq<(Uuid, EnumerationVariantView)>) -> Seq<UnfrozenReference>
    decreases vs.len(),
{
    if vs.len() == 0 {
        Seq::empty()
    } else {
        variants_deps(vs.drop_last()) + unfrozen_ty_deps(vs.last().1.ty)
    }
}

impl Default for Enumeration {
    fn default() -> (r: Self)
        ensures
            r@ == (EnumerationView {
                parent: 0,
                name: Seq::empty(),
                acl: Acl::empty_view(),
                variants: Seq::empty(),
            }),
            ids_unique(r@.variants),
    {
        let r = Enumeration {
            parent: 0,
            name: String::new(),
            acl: Acl::default(),
            variants: Vec::new(),
        };
        assert(r@.variants =~= Seq::<(Uuid, EnumerationVariantView)>::empty());
        r
    }
}

impl Enumeration {
    /// The first variant, in order, with the given name.
    pub fn variant_named(&self, name: &str) -> (r: Option<&EnumerationVariant>)
        ensures
            r is None <==> !has_named(self@.variants, name@),
            r matches Some(v) ==> v@ == self@.variants[first_named(self@.variants, name@)].1,
    {
        let target = String::from_str(name);
        let n = self.variants.len();
        let mut i: usize = 0;
        while i < n
            invariant
                n == self.variants@.len(),
                i <= n,
                target@ == name@,
                forall|j: int| 0 <= j < i ==> self@.variants[j].1.name != name@,
            decreases n - i,
        {
            if self.variants[i].1.name == target {
                proof {
                    let k = first_named(self@.variants, name@);
                    assert(self@.variants[i as int].1.name == name@);
                    if k < i {
                        assert(self@.variants[k].1.name != name@);
                    }
                    if k > i {
                        assert(self@.variants[i as int].1.name == name@);
                    }
                }
                return Some(&self.variants[i].1);
            }
            i = i + 1;
        }
        Option::None
    }

    /// The variants with their ids, in order.
    pub fn variants(&self) -> (r: Vec<IdEnumerationVariant>)
        ensures
            r@.len() == self@.variants.len(),
            forall|i: int|
                0 <= i < r@.len() ==> (#[trigger] r@[i]).id == self@.variants[i].0 && r@[i].variant@
                    == self@.variants[i].1,
    {
        let mut r: Vec<IdEnumerationVariant> = Vec::new();
        let n = self.variants.len();
        let mut i: usize = 0;
        while i < n
            invariant
                n == self.variants@.len(),
                i <= n,
                r@.len() == i,
                forall|j: int|
                    0 <= j < i ==> (#[trigger] r@[j]).id == self@.variants[j].0 && r@[j].variant@
                        == self@.variants[j].1,
            decreases n - i,
        {
            let (id, variant) = &self.variants[i];
            r.push(IdEnumerationVariant { id: *id, variant: variant.clone() });
            i = i + 1;
        }
        r
    }

    /// Adds the record references of every variant's type, in variant order.
    pub fn dependencies(&self, set: &mut Vec<UnfrozenReference>)
        ensures
            final(set)@ == old(set)@ + variants_deps(self@.variants),
    {
        let ghost start = set@;
        let n = self.variants.len();
        let mut i: usize = 0;
        while i < n
            invariant
                n == self.variants@.len(),
                i <= n,
                set@ == start + variants_deps(self@.variants.take(i as int)),
            decreases n - i,
        {
            let ghost before = set@;
            self.variants[i].1.ty.dependencies(set);
            proof {
                let vs = self@.variants;
                assert(vs.take(i + 1).drop_last() =~= vs.take(i as int));
                assert(vs.take(i + 1).last() == vs[i as int]);
                assert(set@ =~= start + variants_deps(vs.take(i + 1)));
            }
            i = i + 1;
        }
        assert(self@.variants.take(n as int) =~= self@.variants);
    }

    /// The frozen enumeration, given the pinned type of each variant, in
    /// variant order.
    pub fn freeze_with(&self, tys: Vec<FrozenTy>) -> (r: frozen::Enumeration)
        requires
            tys@.len() == self@.variants.len(),
        ensures
            r@.parent == self@.parent,
            r@.name == self@.name,
            r@.variants.len() == self@.variants.len(),
            forall|i: int|
                0 <= i < r@.variants.len() ==> (#[trigger] r@.variants[i]).0 == self@.variants[i].0
                    && r@.variants[i].1.name == self@.variants[i].1.name && r@.variants[i].1.ty
                    == tys@[i],
            ids_unique(self@.variants) ==> ids_unique(r@.variants),
    {
        let mut tys = tys;
        let ghost all = tys@;
        let n = self.variants.len();
        let mut variants: Vec<(Uuid, frozen::EnumerationVariant)> = Vec::new();
        let mut i: usize = n;
        while i > 0
            invariant
                n == self.variants@.len(),
                n == all.len(),
                i <= n,
                tys@ == all.take(i as int),
                variants@.len() == n - i,
                forall|j: int|
                    0 <= j < n - i ==> (#[trigger] variants@[j]).0 == self@.variants[n - 1 - j].0
                        && variants@[j].1@.name == self@.variants[n - 1 - j].1.name
                        && variants@[j].1.ty == all[n - 1 - j],
            decreases i,
        {
            let ty = tys.pop().unwrap();
            i = i - 1;
            proof {
                assert(all.take(i + 1).last() == all[i as int]);
                assert(all.take(i + 1).drop_last() =~= all.take(i as int));
            }
            let (id, variant) = &self.variants[i];
            variants.push((*id, frozen::EnumerationVariant { name: variant.name.clone(), ty }));
        }
        let mut ordered: Vec<(Uuid, frozen::EnumerationVariant)> = Vec::new();
        while variants.len() > 0
            invariant
                n == self.variants@.len(),
                n == all.len(),
                variants@.len() + ordered@.len() == n,
                forall|j: int|
                    0 <= j < variants@.len() ==> (#[trigger] variants@[j]).0 == self@.variants[n - 1 - j].0
                        && variants@[j].1@.name == self@.variants[n - 1 - j].1.name
                        && variants@[j].1.ty == all[n - 1 - j],
                forall|j: int|
                    0 <= j < ordered@.len() ==> (#[trigger] ordered@[j]).0 == self@.variants[j].0
                        && ordered@[j].1@.name == self@.variants[j].1.name
                        && ordered@[j].1.ty == all[j],
            decreases variants@.len(),
        {
            let v = variants.pop().unwrap();
            ordered.push(v);
        }
        frozen::Enumeration {
            parent: self.parent,
            name: self.name.clone(),
            variants: ordered,
        }
    }
}

impl WithAcl for Enumeration {
    open spec fn acl_of(&self) -> Acl {
        self.acl
    }

    open spec fn with_acl(self, acl: Acl) -> Self {
        Enumeration { acl, ..self }
    }

    proof fn lemma_with_acl(self, acl: Acl) {
    }

    fn acl(&self) -> (r: &Acl) {
        &self.acl
    }

    fn acl_mut(&mut self) -> (r: &mut Acl) {
        &mut self.acl
    }
}

impl RecordView for Enumeration {
    open spec fn name_of(&self) -> Option<Seq<char>> {
        Some(self.name@)
    }

    open spec fn parent_of(&self) -> Option<Uuid> {
        Some(self.parent)
    }

    open spec fn acl_view_of(&self) -> Option<Acl> {
        Some(self.acl)
    }

    fn name(&self) -> (r: Option<&str>) {
        Some(self.name.as_str())
    }

    fn parent(&self) -> (r: Option<&Uuid>) {
        Some(&self.parent)
    }

    fn acl(&self) -> (r: Option<&Acl>) {
        Some(&self.acl)
    }
}

impl BlobDependencies for Enumeration {
    open spec fn blobs(&self) -> Set<Uuid> {
        Set::empty()
    }

    fn blob_dependencies(&self, set: &mut HashSet<Uuid>) {
        assert(set@ =~= old(set)@.union(Set::empty()));
    }
}

impl Migrate for Enumeration {
    /// No older schema version can be brought forward.
    fn migrate(from_version: i16, from: &[u8]) -> (r: Result<Self, MigrateError>)
        ensures
            r == Err::<Self, MigrateError>(MigrateError::NotImplemented { from_version }),
    {
        Err(MigrateError::NotImplemented { from_version })
    }
}

} // verus!

use std::collections::HashSet;
use vstd::prelude::*;

use crate::acl::Acl;
use crate::record::{BlobDependencies, FrozenReference, RecordView, Uuid};
use crate::ty::{frozen_ty_deps, FrozenTy};

verus! {

/// One variant of an enumeration whose types are pinned.
pub struct EnumerationVariant {
    pub name: String,
    pub ty: FrozenTy,
}

pub struct EnumerationVariantView {
    pub name: Seq<char>,
    pub ty: FrozenTy,
}

impl View for EnumerationVariant {
    type V = EnumerationVariantView;

    open spec fn view(&self) -> EnumerationVariantView {
        EnumerationVariantView { name: self.name@, ty: self.ty }
    }
}

pub struct IdEnumerationVariant {
    pub id: Uuid,
    pub variant: EnumerationVariant,
}

/// An enumeration whose references are all pinned to versions, its variants
/// in their listed order.
pub struct Enumeration {
    pub parent: Uuid,
    pub name: String,
    pub variants: Vec<(Uuid, EnumerationVariant)>,
}

pub struct EnumerationView {
    pub parent: Uuid,
    pub name: Seq<char>,
    pub variants: Seq<(Uuid, EnumerationVariantView)>,
}

impl View for Enumeration {
    type V = EnumerationView;

    open spec fn view(&self) -> EnumerationView {
        EnumerationView {
            parent: self.parent,
            name: self.name@,
            variants: self.variants@.map_values(|p: (Uuid, EnumerationVariant)| (p.0, p.1@)),
        }
    }
}

/// The position of the first variant with the name.
pub open spec fn first_named(vs: Seq<(Uuid, EnumerationVariantView)>, name: Seq<char>) -> int {
    choose|i: int|
        0 <= i < vs.len() && (#[trigger] vs[i]).1.name == name && forall|j: int|
            0 <= j < i ==> vs[j].1.name != name
}

pub open spec fn has_named(vs: Seq<(Uuid, EnumerationVariantView)>, name: Seq<char>) -> bool {
    exists|i: int| 0 <= i < vs.len() && (#[trigger] vs[i]).1.name == name
}

/// The pinned references of every variant's type, in variant order.
pub open spec fn variants_deps(vs: Seq<(Uuid, EnumerationVariantView)>) -> Seq<FrozenReference>
    decreases vs.len(),
{
    if vs.len() == 0 {
        Seq::empty()
    } else {
        variants_deps(vs.drop_last()) + frozen_ty_deps(vs.last().1.ty)
    }
}

impl Enumeration {
    /// The first variant, in order, with the given name.
    pub fn variant_named(&self, name: &str) -> (r: Option<&EnumerationVariant>)
        ensures
            r is None <==> !has_named(self@.variants, name@),
            r matches Some(v) ==> v@ == self@.variants[first_named(self@.variants, name@)].1,
    {
        let target = String::from_str(name);
        let n = self.variants.len();
        let mut i: usize = 0;
        while i < n
            invariant
                n == self.variants@.len(),
                i <= n,
                target@ == name@,
                forall|j: int| 0 <= j < i ==> self@.variants[j].1.name != name@,
            decreases n - i,
        {
            if self.variants[i].1.name == target {
                proof {
                    let k = first_named(self@.variants, name@);
                    assert(self@.variants[i as int].1.name == name@);
                    if k < i {
                        assert(self@.variants[k].1.name != name@);
                    }
                }
                return Some(&self.variants[i].1);
            }
            i = i + 1;
        }
        Option::None
    }

    /// Adds the pinned references of every variant's type, in variant order.
    pub fn dependencies(&self, set: &mut Vec<FrozenReference>)
        ensures
            final(set)@ == old(set)@ + variants_deps(self@.variants),
    {
        let ghost start = set@;
        let n = self.variants.len();
        let mut i: usize = 0;
        while i < n
            invariant
                n == self.variants@.len(),
                i <= n,
                set@ == start + variants_deps(self@.variants.take(i as int)),
            decreases n - i,
        {
            self.variants[i].1.ty.dependencies(set);
            proof {
                let vs = self@.variants;
                assert(vs.take(i + 1).drop_last() =~= vs.take(i as int));
                assert(vs.take(i + 1).last() == vs[i as int]);
                assert(set@ =~= start + variants_deps(vs.take(i + 1)));
            }
            i = i + 1;
        }
        assert(self@.variants.take(n as int) =~= self@.variants);
    }
}

impl RecordView for Enumeration {
    open spec fn name_of(&self) -> Option<Seq<char>> {
        Some(self.name@)
    }

    open spec fn parent_of(&self) -> Option<Uuid> {
        Some(self.parent)
    }

    open spec fn acl_view_of(&self) -> Option<Acl> {
        None
    }

    fn name(&self) -> (r: Option<&str>) {
        Some(self.name.as_str())
    }

    fn parent(&self) -> (r: Option<&Uuid>) {
        Some(&self.parent)
    }

    fn acl(&self) -> (r: Option<&Acl>) {
        Option::None
    }
}

impl BlobDependencies for Enumeration {
    open spec fn blobs(&self) -> Set<Uuid> {
        Set::empty()
    }

    fn blob_dependencies(&self, set: &mut HashSet<Uuid>) {
        assert(set@ =~= old(set)@.union(Set::empty()));
    }
}

} // verus!

use vstd::prelude::*;

use super::unfrozen::{
    first_named, has_named, variants_view, Enumeration, EnumerationVariant,
    EnumerationVariantView, EnumerationView,
};
use crate::acl::Acl;
use crate::record::Uuid;

verus! {

/// What anyone may read of an enumeration: everything but its ACL.
pub struct Public {
    pub name: String,
    pub parent: Uuid,
    pub variants: Vec<(Uuid, EnumerationVariant)>,
}

impl Public {
    /// The first variant, in order, with the given name.
    pub fn variant_named(&self, name: &str) -> (r: Option<&EnumerationVariant>)
        ensures
            r is None <==> !has_named(variants_view(self.variants@), name@),
            r matches Some(v) ==> v@ == variants_view(self.variants@)[first_named(
                variants_view(self.variants@),
                name@,
            )].1,
    {
        let ghost vs = variants_view(self.variants@);
        let target = String::from_str(name);
        let n = self.variants.len();
        let mut i: usize = 0;
        while i < n
            invariant
                n == self.variants@.len(),
                vs == variants_view(self.variants@),
                i <= n,
                target@ == name@,
                forall|j: int| 0 <= j < i ==> vs[j].1.name != name@,
            decreases n - i,
        {
            if self.variants[i].1.name == target {
                proof {
                    let k = first_named(vs, name@);
                    assert(vs[i as int].1.name == name@);
                    if k < i {
                        assert(vs[k].1.name != name@);
                    }
                }
                return Some(&self.variants[i].1);
            }
            i = i + 1;
        }
        Option::None
    }

    /// The public part of an enumeration.
    pub fn from_enumeration(enumeration: Enumeration) -> (r: Public)
        ensures
            r.name@ == enumeration@.name,
            r.parent == enumeration@.parent,
            variants_view(r.variants@) == enumeration@.variants,
    {
        Public {
            name: enumeration.name,
            parent: enumeration.parent,
            variants: enumeration.variants,
        }
    }

    /// An enumeration with the public fields, and the default (empty) ACL.
    pub fn into_enumeration(self) -> (r: Enumeration)
        ensures
            r@ == (EnumerationView {
                parent: self.parent,
                name: self.name@,
                acl: Acl::empty_view(),
                variants: variants_view(self.variants@),
            }),
    {
        Enumeration {
            parent: self.parent,
            name: self.name,
            acl: Acl::default(),
            variants: self.variants,
        }
    }
}

} // verus!

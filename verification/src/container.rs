use std::collections::HashSet;
use vstd::prelude::*;

use crate::record::{
    frozen_distinct, has_frozen, has_unfrozen, insert_frozen, insert_unfrozen, unfrozen_distinct,
    BlobDependencies, FrozenReference, UnfrozenReference, Uuid,
};

verus! {

pub enum UnfrozenContainer<T> {
    Local(T),
    Reference(UnfrozenReference),
}

impl<T> UnfrozenContainer<T> {
    /// A container depends on the record it refers to, if any: the
    /// reference is added to `set` unless it is there already.
    pub fn dependencies(&self, set: &mut Vec<UnfrozenReference>)
        ensures
            match *self {
                UnfrozenContainer::Local(_) => final(set)@ == old(set)@,
                UnfrozenContainer::Reference(r) => final(set)@ == if has_unfrozen(old(set)@, r) {
                    old(set)@
                } else {
                    old(set)@.push(r)
                },
            },
            unfrozen_distinct(old(set)@) ==> unfrozen_distinct(final(set)@),
    {
        match self {
            UnfrozenContainer::Local(_) => {},
            UnfrozenContainer::Reference(reference) => {
                insert_unfrozen(set, reference);
            },
        }
    }
}

impl<T: BlobDependencies> UnfrozenContainer<T> {
    /// A local value's blobs; a reference has none of its own.
    pub fn blob_dependencies(&self, set: &mut HashSet<Uuid>)
        ensures
            match *self {
                UnfrozenContainer::Local(v) => final(set)@ == old(set)@.union(v.blobs()),
                UnfrozenContainer::Reference(_) => final(set)@ == old(set)@,
            },
    {
        match self {
            UnfrozenContainer::Local(value) => {
                value.blob_dependencies(set);
            },
            UnfrozenContainer::Reference(_) => {},
        }
    }
}

pub enum FrozenContainer<T> {
    Local(T),
    Reference(FrozenReference),
}

impl<T> FrozenContainer<T> {
    /// A container depends on the record it refers to, if any: the
    /// reference is added to `set` unless it is there already.
    pub fn dependencies(&self, set: &mut Vec<FrozenReference>)
        ensures
            match *self {
                FrozenContainer::Local(_) => final(set)@ == old(set)@,
                FrozenContainer::Reference(r) => final(set)@ == if has_frozen(old(set)@, r) {
                    old(set)@
                } else {
                    old(set)@.push(r)
                },
            },
            frozen_distinct(old(set)@) ==> frozen_distinct(final(set)@),
    {
        match self {
            FrozenContainer::Local(_) => {},
            FrozenContainer::Reference(reference) => {
                insert_frozen(set, reference);
            },
        }
    }
}

} // verus!

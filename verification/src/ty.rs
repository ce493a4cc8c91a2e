use vstd::prelude::*;

use crate::record::{FrozenReference, UnfrozenReference};

verus! {

/// A built-in type: scalars and their array forms.
#[derive(Clone, Copy, PartialEq, Eq, Structural, Debug)]
pub enum PrimitiveKind {
    Unit,
    Boolean,
    U8,
    U16,
    U32,
    U64,
    I8,
    I16,
    I32,
    I64,
    F32,
    F64,
    String,
    ArrayBoolean,
    ArrayU8,
    ArrayU16,
    ArrayU32,
    ArrayU64,
    ArrayI8,
    ArrayI16,
    ArrayI32,
    ArrayI64,
    ArrayF32,
    ArrayF64,
    ArrayString,
}

#[derive(Clone, Copy, PartialEq, Eq, Structural, Debug)]
pub struct Primitive {
    pub kind: PrimitiveKind,
}

/// A scalar reference to another type record, version not yet pinned.
pub struct UnfrozenScalar {
    pub reference: UnfrozenReference,
}

/// An array of another type record, version not yet pinned.
pub struct UnfrozenArray {
    pub reference: UnfrozenReference,
}

/// An optional value of another type expression.
pub struct UnfrozenOption {
    pub element: Box<UnfrozenTy>,
}

/// A type expression whose record references are not yet version-pinned.
pub enum UnfrozenTy {
    Primitive(Primitive),
    UnfrozenScalar(UnfrozenScalar),
    UnfrozenArray(UnfrozenArray),
    UnfrozenOption(UnfrozenOption),
}

/// A scalar reference to another type record, pinned.
pub struct FrozenScalar {
    pub reference: FrozenReference,
}

/// An array of another type record, pinned.
pub struct FrozenArray {
    pub reference: FrozenReference,
}

/// An optional value of another type expression, every version pinned.
pub struct FrozenOption {
    pub element: Box<FrozenTy>,
}

/// A type expression with every record reference pinned.
pub enum FrozenTy {
    Primitive(Primitive),
    FrozenScalar(FrozenScalar),
    FrozenArray(FrozenArray),
    FrozenOption(FrozenOption),
}

/// The record references a type expression depends on, in order.
pub open spec fn frozen_ty_deps(t: FrozenTy) -> Seq<FrozenReference>
    decreases t,
{
    match t {
        FrozenTy::Primitive(_) => Seq::empty(),
        FrozenTy::FrozenScalar(s) => seq![s.reference],
        FrozenTy::FrozenArray(a) => seq![a.reference],
        FrozenTy::FrozenOption(o) => frozen_ty_deps(*o.element),
    }
}

pub open spec fn unfrozen_ty_deps(t: UnfrozenTy) -> Seq<UnfrozenReference>
    decreases t,
{
    match t {
        UnfrozenTy::Primitive(_) => Seq::empty(),
        UnfrozenTy::UnfrozenScalar(s) => seq![s.reference],
        UnfrozenTy::UnfrozenArray(a) => seq![a.reference],
        UnfrozenTy::UnfrozenOption(o) => unfrozen_ty_deps(*o.element),
    }
}

impl FrozenTy {
    /// Collects the pinned record references this type depends on.
    pub fn dependencies(&self, set: &mut Vec<FrozenReference>)
        ensures
            final(set)@ == old(set)@ + frozen_ty_deps(*self),
        decreases self,
    {
        match self {
            FrozenTy::Primitive(_) => {
                assert(set@ =~= old(set)@ + frozen_ty_deps(*self));
            },
            FrozenTy::FrozenScalar(s) => {
                set.push(s.reference.clone());
                assert(set@ =~= old(set)@ + frozen_ty_deps(*self));
            },
            FrozenTy::FrozenArray(a) => {
                set.push(a.reference.clone());
                assert(set@ =~= old(set)@ + frozen_ty_deps(*self));
            },
            FrozenTy::FrozenOption(o) => {
                proof {
                    assert(decreases_to!(*self => (*self)->FrozenOption_0));
                }
                o.element.dependencies(set);
            },
        }
    }
}

impl UnfrozenTy {
    /// Collects the record references this type depends on.
    pub fn dependencies(&self, set: &mut Vec<UnfrozenReference>)
        ensures
            final(set)@ == old(set)@ + unfrozen_ty_deps(*self),
        decreases self,
    {
        match self {
            UnfrozenTy::Primitive(_) => {
                assert(set@ =~= old(set)@ + unfrozen_ty_deps(*self));
            },
            UnfrozenTy::UnfrozenScalar(s) => {
                set.push(s.reference.clone());
                assert(set@ =~= old(set)@ + unfrozen_ty_deps(*self));
            },
            UnfrozenTy::UnfrozenArray(a) => {
                set.push(a.reference.clone());
                assert(set@ =~= old(set)@ + unfrozen_ty_deps(*self));
            },
            UnfrozenTy::UnfrozenOption(o) => {
                proof {
                    assert(decreases_to!(*self => (*self)->UnfrozenOption_0));
                }
                o.element.dependencies(set);
            },
        }
    }
}

/// Whether `f` is `u` with its record references pinned: the same
/// primitives, scalars, arrays and options, nested the same way.
pub open spec fn pinned_shape(u: UnfrozenTy, f: FrozenTy) -> bool
    decreases u,
{
    match (u, f) {
        (UnfrozenTy::Primitive(a), FrozenTy::Primitive(b)) => a == b,
        (UnfrozenTy::UnfrozenScalar(_), FrozenTy::FrozenScalar(_)) => true,
        (UnfrozenTy::UnfrozenArray(_), FrozenTy::FrozenArray(_)) => true,
        (UnfrozenTy::UnfrozenOption(a), FrozenTy::FrozenOption(b)) => pinned_shape(*a.element, *b.element),
        _ => false,
    }
}

impl UnfrozenTy {
    /// This type with its record references pinned to `resolved`, the pinned
    /// form of each of its references in order.
    pub fn freeze_with(&self, resolved: Vec<FrozenReference>) -> (r: FrozenTy)
        requires
            resolved@.len() == unfrozen_ty_deps(*self).len(),
        ensures
            pinned_shape(*self, r),
            frozen_ty_deps(r) == resolved@,
        decreases self,
    {
        match self {
            UnfrozenTy::Primitive(p) => {
                assert(resolved@ =~= Seq::<FrozenReference>::empty());
                FrozenTy::Primitive(*p)
            },
            UnfrozenTy::UnfrozenScalar(_) => {
                let mut resolved = resolved;
                let reference = resolved.pop().unwrap();
                assert(resolved@.len() == 0);
                FrozenTy::FrozenScalar(FrozenScalar { reference })
            },
            UnfrozenTy::UnfrozenArray(_) => {
                let mut resolved = resolved;
                let reference = resolved.pop().unwrap();
                assert(resolved@.len() == 0);
                FrozenTy::FrozenArray(FrozenArray { reference })
            },
            UnfrozenTy::UnfrozenOption(o) => {
                proof {
                    assert(decreases_to!(*self => (*self)->UnfrozenOption_0));
                }
                let element = o.element.freeze_with(resolved);
                FrozenTy::FrozenOption(FrozenOption { element: Box::new(element) })
            },
        }
    }
}

} // verus!

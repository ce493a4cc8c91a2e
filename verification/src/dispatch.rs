use vstd::prelude::*;

use crate::record::{TYPE_ANIMATION, TYPE_ENUMERATION, TYPE_FOLDER, TYPE_MODULE, TYPE_ORGANIZATION};
use crate::text::{decimal, i64_to_string};

verus! {

/// A record type at a schema version, each one this library has a model of.
#[derive(Clone, Copy, PartialEq, Eq, Structural, Debug)]
pub enum RecordVersion {
    OrganizationV0,
    FolderV0,
    ModuleV0,
    EnumerationV0,
    AnimationV0,
    AnimationV1,
}

/// Why a record type and schema version cannot be handled.
#[derive(Clone, Copy, PartialEq, Eq, Structural, Debug)]
pub enum DispatchError {
    UnsupportedType { ty: i16 },
    UnsupportedVersion { schema_version: i16 },
}

/// The record type's code.
pub open spec fn type_of(r: RecordVersion) -> i16 {
    match r {
        RecordVersion::OrganizationV0 => TYPE_ORGANIZATION,
        RecordVersion::FolderV0 => TYPE_FOLDER,
        RecordVersion::ModuleV0 => TYPE_MODULE,
        RecordVersion::EnumerationV0 => TYPE_ENUMERATION,
        RecordVersion::AnimationV0 => TYPE_ANIMATION,
        RecordVersion::AnimationV1 => TYPE_ANIMATION,
    }
}

/// The schema version.
pub open spec fn version_of(r: RecordVersion) -> i16 {
    match r {
        RecordVersion::AnimationV1 => 1,
        _ => 0,
    }
}

/// What a record type and schema version are handled as: the model with
/// that type and version; an unknown type is refused first, then an unknown
/// version of a known type.
pub open spec fn dispatched(ty: i16, schema_version: i16) -> Result<RecordVersion, DispatchError> {
    if !(ty == TYPE_ORGANIZATION || ty == TYPE_FOLDER || ty == TYPE_MODULE || ty == TYPE_ENUMERATION
        || ty == TYPE_ANIMATION) {
        Err(DispatchError::UnsupportedType { ty })
    } else if exists|r: RecordVersion| type_of(r) == ty && version_of(r) == schema_version {
        Ok(choose|r: RecordVersion| type_of(r) == ty && version_of(r) == schema_version)
    } else {
        Err(DispatchError::UnsupportedVersion { schema_version })
    }
}

/// Finds the model of a record type at a schema version.
pub fn dispatch(ty: i16, schema_version: i16) -> (r: Result<RecordVersion, DispatchError>)
    ensures
        r == dispatched(ty, schema_version),
        r matches Ok(v) ==> type_of(v) == ty && version_of(v) == schema_version,
{
    let found = if ty == TYPE_ORGANIZATION {
        if schema_version == 0 { Some(RecordVersion::OrganizationV0) } else { None }
    } else if ty == TYPE_FOLDER {
        if schema_version == 0 { Some(RecordVersion::FolderV0) } else { None }
    } else if ty == TYPE_MODULE {
        if schema_version == 0 { Some(RecordVersion::ModuleV0) } else { None }
    } else if ty == TYPE_ENUMERATION {
        if schema_version == 0 { Some(RecordVersion::EnumerationV0) } else { None }
    } else if ty == TYPE_ANIMATION {
        if schema_version == 0 {
            Some(RecordVersion::AnimationV0)
        } else if schema_version == 1 {
            Some(RecordVersion::AnimationV1)
        } else {
            None
        }
    } else {
        return Err(DispatchError::UnsupportedType { ty });
    };
    match found {
        Some(v) => {
            proof {
                lemma_versions_distinct(v);
                assert(type_of(v) == ty && version_of(v) == schema_version);
                let c = choose|w: RecordVersion| type_of(w) == ty && version_of(w) == schema_version;
                assert(type_of(c) == ty && version_of(c) == schema_version);
                assert(c == v);
            }
            Ok(v)
        },
        None => {
            proof {
                assert forall|v: RecordVersion| !(type_of(v) == ty && version_of(v) == schema_version) by {
                    match v {
                        RecordVersion::OrganizationV0 => {},
                        RecordVersion::FolderV0 => {},
                        RecordVersion::ModuleV0 => {},
                        RecordVersion::EnumerationV0 => {},
                        RecordVersion::AnimationV0 => {},
                        RecordVersion::AnimationV1 => {},
                    }
                }
            }
            Err(DispatchError::UnsupportedVersion { schema_version })
        },
    }
}

proof fn lemma_versions_distinct(v: RecordVersion)
    ensures
        forall|w: RecordVersion| type_of(w) == type_of(v) && version_of(w) == version_of(v) ==> w == v,
{
}

/// The record type's code.
pub fn record_type(r: RecordVersion) -> (t: i16)
    ensures
        t == type_of(r),
{
    match r {
        RecordVersion::OrganizationV0 => TYPE_ORGANIZATION,
        RecordVersion::FolderV0 => TYPE_FOLDER,
        RecordVersion::ModuleV0 => TYPE_MODULE,
        RecordVersion::EnumerationV0 => TYPE_ENUMERATION,
        RecordVersion::AnimationV0 => TYPE_ANIMATION,
        RecordVersion::AnimationV1 => TYPE_ANIMATION,
    }
}

/// The schema version.
pub fn schema_version(r: RecordVersion) -> (v: i16)
    ensures
        v == version_of(r),
{
    match r {
        RecordVersion::AnimationV1 => 1,
        _ => 0,
    }
}

/// A record version's type and schema version lead back to it.
pub proof fn law_dispatch_round_trip(r: RecordVersion)
    ensures
        dispatched(type_of(r), version_of(r)) == Ok::<RecordVersion, DispatchError>(r),
{
    lemma_versions_distinct(r);
    let c = choose|w: RecordVersion| type_of(w) == type_of(r) && version_of(w) == version_of(r);
    assert(type_of(c) == type_of(r) && version_of(c) == version_of(r));
}

impl DispatchError {
    /// The error's message.
    pub fn message(&self) -> (r: String)
        ensures
            match *self {
                DispatchError::UnsupportedType { ty } => r@ == "Unsupported record type: "@ + decimal(
                    ty as int,
                ),
                DispatchError::UnsupportedVersion { schema_version } => r@
                    == "Unsupported schema version: "@ + decimal(schema_version as int),
            },
    {
        match self {
            DispatchError::UnsupportedType { ty } => {
                let mut s = String::from_str("Unsupported record type: ");
                let n = i64_to_string(*ty as i64);
                s.append(n.as_str());
                s
            },
            DispatchError::UnsupportedVersion { schema_version } => {
                let mut s = String::from_str("Unsupported schema version: ");
                let n = i64_to_string(*schema_version as i64);
                s.append(n.as_str());
                s
            },
        }
    }
}

} // verus!

use semio_record::dispatch::{dispatch, record_type, schema_version, DispatchError, RecordVersion};
use semio_record::record::{
    TYPE_ANIMATION, TYPE_ENUMERATION, TYPE_FOLDER, TYPE_MODULE, TYPE_ORGANIZATION, TYPE_SCENE,
};

#[test]
fn dispatch_known_versions() {
    assert_eq!(dispatch(TYPE_ORGANIZATION, 0), Ok(RecordVersion::OrganizationV0));
    assert_eq!(dispatch(TYPE_FOLDER, 0), Ok(RecordVersion::FolderV0));
    assert_eq!(dispatch(TYPE_MODULE, 0), Ok(RecordVersion::ModuleV0));
    assert_eq!(dispatch(TYPE_ENUMERATION, 0), Ok(RecordVersion::EnumerationV0));
    assert_eq!(dispatch(TYPE_ANIMATION, 0), Ok(RecordVersion::AnimationV0));
    assert_eq!(dispatch(TYPE_ANIMATION, 1), Ok(RecordVersion::AnimationV1));
}

#[test]
fn dispatch_refuses_unknown_type_first() {
    assert_eq!(dispatch(TYPE_SCENE, 0), Err(DispatchError::UnsupportedType { ty: TYPE_SCENE }));
    assert_eq!(dispatch(-7, 9), Err(DispatchError::UnsupportedType { ty: -7 }));
    assert_eq!(
        DispatchError::UnsupportedType { ty: 256 }.message(),
        "Unsupported record type: 256"
    );
}

#[test]
fn dispatch_refuses_unknown_version() {
    assert_eq!(
        dispatch(TYPE_ANIMATION, 2),
        Err(DispatchError::UnsupportedVersion { schema_version: 2 })
    );
    assert_eq!(
        dispatch(TYPE_MODULE, -1),
        Err(DispatchError::UnsupportedVersion { schema_version: -1 })
    );
    assert_eq!(
        DispatchError::UnsupportedVersion { schema_version: -1 }.message(),
        "Unsupported schema version: -1"
    );
}

#[test]
fn dispatch_round_trip() {
    for r in [
        RecordVersion::OrganizationV0,
        RecordVersion::FolderV0,
        RecordVersion::ModuleV0,
        RecordVersion::EnumerationV0,
        RecordVersion::AnimationV0,
        RecordVersion::AnimationV1,
    ] {
        assert_eq!(dispatch(record_type(r), schema_version(r)), Ok(r));
    }
}

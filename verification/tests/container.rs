use semio_record::container::{FrozenContainer, UnfrozenContainer};
use semio_record::record::{FrozenReference, UnfrozenReference, Version, VersionReq};

fn unpinned(id: u128, req: Option<&str>) -> UnfrozenReference {
    UnfrozenReference { id, version_req: VersionReq { text: req.map(|t| t.to_string()) } }
}

#[test]
fn container_dependencies_are_added_once() {
    let mut set = Vec::new();
    UnfrozenContainer::<u8>::Local(1).dependencies(&mut set);
    assert!(set.is_empty());
    UnfrozenContainer::<u8>::Reference(unpinned(4, Some("^1"))).dependencies(&mut set);
    UnfrozenContainer::<u8>::Reference(unpinned(4, Some("^1"))).dependencies(&mut set);
    UnfrozenContainer::<u8>::Reference(unpinned(4, None)).dependencies(&mut set);
    assert_eq!(set.len(), 2);
    assert_eq!(set[0].version_req.text.as_deref(), Some("^1"));
    assert_eq!(set[1].version_req.text, None);

    let mut pinned = Vec::new();
    let r = FrozenReference { id: 4, version: Version { text: "1.0.0".to_string() } };
    FrozenContainer::<u8>::Reference(r.clone()).dependencies(&mut pinned);
    FrozenContainer::<u8>::Reference(r).dependencies(&mut pinned);
    assert_eq!(pinned.len(), 1);
}

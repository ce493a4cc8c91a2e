use semio_record::acl::action::{
    Action, ActionError, AddPermissions, AddPermissionsError, RemovePermissions,
    RemovePermissionsError, SetDefault, SetPermissions, SetPermissionsError,
};
use semio_record::acl::{
    private_read_write, public_read, Acl, Inherit, InputError, NoPermissions, PermissionError,
    PermissionLevel, Permissions, Resolution, WithPermissions,
};
use semio_record::folder::v0::unfrozen::Folder;
use semio_record::record::Apply;

fn custom(p: Permissions) -> WithPermissions {
    WithPermissions::Custom(p)
}

#[test]
fn added_permissions_apply_to_the_agent_only() {
    let mut folder = Folder::default();
    folder
        .apply(&AddPermissions { agent: 1, with_permissions: custom(public_read()) })
        .unwrap();
    assert_eq!(*folder.acl.with_permissions(&1), custom(public_read()));
    assert_eq!(
        *folder.acl.with_permissions(&2),
        WithPermissions::NoPermissions(NoPermissions { _dummy: 0 })
    );
    assert_eq!(
        folder.apply(&AddPermissions { agent: 1, with_permissions: custom(public_read()) }),
        Err(AddPermissionsError::AgentAlreadyExists)
    );
}

#[test]
fn removing_what_was_added_restores_the_list() {
    let mut folder = Folder::default();
    folder.apply(&AddPermissions { agent: 3, with_permissions: custom(private_read_write()) }).unwrap();
    folder.apply(&RemovePermissions { agent: 3 }).unwrap();
    assert!(folder.acl.permissions.is_empty());
    assert_eq!(
        folder.apply(&RemovePermissions { agent: 3 }),
        Err(RemovePermissionsError::AgentDoesNotExists)
    );
}

#[test]
fn set_changes_existing_agents_only() {
    let mut folder = Folder::default();
    assert_eq!(
        folder.apply(&SetPermissions { agent: 1, with_permissions: custom(public_read()) }),
        Err(SetPermissionsError::AgentDoesNotExists)
    );
    folder.apply(&AddPermissions { agent: 1, with_permissions: custom(public_read()) }).unwrap();
    folder.apply(&SetPermissions { agent: 1, with_permissions: custom(private_read_write()) }).unwrap();
    assert_eq!(*folder.acl.with_permissions(&1), custom(private_read_write()));
}

#[test]
fn default_reaches_unnamed_agents() {
    let mut folder = Folder::default();
    folder.apply(&AddPermissions { agent: 1, with_permissions: custom(public_read()) }).unwrap();
    folder.apply(&SetDefault { with_permissions: WithPermissions::Inherit(Inherit { from: None }) }).unwrap();
    assert_eq!(*folder.acl.with_permissions(&1), custom(public_read()));
    assert_eq!(folder.acl.resolution(&2), Resolution::Inherit(Inherit { from: None }));
    assert_eq!(folder.acl.resolution(&1), Resolution::Resolved(public_read()));
}

#[test]
fn acl_actions_dispatch() {
    let mut folder = Folder::default();
    let r = folder.apply(&Action::RemovePermissions(RemovePermissions { agent: 9 }));
    assert_eq!(r, Err(ActionError::RemovePermissions(RemovePermissionsError::AgentDoesNotExists)));
}

#[test]
fn permissions_validate_read_then_write() {
    let have = Permissions { read: PermissionLevel::Public, write: PermissionLevel::NoAccess };
    assert_eq!(have.validate(&public_read()), Ok(()));
    assert_eq!(have.validate(&private_read_write()), Err(PermissionError::ReadTooLow));
    let need_write = Permissions { read: PermissionLevel::NoAccess, write: PermissionLevel::Public };
    assert_eq!(have.validate(&need_write), Err(PermissionError::WriteTooLow));
    assert!(PermissionLevel::NoAccess.lower_than(&PermissionLevel::Public));
    assert!(!PermissionLevel::Private.lower_than(&PermissionLevel::Public));
}

#[test]
fn new_acl_names_its_owner() {
    let acl = Acl::new(5, custom(private_read_write()));
    assert_eq!(*acl.with_permissions(&5), custom(private_read_write()));
    assert_eq!(*acl.default_permissions(), WithPermissions::NoPermissions(NoPermissions { _dummy: 0 }));
}

#[test]
fn with_permissions_from_input() {
    assert_eq!(
        WithPermissions::from_input("none"),
        Some(WithPermissions::NoPermissions(NoPermissions { _dummy: 0 }))
    );
    assert_eq!(
        WithPermissions::from_input("none:ignored"),
        Some(WithPermissions::NoPermissions(NoPermissions { _dummy: 0 }))
    );
    assert_eq!(
        WithPermissions::from_input("inherit"),
        Some(WithPermissions::Inherit(Inherit { from: None }))
    );
    assert_eq!(
        WithPermissions::from_input("inherit:6ba7b810-9dad-11d1-80b4-00c04fd430c8"),
        Some(WithPermissions::Inherit(Inherit { from: Some(0x6ba7b8109dad11d180b400c04fd430c8) }))
    );
    assert_eq!(
        WithPermissions::from_input("custom:PUBLIC:PRIVATE"),
        Some(WithPermissions::Custom(Permissions {
            read: PermissionLevel::Public,
            write: PermissionLevel::Private,
        }))
    );
    assert_eq!(WithPermissions::from_input("custom:PUBLIC"), None);
    assert_eq!(WithPermissions::from_input("custom:public:PRIVATE"), None);
    assert_eq!(WithPermissions::from_input("custom:NONE:WRITE"), None);
    assert_eq!(WithPermissions::from_input("owner"), None);
    assert_eq!(WithPermissions::from_input(""), None);
}

#[test]
fn with_permissions_checked_from_input() {
    assert_eq!(WithPermissions::checked_from_input("inherit:zzz"), Err(InputError::MalformedId));
    assert_eq!(
        WithPermissions::checked_from_input("inherit:6ba7b8109dad11d180b400c04fd430c8"),
        Ok(Some(WithPermissions::Inherit(Inherit { from: Some(0x6ba7b8109dad11d180b400c04fd430c8) })))
    );
    assert_eq!(
        WithPermissions::checked_from_input("custom:NONE:NONE"),
        Ok(Some(WithPermissions::Custom(Permissions {
            read: PermissionLevel::NoAccess,
            write: PermissionLevel::NoAccess,
        })))
    );
    assert_eq!(WithPermissions::checked_from_input("bogus:zzz"), Ok(None));
}

use semio_record::expr::{Expr, Number};
use semio_record::api::{
    CreateFolderReq, Failure, GetReq, LoginReq, Msg, MsgKind, Req, Res, Result as ApiResult,
};
use semio_record::enumeration::v0::public::Public as EnumerationPublic;
use semio_record::enumeration::v0::unfrozen::{Enumeration, EnumerationVariant};
use semio_record::folder::v0::public::Public as FolderPublic;
use semio_record::folder::v0::unfrozen::Folder;
use semio_record::organization::v0::public::Public as OrganizationPublic;
use semio_record::organization::v0::unfrozen::Organization;
use semio_record::record::{
    FrozenReference, Migrate, MigrateError, RecordView, UnfrozenReference, Version, VersionReq,
};
use semio_record::ty::{
    FrozenTy, Primitive, PrimitiveKind, UnfrozenArray, UnfrozenOption, UnfrozenScalar, UnfrozenTy,
};

fn unit_variant(name: &str) -> EnumerationVariant {
    EnumerationVariant {
        name: name.to_string(),
        ty: UnfrozenTy::Primitive(Primitive { kind: PrimitiveKind::Unit }),
    }
}

fn status() -> Enumeration {
    Enumeration {
        name: "Status".to_string(),
        parent: 9,
        variants: vec![
            (1, unit_variant("Success")),
            (2, unit_variant("Failure")),
            (3, EnumerationVariant {
                name: "Running".to_string(),
                ty: UnfrozenTy::UnfrozenArray(UnfrozenArray {
                    reference: UnfrozenReference { id: 44, version_req: VersionReq { text: None } },
                }),
            }),
        ],
        ..Default::default()
    }
}

#[test]
fn variants_keep_their_order() {
    let e = status();
    let names: Vec<String> = e.variants().into_iter().map(|v| v.variant.name).collect();
    assert_eq!(names, vec!["Success", "Failure", "Running"]);
    assert_eq!(e.variant_named("Failure").unwrap().name, "Failure");
    assert!(e.variant_named("Missing").is_none());
    let mut deps = Vec::new();
    e.dependencies(&mut deps);
    assert_eq!(deps.len(), 1);
    assert_eq!(deps[0].id, 44);
}

#[test]
fn freezing_keeps_names_and_order() {
    let e = status();
    let unit = || FrozenTy::Primitive(Primitive { kind: PrimitiveKind::Unit });
    let frozen = e.freeze_with(vec![unit(), unit(), unit()]);
    assert_eq!(frozen.name, "Status");
    assert_eq!(frozen.parent, 9);
    let ids: Vec<u128> = frozen.variants.iter().map(|v| v.0).collect();
    assert_eq!(ids, vec![1, 2, 3]);
    assert_eq!(frozen.variant_named("Running").unwrap().name, "Running");
}

#[test]
fn public_parts_drop_the_acl() {
    let public = EnumerationPublic::from_enumeration(status());
    assert_eq!(public.variant_named("Success").unwrap().name, "Success");
    assert_eq!(public.into_enumeration().variants.len(), 3);
    let folder = Folder { name: "f".to_string(), parent: 2, ..Default::default() };
    assert_eq!(folder.name(), Some("f"));
    assert_eq!(folder.parent(), Some(&2));
    let public = FolderPublic::from_folder(folder);
    assert_eq!(public.into_folder().parent, 2);
    let organization = Organization { name: "o".to_string(), ..Default::default() };
    assert_eq!(organization.parent(), None);
    let public = OrganizationPublic::from_organization(organization);
    assert_eq!(public.into_organization().name, "o");
}

#[test]
fn migration_is_not_implemented() {
    let e = Enumeration::migrate(3, b"{}").err().unwrap();
    assert_eq!(e, MigrateError::NotImplemented { from_version: 3 });
    assert_eq!(e.message(), "Migration not implemented for version 3");
    assert!(Folder::migrate(-1, b"").is_err());
    assert!(Organization::migrate(0, b"").is_err());
}

#[test]
fn a_failed_request_is_answered_in_kind() {
    let msg = Msg { id: 5, kind: MsgKind::Req(Req::CreateFolder(CreateFolderReq { parent: 1, name: "x".to_string() })) };
    let reply = msg.fail(Failure::from("nope".to_string()));
    assert_eq!(reply.id, 5);
    match reply.kind {
        MsgKind::Res(Res::Create(ApiResult::Failure(f))) => {
            assert_eq!(f.message().map(|m| m.as_str()), Some("nope"));
            assert_eq!(f.code(), None);
        },
        _ => panic!("Expected a create failure"),
    }
    let login = Msg { id: 6, kind: MsgKind::Req(Req::Login(LoginReq { username: "u".to_string(), password: "p".to_string() })) };
    assert!(matches!(login.fail(Failure::from_message("bad".to_string())).kind, MsgKind::Res(Res::LoginWithToken(ApiResult::Failure(_)))));
    let get = Msg { id: 7, kind: MsgKind::Req(Req::Get(GetReq { id: 1 })) };
    assert!(matches!(get.fail(Failure::from_message(String::new())).kind, MsgKind::Res(Res::Get(ApiResult::Failure(_)))));
}

fn pinned(id: u128, text: &str) -> FrozenReference {
    FrozenReference { id, version: Version { text: text.to_string() } }
}

#[test]
fn unfrozen_ty_freeze_with_pins_references() {
    let scalar = UnfrozenTy::UnfrozenScalar(UnfrozenScalar {
        reference: UnfrozenReference { id: 5, version_req: VersionReq { text: Some("^1".to_string()) } },
    });
    match scalar.freeze_with(vec![pinned(5, "1.2.0")]) {
        FrozenTy::FrozenScalar(s) => {
            assert_eq!(s.reference.id, 5);
            assert_eq!(s.reference.version.text, "1.2.0");
        },
        _ => panic!("a scalar freezes to a scalar"),
    }

    let nested = UnfrozenTy::UnfrozenOption(UnfrozenOption {
        element: Box::new(UnfrozenTy::UnfrozenArray(UnfrozenArray {
            reference: UnfrozenReference { id: 9, version_req: VersionReq { text: None } },
        })),
    });
    match nested.freeze_with(vec![pinned(9, "0.3.1")]) {
        FrozenTy::FrozenOption(o) => match *o.element {
            FrozenTy::FrozenArray(a) => {
                assert_eq!(a.reference.id, 9);
                assert_eq!(a.reference.version.text, "0.3.1");
            },
            _ => panic!("an optional array freezes to an optional array"),
        },
        _ => panic!("an option freezes to an option"),
    }

    let primitive = UnfrozenTy::Primitive(Primitive { kind: PrimitiveKind::Boolean });
    assert!(matches!(primitive.freeze_with(vec![]), FrozenTy::Primitive(Primitive { kind: PrimitiveKind::Boolean })));
}

#[test]
fn expr_number_from_bits() {
    let bits = 1.5f64.to_bits();
    match Expr::from_bits(bits) {
        Expr::Number(Number { value_bits }) => assert_eq!(f64::from_bits(value_bits), 1.5),
        _ => panic!("a number expression"),
    }
}

use std::collections::HashMap;

use semio_record::module::v0::action::{
    Action, ActionError, AddDependency, AddDependencyError, AddExport, AddExportError,
    AppendFunctionParameter, AppendFunctionParameterError, RemoveDependency,
    RemoveDependencyError, RemoveExport, RemoveExportError, RemoveFunctionParameter,
    RemoveFunctionParameterError, RenameExport, RenameExportError, SetExecutable,
    SetFunctionParameterMutability, SetFunctionParameterMutabilityError, SetFunctionParameterName,
    SetFunctionParameterNameError, SetFunctionParameterType, SetFunctionParameterTypeError,
    SetFunctionReturnType, SetFunctionReturnTypeError,
};
use semio_record::module::v0::frozen;
use semio_record::module::v0::public::Public;
use semio_record::module::v0::unfrozen::{Export, ExportKind, Function, Module, Parameter};
use semio_record::record::{Apply, FrozenReference, UnfrozenReference, Version, VersionReq};
use semio_record::ty::{
    FrozenScalar, FrozenTy, Primitive, PrimitiveKind, UnfrozenScalar, UnfrozenTy,
};

fn unit() -> UnfrozenTy {
    UnfrozenTy::Primitive(Primitive { kind: PrimitiveKind::Unit })
}

fn function_export(name: &str) -> Export {
    Export {
        name: name.to_string(),
        kind: ExportKind::Function(Function {
            parameters: HashMap::new(),
            parameter_ordering: vec![],
            return_ty: unit(),
        }),
    }
}

fn parameter(name: &str) -> Parameter {
    Parameter { name: name.to_string(), ty: unit(), mutable: false }
}

fn reference(id: u128) -> UnfrozenReference {
    UnfrozenReference { id, version_req: VersionReq { text: None } }
}

fn function<'a>(module: &'a Module, id: u128) -> &'a Function {
    module.export(&id).unwrap().kind.as_function().unwrap()
}

#[test]
fn exports_are_added_renamed_and_removed() {
    let mut module = Module::default();
    module.apply(&SetExecutable { blob_id: 77 }).unwrap();
    assert_eq!(module.executable, Some(77));
    module.apply(&AddExport { id: 1, export: function_export("f") }).unwrap();
    assert_eq!(
        module.apply(&AddExport { id: 2, export: function_export("f") }),
        Err(AddExportError::NameAlreadyExists)
    );
    module.apply(&AddExport { id: 2, export: function_export("g") }).unwrap();
    assert_eq!(module.export_id("g"), Some(&2));
    assert_eq!(
        module.apply(&RenameExport { id: 2, name: "f".to_string() }),
        Err(RenameExportError::NameAlreadyExists)
    );
    module.apply(&RenameExport { id: 2, name: "h".to_string() }).unwrap();
    assert!(module.has_export_named("h"));
    assert!(!module.has_export_named("g"));
    module.apply(&RemoveExport { id: 2 }).unwrap();
    assert_eq!(module.apply(&RemoveExport { id: 2 }), Err(RemoveExportError::ExportNotFound));
    assert_eq!(module.exports.len(), 1);
}

#[test]
fn function_parameters() {
    let mut module = Module::default();
    module.apply(&AddExport { id: 1, export: function_export("f") }).unwrap();
    module.apply(&AppendFunctionParameter { export: 1, parameter_id: 10, parameter: parameter("a") }).unwrap();
    module.apply(&AppendFunctionParameter { export: 1, parameter_id: 11, parameter: parameter("b") }).unwrap();
    assert_eq!(function(&module, 1).parameter_ordering, vec![10, 11]);
    assert_eq!(
        module.apply(&AppendFunctionParameter { export: 1, parameter_id: 12, parameter: parameter("a") }),
        Err(AppendFunctionParameterError::NameAlreadyExists)
    );
    assert_eq!(
        module.apply(&AppendFunctionParameter { export: 9, parameter_id: 12, parameter: parameter("c") }),
        Err(AppendFunctionParameterError::ExportNotFound)
    );
    assert_eq!(
        module.apply(&SetFunctionParameterName { export: 1, parameter: 10, name: "b".to_string() }),
        Err(SetFunctionParameterNameError::NameTaken)
    );
    assert_eq!(
        module.apply(&SetFunctionParameterName { export: 1, parameter: 99, name: "z".to_string() }),
        Err(SetFunctionParameterNameError::ParameterNotFound)
    );
    assert_eq!(
        module.apply(&SetFunctionParameterName { export: 5, parameter: 10, name: "z".to_string() }),
        Err(SetFunctionParameterNameError::ExportNotFound)
    );
    module.apply(&SetFunctionParameterName { export: 1, parameter: 10, name: "z".to_string() }).unwrap();
    assert_eq!(function(&module, 1).parameter(&10).unwrap().name, "z");
    module.apply(&SetFunctionParameterMutability { export: 1, parameter: 10, mutable: true }).unwrap();
    assert!(function(&module, 1).parameter_named("z").unwrap().mutable);
    assert_eq!(
        module.apply(&SetFunctionParameterMutability { export: 1, parameter: 99, mutable: true }),
        Err(SetFunctionParameterMutabilityError::ParameterNotFound)
    );
    let scalar = UnfrozenTy::UnfrozenScalar(UnfrozenScalar { reference: reference(4) });
    module.apply(&SetFunctionParameterType { export: 1, parameter: 11, ty: scalar }).unwrap();
    assert_eq!(
        module.apply(&SetFunctionParameterType { export: 3, parameter: 11, ty: unit() }),
        Err(SetFunctionParameterTypeError::ExportNotFound)
    );
    module.apply(&SetFunctionReturnType { export: 1, ty: unit() }).unwrap();
    assert_eq!(
        module.apply(&SetFunctionReturnType { export: 3, ty: unit() }),
        Err(SetFunctionReturnTypeError::ExportNotFound)
    );
    module.apply(&RemoveFunctionParameter { export: 1, parameter: 10 }).unwrap();
    assert_eq!(function(&module, 1).parameter_ordering, vec![11]);
    assert_eq!(
        module.apply(&RemoveFunctionParameter { export: 1, parameter: 10 }),
        Err(RemoveFunctionParameterError::ParameterNotFound)
    );
}

#[test]
fn dependencies_are_bounded_and_unique() {
    let mut module = Module::default();
    for id in 0..32u128 {
        module.apply(&AddDependency { dependency: reference(id) }).unwrap();
    }
    assert_eq!(module.apply(&AddDependency { dependency: reference(100) }), Err(AddDependencyError::TooMany));
    module.apply(&RemoveDependency { id: 5 }).unwrap();
    assert_eq!(module.apply(&RemoveDependency { id: 5 }), Err(RemoveDependencyError::NotFound));
    assert_eq!(module.apply(&AddDependency { dependency: reference(6) }), Err(AddDependencyError::AlreadyExists));
    module.apply(&AddDependency { dependency: reference(5) }).unwrap();
    assert_eq!(module.dependencies.len(), 32);
    assert_eq!(module.dependencies[31].id, 5);
}

#[test]
fn refused_action_changes_nothing() {
    let mut module = Module::default();
    module.apply(&AddExport { id: 1, export: function_export("f") }).unwrap();
    let r = module.apply(&Action::RemoveExport(RemoveExport { id: 4 }));
    assert_eq!(r, Err(ActionError::RemoveExport(RemoveExportError::ExportNotFound)));
    assert_eq!(module.exports.len(), 1);
}

#[test]
fn public_part_and_back() {
    let mut module = Module::default();
    module.name = "m".to_string();
    module.apply(&AddExport { id: 1, export: function_export("f") }).unwrap();
    let public = Public::from_module(module);
    assert_eq!(public.export_named("f").unwrap().name, "f");
    assert!(public.has_export(&1));
    let back = public.into_module();
    assert_eq!(back.name, "m");
}

#[test]
fn frozen_dependencies_cover_types_and_declarations() {
    let pinned = |id: u128| FrozenReference { id, version: Version { text: "1.0.0".to_string() } };
    let mut parameters = HashMap::new();
    parameters.insert(10u128, frozen::Parameter {
        name: "p".to_string(),
        ty: FrozenTy::FrozenScalar(FrozenScalar { reference: pinned(1) }),
        mutable: false,
    });
    let function = frozen::Function {
        parameters,
        parameter_ordering: vec![10],
        return_ty: FrozenTy::FrozenScalar(FrozenScalar { reference: pinned(2) }),
    };
    let mut exports = HashMap::new();
    exports.insert(1u128, frozen::Export { name: "f".to_string(), kind: frozen::ExportKind::Function(function) });
    let module = frozen::Module { parent: 0, name: "m".to_string(), exports, executable: Some(3), dependencies: vec![pinned(4)] };
    let mut set = Vec::new();
    module.dependencies(&mut set);
    let mut ids: Vec<u128> = set.iter().map(|r| r.id).collect();
    ids.sort();
    assert_eq!(ids, vec![1, 2, 4]);
    assert!(module.has_export_named("f"));
    assert!(module.export(&1).unwrap().kind.as_function().unwrap().has_parameter_named("p"));
}

#[test]
fn renaming_a_missing_export_is_refused() {
    let mut module = Module::default();
    module.apply(&AddExport { id: 1, export: function_export("f") }).unwrap();
    assert_eq!(
        module.apply(&RenameExport { id: 9, name: "g".to_string() }),
        Err(RenameExportError::ExportNotFound)
    );
    assert_eq!(
        module.apply(&RenameExport { id: 9, name: "f".to_string() }),
        Err(RenameExportError::NameAlreadyExists)
    );
    assert_eq!(module.exports.len(), 1);
    assert!(module.has_export_named("f"));
}

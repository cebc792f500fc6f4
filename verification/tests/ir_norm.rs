use cgo_gen::assemble::collect_preferred_model_aliases;
use cgo_gen::context::ModelAlias;
use cgo_gen::ir::{
    byte_array_length, fixed_array_elem_type, fixed_array_length, raw_safe_model_handle_name,
    IrFunction, IrParam, IrRecord, IrType, OpaqueType,
};
use cgo_gen::normalize::{
    collect_referenced_opaque_types, is_raw_unsafe_by_value_param_type,
    normalize_return_type_with_canonical, normalize_type_with_canonical,
    stable_class_handle_name,
};
use cgo_gen::parsed::{CppFunction, CppParam, ParsedApi};
use cgo_gen::types::normalize_type;
use cgo_gen::{Config, IrFunctionKind, IrTypeKind, RecordKind};

fn no_names() -> Vec<String> {
    Vec::new()
}

#[test]
fn normalizes_struct_timeval_pointer_and_reference_as_external_structs() {
    let callback_names = no_names();

    let pointer = normalize_type("struct timeval*", &callback_names).unwrap();
    assert_eq!(pointer.kind, IrTypeKind::ExternStructPointer);
    assert_eq!(pointer.c_type, "struct timeval*");
    assert_eq!(pointer.handle, None);

    let reference = normalize_type("struct timeval&", &callback_names).unwrap();
    assert_eq!(reference.kind, IrTypeKind::ExternStructReference);
    assert_eq!(reference.c_type, "struct timeval*");
    assert_eq!(reference.handle, None);
}

#[test]
fn normalizes_timeval_alias_from_canonical_type() {
    let callback_names = no_names();
    let ty = normalize_type_with_canonical(
        &Config::default(),
        "timeval*",
        "struct timeval*",
        &callback_names,
        &no_names(),
        &[],
    )
    .unwrap();

    assert_eq!(ty.kind, IrTypeKind::ExternStructPointer);
    assert_eq!(ty.cpp_type, "timeval*");
    assert_eq!(ty.c_type, "struct timeval*");
    assert_eq!(ty.handle, None);
}

#[test]
fn normalizes_parsed_struct_pointer_as_model_handle_type() {
    let callback_names = no_names();
    let known_records = vec![IrRecord {
        cpp_type: "Counter".to_string(),
        handle_name: "CounterHandle".to_string(),
        kind: RecordKind::Struct,
    }];
    let ty = normalize_type_with_canonical(
        &Config::default(),
        "struct Counter*",
        "Counter*",
        &callback_names,
        &no_names(),
        &known_records,
    )
    .unwrap();

    assert_eq!(ty.kind, IrTypeKind::ModelPointer);
    assert_eq!(ty.cpp_type, "Counter*");
    assert_eq!(ty.c_type, "CounterHandle*");
    assert_eq!(ty.handle, Some("CounterHandle".to_string()));
}

#[test]
fn rejects_by_value_type_when_only_canonical_form_is_pointer() {
    let callback_names = no_names();
    let result = normalize_type_with_canonical(
        &Config::default(),
        "MTime",
        "MTime*",
        &callback_names,
        &no_names(),
        &[],
    )
    .unwrap();

    assert_eq!(result.kind, IrTypeKind::ModelValue);
    assert_eq!(result.c_type, "MTimeHandle*");
}

#[test]
fn rejects_by_value_type_when_only_canonical_form_is_reference() {
    let callback_names = no_names();
    let result = normalize_type_with_canonical(
        &Config::default(),
        "TD_IE_CALL",
        "TD_IE_CALL&",
        &callback_names,
        &no_names(),
        &[],
    )
    .unwrap();

    assert_eq!(result.kind, IrTypeKind::ModelValue);
    assert_eq!(result.c_type, "TD_IE_CALLHandle*");
}

#[test]
fn by_value_model_params_are_supported() {
    let callback_names = no_names();
    assert!(!is_raw_unsafe_by_value_param_type(
        "MTime",
        "MTime",
        &callback_names,
        &no_names(),
        &[],
    ));
}

#[test]
fn preserves_model_pointer_returns_as_model_pointer() {
    let callback_names = no_names();
    let ty = normalize_return_type_with_canonical(
        &Config::default(),
        "ThingModel*",
        "ThingModel*",
        &no_names(),
        &callback_names,
        &no_names(),
        &[],
    )
    .unwrap();

    assert_eq!(ty.kind, IrTypeKind::ModelPointer);
    assert_eq!(ty.c_type, "ThingModelHandle*");
}

fn model_value_method(
    name: &str,
    cpp_name: &str,
    owner: &str,
    is_const: bool,
    ret_cpp: &str,
    ret_handle: &str,
    self_cpp: &str,
    self_c: &str,
) -> IrFunction {
    IrFunction {
        name: name.to_string(),
        kind: IrFunctionKind::Method,
        cpp_name: cpp_name.to_string(),
        method_of: Some(format!("{owner}Handle")),
        owner_cpp_type: Some(owner.to_string()),
        is_const: Some(is_const),
        field_accessor: None,
        returns: IrType {
            kind: IrTypeKind::ModelValue,
            cpp_type: ret_cpp.to_string(),
            c_type: format!("{ret_handle}*"),
            handle: Some(ret_handle.to_string()),
        },
        params: vec![IrParam {
            name: "self".to_string(),
            ty: IrType {
                kind: IrTypeKind::Opaque,
                cpp_type: self_cpp.to_string(),
                c_type: self_c.to_string(),
                handle: Some(format!("{owner}Handle")),
            },
        }],
    }
}

#[test]
fn collects_opaque_handles_for_model_value_returns() {
    let mut opaque_types: Vec<OpaqueType> = Vec::new();
    let functions = vec![model_value_method(
        "cgowrap_Api_GetThing",
        "Api::GetThing",
        "Api",
        true,
        "ThingModel*",
        "ThingModelHandle",
        "const Api*",
        "const ApiHandle*",
    )];

    collect_referenced_opaque_types(&mut opaque_types, &functions);

    assert_eq!(opaque_types.len(), 1);
    assert_eq!(opaque_types[0].name, "ThingModelHandle");
    assert_eq!(opaque_types[0].cpp_type, "ThingModel");
}

#[test]
fn collects_unknown_return_only_handles_for_model_value_returns() {
    let mut opaque_types: Vec<OpaqueType> = Vec::new();
    let functions = vec![model_value_method(
        "cgowrap_SessionManager_GetSharedRegion",
        "SessionManager::GetSharedRegion",
        "SessionManager",
        false,
        "SharedRegion*",
        "SharedRegionHandle",
        "SessionManager*",
        "SessionManagerHandle*",
    )];

    collect_referenced_opaque_types(&mut opaque_types, &functions);

    assert_eq!(opaque_types.len(), 1);
    assert_eq!(opaque_types[0].name, "SharedRegionHandle");
    assert_eq!(opaque_types[0].cpp_type, "SharedRegion");
}

#[test]
fn keeps_abstract_model_pointer_returns_as_model_pointer() {
    let callback_names = no_names();
    let abstract_types = vec![String::from("DBHandler")];
    let ty = normalize_return_type_with_canonical(
        &Config::default(),
        "DBHandler*",
        "DBHandler*",
        &abstract_types,
        &callback_names,
        &no_names(),
        &[],
    )
    .unwrap();

    assert_eq!(ty.kind, IrTypeKind::ModelPointer);
    assert_eq!(ty.c_type, "DBHandlerHandle*");
}

#[test]
fn normalizes_char_array_as_c_string() {
    let callback_names = no_names();
    let ty = normalize_type("char[33]", &callback_names).unwrap();

    assert_eq!(ty.kind, IrTypeKind::CString);
    assert_eq!(ty.cpp_type, "char[33]");
    assert_eq!(ty.c_type, "const char*");
    assert_eq!(ty.handle, None);
}

#[test]
fn array_types_are_not_promoted_to_model_handles() {
    assert_eq!(raw_safe_model_handle_name("char[33]"), None);
    assert_eq!(raw_safe_model_handle_name("uint32[8]"), None);
}

#[test]
fn normalizes_unsigned_char_array_as_fixed_byte_array() {
    let callback_names = no_names();
    let ty = normalize_type("unsigned char[16]", &callback_names).unwrap();
    assert_eq!(ty.kind, IrTypeKind::FixedByteArray);
    assert_eq!(ty.cpp_type, "unsigned char[16]");
    assert_eq!(ty.c_type, "uint8_t*");
    assert_eq!(ty.handle, None);
}

#[test]
fn normalizes_const_unsigned_char_array_as_fixed_byte_array() {
    let callback_names = no_names();
    let ty = normalize_type("const unsigned char[32]", &callback_names).unwrap();
    assert_eq!(ty.kind, IrTypeKind::FixedByteArray);
    assert_eq!(ty.cpp_type, "const unsigned char[32]");
    assert_eq!(ty.c_type, "uint8_t*");
    assert_eq!(ty.handle, None);
}

#[test]
fn normalizes_uuid_t_alias_via_canonical_as_fixed_byte_array() {
    let callback_names = no_names();
    let ty = normalize_type_with_canonical(
        &Config::default(),
        "uuid_t",
        "unsigned char[16]",
        &callback_names,
        &no_names(),
        &[],
    )
    .unwrap();
    assert_eq!(ty.kind, IrTypeKind::FixedByteArray);
    assert_eq!(ty.cpp_type, "uuid_t");
    assert_eq!(ty.c_type, "uint8_t*");
}

#[test]
fn byte_array_length_extracts_size() {
    assert_eq!(byte_array_length("unsigned char[16]"), Some(16));
    assert_eq!(byte_array_length("const unsigned char[32]"), Some(32));
    assert_eq!(byte_array_length("unsigned char[1]"), Some(1));
    assert_eq!(byte_array_length("char[16]"), None);
    assert_eq!(byte_array_length("unsigned char*"), None);
    assert_eq!(byte_array_length("unsigned char"), None);
}

#[test]
fn normalizes_int_array_as_fixed_array() {
    let callback_names = no_names();
    let ty = normalize_type("int[4]", &callback_names).unwrap();
    assert_eq!(ty.kind, IrTypeKind::FixedArray);
    assert_eq!(ty.cpp_type, "int[4]");
    assert_eq!(ty.c_type, "int*");
    assert_eq!(ty.handle, None);
}

#[test]
fn normalizes_bool_array_as_fixed_array() {
    let callback_names = no_names();
    let ty = normalize_type("bool[8]", &callback_names).unwrap();
    assert_eq!(ty.kind, IrTypeKind::FixedArray);
    assert_eq!(ty.cpp_type, "bool[8]");
    assert_eq!(ty.c_type, "bool*");
    assert_eq!(ty.handle, None);
}

#[test]
fn normalizes_float_array_as_fixed_array() {
    let callback_names = no_names();
    let ty = normalize_type("float[3]", &callback_names).unwrap();
    assert_eq!(ty.kind, IrTypeKind::FixedArray);
    assert_eq!(ty.cpp_type, "float[3]");
    assert_eq!(ty.c_type, "float*");
    assert_eq!(ty.handle, None);
}

#[test]
fn normalizes_uint32_t_array_as_fixed_array() {
    let callback_names = no_names();
    let ty = normalize_type("uint32_t[2]", &callback_names).unwrap();
    assert_eq!(ty.kind, IrTypeKind::FixedArray);
    assert_eq!(ty.cpp_type, "uint32_t[2]");
    assert_eq!(ty.c_type, "uint32_t*");
    assert_eq!(ty.handle, None);
}

#[test]
fn rejects_model_double_pointer_type() {
    let callback_names = no_names();
    let err = normalize_type("ThingModel**", &callback_names).unwrap_err();
    assert!(err
        .to_string()
        .contains("unsupported double-pointer type in v1: ThingModel**"));
}

#[test]
fn rejects_char_double_pointer_type() {
    let callback_names = no_names();
    let err = normalize_type("char **", &callback_names).unwrap_err();
    assert!(err
        .to_string()
        .contains("unsupported double-pointer type in v1: char **"));
}

#[test]
fn rejects_const_model_double_pointer_with_canonical_type() {
    let callback_names = no_names();
    let err = normalize_type_with_canonical(
        &Config::default(),
        "const ThingModel **",
        "ThingModel const **",
        &callback_names,
        &no_names(),
        &[],
    )
    .unwrap_err();
    assert!(err.to_string().contains("unsupported double-pointer type in v1"));
    assert!(err.to_string().contains("const ThingModel **"));
}

#[test]
fn normalizes_model_array_as_fixed_model_array() {
    let callback_names = no_names();
    let ty = normalize_type("FooModel[3]", &callback_names).unwrap();
    assert_eq!(ty.kind, IrTypeKind::FixedModelArray);
    assert_eq!(ty.cpp_type, "FooModel[3]");
    assert_eq!(ty.c_type, "FooModelHandle**");
    assert_eq!(ty.handle, Some("FooModelHandle".to_string()));
}

#[test]
fn fixed_array_length_extracts_size() {
    assert_eq!(fixed_array_length("int[4]"), Some(4));
    assert_eq!(fixed_array_length("bool[8]"), Some(8));
    assert_eq!(fixed_array_length("float[3]"), Some(3));
    assert_eq!(fixed_array_length("FooModel[3]"), Some(3));
    assert_eq!(fixed_array_length("int"), None);
    assert_eq!(fixed_array_length("int*"), None);
}

#[test]
fn fixed_array_elem_type_extracts_elem() {
    assert_eq!(fixed_array_elem_type("int[4]"), Some("int".to_string()));
    assert_eq!(fixed_array_elem_type("bool[8]"), Some("bool".to_string()));
    assert_eq!(fixed_array_elem_type("float[3]"), Some("float".to_string()));
    assert_eq!(fixed_array_elem_type("int"), None);
}

fn alias_of(aliases: &[ModelAlias], key: &str) -> Option<String> {
    aliases
        .iter()
        .find(|a| a.cpp_type == key)
        .map(|a| a.alias.clone())
}

#[test]
fn collects_public_aliases_for_underscore_backed_models() {
    let api = ParsedApi {
        headers: vec![],
        records: vec![],
        enums: vec![],
        macros: vec![],
        callbacks: vec![],
        functions: vec![CppFunction {
            source_header: "DcsHistory.h".to_string(),
            namespace: vec![],
            name: "GetLowData".to_string(),
            return_type: "DCSHISTORY*".to_string(),
            return_canonical_type: "_DCSHISTORY*".to_string(),
            return_is_function_pointer: false,
            params: vec![CppParam {
                name: "item".to_string(),
                ty: "DCS_HIST_ITEM*".to_string(),
                canonical_ty: "_DCS_HIST_ITEM*".to_string(),
                is_function_pointer: false,
                callback_typedef: None,
                has_default: false,
            }],
        }],
    };

    let aliases = collect_preferred_model_aliases(&api);
    assert_eq!(alias_of(&aliases, "_DCSHISTORY"), Some("DCSHISTORY".to_string()));
    assert_eq!(
        alias_of(&aliases, "_DCS_HIST_ITEM"),
        Some("DCS_HIST_ITEM".to_string())
    );
}

#[test]
fn stable_class_handle_name_prefers_public_alias_when_available() {
    let aliases = vec![ModelAlias {
        cpp_type: "_DCSHISTORY".to_string(),
        alias: "DCSHISTORY".to_string(),
    }];

    assert_eq!(
        stable_class_handle_name("_DCSHISTORY", &aliases),
        "DCSHISTORYHandle"
    );
    assert_eq!(
        stable_class_handle_name("_DCS_HIST_ITEM", &aliases),
        "_DCS_HIST_ITEMHandle"
    );
}

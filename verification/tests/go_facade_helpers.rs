use cgo_gen::case::go_export_name;
use cgo_gen::gotypes::{
    go_method_export_name, go_model_return_type, go_overload_token, go_param_type,
    go_return_supported, has_disambiguated_raw_overload_suffix, method_supported,
};
use cgo_gen::ir::{IrFunction, IrParam, IrType};
use cgo_gen::projection::{ModelProjection, ModelProjectionField};
use cgo_gen::{Config, IrFunctionKind, IrTypeKind, PipelineContext};

fn test_context_with_known_model() -> PipelineContext {
    PipelineContext::new(Config::default()).with_known_model_projections(vec![ModelProjection {
        cpp_type: "ThingModel".to_string(),
        handle_name: "ThingModelHandle".to_string(),
        go_name: "ThingModel".to_string(),
        constructor_symbol: "cgowrap_ThingModel_new".to_string(),
        destructor_symbol: "cgowrap_ThingModel_delete".to_string(),
        fields: vec![ModelProjectionField {
            go_name: "Value".to_string(),
            go_type: "int".to_string(),
            getter_symbol: "cgowrap_ThingModel_GetValue".to_string(),
            setter_symbol: "cgowrap_ThingModel_SetValue".to_string(),
            return_kind: IrTypeKind::Primitive,
        }],
    }])
}

fn primitive_type(cpp_type: &str, c_type: &str) -> IrType {
    IrType {
        kind: IrTypeKind::Primitive,
        cpp_type: cpp_type.to_string(),
        c_type: c_type.to_string(),
        handle: None,
    }
}

fn model_type(kind: IrTypeKind, cpp_type: &str) -> IrType {
    IrType {
        kind,
        cpp_type: cpp_type.to_string(),
        c_type: format!("{cpp_type}Handle*"),
        handle: Some(format!("{cpp_type}Handle")),
    }
}

fn reference_type(cpp_type: &str, c_type: &str) -> IrType {
    IrType {
        kind: IrTypeKind::Reference,
        cpp_type: cpp_type.to_string(),
        c_type: c_type.to_string(),
        handle: None,
    }
}

fn opaque_self(cpp_type: &str, c_type: &str, handle: &str) -> IrParam {
    IrParam {
        name: "self".to_string(),
        ty: IrType {
            kind: IrTypeKind::Opaque,
            cpp_type: cpp_type.to_string(),
            c_type: c_type.to_string(),
            handle: Some(handle.to_string()),
        },
    }
}

fn void_type() -> IrType {
    IrType {
        kind: IrTypeKind::Void,
        cpp_type: "void".to_string(),
        c_type: "void".to_string(),
        handle: None,
    }
}

fn api_method(name: &str, cpp_name: &str, params: Vec<IrParam>) -> IrFunction {
    IrFunction {
        name: name.to_string(),
        kind: IrFunctionKind::Method,
        cpp_name: cpp_name.to_string(),
        method_of: Some("Api".to_string()),
        owner_cpp_type: Some("Api".to_string()),
        is_const: Some(false),
        field_accessor: None,
        returns: primitive_type("bool", "bool"),
        params,
    }
}

#[test]
fn method_supports_known_model_reference_params() {
    let config = test_context_with_known_model();
    let function = api_method(
        "cgowrap_Api_GetThing",
        "Api::GetThing",
        vec![
            opaque_self("Api", "ApiHandle*", "ApiHandle"),
            IrParam {
                name: "out".to_string(),
                ty: model_type(IrTypeKind::ModelReference, "ThingModel"),
            },
            IrParam {
                name: "id".to_string(),
                ty: primitive_type("int", "int"),
            },
        ],
    );

    assert!(method_supported(&config, &function));
}

#[test]
fn method_supports_unknown_model_params_as_handles() {
    let config = test_context_with_known_model();
    let function = api_method(
        "cgowrap_Api_GetThing",
        "Api::GetThing",
        vec![
            opaque_self("Api", "ApiHandle*", "ApiHandle"),
            IrParam {
                name: "value".to_string(),
                ty: model_type(IrTypeKind::ModelReference, "UnknownThing"),
            },
        ],
    );

    assert!(method_supported(&config, &function));
}

#[test]
fn method_supports_primitive_reference_and_known_model_params() {
    let config = test_context_with_known_model();
    let function = api_method(
        "cgowrap_Api_NextThing",
        "Api::NextThing",
        vec![
            opaque_self("Api", "ApiHandle*", "ApiHandle"),
            IrParam {
                name: "pos".to_string(),
                ty: reference_type("int32&", "int32_t*"),
            },
            IrParam {
                name: "out".to_string(),
                ty: model_type(IrTypeKind::ModelReference, "ThingModel"),
            },
        ],
    );

    assert!(method_supported(&config, &function));
    assert_eq!(
        go_param_type(&config, &function.params[1].ty),
        Some("*int32".to_string())
    );
}

#[test]
fn overload_tokens_distinguish_model_ref_and_ptr() {
    assert_eq!(
        go_overload_token(&model_type(IrTypeKind::ModelReference, "ThingModel")),
        "ThingModelRef"
    );
    assert_eq!(
        go_overload_token(&model_type(IrTypeKind::ModelPointer, "ThingModel")),
        "ThingModelPtr"
    );
    assert_eq!(
        go_overload_token(&IrType {
            kind: IrTypeKind::ModelPointer,
            cpp_type: "ThingModel**".to_string(),
            c_type: "ThingModelHandle**".to_string(),
            handle: Some("ThingModelHandle".to_string()),
        }),
        "ThingModelPtrPtr"
    );
}

#[test]
fn overload_tokens_preserve_typedef_identity_for_alias_backed_scalars() {
    assert_eq!(go_overload_token(&primitive_type("time_t", "int64_t")), "TimeT");
    assert_eq!(go_overload_token(&primitive_type("uint32", "uint32_t")), "Uint32");
    assert_eq!(
        go_overload_token(&IrType {
            kind: IrTypeKind::CString,
            cpp_type: "NPCSTR".to_string(),
            c_type: "const char*".to_string(),
            handle: None,
        }),
        "NPCSTR"
    );
    assert_eq!(
        go_overload_token(&IrType {
            kind: IrTypeKind::String,
            cpp_type: "NPSTR".to_string(),
            c_type: "char*".to_string(),
            handle: None,
        }),
        "NPSTR"
    );
}

#[test]
fn go_export_name_capitalizes_lowercase_first_letter() {
    assert_eq!(go_export_name("myApi"), "MyApi");
    assert_eq!(go_export_name("thingModel"), "ThingModel");
    assert_eq!(go_export_name("iApiClient"), "IApiClient");
    assert_eq!(go_export_name("UserRecord"), "UserRecord");
}

#[test]
fn false_double_underscore_from_owner_name_does_not_trigger_go_overload_suffix() {
    let function = IrFunction {
        name: "cgowrap__SYS_IF_MONITOR_IODSM_SetBModifyFlag".to_string(),
        kind: IrFunctionKind::Method,
        cpp_name: "_SYS_IF_MONITOR_IODSM::SetBModifyFlag".to_string(),
        method_of: Some("SYS_IF_MONITOR_IODSMHandle".to_string()),
        owner_cpp_type: Some("_SYS_IF_MONITOR_IODSM".to_string()),
        is_const: Some(false),
        field_accessor: None,
        returns: void_type(),
        params: vec![
            opaque_self(
                "_SYS_IF_MONITOR_IODSM*",
                "SYS_IF_MONITOR_IODSMHandle*",
                "SYS_IF_MONITOR_IODSMHandle",
            ),
            IrParam {
                name: "value".to_string(),
                ty: primitive_type("bool", "bool"),
            },
        ],
    };

    assert!(!has_disambiguated_raw_overload_suffix(&function));
    assert_eq!(go_method_export_name(&function), "SetBModifyFlag");
}

#[test]
fn explicit_raw_overload_suffix_still_triggers_go_overload_suffix() {
    let function = IrFunction {
        name: "cgowrap_Api_SetFlag__bool_mut".to_string(),
        kind: IrFunctionKind::Method,
        cpp_name: "Api::SetFlag".to_string(),
        method_of: Some("ApiHandle".to_string()),
        owner_cpp_type: Some("Api".to_string()),
        is_const: Some(false),
        field_accessor: None,
        returns: void_type(),
        params: vec![
            opaque_self("Api*", "ApiHandle*", "ApiHandle"),
            IrParam {
                name: "value".to_string(),
                ty: primitive_type("bool", "bool"),
            },
        ],
    };

    assert!(has_disambiguated_raw_overload_suffix(&function));
    assert_eq!(go_method_export_name(&function), "SetFlagBool");
}

#[test]
fn model_value_return_is_supported() {
    let ty = model_type(IrTypeKind::ModelValue, "ThingModel");
    let config = test_context_with_known_model();
    assert!(go_return_supported(&config, &ty));
}

#[test]
fn model_value_return_uses_leaf_name_for_unknown_model() {
    let config = test_context_with_known_model();
    let ty = model_type(IrTypeKind::ModelValue, "UnknownClass");
    let go_name = go_model_return_type(&config, &ty);
    assert_eq!(go_name, "UnknownClass");
}

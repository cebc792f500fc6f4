use cgo_gen::analysis::{collect_known_model_projections, go_field_name};
use cgo_gen::ir::{IrFunction, IrModule, IrParam, IrType, SupportMetadata};
use cgo_gen::projection::ModelProjection;
use cgo_gen::{Config, IrFunctionKind, IrTypeKind, PipelineContext};

fn test_context() -> PipelineContext {
    PipelineContext::new(Config::default()).with_known_model_projections(vec![ModelProjection {
        cpp_type: "ThingModel".to_string(),
        handle_name: "ThingModelHandle".to_string(),
        go_name: "ThingModel".to_string(),
        constructor_symbol: "cgowrap_ThingModel_new".to_string(),
        destructor_symbol: "cgowrap_ThingModel_delete".to_string(),
        fields: vec![],
    }])
}

fn model_type(kind: IrTypeKind, cpp_type: &str) -> IrType {
    IrType {
        kind,
        cpp_type: cpp_type.to_string(),
        c_type: "ThingModelHandle*".to_string(),
        handle: Some("ThingModelHandle".to_string()),
    }
}

fn ty(kind: IrTypeKind, cpp: &str, c: &str, handle: Option<&str>) -> IrType {
    IrType {
        kind,
        cpp_type: cpp.to_string(),
        c_type: c.to_string(),
        handle: handle.map(|h| h.to_string()),
    }
}

fn void() -> IrType {
    ty(IrTypeKind::Void, "void", "void", None)
}

fn int_type() -> IrType {
    ty(IrTypeKind::Primitive, "int", "int", None)
}

fn param(name: &str, ty: IrType) -> IrParam {
    IrParam {
        name: name.to_string(),
        ty,
    }
}

fn function(
    name: &str,
    kind: IrFunctionKind,
    cpp_name: &str,
    owner: &str,
    handle: &str,
    is_const: Option<bool>,
    returns: IrType,
    params: Vec<IrParam>,
) -> IrFunction {
    IrFunction {
        name: name.to_string(),
        kind,
        cpp_name: cpp_name.to_string(),
        method_of: Some(handle.to_string()),
        owner_cpp_type: Some(owner.to_string()),
        is_const,
        field_accessor: None,
        returns,
        params,
    }
}

fn module(functions: Vec<IrFunction>) -> IrModule {
    IrModule {
        version: 1,
        module: "cgowrap".to_string(),
        source_headers: vec![],
        records: vec![],
        opaque_types: vec![],
        enums: vec![],
        constants: vec![],
        callbacks: vec![],
        support: SupportMetadata {
            parser_backend: "libclang".to_string(),
            notes: vec![],
            skipped_declarations: vec![],
        },
        functions,
    }
}

fn thing_functions() -> Vec<IrFunction> {
    let opaque = |cpp: &str| {
        ty(
            IrTypeKind::Opaque,
            cpp,
            "ThingModelHandle*",
            Some("ThingModelHandle"),
        )
    };
    let h = "ThingModelHandle";
    vec![
        function(
            "cgowrap_ThingModel_new",
            IrFunctionKind::Constructor,
            "ThingModel",
            "ThingModel",
            h,
            None,
            opaque("ThingModel"),
            vec![],
        ),
        function(
            "cgowrap_ThingModel_delete",
            IrFunctionKind::Destructor,
            "~ThingModel",
            "ThingModel",
            h,
            None,
            void(),
            vec![param("self", opaque("ThingModel*"))],
        ),
        function(
            "cgowrap_ThingModel_GetValue",
            IrFunctionKind::Method,
            "ThingModel::GetValue",
            "ThingModel",
            h,
            Some(true),
            int_type(),
            vec![param("self", opaque("const ThingModel*"))],
        ),
        function(
            "cgowrap_ThingModel_SetValue",
            IrFunctionKind::Method,
            "ThingModel::SetValue",
            "ThingModel",
            h,
            Some(false),
            void(),
            vec![param("self", opaque("ThingModel*")), param("value", int_type())],
        ),
        function(
            "cgowrap_ThingModel_GetChild",
            IrFunctionKind::Method,
            "ThingModel::GetChild",
            "ThingModel",
            h,
            Some(true),
            model_type(IrTypeKind::ModelValue, "ThingModel"),
            vec![param("self", opaque("const ThingModel*"))],
        ),
        function(
            "cgowrap_ThingModel_SetChild",
            IrFunctionKind::Method,
            "ThingModel::SetChild",
            "ThingModel",
            h,
            Some(false),
            void(),
            vec![
                param("self", opaque("ThingModel*")),
                param("value", model_type(IrTypeKind::ModelValue, "ThingModel")),
            ],
        ),
    ]
}

#[test]
fn projects_getter_setter_pairs_into_model_projection() {
    let ctx = test_context();
    let ir = module(thing_functions());

    let projections = collect_known_model_projections(&ctx, &ir).unwrap();
    assert_eq!(projections.len(), 1);
    assert_eq!(projections[0].fields.len(), 2);
    assert_eq!(projections[0].fields[0].go_name, "Value");
    assert_eq!(projections[0].fields[1].go_type, "*ThingModel");
}

fn dcs_functions(with_constructor: bool) -> Vec<IrFunction> {
    let h = "DCSHISTORYHandle";
    let opaque = |cpp: &str, c: &str| ty(IrTypeKind::Opaque, cpp, c, Some(h));
    let mut functions = Vec::new();
    if with_constructor {
        functions.push(function(
            "cgowrap__DCSHISTORY_new",
            IrFunctionKind::Constructor,
            "_DCSHISTORY",
            "_DCSHISTORY",
            h,
            None,
            opaque("_DCSHISTORY", "DCSHISTORYHandle*"),
            vec![],
        ));
    }
    functions.push(function(
        "cgowrap__DCSHISTORY_delete",
        IrFunctionKind::Destructor,
        "~_DCSHISTORY",
        "_DCSHISTORY",
        h,
        None,
        void(),
        vec![param("self", opaque("_DCSHISTORY*", "DCSHISTORYHandle*"))],
    ));
    functions.push(function(
        "cgowrap__DCSHISTORY_GetCount",
        IrFunctionKind::Method,
        "_DCSHISTORY::GetCount",
        "_DCSHISTORY",
        h,
        Some(true),
        int_type(),
        vec![param(
            "self",
            opaque("const _DCSHISTORY*", "const DCSHISTORYHandle*"),
        )],
    ));
    functions.push(function(
        "cgowrap__DCSHISTORY_SetCount",
        IrFunctionKind::Method,
        "_DCSHISTORY::SetCount",
        "_DCSHISTORY",
        h,
        Some(false),
        void(),
        vec![
            param("self", opaque("_DCSHISTORY*", "DCSHISTORYHandle*")),
            param("value", int_type()),
        ],
    ));
    functions
}

#[test]
fn projection_handle_name_comes_from_ir_handles_not_owner_name() {
    let ctx = test_context();
    let ir = module(dcs_functions(true));

    let projections = collect_known_model_projections(&ctx, &ir).unwrap();
    assert_eq!(projections.len(), 1);
    assert_eq!(projections[0].handle_name, "DCSHISTORYHandle");
    assert_eq!(projections[0].go_name, "DCSHISTORY");
}

#[test]
fn projection_without_constructor_is_an_error() {
    let ctx = test_context();
    let ir = module(dcs_functions(false));

    let err = collect_known_model_projections(&ctx, &ir).unwrap_err();
    assert_eq!(
        err,
        "model projection `_DCSHISTORY` is missing a constructor wrapper"
    );
}

#[test]
fn projected_fields_use_int_for_cpp_int() {
    let ctx = test_context();
    let ir = module(thing_functions());
    let projections = collect_known_model_projections(&ctx, &ir).unwrap();
    assert_eq!(projections[0].fields[0].go_type, "int");
    assert_eq!(projections[0].fields[0].getter_symbol, "cgowrap_ThingModel_GetValue");
    assert_eq!(projections[0].fields[0].setter_symbol, "cgowrap_ThingModel_SetValue");
    assert_eq!(projections[0].constructor_symbol, "cgowrap_ThingModel_new");
    assert_eq!(projections[0].destructor_symbol, "cgowrap_ThingModel_delete");
}

#[test]
fn field_names_upper_case_acronyms() {
    assert_eq!(go_field_name("UserId"), "UserID");
    assert_eq!(go_field_name("api_url"), "APIURL");
    assert_eq!(go_field_name("JsonBody"), "JSONBody");
    assert_eq!(go_field_name("Value"), "Value");
}

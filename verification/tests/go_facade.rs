use cgo_gen::calls::{render_facade_close, render_free_function, render_general_api_method, render_handle_helpers};
use cgo_gen::facade::{go_constructor_export_names, FacadeClass};
use cgo_gen::gofile::render_go_facade;
use cgo_gen::renderable::facade_renderable;
use cgo_gen::gotypes::{go_model_return_type, go_return_supported, method_supported};
use cgo_gen::ir::{IrFunction, IrModule, IrParam, IrType, OpaqueType, SupportMetadata};
use cgo_gen::projection::{ModelProjection, ModelProjectionField};
use cgo_gen::{Config, IrFunctionKind, IrTypeKind, PipelineContext};

fn test_context_with_known_model() -> PipelineContext {
    PipelineContext::new(Config::default()).with_known_model_projections(vec![ModelProjection {
        cpp_type: "ThingModel".to_string(),
        handle_name: "ThingModelHandle".to_string(),
        go_name: "ThingModel".to_string(),
        constructor_symbol: "cgowrap_ThingModel_new".to_string(),
        destructor_symbol: "cgowrap_ThingModel_delete".to_string(),
        fields: vec![ModelProjectionField {
            go_name: "Value".to_string(),
            go_type: "int".to_string(),
            getter_symbol: "cgowrap_ThingModel_GetValue".to_string(),
            setter_symbol: "cgowrap_ThingModel_SetValue".to_string(),
            return_kind: IrTypeKind::Primitive,
        }],
    }])
}

fn primitive_type(cpp_type: &str, c_type: &str) -> IrType {
    IrType {
        kind: IrTypeKind::Primitive,
        cpp_type: cpp_type.to_string(),
        c_type: c_type.to_string(),
        handle: None,
    }
}

fn model_type(kind: IrTypeKind, cpp_type: &str) -> IrType {
    IrType {
        kind,
        cpp_type: cpp_type.to_string(),
        c_type: format!("{cpp_type}Handle*"),
        handle: Some(format!("{cpp_type}Handle")),
    }
}

fn opaque_type(cpp_type: &str, c_type: &str, handle: &str) -> IrType {
    IrType {
        kind: IrTypeKind::Opaque,
        cpp_type: cpp_type.to_string(),
        c_type: c_type.to_string(),
        handle: Some(handle.to_string()),
    }
}

fn void_type() -> IrType {
    IrType {
        kind: IrTypeKind::Void,
        cpp_type: "void".to_string(),
        c_type: "void".to_string(),
        handle: None,
    }
}

fn function(
    name: &str,
    kind: IrFunctionKind,
    cpp_name: &str,
    method_of: Option<&str>,
    owner: Option<&str>,
    is_const: Option<bool>,
    returns: IrType,
    params: Vec<IrParam>,
) -> IrFunction {
    IrFunction {
        name: name.to_string(),
        kind,
        cpp_name: cpp_name.to_string(),
        method_of: method_of.map(|s| s.to_string()),
        owner_cpp_type: owner.map(|s| s.to_string()),
        is_const,
        field_accessor: None,
        returns,
        params,
    }
}

fn module(opaque_types: Vec<OpaqueType>, functions: Vec<IrFunction>) -> IrModule {
    IrModule {
        version: 1,
        module: "cgowrap".to_string(),
        source_headers: vec![],
        records: vec![],
        opaque_types,
        functions,
        enums: vec![],
        constants: vec![],
        callbacks: vec![],
        support: SupportMetadata {
            parser_backend: "test".to_string(),
            notes: vec![],
            skipped_declarations: vec![],
        },
    }
}

fn opaque(name: &str, cpp_type: &str) -> OpaqueType {
    OpaqueType {
        name: name.to_string(),
        cpp_type: cpp_type.to_string(),
    }
}

fn api_class_parts(returns: IrType, self_cpp: &str, self_c: &str) -> (IrFunction, IrFunction, IrFunction) {
    let self_param = IrParam {
        name: "self".to_string(),
        ty: opaque_type(self_cpp, self_c, "ApiHandle"),
    };
    let constructor = function(
        "cgowrap_Api_new",
        IrFunctionKind::Constructor,
        "Api",
        None,
        Some("Api"),
        None,
        opaque_type("Api*", "ApiHandle*", "ApiHandle"),
        vec![],
    );
    let destructor = function(
        "cgowrap_Api_delete",
        IrFunctionKind::Destructor,
        "Api",
        None,
        Some("Api"),
        None,
        void_type(),
        vec![IrParam {
            name: "self".to_string(),
            ty: opaque_type("Api", "ApiHandle*", "ApiHandle"),
        }],
    );
    let method = function(
        "cgowrap_Api_GetThing",
        IrFunctionKind::Method,
        "Api::GetThing",
        Some("Api"),
        Some("Api"),
        Some(false),
        returns,
        vec![self_param],
    );
    (constructor, destructor, method)
}

fn api_class(constructor: &IrFunction, destructor: &IrFunction, method: &IrFunction) -> FacadeClass {
    FacadeClass {
        go_name: "Api".to_string(),
        handle_name: "ApiHandle".to_string(),
        constructors: vec![constructor.clone()],
        destructor: destructor.clone(),
        methods: vec![method.clone()],
    }
}

fn widget_constructor(name: &str, params: Vec<IrParam>) -> IrFunction {
    function(
        name,
        IrFunctionKind::Constructor,
        "Widget",
        Some("WidgetHandle"),
        Some("Widget"),
        None,
        opaque_type("Widget", "WidgetHandle*", "WidgetHandle"),
        params,
    )
}

fn widget_rest() -> Vec<IrFunction> {
    let self_param = IrParam {
        name: "self".to_string(),
        ty: opaque_type("Widget*", "WidgetHandle*", "WidgetHandle"),
    };
    vec![
        function(
            "cgowrap_Widget_delete",
            IrFunctionKind::Destructor,
            "~Widget",
            Some("WidgetHandle"),
            Some("Widget"),
            None,
            void_type(),
            vec![self_param.clone()],
        ),
        function(
            "cgowrap_Widget_GetSize",
            IrFunctionKind::Method,
            "Widget::GetSize",
            Some("WidgetHandle"),
            Some("Widget"),
            Some(true),
            primitive_type("int", "int"),
            vec![self_param],
        ),
    ]
}

#[test]
fn render_go_facade_uses_capitalized_struct_name_for_lowercase_cpp_class() {
    let self_param = IrParam {
        name: "self".to_string(),
        ty: opaque_type("myApi", "myApiHandle*", "myApiHandle"),
    };
    let ir = module(
        vec![opaque("myApiHandle", "myApi")],
        vec![
            function(
                "cgowrap_myApi_new",
                IrFunctionKind::Constructor,
                "myApi",
                None,
                Some("myApi"),
                None,
                opaque_type("myApi", "myApiHandle*", "myApiHandle"),
                vec![],
            ),
            function(
                "cgowrap_myApi_delete",
                IrFunctionKind::Destructor,
                "myApi",
                None,
                Some("myApi"),
                None,
                void_type(),
                vec![self_param.clone()],
            ),
            function(
                "cgowrap_myApi_IsReady",
                IrFunctionKind::Method,
                "myApi::IsReady",
                Some("myApi"),
                Some("myApi"),
                Some(true),
                primitive_type("bool", "bool"),
                vec![self_param],
            ),
        ],
    );
    let config = PipelineContext::new(Config::default());
    let files = render_go_facade(&config, &ir, &vec![]).unwrap();
    assert!(!files.is_empty(), "expected at least one Go file");
    let contents = &files[0].contents;
    assert!(
        contents.contains("type MyApi struct {"),
        "expected 'type MyApi struct {{' but got:\n{contents}"
    );
    assert!(
        contents.contains("func NewMyApi()"),
        "expected 'func NewMyApi()' but got:\n{contents}"
    );
}

#[test]
fn render_go_facade_emits_all_overloaded_constructors_with_explicit_names() {
    let mut functions = vec![
        widget_constructor("cgowrap_Widget_new__void", vec![]),
        widget_constructor(
            "cgowrap_Widget_new__int",
            vec![IrParam {
                name: "nItemMax".to_string(),
                ty: primitive_type("int", "int"),
            }],
        ),
        widget_constructor(
            "cgowrap_Widget_new__model_ref_widget",
            vec![IrParam {
                name: "copy".to_string(),
                ty: model_type(IrTypeKind::ModelReference, "Widget"),
            }],
        ),
    ];
    functions.extend(widget_rest());
    let ir = module(vec![opaque("WidgetHandle", "Widget")], functions);
    let files = render_go_facade(&PipelineContext::new(Config::default()), &ir, &vec![]).unwrap();
    let contents = &files[0].contents;
    assert!(
        contents.contains("func NewWidget() (*Widget, error) {"),
        "expected zero-arg constructor but got:\n{contents}"
    );
    assert!(
        contents.contains("func NewWidgetWithNItemMax(nItemMax int32) (*Widget, error) {"),
        "expected named int constructor but got:\n{contents}"
    );
    assert!(
        contents.contains("func NewWidgetFromCopy(copy *Widget) (*Widget, error) {"),
        "expected copy constructor name but got:\n{contents}"
    );
}

#[test]
fn constructor_names_disambiguate_same_param_name_overloads() {
    let constructor_int = widget_constructor(
        "cgowrap_Widget_new__int",
        vec![IrParam {
            name: "value".to_string(),
            ty: primitive_type("int", "int"),
        }],
    );
    let constructor_double = widget_constructor(
        "cgowrap_Widget_new__double",
        vec![IrParam {
            name: "value".to_string(),
            ty: primitive_type("double", "double"),
        }],
    );
    let destructor = function(
        "cgowrap_Widget_delete",
        IrFunctionKind::Destructor,
        "~Widget",
        Some("WidgetHandle"),
        Some("Widget"),
        None,
        void_type(),
        vec![],
    );
    let class = FacadeClass {
        go_name: "Widget".to_string(),
        handle_name: "WidgetHandle".to_string(),
        constructors: vec![constructor_int, constructor_double],
        destructor,
        methods: vec![],
    };
    let names = go_constructor_export_names(&class);
    assert_eq!(names, vec!["NewWidgetWithValueInt32", "NewWidgetWithValueFloat64"]);
}

#[test]
fn unsupported_constructor_does_not_drop_supported_constructors() {
    let mut functions = vec![
        widget_constructor("cgowrap_Widget_new__void", vec![]),
        widget_constructor(
            "cgowrap_Widget_new__opaque",
            vec![IrParam {
                name: "raw".to_string(),
                ty: opaque_type("InternalHandle", "InternalHandle*", "InternalHandle"),
            }],
        ),
    ];
    functions.extend(widget_rest());
    let ir = module(vec![opaque("WidgetHandle", "Widget")], functions);
    let files = render_go_facade(&PipelineContext::new(Config::default()), &ir, &vec![]).unwrap();
    let contents = &files[0].contents;
    assert!(
        contents.contains("func NewWidget() (*Widget, error) {"),
        "expected supported constructor to remain but got:\n{contents}"
    );
    assert!(
        !contents.contains("NewWidgetWithRaw"),
        "unexpected unsupported constructor facade in:\n{contents}"
    );
}

#[test]
fn class_wrapper_uses_stable_handle_from_constructor_instead_of_owner_name() {
    let handle = "DCSHISTORYHandle";
    let self_param = IrParam {
        name: "self".to_string(),
        ty: opaque_type("_DCSHISTORY*", "DCSHISTORYHandle*", handle),
    };
    let ir = module(
        vec![opaque(handle, "_DCSHISTORY")],
        vec![
            function(
                "cgowrap__DCSHISTORY_new",
                IrFunctionKind::Constructor,
                "_DCSHISTORY",
                Some(handle),
                Some("_DCSHISTORY"),
                None,
                opaque_type("_DCSHISTORY", "DCSHISTORYHandle*", handle),
                vec![],
            ),
            function(
                "cgowrap__DCSHISTORY_delete",
                IrFunctionKind::Destructor,
                "~_DCSHISTORY",
                Some(handle),
                Some("_DCSHISTORY"),
                None,
                void_type(),
                vec![self_param.clone()],
            ),
            function(
                "cgowrap__DCSHISTORY_GetCount",
                IrFunctionKind::Method,
                "_DCSHISTORY::GetCount",
                Some(handle),
                Some("_DCSHISTORY"),
                Some(true),
                primitive_type("int", "int"),
                vec![self_param],
            ),
        ],
    );
    let files = render_go_facade(&PipelineContext::new(Config::default()), &ir, &vec![]).unwrap();
    let contents = &files[0].contents;
    assert!(
        contents.contains("type DCSHISTORY struct {\n    ptr *C.DCSHISTORYHandle\n    owned bool\n    root *bool\n}"),
        "expected stable public handle in class wrapper but got:\n{contents}"
    );
}

#[test]
fn model_value_return_renders_wrap_pattern() {
    let config = test_context_with_known_model();
    let (constructor, destructor, method) =
        api_class_parts(model_type(IrTypeKind::ModelValue, "ThingModel"), "Api", "ApiHandle*");
    assert!(method_supported(&config, &method));
    let class = api_class(&constructor, &destructor, &method);
    let code = render_general_api_method(&config, &class, &method, &vec![], &vec![]);
    assert!(code.contains("*ThingModel"), "expected return type *ThingModel but got:\n{code}");
    assert!(code.contains("return nil"), "expected nil check but got:\n{code}");
    assert!(
        code.contains("return newOwnedThingModel(raw)"),
        "expected newOwnedThingModel(raw) but got:\n{code}"
    );
}

#[test]
fn model_pointer_return_renders_borrowed_wrap_pattern() {
    let config = test_context_with_known_model();
    let (constructor, destructor, method) =
        api_class_parts(model_type(IrTypeKind::ModelPointer, "ThingModel"), "Api", "ApiHandle*");
    assert!(method_supported(&config, &method));
    let class = api_class(&constructor, &destructor, &method);
    let code = render_general_api_method(&config, &class, &method, &vec![], &vec![]);
    assert!(
        code.contains("return newBorrowedThingModel(raw, a.root)"),
        "expected newBorrowedThingModel(raw, a.root) but got:\n{code}"
    );
}

#[test]
fn const_model_borrow_returns_are_supported_in_go_facade() {
    let config = test_context_with_known_model();
    let ty = IrType {
        kind: IrTypeKind::ModelReference,
        cpp_type: "const ThingModel&".to_string(),
        c_type: "const ThingModelHandle*".to_string(),
        handle: Some("ThingModelHandle".to_string()),
    };
    assert!(go_return_supported(&config, &ty));
    let method = function(
        "cgowrap_Api_GetThing",
        IrFunctionKind::Method,
        "Api::GetThing",
        Some("ApiHandle"),
        Some("Api"),
        Some(true),
        ty,
        vec![IrParam {
            name: "self".to_string(),
            ty: opaque_type("const Api*", "const ApiHandle*", "ApiHandle"),
        }],
    );
    assert!(method_supported(&config, &method));
}

#[test]
fn const_model_borrow_return_renders_borrowed_wrap_pattern() {
    let config = test_context_with_known_model();
    let ty = IrType {
        kind: IrTypeKind::ModelReference,
        cpp_type: "const ThingModel&".to_string(),
        c_type: "const ThingModelHandle*".to_string(),
        handle: Some("ThingModelHandle".to_string()),
    };
    let (constructor, destructor, mut method) = api_class_parts(ty, "const Api*", "const ApiHandle*");
    method.is_const = Some(true);
    assert!(method_supported(&config, &method));
    let class = api_class(&constructor, &destructor, &method);
    let code = render_general_api_method(&config, &class, &method, &vec![], &vec![]);
    assert!(
        code.contains("return newBorrowedThingModel(raw, a.root)"),
        "expected newBorrowedThingModel(raw, a.root) but got:\n{code}"
    );
}

#[test]
fn free_function_borrowed_return_inherits_unique_model_param_root() {
    let config = test_context_with_known_model();
    let free = function(
        "cgowrap_GetThingChild",
        IrFunctionKind::Function,
        "GetThingChild",
        None,
        None,
        None,
        model_type(IrTypeKind::ModelPointer, "ThingModel"),
        vec![IrParam {
            name: "parent".to_string(),
            ty: model_type(IrTypeKind::ModelPointer, "ThingModel"),
        }],
    );
    let code = render_free_function(&config, &free, &vec![], &vec![]);
    assert!(
        code.contains("return newBorrowedThingModel(raw, parent.root)"),
        "expected newBorrowedThingModel(raw, parent.root) but got:\n{code}"
    );
}

#[test]
fn class_helpers_track_owned_and_borrowed_lifetimes() {
    let destructor = function(
        "cgowrap_ThingModel_delete",
        IrFunctionKind::Destructor,
        "~ThingModel",
        Some("ThingModelHandle"),
        Some("ThingModel"),
        None,
        void_type(),
        vec![],
    );
    let class = FacadeClass {
        go_name: "ThingModel".to_string(),
        handle_name: "ThingModelHandle".to_string(),
        constructors: vec![],
        destructor,
        methods: vec![],
    };
    let helpers = render_handle_helpers(&class);
    let close = render_facade_close(&class);
    assert!(helpers.contains("root := new(bool)"));
    assert!(helpers.contains("return &ThingModel{ptr: ptr, owned: true, root: root}"));
    assert!(helpers.contains("return &ThingModel{ptr: ptr, root: root}"));
    assert!(helpers.contains("panic(\"ThingModel handle is closed\")"));
    assert!(close.contains("if !t.owned {"));
    assert!(close.contains("*t.root = true"));
}

fn api_module_returning(returns: IrType, opaques: Vec<OpaqueType>) -> IrModule {
    let self_param = IrParam {
        name: "self".to_string(),
        ty: opaque_type("Api*", "ApiHandle*", "ApiHandle"),
    };
    module(
        opaques,
        vec![
            function(
                "cgowrap_Api_new",
                IrFunctionKind::Constructor,
                "Api",
                Some("ApiHandle"),
                Some("Api"),
                None,
                opaque_type("Api*", "ApiHandle*", "ApiHandle"),
                vec![],
            ),
            function(
                "cgowrap_Api_delete",
                IrFunctionKind::Destructor,
                "~Api",
                Some("ApiHandle"),
                Some("Api"),
                None,
                void_type(),
                vec![self_param.clone()],
            ),
            function(
                "cgowrap_Api_Get",
                IrFunctionKind::Method,
                "Api::Get",
                Some("ApiHandle"),
                Some("Api"),
                Some(true),
                returns,
                vec![self_param],
            ),
        ],
    )
}

#[test]
fn known_model_projection_prevents_duplicate_opaque_and_underscore_handle_casts() {
    let config = PipelineContext::new(Config::default()).with_known_model_projections(vec![ModelProjection {
        cpp_type: "_DCSHISTORY".to_string(),
        handle_name: "DCSHISTORYHandle".to_string(),
        go_name: "DCSHISTORY".to_string(),
        constructor_symbol: "cgowrap__DCSHISTORY_new".to_string(),
        destructor_symbol: "cgowrap__DCSHISTORY_delete".to_string(),
        fields: vec![],
    }]);
    let mut ir = api_module_returning(
        IrType {
            kind: IrTypeKind::ModelValue,
            cpp_type: "_DCSHISTORY*".to_string(),
            c_type: "DCSHISTORYHandle*".to_string(),
            handle: Some("DCSHISTORYHandle".to_string()),
        },
        vec![opaque("ApiHandle", "Api"), opaque("DCSHISTORYHandle", "_DCSHISTORY")],
    );
    ir.functions[2].name = "cgowrap_Api_GetHistory".to_string();
    ir.functions[2].cpp_name = "Api::GetHistory".to_string();
    let files = render_go_facade(&config, &ir, &vec![]).unwrap();
    let contents = &files[0].contents;
    assert!(
        !contents.contains("type DCSHISTORY struct {"),
        "unexpected duplicate DCSHISTORY wrapper:\n{contents}"
    );
    assert!(
        contents.contains("return newOwnedDCSHISTORY(raw)"),
        "expected stable-handle helper wrap but got:\n{contents}"
    );
    assert!(
        !contents.contains("_DCSHISTORYHandle"),
        "unexpected underscore handle cast in Go facade:\n{contents}"
    );
}

#[test]
fn opaque_model_value_return_emits_unknown_opaque_wrapper() {
    let mut ir = api_module_returning(
        IrType {
            kind: IrTypeKind::ModelValue,
            cpp_type: "CIosShm*".to_string(),
            c_type: "CIosShmHandle*".to_string(),
            handle: Some("CIosShmHandle".to_string()),
        },
        vec![opaque("ApiHandle", "Api"), opaque("CIosShmHandle", "CIosShm")],
    );
    ir.functions[2].name = "cgowrap_Api_GetIos".to_string();
    ir.functions[2].cpp_name = "Api::GetIos".to_string();
    let files = render_go_facade(&PipelineContext::new(Config::default()), &ir, &vec![]).unwrap();
    let contents = &files[0].contents;
    assert!(
        contents.contains("type CIosShm struct {\n    ptr *C.CIosShmHandle\n    owned bool\n    root *bool\n}"),
        "expected owned opaque CIosShm wrapper but got:\n{contents}"
    );
    assert!(
        contents.contains("func (c *CIosShm) Close() {"),
        "expected CIosShm Close method but got:\n{contents}"
    );
    assert!(
        contents.contains("func (a *Api) GetIos() *CIosShm"),
        "expected GetIos method signature but got:\n{contents}"
    );
    assert!(
        contents.contains("return newOwnedCIosShm(raw)"),
        "expected owned opaque CIosShm wrap pattern but got:\n{contents}"
    );
}

#[test]
fn model_value_return_uses_leaf_name_for_unknown_model_type() {
    let config = test_context_with_known_model();
    let ty = model_type(IrTypeKind::ModelValue, "UnknownClass");
    assert_eq!(go_model_return_type(&config, &ty), "UnknownClass");
}

#[test]
fn facade_renderable_accepts_supported_class_module() {
    let config = PipelineContext::new(Config::default());
    let ir = api_module_returning(primitive_type("int", "int"), vec![opaque("ApiHandle", "Api")]);
    assert!(facade_renderable(&config, &ir));
}

#[test]
fn facade_renderable_rejects_method_without_receiver() {
    let config = PipelineContext::new(Config::default());
    let mut ir = api_module_returning(primitive_type("int", "int"), vec![opaque("ApiHandle", "Api")]);
    ir.functions[2].params.clear();
    assert!(!facade_renderable(&config, &ir));
}

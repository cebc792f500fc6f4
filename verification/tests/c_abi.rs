use cgo_gen::header::{opaque_delete_symbol, render_function_decl, render_header};
use cgo_gen::ir::{
    IrCallback, IrFieldAccessor, IrFunction, IrModule, IrParam, IrType, OpaqueType,
    SupportMetadata,
};
use cgo_gen::source::{render_cpp_arg, render_function_def, render_source};
use cgo_gen::{Config, FieldAccessKind, IrFunctionKind, IrTypeKind, PipelineContext};

fn ty(kind: IrTypeKind, cpp: &str, c: &str, handle: Option<&str>) -> IrType {
    IrType {
        kind,
        cpp_type: cpp.to_string(),
        c_type: c.to_string(),
        handle: handle.map(|h| h.to_string()),
    }
}

fn param(name: &str, ty: IrType) -> IrParam {
    IrParam {
        name: name.to_string(),
        ty,
    }
}

fn free_function(name: &str, cpp_name: &str, returns: IrType, params: Vec<IrParam>) -> IrFunction {
    IrFunction {
        name: name.to_string(),
        kind: IrFunctionKind::Function,
        cpp_name: cpp_name.to_string(),
        method_of: None,
        owner_cpp_type: None,
        is_const: None,
        field_accessor: None,
        returns,
        params,
    }
}

fn module(functions: Vec<IrFunction>, callbacks: Vec<IrCallback>, opaques: Vec<OpaqueType>) -> IrModule {
    IrModule {
        version: 1,
        module: "cgowrap".to_string(),
        source_headers: vec![],
        records: vec![],
        opaque_types: opaques,
        functions,
        enums: vec![],
        constants: vec![],
        callbacks,
        support: SupportMetadata {
            parser_backend: "libclang".to_string(),
            notes: vec![],
            skipped_declarations: vec![],
        },
    }
}

fn int_ty() -> IrType {
    ty(IrTypeKind::Primitive, "int", "int", None)
}

#[test]
fn header_declares_functions_inside_guard() {
    let ctx = PipelineContext::new(Config::default());
    let ir = module(
        vec![free_function(
            "cgowrap_add",
            "add",
            int_ty(),
            vec![param("a", int_ty()), param("b", int_ty())],
        )],
        vec![],
        vec![],
    );
    let header = render_header(&ctx, &ir);
    assert_eq!(
        header,
        "#ifndef CGOWRAP_WRAPPER_H\n#define CGOWRAP_WRAPPER_H\n\n#include <stdbool.h>\n#include <stddef.h>\n#include <stdint.h>\n#include <stdlib.h>\n\n#ifdef __cplusplus\nextern \"C\" {\n#endif\n\nint cgowrap_add(int a, int b);\n#ifdef __cplusplus\n}\n#endif\n\n#endif /* CGOWRAP_WRAPPER_H */\n"
    );
}

#[test]
fn header_declares_opaque_typedefs_and_deleters_for_unowned_values() {
    let ctx = PipelineContext::new(Config::default());
    let value = ty(
        IrTypeKind::ModelValue,
        "Thing",
        "ThingHandle*",
        Some("ThingHandle"),
    );
    let ir = module(
        vec![free_function("cgowrap_make", "make", value, vec![])],
        vec![],
        vec![OpaqueType {
            name: "ThingHandle".to_string(),
            cpp_type: "Thing".to_string(),
        }],
    );
    let header = render_header(&ctx, &ir);
    assert!(header.contains("typedef struct ThingHandle ThingHandle;\n\n"));
    assert!(header.contains("ThingHandle* cgowrap_make(void);\n"));
    assert!(header.contains("void cgowrap_Thing_delete(ThingHandle* self);\n"));
    assert_eq!(opaque_delete_symbol("ThingHandle"), "cgowrap_Thing_delete");
    assert_eq!(opaque_delete_symbol("Raw"), "cgowrap_Raw_delete");
}

#[test]
fn header_adds_string_free_and_timeval_include() {
    let ctx = PipelineContext::new(Config::default());
    let ir = module(
        vec![free_function(
            "cgowrap_name",
            "name",
            ty(IrTypeKind::String, "std::string", "char*", None),
            vec![param(
                "tv",
                ty(IrTypeKind::ExternStructPointer, "timeval*", "struct timeval*", None),
            )],
        )],
        vec![],
        vec![],
    );
    let header = render_header(&ctx, &ir);
    assert!(header.contains("#include <sys/time.h>\n\n"));
    assert!(header.contains("void cgowrap_string_free(char* value);\n\n"));
}

#[test]
fn header_declares_callback_typedef_and_bridge() {
    let ctx = PipelineContext::new(Config::default());
    let cb = IrCallback {
        name: "on_event".to_string(),
        cpp_name: "on_event".to_string(),
        returns: ty(IrTypeKind::Void, "void", "void", None),
        params: vec![param("code", int_ty())],
    };
    let f = free_function(
        "cgowrap_listen",
        "listen",
        ty(IrTypeKind::Void, "void", "void", None),
        vec![
            param("id", int_ty()),
            param("cb", ty(IrTypeKind::Callback, "on_event", "on_event", None)),
        ],
    );
    let ir = module(vec![f], vec![cb], vec![]);
    let header = render_header(&ctx, &ir);
    assert!(header.contains("typedef void (*on_event)(int code);\n\n"));
    assert!(header.contains("void cgowrap_listen_bridge(int id, bool use_cb1);\n"));

    let source = render_source(&ctx, &ir, &vec![]);
    assert!(source.contains("extern \"C\" {\n    void go_cgowrap_listen_cb1(int code);\n}\n\n"));
    assert!(source.contains(
        "    on_event cgowrap_listen_cb1_trampoline = [](int code) -> void { go_cgowrap_listen_cb1(code); };\n"
    ));
    assert!(source.contains("    cgowrap_listen(id, use_cb1 ? cgowrap_listen_cb1_trampoline : nullptr);\n"));
}

#[test]
fn function_decl_uses_void_for_empty_params() {
    let f = free_function("cgowrap_tick", "tick", int_ty(), vec![]);
    assert_eq!(render_function_decl(&f), "int cgowrap_tick(void);");
}

#[test]
fn cpp_args_cast_enums_aliases_and_models() {
    assert_eq!(
        render_cpp_arg(&ty(IrTypeKind::Enum, " Color ", "int64_t", None), "c"),
        "static_cast<Color>(c)"
    );
    assert_eq!(
        render_cpp_arg(&ty(IrTypeKind::Primitive, "uint32", "uint32_t", None), "n"),
        "static_cast<uint32>(n)"
    );
    assert_eq!(
        render_cpp_arg(&ty(IrTypeKind::Primitive, "my_t", "int", None), "n"),
        "static_cast<int>(n)"
    );
    assert_eq!(
        render_cpp_arg(&ty(IrTypeKind::String, "std::string", "const char*", None), "s"),
        "std::string(s != nullptr ? s : \"\")"
    );
    assert_eq!(
        render_cpp_arg(
            &ty(IrTypeKind::ModelReference, "const Thing&", "const ThingHandle*", Some("ThingHandle")),
            "t"
        ),
        "*reinterpret_cast<const Thing*>(t)"
    );
    assert_eq!(
        render_cpp_arg(
            &ty(IrTypeKind::ModelPointer, "Thing**", "ThingHandle**", Some("ThingHandle")),
            "p"
        ),
        "reinterpret_cast<Thing**>(p)"
    );
    assert_eq!(
        render_cpp_arg(&ty(IrTypeKind::Reference, "int32&", "int32_t*", None), "r"),
        "*reinterpret_cast<int32*>(r)"
    );
}

#[test]
fn method_definition_calls_through_receiver() {
    let f = IrFunction {
        name: "cgowrap_Counter_Add".to_string(),
        kind: IrFunctionKind::Method,
        cpp_name: "ns::Counter::Add".to_string(),
        method_of: Some("CounterHandle".to_string()),
        owner_cpp_type: Some("ns::Counter".to_string()),
        is_const: Some(true),
        field_accessor: None,
        returns: int_ty(),
        params: vec![
            param("self", ty(IrTypeKind::Opaque, "const ns::Counter*", "const CounterHandle*", Some("CounterHandle"))),
            param("n", int_ty()),
        ],
    };
    assert_eq!(
        render_function_def(&f),
        "int cgowrap_Counter_Add(const CounterHandle* self, int n) {\n    return reinterpret_cast<const ns::Counter*>(self)->Add(n);\n}\n"
    );
}

#[test]
fn field_setter_copies_char_arrays_with_terminator() {
    let f = IrFunction {
        name: "cgowrap_Rec_SetName".to_string(),
        kind: IrFunctionKind::Method,
        cpp_name: "Rec::SetName".to_string(),
        method_of: Some("RecHandle".to_string()),
        owner_cpp_type: Some("Rec".to_string()),
        is_const: Some(false),
        field_accessor: Some(IrFieldAccessor {
            field_name: "name".to_string(),
            access: FieldAccessKind::Put,
            array_len: None,
        }),
        returns: ty(IrTypeKind::Void, "void", "void", None),
        params: vec![
            param("self", ty(IrTypeKind::Opaque, "Rec*", "RecHandle*", Some("RecHandle"))),
            param("value", ty(IrTypeKind::CString, "char[8]", "const char*", None)),
        ],
    };
    assert_eq!(
        render_function_def(&f),
        "void cgowrap_Rec_SetName(RecHandle* self, const char* value) {\n    if (value == nullptr) {\n        reinterpret_cast<Rec*>(self)->name[0] = '\\0';\n        return;\n    }\n    std::strncpy(reinterpret_cast<Rec*>(self)->name, value, 7);\n    reinterpret_cast<Rec*>(self)->name[7] = '\\0';\n}\n"
    );
}

#[test]
fn constructor_and_destructor_definitions() {
    let ctor = IrFunction {
        name: "cgowrap_Rec_new".to_string(),
        kind: IrFunctionKind::Constructor,
        cpp_name: "Rec".to_string(),
        method_of: Some("RecHandle".to_string()),
        owner_cpp_type: Some("Rec".to_string()),
        is_const: None,
        field_accessor: None,
        returns: ty(IrTypeKind::Opaque, "Rec", "RecHandle*", Some("RecHandle")),
        params: vec![param("n", int_ty())],
    };
    assert_eq!(
        render_function_def(&ctor),
        "RecHandle* cgowrap_Rec_new(int n) {\n    return reinterpret_cast<RecHandle*>(new Rec(n));\n}\n"
    );
    let dtor = IrFunction {
        name: "cgowrap_Rec_delete".to_string(),
        kind: IrFunctionKind::Destructor,
        cpp_name: "~Rec".to_string(),
        method_of: Some("RecHandle".to_string()),
        owner_cpp_type: Some("Rec".to_string()),
        is_const: None,
        field_accessor: None,
        returns: ty(IrTypeKind::Void, "void", "void", None),
        params: vec![param("self", ty(IrTypeKind::Opaque, "Rec*", "RecHandle*", Some("RecHandle")))],
    };
    assert_eq!(
        render_function_def(&dtor),
        "void cgowrap_Rec_delete(RecHandle* self) {\n    delete reinterpret_cast<Rec*>(self);\n}\n"
    );
}

#[test]
fn source_includes_header_names_once_and_defines_deleters() {
    let ctx = PipelineContext::new(Config::default());
    let value = ty(
        IrTypeKind::ModelValue,
        "Thing*",
        "ThingHandle*",
        Some("ThingHandle"),
    );
    let ir = module(
        vec![free_function("cgowrap_make", "make", value, vec![])],
        vec![],
        vec![],
    );
    let source = render_source(
        &ctx,
        &ir,
        &vec![
            "include/a.h".to_string(),
            "other/a.h".to_string(),
            "b.h".to_string(),
        ],
    );
    assert!(source.starts_with(
        "#include \"wrapper.h\"\n#include <cstdlib>\n#include <cstring>\n#include <new>\n#include <string>\n\n#include \"a.h\"\n#include \"b.h\"\n\n"
    ));
    assert!(source.contains(
        "    auto result = make();\n    if (result == nullptr) {\n        return nullptr;\n    }\n    return reinterpret_cast<ThingHandle*>(new Thing(*result));\n"
    ));
    assert!(source.contains(
        "void cgowrap_Thing_delete(ThingHandle* self) {\n    delete reinterpret_cast<Thing*>(self);\n}\n\n"
    ));
}

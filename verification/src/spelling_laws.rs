//! Properties of the Go, cgo and C spellings that the generated wrappers use, and of the
//! accessors and projections built from them.
use vstd::prelude::*;

use crate::analysis::{field_type, projected_fields, scan_fields};
use crate::case::accessor_suffix;
use crate::context::PipelineContextV;
use crate::declarations::{fields_fns, field_fns, ntype, read_only, sym, TypeEnv};
use crate::gotypes::{cgo_prim, go_prim, go_value, type_key};
use crate::ir::{IrFieldAccessorV, IrFunctionV};
use crate::kind::FieldAccessKind;
use crate::macros::{byte_repr, go_bytes_body, go_quoted};
use crate::text::hex_digit_char;
use crate::parsed::CppFieldV;
use crate::ir::IrTypeV;
use crate::kind::IrTypeKind;
use crate::types::{canonical_prim, norm_literal};
use crate::text::starts_with;

verus! {

/// An unsigned integer spelling: `uintN`, `uintN_t`, `unsigned ...`, or `size_t`.
pub open spec fn unsigned_spelling(k: Seq<char>) -> bool {
    starts_with(k, "uint"@) || starts_with(k, "unsigned"@) || k == "size_t"@
}

/// The Go type of a C primitive is unsigned exactly when the C spelling is: an unsigned
/// value never comes out as a signed Go number.
#[verifier::rlimit(50)]
pub proof fn law_go_type_keeps_signedness(k: Seq<char>)
    requires
        go_prim(k) is Some,
    ensures
        starts_with(go_prim(k)->0, "uint"@) <==> unsigned_spelling(k),
{
    reveal_strlit("_t");
    reveal_strlit("bool");
    reveal_strlit("char");
    reveal_strlit("double");
    reveal_strlit("float");
    reveal_strlit("float32");
    reveal_strlit("float64");
    reveal_strlit("int");
    reveal_strlit("int16");
    reveal_strlit("int16_t");
    reveal_strlit("int32");
    reveal_strlit("int32_t");
    reveal_strlit("int64");
    reveal_strlit("int64_t");
    reveal_strlit("int8");
    reveal_strlit("int8_t");
    reveal_strlit("long");
    reveal_strlit("longlong");
    reveal_strlit("short");
    reveal_strlit("signedchar");
    reveal_strlit("size_t");
    reveal_strlit("u");
    reveal_strlit("uint");
    reveal_strlit("uint16");
    reveal_strlit("uint16_t");
    reveal_strlit("uint32");
    reveal_strlit("uint32_t");
    reveal_strlit("uint64");
    reveal_strlit("uint64_t");
    reveal_strlit("uint8");
    reveal_strlit("uint8_t");
    reveal_strlit("uintptr");
    reveal_strlit("unsigned");
    reveal_strlit("unsignedchar");
    reveal_strlit("unsignedint");
    reveal_strlit("unsignedlong");
    reveal_strlit("unsignedlonglong");
    reveal_strlit("unsignedshort");
    if k == "bool"@ {
        assert(go_prim(k) == Some("bool"@));
        assert(!starts_with("bool"@, "uint"@)) by { assert("bool"@.subrange(0, 4)[0] != "uint"@[0]); }
        assert(!starts_with("bool"@, "uint"@)) by { assert("bool"@.subrange(0, 4)[0] != "uint"@[0]); }
        assert(!starts_with("bool"@, "unsigned"@));
        assert("bool"@ != "size_t"@) by { assert("bool"@.len() != "size_t"@.len()); }
    } else if k == "float"@ {
        assert(go_prim(k) == Some("float32"@));
        assert(!starts_with("float32"@, "uint"@)) by { assert("float32"@.subrange(0, 4)[0] != "uint"@[0]); }
        assert(!starts_with("float"@, "uint"@)) by { assert("float"@.subrange(0, 4)[0] != "uint"@[0]); }
        assert(!starts_with("float"@, "unsigned"@));
        assert("float"@ != "size_t"@) by { assert("float"@.len() != "size_t"@.len()); }
    } else if k == "double"@ {
        assert(go_prim(k) == Some("float64"@));
        assert(!starts_with("float64"@, "uint"@)) by { assert("float64"@.subrange(0, 4)[0] != "uint"@[0]); }
        assert(!starts_with("double"@, "uint"@)) by { assert("double"@.subrange(0, 4)[0] != "uint"@[0]); }
        assert(!starts_with("double"@, "unsigned"@));
        assert("double"@ != "size_t"@) by { assert("double"@[0] != "size_t"@[0]); }
    } else if k == "int8"@ {
        assert(go_prim(k) == Some("int8"@));
        assert(!starts_with("int8"@, "uint"@)) by { assert("int8"@.subrange(0, 4)[0] != "uint"@[0]); }
        assert(!starts_with("int8"@, "uint"@)) by { assert("int8"@.subrange(0, 4)[0] != "uint"@[0]); }
        assert(!starts_with("int8"@, "unsigned"@));
        assert("int8"@ != "size_t"@) by { assert("int8"@.len() != "size_t"@.len()); }
    } else if k == "int8_t"@ {
        assert(go_prim(k) == Some("int8"@));
        assert(!starts_with("int8"@, "uint"@)) by { assert("int8"@.subrange(0, 4)[0] != "uint"@[0]); }
        assert(!starts_with("int8_t"@, "uint"@)) by { assert("int8_t"@.subrange(0, 4)[0] != "uint"@[0]); }
        assert(!starts_with("int8_t"@, "unsigned"@));
        assert("int8_t"@ != "size_t"@) by { assert("int8_t"@[0] != "size_t"@[0]); }
    } else if k == "signedchar"@ {
        assert(go_prim(k) == Some("int8"@));
        assert(!starts_with("int8"@, "uint"@)) by { assert("int8"@.subrange(0, 4)[0] != "uint"@[0]); }
        assert(!starts_with("signedchar"@, "uint"@)) by { assert("signedchar"@.subrange(0, 4)[0] != "uint"@[0]); }
        assert(!starts_with("signedchar"@, "unsigned"@)) by { assert("signedchar"@.subrange(0, 8)[0] != "unsigned"@[0]); }
        assert("signedchar"@ != "size_t"@) by { assert("signedchar"@.len() != "size_t"@.len()); }
    } else if k == "int16"@ {
        assert(go_prim(k) == Some("int16"@));
        assert(!starts_with("int16"@, "uint"@)) by { assert("int16"@.subrange(0, 4)[0] != "uint"@[0]); }
        assert(!starts_with("int16"@, "uint"@)) by { assert("int16"@.subrange(0, 4)[0] != "uint"@[0]); }
        assert(!starts_with("int16"@, "unsigned"@));
        assert("int16"@ != "size_t"@) by { assert("int16"@.len() != "size_t"@.len()); }
    } else if k == "int16_t"@ {
        assert(go_prim(k) == Some("int16"@));
        assert(!starts_with("int16"@, "uint"@)) by { assert("int16"@.subrange(0, 4)[0] != "uint"@[0]); }
        assert(!starts_with("int16_t"@, "uint"@)) by { assert("int16_t"@.subrange(0, 4)[0] != "uint"@[0]); }
        assert(!starts_with("int16_t"@, "unsigned"@));
        assert("int16_t"@ != "size_t"@) by { assert("int16_t"@.len() != "size_t"@.len()); }
    } else if k == "short"@ {
        assert(go_prim(k) == Some("int16"@));
        assert(!starts_with("int16"@, "uint"@)) by { assert("int16"@.subrange(0, 4)[0] != "uint"@[0]); }
        assert(!starts_with("short"@, "uint"@)) by { assert("short"@.subrange(0, 4)[0] != "uint"@[0]); }
        assert(!starts_with("short"@, "unsigned"@));
        assert("short"@ != "size_t"@) by { assert("short"@.len() != "size_t"@.len()); }
    } else if k == "int32"@ {
        assert(go_prim(k) == Some("int32"@));
        assert(!starts_with("int32"@, "uint"@)) by { assert("int32"@.subrange(0, 4)[0] != "uint"@[0]); }
        assert(!starts_with("int32"@, "uint"@)) by { assert("int32"@.subrange(0, 4)[0] != "uint"@[0]); }
        assert(!starts_with("int32"@, "unsigned"@));
        assert("int32"@ != "size_t"@) by { assert("int32"@.len() != "size_t"@.len()); }
    } else if k == "int32_t"@ {
        assert(go_prim(k) == Some("int32"@));
        assert(!starts_with("int32"@, "uint"@)) by { assert("int32"@.subrange(0, 4)[0] != "uint"@[0]); }
        assert(!starts_with("int32_t"@, "uint"@)) by { assert("int32_t"@.subrange(0, 4)[0] != "uint"@[0]); }
        assert(!starts_with("int32_t"@, "unsigned"@));
        assert("int32_t"@ != "size_t"@) by { assert("int32_t"@.len() != "size_t"@.len()); }
    } else if k == "int64"@ {
        assert(go_prim(k) == Some("int64"@));
        assert(!starts_with("int64"@, "uint"@)) by { assert("int64"@.subrange(0, 4)[0] != "uint"@[0]); }
        assert(!starts_with("int64"@, "uint"@)) by { assert("int64"@.subrange(0, 4)[0] != "uint"@[0]); }
        assert(!starts_with("int64"@, "unsigned"@));
        assert("int64"@ != "size_t"@) by { assert("int64"@.len() != "size_t"@.len()); }
    } else if k == "int64_t"@ {
        assert(go_prim(k) == Some("int64"@));
        assert(!starts_with("int64"@, "uint"@)) by { assert("int64"@.subrange(0, 4)[0] != "uint"@[0]); }
        assert(!starts_with("int64_t"@, "uint"@)) by { assert("int64_t"@.subrange(0, 4)[0] != "uint"@[0]); }
        assert(!starts_with("int64_t"@, "unsigned"@));
        assert("int64_t"@ != "size_t"@) by { assert("int64_t"@.len() != "size_t"@.len()); }
    } else if k == "long"@ {
        assert(go_prim(k) == Some("int64"@));
        assert(!starts_with("int64"@, "uint"@)) by { assert("int64"@.subrange(0, 4)[0] != "uint"@[0]); }
        assert(!starts_with("long"@, "uint"@)) by { assert("long"@.subrange(0, 4)[0] != "uint"@[0]); }
        assert(!starts_with("long"@, "unsigned"@));
        assert("long"@ != "size_t"@) by { assert("long"@.len() != "size_t"@.len()); }
    } else if k == "longlong"@ {
        assert(go_prim(k) == Some("int64"@));
        assert(!starts_with("int64"@, "uint"@)) by { assert("int64"@.subrange(0, 4)[0] != "uint"@[0]); }
        assert(!starts_with("longlong"@, "uint"@)) by { assert("longlong"@.subrange(0, 4)[0] != "uint"@[0]); }
        assert(!starts_with("longlong"@, "unsigned"@)) by { assert("longlong"@.subrange(0, 8)[0] != "unsigned"@[0]); }
        assert("longlong"@ != "size_t"@) by { assert("longlong"@.len() != "size_t"@.len()); }
    } else if k == "uint8"@ {
        assert(go_prim(k) == Some("uint8"@));
        assert(starts_with("uint8"@, "uint"@)) by { assert("uint8"@.subrange(0, 4) =~= "uint"@); }
        assert(starts_with("uint8"@, "uint"@)) by { assert("uint8"@.subrange(0, 4) =~= "uint"@); }
        assert(!starts_with("uint8"@, "unsigned"@));
        assert("uint8"@ != "size_t"@) by { assert("uint8"@.len() != "size_t"@.len()); }
    } else if k == "uint8_t"@ {
        assert(go_prim(k) == Some("uint8"@));
        assert(starts_with("uint8"@, "uint"@)) by { assert("uint8"@.subrange(0, 4) =~= "uint"@); }
        assert(starts_with("uint8_t"@, "uint"@)) by { assert("uint8_t"@.subrange(0, 4) =~= "uint"@); }
        assert(!starts_with("uint8_t"@, "unsigned"@));
        assert("uint8_t"@ != "size_t"@) by { assert("uint8_t"@.len() != "size_t"@.len()); }
    } else if k == "unsignedchar"@ {
        assert(go_prim(k) == Some("uint8"@));
        assert(starts_with("uint8"@, "uint"@)) by { assert("uint8"@.subrange(0, 4) =~= "uint"@); }
        assert(!starts_with("unsignedchar"@, "uint"@)) by { assert("unsignedchar"@.subrange(0, 4)[1] != "uint"@[1]); }
        assert(starts_with("unsignedchar"@, "unsigned"@)) by { assert("unsignedchar"@.subrange(0, 8) =~= "unsigned"@); }
        assert("unsignedchar"@ != "size_t"@) by { assert("unsignedchar"@.len() != "size_t"@.len()); }
    } else if k == "uint16"@ {
        assert(go_prim(k) == Some("uint16"@));
        assert(starts_with("uint16"@, "uint"@)) by { assert("uint16"@.subrange(0, 4) =~= "uint"@); }
        assert(starts_with("uint16"@, "uint"@)) by { assert("uint16"@.subrange(0, 4) =~= "uint"@); }
        assert(!starts_with("uint16"@, "unsigned"@));
        assert("uint16"@ != "size_t"@) by { assert("uint16"@[0] != "size_t"@[0]); }
    } else if k == "uint16_t"@ {
        assert(go_prim(k) == Some("uint16"@));
        assert(starts_with("uint16"@, "uint"@)) by { assert("uint16"@.subrange(0, 4) =~= "uint"@); }
        assert(starts_with("uint16_t"@, "uint"@)) by { assert("uint16_t"@.subrange(0, 4) =~= "uint"@); }
        assert(!starts_with("uint16_t"@, "unsigned"@)) by { assert("uint16_t"@.subrange(0, 8)[1] != "unsigned"@[1]); }
        assert("uint16_t"@ != "size_t"@) by { assert("uint16_t"@.len() != "size_t"@.len()); }
    } else if k == "unsignedshort"@ {
        assert(go_prim(k) == Some("uint16"@));
        assert(starts_with("uint16"@, "uint"@)) by { assert("uint16"@.subrange(0, 4) =~= "uint"@); }
        assert(!starts_with("unsignedshort"@, "uint"@)) by { assert("unsignedshort"@.subrange(0, 4)[1] != "uint"@[1]); }
        assert(starts_with("unsignedshort"@, "unsigned"@)) by { assert("unsignedshort"@.subrange(0, 8) =~= "unsigned"@); }
        assert("unsignedshort"@ != "size_t"@) by { assert("unsignedshort"@.len() != "size_t"@.len()); }
    } else if k == "uint32"@ {
        assert(go_prim(k) == Some("uint32"@));
        assert(starts_with("uint32"@, "uint"@)) by { assert("uint32"@.subrange(0, 4) =~= "uint"@); }
        assert(starts_with("uint32"@, "uint"@)) by { assert("uint32"@.subrange(0, 4) =~= "uint"@); }
        assert(!starts_with("uint32"@, "unsigned"@));
        assert("uint32"@ != "size_t"@) by { assert("uint32"@[0] != "size_t"@[0]); }
    } else if k == "uint32_t"@ {
        assert(go_prim(k) == Some("uint32"@));
        assert(starts_with("uint32"@, "uint"@)) by { assert("uint32"@.subrange(0, 4) =~= "uint"@); }
        assert(starts_with("uint32_t"@, "uint"@)) by { assert("uint32_t"@.subrange(0, 4) =~= "uint"@); }
        assert(!starts_with("uint32_t"@, "unsigned"@)) by { assert("uint32_t"@.subrange(0, 8)[1] != "unsigned"@[1]); }
        assert("uint32_t"@ != "size_t"@) by { assert("uint32_t"@.len() != "size_t"@.len()); }
    } else if k == "unsignedint"@ {
        assert(go_prim(k) == Some("uint32"@));
        assert(starts_with("uint32"@, "uint"@)) by { assert("uint32"@.subrange(0, 4) =~= "uint"@); }
        assert(!starts_with("unsignedint"@, "uint"@)) by { assert("unsignedint"@.subrange(0, 4)[1] != "uint"@[1]); }
        assert(starts_with("unsignedint"@, "unsigned"@)) by { assert("unsignedint"@.subrange(0, 8) =~= "unsigned"@); }
        assert("unsignedint"@ != "size_t"@) by { assert("unsignedint"@.len() != "size_t"@.len()); }
    } else if k == "unsigned"@ {
        assert(go_prim(k) == Some("uint32"@));
        assert(starts_with("uint32"@, "uint"@)) by { assert("uint32"@.subrange(0, 4) =~= "uint"@); }
        assert(!starts_with("unsigned"@, "uint"@)) by { assert("unsigned"@.subrange(0, 4)[1] != "uint"@[1]); }
        assert(starts_with("unsigned"@, "unsigned"@)) by { assert("unsigned"@.subrange(0, 8) =~= "unsigned"@); }
        assert("unsigned"@ != "size_t"@) by { assert("unsigned"@.len() != "size_t"@.len()); }
    } else if k == "int"@ {
        assert(go_prim(k) == Some("int32"@));
        assert(!starts_with("int32"@, "uint"@)) by { assert("int32"@.subrange(0, 4)[0] != "uint"@[0]); }
        assert(!starts_with("int"@, "uint"@));
        assert(!starts_with("int"@, "unsigned"@));
        assert("int"@ != "size_t"@) by { assert("int"@.len() != "size_t"@.len()); }
    } else if k == "uint64"@ {
        assert(go_prim(k) == Some("uint64"@));
        assert(starts_with("uint64"@, "uint"@)) by { assert("uint64"@.subrange(0, 4) =~= "uint"@); }
        assert(starts_with("uint64"@, "uint"@)) by { assert("uint64"@.subrange(0, 4) =~= "uint"@); }
        assert(!starts_with("uint64"@, "unsigned"@));
        assert("uint64"@ != "size_t"@) by { assert("uint64"@[0] != "size_t"@[0]); }
    } else if k == "uint64_t"@ {
        assert(go_prim(k) == Some("uint64"@));
        assert(starts_with("uint64"@, "uint"@)) by { assert("uint64"@.subrange(0, 4) =~= "uint"@); }
        assert(starts_with("uint64_t"@, "uint"@)) by { assert("uint64_t"@.subrange(0, 4) =~= "uint"@); }
        assert(!starts_with("uint64_t"@, "unsigned"@)) by { assert("uint64_t"@.subrange(0, 8)[1] != "unsigned"@[1]); }
        assert("uint64_t"@ != "size_t"@) by { assert("uint64_t"@.len() != "size_t"@.len()); }
    } else if k == "unsignedlong"@ {
        assert(go_prim(k) == Some("uint64"@));
        assert(starts_with("uint64"@, "uint"@)) by { assert("uint64"@.subrange(0, 4) =~= "uint"@); }
        assert(!starts_with("unsignedlong"@, "uint"@)) by { assert("unsignedlong"@.subrange(0, 4)[1] != "uint"@[1]); }
        assert(starts_with("unsignedlong"@, "unsigned"@)) by { assert("unsignedlong"@.subrange(0, 8) =~= "unsigned"@); }
        assert("unsignedlong"@ != "size_t"@) by { assert("unsignedlong"@.len() != "size_t"@.len()); }
    } else if k == "unsignedlonglong"@ {
        assert(go_prim(k) == Some("uint64"@));
        assert(starts_with("uint64"@, "uint"@)) by { assert("uint64"@.subrange(0, 4) =~= "uint"@); }
        assert(!starts_with("unsignedlonglong"@, "uint"@)) by { assert("unsignedlonglong"@.subrange(0, 4)[1] != "uint"@[1]); }
        assert(starts_with("unsignedlonglong"@, "unsigned"@)) by { assert("unsignedlonglong"@.subrange(0, 8) =~= "unsigned"@); }
        assert("unsignedlonglong"@ != "size_t"@) by { assert("unsignedlonglong"@.len() != "size_t"@.len()); }
    } else if k == "size_t"@ {
        assert(go_prim(k) == Some("uintptr"@));
        assert(starts_with("uintptr"@, "uint"@)) by { assert("uintptr"@.subrange(0, 4) =~= "uint"@); }
        assert(!starts_with("size_t"@, "uint"@)) by { assert("size_t"@.subrange(0, 4)[0] != "uint"@[0]); }
        assert(!starts_with("size_t"@, "unsigned"@));
    }
}

/// A fixed-width spelling `intN`/`uintN`, with or without `_t`, has the Go type of the
/// same name: sign and width are kept.
#[verifier::rlimit(50)]
pub proof fn law_go_type_of_fixed_width(k: Seq<char>)
    requires
        go_prim(k) is Some,
        starts_with(k, "int"@) || starts_with(k, "uint"@),
        k != "int"@,
    ensures
        k == go_prim(k)->0 || k == go_prim(k)->0 + "_t"@,
{
    reveal_strlit("_t");
    reveal_strlit("bool");
    reveal_strlit("char");
    reveal_strlit("double");
    reveal_strlit("float");
    reveal_strlit("float32");
    reveal_strlit("float64");
    reveal_strlit("int");
    reveal_strlit("int16");
    reveal_strlit("int16_t");
    reveal_strlit("int32");
    reveal_strlit("int32_t");
    reveal_strlit("int64");
    reveal_strlit("int64_t");
    reveal_strlit("int8");
    reveal_strlit("int8_t");
    reveal_strlit("long");
    reveal_strlit("longlong");
    reveal_strlit("short");
    reveal_strlit("signedchar");
    reveal_strlit("size_t");
    reveal_strlit("u");
    reveal_strlit("uint");
    reveal_strlit("uint16");
    reveal_strlit("uint16_t");
    reveal_strlit("uint32");
    reveal_strlit("uint32_t");
    reveal_strlit("uint64");
    reveal_strlit("uint64_t");
    reveal_strlit("uint8");
    reveal_strlit("uint8_t");
    reveal_strlit("uintptr");
    reveal_strlit("unsigned");
    reveal_strlit("unsignedchar");
    reveal_strlit("unsignedint");
    reveal_strlit("unsignedlong");
    reveal_strlit("unsignedlonglong");
    reveal_strlit("unsignedshort");
    if k == "bool"@ {
        assert(go_prim(k) == Some("bool"@));
        assert(!starts_with("bool"@, "int"@)) by { assert("bool"@.subrange(0, 3)[0] != "int"@[0]); }
        assert(!starts_with("bool"@, "uint"@)) by { assert("bool"@.subrange(0, 4)[0] != "uint"@[0]); }
    } else if k == "float"@ {
        assert(go_prim(k) == Some("float32"@));
        assert(!starts_with("float"@, "int"@)) by { assert("float"@.subrange(0, 3)[0] != "int"@[0]); }
        assert(!starts_with("float"@, "uint"@)) by { assert("float"@.subrange(0, 4)[0] != "uint"@[0]); }
    } else if k == "double"@ {
        assert(go_prim(k) == Some("float64"@));
        assert(!starts_with("double"@, "int"@)) by { assert("double"@.subrange(0, 3)[0] != "int"@[0]); }
        assert(!starts_with("double"@, "uint"@)) by { assert("double"@.subrange(0, 4)[0] != "uint"@[0]); }
    } else if k == "int8"@ {
        assert(go_prim(k) == Some("int8"@));
    } else if k == "int8_t"@ {
        assert(go_prim(k) == Some("int8"@));
        assert("int8_t"@ =~= "int8"@ + "_t"@);
    } else if k == "signedchar"@ {
        assert(go_prim(k) == Some("int8"@));
        assert(!starts_with("signedchar"@, "int"@)) by { assert("signedchar"@.subrange(0, 3)[0] != "int"@[0]); }
        assert(!starts_with("signedchar"@, "uint"@)) by { assert("signedchar"@.subrange(0, 4)[0] != "uint"@[0]); }
    } else if k == "int16"@ {
        assert(go_prim(k) == Some("int16"@));
    } else if k == "int16_t"@ {
        assert(go_prim(k) == Some("int16"@));
        assert("int16_t"@ =~= "int16"@ + "_t"@);
    } else if k == "short"@ {
        assert(go_prim(k) == Some("int16"@));
        assert(!starts_with("short"@, "int"@)) by { assert("short"@.subrange(0, 3)[0] != "int"@[0]); }
        assert(!starts_with("short"@, "uint"@)) by { assert("short"@.subrange(0, 4)[0] != "uint"@[0]); }
    } else if k == "int32"@ {
        assert(go_prim(k) == Some("int32"@));
    } else if k == "int32_t"@ {
        assert(go_prim(k) == Some("int32"@));
        assert("int32_t"@ =~= "int32"@ + "_t"@);
    } else if k == "int64"@ {
        assert(go_prim(k) == Some("int64"@));
    } else if k == "int64_t"@ {
        assert(go_prim(k) == Some("int64"@));
        assert("int64_t"@ =~= "int64"@ + "_t"@);
    } else if k == "long"@ {
        assert(go_prim(k) == Some("int64"@));
        assert(!starts_with("long"@, "int"@)) by { assert("long"@.subrange(0, 3)[0] != "int"@[0]); }
        assert(!starts_with("long"@, "uint"@)) by { assert("long"@.subrange(0, 4)[0] != "uint"@[0]); }
    } else if k == "longlong"@ {
        assert(go_prim(k) == Some("int64"@));
        assert(!starts_with("longlong"@, "int"@)) by { assert("longlong"@.subrange(0, 3)[0] != "int"@[0]); }
        assert(!starts_with("longlong"@, "uint"@)) by { assert("longlong"@.subrange(0, 4)[0] != "uint"@[0]); }
    } else if k == "uint8"@ {
        assert(go_prim(k) == Some("uint8"@));
    } else if k == "uint8_t"@ {
        assert(go_prim(k) == Some("uint8"@));
        assert("uint8_t"@ =~= "uint8"@ + "_t"@);
    } else if k == "unsignedchar"@ {
        assert(go_prim(k) == Some("uint8"@));
        assert(!starts_with("unsignedchar"@, "int"@)) by { assert("unsignedchar"@.subrange(0, 3)[0] != "int"@[0]); }
        assert(!starts_with("unsignedchar"@, "uint"@)) by { assert("unsignedchar"@.subrange(0, 4)[1] != "uint"@[1]); }
    } else if k == "uint16"@ {
        assert(go_prim(k) == Some("uint16"@));
    } else if k == "uint16_t"@ {
        assert(go_prim(k) == Some("uint16"@));
        assert("uint16_t"@ =~= "uint16"@ + "_t"@);
    } else if k == "unsignedshort"@ {
        assert(go_prim(k) == Some("uint16"@));
        assert(!starts_with("unsignedshort"@, "int"@)) by { assert("unsignedshort"@.subrange(0, 3)[0] != "int"@[0]); }
        assert(!starts_with("unsignedshort"@, "uint"@)) by { assert("unsignedshort"@.subrange(0, 4)[1] != "uint"@[1]); }
    } else if k == "uint32"@ {
        assert(go_prim(k) == Some("uint32"@));
    } else if k == "uint32_t"@ {
        assert(go_prim(k) == Some("uint32"@));
        assert("uint32_t"@ =~= "uint32"@ + "_t"@);
    } else if k == "unsignedint"@ {
        assert(go_prim(k) == Some("uint32"@));
        assert(!starts_with("unsignedint"@, "int"@)) by { assert("unsignedint"@.subrange(0, 3)[0] != "int"@[0]); }
        assert(!starts_with("unsignedint"@, "uint"@)) by { assert("unsignedint"@.subrange(0, 4)[1] != "uint"@[1]); }
    } else if k == "unsigned"@ {
        assert(go_prim(k) == Some("uint32"@));
        assert(!starts_with("unsigned"@, "int"@)) by { assert("unsigned"@.subrange(0, 3)[0] != "int"@[0]); }
        assert(!starts_with("unsigned"@, "uint"@)) by { assert("unsigned"@.subrange(0, 4)[1] != "uint"@[1]); }
    } else if k == "int"@ {
        assert(go_prim(k) == Some("int32"@));
        // excluded
    } else if k == "uint64"@ {
        assert(go_prim(k) == Some("uint64"@));
    } else if k == "uint64_t"@ {
        assert(go_prim(k) == Some("uint64"@));
        assert("uint64_t"@ =~= "uint64"@ + "_t"@);
    } else if k == "unsignedlong"@ {
        assert(go_prim(k) == Some("uint64"@));
        assert(!starts_with("unsignedlong"@, "int"@)) by { assert("unsignedlong"@.subrange(0, 3)[0] != "int"@[0]); }
        assert(!starts_with("unsignedlong"@, "uint"@)) by { assert("unsignedlong"@.subrange(0, 4)[1] != "uint"@[1]); }
    } else if k == "unsignedlonglong"@ {
        assert(go_prim(k) == Some("uint64"@));
        assert(!starts_with("unsignedlonglong"@, "int"@)) by { assert("unsignedlonglong"@.subrange(0, 3)[0] != "int"@[0]); }
        assert(!starts_with("unsignedlonglong"@, "uint"@)) by { assert("unsignedlonglong"@.subrange(0, 4)[1] != "uint"@[1]); }
    } else if k == "size_t"@ {
        assert(go_prim(k) == Some("uintptr"@));
        assert(!starts_with("size_t"@, "int"@)) by { assert("size_t"@.subrange(0, 3)[0] != "int"@[0]); }
        assert(!starts_with("size_t"@, "uint"@)) by { assert("size_t"@.subrange(0, 4)[0] != "uint"@[0]); }
    }
}

/// `unsigned X` has the unsigned Go type of the same width as `X`.
#[verifier::rlimit(50)]
pub proof fn law_unsigned_twin_has_same_width(x: Seq<char>)
    requires
        go_prim(x) is Some,
        go_prim("unsigned"@ + x) is Some,
    ensures
        go_prim("unsigned"@ + x)->0 == "u"@ + go_prim(x)->0,
{
    reveal_strlit("_t");
    reveal_strlit("bool");
    reveal_strlit("char");
    reveal_strlit("double");
    reveal_strlit("float");
    reveal_strlit("float32");
    reveal_strlit("float64");
    reveal_strlit("int");
    reveal_strlit("int16");
    reveal_strlit("int16_t");
    reveal_strlit("int32");
    reveal_strlit("int32_t");
    reveal_strlit("int64");
    reveal_strlit("int64_t");
    reveal_strlit("int8");
    reveal_strlit("int8_t");
    reveal_strlit("long");
    reveal_strlit("longlong");
    reveal_strlit("short");
    reveal_strlit("signedchar");
    reveal_strlit("size_t");
    reveal_strlit("u");
    reveal_strlit("uint");
    reveal_strlit("uint16");
    reveal_strlit("uint16_t");
    reveal_strlit("uint32");
    reveal_strlit("uint32_t");
    reveal_strlit("uint64");
    reveal_strlit("uint64_t");
    reveal_strlit("uint8");
    reveal_strlit("uint8_t");
    reveal_strlit("uintptr");
    reveal_strlit("unsigned");
    reveal_strlit("unsignedchar");
    reveal_strlit("unsignedint");
    reveal_strlit("unsignedlong");
    reveal_strlit("unsignedlonglong");
    reveal_strlit("unsignedshort");
    let u = "unsigned"@ + x;
    assert(u.skip(8) =~= x);
    assert(u.subrange(0, 8) =~= "unsigned"@);
    if u == "bool"@ {
        assert(!starts_with("bool"@, "unsigned"@));
    } else if u == "float"@ {
        assert(!starts_with("float"@, "unsigned"@));
    } else if u == "double"@ {
        assert(!starts_with("double"@, "unsigned"@));
    } else if u == "int8"@ {
        assert(!starts_with("int8"@, "unsigned"@));
    } else if u == "int8_t"@ {
        assert(!starts_with("int8_t"@, "unsigned"@));
    } else if u == "signedchar"@ {
        assert(!starts_with("signedchar"@, "unsigned"@)) by { assert("signedchar"@.subrange(0, 8)[0] != "unsigned"@[0]); }
    } else if u == "int16"@ {
        assert(!starts_with("int16"@, "unsigned"@));
    } else if u == "int16_t"@ {
        assert(!starts_with("int16_t"@, "unsigned"@));
    } else if u == "short"@ {
        assert(!starts_with("short"@, "unsigned"@));
    } else if u == "int32"@ {
        assert(!starts_with("int32"@, "unsigned"@));
    } else if u == "int32_t"@ {
        assert(!starts_with("int32_t"@, "unsigned"@));
    } else if u == "int64"@ {
        assert(!starts_with("int64"@, "unsigned"@));
    } else if u == "int64_t"@ {
        assert(!starts_with("int64_t"@, "unsigned"@));
    } else if u == "long"@ {
        assert(!starts_with("long"@, "unsigned"@));
    } else if u == "longlong"@ {
        assert(!starts_with("longlong"@, "unsigned"@)) by { assert("longlong"@.subrange(0, 8)[0] != "unsigned"@[0]); }
    } else if u == "uint8"@ {
        assert(!starts_with("uint8"@, "unsigned"@));
    } else if u == "uint8_t"@ {
        assert(!starts_with("uint8_t"@, "unsigned"@));
    } else if u == "unsignedchar"@ {
        assert("unsignedchar"@.skip(8) =~= "char"@);
        assert(x =~= "char"@);
        assert("char"@ != "bool"@) by { assert("char"@[0] != "bool"@[0]); }
        assert("char"@ != "float"@) by { assert("char"@.len() != "float"@.len()); }
        assert("char"@ != "double"@) by { assert("char"@.len() != "double"@.len()); }
        assert("char"@ != "int8"@) by { assert("char"@[0] != "int8"@[0]); }
        assert("char"@ != "int8_t"@) by { assert("char"@.len() != "int8_t"@.len()); }
        assert("char"@ != "signedchar"@) by { assert("char"@.len() != "signedchar"@.len()); }
        assert("char"@ != "int16"@) by { assert("char"@.len() != "int16"@.len()); }
        assert("char"@ != "int16_t"@) by { assert("char"@.len() != "int16_t"@.len()); }
        assert("char"@ != "short"@) by { assert("char"@.len() != "short"@.len()); }
        assert("char"@ != "int32"@) by { assert("char"@.len() != "int32"@.len()); }
        assert("char"@ != "int32_t"@) by { assert("char"@.len() != "int32_t"@.len()); }
        assert("char"@ != "int64"@) by { assert("char"@.len() != "int64"@.len()); }
        assert("char"@ != "int64_t"@) by { assert("char"@.len() != "int64_t"@.len()); }
        assert("char"@ != "long"@) by { assert("char"@[0] != "long"@[0]); }
        assert("char"@ != "longlong"@) by { assert("char"@.len() != "longlong"@.len()); }
        assert("char"@ != "uint8"@) by { assert("char"@.len() != "uint8"@.len()); }
        assert("char"@ != "uint8_t"@) by { assert("char"@.len() != "uint8_t"@.len()); }
        assert("char"@ != "unsignedchar"@) by { assert("char"@.len() != "unsignedchar"@.len()); }
        assert("char"@ != "uint16"@) by { assert("char"@.len() != "uint16"@.len()); }
        assert("char"@ != "uint16_t"@) by { assert("char"@.len() != "uint16_t"@.len()); }
        assert("char"@ != "unsignedshort"@) by { assert("char"@.len() != "unsignedshort"@.len()); }
        assert("char"@ != "uint32"@) by { assert("char"@.len() != "uint32"@.len()); }
        assert("char"@ != "uint32_t"@) by { assert("char"@.len() != "uint32_t"@.len()); }
        assert("char"@ != "unsignedint"@) by { assert("char"@.len() != "unsignedint"@.len()); }
        assert("char"@ != "unsigned"@) by { assert("char"@.len() != "unsigned"@.len()); }
        assert("char"@ != "int"@) by { assert("char"@.len() != "int"@.len()); }
        assert("char"@ != "uint64"@) by { assert("char"@.len() != "uint64"@.len()); }
        assert("char"@ != "uint64_t"@) by { assert("char"@.len() != "uint64_t"@.len()); }
        assert("char"@ != "unsignedlong"@) by { assert("char"@.len() != "unsignedlong"@.len()); }
        assert("char"@ != "unsignedlonglong"@) by { assert("char"@.len() != "unsignedlonglong"@.len()); }
        assert("char"@ != "size_t"@) by { assert("char"@.len() != "size_t"@.len()); }
    } else if u == "uint16"@ {
        assert(!starts_with("uint16"@, "unsigned"@));
    } else if u == "uint16_t"@ {
        assert(!starts_with("uint16_t"@, "unsigned"@)) by { assert("uint16_t"@.subrange(0, 8)[1] != "unsigned"@[1]); }
    } else if u == "unsignedshort"@ {
        assert("unsignedshort"@.skip(8) =~= "short"@);
        assert(x =~= "short"@);
        assert("short"@ != "bool"@) by { assert("short"@.len() != "bool"@.len()); }
        assert("short"@ != "float"@) by { assert("short"@[0] != "float"@[0]); }
        assert("short"@ != "double"@) by { assert("short"@.len() != "double"@.len()); }
        assert("short"@ != "int8"@) by { assert("short"@.len() != "int8"@.len()); }
        assert("short"@ != "int8_t"@) by { assert("short"@.len() != "int8_t"@.len()); }
        assert("short"@ != "signedchar"@) by { assert("short"@.len() != "signedchar"@.len()); }
        assert("short"@ != "int16"@) by { assert("short"@[0] != "int16"@[0]); }
        assert("short"@ != "int16_t"@) by { assert("short"@.len() != "int16_t"@.len()); }
        assert(go_prim(x) == Some("int16"@));
        assert("uint16"@ =~= "u"@ + "int16"@);
    } else if u == "uint32"@ {
        assert(!starts_with("uint32"@, "unsigned"@));
    } else if u == "uint32_t"@ {
        assert(!starts_with("uint32_t"@, "unsigned"@)) by { assert("uint32_t"@.subrange(0, 8)[1] != "unsigned"@[1]); }
    } else if u == "unsignedint"@ {
        assert("unsignedint"@.skip(8) =~= "int"@);
        assert(x =~= "int"@);
        assert("int"@ != "bool"@) by { assert("int"@.len() != "bool"@.len()); }
        assert("int"@ != "float"@) by { assert("int"@.len() != "float"@.len()); }
        assert("int"@ != "double"@) by { assert("int"@.len() != "double"@.len()); }
        assert("int"@ != "int8"@) by { assert("int"@.len() != "int8"@.len()); }
        assert("int"@ != "int8_t"@) by { assert("int"@.len() != "int8_t"@.len()); }
        assert("int"@ != "signedchar"@) by { assert("int"@.len() != "signedchar"@.len()); }
        assert("int"@ != "int16"@) by { assert("int"@.len() != "int16"@.len()); }
        assert("int"@ != "int16_t"@) by { assert("int"@.len() != "int16_t"@.len()); }
        assert("int"@ != "short"@) by { assert("int"@.len() != "short"@.len()); }
        assert("int"@ != "int32"@) by { assert("int"@.len() != "int32"@.len()); }
        assert("int"@ != "int32_t"@) by { assert("int"@.len() != "int32_t"@.len()); }
        assert("int"@ != "int64"@) by { assert("int"@.len() != "int64"@.len()); }
        assert("int"@ != "int64_t"@) by { assert("int"@.len() != "int64_t"@.len()); }
        assert("int"@ != "long"@) by { assert("int"@.len() != "long"@.len()); }
        assert("int"@ != "longlong"@) by { assert("int"@.len() != "longlong"@.len()); }
        assert("int"@ != "uint8"@) by { assert("int"@.len() != "uint8"@.len()); }
        assert("int"@ != "uint8_t"@) by { assert("int"@.len() != "uint8_t"@.len()); }
        assert("int"@ != "unsignedchar"@) by { assert("int"@.len() != "unsignedchar"@.len()); }
        assert("int"@ != "uint16"@) by { assert("int"@.len() != "uint16"@.len()); }
        assert("int"@ != "uint16_t"@) by { assert("int"@.len() != "uint16_t"@.len()); }
        assert("int"@ != "unsignedshort"@) by { assert("int"@.len() != "unsignedshort"@.len()); }
        assert("int"@ != "uint32"@) by { assert("int"@.len() != "uint32"@.len()); }
        assert("int"@ != "uint32_t"@) by { assert("int"@.len() != "uint32_t"@.len()); }
        assert("int"@ != "unsignedint"@) by { assert("int"@.len() != "unsignedint"@.len()); }
        assert("int"@ != "unsigned"@) by { assert("int"@.len() != "unsigned"@.len()); }
        assert(go_prim(x) == Some("int32"@));
        assert("uint32"@ =~= "u"@ + "int32"@);
    } else if u == "unsigned"@ {
        assert("unsigned"@.skip(8) =~= ""@);
        assert(x =~= ""@);
        assert(""@ != "bool"@) by { assert(""@.len() != "bool"@.len()); }
        assert(""@ != "float"@) by { assert(""@.len() != "float"@.len()); }
        assert(""@ != "double"@) by { assert(""@.len() != "double"@.len()); }
        assert(""@ != "int8"@) by { assert(""@.len() != "int8"@.len()); }
        assert(""@ != "int8_t"@) by { assert(""@.len() != "int8_t"@.len()); }
        assert(""@ != "signedchar"@) by { assert(""@.len() != "signedchar"@.len()); }
        assert(""@ != "int16"@) by { assert(""@.len() != "int16"@.len()); }
        assert(""@ != "int16_t"@) by { assert(""@.len() != "int16_t"@.len()); }
        assert(""@ != "short"@) by { assert(""@.len() != "short"@.len()); }
        assert(""@ != "int32"@) by { assert(""@.len() != "int32"@.len()); }
        assert(""@ != "int32_t"@) by { assert(""@.len() != "int32_t"@.len()); }
        assert(""@ != "int64"@) by { assert(""@.len() != "int64"@.len()); }
        assert(""@ != "int64_t"@) by { assert(""@.len() != "int64_t"@.len()); }
        assert(""@ != "long"@) by { assert(""@.len() != "long"@.len()); }
        assert(""@ != "longlong"@) by { assert(""@.len() != "longlong"@.len()); }
        assert(""@ != "uint8"@) by { assert(""@.len() != "uint8"@.len()); }
        assert(""@ != "uint8_t"@) by { assert(""@.len() != "uint8_t"@.len()); }
        assert(""@ != "unsignedchar"@) by { assert(""@.len() != "unsignedchar"@.len()); }
        assert(""@ != "uint16"@) by { assert(""@.len() != "uint16"@.len()); }
        assert(""@ != "uint16_t"@) by { assert(""@.len() != "uint16_t"@.len()); }
        assert(""@ != "unsignedshort"@) by { assert(""@.len() != "unsignedshort"@.len()); }
        assert(""@ != "uint32"@) by { assert(""@.len() != "uint32"@.len()); }
        assert(""@ != "uint32_t"@) by { assert(""@.len() != "uint32_t"@.len()); }
        assert(""@ != "unsignedint"@) by { assert(""@.len() != "unsignedint"@.len()); }
        assert(""@ != "unsigned"@) by { assert(""@.len() != "unsigned"@.len()); }
        assert(""@ != "int"@) by { assert(""@.len() != "int"@.len()); }
        assert(""@ != "uint64"@) by { assert(""@.len() != "uint64"@.len()); }
        assert(""@ != "uint64_t"@) by { assert(""@.len() != "uint64_t"@.len()); }
        assert(""@ != "unsignedlong"@) by { assert(""@.len() != "unsignedlong"@.len()); }
        assert(""@ != "unsignedlonglong"@) by { assert(""@.len() != "unsignedlonglong"@.len()); }
        assert(""@ != "size_t"@) by { assert(""@.len() != "size_t"@.len()); }
    } else if u == "int"@ {
        assert(!starts_with("int"@, "unsigned"@));
    } else if u == "uint64"@ {
        assert(!starts_with("uint64"@, "unsigned"@));
    } else if u == "uint64_t"@ {
        assert(!starts_with("uint64_t"@, "unsigned"@)) by { assert("uint64_t"@.subrange(0, 8)[1] != "unsigned"@[1]); }
    } else if u == "unsignedlong"@ {
        assert("unsignedlong"@.skip(8) =~= "long"@);
        assert(x =~= "long"@);
        assert("long"@ != "bool"@) by { assert("long"@[0] != "bool"@[0]); }
        assert("long"@ != "float"@) by { assert("long"@.len() != "float"@.len()); }
        assert("long"@ != "double"@) by { assert("long"@.len() != "double"@.len()); }
        assert("long"@ != "int8"@) by { assert("long"@[0] != "int8"@[0]); }
        assert("long"@ != "int8_t"@) by { assert("long"@.len() != "int8_t"@.len()); }
        assert("long"@ != "signedchar"@) by { assert("long"@.len() != "signedchar"@.len()); }
        assert("long"@ != "int16"@) by { assert("long"@.len() != "int16"@.len()); }
        assert("long"@ != "int16_t"@) by { assert("long"@.len() != "int16_t"@.len()); }
        assert("long"@ != "short"@) by { assert("long"@.len() != "short"@.len()); }
        assert("long"@ != "int32"@) by { assert("long"@.len() != "int32"@.len()); }
        assert("long"@ != "int32_t"@) by { assert("long"@.len() != "int32_t"@.len()); }
        assert("long"@ != "int64"@) by { assert("long"@.len() != "int64"@.len()); }
        assert("long"@ != "int64_t"@) by { assert("long"@.len() != "int64_t"@.len()); }
        assert(go_prim(x) == Some("int64"@));
        assert("uint64"@ =~= "u"@ + "int64"@);
    } else if u == "unsignedlonglong"@ {
        assert("unsignedlonglong"@.skip(8) =~= "longlong"@);
        assert(x =~= "longlong"@);
        assert("longlong"@ != "bool"@) by { assert("longlong"@.len() != "bool"@.len()); }
        assert("longlong"@ != "float"@) by { assert("longlong"@.len() != "float"@.len()); }
        assert("longlong"@ != "double"@) by { assert("longlong"@.len() != "double"@.len()); }
        assert("longlong"@ != "int8"@) by { assert("longlong"@.len() != "int8"@.len()); }
        assert("longlong"@ != "int8_t"@) by { assert("longlong"@.len() != "int8_t"@.len()); }
        assert("longlong"@ != "signedchar"@) by { assert("longlong"@.len() != "signedchar"@.len()); }
        assert("longlong"@ != "int16"@) by { assert("longlong"@.len() != "int16"@.len()); }
        assert("longlong"@ != "int16_t"@) by { assert("longlong"@.len() != "int16_t"@.len()); }
        assert("longlong"@ != "short"@) by { assert("longlong"@.len() != "short"@.len()); }
        assert("longlong"@ != "int32"@) by { assert("longlong"@.len() != "int32"@.len()); }
        assert("longlong"@ != "int32_t"@) by { assert("longlong"@.len() != "int32_t"@.len()); }
        assert("longlong"@ != "int64"@) by { assert("longlong"@.len() != "int64"@.len()); }
        assert("longlong"@ != "int64_t"@) by { assert("longlong"@.len() != "int64_t"@.len()); }
        assert("longlong"@ != "long"@) by { assert("longlong"@.len() != "long"@.len()); }
        assert(go_prim(x) == Some("int64"@));
        assert("uint64"@ =~= "u"@ + "int64"@);
    } else if u == "size_t"@ {
        assert(!starts_with("size_t"@, "unsigned"@));
    }
}


/// A fixed-width alias keeps its sign and width in C: `intN` is given the C type `intN_t`
/// and `uintN` the C type `uintN_t`, for N of 8, 16, 32 and 64.
#[verifier::rlimit(50)]
pub proof fn law_fixed_width_alias_c_type(unsigned: bool, w: Seq<char>)
    requires
        w == "8"@ || w == "16"@ || w == "32"@ || w == "64"@,
    ensures
        ({
            let n = (if unsigned { "uint"@ } else { "int"@ }) + w;
            &&& canonical_prim(n) == n + "_t"@
            &&& norm_literal(n) == Some(IrTypeV {
                kind: IrTypeKind::Primitive,
                cpp_type: n,
                c_type: n + "_t"@,
                handle: None,
            })
        }),
{
    reveal_strlit("16");
    reveal_strlit("32");
    reveal_strlit("64");
    reveal_strlit("8");
    reveal_strlit("_t");
    reveal_strlit("bool");
    reveal_strlit("char");
    reveal_strlit("const char");
    reveal_strlit("double");
    reveal_strlit("float");
    reveal_strlit("int");
    reveal_strlit("int16");
    reveal_strlit("int16_t");
    reveal_strlit("int32");
    reveal_strlit("int32_t");
    reveal_strlit("int64");
    reveal_strlit("int64_t");
    reveal_strlit("int8");
    reveal_strlit("int8_t");
    reveal_strlit("long");
    reveal_strlit("long long");
    reveal_strlit("short");
    reveal_strlit("signed char");
    reveal_strlit("size_t");
    reveal_strlit("uint");
    reveal_strlit("uint16");
    reveal_strlit("uint16_t");
    reveal_strlit("uint32");
    reveal_strlit("uint32_t");
    reveal_strlit("uint64");
    reveal_strlit("uint64_t");
    reveal_strlit("uint8");
    reveal_strlit("uint8_t");
    reveal_strlit("unsigned");
    reveal_strlit("unsigned char");
    reveal_strlit("unsigned int");
    reveal_strlit("unsigned long");
    reveal_strlit("unsigned long long");
    reveal_strlit("unsigned short");
    reveal_strlit("void");
    let n = (if unsigned { "uint"@ } else { "int"@ }) + w;
    if unsigned == true && w == "8"@ {
        assert(n =~= "uint8"@);
        assert("uint8"@ != "void"@) by { assert("uint8"@.len() != "void"@.len()); }
        assert("uint8"@ != "bool"@) by { assert("uint8"@.len() != "bool"@.len()); }
        assert("uint8"@ != "int"@) by { assert("uint8"@.len() != "int"@.len()); }
        assert("uint8"@ != "short"@) by { assert("uint8"@[0] != "short"@[0]); }
        assert("uint8"@ != "long"@) by { assert("uint8"@.len() != "long"@.len()); }
        assert("uint8"@ != "long long"@) by { assert("uint8"@.len() != "long long"@.len()); }
        assert("uint8"@ != "float"@) by { assert("uint8"@[0] != "float"@[0]); }
        assert("uint8"@ != "double"@) by { assert("uint8"@.len() != "double"@.len()); }
        assert("uint8"@ != "size_t"@) by { assert("uint8"@.len() != "size_t"@.len()); }
        assert("uint8"@ != "char"@) by { assert("uint8"@.len() != "char"@.len()); }
        assert("uint8"@ != "const char"@) by { assert("uint8"@.len() != "const char"@.len()); }
        assert("uint8"@ != "unsigned"@) by { assert("uint8"@.len() != "unsigned"@.len()); }
        assert("uint8"@ != "unsigned int"@) by { assert("uint8"@.len() != "unsigned int"@.len()); }
        assert("uint8"@ != "unsigned short"@) by { assert("uint8"@.len() != "unsigned short"@.len()); }
        assert("uint8"@ != "unsigned long"@) by { assert("uint8"@.len() != "unsigned long"@.len()); }
        assert("uint8"@ != "unsigned long long"@) by { assert("uint8"@.len() != "unsigned long long"@.len()); }
        assert("uint8"@ != "signed char"@) by { assert("uint8"@.len() != "signed char"@.len()); }
        assert("uint8"@ != "unsigned char"@) by { assert("uint8"@.len() != "unsigned char"@.len()); }
        assert("uint8"@ + "_t"@ =~= "uint8_t"@);
    } else if unsigned == false && w == "8"@ {
        assert(n =~= "int8"@);
        assert("int8"@ != "void"@) by { assert("int8"@[0] != "void"@[0]); }
        assert("int8"@ != "bool"@) by { assert("int8"@[0] != "bool"@[0]); }
        assert("int8"@ != "int"@) by { assert("int8"@.len() != "int"@.len()); }
        assert("int8"@ != "short"@) by { assert("int8"@.len() != "short"@.len()); }
        assert("int8"@ != "long"@) by { assert("int8"@[0] != "long"@[0]); }
        assert("int8"@ != "long long"@) by { assert("int8"@.len() != "long long"@.len()); }
        assert("int8"@ != "float"@) by { assert("int8"@.len() != "float"@.len()); }
        assert("int8"@ != "double"@) by { assert("int8"@.len() != "double"@.len()); }
        assert("int8"@ != "size_t"@) by { assert("int8"@.len() != "size_t"@.len()); }
        assert("int8"@ != "char"@) by { assert("int8"@[0] != "char"@[0]); }
        assert("int8"@ != "const char"@) by { assert("int8"@.len() != "const char"@.len()); }
        assert("int8"@ != "unsigned"@) by { assert("int8"@.len() != "unsigned"@.len()); }
        assert("int8"@ != "unsigned int"@) by { assert("int8"@.len() != "unsigned int"@.len()); }
        assert("int8"@ != "unsigned short"@) by { assert("int8"@.len() != "unsigned short"@.len()); }
        assert("int8"@ != "unsigned long"@) by { assert("int8"@.len() != "unsigned long"@.len()); }
        assert("int8"@ != "unsigned long long"@) by { assert("int8"@.len() != "unsigned long long"@.len()); }
        assert("int8"@ != "signed char"@) by { assert("int8"@.len() != "signed char"@.len()); }
        assert("int8"@ != "unsigned char"@) by { assert("int8"@.len() != "unsigned char"@.len()); }
        assert("int8"@ != "uint8"@) by { assert("int8"@.len() != "uint8"@.len()); }
        assert("int8"@ != "uint16"@) by { assert("int8"@.len() != "uint16"@.len()); }
        assert("int8"@ != "uint32"@) by { assert("int8"@.len() != "uint32"@.len()); }
        assert("int8"@ != "uint64"@) by { assert("int8"@.len() != "uint64"@.len()); }
        assert("int8"@ + "_t"@ =~= "int8_t"@);
    } else if unsigned == true && w == "16"@ {
        assert(n =~= "uint16"@);
        assert("uint16"@ != "void"@) by { assert("uint16"@.len() != "void"@.len()); }
        assert("uint16"@ != "bool"@) by { assert("uint16"@.len() != "bool"@.len()); }
        assert("uint16"@ != "int"@) by { assert("uint16"@.len() != "int"@.len()); }
        assert("uint16"@ != "short"@) by { assert("uint16"@.len() != "short"@.len()); }
        assert("uint16"@ != "long"@) by { assert("uint16"@.len() != "long"@.len()); }
        assert("uint16"@ != "long long"@) by { assert("uint16"@.len() != "long long"@.len()); }
        assert("uint16"@ != "float"@) by { assert("uint16"@.len() != "float"@.len()); }
        assert("uint16"@ != "double"@) by { assert("uint16"@[0] != "double"@[0]); }
        assert("uint16"@ != "size_t"@) by { assert("uint16"@[0] != "size_t"@[0]); }
        assert("uint16"@ != "char"@) by { assert("uint16"@.len() != "char"@.len()); }
        assert("uint16"@ != "const char"@) by { assert("uint16"@.len() != "const char"@.len()); }
        assert("uint16"@ != "unsigned"@) by { assert("uint16"@.len() != "unsigned"@.len()); }
        assert("uint16"@ != "unsigned int"@) by { assert("uint16"@.len() != "unsigned int"@.len()); }
        assert("uint16"@ != "unsigned short"@) by { assert("uint16"@.len() != "unsigned short"@.len()); }
        assert("uint16"@ != "unsigned long"@) by { assert("uint16"@.len() != "unsigned long"@.len()); }
        assert("uint16"@ != "unsigned long long"@) by { assert("uint16"@.len() != "unsigned long long"@.len()); }
        assert("uint16"@ != "signed char"@) by { assert("uint16"@.len() != "signed char"@.len()); }
        assert("uint16"@ != "unsigned char"@) by { assert("uint16"@.len() != "unsigned char"@.len()); }
        assert("uint16"@ != "uint8"@) by { assert("uint16"@.len() != "uint8"@.len()); }
        assert("uint16"@ + "_t"@ =~= "uint16_t"@);
    } else if unsigned == false && w == "16"@ {
        assert(n =~= "int16"@);
        assert("int16"@ != "void"@) by { assert("int16"@.len() != "void"@.len()); }
        assert("int16"@ != "bool"@) by { assert("int16"@.len() != "bool"@.len()); }
        assert("int16"@ != "int"@) by { assert("int16"@.len() != "int"@.len()); }
        assert("int16"@ != "short"@) by { assert("int16"@[0] != "short"@[0]); }
        assert("int16"@ != "long"@) by { assert("int16"@.len() != "long"@.len()); }
        assert("int16"@ != "long long"@) by { assert("int16"@.len() != "long long"@.len()); }
        assert("int16"@ != "float"@) by { assert("int16"@[0] != "float"@[0]); }
        assert("int16"@ != "double"@) by { assert("int16"@.len() != "double"@.len()); }
        assert("int16"@ != "size_t"@) by { assert("int16"@.len() != "size_t"@.len()); }
        assert("int16"@ != "char"@) by { assert("int16"@.len() != "char"@.len()); }
        assert("int16"@ != "const char"@) by { assert("int16"@.len() != "const char"@.len()); }
        assert("int16"@ != "unsigned"@) by { assert("int16"@.len() != "unsigned"@.len()); }
        assert("int16"@ != "unsigned int"@) by { assert("int16"@.len() != "unsigned int"@.len()); }
        assert("int16"@ != "unsigned short"@) by { assert("int16"@.len() != "unsigned short"@.len()); }
        assert("int16"@ != "unsigned long"@) by { assert("int16"@.len() != "unsigned long"@.len()); }
        assert("int16"@ != "unsigned long long"@) by { assert("int16"@.len() != "unsigned long long"@.len()); }
        assert("int16"@ != "signed char"@) by { assert("int16"@.len() != "signed char"@.len()); }
        assert("int16"@ != "unsigned char"@) by { assert("int16"@.len() != "unsigned char"@.len()); }
        assert("int16"@ != "uint8"@) by { assert("int16"@[0] != "uint8"@[0]); }
        assert("int16"@ != "uint16"@) by { assert("int16"@.len() != "uint16"@.len()); }
        assert("int16"@ != "uint32"@) by { assert("int16"@.len() != "uint32"@.len()); }
        assert("int16"@ != "uint64"@) by { assert("int16"@.len() != "uint64"@.len()); }
        assert("int16"@ != "int8"@) by { assert("int16"@.len() != "int8"@.len()); }
        assert("int16"@ + "_t"@ =~= "int16_t"@);
    } else if unsigned == true && w == "32"@ {
        assert(n =~= "uint32"@);
        assert("uint32"@ != "void"@) by { assert("uint32"@.len() != "void"@.len()); }
        assert("uint32"@ != "bool"@) by { assert("uint32"@.len() != "bool"@.len()); }
        assert("uint32"@ != "int"@) by { assert("uint32"@.len() != "int"@.len()); }
        assert("uint32"@ != "short"@) by { assert("uint32"@.len() != "short"@.len()); }
        assert("uint32"@ != "long"@) by { assert("uint32"@.len() != "long"@.len()); }
        assert("uint32"@ != "long long"@) by { assert("uint32"@.len() != "long long"@.len()); }
        assert("uint32"@ != "float"@) by { assert("uint32"@.len() != "float"@.len()); }
        assert("uint32"@ != "double"@) by { assert("uint32"@[0] != "double"@[0]); }
        assert("uint32"@ != "size_t"@) by { assert("uint32"@[0] != "size_t"@[0]); }
        assert("uint32"@ != "char"@) by { assert("uint32"@.len() != "char"@.len()); }
        assert("uint32"@ != "const char"@) by { assert("uint32"@.len() != "const char"@.len()); }
        assert("uint32"@ != "unsigned"@) by { assert("uint32"@.len() != "unsigned"@.len()); }
        assert("uint32"@ != "unsigned int"@) by { assert("uint32"@.len() != "unsigned int"@.len()); }
        assert("uint32"@ != "unsigned short"@) by { assert("uint32"@.len() != "unsigned short"@.len()); }
        assert("uint32"@ != "unsigned long"@) by { assert("uint32"@.len() != "unsigned long"@.len()); }
        assert("uint32"@ != "unsigned long long"@) by { assert("uint32"@.len() != "unsigned long long"@.len()); }
        assert("uint32"@ != "signed char"@) by { assert("uint32"@.len() != "signed char"@.len()); }
        assert("uint32"@ != "unsigned char"@) by { assert("uint32"@.len() != "unsigned char"@.len()); }
        assert("uint32"@ != "uint8"@) by { assert("uint32"@.len() != "uint8"@.len()); }
        assert("uint32"@ != "uint16"@) by { assert("uint32"@[4] != "uint16"@[4]); }
        assert("uint32"@ + "_t"@ =~= "uint32_t"@);
    } else if unsigned == false && w == "32"@ {
        assert(n =~= "int32"@);
        assert("int32"@ != "void"@) by { assert("int32"@.len() != "void"@.len()); }
        assert("int32"@ != "bool"@) by { assert("int32"@.len() != "bool"@.len()); }
        assert("int32"@ != "int"@) by { assert("int32"@.len() != "int"@.len()); }
        assert("int32"@ != "short"@) by { assert("int32"@[0] != "short"@[0]); }
        assert("int32"@ != "long"@) by { assert("int32"@.len() != "long"@.len()); }
        assert("int32"@ != "long long"@) by { assert("int32"@.len() != "long long"@.len()); }
        assert("int32"@ != "float"@) by { assert("int32"@[0] != "float"@[0]); }
        assert("int32"@ != "double"@) by { assert("int32"@.len() != "double"@.len()); }
        assert("int32"@ != "size_t"@) by { assert("int32"@.len() != "size_t"@.len()); }
        assert("int32"@ != "char"@) by { assert("int32"@.len() != "char"@.len()); }
        assert("int32"@ != "const char"@) by { assert("int32"@.len() != "const char"@.len()); }
        assert("int32"@ != "unsigned"@) by { assert("int32"@.len() != "unsigned"@.len()); }
        assert("int32"@ != "unsigned int"@) by { assert("int32"@.len() != "unsigned int"@.len()); }
        assert("int32"@ != "unsigned short"@) by { assert("int32"@.len() != "unsigned short"@.len()); }
        assert("int32"@ != "unsigned long"@) by { assert("int32"@.len() != "unsigned long"@.len()); }
        assert("int32"@ != "unsigned long long"@) by { assert("int32"@.len() != "unsigned long long"@.len()); }
        assert("int32"@ != "signed char"@) by { assert("int32"@.len() != "signed char"@.len()); }
        assert("int32"@ != "unsigned char"@) by { assert("int32"@.len() != "unsigned char"@.len()); }
        assert("int32"@ != "uint8"@) by { assert("int32"@[0] != "uint8"@[0]); }
        assert("int32"@ != "uint16"@) by { assert("int32"@.len() != "uint16"@.len()); }
        assert("int32"@ != "uint32"@) by { assert("int32"@.len() != "uint32"@.len()); }
        assert("int32"@ != "uint64"@) by { assert("int32"@.len() != "uint64"@.len()); }
        assert("int32"@ != "int8"@) by { assert("int32"@.len() != "int8"@.len()); }
        assert("int32"@ != "int16"@) by { assert("int32"@[3] != "int16"@[3]); }
        assert("int32"@ + "_t"@ =~= "int32_t"@);
    } else if unsigned == true && w == "64"@ {
        assert(n =~= "uint64"@);
        assert("uint64"@ != "void"@) by { assert("uint64"@.len() != "void"@.len()); }
        assert("uint64"@ != "bool"@) by { assert("uint64"@.len() != "bool"@.len()); }
        assert("uint64"@ != "int"@) by { assert("uint64"@.len() != "int"@.len()); }
        assert("uint64"@ != "short"@) by { assert("uint64"@.len() != "short"@.len()); }
        assert("uint64"@ != "long"@) by { assert("uint64"@.len() != "long"@.len()); }
        assert("uint64"@ != "long long"@) by { assert("uint64"@.len() != "long long"@.len()); }
        assert("uint64"@ != "float"@) by { assert("uint64"@.len() != "float"@.len()); }
        assert("uint64"@ != "double"@) by { assert("uint64"@[0] != "double"@[0]); }
        assert("uint64"@ != "size_t"@) by { assert("uint64"@[0] != "size_t"@[0]); }
        assert("uint64"@ != "char"@) by { assert("uint64"@.len() != "char"@.len()); }
        assert("uint64"@ != "const char"@) by { assert("uint64"@.len() != "const char"@.len()); }
        assert("uint64"@ != "unsigned"@) by { assert("uint64"@.len() != "unsigned"@.len()); }
        assert("uint64"@ != "unsigned int"@) by { assert("uint64"@.len() != "unsigned int"@.len()); }
        assert("uint64"@ != "unsigned short"@) by { assert("uint64"@.len() != "unsigned short"@.len()); }
        assert("uint64"@ != "unsigned long"@) by { assert("uint64"@.len() != "unsigned long"@.len()); }
        assert("uint64"@ != "unsigned long long"@) by { assert("uint64"@.len() != "unsigned long long"@.len()); }
        assert("uint64"@ != "signed char"@) by { assert("uint64"@.len() != "signed char"@.len()); }
        assert("uint64"@ != "unsigned char"@) by { assert("uint64"@.len() != "unsigned char"@.len()); }
        assert("uint64"@ != "uint8"@) by { assert("uint64"@.len() != "uint8"@.len()); }
        assert("uint64"@ != "uint16"@) by { assert("uint64"@[4] != "uint16"@[4]); }
        assert("uint64"@ != "uint32"@) by { assert("uint64"@[4] != "uint32"@[4]); }
        assert("uint64"@ + "_t"@ =~= "uint64_t"@);
    } else if unsigned == false && w == "64"@ {
        assert(n =~= "int64"@);
        assert("int64"@ != "void"@) by { assert("int64"@.len() != "void"@.len()); }
        assert("int64"@ != "bool"@) by { assert("int64"@.len() != "bool"@.len()); }
        assert("int64"@ != "int"@) by { assert("int64"@.len() != "int"@.len()); }
        assert("int64"@ != "short"@) by { assert("int64"@[0] != "short"@[0]); }
        assert("int64"@ != "long"@) by { assert("int64"@.len() != "long"@.len()); }
        assert("int64"@ != "long long"@) by { assert("int64"@.len() != "long long"@.len()); }
        assert("int64"@ != "float"@) by { assert("int64"@[0] != "float"@[0]); }
        assert("int64"@ != "double"@) by { assert("int64"@.len() != "double"@.len()); }
        assert("int64"@ != "size_t"@) by { assert("int64"@.len() != "size_t"@.len()); }
        assert("int64"@ != "char"@) by { assert("int64"@.len() != "char"@.len()); }
        assert("int64"@ != "const char"@) by { assert("int64"@.len() != "const char"@.len()); }
        assert("int64"@ != "unsigned"@) by { assert("int64"@.len() != "unsigned"@.len()); }
        assert("int64"@ != "unsigned int"@) by { assert("int64"@.len() != "unsigned int"@.len()); }
        assert("int64"@ != "unsigned short"@) by { assert("int64"@.len() != "unsigned short"@.len()); }
        assert("int64"@ != "unsigned long"@) by { assert("int64"@.len() != "unsigned long"@.len()); }
        assert("int64"@ != "unsigned long long"@) by { assert("int64"@.len() != "unsigned long long"@.len()); }
        assert("int64"@ != "signed char"@) by { assert("int64"@.len() != "signed char"@.len()); }
        assert("int64"@ != "unsigned char"@) by { assert("int64"@.len() != "unsigned char"@.len()); }
        assert("int64"@ != "uint8"@) by { assert("int64"@[0] != "uint8"@[0]); }
        assert("int64"@ != "uint16"@) by { assert("int64"@.len() != "uint16"@.len()); }
        assert("int64"@ != "uint32"@) by { assert("int64"@.len() != "uint32"@.len()); }
        assert("int64"@ != "uint64"@) by { assert("int64"@.len() != "uint64"@.len()); }
        assert("int64"@ != "int8"@) by { assert("int64"@.len() != "int8"@.len()); }
        assert("int64"@ != "int16"@) by { assert("int64"@[3] != "int16"@[3]); }
        assert("int64"@ != "int32"@) by { assert("int64"@[3] != "int32"@[3]); }
        assert("int64"@ + "_t"@ =~= "int64_t"@);
    }
}


/// A projected model field holding a C string or a `std::string` has the Go type `string`,
/// the Go type the facade gives the same IR type.
pub proof fn law_text_field_types_match_facade(ctx: PipelineContextV, t: IrTypeV)
    requires
        t.kind == IrTypeKind::String || t.kind == IrTypeKind::CString,
    ensures
        field_type(ctx, t) == go_value(ctx, t),
        go_value(ctx, t) == Some("string"@),
{
}

proof fn lemma_scan_text_fields(ctx: PipelineContextV, ms: Seq<IrFunctionV>, n: int)
    ensures
        forall|i: int| 0 <= i < scan_fields(ctx, ms, n).0.len() && (#[trigger] scan_fields(ctx, ms, n).0[i].return_kind
            == IrTypeKind::String || scan_fields(ctx, ms, n).0[i].return_kind == IrTypeKind::CString)
            ==> scan_fields(ctx, ms, n).0[i].go_type == "string"@,
    decreases n,
{
    if n > 0 {
        lemma_scan_text_fields(ctx, ms, n - 1);
        let prev = scan_fields(ctx, ms, n - 1);
        let f = ms[n - 1];
        if f.returns.kind == IrTypeKind::String || f.returns.kind == IrTypeKind::CString {
            law_text_field_types_match_facade(ctx, f.returns);
        }
        let cur = scan_fields(ctx, ms, n);
        assert forall|i: int| 0 <= i < cur.0.len() && (#[trigger] cur.0[i].return_kind == IrTypeKind::String
            || cur.0[i].return_kind == IrTypeKind::CString) implies cur.0[i].go_type == "string"@ by {
            if i < prev.0.len() && cur.0.len() > prev.0.len() {
                assert(cur.0[i] == prev.0[i]);
            }
        }
    }
}

/// Every field of a model projection whose getter returns a C string or a `std::string`
/// is exposed in Go as `string`.
pub proof fn law_projected_text_fields_are_go_strings(ctx: PipelineContextV, ms: Seq<IrFunctionV>, i: int)
    requires
        0 <= i < projected_fields(ctx, ms).len(),
        projected_fields(ctx, ms)[i].return_kind == IrTypeKind::String
            || projected_fields(ctx, ms)[i].return_kind == IrTypeKind::CString,
    ensures
        projected_fields(ctx, ms)[i].go_type == "string"@,
{
    lemma_scan_text_fields(ctx, ms, ms.len() as int);
}

/// A field type that gets struct accessors: a primitive, an enum, a model value, a C
/// string, or a byte, primitive or model array.
pub open spec fn accessible_field_kind(k: IrTypeKind) -> bool {
    ||| k == IrTypeKind::Primitive
    ||| k == IrTypeKind::Enum
    ||| k == IrTypeKind::ModelValue
    ||| k == IrTypeKind::CString
    ||| k == IrTypeKind::FixedByteArray
    ||| k == IrTypeKind::FixedArray
    ||| k == IrTypeKind::FixedModelArray
}

/// The field conditions under which accessors are owed.
pub open spec fn accessors_owed(methods: Seq<Seq<char>>, f: CppFieldV, env: TypeEnv, ft: IrTypeV) -> bool {
    &&& !f.is_function_pointer
    &&& !methods.contains("Get"@ + accessor_suffix(f.name))
    &&& ntype(f.ty, f.canonical_ty, env) == Ok::<IrTypeV, Seq<char>>(ft)
    &&& accessible_field_kind(ft.kind)
}

/// A getter of field `name` returning `ft` (a model value is returned by pointer).
pub open spec fn is_getter_of(g: IrFunctionV, ns: Seq<Seq<char>>, owner: Seq<char>, name: Seq<char>, ft: IrTypeV) -> bool {
    &&& g.name == sym(ns, owner, "Get"@ + accessor_suffix(name))
    &&& g.field_accessor == Some(IrFieldAccessorV { field_name: name, access: FieldAccessKind::Get, array_len: None })
    &&& (ft.kind != IrTypeKind::ModelValue ==> g.returns == ft)
}

/// A setter of field `name` taking `ft`.
pub open spec fn is_setter_of(s: IrFunctionV, ns: Seq<Seq<char>>, owner: Seq<char>, name: Seq<char>, ft: IrTypeV) -> bool {
    &&& s.name == sym(ns, owner, "Set"@ + accessor_suffix(name))
    &&& s.field_accessor == Some(IrFieldAccessorV { field_name: name, access: FieldAccessKind::Put, array_len: None })
    &&& s.params.len() == 2
    &&& s.params[1].ty == ft
}

proof fn lemma_field_accessors(
    ns: Seq<Seq<char>>,
    owner: Seq<char>,
    h: Seq<char>,
    methods: Seq<Seq<char>>,
    f: CppFieldV,
    env: TypeEnv,
    ft: IrTypeV,
)
    requires
        accessors_owed(methods, f, env, ft),
    ensures
        exists|i: int| 0 <= i < field_fns(ns, owner, h, methods, f, env).len()
            && is_getter_of(#[trigger] field_fns(ns, owner, h, methods, f, env)[i], ns, owner, f.name, ft),
        !methods.contains("Set"@ + accessor_suffix(f.name)) && !read_only(f) ==> exists|i: int|
            0 <= i < field_fns(ns, owner, h, methods, f, env).len()
            && is_setter_of(#[trigger] field_fns(ns, owner, h, methods, f, env)[i], ns, owner, f.name, ft),
{
    let r = field_fns(ns, owner, h, methods, f, env);
    assert(is_getter_of(r[0], ns, owner, f.name, ft));
    if !methods.contains("Set"@ + accessor_suffix(f.name)) && !read_only(f) {
        let j = if ft.kind == IrTypeKind::FixedModelArray { 2int } else { 1int };
        assert(is_setter_of(r[j], ns, owner, f.name, ft));
    }
}

/// Every field that is not a function pointer, whose type is a primitive, an enum, a
/// model value, a C string or a byte, primitive or model array, and that has no declared
/// `Get<X>`, gets a getter among the record's accessors; and a setter too, unless the
/// field is const or a `Set<X>` is declared.
pub proof fn law_supported_fields_get_accessors(
    ns: Seq<Seq<char>>,
    owner: Seq<char>,
    h: Seq<char>,
    methods: Seq<Seq<char>>,
    fs: Seq<CppFieldV>,
    env: TypeEnv,
    k: int,
    ft: IrTypeV,
)
    requires
        0 <= k < fs.len(),
        accessors_owed(methods, fs[k], env, ft),
    ensures
        exists|i: int| 0 <= i < fields_fns(ns, owner, h, methods, fs, env).len()
            && is_getter_of(#[trigger] fields_fns(ns, owner, h, methods, fs, env)[i], ns, owner, fs[k].name, ft),
        !methods.contains("Set"@ + accessor_suffix(fs[k].name)) && !read_only(fs[k]) ==> exists|i: int|
            0 <= i < fields_fns(ns, owner, h, methods, fs, env).len()
            && is_setter_of(#[trigger] fields_fns(ns, owner, h, methods, fs, env)[i], ns, owner, fs[k].name, ft),
    decreases fs.len(),
{
    let r = fields_fns(ns, owner, h, methods, fs, env);
    let pre = fields_fns(ns, owner, h, methods, fs.drop_last(), env);
    let last = field_fns(ns, owner, h, methods, fs.last(), env);
    assert(r == pre + last);
    if k == fs.len() - 1 {
        lemma_field_accessors(ns, owner, h, methods, fs.last(), env, ft);
        let i = choose|i: int| 0 <= i < last.len() && is_getter_of(#[trigger] last[i], ns, owner, fs[k].name, ft);
        assert(r[pre.len() + i] == last[i]);
        if !methods.contains("Set"@ + accessor_suffix(fs[k].name)) && !read_only(fs[k]) {
            let j = choose|j: int| 0 <= j < last.len() && is_setter_of(#[trigger] last[j], ns, owner, fs[k].name, ft);
            assert(r[pre.len() + j] == last[j]);
        }
    } else {
        assert(fs.drop_last()[k] == fs[k]);
        law_supported_fields_get_accessors(ns, owner, h, methods, fs.drop_last(), env, k, ft);
        let i = choose|i: int| 0 <= i < pre.len() && is_getter_of(#[trigger] pre[i], ns, owner, fs[k].name, ft);
        assert(r[i] == pre[i]);
        if !methods.contains("Set"@ + accessor_suffix(fs[k].name)) && !read_only(fs[k]) {
            let j = choose|j: int| 0 <= j < pre.len() && is_setter_of(#[trigger] pre[j], ns, owner, fs[k].name, ft);
            assert(r[j] == pre[j]);
        }
    }
}


/// The value of a hexadecimal digit as Go reads it in a `\x` escape.
pub open spec fn go_hex_digit(c: char) -> Option<int> {
    if '0' <= c && c <= '9' {
        Some(c as int - 48)
    } else if 'a' <= c && c <= 'f' {
        Some(c as int - 87)
    } else if 'A' <= c && c <= 'F' {
        Some(c as int - 55)
    } else {
        None
    }
}

/// The byte a one-character Go escape (`\n`, `\r`, `\t`, `\"`, `\\`) stands for.
pub open spec fn go_simple_escape(c: char) -> Option<u8> {
    if c == 'n' {
        Some(10u8)
    } else if c == 'r' {
        Some(13u8)
    } else if c == 't' {
        Some(9u8)
    } else if c == '"' {
        Some(34u8)
    } else if c == '\\' {
        Some(92u8)
    } else {
        None
    }
}

/// The bytes a Go interpreted string literal body denotes, read from the left: the
/// escapes `\n`, `\r`, `\t`, `\"`, `\\` and `\xHH`, and each printable ASCII character
/// standing for itself. None where a `"` or `\` stands unescaped, or another character
/// occurs.
pub open spec fn go_string_bytes(s: Seq<char>) -> Option<Seq<u8>>
    decreases s.len(),
{
    if s.len() == 0 {
        Some(seq![])
    } else if s[0] == '\\' {
        if s.len() >= 2 && go_simple_escape(s[1]) is Some {
            match go_string_bytes(s.skip(2)) {
                Some(r) => Some(seq![go_simple_escape(s[1])->0] + r),
                None => None,
            }
        } else if s.len() >= 4 && s[1] == 'x' && go_hex_digit(s[2]) is Some && go_hex_digit(s[3]) is Some {
            match go_string_bytes(s.skip(4)) {
                Some(r) => Some(seq![(go_hex_digit(s[2])->0 * 16 + go_hex_digit(s[3])->0) as u8] + r),
                None => None,
            }
        } else {
            None
        }
    } else if s[0] == '"' || (s[0] as u32) < 0x20 || (s[0] as u32) > 0x7e {
        None
    } else {
        match go_string_bytes(s.skip(1)) {
            Some(r) => Some(seq![(s[0] as u32) as u8] + r),
            None => None,
        }
    }
}

/// The bytes a Go interpreted string literal (quotes included) denotes.
pub open spec fn go_unquote(lit: Seq<char>) -> Option<Seq<u8>> {
    if lit.len() >= 2 && lit[0] == '"' && lit.last() == '"' {
        go_string_bytes(lit.subrange(1, lit.len() - 1))
    } else {
        None
    }
}

proof fn lemma_body_front(bs: Seq<u8>)
    requires
        bs.len() > 0,
    ensures
        go_bytes_body(bs) == byte_repr(bs[0]) + go_bytes_body(bs.drop_first()),
    decreases bs.len(),
{
    if bs.len() == 1 {
        assert(bs.drop_last() =~= Seq::<u8>::empty());
        assert(bs.drop_first() =~= Seq::<u8>::empty());
        assert(go_bytes_body(bs) =~= byte_repr(bs[0]) + go_bytes_body(bs.drop_first()));
    } else {
        lemma_body_front(bs.drop_last());
        assert(bs.drop_last().drop_first() =~= bs.drop_first().drop_last());
        assert(bs.drop_first().last() == bs.last());
        assert(bs.drop_last()[0] == bs[0]);
        assert(go_bytes_body(bs) =~= byte_repr(bs[0]) + go_bytes_body(bs.drop_first()));
    }
}

proof fn lemma_hex_digit_reads_back(d: int)
    requires
        0 <= d < 16,
    ensures
        go_hex_digit(hex_digit_char(d)) == Some(d),
{
}

proof fn lemma_repr_step(b: u8, rest: Seq<char>)
    ensures
        go_string_bytes(byte_repr(b) + rest) == match go_string_bytes(rest) {
            Some(r) => Some(seq![b] + r),
            None => None::<Seq<u8>>,
        },
{
    let s = byte_repr(b) + rest;
    let n = byte_repr(b).len() as int;
    assert(s.skip(n) =~= rest);
    if b == 10 || b == 13 || b == 9 || b == 34 || b == 92 {
        assert(s[0] == '\\');
        assert(go_simple_escape(s[1]) == Some(b));
    } else if 0x20 <= b <= 0x7e {
        assert(s[0] == b as char);
        assert(((b as char) as u32) as u8 == b);
    } else {
        lemma_hex_digit_reads_back(b as int / 16);
        lemma_hex_digit_reads_back(b as int % 16);
        assert(s[0] == '\\' && s[1] == 'x');
        assert(go_simple_escape(s[1]) is None);
        assert((b as int / 16) * 16 + b as int % 16 == b as int);
    }
}

proof fn lemma_body_reads_back(bs: Seq<u8>)
    ensures
        go_string_bytes(go_bytes_body(bs)) == Some(bs),
    decreases bs.len(),
{
    if bs.len() == 0 {
        assert(go_bytes_body(bs) =~= Seq::<char>::empty());
    } else {
        lemma_body_front(bs);
        lemma_body_reads_back(bs.drop_first());
        lemma_repr_step(bs[0], go_bytes_body(bs.drop_first()));
        assert(seq![bs[0]] + bs.drop_first() =~= bs);
    }
}

/// The Go string literal made from decoded bytes denotes exactly those bytes: reading it
/// back as Go does gives the bytes it was made from (a backslash is written doubled, a
/// quote escaped, other bytes outside printable ASCII as `\xHH`).
pub proof fn law_go_byte_string_reads_back(bs: Seq<u8>)
    ensures
        go_unquote(go_quoted(bs)) == Some(bs),
{
    let q = go_quoted(bs);
    assert(q.subrange(1, q.len() - 1) =~= go_bytes_body(bs));
    lemma_body_reads_back(bs);
}


/// The cgo conversion type of a C primitive is unsigned exactly when the C spelling is.
#[verifier::rlimit(50)]
pub proof fn law_cgo_type_keeps_signedness(k: Seq<char>)
    requires
        cgo_prim(k) is Some,
    ensures
        (starts_with(cgo_prim(k)->0, "C.u"@) || cgo_prim(k)->0 == "C.size_t"@) <==> unsigned_spelling(k),
{
    reveal_strlit("C.");
    reveal_strlit("C.bool");
    reveal_strlit("C.double");
    reveal_strlit("C.float");
    reveal_strlit("C.int");
    reveal_strlit("C.int16_t");
    reveal_strlit("C.int32_t");
    reveal_strlit("C.int64_t");
    reveal_strlit("C.int8_t");
    reveal_strlit("C.long");
    reveal_strlit("C.longlong");
    reveal_strlit("C.size_t");
    reveal_strlit("C.u");
    reveal_strlit("C.uint16_t");
    reveal_strlit("C.uint32_t");
    reveal_strlit("C.uint64_t");
    reveal_strlit("C.uint8_t");
    reveal_strlit("C.ulong");
    reveal_strlit("C.ulonglong");
    reveal_strlit("_t");
    reveal_strlit("bool");
    reveal_strlit("double");
    reveal_strlit("float");
    reveal_strlit("int");
    reveal_strlit("int16");
    reveal_strlit("int16_t");
    reveal_strlit("int32");
    reveal_strlit("int32_t");
    reveal_strlit("int64");
    reveal_strlit("int64_t");
    reveal_strlit("int8");
    reveal_strlit("int8_t");
    reveal_strlit("long");
    reveal_strlit("longlong");
    reveal_strlit("short");
    reveal_strlit("signedchar");
    reveal_strlit("signedlonglong");
    reveal_strlit("size_t");
    reveal_strlit("uint");
    reveal_strlit("uint16");
    reveal_strlit("uint16_t");
    reveal_strlit("uint32");
    reveal_strlit("uint32_t");
    reveal_strlit("uint64");
    reveal_strlit("uint64_t");
    reveal_strlit("uint8");
    reveal_strlit("uint8_t");
    reveal_strlit("unsigned");
    reveal_strlit("unsignedchar");
    reveal_strlit("unsignedint");
    reveal_strlit("unsignedlong");
    reveal_strlit("unsignedlonglong");
    reveal_strlit("unsignedshort");
    if k == "bool"@ {
        assert(cgo_prim(k) == Some("C.bool"@));
        assert(!starts_with("C.bool"@, "C.u"@)) by { assert("C.bool"@.subrange(0, 3)[2] != "C.u"@[2]); }
        assert("C.bool"@ != "C.size_t"@) by { assert("C.bool"@.len() != "C.size_t"@.len()); }
        assert(!starts_with("bool"@, "uint"@)) by { assert("bool"@.subrange(0, 4)[0] != "uint"@[0]); }
        assert(!starts_with("bool"@, "unsigned"@));
        assert("bool"@ != "size_t"@) by { assert("bool"@.len() != "size_t"@.len()); }
    } else if k == "float"@ {
        assert(cgo_prim(k) == Some("C.float"@));
        assert(!starts_with("C.float"@, "C.u"@)) by { assert("C.float"@.subrange(0, 3)[2] != "C.u"@[2]); }
        assert("C.float"@ != "C.size_t"@) by { assert("C.float"@.len() != "C.size_t"@.len()); }
        assert(!starts_with("float"@, "uint"@)) by { assert("float"@.subrange(0, 4)[0] != "uint"@[0]); }
        assert(!starts_with("float"@, "unsigned"@));
        assert("float"@ != "size_t"@) by { assert("float"@.len() != "size_t"@.len()); }
    } else if k == "double"@ {
        assert(cgo_prim(k) == Some("C.double"@));
        assert(!starts_with("C.double"@, "C.u"@)) by { assert("C.double"@.subrange(0, 3)[2] != "C.u"@[2]); }
        assert("C.double"@ != "C.size_t"@) by { assert("C.double"@[2] != "C.size_t"@[2]); }
        assert(!starts_with("double"@, "uint"@)) by { assert("double"@.subrange(0, 4)[0] != "uint"@[0]); }
        assert(!starts_with("double"@, "unsigned"@));
        assert("double"@ != "size_t"@) by { assert("double"@[0] != "size_t"@[0]); }
    } else if k == "int8"@ {
        assert(cgo_prim(k) == Some("C.int8_t"@));
        assert(!starts_with("C.int8_t"@, "C.u"@)) by { assert("C.int8_t"@.subrange(0, 3)[2] != "C.u"@[2]); }
        assert("C.int8_t"@ != "C.size_t"@) by { assert("C.int8_t"@[2] != "C.size_t"@[2]); }
        assert(!starts_with("int8"@, "uint"@)) by { assert("int8"@.subrange(0, 4)[0] != "uint"@[0]); }
        assert(!starts_with("int8"@, "unsigned"@));
        assert("int8"@ != "size_t"@) by { assert("int8"@.len() != "size_t"@.len()); }
    } else if k == "int8_t"@ {
        assert(cgo_prim(k) == Some("C.int8_t"@));
        assert(!starts_with("C.int8_t"@, "C.u"@)) by { assert("C.int8_t"@.subrange(0, 3)[2] != "C.u"@[2]); }
        assert("C.int8_t"@ != "C.size_t"@) by { assert("C.int8_t"@[2] != "C.size_t"@[2]); }
        assert(!starts_with("int8_t"@, "uint"@)) by { assert("int8_t"@.subrange(0, 4)[0] != "uint"@[0]); }
        assert(!starts_with("int8_t"@, "unsigned"@));
        assert("int8_t"@ != "size_t"@) by { assert("int8_t"@[0] != "size_t"@[0]); }
    } else if k == "signedchar"@ {
        assert(cgo_prim(k) == Some("C.int8_t"@));
        assert(!starts_with("C.int8_t"@, "C.u"@)) by { assert("C.int8_t"@.subrange(0, 3)[2] != "C.u"@[2]); }
        assert("C.int8_t"@ != "C.size_t"@) by { assert("C.int8_t"@[2] != "C.size_t"@[2]); }
        assert(!starts_with("signedchar"@, "uint"@)) by { assert("signedchar"@.subrange(0, 4)[0] != "uint"@[0]); }
        assert(!starts_with("signedchar"@, "unsigned"@)) by { assert("signedchar"@.subrange(0, 8)[0] != "unsigned"@[0]); }
        assert("signedchar"@ != "size_t"@) by { assert("signedchar"@.len() != "size_t"@.len()); }
    } else if k == "int16"@ {
        assert(cgo_prim(k) == Some("C.int16_t"@));
        assert(!starts_with("C.int16_t"@, "C.u"@)) by { assert("C.int16_t"@.subrange(0, 3)[2] != "C.u"@[2]); }
        assert("C.int16_t"@ != "C.size_t"@) by { assert("C.int16_t"@.len() != "C.size_t"@.len()); }
        assert(!starts_with("int16"@, "uint"@)) by { assert("int16"@.subrange(0, 4)[0] != "uint"@[0]); }
        assert(!starts_with("int16"@, "unsigned"@));
        assert("int16"@ != "size_t"@) by { assert("int16"@.len() != "size_t"@.len()); }
    } else if k == "int16_t"@ {
        assert(cgo_prim(k) == Some("C.int16_t"@));
        assert(!starts_with("C.int16_t"@, "C.u"@)) by { assert("C.int16_t"@.subrange(0, 3)[2] != "C.u"@[2]); }
        assert("C.int16_t"@ != "C.size_t"@) by { assert("C.int16_t"@.len() != "C.size_t"@.len()); }
        assert(!starts_with("int16_t"@, "uint"@)) by { assert("int16_t"@.subrange(0, 4)[0] != "uint"@[0]); }
        assert(!starts_with("int16_t"@, "unsigned"@));
        assert("int16_t"@ != "size_t"@) by { assert("int16_t"@.len() != "size_t"@.len()); }
    } else if k == "short"@ {
        assert(cgo_prim(k) == Some("C.int16_t"@));
        assert(!starts_with("C.int16_t"@, "C.u"@)) by { assert("C.int16_t"@.subrange(0, 3)[2] != "C.u"@[2]); }
        assert("C.int16_t"@ != "C.size_t"@) by { assert("C.int16_t"@.len() != "C.size_t"@.len()); }
        assert(!starts_with("short"@, "uint"@)) by { assert("short"@.subrange(0, 4)[0] != "uint"@[0]); }
        assert(!starts_with("short"@, "unsigned"@));
        assert("short"@ != "size_t"@) by { assert("short"@.len() != "size_t"@.len()); }
    } else if k == "int32"@ {
        assert(cgo_prim(k) == Some("C.int32_t"@));
        assert(!starts_with("C.int32_t"@, "C.u"@)) by { assert("C.int32_t"@.subrange(0, 3)[2] != "C.u"@[2]); }
        assert("C.int32_t"@ != "C.size_t"@) by { assert("C.int32_t"@.len() != "C.size_t"@.len()); }
        assert(!starts_with("int32"@, "uint"@)) by { assert("int32"@.subrange(0, 4)[0] != "uint"@[0]); }
        assert(!starts_with("int32"@, "unsigned"@));
        assert("int32"@ != "size_t"@) by { assert("int32"@.len() != "size_t"@.len()); }
    } else if k == "int32_t"@ {
        assert(cgo_prim(k) == Some("C.int32_t"@));
        assert(!starts_with("C.int32_t"@, "C.u"@)) by { assert("C.int32_t"@.subrange(0, 3)[2] != "C.u"@[2]); }
        assert("C.int32_t"@ != "C.size_t"@) by { assert("C.int32_t"@.len() != "C.size_t"@.len()); }
        assert(!starts_with("int32_t"@, "uint"@)) by { assert("int32_t"@.subrange(0, 4)[0] != "uint"@[0]); }
        assert(!starts_with("int32_t"@, "unsigned"@));
        assert("int32_t"@ != "size_t"@) by { assert("int32_t"@.len() != "size_t"@.len()); }
    } else if k == "int64"@ {
        assert(cgo_prim(k) == Some("C.int64_t"@));
        assert(!starts_with("C.int64_t"@, "C.u"@)) by { assert("C.int64_t"@.subrange(0, 3)[2] != "C.u"@[2]); }
        assert("C.int64_t"@ != "C.size_t"@) by { assert("C.int64_t"@.len() != "C.size_t"@.len()); }
        assert(!starts_with("int64"@, "uint"@)) by { assert("int64"@.subrange(0, 4)[0] != "uint"@[0]); }
        assert(!starts_with("int64"@, "unsigned"@));
        assert("int64"@ != "size_t"@) by { assert("int64"@.len() != "size_t"@.len()); }
    } else if k == "int64_t"@ {
        assert(cgo_prim(k) == Some("C.int64_t"@));
        assert(!starts_with("C.int64_t"@, "C.u"@)) by { assert("C.int64_t"@.subrange(0, 3)[2] != "C.u"@[2]); }
        assert("C.int64_t"@ != "C.size_t"@) by { assert("C.int64_t"@.len() != "C.size_t"@.len()); }
        assert(!starts_with("int64_t"@, "uint"@)) by { assert("int64_t"@.subrange(0, 4)[0] != "uint"@[0]); }
        assert(!starts_with("int64_t"@, "unsigned"@));
        assert("int64_t"@ != "size_t"@) by { assert("int64_t"@.len() != "size_t"@.len()); }
    } else if k == "uint8"@ {
        assert(cgo_prim(k) == Some("C.uint8_t"@));
        assert(starts_with("C.uint8_t"@, "C.u"@)) by { assert("C.uint8_t"@.subrange(0, 3) =~= "C.u"@); }
        assert("C.uint8_t"@ != "C.size_t"@) by { assert("C.uint8_t"@.len() != "C.size_t"@.len()); }
        assert(starts_with("uint8"@, "uint"@)) by { assert("uint8"@.subrange(0, 4) =~= "uint"@); }
        assert(!starts_with("uint8"@, "unsigned"@));
        assert("uint8"@ != "size_t"@) by { assert("uint8"@.len() != "size_t"@.len()); }
    } else if k == "uint8_t"@ {
        assert(cgo_prim(k) == Some("C.uint8_t"@));
        assert(starts_with("C.uint8_t"@, "C.u"@)) by { assert("C.uint8_t"@.subrange(0, 3) =~= "C.u"@); }
        assert("C.uint8_t"@ != "C.size_t"@) by { assert("C.uint8_t"@.len() != "C.size_t"@.len()); }
        assert(starts_with("uint8_t"@, "uint"@)) by { assert("uint8_t"@.subrange(0, 4) =~= "uint"@); }
        assert(!starts_with("uint8_t"@, "unsigned"@));
        assert("uint8_t"@ != "size_t"@) by { assert("uint8_t"@.len() != "size_t"@.len()); }
    } else if k == "unsignedchar"@ {
        assert(cgo_prim(k) == Some("C.uint8_t"@));
        assert(starts_with("C.uint8_t"@, "C.u"@)) by { assert("C.uint8_t"@.subrange(0, 3) =~= "C.u"@); }
        assert("C.uint8_t"@ != "C.size_t"@) by { assert("C.uint8_t"@.len() != "C.size_t"@.len()); }
        assert(!starts_with("unsignedchar"@, "uint"@)) by { assert("unsignedchar"@.subrange(0, 4)[1] != "uint"@[1]); }
        assert(starts_with("unsignedchar"@, "unsigned"@)) by { assert("unsignedchar"@.subrange(0, 8) =~= "unsigned"@); }
        assert("unsignedchar"@ != "size_t"@) by { assert("unsignedchar"@.len() != "size_t"@.len()); }
    } else if k == "uint16"@ {
        assert(cgo_prim(k) == Some("C.uint16_t"@));
        assert(starts_with("C.uint16_t"@, "C.u"@)) by { assert("C.uint16_t"@.subrange(0, 3) =~= "C.u"@); }
        assert("C.uint16_t"@ != "C.size_t"@) by { assert("C.uint16_t"@.len() != "C.size_t"@.len()); }
        assert(starts_with("uint16"@, "uint"@)) by { assert("uint16"@.subrange(0, 4) =~= "uint"@); }
        assert(!starts_with("uint16"@, "unsigned"@));
        assert("uint16"@ != "size_t"@) by { assert("uint16"@[0] != "size_t"@[0]); }
    } else if k == "uint16_t"@ {
        assert(cgo_prim(k) == Some("C.uint16_t"@));
        assert(starts_with("C.uint16_t"@, "C.u"@)) by { assert("C.uint16_t"@.subrange(0, 3) =~= "C.u"@); }
        assert("C.uint16_t"@ != "C.size_t"@) by { assert("C.uint16_t"@.len() != "C.size_t"@.len()); }
        assert(starts_with("uint16_t"@, "uint"@)) by { assert("uint16_t"@.subrange(0, 4) =~= "uint"@); }
        assert(!starts_with("uint16_t"@, "unsigned"@)) by { assert("uint16_t"@.subrange(0, 8)[1] != "unsigned"@[1]); }
        assert("uint16_t"@ != "size_t"@) by { assert("uint16_t"@.len() != "size_t"@.len()); }
    } else if k == "unsignedshort"@ {
        assert(cgo_prim(k) == Some("C.uint16_t"@));
        assert(starts_with("C.uint16_t"@, "C.u"@)) by { assert("C.uint16_t"@.subrange(0, 3) =~= "C.u"@); }
        assert("C.uint16_t"@ != "C.size_t"@) by { assert("C.uint16_t"@.len() != "C.size_t"@.len()); }
        assert(!starts_with("unsignedshort"@, "uint"@)) by { assert("unsignedshort"@.subrange(0, 4)[1] != "uint"@[1]); }
        assert(starts_with("unsignedshort"@, "unsigned"@)) by { assert("unsignedshort"@.subrange(0, 8) =~= "unsigned"@); }
        assert("unsignedshort"@ != "size_t"@) by { assert("unsignedshort"@.len() != "size_t"@.len()); }
    } else if k == "uint32"@ {
        assert(cgo_prim(k) == Some("C.uint32_t"@));
        assert(starts_with("C.uint32_t"@, "C.u"@)) by { assert("C.uint32_t"@.subrange(0, 3) =~= "C.u"@); }
        assert("C.uint32_t"@ != "C.size_t"@) by { assert("C.uint32_t"@.len() != "C.size_t"@.len()); }
        assert(starts_with("uint32"@, "uint"@)) by { assert("uint32"@.subrange(0, 4) =~= "uint"@); }
        assert(!starts_with("uint32"@, "unsigned"@));
        assert("uint32"@ != "size_t"@) by { assert("uint32"@[0] != "size_t"@[0]); }
    } else if k == "uint32_t"@ {
        assert(cgo_prim(k) == Some("C.uint32_t"@));
        assert(starts_with("C.uint32_t"@, "C.u"@)) by { assert("C.uint32_t"@.subrange(0, 3) =~= "C.u"@); }
        assert("C.uint32_t"@ != "C.size_t"@) by { assert("C.uint32_t"@.len() != "C.size_t"@.len()); }
        assert(starts_with("uint32_t"@, "uint"@)) by { assert("uint32_t"@.subrange(0, 4) =~= "uint"@); }
        assert(!starts_with("uint32_t"@, "unsigned"@)) by { assert("uint32_t"@.subrange(0, 8)[1] != "unsigned"@[1]); }
        assert("uint32_t"@ != "size_t"@) by { assert("uint32_t"@.len() != "size_t"@.len()); }
    } else if k == "unsignedint"@ {
        assert(cgo_prim(k) == Some("C.uint32_t"@));
        assert(starts_with("C.uint32_t"@, "C.u"@)) by { assert("C.uint32_t"@.subrange(0, 3) =~= "C.u"@); }
        assert("C.uint32_t"@ != "C.size_t"@) by { assert("C.uint32_t"@.len() != "C.size_t"@.len()); }
        assert(!starts_with("unsignedint"@, "uint"@)) by { assert("unsignedint"@.subrange(0, 4)[1] != "uint"@[1]); }
        assert(starts_with("unsignedint"@, "unsigned"@)) by { assert("unsignedint"@.subrange(0, 8) =~= "unsigned"@); }
        assert("unsignedint"@ != "size_t"@) by { assert("unsignedint"@.len() != "size_t"@.len()); }
    } else if k == "unsigned"@ {
        assert(cgo_prim(k) == Some("C.uint32_t"@));
        assert(starts_with("C.uint32_t"@, "C.u"@)) by { assert("C.uint32_t"@.subrange(0, 3) =~= "C.u"@); }
        assert("C.uint32_t"@ != "C.size_t"@) by { assert("C.uint32_t"@.len() != "C.size_t"@.len()); }
        assert(!starts_with("unsigned"@, "uint"@)) by { assert("unsigned"@.subrange(0, 4)[1] != "uint"@[1]); }
        assert(starts_with("unsigned"@, "unsigned"@)) by { assert("unsigned"@.subrange(0, 8) =~= "unsigned"@); }
        assert("unsigned"@ != "size_t"@) by { assert("unsigned"@.len() != "size_t"@.len()); }
    } else if k == "uint64"@ {
        assert(cgo_prim(k) == Some("C.uint64_t"@));
        assert(starts_with("C.uint64_t"@, "C.u"@)) by { assert("C.uint64_t"@.subrange(0, 3) =~= "C.u"@); }
        assert("C.uint64_t"@ != "C.size_t"@) by { assert("C.uint64_t"@.len() != "C.size_t"@.len()); }
        assert(starts_with("uint64"@, "uint"@)) by { assert("uint64"@.subrange(0, 4) =~= "uint"@); }
        assert(!starts_with("uint64"@, "unsigned"@));
        assert("uint64"@ != "size_t"@) by { assert("uint64"@[0] != "size_t"@[0]); }
    } else if k == "uint64_t"@ {
        assert(cgo_prim(k) == Some("C.uint64_t"@));
        assert(starts_with("C.uint64_t"@, "C.u"@)) by { assert("C.uint64_t"@.subrange(0, 3) =~= "C.u"@); }
        assert("C.uint64_t"@ != "C.size_t"@) by { assert("C.uint64_t"@.len() != "C.size_t"@.len()); }
        assert(starts_with("uint64_t"@, "uint"@)) by { assert("uint64_t"@.subrange(0, 4) =~= "uint"@); }
        assert(!starts_with("uint64_t"@, "unsigned"@)) by { assert("uint64_t"@.subrange(0, 8)[1] != "unsigned"@[1]); }
        assert("uint64_t"@ != "size_t"@) by { assert("uint64_t"@.len() != "size_t"@.len()); }
    } else if k == "unsignedlong"@ {
        assert(cgo_prim(k) == Some("C.ulong"@));
        assert(starts_with("C.ulong"@, "C.u"@)) by { assert("C.ulong"@.subrange(0, 3) =~= "C.u"@); }
        assert("C.ulong"@ != "C.size_t"@) by { assert("C.ulong"@.len() != "C.size_t"@.len()); }
        assert(!starts_with("unsignedlong"@, "uint"@)) by { assert("unsignedlong"@.subrange(0, 4)[1] != "uint"@[1]); }
        assert(starts_with("unsignedlong"@, "unsigned"@)) by { assert("unsignedlong"@.subrange(0, 8) =~= "unsigned"@); }
        assert("unsignedlong"@ != "size_t"@) by { assert("unsignedlong"@.len() != "size_t"@.len()); }
    } else if k == "unsignedlonglong"@ {
        assert(cgo_prim(k) == Some("C.ulonglong"@));
        assert(starts_with("C.ulonglong"@, "C.u"@)) by { assert("C.ulonglong"@.subrange(0, 3) =~= "C.u"@); }
        assert("C.ulonglong"@ != "C.size_t"@) by { assert("C.ulonglong"@.len() != "C.size_t"@.len()); }
        assert(!starts_with("unsignedlonglong"@, "uint"@)) by { assert("unsignedlonglong"@.subrange(0, 4)[1] != "uint"@[1]); }
        assert(starts_with("unsignedlonglong"@, "unsigned"@)) by { assert("unsignedlonglong"@.subrange(0, 8) =~= "unsigned"@); }
        assert("unsignedlonglong"@ != "size_t"@) by { assert("unsignedlonglong"@.len() != "size_t"@.len()); }
    } else if k == "int"@ {
        assert(cgo_prim(k) == Some("C.int"@));
        assert(!starts_with("C.int"@, "C.u"@)) by { assert("C.int"@.subrange(0, 3)[2] != "C.u"@[2]); }
        assert("C.int"@ != "C.size_t"@) by { assert("C.int"@.len() != "C.size_t"@.len()); }
        assert(!starts_with("int"@, "uint"@));
        assert(!starts_with("int"@, "unsigned"@));
        assert("int"@ != "size_t"@) by { assert("int"@.len() != "size_t"@.len()); }
    } else if k == "long"@ {
        assert(cgo_prim(k) == Some("C.long"@));
        assert(!starts_with("C.long"@, "C.u"@)) by { assert("C.long"@.subrange(0, 3)[2] != "C.u"@[2]); }
        assert("C.long"@ != "C.size_t"@) by { assert("C.long"@.len() != "C.size_t"@.len()); }
        assert(!starts_with("long"@, "uint"@)) by { assert("long"@.subrange(0, 4)[0] != "uint"@[0]); }
        assert(!starts_with("long"@, "unsigned"@));
        assert("long"@ != "size_t"@) by { assert("long"@.len() != "size_t"@.len()); }
    } else if k == "longlong"@ {
        assert(cgo_prim(k) == Some("C.longlong"@));
        assert(!starts_with("C.longlong"@, "C.u"@)) by { assert("C.longlong"@.subrange(0, 3)[2] != "C.u"@[2]); }
        assert("C.longlong"@ != "C.size_t"@) by { assert("C.longlong"@.len() != "C.size_t"@.len()); }
        assert(!starts_with("longlong"@, "uint"@)) by { assert("longlong"@.subrange(0, 4)[0] != "uint"@[0]); }
        assert(!starts_with("longlong"@, "unsigned"@)) by { assert("longlong"@.subrange(0, 8)[0] != "unsigned"@[0]); }
        assert("longlong"@ != "size_t"@) by { assert("longlong"@.len() != "size_t"@.len()); }
    } else if k == "signedlonglong"@ {
        assert(cgo_prim(k) == Some("C.longlong"@));
        assert(!starts_with("C.longlong"@, "C.u"@)) by { assert("C.longlong"@.subrange(0, 3)[2] != "C.u"@[2]); }
        assert("C.longlong"@ != "C.size_t"@) by { assert("C.longlong"@.len() != "C.size_t"@.len()); }
        assert(!starts_with("signedlonglong"@, "uint"@)) by { assert("signedlonglong"@.subrange(0, 4)[0] != "uint"@[0]); }
        assert(!starts_with("signedlonglong"@, "unsigned"@)) by { assert("signedlonglong"@.subrange(0, 8)[0] != "unsigned"@[0]); }
        assert("signedlonglong"@ != "size_t"@) by { assert("signedlonglong"@.len() != "size_t"@.len()); }
    } else if k == "size_t"@ {
        assert(cgo_prim(k) == Some("C.size_t"@));
        assert(!starts_with("C.size_t"@, "C.u"@)) by { assert("C.size_t"@.subrange(0, 3)[2] != "C.u"@[2]); }
        assert(!starts_with("size_t"@, "uint"@)) by { assert("size_t"@.subrange(0, 4)[0] != "uint"@[0]); }
        assert(!starts_with("size_t"@, "unsigned"@));
    }
}

/// A fixed-width spelling `intN`/`uintN` (with or without `_t`) converts through the cgo
/// type `C.intN_t`/`C.uintN_t`: sign and width are kept.
#[verifier::rlimit(50)]
pub proof fn law_cgo_type_of_fixed_width(k: Seq<char>)
    requires
        cgo_prim(k) is Some,
        starts_with(k, "int"@) || starts_with(k, "uint"@),
        k != "int"@,
    ensures
        cgo_prim(k)->0 == "C."@ + k || cgo_prim(k)->0 == "C."@ + k + "_t"@,
{
    reveal_strlit("C.");
    reveal_strlit("C.bool");
    reveal_strlit("C.double");
    reveal_strlit("C.float");
    reveal_strlit("C.int");
    reveal_strlit("C.int16_t");
    reveal_strlit("C.int32_t");
    reveal_strlit("C.int64_t");
    reveal_strlit("C.int8_t");
    reveal_strlit("C.long");
    reveal_strlit("C.longlong");
    reveal_strlit("C.size_t");
    reveal_strlit("C.u");
    reveal_strlit("C.uint16_t");
    reveal_strlit("C.uint32_t");
    reveal_strlit("C.uint64_t");
    reveal_strlit("C.uint8_t");
    reveal_strlit("C.ulong");
    reveal_strlit("C.ulonglong");
    reveal_strlit("_t");
    reveal_strlit("bool");
    reveal_strlit("double");
    reveal_strlit("float");
    reveal_strlit("int");
    reveal_strlit("int16");
    reveal_strlit("int16_t");
    reveal_strlit("int32");
    reveal_strlit("int32_t");
    reveal_strlit("int64");
    reveal_strlit("int64_t");
    reveal_strlit("int8");
    reveal_strlit("int8_t");
    reveal_strlit("long");
    reveal_strlit("longlong");
    reveal_strlit("short");
    reveal_strlit("signedchar");
    reveal_strlit("signedlonglong");
    reveal_strlit("size_t");
    reveal_strlit("uint");
    reveal_strlit("uint16");
    reveal_strlit("uint16_t");
    reveal_strlit("uint32");
    reveal_strlit("uint32_t");
    reveal_strlit("uint64");
    reveal_strlit("uint64_t");
    reveal_strlit("uint8");
    reveal_strlit("uint8_t");
    reveal_strlit("unsigned");
    reveal_strlit("unsignedchar");
    reveal_strlit("unsignedint");
    reveal_strlit("unsignedlong");
    reveal_strlit("unsignedlonglong");
    reveal_strlit("unsignedshort");
    if k == "bool"@ {
        assert(cgo_prim(k) == Some("C.bool"@));
        assert(!starts_with("bool"@, "int"@)) by { assert("bool"@.subrange(0, 3)[0] != "int"@[0]); }
        assert(!starts_with("bool"@, "uint"@)) by { assert("bool"@.subrange(0, 4)[0] != "uint"@[0]); }
    } else if k == "float"@ {
        assert(cgo_prim(k) == Some("C.float"@));
        assert(!starts_with("float"@, "int"@)) by { assert("float"@.subrange(0, 3)[0] != "int"@[0]); }
        assert(!starts_with("float"@, "uint"@)) by { assert("float"@.subrange(0, 4)[0] != "uint"@[0]); }
    } else if k == "double"@ {
        assert(cgo_prim(k) == Some("C.double"@));
        assert(!starts_with("double"@, "int"@)) by { assert("double"@.subrange(0, 3)[0] != "int"@[0]); }
        assert(!starts_with("double"@, "uint"@)) by { assert("double"@.subrange(0, 4)[0] != "uint"@[0]); }
    } else if k == "int8"@ {
        assert(cgo_prim(k) == Some("C.int8_t"@));
        assert("C.int8_t"@ =~= "C."@ + "int8"@ + "_t"@);
    } else if k == "int8_t"@ {
        assert(cgo_prim(k) == Some("C.int8_t"@));
        assert("C.int8_t"@ =~= "C."@ + "int8_t"@);
    } else if k == "signedchar"@ {
        assert(cgo_prim(k) == Some("C.int8_t"@));
        assert(!starts_with("signedchar"@, "int"@)) by { assert("signedchar"@.subrange(0, 3)[0] != "int"@[0]); }
        assert(!starts_with("signedchar"@, "uint"@)) by { assert("signedchar"@.subrange(0, 4)[0] != "uint"@[0]); }
    } else if k == "int16"@ {
        assert(cgo_prim(k) == Some("C.int16_t"@));
        assert("C.int16_t"@ =~= "C."@ + "int16"@ + "_t"@);
    } else if k == "int16_t"@ {
        assert(cgo_prim(k) == Some("C.int16_t"@));
        assert("C.int16_t"@ =~= "C."@ + "int16_t"@);
    } else if k == "short"@ {
        assert(cgo_prim(k) == Some("C.int16_t"@));
        assert(!starts_with("short"@, "int"@)) by { assert("short"@.subrange(0, 3)[0] != "int"@[0]); }
        assert(!starts_with("short"@, "uint"@)) by { assert("short"@.subrange(0, 4)[0] != "uint"@[0]); }
    } else if k == "int32"@ {
        assert(cgo_prim(k) == Some("C.int32_t"@));
        assert("C.int32_t"@ =~= "C."@ + "int32"@ + "_t"@);
    } else if k == "int32_t"@ {
        assert(cgo_prim(k) == Some("C.int32_t"@));
        assert("C.int32_t"@ =~= "C."@ + "int32_t"@);
    } else if k == "int64"@ {
        assert(cgo_prim(k) == Some("C.int64_t"@));
        assert("C.int64_t"@ =~= "C."@ + "int64"@ + "_t"@);
    } else if k == "int64_t"@ {
        assert(cgo_prim(k) == Some("C.int64_t"@));
        assert("C.int64_t"@ =~= "C."@ + "int64_t"@);
    } else if k == "uint8"@ {
        assert(cgo_prim(k) == Some("C.uint8_t"@));
        assert("C.uint8_t"@ =~= "C."@ + "uint8"@ + "_t"@);
    } else if k == "uint8_t"@ {
        assert(cgo_prim(k) == Some("C.uint8_t"@));
        assert("C.uint8_t"@ =~= "C."@ + "uint8_t"@);
    } else if k == "unsignedchar"@ {
        assert(cgo_prim(k) == Some("C.uint8_t"@));
        assert(!starts_with("unsignedchar"@, "int"@)) by { assert("unsignedchar"@.subrange(0, 3)[0] != "int"@[0]); }
        assert(!starts_with("unsignedchar"@, "uint"@)) by { assert("unsignedchar"@.subrange(0, 4)[1] != "uint"@[1]); }
    } else if k == "uint16"@ {
        assert(cgo_prim(k) == Some("C.uint16_t"@));
        assert("C.uint16_t"@ =~= "C."@ + "uint16"@ + "_t"@);
    } else if k == "uint16_t"@ {
        assert(cgo_prim(k) == Some("C.uint16_t"@));
        assert("C.uint16_t"@ =~= "C."@ + "uint16_t"@);
    } else if k == "unsignedshort"@ {
        assert(cgo_prim(k) == Some("C.uint16_t"@));
        assert(!starts_with("unsignedshort"@, "int"@)) by { assert("unsignedshort"@.subrange(0, 3)[0] != "int"@[0]); }
        assert(!starts_with("unsignedshort"@, "uint"@)) by { assert("unsignedshort"@.subrange(0, 4)[1] != "uint"@[1]); }
    } else if k == "uint32"@ {
        assert(cgo_prim(k) == Some("C.uint32_t"@));
        assert("C.uint32_t"@ =~= "C."@ + "uint32"@ + "_t"@);
    } else if k == "uint32_t"@ {
        assert(cgo_prim(k) == Some("C.uint32_t"@));
        assert("C.uint32_t"@ =~= "C."@ + "uint32_t"@);
    } else if k == "unsignedint"@ {
        assert(cgo_prim(k) == Some("C.uint32_t"@));
        assert(!starts_with("unsignedint"@, "int"@)) by { assert("unsignedint"@.subrange(0, 3)[0] != "int"@[0]); }
        assert(!starts_with("unsignedint"@, "uint"@)) by { assert("unsignedint"@.subrange(0, 4)[1] != "uint"@[1]); }
    } else if k == "unsigned"@ {
        assert(cgo_prim(k) == Some("C.uint32_t"@));
        assert(!starts_with("unsigned"@, "int"@)) by { assert("unsigned"@.subrange(0, 3)[0] != "int"@[0]); }
        assert(!starts_with("unsigned"@, "uint"@)) by { assert("unsigned"@.subrange(0, 4)[1] != "uint"@[1]); }
    } else if k == "uint64"@ {
        assert(cgo_prim(k) == Some("C.uint64_t"@));
        assert("C.uint64_t"@ =~= "C."@ + "uint64"@ + "_t"@);
    } else if k == "uint64_t"@ {
        assert(cgo_prim(k) == Some("C.uint64_t"@));
        assert("C.uint64_t"@ =~= "C."@ + "uint64_t"@);
    } else if k == "unsignedlong"@ {
        assert(cgo_prim(k) == Some("C.ulong"@));
        assert(!starts_with("unsignedlong"@, "int"@)) by { assert("unsignedlong"@.subrange(0, 3)[0] != "int"@[0]); }
        assert(!starts_with("unsignedlong"@, "uint"@)) by { assert("unsignedlong"@.subrange(0, 4)[1] != "uint"@[1]); }
    } else if k == "unsignedlonglong"@ {
        assert(cgo_prim(k) == Some("C.ulonglong"@));
        assert(!starts_with("unsignedlonglong"@, "int"@)) by { assert("unsignedlonglong"@.subrange(0, 3)[0] != "int"@[0]); }
        assert(!starts_with("unsignedlonglong"@, "uint"@)) by { assert("unsignedlonglong"@.subrange(0, 4)[1] != "uint"@[1]); }
    } else if k == "int"@ {
        assert(cgo_prim(k) == Some("C.int"@));
    } else if k == "long"@ {
        assert(cgo_prim(k) == Some("C.long"@));
        assert(!starts_with("long"@, "int"@)) by { assert("long"@.subrange(0, 3)[0] != "int"@[0]); }
        assert(!starts_with("long"@, "uint"@)) by { assert("long"@.subrange(0, 4)[0] != "uint"@[0]); }
    } else if k == "longlong"@ {
        assert(cgo_prim(k) == Some("C.longlong"@));
        assert(!starts_with("longlong"@, "int"@)) by { assert("longlong"@.subrange(0, 3)[0] != "int"@[0]); }
        assert(!starts_with("longlong"@, "uint"@)) by { assert("longlong"@.subrange(0, 4)[0] != "uint"@[0]); }
    } else if k == "signedlonglong"@ {
        assert(cgo_prim(k) == Some("C.longlong"@));
        assert(!starts_with("signedlonglong"@, "int"@)) by { assert("signedlonglong"@.subrange(0, 3)[0] != "int"@[0]); }
        assert(!starts_with("signedlonglong"@, "uint"@)) by { assert("signedlonglong"@.subrange(0, 4)[0] != "uint"@[0]); }
    } else if k == "size_t"@ {
        assert(cgo_prim(k) == Some("C.size_t"@));
        assert(!starts_with("size_t"@, "int"@)) by { assert("size_t"@.subrange(0, 3)[0] != "int"@[0]); }
        assert(!starts_with("size_t"@, "uint"@)) by { assert("size_t"@.subrange(0, 4)[0] != "uint"@[0]); }
    }
}


/// A projected field of a known enum type has the Go enum type the facade uses for it.
pub proof fn law_enum_field_types_match_facade(ctx: PipelineContextV, t: IrTypeV)
    requires
        t.kind == IrTypeKind::Enum,
        crate::context::enum_go_type(ctx.known_enum_types, t.cpp_type) is Some,
    ensures
        field_type(ctx, t) == go_value(ctx, t),
{
}

/// A projected primitive field has the Go type the facade gives the same primitive; the
/// one exception is plain `int`, which a field exposes as Go `int`.
pub proof fn law_primitive_field_types_match_facade(ctx: PipelineContextV, t: IrTypeV)
    requires
        t.kind == IrTypeKind::Primitive,
        type_key(t.cpp_type) != "int"@,
        type_key(t.c_type) != "int"@,
    ensures
        field_type(ctx, t) == go_value(ctx, t),
{
}

} // verus!

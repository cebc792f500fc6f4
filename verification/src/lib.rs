//! Generator of C ABI wrappers and Go facades for a conservative subset of C/C++ headers.
#![allow(unused_imports)]

pub mod text;
pub mod kind;

pub use kind::{FieldAccessKind, IrFunctionKind, IrTypeKind, RecordKind};
pub mod ir;
pub mod naming;
pub mod types;
pub mod case;
pub mod unicode;
pub mod config;

pub use config::{Config, InputConfig, OutputConfig};
pub mod env;
pub mod projection;
pub mod context;

pub use context::PipelineContext;
pub mod parsed;
pub mod normalize;
pub mod declarations;
pub mod assemble;
pub mod macros;
pub mod gotypes;
pub mod analysis;
pub mod summary;
pub mod compiler;
pub mod header;
pub mod source;
pub mod pipeline;
pub mod laws;
pub mod resolve;
pub mod spelling;
pub mod facade;
pub mod calls;
pub mod dispatch;
pub mod gofile;
pub mod renderable;
pub mod paths;
pub mod spelling_laws;

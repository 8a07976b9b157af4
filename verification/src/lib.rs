//! Coastal collects functions and constants that are to be called from C and
//! generates the bindings for them.
//!
//! The work is done in two steps. While a crate is compiled, each function or
//! constant that is marked for export is checked and saved in a registry
//! ([`coast`]). Later the saved declarations are named one by one, loaded
//! again, and turned into a module of `extern "C"` wrappers and the lines of a
//! C header ([`api`]). How a type crosses the boundary is decided by an
//! ordered list of rules, of which the first that accepts the type wins.

pub mod api;
pub mod convert;
pub mod laws;
pub mod library;
pub mod model;
pub mod record;
pub mod registry;
pub mod text;
pub mod types;
pub mod validate;

pub use crate::api::api;
pub use crate::convert::{ArgConverter, ConvertArg, ConvertReturn, ReturnConverter};
pub use crate::library::{GenerateError, GeneratedCode, Library, ParsedSignature};
pub use crate::model::{Constant, ConstantValue, Function};
pub use crate::registry::{Registry, RegistryError, State};
pub use crate::validate::{coast, ValidationError};

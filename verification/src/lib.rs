//! Generator of host-side bindings for component interface worlds.
//!
//! A resolved [`schema::Schema`] describes packages, interfaces, worlds,
//! functions and a structural type graph.  [`Opts::generate`] turns one
//! world of it into the source text of host bindings: the definitions of
//! the types, the traits that a host implements for the imports of the
//! world with the glue that dispatches calls of the guest into them, and
//! the wrappers through which a host calls the exports of the world.
//!
//! Generation runs in stages.  [`types::Types::analyze`] finds for every
//! type whether it is used owned or borrowed, whether it holds a list and
//! whether it is a trappable error.  The mode resolver of
//! [`rust::RustGenerator`] decides from that under which names and in
//! which modes a type is defined.  [`world::Wasmtime`] names the
//! interfaces and collects the module of each imported and exported
//! interface; [`assemble`] puts the world struct and the trees of modules
//! together; [`generate`] runs the stages and decides beforehand whether a
//! world can be generated at all.
//!
//! The crate also holds the handle tables of an inference context, in
//! [`ctx`].

pub mod text;
pub mod names;
pub mod schema;
pub mod opts;
pub mod ordered;
pub mod errors;
pub mod types;
pub mod rust;
pub mod interface;
pub mod resources;
pub mod typedefs;
pub mod sigs;
pub mod calls;
pub mod exports;
pub mod resource_types;
pub mod imports;
pub mod error_types;
pub mod checks;
pub mod modules;
pub mod world;
pub mod assemble;
pub mod generate;
pub mod ctx;

pub use names::{to_rust_ident, to_rust_upper_camel_case};
pub use opts::{NameMap, Opts, Ownership, TrappableError};
pub use rust::{RustGenerator, TypeMode};
pub use text::{decimal, push_decimal};

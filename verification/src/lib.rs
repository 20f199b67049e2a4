//! An in-memory metadata store: one document of named nodes and string
//! leaves, replaced whole, patched by JSON Merge Patch, and read by path.
//!
//! * [`value`]: the values, and the mathematical view that contracts speak of.
//! * [`entries`]: the children of a node, as an ordered list of names.
//! * [`validator`]: what may be stored.
//! * [`patch`]: JSON Merge Patch.
//! * [`path`]: paths and where they lead.
//! * [`data_store`]: the store itself.
//! * [`handlers`]: the reply to each request.
//! * [`text`]: the string work that the handlers need.
//! * [`laws`]: what holds of these taken together.

pub mod data_store;
pub mod entries;
pub mod handlers;
pub mod laws;
pub mod patch;
pub mod path;
pub mod text;
pub mod validator;
pub mod value;

pub use patch::json_patch;

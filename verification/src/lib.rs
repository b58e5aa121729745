//! Core of a scriptable entity-component simulation runtime: the typed
//! per-entity variable store, the component virtual machine and the
//! dispatch of command effects between local, remote and central scopes.

pub mod address;
pub mod distr;
pub mod entity;
pub mod error;
pub mod machine;
pub mod model;
pub mod msg;
pub mod sim;
pub mod string;
pub mod text;
pub mod var;


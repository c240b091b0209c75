//! Interactive message sessions: component trees lowered under scoped
//! identifiers, a per-render binding table, and a correlator that routes a
//! component event back to the one session waiting on its message.

pub mod binding;
pub mod component;
pub mod context;
pub mod dusk;
pub mod errors;
pub mod ident;
pub mod window;



//! Faceted navigation of the answer sets of a logic program: the session
//! state and its command language, the greedy step proposers, the facet
//! classifier and the scoring rules. The reasoning engine itself is not part
//! of this library; its answers enter as plain values.

pub mod config;
pub mod filter;
pub mod interpreter;
pub mod is_facet;
pub mod modes;
pub mod projection;
pub mod reduction;
pub mod reencode;
pub mod session;
pub mod significance;
pub mod text;
pub mod wfc;

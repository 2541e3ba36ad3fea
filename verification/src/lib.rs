//! Compiles a citation-style template tree into an intermediate
//! representation (`RefIR`) and lowers that representation into a
//! nondeterministic finite automaton whose accepted token sequences
//! enumerate every possible rendering of a reference.

use std::sync::Arc;
use vstd::prelude::*;

pub mod disamb;
pub mod element;
pub mod group;
pub mod markup;
pub mod ref_ir;

use crate::element::{Delimiter, LocatorType, Name, Position, Style};

pub use crate::disamb::EdgeData;
pub use crate::group::GroupVars;
pub use crate::ref_ir::{RefIR, RefIrSeq};

verus! {

/// Per-compile configuration: borrows the style, and carries the
/// cite-specific switches one compilation pass reads.
pub struct RefContext<'a> {
    pub style: &'a Style,
    pub locator_type: Option<LocatorType>,
    pub position: Position,
    pub year_suffix: bool,
    pub names_delimiter: Option<Delimiter>,
    pub name_el: Arc<Name>,
    pub disamb_count: u32,
}

/// Opaque handle of one cite inside a cluster.
pub struct CiteId(pub u32);

/// Marker type for the IR-generation pass.
pub struct IrGen;

/// The querying interface a compilation database offers: access to the
/// shared, immutable style tree.
pub trait IrDatabase {
    fn style(&self) -> Arc<Style>;
}

} // verus!


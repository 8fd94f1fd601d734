//! The tool set of the stroke-width canvas, which has no cutting tool.
use vstd::prelude::*;

verus! {

/// The drawing tools of the stroke-width canvas.
#[derive(Debug, Clone, Copy, PartialEq, Eq, Structural)]
pub enum PpOptions {
    Arrow,
    Circle,
    Square,
    Text,
    Painting,
}

} // verus!

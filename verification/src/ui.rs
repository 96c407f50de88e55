//! Kinds of display components.

use vstd::prelude::*;

verus! {

/// The kind of a display component.
#[derive(Debug, Clone, Copy, PartialEq, Eq, Structural)]
pub enum ComponentType {
    Chart,
}

} // verus!

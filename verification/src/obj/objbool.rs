//! Truth values: how an object counts where a condition is asked for.

use vstd::prelude::*;
use crate::pyobject::{KindView, PyObjectKind};

verus! {

/// Whether a value counts as true: a boolean by its value, a number unless
/// it is zero, `None` never, a string or a container unless it is empty,
/// and anything else always.
pub open spec fn truth(kind: KindView) -> bool {
    match kind {
        KindView::Boolean { value } => value,
        KindView::Integer { value } => value != 0,
        KindView::NoneValue => false,
        KindView::String { value } => value.len() > 0,
        KindView::Tuple { elements } => elements.len() > 0,
        KindView::List { elements } => elements.len() > 0,
        KindView::Dict { entries } => entries.len() > 0,
        _ => true,
    }
}

/// Whether a value counts as true.
pub fn boolval(kind: &PyObjectKind) -> (b: bool)
    ensures
        b == truth(kind@),
{
    match kind {
        PyObjectKind::Boolean { value } => *value,
        PyObjectKind::Integer { value } => *value != 0,
        PyObjectKind::NoneValue => false,
        PyObjectKind::String { value } => !value.as_str().is_empty(),
        PyObjectKind::Tuple { elements } => elements.len() > 0,
        PyObjectKind::List { elements } => elements.len() > 0,
        PyObjectKind::Dict { entries } => entries.len() > 0,
        _ => true,
    }
}

} // verus!

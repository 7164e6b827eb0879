use vstd::prelude::*;

verus! {

/// How an (x, y) coordinate handed to a view is read.
#[derive(Clone, Copy, Debug)]
pub enum PostioningType {
    /// The coordinate addresses the parent space directly.
    Absolute,
    /// The coordinate is measured from the view's own origin, which reads as (0, 0).
    Relative,
}

/// Two views that partition a region along a vertical line: `left` holds the
/// columns before the line, `right` the rest.
pub struct HorizontalSplit<T> {
    pub left: T,
    pub right: T,
}

/// Two views that partition a region along a horizontal line: `above` holds the
/// rows before the line, `below` the rest.
pub struct VerticalSplit<T> {
    pub above: T,
    pub below: T,
}

} // verus!

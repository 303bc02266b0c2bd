//! Records handed to the map output.
use vstd::prelude::*;

verus! {

/// A polyline of the map output with a message: the points are
/// (longitude `x`, latitude `y`) pairs, each float by its bit pattern.
pub struct DebugLine {
    pub msg: String,
    pub geom: Vec<(u64, u64)>,
}

/// The view of a line: its message and its points.
pub type LineView = (Seq<char>, Seq<(u64, u64)>);

impl View for DebugLine {
    type V = LineView;

    open spec fn view(&self) -> LineView {
        (self.msg@, self.geom@)
    }
}

}

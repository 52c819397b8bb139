//! Screen edges: where the cursor touches the border of a display.

use vstd::prelude::*;

verus! {

/// The four screen edges.
#[derive(Clone, Copy, Debug, PartialEq, Eq, Structural)]
pub enum ScreenEdge {
    Left,
    Right,
    Top,
    Bottom,
}

/// A display's size in pixels.
#[derive(Clone, Copy, Debug, PartialEq, Eq, Structural)]
pub struct DisplaySize {
    pub width: u32,
    pub height: u32,
}

impl Default for DisplaySize {
    fn default() -> (d: Self)
        ensures
            d.width == 1920,
            d.height == 1080,
    {
        DisplaySize { width: 1920, height: 1080 }
    }
}

/// The threshold, never below zero.
pub open spec fn clamped(threshold: i32) -> int {
    if threshold < 0 {
        0
    } else {
        threshold as int
    }
}

/// The far coordinate that counts as touching the edge of an extent `n`
/// (the extent is taken as a 32-bit signed number, as the code computes it).
pub open spec fn far_limit(n: u32, threshold: i32) -> int {
    (n as i32) - 1 - clamped(threshold)
}

/// The edge that `(x, y)` is within `threshold` pixels of (left, then
/// right, then top, then bottom), if any; never one for an empty display.
pub open spec fn spec_edge(x: i32, y: i32, d: DisplaySize, threshold: i32) -> Option<ScreenEdge> {
    let t = clamped(threshold);
    if d.width == 0 || d.height == 0 {
        None
    } else if x <= t {
        Some(ScreenEdge::Left)
    } else if x >= far_limit(d.width, threshold) {
        Some(ScreenEdge::Right)
    } else if y <= t {
        Some(ScreenEdge::Top)
    } else if y >= far_limit(d.height, threshold) {
        Some(ScreenEdge::Bottom)
    } else {
        None
    }
}

/// The far limits it computes stay within 32 bits (only an extent above
/// `i32::MAX` with a large threshold leaves them).
pub open spec fn edge_computable(x: i32, y: i32, d: DisplaySize, threshold: i32) -> bool {
    let t = clamped(threshold);
    d.width != 0 && d.height != 0 && x > t ==> (far_limit(d.width, threshold) >= i32::MIN && (x
        < far_limit(d.width, threshold) && y > t ==> far_limit(d.height, threshold) >= i32::MIN))
}

/// Detects whether the cursor position touches a screen border within
/// `threshold` pixels (a negative threshold counts as zero).
pub fn detect_edge_transition(x: i32, y: i32, display: &DisplaySize, threshold: i32) -> (r: Option<
    ScreenEdge,
>)
    requires
        edge_computable(x, y, *display, threshold),
    ensures
        r == spec_edge(x, y, *display, threshold),
{
    if display.width == 0 || display.height == 0 {
        return None;
    }
    let t: i32 = if threshold < 0 {
        0
    } else {
        threshold
    };
    if x <= t {
        return Some(ScreenEdge::Left);
    }
    let w = display.width as i32;
    if x >= w - 1 - t {
        return Some(ScreenEdge::Right);
    }
    if y <= t {
        return Some(ScreenEdge::Top);
    }
    let h = display.height as i32;
    if y >= h - 1 - t {
        Some(ScreenEdge::Bottom)
    } else {
        None
    }
}

/// On a display larger than twice the threshold, a point strictly inside
/// the band touches no edge, and the four corners touch the left or the
/// right edge.
pub proof fn lemma_edges(d: DisplaySize, threshold: i32, x: i32, y: i32)
    requires
        0 <= threshold,
        2 * threshold + 2 < d.width <= i32::MAX,
        2 * threshold + 2 < d.height <= i32::MAX,
    ensures
        threshold < x < d.width - 1 - threshold && threshold < y < d.height - 1 - threshold
            ==> spec_edge(x, y, d, threshold) is None,
        x <= threshold ==> spec_edge(x, y, d, threshold) == Some(ScreenEdge::Left),
        threshold < x && x >= d.width - 1 - threshold ==> spec_edge(x, y, d, threshold) == Some(
            ScreenEdge::Right,
        ),
{
}

} // verus!

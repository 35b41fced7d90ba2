//! View-side helpers. The world and the window share coordinates, so the
//! transform between the two windows is the identity; it is kept as a value
//! so a front end can thread it through without special cases.

use vstd::prelude::*;

verus! {

/// Maps positions and lengths from an input window to an output window.
#[derive(Clone, Copy, Debug)]
pub struct CoordinateTransform<R> {
    input_window: R,
    output_window: R,
}

impl<R: Copy> CoordinateTransform<R> {
    pub fn new(input_window: R, output_window: R) -> (t: Self)
        ensures
            t.input_window_spec() == input_window,
            t.output_window_spec() == output_window,
    {
        CoordinateTransform { input_window, output_window }
    }

    pub closed spec fn input_window_spec(&self) -> R {
        self.input_window
    }

    pub closed spec fn output_window_spec(&self) -> R {
        self.output_window
    }

    /// Positions pass through unchanged.
    pub fn transform_position<P: Copy>(&self, pos: P) -> (r: P)
        ensures
            r == pos,
    {
        pos
    }

    /// Lengths pass through unchanged.
    pub fn transform_length<L: Copy>(&self, len: L) -> (r: L)
        ensures
            r == len,
    {
        len
    }
}

} // verus!

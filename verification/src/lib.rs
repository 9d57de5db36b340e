//! An axis-generic layout engine for window-preview overviews: items with
//! heterogeneous preferred sizes are packed into one line along the main
//! axis, or split across two lines stacked along the cross axis whenever the
//! split strictly improves the uniform scale factor of the worst-fit line.
//!
//! Measurements enter as whole units (`u32`); every emitted coordinate is an
//! exact rational, so scales, centering padding and the split decision are
//! computed without rounding.

pub mod frac;
pub mod geometry;
pub mod single_line;
pub mod two_line;
pub mod laws;

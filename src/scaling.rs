//! Fitting a fixed-size canvas into a window at a whole-number scale.

use vstd::prelude::*;

verus! {

/// Integer division by two, rounding toward zero.
pub open spec fn half_toward_zero(v: int) -> int {
    if v >= 0 {
        v / 2
    } else {
        -((-v) / 2)
    }
}

/// The largest whole scale at which the canvas fits the window, and at
/// least one.
pub open spec fn fit_scale(canvas_width: int, canvas_height: int, window_width: int, window_height: int) -> int {
    let s = if window_width / canvas_width < window_height / canvas_height {
        window_width / canvas_width
    } else {
        window_height / canvas_height
    };
    if s < 1 {
        1
    } else {
        s
    }
}

/// Where the scaled canvas goes: the top-left corner that centers it in the
/// window (negative when it overhangs), and the scale.
pub fn fit_canvas(canvas_width: i32, canvas_height: i32, window_width: i32, window_height: i32) -> (r: (i32, i32, i32))
    requires
        canvas_width > 0,
        canvas_height > 0,
        window_width >= 0,
        window_height >= 0,
    ensures
        ({
            let s = fit_scale(canvas_width as int, canvas_height as int, window_width as int, window_height as int);
            &&& r.2 == s
            &&& r.0 == half_toward_zero(window_width - canvas_width * s)
            &&& r.1 == half_toward_zero(window_height - canvas_height * s)
        }),
{
    let sx = window_width / canvas_width;
    let sy = window_height / canvas_height;
    let s = if sx < sy {
        sx
    } else {
        sy
    };
    let scale = if s < 1 {
        1
    } else {
        s
    };
    assert(canvas_width * scale <= window_width || scale == 1) by (nonlinear_arith)
        requires
            scale == 1 || scale <= window_width / canvas_width,
            canvas_width > 0,
            window_width >= 0,
    ;
    assert(canvas_height * scale <= window_height || scale == 1) by (nonlinear_arith)
        requires
            scale == 1 || scale <= window_height / canvas_height,
            canvas_height > 0,
            window_height >= 0,
    ;
    let w = canvas_width * scale;
    let h = canvas_height * scale;
    ((window_width - w) / 2, (window_height - h) / 2, scale)
}

} // verus!

//! Line rasterization for the single-player panel: Bresenham's algorithm
//! over a row-major pixel buffer. Pixels off the buffer are skipped; every
//! pixel the line touches is set to the given color and no other pixel
//! changes.

use vstd::prelude::*;

verus! {

/// Coordinates are accepted up to this magnitude, which keeps the error
/// accumulator inside a 32-bit integer.
pub const COORD_LIMIT: i32 = 1000000;

/// Draw the line segment from `(x0, y0)` to `(x1, y1)` in `color` onto a
/// row-major `width` by `height` pixel buffer, clipping to the buffer:
/// afterwards every pixel either kept its old value or holds `color`.
#[verifier::loop_isolation(false)]
pub fn draw_line(
    buffer: &mut Vec<u32>,
    width: usize,
    height: usize,
    x0: i32,
    y0: i32,
    x1: i32,
    y1: i32,
    color: u32,
)
    requires
        old(buffer)@.len() == width * height,
        width <= COORD_LIMIT as usize,
        height <= COORD_LIMIT as usize,
        -COORD_LIMIT <= x0 <= COORD_LIMIT,
        -COORD_LIMIT <= y0 <= COORD_LIMIT,
        -COORD_LIMIT <= x1 <= COORD_LIMIT,
        -COORD_LIMIT <= y1 <= COORD_LIMIT,
    ensures
        final(buffer)@.len() == old(buffer)@.len(),
        forall|k: int|
            0 <= k < final(buffer)@.len() ==> final(buffer)@[k] == old(buffer)@[k]
                || final(buffer)@[k] == color,
        (0 <= x1 && (x1 as int) < width as int && 0 <= y1 && (y1 as int) < height as int)
            ==> final(buffer)@[(y1 as int) * (width as int) + (x1 as int)] == color,
{
    let buffer_len: usize = buffer.len();
    let dx: i32 = if x1 >= x0 {
        x1 - x0
    } else {
        x0 - x1
    };
    let dy: i32 = if y1 >= y0 {
        y1 - y0
    } else {
        y0 - y1
    };
    let sx: i32 = if x0 < x1 {
        1
    } else {
        -1
    };
    let sy: i32 = if y0 < y1 {
        1
    } else {
        -1
    };
    let mut err: i32 = dx - dy;
    let mut x: i32 = x0;
    let mut y: i32 = y0;

    // remaining steps along each axis; the error term ties them to `err`
    let ghost mut u: int = dx as int;
    let ghost mut v: int = dy as int;

    loop
        invariant
            buffer@.len() == width * height,
            buffer_len == width * height,
            forall|k: int|
                0 <= k < buffer@.len() ==> buffer@[k] == old(buffer)@[k] || buffer@[k] == color,
            0 <= u <= dx,
            0 <= v <= dy,
            sx == 1 || sx == -1,
            sy == 1 || sy == -1,
            x == x1 - sx * u,
            y == y1 - sy * v,
            -COORD_LIMIT <= x <= COORD_LIMIT,
            -COORD_LIMIT <= y <= COORD_LIMIT,
            err == dx - dy + dy * u - dx * v,
            -2 * (dx + dy) - 2 <= err <= 2 * (dx + dy) + 2,
        decreases u + v,
    {
        if x >= 0 && x < width as i32 && y >= 0 && y < height as i32 {
            proof {
                assert((y as int) * (width as int) + (x as int) < (width as int) * (height
                    as int)) by (nonlinear_arith)
                    requires
                        0 <= (x as int) && (x as int) < (width as int),
                        0 <= (y as int) && (y as int) < (height as int),
                ;
            }
            let idx: usize = y as usize * width + x as usize;
            buffer[idx] = color;
        }
        if x == x1 && y == y1 {
            proof {
                if 0 <= x1 && (x1 as int) < width as int && 0 <= y1 && (y1 as int) < height
                    as int {
                    assert(buffer@[(y1 as int) * (width as int) + (x1 as int)] == color);
                }
            }
            break ;
        }
        proof {
            if u == 0 && v == 0 {
                assert(x == x1 && y == y1) by (nonlinear_arith)
                    requires
                        u == 0,
                        v == 0,
                        x == x1 - sx * u,
                        y == y1 - sy * v,
                ;
                assert(false);
            }
        }
        let e2: i32 = 2 * err;
        let ghost stepped_x: bool = e2 > -dy;
        let ghost stepped_y: bool = e2 < dx;
        proof {
            // neither branch firing would force both axes exhausted
            if !stepped_x && !stepped_y {
                assert((dx as int) <= 2 * (err as int) && 2 * (err as int) <= -(dy as int));
                assert(dx == 0 && dy == 0);
                assert(u == 0 && v == 0);
                assert(false);
            }
            // an exhausted axis never steps again before the endpoint
            if u == 0 && stepped_x {
                assert(err as int == dx - dy - dx * v) by (nonlinear_arith)
                    requires
                        err == dx - dy + dy * u - dx * v,
                        u == 0,
                ;
                assert(v >= 1) by {
                    if v == 0 {
                        assert(x == x1 && y == y1) by (nonlinear_arith)
                            requires
                                u == 0,
                                v == 0,
                                x == x1 - sx * u,
                                y == y1 - sy * v,
                        ;
                    }
                }
                assert(2 * (err as int) <= -(dy as int)) by (nonlinear_arith)
                    requires
                        err as int == dx - dy - dx * v,
                        v >= 1,
                        dx >= 0,
                        dy >= 0,
                        v <= dy,
                ;
                assert(false);
            }
            if v == 0 && stepped_y {
                assert(err as int == dx - dy + dy * u) by (nonlinear_arith)
                    requires
                        err == dx - dy + dy * u - dx * v,
                        v == 0,
                ;
                assert(u >= 1) by {
                    if u == 0 {
                        assert(x == x1 && y == y1) by (nonlinear_arith)
                            requires
                                u == 0,
                                v == 0,
                                x == x1 - sx * u,
                                y == y1 - sy * v,
                        ;
                    }
                }
                assert(2 * (err as int) >= dx as int) by (nonlinear_arith)
                    requires
                        err as int == dx - dy + dy * u,
                        u >= 1,
                        dx >= 0,
                        dy >= 0,
                        u <= dx,
                ;
                assert(false);
            }
        }
        if e2 > -dy {
            proof {
                assert(u >= 1);
                assert((err - dy) as int == dx - dy + dy * (u - 1) - dx * v) by (nonlinear_arith)
                    requires
                        err == dx - dy + dy * u - dx * v,
                ;
                assert(x1 - sx * (u - 1) == x + sx) by (nonlinear_arith)
                    requires
                        x == x1 - sx * u,
                ;
            }
            err = err - dy;
            x = x + sx;
            proof {
                u = u - 1;
            }
        }
        if e2 < dx {
            proof {
                assert(v >= 1);
                assert((err + dx) as int == dx - dy + dy * u - dx * (v - 1)) by (nonlinear_arith)
                    requires
                        err == dx - dy + dy * u - dx * v,
                ;
                assert(y1 - sy * (v - 1) == y + sy) by (nonlinear_arith)
                    requires
                        y == y1 - sy * v,
                ;
            }
            err = err + dx;
            y = y + sy;
            proof {
                v = v - 1;
            }
        }
    }
}

} // verus!

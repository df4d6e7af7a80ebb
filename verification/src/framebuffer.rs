//! The pixel raster that the renderer paints into: a width-by-height grid of
//! packed 24-bit colors with a background layer, a current paint color, and
//! point, line and polygon rasterization.

use vstd::arithmetic::div_mod::{lemma_fundamental_div_mod, lemma_fundamental_div_mod_converse};
use vstd::prelude::*;

use crate::bmp;
use crate::color::{color_of_hex, from_hex_value, hex_of, to_hex_value, Color};

verus! {

/// The errors that painting a point can report: the target cell lies left
/// of, above, right of, or below the raster.
#[derive(Debug, Clone, Copy, PartialEq, Eq, Structural)]
pub enum PaintPointErrors {
    XTooLarge,
    XTooSmall,
    YTooLarge,
    YTooSmall,
}

/// The errors that reading a cell can report.
#[derive(Debug, Clone, Copy, PartialEq, Eq, Structural)]
pub enum GetColorErrors {
    XTooLarge,
    YTooLarge,
}

/// A raster of `n` cells all holding the packed form of one color.
pub open spec fn filled_raster(n: int, color: Color) -> Seq<u32> {
    Seq::new(n as nat, |i: int| hex_of(color))
}

/// The cells that the integer-error line walk visits from `(cx, cy)` with
/// error term `err`, until it reaches `(x1, y1)`: at each cell twice the
/// error is compared against `-dy` to decide an x step and against `dx` to
/// decide a y step, the error falling by `dy` and rising by `dx` with the
/// steps taken. The fuel bounds the recursion; the walk from a consistent
/// start reaches the endpoint within `dx + dy` steps, so the fuel that
/// `line_walk` supplies is never exhausted.
pub open spec fn walk_cells(
    cx: int,
    cy: int,
    err: int,
    x1: int,
    y1: int,
    dir_x: int,
    dir_y: int,
    dx: int,
    dy: int,
    fuel: nat,
) -> Seq<(int, int)>
    decreases fuel,
{
    if fuel == 0 {
        Seq::empty()
    } else if cx == x1 && cy == y1 {
        seq![(cx, cy)]
    } else {
        let e2 = 2 * err;
        let ncx = if e2 > -dy {
            cx + dir_x
        } else {
            cx
        };
        let ncy = if e2 < dx {
            cy + dir_y
        } else {
            cy
        };
        let nerr = err + (if e2 > -dy {
            -dy
        } else {
            0int
        }) + (if e2 < dx {
            dx
        } else {
            0int
        });
        seq![(cx, cy)] + walk_cells(ncx, ncy, nerr, x1, y1, dir_x, dir_y, dx, dy, (fuel - 1) as nat)
    }
}

/// The cells of the line from `(x0, y0)` to `(x1, y1)`: the error starts
/// at `dx - dy` and the walk steps one cell at a time toward the second
/// endpoint, both endpoints included.
pub open spec fn line_walk(x0: int, y0: int, x1: int, y1: int) -> Seq<(int, int)> {
    let dx = if x1 >= x0 {
        x1 - x0
    } else {
        x0 - x1
    };
    let dy = if y1 >= y0 {
        y1 - y0
    } else {
        y0 - y1
    };
    let dir_x = if x0 < x1 {
        1int
    } else {
        -1int
    };
    let dir_y = if y0 < y1 {
        1int
    } else {
        -1int
    };
    walk_cells(x0, y0, dx - dy, x1, y1, dir_x, dir_y, dx, dy, (dx + dy + 1) as nat)
}

/// Painting a sequence of cells in order with one packed color: each cell
/// is bounds-checked exactly as `paint_point` checks it, and the first
/// out-of-bounds cell stops the drawing with its error, the cells before
/// it staying painted.
pub open spec fn draw_walk(buf: Seq<u32>, w: int, h: int, hex: u32, cells: Seq<(int, int)>) -> (
    Seq<u32>,
    Result<(), PaintPointErrors>,
)
    decreases cells.len(),
{
    if cells.len() == 0 {
        (buf, Ok::<(), PaintPointErrors>(()))
    } else {
        let c = cells[0];
        if c.0 < 0 {
            (buf, Err(PaintPointErrors::XTooSmall))
        } else if c.1 < 0 {
            (buf, Err(PaintPointErrors::YTooSmall))
        } else if c.0 >= w {
            (buf, Err(PaintPointErrors::XTooLarge))
        } else if c.1 >= h {
            (buf, Err(PaintPointErrors::YTooLarge))
        } else {
            draw_walk(buf.update(c.1 * w + c.0, hex), w, h, hex, cells.drop_first())
        }
    }
}

/// Drawing a polygon's edges from the `k`-th one on: each consecutive
/// pair of points is connected by the line walk, then the closing edge
/// runs from the last point back to the first; the first failing edge
/// stops the drawing with its error.
pub open spec fn draw_polygon_from(
    buf: Seq<u32>,
    w: int,
    h: int,
    hex: u32,
    points: Seq<(i64, i64)>,
    k: int,
) -> (Seq<u32>, Result<(), PaintPointErrors>)
    decreases points.len() - k,
{
    if k >= points.len() - 1 {
        draw_walk(
            buf,
            w,
            h,
            hex,
            line_walk(
                points[points.len() - 1].0 as int,
                points[points.len() - 1].1 as int,
                points[0].0 as int,
                points[0].1 as int,
            ),
        )
    } else {
        let step = draw_walk(
            buf,
            w,
            h,
            hex,
            line_walk(
                points[k].0 as int,
                points[k].1 as int,
                points[k + 1].0 as int,
                points[k + 1].1 as int,
            ),
        );
        if step.1 is Ok {
            draw_polygon_from(step.0, w, h, hex, points, k + 1)
        } else {
            step
        }
    }
}

/// Drawing a whole polygon: a single point is painted as one cell;
/// otherwise the edges are drawn in order with the closing edge last.
pub open spec fn draw_polygon(
    buf: Seq<u32>,
    w: int,
    h: int,
    hex: u32,
    points: Seq<(i64, i64)>,
) -> (Seq<u32>, Result<(), PaintPointErrors>) {
    if points.len() == 1 {
        draw_walk(buf, w, h, hex, seq![(points[0].0 as int, points[0].1 as int)])
    } else {
        draw_polygon_from(buf, w, h, hex, points, 0)
    }
}

/// A successful unit result is the `Ok` value itself.
proof fn lemma_result_ok_unit(r: Result<(), PaintPointErrors>)
    requires
        r.is_ok(),
    ensures
        r == Ok::<(), PaintPointErrors>(()),
{
    match r {
        Ok(u) => {
            assert(u == ());
        },
        Err(_) => {
            assert(false);
        },
    }
}

/// A walk with fuel left always starts at its current cell.
proof fn lemma_walk_first(
    cx: int,
    cy: int,
    err: int,
    x1: int,
    y1: int,
    dir_x: int,
    dir_y: int,
    dx: int,
    dy: int,
    fuel: nat,
)
    requires
        fuel >= 1,
    ensures
        walk_cells(cx, cy, err, x1, y1, dir_x, dir_y, dx, dy, fuel).len() >= 1,
        walk_cells(cx, cy, err, x1, y1, dir_x, dir_y, dx, dy, fuel)[0] == (cx, cy),
{
}

/// Creates a raster buffer filled with the given color.
pub fn create_filled_buffer(width: &usize, height: &usize, color: &Color) -> (r: Vec<u32>)
    requires
        *width * *height <= usize::MAX,
    ensures
        r@ == filled_raster(*width * *height, *color),
{
    let color_hex: u32 = to_hex_value(color);
    let n = *width * *height;
    let mut r: Vec<u32> = Vec::new();
    let mut i: usize = 0;
    while i < n
        invariant
            i <= n,
            r@ =~= filled_raster(i as int, *color),
            color_hex == hex_of(*color),
        decreases n - i,
    {
        r.push(color_hex);
        assert(r@ =~= filled_raster(i + 1, *color));
        i = i + 1;
    }
    r
}

fn copy_raster(v: &Vec<u32>) -> (r: Vec<u32>)
    ensures
        r@ == v@,
{
    let mut r: Vec<u32> = Vec::new();
    let mut i: usize = 0;
    while i < v.len()
        invariant
            i <= v.len(),
            r@ =~= v@.take(i as int),
        decreases v.len() - i,
    {
        r.push(v[i]);
        assert(r@ =~= v@.take(i + 1));
        i = i + 1;
    }
    assert(r@ =~= v@);
    r
}

/// The pixel raster, its background layer, and the current paint color.
/// Cells are stored row-major with the origin at the top-left corner.
#[derive(Debug)]
pub struct Framebuffer {
    pub width: usize,
    pub height: usize,
    pub buffer: Vec<u32>,
    pub background_color: Color,
    pub current_color: Color,
    pub empty_buffer: Vec<u32>,
}

impl Framebuffer {
    /// The raster that `clear` resets the buffer to.
    pub open spec fn background(&self) -> Seq<u32> {
        self.empty_buffer@
    }

    /// The color that regenerating the background layer uses.
    pub open spec fn background_color_spec(&self) -> Color {
        self.background_color
    }

    /// The color that point, line and polygon painting writes.
    pub open spec fn current_color_spec(&self) -> Color {
        self.current_color
    }

    /// Well-formedness: both rasters hold exactly one cell per pixel.
    pub open spec fn wf(&self) -> bool {
        &&& self.buffer@.len() == self.width * self.height
        &&& self.background().len() == self.width * self.height
        &&& self.width * self.height <= usize::MAX
    }

    /// True when all of the state that painting does not touch is the same
    /// in `self` as in `other`.
    pub open spec fn same_canvas(&self, other: &Framebuffer) -> bool {
        &&& self.width == other.width
        &&& self.height == other.height
        &&& self.background() == other.background()
        &&& self.background_color_spec() == other.background_color_spec()
        &&& self.current_color_spec() == other.current_color_spec()
    }

    /// Creates a framebuffer with every cell black, a black background
    /// layer, and white as the current paint color.
    pub fn new(width: usize, height: usize) -> (fb: Self)
        requires
            width * height <= usize::MAX,
        ensures
            fb.wf(),
            fb.width == width,
            fb.height == height,
            fb.buffer@ == filled_raster(width * height, Color { r: 0u8, g: 0u8, b: 0u8 }),
            fb.background() == fb.buffer@,
            fb.background_color_spec() == (Color { r: 0u8, g: 0u8, b: 0u8 }),
            fb.current_color_spec() == (Color { r: 255u8, g: 255u8, b: 255u8 }),
    {
        let background_color = Color::black();
        let current_color = Color::white();
        let empty_buffer = create_filled_buffer(&width, &height, &Color::black());
        let buffer = copy_raster(&empty_buffer);

        Framebuffer { width, height, buffer, background_color, current_color, empty_buffer }
    }

    /// Resets the raster to the stored background layer.
    pub fn clear(&mut self)
        requires
            old(self).wf(),
        ensures
            final(self).wf(),
            final(self).buffer@ == old(self).background(),
            final(self).same_canvas(old(self)),
    {
        self.buffer = copy_raster(&self.empty_buffer);
    }

    /// Snapshots the current raster as the new background layer, so that
    /// every later `clear` resets to it.
    pub fn save_as_background(&mut self)
        requires
            old(self).wf(),
        ensures
            final(self).wf(),
            final(self).background() == old(self).buffer@,
            final(self).buffer@ == old(self).buffer@,
            final(self).width == old(self).width,
            final(self).height == old(self).height,
            final(self).background_color_spec() == old(self).background_color_spec(),
            final(self).current_color_spec() == old(self).current_color_spec(),
    {
        self.empty_buffer = copy_raster(&self.buffer);
    }

    /// Sets the background color and eagerly regenerates the whole
    /// background layer from it.
    pub fn set_background_color(&mut self, new_color: Color)
        requires
            old(self).wf(),
        ensures
            final(self).wf(),
            final(self).background_color_spec() == new_color,
            final(self).background() == filled_raster(
                old(self).width * old(self).height,
                new_color,
            ),
            final(self).buffer@ == old(self).buffer@,
            final(self).width == old(self).width,
            final(self).height == old(self).height,
            final(self).current_color_spec() == old(self).current_color_spec(),
    {
        self.background_color = new_color;
        self.empty_buffer = create_filled_buffer(&self.width, &self.height, &new_color);
    }

    /// Sets the color that point, line and polygon painting will use.
    pub fn set_current_color(&mut self, new_color: Color)
        requires
            old(self).wf(),
        ensures
            final(self).wf(),
            final(self).current_color_spec() == new_color,
            final(self).buffer@ == old(self).buffer@,
            final(self).width == old(self).width,
            final(self).height == old(self).height,
            final(self).background() == old(self).background(),
            final(self).background_color_spec() == old(self).background_color_spec(),
    {
        self.current_color = new_color;
    }

    /// Paints the cell at the given (already rounded) coordinates with the
    /// current color. A negative coordinate is reported as too small; one at
    /// or past the raster's edge as too large.
    pub fn paint_point(&mut self, x: i64, y: i64) -> (r: Result<(), PaintPointErrors>)
        requires
            old(self).wf(),
        ensures
            final(self).wf(),
            final(self).same_canvas(old(self)),
            r == Err::<(), PaintPointErrors>(PaintPointErrors::XTooSmall) <==> x < 0,
            r == Err::<(), PaintPointErrors>(PaintPointErrors::YTooSmall) <==> (x >= 0 && y < 0),
            r == Err::<(), PaintPointErrors>(PaintPointErrors::XTooLarge) <==> (x >= 0 && y >= 0
                && x >= old(self).width),
            r == Err::<(), PaintPointErrors>(PaintPointErrors::YTooLarge) <==> (0 <= x < old(
                self,
            ).width && y >= 0 && y >= old(self).height),
            r.is_ok() <==> (0 <= x < old(self).width && 0 <= y < old(self).height),
            r.is_ok() ==> final(self).buffer@ == old(self).buffer@.update(
                y * old(self).width + x,
                hex_of(old(self).current_color_spec()),
            ),
            !r.is_ok() ==> final(self).buffer@ == old(self).buffer@,
    {
        if x < 0 {
            return Err(PaintPointErrors::XTooSmall);
        }
        if y < 0 {
            return Err(PaintPointErrors::YTooSmall);
        }
        if (x as u64) >= (self.width as u64) {
            return Err(PaintPointErrors::XTooLarge);
        }
        if (y as u64) >= (self.height as u64) {
            return Err(PaintPointErrors::YTooLarge);
        }
        let xi = x as usize;
        let yi = y as usize;
        proof {
            assert(yi * self.width + xi < self.width * self.height) by (nonlinear_arith)
                requires
                    xi < self.width,
                    yi < self.height,
            ;
        }
        let hex = to_hex_value(&self.current_color);
        let idx = yi * self.width + xi;
        self.buffer[idx] = hex;
        Ok(())
    }

    /// Paints a line from `(x0, y0)` to `(x1, y1)` with the current color,
    /// accumulating an integer error term to decide when to step on each
    /// axis: the painted cells are exactly those of `line_walk`, in order,
    /// as `draw_walk` fixes. Painting stops at the first out-of-bounds
    /// cell, whose error is returned with the cells before it staying
    /// painted. On success both endpoints hold the current color, and a
    /// line whose whole bounding box lies in bounds always succeeds.
    pub fn paint_line(&mut self, x0: i64, y0: i64, x1: i64, y1: i64) -> (r: Result<
        (),
        PaintPointErrors,
    >)
        requires
            old(self).wf(),
            -0x2000_0000_0000_0000 <= x0 <= 0x2000_0000_0000_0000,
            -0x2000_0000_0000_0000 <= y0 <= 0x2000_0000_0000_0000,
            -0x2000_0000_0000_0000 <= x1 <= 0x2000_0000_0000_0000,
            -0x2000_0000_0000_0000 <= y1 <= 0x2000_0000_0000_0000,
        ensures
            final(self).wf(),
            final(self).same_canvas(old(self)),
            final(self).buffer@.len() == old(self).buffer@.len(),
            forall|i: int|
                0 <= i < old(self).buffer@.len() && final(self).buffer@[i] != old(self).buffer@[i]
                    ==> final(self).buffer@[i] == hex_of(old(self).current_color_spec())
                    && vstd::math::min(x0 as int, x1 as int) <= i % (old(self).width as int)
                    <= vstd::math::max(x0 as int, x1 as int) && vstd::math::min(
                    y0 as int,
                    y1 as int,
                ) <= i / (old(self).width as int) <= vstd::math::max(y0 as int, y1 as int),
            0 <= vstd::math::min(x0 as int, x1 as int) && vstd::math::max(x0 as int, x1 as int)
                < old(self).width && 0 <= vstd::math::min(y0 as int, y1 as int) && vstd::math::max(
                y0 as int,
                y1 as int,
            ) < old(self).height ==> r.is_ok(),
            r.is_ok() ==> {
                &&& 0 <= x0 < old(self).width
                &&& 0 <= y0 < old(self).height
                &&& 0 <= x1 < old(self).width
                &&& 0 <= y1 < old(self).height
                &&& final(self).buffer@[y0 * old(self).width + x0] == hex_of(
                    old(self).current_color_spec(),
                )
                &&& final(self).buffer@[y1 * old(self).width + x1] == hex_of(
                    old(self).current_color_spec(),
                )
            },
            final(self).buffer@ == draw_walk(
                old(self).buffer@,
                old(self).width as int,
                old(self).height as int,
                hex_of(old(self).current_color_spec()),
                line_walk(x0 as int, y0 as int, x1 as int, y1 as int),
            ).0,
            r == draw_walk(
                old(self).buffer@,
                old(self).width as int,
                old(self).height as int,
                hex_of(old(self).current_color_spec()),
                line_walk(x0 as int, y0 as int, x1 as int, y1 as int),
            ).1,
    {
        let ghost buf0 = self.buffer@;
        let ghost cur = self.current_color_spec();
        let ghost w = self.width as int;
        let ghost h = self.height as int;

        let dx: i128 = if x1 >= x0 {
            (x1 as i128) - (x0 as i128)
        } else {
            (x0 as i128) - (x1 as i128)
        };
        let dy: i128 = if y1 >= y0 {
            (y1 as i128) - (y0 as i128)
        } else {
            (y0 as i128) - (y1 as i128)
        };
        let dir_x: i64 = if x0 < x1 {
            1
        } else {
            -1
        };
        let dir_y: i64 = if y0 < y1 {
            1
        } else {
            -1
        };

        let mut err: i128 = dx - dy;
        let mut current_x: i64 = x0;
        let mut current_y: i64 = y0;
        let ghost mut started: bool = false;

        proof {
            assert((x0 - x0) * (dir_x as int) == 0 && (y0 - y0) * (dir_y as int) == 0 && (x1 - x0)
                * (dir_x as int) == dx as int && (y1 - y0) * (dir_y as int) == dy as int && (err
                as int) == dx - dy - ((x0 - x0) * (dir_x as int)) * dy + ((y0 - y0) * (dir_y
                as int)) * dx) by (nonlinear_arith)
                requires
                    dir_x as int == (if x0 < x1 {
                        1int
                    } else {
                        -1int
                    }),
                    dir_y as int == (if y0 < y1 {
                        1int
                    } else {
                        -1int
                    }),
                    dx == vstd::math::max(x1 as int, x0 as int) - vstd::math::min(
                        x1 as int,
                        x0 as int,
                    ),
                    dy == vstd::math::max(y1 as int, y0 as int) - vstd::math::min(
                        y1 as int,
                        y0 as int,
                    ),
                    err == dx - dy,
            ;
        }
        let ghost hexv = hex_of(cur);
        let ghost walk0 = line_walk(x0 as int, y0 as int, x1 as int, y1 as int);
        let ghost mut fuel: int = (dx as int) + (dy as int) + 1;
        proof {
            assert(walk0 == walk_cells(
                x0 as int,
                y0 as int,
                err as int,
                x1 as int,
                y1 as int,
                dir_x as int,
                dir_y as int,
                dx as int,
                dy as int,
                fuel as nat,
            ));
        }

        loop
            invariant_except_break
                old(self).wf(),
                self.wf(),
                self.same_canvas(old(self)),
                buf0 == old(self).buffer@,
                cur == old(self).current_color_spec(),
                w == old(self).width as int,
                h == old(self).height as int,
                w * h == buf0.len(),
                -0x2000_0000_0000_0000 <= x0 <= 0x2000_0000_0000_0000,
                -0x2000_0000_0000_0000 <= y0 <= 0x2000_0000_0000_0000,
                -0x2000_0000_0000_0000 <= x1 <= 0x2000_0000_0000_0000,
                -0x2000_0000_0000_0000 <= y1 <= 0x2000_0000_0000_0000,
                dir_x as int == (if x0 < x1 {
                    1int
                } else {
                    -1int
                }),
                dir_y as int == (if y0 < y1 {
                    1int
                } else {
                    -1int
                }),
                dx == vstd::math::max(x1 as int, x0 as int) - vstd::math::min(x1 as int, x0 as int),
                dy == vstd::math::max(y1 as int, y0 as int) - vstd::math::min(y1 as int, y0 as int),
                0 <= dx <= 0x4000_0000_0000_0000,
                0 <= dy <= 0x4000_0000_0000_0000,
                self.current_color_spec() == cur,
                self.buffer@.len() == buf0.len(),
                (current_x - x0) * (dir_x as int) >= 0,
                (x1 - current_x) * (dir_x as int) >= 0,
                (current_y - y0) * (dir_y as int) >= 0,
                (y1 - current_y) * (dir_y as int) >= 0,
                err as int == dx - dy - ((current_x - x0) * (dir_x as int)) * dy + ((current_y
                    - y0) * (dir_y as int)) * dx,
                forall|i: int|
                    0 <= i < buf0.len() && self.buffer@[i] != buf0[i] ==> self.buffer@[i] == hex_of(
                        cur,
                    ) && vstd::math::min(x0 as int, x1 as int) <= i % w <= vstd::math::max(
                        x0 as int,
                        x1 as int,
                    ) && vstd::math::min(y0 as int, y1 as int) <= i / w <= vstd::math::max(
                        y0 as int,
                        y1 as int,
                    ),
                started ==> {
                    &&& 0 <= x0 < w
                    &&& 0 <= y0 < h
                    &&& self.buffer@[y0 * w + x0] == hex_of(cur)
                },
                !started ==> current_x == x0 && current_y == y0,
                hexv == hex_of(cur),
                walk0 == line_walk(x0 as int, y0 as int, x1 as int, y1 as int),
                fuel >= (x1 - current_x) * (dir_x as int) + (y1 - current_y) * (dir_y as int) + 1,
                draw_walk(buf0, w, h, hexv, walk0) == draw_walk(
                    self.buffer@,
                    w,
                    h,
                    hexv,
                    walk_cells(
                        current_x as int,
                        current_y as int,
                        err as int,
                        x1 as int,
                        y1 as int,
                        dir_x as int,
                        dir_y as int,
                        dx as int,
                        dy as int,
                        fuel as nat,
                    ),
                ),
            ensures
                self.wf(),
                self.same_canvas(old(self)),
                self.buffer@.len() == buf0.len(),
                forall|i: int|
                    0 <= i < buf0.len() && self.buffer@[i] != buf0[i] ==> self.buffer@[i] == hex_of(
                        cur,
                    ) && vstd::math::min(x0 as int, x1 as int) <= i % w <= vstd::math::max(
                        x0 as int,
                        x1 as int,
                    ) && vstd::math::min(y0 as int, y1 as int) <= i / w <= vstd::math::max(
                        y0 as int,
                        y1 as int,
                    ),
                0 <= x0 < w && 0 <= y0 < h && 0 <= x1 < w && 0 <= y1 < h,
                self.buffer@[y0 * w + x0] == hex_of(cur),
                self.buffer@[y1 * w + x1] == hex_of(cur),
                draw_walk(buf0, w, h, hexv, walk0) == (self.buffer@, Ok::<(), PaintPointErrors>(
                    (),
                )),
            decreases (x1 - current_x) * (dir_x as int) + (y1 - current_y) * (dir_y as int),
        {
            let ghost pre = self.buffer@;
            let ghost was_started = started;
            let ghost suffix = walk_cells(
                current_x as int,
                current_y as int,
                err as int,
                x1 as int,
                y1 as int,
                dir_x as int,
                dir_y as int,
                dx as int,
                dy as int,
                fuel as nat,
            );
            proof {
                assert(fuel >= 1);
                lemma_walk_first(
                    current_x as int,
                    current_y as int,
                    err as int,
                    x1 as int,
                    y1 as int,
                    dir_x as int,
                    dir_y as int,
                    dx as int,
                    dy as int,
                    fuel as nat,
                );
                // The cell about to be painted lies inside the endpoints'
                // bounding box.
                assert(vstd::math::min(x0 as int, x1 as int) <= current_x <= vstd::math::max(
                    x0 as int,
                    x1 as int,
                )) by (nonlinear_arith)
                    requires
                        (current_x - x0) * (dir_x as int) >= 0,
                        (x1 - current_x) * (dir_x as int) >= 0,
                        dir_x as int == (if x0 < x1 {
                            1int
                        } else {
                            -1int
                        }),
                ;
                assert(vstd::math::min(y0 as int, y1 as int) <= current_y <= vstd::math::max(
                    y0 as int,
                    y1 as int,
                )) by (nonlinear_arith)
                    requires
                        (current_y - y0) * (dir_y as int) >= 0,
                        (y1 - current_y) * (dir_y as int) >= 0,
                        dir_y as int == (if y0 < y1 {
                            1int
                        } else {
                            -1int
                        }),
                ;
            }
            match self.paint_point(current_x, current_y) {
                Ok(_) => {},
                Err(e) => {
                    proof {
                        // The walk's first cell is out of bounds the same
                        // way the failed paint reported, so the drawing
                        // spec stops here with the same error.
                        assert(draw_walk(self.buffer@, w, h, hexv, suffix) == (
                            self.buffer@,
                            Err::<(), PaintPointErrors>(e),
                        ));
                    }
                    return Err(e);
                },
            }
            proof {
                started = true;
                let i0 = (current_y as int) * w + (current_x as int);
                assert(0 <= current_x < w && 0 <= current_y < h);
                assert(i0 < w * h) by (nonlinear_arith)
                    requires
                        0 <= current_x < w,
                        0 <= current_y < h,
                        i0 == (current_y as int) * w + (current_x as int),
                ;
                lemma_fundamental_div_mod_converse(i0, w, current_y as int, current_x as int);
                if was_started {
                    assert(0 <= y0 * w + x0 < w * h) by (nonlinear_arith)
                        requires
                            0 <= x0 < w,
                            0 <= y0 < h,
                    ;
                    assert(self.buffer@[y0 * w + x0] == hex_of(cur));
                } else {
                    assert(i0 == y0 * w + x0);
                    assert(self.buffer@[y0 * w + x0] == hex_of(cur));
                }
                assert forall|i: int|
                    0 <= i < buf0.len() && self.buffer@[i] != buf0[i] implies self.buffer@[i]
                    == hex_of(cur) && vstd::math::min(x0 as int, x1 as int) <= i % w
                    <= vstd::math::max(x0 as int, x1 as int) && vstd::math::min(y0 as int, y1 as int)
                    <= i / w <= vstd::math::max(y0 as int, y1 as int) by {
                    if i != i0 {
                        assert(self.buffer@[i] == pre[i]);
                    }
                }
            }

            if current_x == x1 && current_y == y1 {
                proof {
                    assert(self.buffer@[y1 * w + x1] == hex_of(cur));
                    // The walk ends on the endpoint cell, which was just
                    // painted, so the drawing spec finishes successfully.
                    assert(suffix == seq![(current_x as int, current_y as int)]);
                    assert(suffix.drop_first() =~= Seq::<(int, int)>::empty());
                    assert(self.buffer@ == pre.update(
                        (current_y as int) * w + (current_x as int),
                        hexv,
                    ));
                    assert(draw_walk(pre, w, h, hexv, suffix) == draw_walk(
                        self.buffer@,
                        w,
                        h,
                        hexv,
                        suffix.drop_first(),
                    ));
                    assert(draw_walk(self.buffer@, w, h, hexv, suffix.drop_first()) == (
                        self.buffer@,
                        Ok::<(), PaintPointErrors>(()),
                    ));
                }
                break ;
            }
            let ghost xs = (current_x - x0) * (dir_x as int);
            let ghost ys = (current_y - y0) * (dir_y as int);
            let ghost pre_cx = current_x as int;
            let ghost pre_cy = current_y as int;
            let ghost pre_err = err as int;
            proof {
                assert(xs <= dx && ys <= dy) by (nonlinear_arith)
                    requires
                        xs == (current_x - x0) * (dir_x as int),
                        ys == (current_y - y0) * (dir_y as int),
                        (x1 - current_x) * (dir_x as int) >= 0,
                        (y1 - current_y) * (dir_y as int) >= 0,
                        dir_x as int == (if x0 < x1 {
                            1int
                        } else {
                            -1int
                        }),
                        dir_y as int == (if y0 < y1 {
                            1int
                        } else {
                            -1int
                        }),
                        dx == vstd::math::max(x1 as int, x0 as int) - vstd::math::min(
                            x1 as int,
                            x0 as int,
                        ),
                        dy == vstd::math::max(y1 as int, y0 as int) - vstd::math::min(
                            y1 as int,
                            y0 as int,
                        ),
                ;
                assert((x1 - current_x) * (dir_x as int) == dx - xs && (y1 - current_y) * (
                dir_y as int) == dy - ys) by (nonlinear_arith)
                    requires
                        xs == (current_x - x0) * (dir_x as int),
                        ys == (current_y - y0) * (dir_y as int),
                        dir_x as int == (if x0 < x1 {
                            1int
                        } else {
                            -1int
                        }),
                        dir_y as int == (if y0 < y1 {
                            1int
                        } else {
                            -1int
                        }),
                        dx == vstd::math::max(x1 as int, x0 as int) - vstd::math::min(
                            x1 as int,
                            x0 as int,
                        ),
                        dy == vstd::math::max(y1 as int, y0 as int) - vstd::math::min(
                            y1 as int,
                            y0 as int,
                        ),
                ;
                assert(-0x4000_0000_0000_0000_0000_0000_0000_0000 <= 2 * (err as int)
                    <= 0x4000_0000_0000_0000_0000_0000_0000_0000) by (nonlinear_arith)
                    requires
                        err as int == dx - dy - xs * dy + ys * dx,
                        0 <= xs <= dx,
                        0 <= ys <= dy,
                        0 <= dx <= 0x4000_0000_0000_0000,
                        0 <= dy <= 0x4000_0000_0000_0000,
                ;
                // When one axis is exhausted the error term blocks any
                // further step on it, so the walk never overshoots.
                if xs == dx && ys < dy {
                    assert(err <= -dy) by (nonlinear_arith)
                        requires
                            err as int == dx - dy - xs * dy + ys * dx,
                            xs == dx,
                            0 <= ys <= dy - 1,
                            dx >= 0,
                    ;
                }
                if ys == dy && xs < dx {
                    assert(err >= dx) by (nonlinear_arith)
                        requires
                            err as int == dx - dy - xs * dy + ys * dx,
                            ys == dy,
                            0 <= xs <= dx - 1,
                            dy >= 0,
                    ;
                }
                if xs == dx && ys == dy {
                    assert(current_x == x1 && current_y == y1) by (nonlinear_arith)
                        requires
                            xs == (current_x - x0) * (dir_x as int),
                            ys == (current_y - y0) * (dir_y as int),
                            xs == dx,
                            ys == dy,
                            dir_x as int == (if x0 < x1 {
                                1int
                            } else {
                                -1int
                            }),
                            dir_y as int == (if y0 < y1 {
                                1int
                            } else {
                                -1int
                            }),
                            dx == vstd::math::max(x1 as int, x0 as int) - vstd::math::min(
                                x1 as int,
                                x0 as int,
                            ),
                            dy == vstd::math::max(y1 as int, y0 as int) - vstd::math::min(
                                y1 as int,
                                y0 as int,
                            ),
                    ;
                    assert(false);
                }
                // At least one axis still steps, so the walk terminates.
                if !(2 * (err as int) > -dy) && !(2 * (err as int) < dx) {
                    assert(dx == 0 && dy == 0);
                    assert(xs == 0 && ys == 0);
                    assert(current_x == x1 && current_y == y1) by (nonlinear_arith)
                        requires
                            (current_x - x0) * (dir_x as int) == 0,
                            (current_y - y0) * (dir_y as int) == 0,
                            dir_x as int == (if x0 < x1 {
                                1int
                            } else {
                                -1int
                            }),
                            dir_y as int == (if y0 < y1 {
                                1int
                            } else {
                                -1int
                            }),
                            dx == 0,
                            dy == 0,
                            dx == vstd::math::max(x1 as int, x0 as int) - vstd::math::min(
                                x1 as int,
                                x0 as int,
                            ),
                            dy == vstd::math::max(y1 as int, y0 as int) - vstd::math::min(
                                y1 as int,
                                y0 as int,
                            ),
                    ;
                    assert(false);
                }
            }

            let e2: i128 = 2 * err;
            let ghost measure0 = (x1 - current_x) * (dir_x as int) + (y1 - current_y) * (dir_y
                as int);
            if e2 > -dy {
                err = err - dy;
                proof {
                    assert(((current_x + dir_x) - x0) * (dir_x as int) == xs + 1 && (x1
                        - (current_x + dir_x)) * (dir_x as int) == dx - (xs + 1) && (err as int)
                        == dx - dy - (xs + 1) * dy + ys * dx) by (nonlinear_arith)
                        requires
                            xs == (current_x - x0) * (dir_x as int),
                            0 <= xs < dx,
                            (x1 - current_x) * (dir_x as int) >= 0,
                            dir_x as int == (if x0 < x1 {
                                1int
                            } else {
                                -1int
                            }),
                            dx == vstd::math::max(x1 as int, x0 as int) - vstd::math::min(
                                x1 as int,
                                x0 as int,
                            ),
                            err as int == dx - dy - xs * dy + ys * dx - dy,
                    ;
                }
                current_x = current_x + dir_x;
            }
            let ghost xs2 = (current_x - x0) * (dir_x as int);
            if e2 < dx {
                err = err + dx;
                proof {
                    assert(((current_y + dir_y) - y0) * (dir_y as int) == ys + 1 && (y1
                        - (current_y + dir_y)) * (dir_y as int) == dy - (ys + 1) && (err as int)
                        == dx - dy - xs2 * dy + (ys + 1) * dx) by (nonlinear_arith)
                        requires
                            ys == (current_y - y0) * (dir_y as int),
                            0 <= ys < dy,
                            (y1 - current_y) * (dir_y as int) >= 0,
                            dir_y as int == (if y0 < y1 {
                                1int
                            } else {
                                -1int
                            }),
                            dy == vstd::math::max(y1 as int, y0 as int) - vstd::math::min(
                                y1 as int,
                                y0 as int,
                            ),
                            err as int == dx - dy - xs2 * dy + ys * dx + dx,
                    ;
                }
                current_y = current_y + dir_y;
            }
            proof {
                assert(measure0 == (dx - xs) + (dy - ys));
                assert((x1 - current_x) * (dir_x as int) + (y1 - current_y) * (dir_y as int)
                    < measure0);
                // The step the loop just took is the step the walk spec
                // takes, so the drawing spec advances over the painted
                // cell.
                assert(current_x as int == (if 2 * pre_err > -(dy as int) {
                    pre_cx + (dir_x as int)
                } else {
                    pre_cx
                }));
                assert(current_y as int == (if 2 * pre_err < dx as int {
                    pre_cy + (dir_y as int)
                } else {
                    pre_cy
                }));
                assert(err as int == pre_err + (if 2 * pre_err > -(dy as int) {
                    -(dy as int)
                } else {
                    0int
                }) + (if 2 * pre_err < dx as int {
                    dx as int
                } else {
                    0int
                }));
                let rest = walk_cells(
                    current_x as int,
                    current_y as int,
                    err as int,
                    x1 as int,
                    y1 as int,
                    dir_x as int,
                    dir_y as int,
                    dx as int,
                    dy as int,
                    (fuel - 1) as nat,
                );
                assert(suffix == seq![(pre_cx, pre_cy)] + rest);
                assert(suffix.drop_first() =~= rest);
                assert(draw_walk(pre, w, h, hexv, suffix) == draw_walk(
                    self.buffer@,
                    w,
                    h,
                    hexv,
                    rest,
                ));
                fuel = fuel - 1;
            }
        }

        Ok(())
    }

    /// Paints the given polygon: a single point paints just that point;
    /// otherwise consecutive points are connected by line walks, including
    /// a closing edge back to the first point, exactly as `draw_polygon`
    /// fixes: the first failing edge stops the drawing and returns its
    /// error, the edges before it staying painted. On success every vertex
    /// holds the current color, and a polygon whose vertices all lie in
    /// bounds always succeeds.
    #[verifier::rlimit(60)]
    #[verifier::loop_isolation(false)]
    pub fn paint_polygon(&mut self, points: &Vec<(i64, i64)>) -> (r: Result<(), PaintPointErrors>)
        requires
            old(self).wf(),
            points.len() >= 1,
            forall|k: int|
                0 <= k < points.len() ==> -0x2000_0000_0000_0000 <= #[trigger] points@[k].0
                    <= 0x2000_0000_0000_0000 && -0x2000_0000_0000_0000 <= points@[k].1
                    <= 0x2000_0000_0000_0000,
        ensures
            final(self).wf(),
            final(self).same_canvas(old(self)),
            final(self).buffer@.len() == old(self).buffer@.len(),
            forall|i: int|
                0 <= i < old(self).buffer@.len() && final(self).buffer@[i] != old(self).buffer@[i]
                    ==> final(self).buffer@[i] == hex_of(old(self).current_color_spec()),
            (forall|k: int|
                0 <= k < points.len() ==> 0 <= #[trigger] points@[k].0 < old(self).width && 0
                    <= points@[k].1 < old(self).height) ==> r.is_ok(),
            r.is_ok() ==> forall|k: int|
                0 <= k < points.len() ==> {
                    &&& 0 <= #[trigger] points@[k].0 < old(self).width
                    &&& 0 <= points@[k].1 < old(self).height
                    &&& final(self).buffer@[points@[k].1 * old(self).width + points@[k].0]
                        == hex_of(old(self).current_color_spec())
                },
            final(self).buffer@ == draw_polygon(
                old(self).buffer@,
                old(self).width as int,
                old(self).height as int,
                hex_of(old(self).current_color_spec()),
                points@,
            ).0,
            r == draw_polygon(
                old(self).buffer@,
                old(self).width as int,
                old(self).height as int,
                hex_of(old(self).current_color_spec()),
                points@,
            ).1,
    {
        let ghost buf0 = self.buffer@;
        let ghost cur = self.current_color_spec();
        let ghost w = self.width as int;
        let ghost h = self.height as int;
        let ghost hexv = hex_of(cur);
        if points.len() == 1 {
            let (x, y) = points[0];
            let r = self.paint_point(x, y);
            proof {
                // A single cell is drawn exactly as `paint_point` paints
                // it, bounds checks in the same order.
                let s = seq![(points@[0].0 as int, points@[0].1 as int)];
                assert(s.drop_first() =~= Seq::<(int, int)>::empty());
                if r.is_ok() {
                    assert(self.buffer@ == buf0.update(
                        (points@[0].1 as int) * w + (points@[0].0 as int),
                        hexv,
                    ));
                    assert(draw_walk(buf0, w, h, hexv, s) == draw_walk(
                        self.buffer@,
                        w,
                        h,
                        hexv,
                        s.drop_first(),
                    ));
                    assert(draw_walk(self.buffer@, w, h, hexv, s.drop_first()) == (
                        self.buffer@,
                        Ok::<(), PaintPointErrors>(()),
                    ));
                    lemma_result_ok_unit(r);
                    assert(draw_walk(buf0, w, h, hexv, s) == (
                        self.buffer@,
                        Ok::<(), PaintPointErrors>(()),
                    ));
                } else {
                    assert(draw_walk(buf0, w, h, hexv, s) == (self.buffer@, r));
                }
                assert(draw_polygon(buf0, w, h, hexv, points@) == draw_walk(buf0, w, h, hexv, s));
                if forall|j: int|
                    0 <= j < points.len() ==> 0 <= #[trigger] points@[j].0 < w && 0
                        <= points@[j].1 < h {
                    assert(0 <= points@[0].0 < w && 0 <= points@[0].1 < h);
                }
            }
            if r.is_ok() {
                proof {
                    assert(0 <= points@[0].1 * w + points@[0].0 < w * h) by (nonlinear_arith)
                        requires
                            0 <= points@[0].0 < w,
                            0 <= points@[0].1 < h,
                    ;
                    assert(self.buffer@[points@[0].1 * w + points@[0].0] == hex_of(cur));
                }
            }
            return r;
        }
        let mut k: usize = 0;
        while k < points.len() - 1
            invariant
                self.wf(),
                self.same_canvas(old(self)),
                self.current_color_spec() == cur,
                self.buffer@.len() == buf0.len(),
                k <= points.len() - 1,
                forall|i: int|
                    0 <= i < buf0.len() && self.buffer@[i] != buf0[i] ==> self.buffer@[i] == hex_of(
                        cur,
                    ),
                forall|j: int|
                    0 <= j < k ==> {
                        &&& 0 <= #[trigger] points@[j].0 < w
                        &&& 0 <= points@[j].1 < h
                        &&& self.buffer@[points@[j].1 * w + points@[j].0] == hex_of(cur)
                    },
                draw_polygon_from(buf0, w, h, hexv, points@, 0) == draw_polygon_from(
                    self.buffer@,
                    w,
                    h,
                    hexv,
                    points@,
                    k as int,
                ),
            decreases points.len() - 1 - k,
        {
            let ghost pre = self.buffer@;
            let (ax, ay) = points[k];
            let (bx, by) = points[k + 1];
            match self.paint_line(ax, ay, bx, by) {
                Ok(_) => {},
                Err(e) => {
                    proof {
                        lemma_changed_cells_compose(buf0, pre, self.buffer@, hex_of(cur));
                        if forall|j: int|
                            0 <= j < points.len() ==> 0 <= #[trigger] points@[j].0 < w && 0
                                <= points@[j].1 < h {
                            assert(0 <= points@[k as int].0 < w && 0 <= points@[k as int].1 < h);
                            assert(0 <= points@[k as int + 1].0 < w && 0 <= points@[k as int
                                + 1].1 < h);
                            assert(false);
                        }
                        // The failing edge stops the polygon drawing with
                        // its own error.
                        assert(points@[k as int].0 == ax && points@[k as int].1 == ay);
                        assert(points@[k as int + 1].0 == bx && points@[k as int + 1].1 == by);
                        assert(draw_polygon_from(pre, w, h, hexv, points@, k as int) == (
                            self.buffer@,
                            Err::<(), PaintPointErrors>(e),
                        ));
                    }
                    return Err(e);
                },
            }
            proof {
                lemma_changed_cells_compose(buf0, pre, self.buffer@, hex_of(cur));
                // The drawn edge advances the polygon drawing by one.
                assert(points@[k as int].0 == ax && points@[k as int].1 == ay);
                assert(points@[k as int + 1].0 == bx && points@[k as int + 1].1 == by);
                assert(draw_polygon_from(pre, w, h, hexv, points@, k as int)
                    == draw_polygon_from(self.buffer@, w, h, hexv, points@, k as int + 1));
                assert forall|j: int| 0 <= j <= k + 1 implies {
                    &&& 0 <= #[trigger] points@[j].0 < w
                    &&& 0 <= points@[j].1 < h
                    &&& self.buffer@[points@[j].1 * w + points@[j].0] == hex_of(cur)
                } by {
                    if j == k {
                        assert(points@[j].0 == ax && points@[j].1 == ay);
                        assert(self.buffer@[points@[j].1 * w + points@[j].0] == hex_of(cur));
                    } else if j == k + 1 {
                        assert(points@[j].0 == bx && points@[j].1 == by);
                        assert(self.buffer@[points@[j].1 * w + points@[j].0] == hex_of(cur));
                    } else {
                        let idx = points@[j].1 * w + points@[j].0;
                        assert(0 <= idx < w * h) by (nonlinear_arith)
                            requires
                                0 <= points@[j].0 < w,
                                0 <= points@[j].1 < h,
                                idx == points@[j].1 * w + points@[j].0,
                        ;
                        assert(pre[idx] == hex_of(cur));
                        assert(self.buffer@[idx] == hex_of(cur));
                    }
                }
            }
            k = k + 1;
        }
        let ghost pre = self.buffer@;
        let (ax, ay) = points[points.len() - 1];
        let (bx, by) = points[0];
        let closing = self.paint_line(ax, ay, bx, by);
        match closing {
            Ok(_) => {
                proof {
                    lemma_result_ok_unit(closing);
                }
            },
            Err(e) => {
                proof {
                    lemma_changed_cells_compose(buf0, pre, self.buffer@, hex_of(cur));
                    if forall|j: int|
                        0 <= j < points.len() ==> 0 <= #[trigger] points@[j].0 < w && 0
                            <= points@[j].1 < h {
                        assert(0 <= points@[points.len() - 1].0 < w && 0 <= points@[points.len()
                            - 1].1 < h);
                        assert(0 <= points@[0].0 < w && 0 <= points@[0].1 < h);
                        assert(false);
                    }
                    // The failing closing edge stops the polygon drawing
                    // with its own error.
                    assert(points@[points@.len() - 1].0 == ax && points@[points@.len() - 1].1
                        == ay);
                    assert(points@[0].0 == bx && points@[0].1 == by);
                    assert(draw_polygon_from(pre, w, h, hexv, points@, k as int) == (
                        self.buffer@,
                        Err::<(), PaintPointErrors>(e),
                    ));
                }
                return Err(e);
            },
        }
        proof {
            lemma_changed_cells_compose(buf0, pre, self.buffer@, hex_of(cur));
            // The closing edge finishes the polygon drawing.
            assert(points@[points@.len() - 1].0 == ax && points@[points@.len() - 1].1 == ay);
            assert(points@[0].0 == bx && points@[0].1 == by);
            assert(k as int >= points@.len() - 1);
            assert(self.buffer@ == draw_walk(
                pre,
                w,
                h,
                hexv,
                line_walk(ax as int, ay as int, bx as int, by as int),
            ).0);
            assert(draw_polygon_from(pre, w, h, hexv, points@, k as int) == draw_walk(
                pre,
                w,
                h,
                hexv,
                line_walk(
                    points@[points@.len() - 1].0 as int,
                    points@[points@.len() - 1].1 as int,
                    points@[0].0 as int,
                    points@[0].1 as int,
                ),
            ));
            assert(draw_polygon_from(pre, w, h, hexv, points@, k as int) == (
                self.buffer@,
                Ok::<(), PaintPointErrors>(()),
            ));
            assert forall|j: int| 0 <= j < points.len() implies {
                &&& 0 <= #[trigger] points@[j].0 < w
                &&& 0 <= points@[j].1 < h
                &&& self.buffer@[points@[j].1 * w + points@[j].0] == hex_of(cur)
            } by {
                if 1 <= j < points.len() - 1 {
                    let idx = points@[j].1 * w + points@[j].0;
                    assert(0 <= idx < w * h) by (nonlinear_arith)
                        requires
                            0 <= points@[j].0 < w,
                            0 <= points@[j].1 < h,
                            idx == points@[j].1 * w + points@[j].0,
                    ;
                    assert(pre[idx] == hex_of(cur));
                    assert(self.buffer@[idx] == hex_of(cur));
                }
            }
        }
        Ok(())
    }

    /// Reads the packed color of a cell back as a `Color`. The bounds check
    /// deliberately admits one index past the last valid row and column, as
    /// the raster's readers historically relied on; the caller must not ask
    /// for a cell whose flat index would fall outside the buffer.
    pub fn get_color(&self, x: usize, y: usize) -> (r: Result<Color, GetColorErrors>)
        requires
            self.wf(),
            x <= self.width && y <= self.height ==> y * self.width + x < self.width * self.height,
        ensures
            r == Err::<Color, GetColorErrors>(GetColorErrors::YTooLarge) <==> y > self.height,
            r == Err::<Color, GetColorErrors>(GetColorErrors::XTooLarge) <==> (y <= self.height
                && x > self.width),
            x <= self.width && y <= self.height ==> r == Ok::<Color, GetColorErrors>(
                color_of_hex(self.buffer@[y * self.width + x]),
            ),
    {
        if y > self.height {
            Err(GetColorErrors::YTooLarge)
        } else if x > self.width {
            Err(GetColorErrors::XTooLarge)
        } else {
            Ok(from_hex_value(&self.buffer[y * self.width + x]))
        }
    }

    /// Writes one rendered color per pixel into the raster: result `i` goes
    /// to the cell at column `i % width` and row `i / width`, and the
    /// current color ends up as the last written one.
    #[verifier::loop_isolation(false)]
    pub fn write_pixels(&mut self, colors: &Vec<Color>)
        requires
            old(self).wf(),
            colors.len() == old(self).width * old(self).height,
            old(self).width <= 0x7fff_ffff_ffff_ffff,
            old(self).height <= 0x7fff_ffff_ffff_ffff,
        ensures
            final(self).wf(),
            final(self).width == old(self).width,
            final(self).height == old(self).height,
            final(self).background() == old(self).background(),
            final(self).background_color_spec() == old(self).background_color_spec(),
            forall|i: int|
                0 <= i < colors.len() ==> final(self).buffer@[i] == hex_of(colors@[i]),
            colors.len() > 0 ==> final(self).current_color_spec() == colors@[colors.len() - 1],
            colors.len() == 0 ==> final(self).current_color_spec() == old(
                self,
            ).current_color_spec(),
    {
        let ghost w = self.width as int;
        let ghost h = self.height as int;
        let mut i: usize = 0;
        while i < colors.len()
            invariant
                self.wf(),
                self.width == old(self).width,
                self.height == old(self).height,
                self.background() == old(self).background(),
                self.background_color_spec() == old(self).background_color_spec(),
                i <= colors.len(),
                forall|j: int| 0 <= j < i ==> self.buffer@[j] == hex_of(colors@[j]),
                i > 0 ==> self.current_color_spec() == colors@[i - 1],
                i == 0 ==> self.current_color_spec() == old(self).current_color_spec(),
            decreases colors.len() - i,
        {
            proof {
                assert(w > 0 && h > 0) by (nonlinear_arith)
                    requires
                        w * h > 0,
                        w >= 0,
                        h >= 0,
                ;
            }
            self.set_current_color(colors[i]);
            let (x, y) = pixel_position(i, self.width);
            proof {
                lemma_fundamental_div_mod(i as int, w);
                assert(w * (i as int / w) == (i as int / w) * w) by (nonlinear_arith);
                assert(i as int == y * w + x);
                assert(y < h) by (nonlinear_arith)
                    requires
                        i as int == y * w + x,
                        0 <= x < w,
                        0 <= i < w * h,
                        w > 0,
                        h >= 0,
                        y >= 0,
                ;
            }
            let _ = self.paint_point(x as i64, y as i64);
            i = i + 1;
        }
    }

    /// Encodes the current raster as a complete bitmap file image.
    pub fn to_bmp_bytes(&self) -> (r: Vec<u8>)
        requires
            self.wf(),
            self.width * 3 + 3 <= usize::MAX,
            self.width <= u32::MAX,
            self.height <= u32::MAX,
            bmp::BMP_HEADER_SIZE + self.height * bmp::spec_row_stride(self.width as int)
                <= u32::MAX,
        ensures
            r@ == bmp::header_bytes(
                self.width as u32,
                self.height as u32,
                (self.height * bmp::spec_row_stride(self.width as int)) as u32,
            ) + bmp::flipped_rows(self.buffer@, self.width as int, self.height as nat),
    {
        bmp::bmp_file_bytes(&self.buffer, self.width, self.height)
    }
}

/// If every cell that changed between `a` and `b` holds `v`, and every cell
/// that changed between `b` and `c` holds `v`, then every cell that changed
/// between `a` and `c` holds `v`.
proof fn lemma_changed_cells_compose(a: Seq<u32>, b: Seq<u32>, c: Seq<u32>, v: u32)
    requires
        a.len() == b.len() == c.len(),
        forall|i: int| 0 <= i < a.len() && b[i] != a[i] ==> b[i] == v,
        forall|i: int| 0 <= i < a.len() && c[i] != b[i] ==> c[i] == v,
    ensures
        forall|i: int| 0 <= i < a.len() && c[i] != a[i] ==> c[i] == v,
{
}

/// Maps the flat index of a rendered pixel to its column and row.
pub fn pixel_position(i: usize, width: usize) -> (r: (usize, usize))
    requires
        width > 0,
    ensures
        r.0 == i % width,
        r.1 == i / width,
        r.0 < width,
{
    (i % width, i / width)
}

} // verus!

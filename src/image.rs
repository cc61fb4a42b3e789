//! Choosing the draw commands for a still RGBA image, with optional merging of
//! uniform 2x2 blocks.
use vstd::prelude::*;
use crate::filter::{select, DrawCommand, Placement, CANVAS_HEIGHT, CANVAS_WIDTH};
use crate::types::{Color, EncodingProfile, Pos, SizeTag};

verus! {

/// The color of pixel `p` of an RGBA raster.
pub open spec fn rgba_at(rgba: Seq<u8>, p: int) -> Color {
    Color { red: rgba[4 * p], green: rgba[4 * p + 1], blue: rgba[4 * p + 2], alpha: rgba[4 * p + 3] }
}

/// How a still image is placed and which of its pixels are drawn.
#[derive(Debug, Clone, Copy, PartialEq, Eq, Structural)]
pub struct ImageFilter {
    pub width: u32,
    pub height: u32,
    /// Pixels whose alpha is below this are skipped; `None` ignores alpha.
    pub alpha_threshold: Option<u8>,
    pub placement: Placement,
}

impl ImageFilter {
    /// Whether pixel `p` is drawn: opaque enough, and, once moved by the
    /// offset, inside the bounds and on the canvas.
    pub open spec fn keep_spec(&self, rgba: Seq<u8>, p: int) -> bool {
        let x = p % self.width as int;
        let y = p / self.width as int;
        &&& match self.alpha_threshold {
            Some(t) => rgba_at(rgba, p).alpha >= t,
            None => true,
        }
        &&& self.placement.bounds.contains_spec(self.placement.offset_x + x, self.placement.offset_y + y)
        &&& self.placement.offset_x + x < CANVAS_WIDTH
        &&& self.placement.offset_y + y < CANVAS_HEIGHT
    }

    /// The command for pixel `p` with the given size, moved by the offset.
    pub open spec fn command_spec(&self, rgba: Seq<u8>, p: int, size: SizeTag) -> DrawCommand {
        DrawCommand {
            pos: Pos {
                x: (self.placement.offset_x + p % self.width as int) as u16,
                y: (self.placement.offset_y + p / self.width as int) as u16,
            },
            color: rgba_at(rgba, p),
            size,
        }
    }

    pub open spec fn keep_fn(&self, rgba: Seq<u8>) -> spec_fn(int) -> bool {
        |p: int| self.keep_spec(rgba, p)
    }

    pub open spec fn single_fn(&self, rgba: Seq<u8>) -> spec_fn(int) -> DrawCommand {
        |p: int| self.command_spec(rgba, p, SizeTag::SinglePixel)
    }

    /// One single-pixel command per drawn pixel, in raster order.
    pub open spec fn commands_spec(&self, rgba: Seq<u8>) -> Seq<DrawCommand> {
        select((self.width * self.height) as nat, self.keep_fn(rgba), self.single_fn(rgba))
    }

    /// Whether pixel `p` heads a 2x2 block: its right, lower and lower-right
    /// neighbours exist and have its color, and all four are drawn.
    pub open spec fn merges_spec(&self, rgba: Seq<u8>, p: int) -> bool {
        let w = self.width as int;
        let x = p % w;
        let y = p / w;
        &&& x + 1 < w
        &&& y + 1 < self.height
        &&& rgba_at(rgba, p + 1) == rgba_at(rgba, p)
        &&& rgba_at(rgba, p + w) == rgba_at(rgba, p)
        &&& rgba_at(rgba, p + w + 1) == rgba_at(rgba, p)
        &&& self.keep_spec(rgba, p)
        &&& self.keep_spec(rgba, p + 1)
        &&& self.keep_spec(rgba, p + w)
        &&& self.keep_spec(rgba, p + w + 1)
    }

    /// The commands for the pixels `0..n` in raster order, and the pixels
    /// already covered by a block: a covered pixel is skipped, a block head
    /// gives one 2x2 command and covers its three other pixels, any other
    /// drawn pixel gives a single-pixel command.
    pub open spec fn merge_plan(&self, rgba: Seq<u8>, n: nat) -> (Seq<DrawCommand>, Set<int>)
        decreases n,
    {
        if n == 0 {
            (Seq::empty(), Set::empty())
        } else {
            let (cmds, covered) = self.merge_plan(rgba, (n - 1) as nat);
            let p = n - 1;
            let w = self.width as int;
            if covered.contains(p) {
                (cmds, covered)
            } else if self.merges_spec(rgba, p) {
                (cmds.push(self.command_spec(rgba, p, SizeTag::Area2x2)), covered.insert(p + 1).insert(p + w).insert(p + w + 1))
            } else if self.keep_spec(rgba, p) {
                (cmds.push(self.command_spec(rgba, p, SizeTag::SinglePixel)), covered)
            } else {
                (cmds, covered)
            }
        }
    }

    pub open spec fn merged_commands_spec(&self, rgba: Seq<u8>) -> Seq<DrawCommand> {
        self.merge_plan(rgba, (self.width * self.height) as nat).0
    }
}

/// Pixel `p` of a raster `width` wide lies at column `x`, row `y`, and its
/// bytes end within a raster `n` pixels long.
proof fn lemma_raster_index(p: int, width: int, x: int, y: int, n: int, height: int)
    requires
        0 <= x < width,
        0 <= y,
        p == y * width + x,
        p < n,
        n == width * height,
    ensures
        p % width == x,
        p / width == y,
        y < height,
        4 * p + 4 <= 4 * n,
{
    vstd::arithmetic::div_mod::lemma_fundamental_div_mod_converse(p, width, y, x);
    if y >= height {
        vstd::arithmetic::mul::lemma_mul_inequality(height, y, width);
        assert(height * width == width * height) by (nonlinear_arith);
    }
}

proof fn lemma_raster_next(p: int, width: int, x: int, y: int)
    requires
        p == y * width + x,
        x + 1 == width,
    ensures
        p + 1 == (y + 1) * width,
{
    assert(p + 1 == (y + 1) * width) by (nonlinear_arith)
        requires
            p == y * width + x,
            x + 1 == width,
    ;
}

impl ImageFilter {
    fn pixel(rgba: &Vec<u8>, p: usize) -> (r: Color)
        requires
            4 * p + 4 <= rgba@.len(),
        ensures
            r == rgba_at(rgba@, p as int),
    {
        let len = rgba.len();
        assert(4 * p + 3 < len);
        Color::new_alpha(rgba[4 * p], rgba[4 * p + 1], rgba[4 * p + 2], rgba[4 * p + 3])
    }

    fn keep(&self, rgba: &Vec<u8>, p: usize, x: u32, y: u32) -> (r: bool)
        requires
            4 * p + 4 <= rgba@.len(),
            self.width > 0,
            p as int % self.width as int == x,
            p as int / self.width as int == y,
        ensures
            r == self.keep_spec(rgba@, p as int),
    {
        let alpha_ok = match self.alpha_threshold {
            Some(t) => Self::pixel(rgba, p).alpha >= t,
            None => true,
        };
        let cx = self.placement.offset_x as u64 + x as u64;
        let cy = self.placement.offset_y as u64 + y as u64;
        alpha_ok && self.placement.bounds.contains(cx, cy) && cx < CANVAS_WIDTH as u64 && cy < CANVAS_HEIGHT as u64
    }

    /// One single-pixel command for each pixel that is drawn, in raster order.
    pub fn commands(&self, rgba: &Vec<u8>) -> (r: Vec<DrawCommand>)
        requires
            rgba@.len() == self.width * self.height * 4,
        ensures
            r@ == self.commands_spec(rgba@),
    {
        let ghost keep = self.keep_fn(rgba@);
        let ghost cmd = self.single_fn(rgba@);
        let n: usize = rgba.len() / 4;
        let width = self.width;
        let mut out: Vec<DrawCommand> = Vec::new();
        let mut p: usize = 0;
        let mut x: u32 = 0;
        let mut y: u32 = 0;
        assert(n == width * self.height);
        assert(width == 0 ==> n == 0) by (nonlinear_arith)
            requires
                n == width * self.height,
        ;
        while p < n
            invariant
                keep == self.keep_fn(rgba@),
                cmd == self.single_fn(rgba@),
                n == width * self.height,
                rgba@.len() == 4 * n,
                width == self.width,
                p <= n,
                p < n ==> x < width,
                p == y * width + x,
                out@ == select(p as nat, keep, cmd),
            decreases n - p,
        {
            proof {
                lemma_raster_index(p as int, width as int, x as int, y as int, n as int, self.height as int);
            }
            let send = self.keep(rgba, p, x, y);
            let ghost prev = out@;
            if send {
                let pos = Pos::new(self.placement.offset_x + x as u16, self.placement.offset_y + y as u16);
                let c = DrawCommand { pos, color: Self::pixel(rgba, p), size: SizeTag::SinglePixel };
                assert(c == cmd(p as int));
                out.push(c);
            }
            assert(select((p + 1) as nat, keep, cmd) == if keep(p as int) {
                prev.push(cmd(p as int))
            } else {
                prev
            });
            p = p + 1;
            x = x + 1;
            if x == width {
                proof {
                    lemma_raster_next((p - 1) as int, width as int, (x - 1) as int, y as int);
                }
                x = 0;
                y = y + 1;
            }
        }
        out
    }
}

proof fn lemma_in_raster(width: int, height: int, x: int, y: int)
    requires
        0 <= x < width,
        0 <= y < height,
    ensures
        0 <= y * width + x < width * height,
{
    vstd::arithmetic::mul::lemma_mul_inequality(y + 1, height, width);
    assert((y + 1) * width == y * width + width) by (nonlinear_arith);
    assert(height * width == width * height) by (nonlinear_arith);
    assert(0 <= y * width) by (nonlinear_arith)
        requires
            0 <= y,
            0 <= width,
    ;
}

impl ImageFilter {
    fn merges(&self, rgba: &Vec<u8>, p: usize, x: u32, y: u32) -> (r: bool)
        requires
            rgba@.len() == self.width * self.height * 4,
            x < self.width,
            y < self.height,
            p == y * self.width + x,
        ensures
            r == self.merges_spec(rgba@, p as int),
    {
        let w = self.width as usize;
        let n = rgba.len() / 4;
        proof {
            lemma_in_raster(w as int, self.height as int, x as int, y as int);
            lemma_raster_index(p as int, w as int, x as int, y as int, n as int, self.height as int);
        }
        if !(x + 1 < self.width && y + 1 < self.height) {
            return false;
        }
        proof {
            lemma_in_raster(w as int, self.height as int, x + 1, y as int);
            lemma_in_raster(w as int, self.height as int, x as int, y + 1);
            lemma_in_raster(w as int, self.height as int, x + 1, y + 1);
            assert((y + 1) * w + x == p + w && (y + 1) * w + x + 1 == p + w + 1) by (nonlinear_arith)
                requires
                    p == y * w + x,
            ;
            lemma_raster_index(p + 1, w as int, x + 1, y as int, n as int, self.height as int);
            lemma_raster_index(p + w, w as int, x as int, y + 1, n as int, self.height as int);
            lemma_raster_index(p + w + 1, w as int, x + 1, y + 1, n as int, self.height as int);
        }
        let c = Self::pixel(rgba, p);
        Self::pixel(rgba, p + 1) == c && Self::pixel(rgba, p + w) == c && Self::pixel(rgba, p + w + 1) == c
            && self.keep(rgba, p, x, y) && self.keep(rgba, p + 1, x + 1, y) && self.keep(rgba, p + w, x, y + 1)
            && self.keep(rgba, p + w + 1, x + 1, y + 1)
    }

    /// The commands for the image with uniform 2x2 blocks merged, in raster order.
    pub fn merged_commands(&self, rgba: &Vec<u8>) -> (r: Vec<DrawCommand>)
        requires
            rgba@.len() == self.width * self.height * 4,
        ensures
            r@ == self.merged_commands_spec(rgba@),
    {
        let n: usize = rgba.len() / 4;
        let width = self.width;
        assert(n == width * self.height);
        assert(width == 0 ==> n == 0) by (nonlinear_arith)
            requires
                n == width * self.height,
        ;
        let mut covered: Vec<bool> = Vec::new();
        let mut k: usize = 0;
        while k < n
            invariant
                k <= n,
                covered@ == Seq::new(k as nat, |q: int| false),
            decreases n - k,
        {
            covered.push(false);
            k = k + 1;
            assert(covered@ =~= Seq::new(k as nat, |q: int| false));
        }
        let mut out: Vec<DrawCommand> = Vec::new();
        let mut p: usize = 0;
        let mut x: u32 = 0;
        let mut y: u32 = 0;
        while p < n
            invariant
                n == width * self.height,
                rgba@.len() == self.width * self.height * 4,
                width == self.width,
                p <= n,
                p < n ==> x < width,
                p == y * width + x,
                covered@.len() == n,
                forall|q: int| 0 <= q < n ==> covered@[q] == self.merge_plan(rgba@, p as nat).1.contains(q),
                out@ == self.merge_plan(rgba@, p as nat).0,
            decreases n - p,
        {
            proof {
                lemma_raster_index(p as int, width as int, x as int, y as int, n as int, self.height as int);
            }
            let ghost prev = self.merge_plan(rgba@, p as nat);
            let w = width as usize;
            if covered[p] {
            } else if self.merges(rgba, p, x, y) {
                proof {
                    lemma_in_raster(w as int, self.height as int, x + 1, y + 1);
                    assert((y + 1) * w + x + 1 == p + w + 1) by (nonlinear_arith)
                        requires
                            p == y * w + x,
                    ;
                }
                let pos = Pos::new(self.placement.offset_x + x as u16, self.placement.offset_y + y as u16);
                let c = DrawCommand { pos, color: Self::pixel(rgba, p), size: SizeTag::Area2x2 };
                assert(c == self.command_spec(rgba@, p as int, SizeTag::Area2x2));
                out.push(c);
                covered.set(p + 1, true);
                covered.set(p + w, true);
                covered.set(p + w + 1, true);
            } else if self.keep(rgba, p, x, y) {
                let pos = Pos::new(self.placement.offset_x + x as u16, self.placement.offset_y + y as u16);
                let c = DrawCommand { pos, color: Self::pixel(rgba, p), size: SizeTag::SinglePixel };
                assert(c == self.command_spec(rgba@, p as int, SizeTag::SinglePixel));
                out.push(c);
            }
            p = p + 1;
            x = x + 1;
            if x == width {
                proof {
                    lemma_raster_next((p - 1) as int, width as int, (x - 1) as int, y as int);
                }
                x = 0;
                y = y + 1;
            }
        }
        out
    }
}

impl ImageFilter {
    /// The commands to draw the image under a profile: blocks are merged
    /// only where the profile carries a size flag.
    pub fn plan_commands(&self, profile: EncodingProfile, rgba: &Vec<u8>) -> (r: Vec<DrawCommand>)
        requires
            rgba@.len() == self.width * self.height * 4,
        ensures
            r@ == match profile {
                EncodingProfile::SizeFlag => self.merged_commands_spec(rgba@),
                EncodingProfile::Alpha => self.commands_spec(rgba@),
            },
    {
        match profile {
            EncodingProfile::SizeFlag => self.merged_commands(rgba),
            EncodingProfile::Alpha => self.commands(rgba),
        }
    }
}

} // verus!

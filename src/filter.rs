//! Choosing which pixels of a frame or image become draw commands.
use vstd::prelude::*;
use crate::dedup::{color_at, color_at_spec, DedupWindow};
use crate::types::{Color, Pos, SizeTag};

verus! {

/// Width of the remote canvas in pixels.
pub const CANVAS_WIDTH: u32 = 1920;
/// Height of the remote canvas in pixels.
pub const CANVAS_HEIGHT: u32 = 1080;

/// One thing to paint: a position, a color and the area covered.
#[derive(Debug, Clone, Copy, PartialEq, Eq, Structural)]
pub struct DrawCommand {
    pub pos: Pos,
    pub color: Color,
    pub size: SizeTag,
}

/// An inclusive box of canvas coordinates (after the offset is applied);
/// pixels outside it are skipped.
#[derive(Debug, Clone, Copy, PartialEq, Eq, Structural)]
pub struct Bounds {
    pub min_x: u16,
    pub max_x: u16,
    pub min_y: u16,
    pub max_y: u16,
}

impl Bounds {
    pub open spec fn contains_spec(&self, x: int, y: int) -> bool {
        self.min_x <= x <= self.max_x && self.min_y <= y <= self.max_y
    }

    pub fn contains(&self, x: u64, y: u64) -> (r: bool)
        ensures
            r == self.contains_spec(x as int, y as int),
    {
        self.min_x as u64 <= x && x <= self.max_x as u64 && self.min_y as u64 <= y && y <= self.max_y as u64
    }
}

/// A coordinate equal to a bound is inside the box; one unit past it, on
/// either axis, is outside.
pub proof fn lemma_bounds_inclusive(b: Bounds, x: int, y: int)
    requires
        b.min_x <= x <= b.max_x,
        b.min_y <= y <= b.max_y,
    ensures
        b.contains_spec(b.min_x as int, y),
        b.contains_spec(b.max_x as int, y),
        b.contains_spec(x, b.min_y as int),
        b.contains_spec(x, b.max_y as int),
        !b.contains_spec(b.min_x - 1, y),
        !b.contains_spec(b.max_x + 1, y),
        !b.contains_spec(x, b.min_y - 1),
        !b.contains_spec(x, b.max_y + 1),
{
}

/// Where the source lands on the canvas, and which part of it is drawn.
#[derive(Debug, Clone, Copy, PartialEq, Eq, Structural)]
pub struct Placement {
    pub offset_x: u16,
    pub offset_y: u16,
    pub bounds: Bounds,
}

/// A stream geometry that would reach past the canvas.
#[derive(Debug, Clone, Copy, PartialEq, Eq, Structural)]
pub enum GeometryError {
    /// The x offset plus the frame width exceeds the canvas width.
    WidthOutOfCanvas,
    /// The y offset plus the frame height exceeds the canvas height.
    HeightOutOfCanvas,
}

/// The commands for the pixels `0..n` of a raster, in order, that `keep` lets through.
pub open spec fn select(n: nat, keep: spec_fn(int) -> bool, cmd: spec_fn(int) -> DrawCommand) -> Seq<DrawCommand>
    decreases n,
{
    if n == 0 {
        Seq::empty()
    } else {
        let prev = select((n - 1) as nat, keep, cmd);
        if keep(n - 1) {
            prev.push(cmd(n - 1))
        } else {
            prev
        }
    }
}

/// Rejects frame sizes that, placed at the offset, would leave the canvas.
pub fn check_stream_geometry(placement: Placement, width: u16, height: u16) -> (r: Result<(), GeometryError>)
    ensures
        placement.offset_x + width > CANVAS_WIDTH ==> r == Err::<(), GeometryError>(GeometryError::WidthOutOfCanvas),
        placement.offset_x + width <= CANVAS_WIDTH && placement.offset_y + height > CANVAS_HEIGHT
            ==> r == Err::<(), GeometryError>(GeometryError::HeightOutOfCanvas),
        placement.offset_x + width <= CANVAS_WIDTH && placement.offset_y + height <= CANVAS_HEIGHT
            ==> r == Ok::<(), GeometryError>(()),
{
    if placement.offset_x as u32 + width as u32 > CANVAS_WIDTH {
        Err(GeometryError::WidthOutOfCanvas)
    } else if placement.offset_y as u32 + height as u32 > CANVAS_HEIGHT {
        Err(GeometryError::HeightOutOfCanvas)
    } else {
        Ok(())
    }
}

/// The per-run state of the streaming path: frame geometry, placement and
/// the history window.
pub struct StreamFilter {
    width: u16,
    height: u16,
    placement: Placement,
    window: DedupWindow,
}

impl StreamFilter {
    pub closed spec fn width(&self) -> nat {
        self.width as nat
    }

    pub closed spec fn height(&self) -> nat {
        self.height as nat
    }

    pub closed spec fn placement(&self) -> Placement {
        self.placement
    }

    pub closed spec fn window(&self) -> DedupWindow {
        self.window
    }

    /// Bytes per pixel of the frames: 3, or 4 with alpha.
    pub open spec fn bytes_per_pixel(&self) -> nat {
        self.window().bytes_per_pixel()
    }

    /// The length that every frame must have.
    pub open spec fn frame_len(&self) -> nat {
        self.width() * self.height() * self.bytes_per_pixel()
    }

    pub closed spec fn wf(&self) -> bool {
        &&& self.window.wf()
        &&& self.window.frame_len() == self.width * self.height * self.window.bytes_per_pixel()
        &&& self.placement.offset_x + self.width <= CANVAS_WIDTH
        &&& self.placement.offset_y + self.height <= CANVAS_HEIGHT
    }

    /// Whether pixel `p` of `frame` is sent: inside the bounds, and not held back by the window.
    pub open spec fn keep_spec(&self, frame: Seq<u8>, p: int) -> bool {
        let bpp = self.bytes_per_pixel() as int;
        &&& self.placement().bounds.contains_spec(
            self.placement().offset_x + p % self.width() as int,
            self.placement().offset_y + p / self.width() as int,
        )
        &&& self.window().should_send_spec(p * bpp, color_at_spec(frame, p * bpp, bpp))
    }

    /// The single-pixel command for pixel `p` of `frame`, moved by the offset.
    pub open spec fn command_spec(&self, frame: Seq<u8>, p: int) -> DrawCommand {
        let bpp = self.bytes_per_pixel() as int;
        DrawCommand {
            pos: Pos {
                x: (self.placement().offset_x + p % self.width() as int) as u16,
                y: (self.placement().offset_y + p / self.width() as int) as u16,
            },
            color: color_at_spec(frame, p * bpp, bpp),
            size: SizeTag::SinglePixel,
        }
    }

    /// The commands for a whole frame, in raster order.
    pub open spec fn frame_commands_spec(&self, frame: Seq<u8>) -> Seq<DrawCommand> {
        select(self.width() * self.height(), self.keep_fn(frame), self.command_fn(frame))
    }

    pub open spec fn keep_fn(&self, frame: Seq<u8>) -> spec_fn(int) -> bool {
        |p: int| self.keep_spec(frame, p)
    }

    pub open spec fn command_fn(&self, frame: Seq<u8>) -> spec_fn(int) -> DrawCommand {
        |p: int| self.command_spec(frame, p)
    }

    /// Starts a stream of `width` x `height` frames, with alpha or without,
    /// suppressing pixels that stayed the same over `resend_same_pixel_max`
    /// frames (0: never suppress).
    pub fn new(resend_same_pixel_max: usize, width: u16, height: u16, has_alpha: bool, placement: Placement)
        -> (r: Result<StreamFilter, GeometryError>)
        ensures
            match check_geometry_spec(placement, width, height) {
                Err(e) => r == Err::<StreamFilter, GeometryError>(e),
                Ok(_) => r is Ok,
            },
            r matches Ok(s) ==> {
                &&& s.wf()
                &&& s.width() == width
                &&& s.height() == height
                &&& s.placement() == placement
                &&& s.bytes_per_pixel() == if has_alpha { 4nat } else { 3nat }
                &&& s.window().capacity() == resend_same_pixel_max
                &&& s.window().frames().len() == 0
            },
    {
        match check_stream_geometry(placement, width, height) {
            Err(e) => Err(e),
            Ok(()) => {
                let bpp: usize = if has_alpha { 4 } else { 3 };
                assert(width as int * height as int * bpp as int <= 1920 * 1080 * 4) by (nonlinear_arith)
                    requires
                        width <= 1920,
                        height <= 1080,
                        bpp <= 4,
                ;
                let frame_len: usize = width as usize * height as usize * bpp;
                let window = DedupWindow::new(resend_same_pixel_max, bpp, frame_len);
                Ok(StreamFilter { width, height, placement, window })
            },
        }
    }
}

proof fn lemma_pixel_offset(p: int, n: int, bpp: int)
    requires
        0 <= p < n,
        0 <= bpp,
    ensures
        p * bpp + bpp <= n * bpp,
        0 <= p * bpp,
{
    assert(p * bpp + bpp <= n * bpp) by (nonlinear_arith)
        requires
            0 <= p < n,
            0 <= bpp,
    ;
    assert(0 <= p * bpp) by (nonlinear_arith)
        requires
            0 <= p,
            0 <= bpp,
    ;
}

/// Pixel `p` of a raster `width` wide lies at column `x`, row `y`.
proof fn lemma_raster_pos(p: int, width: int, x: int, y: int)
    requires
        0 <= x < width,
        p == y * width + x,
    ensures
        p % width == x,
        p / width == y,
{
    vstd::arithmetic::div_mod::lemma_fundamental_div_mod_converse(p, width, y, x);
}

impl StreamFilter {
    /// Turns one frame into the commands to send, in raster order, then
    /// retains the frame in the history window.
    pub fn frame_commands(&mut self, frame: Vec<u8>) -> (r: Vec<DrawCommand>)
        requires
            old(self).wf(),
            frame@.len() == old(self).frame_len(),
        ensures
            r@ == old(self).frame_commands_spec(frame@),
            final(self).wf(),
            final(self).width() == old(self).width(),
            final(self).height() == old(self).height(),
            final(self).placement() == old(self).placement(),
            final(self).bytes_per_pixel() == old(self).bytes_per_pixel(),
            final(self).window().capacity() == old(self).window().capacity(),
            final(self).window().frames() == old(self).window().after_record(frame@),
    {
        let ghost me = *self;
        let ghost keep = me.keep_fn(frame@);
        let ghost cmd = me.command_fn(frame@);
        let bpp = self.window.bytes_per_pixel_exec();
        let width = self.width as usize;
        assert(self.width as int * self.height as int <= 1920 * 1080) by (nonlinear_arith)
            requires
                self.width <= 1920,
                self.height <= 1080,
        ;
        let n: usize = self.width as usize * self.height as usize;
        assert(width == 0 ==> n == 0) by (nonlinear_arith)
            requires
                n == width * self.height(),
        ;
        assert(n * bpp <= 1920 * 1080 * 4) by (nonlinear_arith)
            requires
                n <= 1920 * 1080,
                bpp <= 4,
        ;
        let mut out: Vec<DrawCommand> = Vec::new();
        let mut p: usize = 0;
        let mut x: u32 = 0;
        let mut y: u32 = 0;
        while p < n
            invariant
                self.wf(),
                *self == me,
                me == *old(self),
                keep == me.keep_fn(frame@),
                cmd == me.command_fn(frame@),
                bpp == self.bytes_per_pixel(),
                bpp == 3 || bpp == 4,
                width == self.width(),
                n == self.width() * self.height(),
                frame@.len() == self.frame_len(),
                p <= n,
                n <= 1920 * 1080,
                n * bpp <= 1920 * 1080 * 4,
                p < n ==> x < width,
                p == y * width + x,
                out@ == select(p as nat, keep, cmd),
            decreases n - p,
        {
            proof {
                lemma_raster_pos(p as int, width as int, x as int, y as int);
                lemma_pixel_offset(p as int, n as int, bpp as int);
                assert(y < self.height()) by (nonlinear_arith)
                    requires
                        p == y * width + x,
                        p < n,
                        n == width * self.height(),
                        0 <= x,
                ;
            }
            let offset = p * bpp;
            let color = color_at(&frame, offset, bpp);
            let cx = self.placement.offset_x as u64 + x as u64;
            let cy = self.placement.offset_y as u64 + y as u64;
            let send = self.placement.bounds.contains(cx, cy) && self.window.should_send(offset, color);
            assert(send == keep(p as int));
            let ghost prev = out@;
            if send {
                let pos = Pos::new(self.placement.offset_x + x as u16, self.placement.offset_y + y as u16);
                let c = DrawCommand { pos, color, size: SizeTag::SinglePixel };
                assert(c == cmd(p as int));
                out.push(c);
            }
            assert(select((p + 1) as nat, keep, cmd) == if keep(p as int) {
                prev.push(cmd(p as int))
            } else {
                prev
            });
            p = p + 1;
            x = x + 1;
            if x as usize == width {
                x = 0;
                y = y + 1;
                assert(p == y * width + x) by (nonlinear_arith)
                    requires
                        p == (y - 1) * width + width,
                        x == 0,
                ;
            }
        }
        self.window.record(frame);
        out
    }
}

/// What `check_stream_geometry` returns.
pub open spec fn check_geometry_spec(placement: Placement, width: u16, height: u16) -> Result<(), GeometryError> {
    if placement.offset_x + width > CANVAS_WIDTH {
        Err(GeometryError::WidthOutOfCanvas)
    } else if placement.offset_y + height > CANVAS_HEIGHT {
        Err(GeometryError::HeightOutOfCanvas)
    } else {
        Ok(())
    }
}

} // verus!

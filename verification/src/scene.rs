//! The scene as the owner of the output buffer, and the frame render.

use vstd::prelude::*;
use crate::pixel_buffer::{background, pixel_of_place, place_of_pixel, Frame, PixelBuffer, Rgb};

verus! {

/// What tracing the primary ray of pixel `(x, y)` gave: a colour, or `None`
/// where the ray struck nothing. The traced colours of a frame are listed
/// in the order in which the frame is traversed, column by column, so the
/// entry of pixel `(x, y)` is at `x * height + y`. A pixel without an entry
/// counts as not struck.
pub open spec fn traced_at(traced: Seq<Option<Rgb>>, height: nat, x: int, y: int) -> Option<Rgb> {
    let k = x * height + y;
    if 0 <= k < traced.len() {
        traced[k]
    } else {
        None
    }
}

/// The colour at place `k` of a frame after a render: the traced colour of
/// the pixel at that place, or the colour from before where the pixel was
/// not struck.
pub open spec fn drawn_at(frame: Frame, traced: Seq<Option<Rgb>>, k: int) -> Rgb {
    match traced_at(traced, frame.height, k % (frame.width as int), k / (frame.width as int)) {
        Some(colour) => colour,
        None => frame.pixels[k],
    }
}

/// The frame after a render.
pub open spec fn drawn(frame: Frame, traced: Seq<Option<Rgb>>) -> Frame {
    Frame { pixels: Seq::new(frame.pixels.len(), |k: int| drawn_at(frame, traced, k)), ..frame }
}

/// Whether the render has been at the pixel at place `k` when it is about to
/// visit pixel `(x, y)`.
spec fn visited(width: int, k: int, x: int, y: int) -> bool {
    k % width < x || (k % width == x && k / width < y)
}

/// The frame in the middle of a render, when pixel `(x, y)` is about to be
/// visited: the pixels visited so far are as after the render, the others as
/// before it.
spec fn drawn_until(frame: Frame, traced: Seq<Option<Rgb>>, x: int, y: int) -> Frame {
    Frame {
        pixels: Seq::new(
            frame.pixels.len(),
            |k: int|
                if visited(frame.width as int, k, x, y) {
                    drawn_at(frame, traced, k)
                } else {
                    frame.pixels[k]
                },
        ),
        ..frame
    }
}

/// Before the first pixel is visited the frame is as it was.
proof fn render_starts(frame: Frame, traced: Seq<Option<Rgb>>)
    requires
        frame.wf(),
    ensures
        drawn_until(frame, traced, 0, 0) == frame,
{
    assert forall|k: int| 0 <= k < frame.pixels.len() implies !visited(
        frame.width as int,
        k,
        0,
        0,
    ) by {
        pixel_of_place(frame.width, frame.height, k);
    }
    assert(drawn_until(frame, traced, 0, 0).pixels =~= frame.pixels);
}

/// Visiting pixel `(x, y)` writes its traced colour, if it has one.
proof fn render_steps(frame: Frame, traced: Seq<Option<Rgb>>, x: int, y: int)
    requires
        frame.wf(),
        frame.contains(x, y),
    ensures
        drawn_until(frame, traced, x, y + 1) == match traced_at(traced, frame.height, x, y) {
            Some(colour) => drawn_until(frame, traced, x, y).set(x, y, colour),
            None => drawn_until(frame, traced, x, y),
        },
{
    let next = match traced_at(traced, frame.height, x, y) {
        Some(colour) => drawn_until(frame, traced, x, y).set(x, y, colour),
        None => drawn_until(frame, traced, x, y),
    };
    place_of_pixel(frame.width, frame.height, x, y);
    assert forall|k: int| 0 <= k < frame.pixels.len() implies drawn_until(
        frame,
        traced,
        x,
        y + 1,
    ).pixels[k] == next.pixels[k] by {
        pixel_of_place(frame.width, frame.height, k);
    }
    assert(drawn_until(frame, traced, x, y + 1).pixels =~= next.pixels);
}

/// After the last pixel of a column the render stands at the top of the next
/// column.
proof fn render_turns(frame: Frame, traced: Seq<Option<Rgb>>, x: int)
    requires
        frame.wf(),
    ensures
        drawn_until(frame, traced, x, frame.height as int) == drawn_until(frame, traced, x + 1, 0),
{
    assert forall|k: int| 0 <= k < frame.pixels.len() implies visited(
        frame.width as int,
        k,
        x,
        frame.height as int,
    ) == visited(frame.width as int, k, x + 1, 0) by {
        pixel_of_place(frame.width, frame.height, k);
    }
    assert(drawn_until(frame, traced, x, frame.height as int).pixels =~= drawn_until(
        frame,
        traced,
        x + 1,
        0,
    ).pixels);
}

/// After the last column every pixel has been visited.
proof fn render_ends(frame: Frame, traced: Seq<Option<Rgb>>)
    requires
        frame.wf(),
    ensures
        drawn_until(frame, traced, frame.width as int, 0) == drawn(frame, traced),
{
    assert forall|k: int| 0 <= k < frame.pixels.len() implies visited(
        frame.width as int,
        k,
        frame.width as int,
        0,
    ) by {
        pixel_of_place(frame.width, frame.height, k);
    }
    assert(drawn_until(frame, traced, frame.width as int, 0).pixels =~= drawn(
        frame,
        traced,
    ).pixels);
}

/// After a render, a pixel whose primary ray gave a colour has that colour,
/// and any other pixel has the colour it had before.
pub proof fn drawn_pixel(frame: Frame, traced: Seq<Option<Rgb>>, x: int, y: int)
    requires
        frame.wf(),
        frame.contains(x, y),
    ensures
        drawn(frame, traced).at(x, y) == match traced_at(traced, frame.height, x, y) {
            Some(colour) => colour,
            None => frame.at(x, y),
        },
{
    place_of_pixel(frame.width, frame.height, x, y);
}

/// Rendering the same traced frame a second time changes nothing: the buffer
/// is the same, byte for byte, as after the first render.
pub proof fn draw_twice_is_draw_once(frame: Frame, traced: Seq<Option<Rgb>>)
    ensures
        drawn(drawn(frame, traced), traced) == drawn(frame, traced),
        drawn(drawn(frame, traced), traced).bytes() == drawn(frame, traced).bytes(),
{
    assert(drawn(drawn(frame, traced), traced).pixels =~= drawn(frame, traced).pixels);
}

/// The part of a scene that a render changes: the output buffer, at the
/// resolution of the scene. Camera, lights and shapes stay with the caller.
pub struct Scene {
    pixel_buffer: PixelBuffer,
}

impl View for Scene {
    type V = Frame;

    closed spec fn view(&self) -> Frame {
        self.pixel_buffer@
    }
}

impl Scene {
    /// A scene that renders at the given resolution, its output at the
    /// background colour, unless the colours of that many pixels would take
    /// more bytes than one allocation can hold.
    pub fn new(width: u32, height: u32) -> (scene: Option<Scene>)
        ensures
            scene is Some <==> 3 * (width * height) <= isize::MAX,
            scene matches Some(s) ==> {
                &&& s@.wf()
                &&& s@.width == width
                &&& s@.height == height
                &&& forall|k: int| 0 <= k < s@.pixels.len() ==> s@.pixels[k] == background()
            },
    {
        match PixelBuffer::new(width, height) {
            Some(pixel_buffer) => Some(Scene { pixel_buffer }),
            None => None,
        }
    }

    /// The output buffer.
    pub fn pixel_buffer(&self) -> (buffer: &PixelBuffer)
        ensures
            buffer@ == self@,
    {
        &self.pixel_buffer
    }

    /// Writes a traced frame into the output buffer. The pixels are visited
    /// column by column; the order does not show in the result.
    pub fn draw(&mut self, traced: &Vec<Option<Rgb>>)
        ensures
            final(self)@ == drawn(old(self)@, traced@),
    {
        let width = self.pixel_buffer.width();
        let height = self.pixel_buffer.height();
        let ghost before = self@;
        proof {
            use_type_invariant(&self.pixel_buffer);
            render_starts(before, traced@);
        }
        let mut x: u32 = 0;
        while x < width
            invariant
                x <= width,
                before.wf(),
                3 * before.pixels.len() <= isize::MAX,
                before.width == width,
                before.height == height,
                self@ == drawn_until(before, traced@, x as int, 0),
            decreases width - x,
        {
            let mut y: u32 = 0;
            while y < height
                invariant
                    x < width,
                    y <= height,
                    before.wf(),
                    3 * before.pixels.len() <= isize::MAX,
                    before.width == width,
                    before.height == height,
                    self@ == drawn_until(before, traced@, x as int, y as int),
                decreases height - y,
            {
                proof {
                    place_of_pixel(height as nat, width as nat, y as int, x as int);
                    assert(width * height == height * width) by (nonlinear_arith);
                    render_steps(before, traced@, x as int, y as int);
                }
                let entry = x as usize * height as usize + y as usize;
                if entry < traced.len() {
                    if let Some(colour) = traced[entry] {
                        self.pixel_buffer.set_pixel(x, y, colour);
                    }
                }
                y = y + 1;
            }
            proof {
                render_turns(before, traced@, x as int);
            }
            x = x + 1;
        }
        proof {
            render_ends(before, traced@);
        }
    }
}

} // verus!

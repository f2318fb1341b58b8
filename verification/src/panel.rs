//! The T-Deck panel's drawing surface.
//!
//! The panel driver draws straight to the SPI bus, so redrawing a static
//! screen every frame would wipe the panel with the background colour before
//! the widgets are drawn again, a visible blink. Frames are therefore drawn
//! into an offscreen framebuffer, and a frame is pushed to the panel only
//! when it differs from the last one pushed. Drawing into RAM is cheap; the
//! SPI transfer is the expensive part and is skipped when the screen is
//! unchanged. The transfer itself belongs to the board code: it asks
//! [`TdeckScreen::needs_flush`], pushes [`TdeckScreen::frame`] and, when the
//! transfer succeeded, calls [`TdeckScreen::mark_flushed`].

use vstd::prelude::*;

use crate::framebuffer::{
    contiguous_fits,
    contiguous_pixels,
    put_pixels,
    solid_pixels,
    FrameModel,
    Framebuffer,
};
use crate::theme::{Color, rgb};

verus! {

/// The frame `f` with `pixels` in place of its own.
pub open spec fn with_pixels(f: FrameModel, pixels: Seq<Color>) -> FrameModel {
    FrameModel { width: f.width, height: f.height, pixels }
}

/// The pixels of `f` after putting each of `pixels` (x, y, colour) in
/// turn; positions outside the frame are skipped.
pub open spec fn put_all(f: FrameModel, pixels: Seq<(i32, i32, Color)>) -> Seq<Color>
    decreases pixels.len(),
{
    if pixels.len() == 0 {
        f.pixels
    } else {
        let (x, y, c) = pixels.last();
        put_pixels(with_pixels(f, put_all(f, pixels.drop_last())), x, y, c)
    }
}

/// Offscreen frame of the T-Deck panel, with the last frame pushed to it.
pub struct TdeckScreen {
    frame: Framebuffer,
    flushed: Vec<Color>,
}

impl TdeckScreen {
    /// The frame is well formed and the copy of the last frame pushed has
    /// as many pixels.
    pub closed spec fn wf(&self) -> bool {
        &&& self.frame.wf()
        &&& self.flushed@.len() == self.frame@.pixels.len()
    }

    /// The frame being drawn.
    pub closed spec fn frame_view(&self) -> FrameModel {
        self.frame@
    }

    /// The pixels last pushed to the panel.
    pub closed spec fn flushed_view(&self) -> Seq<Color> {
        self.flushed@
    }

    /// A black `width`×`height` surface; the panel is taken to show black.
    pub fn new(width: u32, height: u32) -> (r: Self)
        requires
            width * height <= u32::MAX,
            width <= i32::MAX,
            height <= i32::MAX,
        ensures
            r.wf(),
            r.frame_view().width == width,
            r.frame_view().height == height,
            r.frame_view().pixels == Seq::new((width * height) as nat, |_i: int| rgb(0, 0, 0)),
            r.flushed_view() == r.frame_view().pixels,
    {
        let frame = Framebuffer::new(width, height);
        let flushed = frame.to_pixels();
        TdeckScreen { frame, flushed }
    }

    /// Width and height in pixels.
    pub fn size(&self) -> (r: (u32, u32))
        ensures
            r == (self.frame_view().width, self.frame_view().height),
    {
        (self.frame.width(), self.frame.height())
    }

    /// The frame being drawn, to push to the panel.
    pub fn frame(&self) -> (r: &Framebuffer)
        ensures
            r@ == self.frame_view(),
    {
        &self.frame
    }

    /// Put each of `pixels` (x, y, colour) in turn; positions outside the
    /// frame are skipped.
    pub fn draw_iter(&mut self, pixels: &[(i32, i32, Color)])
        requires
            old(self).wf(),
            forall|i: int| 0 <= i < pixels@.len() ==> (#[trigger] pixels@[i]).2.wf(),
        ensures
            final(self).wf(),
            final(self).frame_view() == with_pixels(
                old(self).frame_view(),
                put_all(old(self).frame_view(), pixels@),
            ),
            final(self).flushed_view() == old(self).flushed_view(),
    {
        let ghost f = self.frame@;
        let mut i: usize = 0;
        while i < pixels.len()
            invariant
                i <= pixels@.len(),
                self.wf(),
                self.frame@ == with_pixels(f, put_all(f, pixels@.subrange(0, i as int))),
                self.flushed@ == old(self).flushed@,
                self.flushed@.len() == f.pixels.len(),
                f == old(self).frame@,
                forall|j: int| 0 <= j < pixels@.len() ==> (#[trigger] pixels@[j]).2.wf(),
            decreases pixels@.len() - i,
        {
            let (x, y, c) = pixels[i];
            assert(pixels@[i as int].2.wf());
            self.frame.put(x, y, c);
            proof {
                let s = pixels@.subrange(0, i + 1);
                assert(s.drop_last() =~= pixels@.subrange(0, i as int));
                assert(s.last() == pixels@[i as int]);
            }
            i += 1;
        }
        assert(pixels@.subrange(0, pixels@.len() as int) =~= pixels@);
    }

    /// Write `colors` row by row into the area at `x`, `y` that is `width`
    /// pixels wide (see [`contiguous_pixels`]).
    pub fn fill_contiguous(&mut self, x: i32, y: i32, width: u32, colors: &[Color])
        requires
            old(self).wf(),
            forall|i: int| 0 <= i < colors@.len() ==> (#[trigger] colors@[i]).wf(),
            width <= i32::MAX,
            colors@.len() <= i32::MAX,
            contiguous_fits(x, y, width, colors@.len()),
        ensures
            final(self).wf(),
            final(self).frame_view() == with_pixels(
                old(self).frame_view(),
                contiguous_pixels(old(self).frame_view(), x, y, width, colors@),
            ),
            final(self).flushed_view() == old(self).flushed_view(),
    {
        self.frame.fill_contiguous(x, y, width, colors);
    }

    /// Fill the rectangle at `x`, `y` of `w` × `h` pixels with `color`,
    /// clipped to the frame.
    pub fn fill_solid(&mut self, x: i32, y: i32, w: u32, h: u32, color: Color)
        requires
            old(self).wf(),
            color.wf(),
            w <= i32::MAX,
            h <= i32::MAX,
            x + w <= i32::MAX,
            y + h <= i32::MAX,
        ensures
            final(self).wf(),
            final(self).frame_view() == with_pixels(
                old(self).frame_view(),
                solid_pixels(old(self).frame_view(), x, y, w, h, color),
            ),
            final(self).flushed_view() == old(self).flushed_view(),
    {
        self.frame.fill_solid(x, y, w, h, color);
    }

    /// Fill the whole frame with `color`.
    pub fn clear(&mut self, color: Color)
        requires
            old(self).wf(),
            color.wf(),
        ensures
            final(self).wf(),
            final(self).frame_view() == with_pixels(
                old(self).frame_view(),
                Seq::new(old(self).frame_view().pixels.len(), |_i: int| color),
            ),
            final(self).flushed_view() == old(self).flushed_view(),
    {
        self.frame.clear(color);
    }

    /// Whether the frame differs from the last frame pushed to the panel:
    /// an unchanged frame is not pushed again.
    pub fn needs_flush(&self) -> (r: bool)
        ensures
            r == (self.frame_view().pixels != self.flushed_view()),
    {
        !self.frame.same_pixels(&self.flushed)
    }

    /// Record that the frame was pushed to the panel.
    pub fn mark_flushed(&mut self)
        requires
            old(self).wf(),
        ensures
            final(self).wf(),
            final(self).frame_view() == old(self).frame_view(),
            final(self).flushed_view() == old(self).frame_view().pixels,
    {
        self.flushed = self.frame.to_pixels();
    }
}

} // verus!

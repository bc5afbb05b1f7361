//! The frame buffer that the emulator draws into.

use vstd::prelude::*;

verus! {

/// The eight colours of the machine.
#[derive(Clone, Copy, Debug, PartialEq, Eq, Structural)]
pub enum ZxColor {
    Black,
    Blue,
    Red,
    Purple,
    Green,
    Cyan,
    Yellow,
    White,
}

/// The two levels of brightness.
#[derive(Clone, Copy, Debug, PartialEq, Eq, Structural)]
pub enum ZxBrightness {
    Normal,
    Bright,
}

/// One colour channel: off, on, or on and bright.
pub open spec fn channel(on: bool, brightness: ZxBrightness) -> u32 {
    if !on {
        0x00
    } else if brightness == ZxBrightness::Bright {
        0xFF
    } else {
        0xCD
    }
}

/// Whether a colour has red in it.
pub open spec fn has_red(color: ZxColor) -> bool {
    color == ZxColor::Red || color == ZxColor::Purple || color == ZxColor::Yellow || color
        == ZxColor::White
}

/// Whether a colour has green in it.
pub open spec fn has_green(color: ZxColor) -> bool {
    color == ZxColor::Green || color == ZxColor::Cyan || color == ZxColor::Yellow || color
        == ZxColor::White
}

/// Whether a colour has blue in it.
pub open spec fn has_blue(color: ZxColor) -> bool {
    color == ZxColor::Blue || color == ZxColor::Purple || color == ZxColor::Cyan || color
        == ZxColor::White
}

/// The pixel for a colour: opaque alpha in the top byte, then red, green and
/// blue, each channel at `CD` or, bright, at `FF`.
pub open spec fn pixel_of(color: ZxColor, brightness: ZxBrightness) -> u32 {
    (0xFF00_0000 + 0x1_0000 * channel(has_red(color), brightness) + 0x100 * channel(
        has_green(color),
        brightness,
    ) + channel(has_blue(color), brightness)) as u32
}

/// The pixel for a colour at a brightness.
pub fn zx_color_to_u32(color: ZxColor, brightness: ZxBrightness) -> (pixel: u32)
    ensures
        pixel == pixel_of(color, brightness),
{
    let bright = match brightness {
        ZxBrightness::Bright => true,
        ZxBrightness::Normal => false,
    };
    match (color, bright) {
        (ZxColor::Black, _) => 0xFF000000,
        (ZxColor::Blue, false) => 0xFF0000CD,
        (ZxColor::Blue, true) => 0xFF0000FF,
        (ZxColor::Red, false) => 0xFFCD0000,
        (ZxColor::Red, true) => 0xFFFF0000,
        (ZxColor::Purple, false) => 0xFFCD00CD,
        (ZxColor::Purple, true) => 0xFFFF00FF,
        (ZxColor::Green, false) => 0xFF00CD00,
        (ZxColor::Green, true) => 0xFF00FF00,
        (ZxColor::Cyan, false) => 0xFF00CDCD,
        (ZxColor::Cyan, true) => 0xFF00FFFF,
        (ZxColor::Yellow, false) => 0xFFCDCD00,
        (ZxColor::Yellow, true) => 0xFFFFFF00,
        (ZxColor::White, false) => 0xFFCDCDCD,
        (ZxColor::White, true) => 0xFFFFFFFF,
    }
}

/// A buffer of 32-bit pixels, row after row.
pub struct EmulatorFrameBuffer {
    pub buffer: Vec<u32>,
    pub width: usize,
    pub height: usize,
}

impl EmulatorFrameBuffer {
    /// Whether the buffer holds exactly `width` times `height` pixels.
    pub open spec fn wf(&self) -> bool {
        self.buffer.len() == self.width * self.height
    }

    /// Where pixel (`x`, `y`) lies in the buffer.
    pub open spec fn index_of(&self, x: usize, y: usize) -> int {
        y * self.width + x
    }

    /// The pixels, row after row.
    pub fn get_buffer(&self) -> (pixels: &[u32])
        ensures
            pixels@ == self.buffer@,
    {
        self.buffer.as_slice()
    }

    /// A buffer of `width` by `height` pixels, all zero.
    pub fn new(width: usize, height: usize) -> (fb: EmulatorFrameBuffer)
        requires
            width * height <= usize::MAX,
        ensures
            fb.wf(),
            fb.width == width,
            fb.height == height,
            forall|k: int| 0 <= k < fb.buffer.len() ==> fb.buffer[k] == 0,
    {
        EmulatorFrameBuffer { buffer: vec![0u32; width * height], width, height }
    }

    /// Sets pixel (`x`, `y`) to the colour. A position outside the buffer is
    /// passed over.
    pub fn set_color(&mut self, x: usize, y: usize, color: ZxColor, brightness: ZxBrightness)
        requires
            old(self).wf(),
        ensures
            final(self).wf(),
            final(self).width == old(self).width,
            final(self).height == old(self).height,
            x < old(self).width && y < old(self).height ==> final(self).buffer@ == old(
                self,
            ).buffer@.update(old(self).index_of(x, y), pixel_of(color, brightness)),
            !(x < old(self).width && y < old(self).height) ==> final(self).buffer@ == old(
                self,
            ).buffer@,
    {
        if x < self.width && y < self.height {
            let pixel = zx_color_to_u32(color, brightness);
            assert(y * self.width + x < self.width * self.height) by (nonlinear_arith)
                requires
                    x < self.width,
                    y < self.height,
            ;
            let at: usize = y * self.width + x;
            self.buffer[at] = pixel;
        }
    }
}

} // verus!

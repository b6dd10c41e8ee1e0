use vstd::prelude::*;

verus! {

/// An opaque-or-not colour as four 8-bit channels, red first.
#[derive(PartialEq, Eq, Structural, Clone, Copy, Debug)]
pub struct Rgba8 {
    pub r: u8,
    pub g: u8,
    pub b: u8,
    pub a: u8,
}

impl Rgba8 {
    /// The fully opaque colour with the given red, green and blue.
    pub fn from_rgb(r: u8, g: u8, b: u8) -> (c: Self)
        ensures
            c == (Rgba8 { r, g, b, a: 255 }),
    {
        Rgba8 { r, g, b, a: 255 }
    }
}

/// The quick colours offered before the user edits them: black, white, blue,
/// red, green and orange.
pub open spec fn default_quick_colors() -> Seq<Rgba8> {
    seq![
        Rgba8 { r: 0, g: 0, b: 0, a: 255 },
        Rgba8 { r: 255, g: 255, b: 255, a: 255 },
        Rgba8 { r: 0, g: 100, b: 255, a: 255 },
        Rgba8 { r: 220, g: 20, b: 60, a: 255 },
        Rgba8 { r: 34, g: 139, b: 34, a: 255 },
        Rgba8 { r: 255, g: 140, b: 0, a: 255 },
    ]
}

/// The quick colours offered before the user edits them.
pub fn get_default_quick_colors() -> (v: Vec<Rgba8>)
    ensures
        v@ == default_quick_colors(),
{
    let mut v: Vec<Rgba8> = Vec::new();
    v.push(Rgba8::from_rgb(0, 0, 0));
    v.push(Rgba8::from_rgb(255, 255, 255));
    v.push(Rgba8::from_rgb(0, 100, 255));
    v.push(Rgba8::from_rgb(220, 20, 60));
    v.push(Rgba8::from_rgb(34, 139, 34));
    v.push(Rgba8::from_rgb(255, 140, 0));
    v
}

/// The dark green of a fresh canvas.
pub fn get_default_canvas_color() -> (c: Rgba8)
    ensures
        c == (Rgba8 { r: 15, g: 38, b: 30, a: 255 }),
{
    Rgba8::from_rgb(15, 38, 30)
}

/// The largest width or height of an image as it is shown; larger images are
/// scaled down for display only.
pub const MAX_TEXTURE_SIZE: u32 = 2048;

/// Whether an image of `width` by `height` pixels must be scaled down to be
/// shown: one of its sides exceeds the limit `max_texture_size`.
pub fn needs_downscale(width: u32, height: u32, max_texture_size: u32) -> (b: bool)
    ensures
        b == (width > max_texture_size || height > max_texture_size),
{
    width > max_texture_size || height > max_texture_size
}

} // verus!

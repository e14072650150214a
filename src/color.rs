use vstd::prelude::*;

verus! {

/// A pixel of a bi-level panel with a red accent plane.
///
/// `Off` is the background, `On` the foreground and `Red` the accent colour.
#[derive(Clone, Copy, Debug, PartialEq, Eq, Structural, Hash)]
pub enum BWRColor {
    /// Inactive (background) pixel.
    Off,
    /// Active (foreground) pixel.
    On,
    /// Red accent pixel.
    Red,
}

/// The storage value of a colour: 0, 1 or 2.
pub open spec fn storage_of(c: BWRColor) -> u8 {
    match c {
        BWRColor::Off => 0,
        BWRColor::On => 1,
        BWRColor::Red => 2,
    }
}

/// The colour that a storage value stands for: 0 is `Off`, 1 is `On`, anything larger `Red`.
pub open spec fn color_of_storage(v: u8) -> BWRColor {
    if v >= 2 {
        BWRColor::Red
    } else if v > 0 {
        BWRColor::On
    } else {
        BWRColor::Off
    }
}

impl Default for BWRColor {
    fn default() -> (r: BWRColor)
        ensures
            r == BWRColor::Off,
    {
        BWRColor::Off
    }
}

impl BWRColor {
    /// The inverse colour: `Off` becomes `On`, while `On` and `Red` become `Off`.
    pub fn invert(self) -> (r: BWRColor)
        ensures
            r == (if self == BWRColor::Off {
                BWRColor::On
            } else {
                BWRColor::Off
            }),
    {
        match self {
            BWRColor::On => BWRColor::Off,
            BWRColor::Red => BWRColor::Off,
            BWRColor::Off => BWRColor::On,
        }
    }

    /// Whether the pixel is lit: `On` or `Red`.
    pub fn is_on(self) -> (r: bool)
        ensures
            r == (self != BWRColor::Off),
    {
        match self {
            BWRColor::Off => false,
            _ => true,
        }
    }

    /// Whether the pixel is the background colour.
    pub fn is_off(self) -> (r: bool)
        ensures
            r == (self == BWRColor::Off),
    {
        match self {
            BWRColor::Off => true,
            _ => false,
        }
    }

    /// Picks the value that stands for this colour.
    pub fn map_color<T>(self, value_off: T, value_on: T, value_red: T) -> (r: T)
        ensures
            r == (match self {
                BWRColor::Off => value_off,
                BWRColor::On => value_on,
                BWRColor::Red => value_red,
            }),
    {
        match self {
            BWRColor::On => value_on,
            BWRColor::Off => value_off,
            BWRColor::Red => value_red,
        }
    }

    /// `On` for `true`, `Off` for `false`.
    pub fn from_bool(value: bool) -> (r: BWRColor)
        ensures
            r == (if value {
                BWRColor::On
            } else {
                BWRColor::Off
            }),
    {
        if value {
            BWRColor::On
        } else {
            BWRColor::Off
        }
    }

    /// The colour's raw two-bit storage value.
    pub fn into_storage(self) -> (r: u8)
        ensures
            r == storage_of(self),
            r <= 2,
    {
        self.map_color(0u8, 1u8, 2u8)
    }

    /// The colour of a raw storage value; values above 2 read as `Red`.
    pub fn from_storage(v: u8) -> (r: BWRColor)
        ensures
            r == color_of_storage(v),
    {
        if v >= 2 {
            BWRColor::Red
        } else if v > 0 {
            BWRColor::On
        } else {
            BWRColor::Off
        }
    }

    /// The colour of an image pixel by its red and green levels: strong red
    /// with weak green is `Red`, strong green is `On`, anything else `Off`.
    pub fn from_image_levels(r: u8, g: u8) -> (c: BWRColor)
        ensures
            c == (if r > 128 && g < 128 {
                BWRColor::Red
            } else if g > 128 {
                BWRColor::On
            } else {
                BWRColor::Off
            }),
    {
        if r > 128 && g < 128 {
            BWRColor::Red
        } else if g > 128 {
            BWRColor::On
        } else {
            BWRColor::Off
        }
    }

    /// The colour of an RGB triple: pure red, black and white map to
    /// `Red`, `Off` and `On`; every other colour to `Off`.
    pub fn from_rgb(r: u8, g: u8, b: u8) -> (c: BWRColor)
        ensures
            c == (if r == 255 && g == 0 && b == 0 {
                BWRColor::Red
            } else if r == 255 && g == 255 && b == 255 {
                BWRColor::On
            } else {
                BWRColor::Off
            }),
    {
        if r == 255 && g == 0 && b == 0 {
            BWRColor::Red
        } else if r == 255 && g == 255 && b == 255 {
            BWRColor::On
        } else {
            BWRColor::Off
        }
    }
}

} // verus!

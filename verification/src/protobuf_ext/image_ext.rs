//! Color spaces and channel orders of images.

use crate::error::Error;
use vstd::prelude::*;

verus! {

/// Enumerations of color spaces in the colorspace field of TensorFlow's
/// image summary.
#[derive(Debug, Clone, Copy, PartialEq, Eq, Hash, Structural)]
pub enum ColorSpace {
    Luma,
    LumaA,
    Rgb,
    Rgba,
    DigitalYuv,
    Bgra,
}

impl ColorSpace {
    /// The number of channels of the color space.
    pub open spec fn spec_num_channels(self) -> usize {
        match self {
            ColorSpace::Luma => 1,
            ColorSpace::LumaA => 2,
            ColorSpace::Rgb => 3,
            ColorSpace::Rgba => 4,
            ColorSpace::DigitalYuv => 3,
            ColorSpace::Bgra => 4,
        }
    }

    /// The value that identifies the color space in an image summary.
    pub open spec fn spec_value(self) -> i32 {
        match self {
            ColorSpace::Luma => 1,
            ColorSpace::LumaA => 2,
            ColorSpace::Rgb => 3,
            ColorSpace::Rgba => 4,
            ColorSpace::DigitalYuv => 5,
            ColorSpace::Bgra => 6,
        }
    }

    /// Get number of channels for the color space.
    pub fn num_channels(&self) -> (r: usize)
        ensures
            r == self.spec_num_channels(),
    {
        match self {
            ColorSpace::Luma => 1,
            ColorSpace::LumaA => 2,
            ColorSpace::Rgb => 3,
            ColorSpace::Rgba => 4,
            ColorSpace::DigitalYuv => 3,
            ColorSpace::Bgra => 4,
        }
    }

    /// The value that identifies the color space in an image summary.
    pub fn as_i32(&self) -> (r: i32)
        ensures
            r == self.spec_value(),
    {
        match self {
            ColorSpace::Luma => 1,
            ColorSpace::LumaA => 2,
            ColorSpace::Rgb => 3,
            ColorSpace::Rgba => 4,
            ColorSpace::DigitalYuv => 5,
            ColorSpace::Bgra => 6,
        }
    }
}

/// The sample formats of decoded images: the channels and their sample
/// width.
#[derive(Debug, Clone, Copy, PartialEq, Eq, Hash, Structural)]
pub enum ColorType {
    L8,
    La8,
    Rgb8,
    Rgba8,
    L16,
    La16,
    Rgb16,
    Rgba16,
    Bgr8,
    Bgra8,
    /// A format that none of the others names.
    Other,
}

/// The color space of a sample format, if an image summary has one for it.
pub open spec fn spec_color_space_of(color_type: ColorType) -> Option<ColorSpace> {
    match color_type {
        ColorType::L8 | ColorType::L16 => Some(ColorSpace::Luma),
        ColorType::La8 | ColorType::La16 => Some(ColorSpace::LumaA),
        ColorType::Rgb8 | ColorType::Rgb16 => Some(ColorSpace::Rgb),
        ColorType::Rgba8 | ColorType::Rgba16 => Some(ColorSpace::Rgba),
        ColorType::Bgra8 => Some(ColorSpace::Bgra),
        ColorType::Bgr8 | ColorType::Other => None,
    }
}

impl ColorSpace {
    /// The color space of a sample format; formats without one are
    /// rejected.
    pub fn try_from_color_type(color_type: ColorType) -> (r: Result<ColorSpace, Error>)
        ensures
            spec_color_space_of(color_type) matches Some(c) ==> r == Ok::<ColorSpace, Error>(c),
            spec_color_space_of(color_type) is None ==> (r matches Err(Error::ConversionError { desc })
                && desc@ == "color space is not supported"@),
    {
        let color_space = match color_type {
            ColorType::L8 => ColorSpace::Luma,
            ColorType::La8 => ColorSpace::LumaA,
            ColorType::Rgb8 => ColorSpace::Rgb,
            ColorType::Rgba8 => ColorSpace::Rgba,
            ColorType::Bgra8 => ColorSpace::Bgra,
            ColorType::L16 => ColorSpace::Luma,
            ColorType::La16 => ColorSpace::LumaA,
            ColorType::Rgb16 => ColorSpace::Rgb,
            ColorType::Rgba16 => ColorSpace::Rgba,
            _ => {
                return Err(Error::conversion(String::from_str("color space is not supported")));
            },
        };
        Ok(color_space)
    }
}

impl ColorType {
    /// The number of channels of a pixel in the format.
    pub open spec fn channel_count(self) -> nat {
        match self {
            ColorType::L8 | ColorType::L16 => 1,
            ColorType::La8 | ColorType::La16 => 2,
            ColorType::Rgb8 | ColorType::Rgb16 | ColorType::Bgr8 => 3,
            ColorType::Rgba8 | ColorType::Rgba16 | ColorType::Bgra8 => 4,
            ColorType::Other => 0,
        }
    }
}

/// Every sample format but BGR and the unnamed ones has a color space,
/// and that color space has as many channels as a pixel of the format; a
/// blue-first format has the blue-first color space and the others do not,
/// and no format is read as YUV.
pub proof fn law_color_space_of_format(color_type: ColorType)
    ensures
        color_type != ColorType::Bgr8 && color_type != ColorType::Other ==> (spec_color_space_of(
            color_type,
        ) matches Some(cs) && cs.spec_num_channels() == color_type.channel_count() && cs
            != ColorSpace::DigitalYuv && (cs == ColorSpace::Bgra <==> color_type == ColorType::Bgra8)),
        color_type == ColorType::Bgr8 || color_type == ColorType::Other ==> spec_color_space_of(
            color_type,
        ) is None,
{
}

/// The channel counts and the summary numbers of the color spaces, as
/// TensorFlow's image summary defines them: luma 1 channel, luma-alpha 2,
/// RGB 3, RGBA 4, YUV 3 and BGRA 4, numbered 1 to 6 in that order; no two
/// color spaces share a number.
pub proof fn law_color_space_values(a: ColorSpace, b: ColorSpace)
    ensures
        ColorSpace::Luma.spec_num_channels() == 1 && ColorSpace::Luma.spec_value() == 1,
        ColorSpace::LumaA.spec_num_channels() == 2 && ColorSpace::LumaA.spec_value() == 2,
        ColorSpace::Rgb.spec_num_channels() == 3 && ColorSpace::Rgb.spec_value() == 3,
        ColorSpace::Rgba.spec_num_channels() == 4 && ColorSpace::Rgba.spec_value() == 4,
        ColorSpace::DigitalYuv.spec_num_channels() == 3 && ColorSpace::DigitalYuv.spec_value() == 5,
        ColorSpace::Bgra.spec_num_channels() == 4 && ColorSpace::Bgra.spec_value() == 6,
        a.spec_value() == b.spec_value() ==> a == b,
{
}

/// The color space of an image with the given number of channels: one is
/// luma, three RGB and four RGBA; other counts have none.
pub fn guess_color_space_by_channels(channels: i64) -> (r: Option<ColorSpace>)
    ensures
        channels == 1 ==> r == Some(ColorSpace::Luma),
        channels == 3 ==> r == Some(ColorSpace::Rgb),
        channels == 4 ==> r == Some(ColorSpace::Rgba),
        channels != 1 && channels != 3 && channels != 4 ==> r is None,
        r matches Some(c) ==> c.spec_num_channels() == channels,
{
    let color_space = match channels {
        1 => ColorSpace::Luma,
        3 => ColorSpace::Rgb,
        4 => ColorSpace::Rgba,
        _ => {
            return None;
        },
    };
    Some(color_space)
}

/// The order of a 3-dimensional image tensor's dimensions.
#[derive(Debug, Clone, Copy, PartialEq, Eq, Hash, Structural)]
pub enum TchChannelOrder {
    /// Channel first, or channel-height-width.
    CHW,
    /// Channel last, or height-width-channel.
    HWC,
}

} // verus!

//! What a decode yields: the pixel layouts, the pixel payload, the
//! per-component metadata and the image descriptor that holds them.

use vstd::prelude::*;

verus! {

/// The pixel layouts: one to four channels, of 8 or 16 bits a sample.
#[derive(Debug, Clone, Copy, PartialEq, Eq, Structural)]
pub enum ImageFormat {
    L8,
    La8,
    Rgb8,
    Rgba8,
    L16,
    La16,
    Rgb16,
    Rgba16,
}

impl ImageFormat {
    /// How many samples make up one pixel.
    pub open spec fn channel_count(self) -> nat {
        match self {
            ImageFormat::L8 | ImageFormat::L16 => 1,
            ImageFormat::La8 | ImageFormat::La16 => 2,
            ImageFormat::Rgb8 | ImageFormat::Rgb16 => 3,
            ImageFormat::Rgba8 | ImageFormat::Rgba16 => 4,
        }
    }

    /// Whether a sample takes 16 bits rather than 8.
    pub open spec fn wide(self) -> bool {
        match self {
            ImageFormat::L16 | ImageFormat::La16 | ImageFormat::Rgb16 | ImageFormat::Rgba16 => true,
            _ => false,
        }
    }

    /// The largest value that a sample of this layout can take.
    pub open spec fn sample_max(self) -> nat {
        if self.wide() {
            0xffff
        } else {
            0xff
        }
    }

    /// The 8-bit layout that is assumed for an image of `count` components
    /// whose pixels are not at hand. There is none for an image without
    /// components or with more than four.
    pub open spec fn guess(count: nat) -> Option<ImageFormat> {
        if count == 1 {
            Some(ImageFormat::L8)
        } else if count == 2 {
            Some(ImageFormat::La8)
        } else if count == 3 {
            Some(ImageFormat::Rgb8)
        } else if count == 4 {
            Some(ImageFormat::Rgba8)
        } else {
            None
        }
    }

    /// How many samples make up one pixel.
    pub fn channels(self) -> (n: u8)
        ensures
            n == self.channel_count(),
    {
        match self {
            ImageFormat::L8 | ImageFormat::L16 => 1,
            ImageFormat::La8 | ImageFormat::La16 => 2,
            ImageFormat::Rgb8 | ImageFormat::Rgb16 => 3,
            ImageFormat::Rgba8 | ImageFormat::Rgba16 => 4,
        }
    }

    /// Whether a sample takes 16 bits rather than 8.
    pub fn is_wide(self) -> (w: bool)
        ensures
            w == self.wide(),
    {
        match self {
            ImageFormat::L16 | ImageFormat::La16 | ImageFormat::Rgb16 | ImageFormat::Rgba16 => true,
            _ => false,
        }
    }

    /// The 8-bit layout assumed for an image of `count` components.
    pub fn guess_for(count: usize) -> (format: Option<ImageFormat>)
        ensures
            format == ImageFormat::guess(count as nat),
    {
        if count == 1 {
            Some(ImageFormat::L8)
        } else if count == 2 {
            Some(ImageFormat::La8)
        } else if count == 3 {
            Some(ImageFormat::Rgb8)
        } else if count == 4 {
            Some(ImageFormat::Rgba8)
        } else {
            None
        }
    }
}

/// The samples of an image, pixel by pixel, tagged with their layout.
#[derive(Debug, Clone, PartialEq, Eq)]
pub enum ImagePixelData {
    L8(Vec<u8>),
    La8(Vec<u8>),
    Rgb8(Vec<u8>),
    Rgba8(Vec<u8>),
    L16(Vec<u16>),
    La16(Vec<u16>),
    Rgb16(Vec<u16>),
    Rgba16(Vec<u16>),
}

/// The values of 8-bit samples.
pub open spec fn narrow_values(s: Seq<u8>) -> Seq<nat> {
    Seq::new(s.len(), |i: int| s[i] as nat)
}

/// The values of 16-bit samples.
pub open spec fn wide_values(s: Seq<u16>) -> Seq<nat> {
    Seq::new(s.len(), |i: int| s[i] as nat)
}

/// A pixel payload as a mathematical value: its layout and the values of
/// its samples in order.
pub ghost struct PixelsView {
    pub format: ImageFormat,
    pub samples: Seq<nat>,
}

impl View for ImagePixelData {
    type V = PixelsView;

    open spec fn view(&self) -> PixelsView {
        match self {
            ImagePixelData::L8(v) => PixelsView {
                format: ImageFormat::L8,
                samples: narrow_values(v@),
            },
            ImagePixelData::La8(v) => PixelsView {
                format: ImageFormat::La8,
                samples: narrow_values(v@),
            },
            ImagePixelData::Rgb8(v) => PixelsView {
                format: ImageFormat::Rgb8,
                samples: narrow_values(v@),
            },
            ImagePixelData::Rgba8(v) => PixelsView {
                format: ImageFormat::Rgba8,
                samples: narrow_values(v@),
            },
            ImagePixelData::L16(v) => PixelsView {
                format: ImageFormat::L16,
                samples: wide_values(v@),
            },
            ImagePixelData::La16(v) => PixelsView {
                format: ImageFormat::La16,
                samples: wide_values(v@),
            },
            ImagePixelData::Rgb16(v) => PixelsView {
                format: ImageFormat::Rgb16,
                samples: wide_values(v@),
            },
            ImagePixelData::Rgba16(v) => PixelsView {
                format: ImageFormat::Rgba16,
                samples: wide_values(v@),
            },
        }
    }
}

impl ImagePixelData {
    /// The layout of this payload.
    pub fn format(&self) -> (format: ImageFormat)
        ensures
            format == self@.format,
    {
        match self {
            ImagePixelData::L8(_) => ImageFormat::L8,
            ImagePixelData::La8(_) => ImageFormat::La8,
            ImagePixelData::Rgb8(_) => ImageFormat::Rgb8,
            ImagePixelData::Rgba8(_) => ImageFormat::Rgba8,
            ImagePixelData::L16(_) => ImageFormat::L16,
            ImagePixelData::La16(_) => ImageFormat::La16,
            ImagePixelData::Rgb16(_) => ImageFormat::Rgb16,
            ImagePixelData::Rgba16(_) => ImageFormat::Rgba16,
        }
    }

    /// How many samples the payload holds.
    pub fn len(&self) -> (n: usize)
        ensures
            n == self@.samples.len(),
    {
        match self {
            ImagePixelData::L8(v) => v.len(),
            ImagePixelData::La8(v) => v.len(),
            ImagePixelData::Rgb8(v) => v.len(),
            ImagePixelData::Rgba8(v) => v.len(),
            ImagePixelData::L16(v) => v.len(),
            ImagePixelData::La16(v) => v.len(),
            ImagePixelData::Rgb16(v) => v.len(),
            ImagePixelData::Rgba16(v) => v.len(),
        }
    }

    /// Whether the payload holds no sample at all.
    pub fn is_empty(&self) -> (e: bool)
        ensures
            e == (self@.samples.len() == 0),
    {
        self.len() == 0
    }

    /// The payload of the given layout that holds no sample.
    pub fn empty(format: ImageFormat) -> (data: Self)
        ensures
            data@ == (PixelsView { format, samples: Seq::empty() }),
    {
        let data = match format {
            ImageFormat::L8 => ImagePixelData::L8(Vec::new()),
            ImageFormat::La8 => ImagePixelData::La8(Vec::new()),
            ImageFormat::Rgb8 => ImagePixelData::Rgb8(Vec::new()),
            ImageFormat::Rgba8 => ImagePixelData::Rgba8(Vec::new()),
            ImageFormat::L16 => ImagePixelData::L16(Vec::new()),
            ImageFormat::La16 => ImagePixelData::La16(Vec::new()),
            ImageFormat::Rgb16 => ImagePixelData::Rgb16(Vec::new()),
            ImageFormat::Rgba16 => ImagePixelData::Rgba16(Vec::new()),
        };
        assert(data@.samples =~= Seq::empty());
        data
    }
}

/// The metadata of one colour or alpha component.
#[derive(Debug, Clone, Copy, PartialEq, Eq, Structural)]
pub struct ComponentInfo {
    pub width: u32,
    pub height: u32,
    pub precision: u32,
    pub is_alpha: bool,
    pub is_signed: bool,
}

impl Default for ComponentInfo {
    fn default() -> (info: Self)
        ensures
            info == (ComponentInfo {
                width: 0,
                height: 0,
                precision: 0,
                is_alpha: false,
                is_signed: false,
            }),
    {
        ComponentInfo { width: 0, height: 0, precision: 0, is_alpha: false, is_signed: false }
    }
}

/// A decoded image: its size, its pixels and the metadata of its
/// components.
#[derive(Debug, Clone, PartialEq, Eq)]
pub struct J2KImage {
    /// Width after resolution reduction.
    pub width: u32,
    /// Height after resolution reduction.
    pub height: u32,
    /// The layout of the pixels.
    pub format: ImageFormat,
    /// The pixels; empty where only the metadata was asked for.
    pub data: ImagePixelData,
    /// Width at full resolution.
    pub orig_width: u32,
    /// Height at full resolution.
    pub orig_height: u32,
    /// Horizontal offset of the decoded window.
    pub x_offset: u32,
    /// Vertical offset of the decoded window.
    pub y_offset: u32,
    /// How many components the image has.
    pub num_components: u32,
    /// The metadata of each component, in order.
    pub components: Vec<ComponentInfo>,
}

/// An image descriptor as a mathematical value.
pub ghost struct ImageView {
    pub width: u32,
    pub height: u32,
    pub format: ImageFormat,
    pub data: PixelsView,
    pub orig_width: u32,
    pub orig_height: u32,
    pub x_offset: u32,
    pub y_offset: u32,
    pub num_components: u32,
    pub components: Seq<ComponentInfo>,
}

impl ImageView {
    /// How many samples the pixels of the whole image take in the layout of
    /// the payload.
    pub open spec fn samples_needed(self) -> nat {
        (self.width * self.height * self.data.format.channel_count()) as nat
    }

    /// The payload holds a sample for every channel of every pixel.
    pub open spec fn covered(self) -> bool {
        self.samples_needed() <= self.data.samples.len()
    }

    /// The descriptor is consistent: it has at least one component, lists
    /// exactly as many components as it counts, and its payload has the
    /// layout that it names.
    pub open spec fn well_formed(self) -> bool {
        &&& self.num_components >= 1
        &&& self.components.len() == self.num_components
        &&& self.data.format == self.format
    }
}

impl View for J2KImage {
    type V = ImageView;

    open spec fn view(&self) -> ImageView {
        ImageView {
            width: self.width,
            height: self.height,
            format: self.format,
            data: self.data@,
            orig_width: self.orig_width,
            orig_height: self.orig_height,
            x_offset: self.x_offset,
            y_offset: self.y_offset,
            num_components: self.num_components,
            components: self.components@,
        }
    }
}

impl J2KImage {
    /// Whether the payload holds a sample for every channel of every pixel
    /// of the image: what an image buffer of this size needs.
    pub fn has_all_samples(&self) -> (yes: bool)
        ensures
            yes == self@.covered(),
    {
        assert(self.width * self.height <= 0xffff_ffff * 0xffff_ffff) by (nonlinear_arith)
            requires
                self.width <= 0xffff_ffff,
                self.height <= 0xffff_ffff,
        ;
        let pixels: u64 = (self.width as u64) * (self.height as u64);
        let channels: u64 = self.data.format().channels() as u64;
        let have: u64 = self.data.len() as u64;
        assert(pixels * channels == self.width * self.height * self.data@.format.channel_count())
            by (nonlinear_arith)
            requires
                pixels == self.width * self.height,
                channels == self.data@.format.channel_count(),
        ;
        if pixels > have {
            assert(pixels * channels >= pixels) by (nonlinear_arith)
                requires
                    channels >= 1,
                    pixels >= 0,
            ;
            false
        } else {
            assert(pixels * channels <= have * 4) by (nonlinear_arith)
                requires
                    0 <= pixels <= have,
                    0 <= channels <= 4,
            ;
            (pixels as u128) * (channels as u128) <= have as u128
        }
    }

    /// Whether the descriptor is consistent.
    pub fn is_well_formed(&self) -> (ok: bool)
        ensures
            ok == self@.well_formed(),
    {
        self.num_components >= 1 && self.components.len() == self.num_components as usize
            && self.data.format() == self.format
    }
}

} // verus!

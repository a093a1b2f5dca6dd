//! From what the codec hands back to the descriptor that is sent to the
//! caller.
//!
//! The codec's result is held as plain values in [`DecodedImage`]: the
//! metadata that a header always gives, and the pixels where they were
//! materialised. A descriptor is made from it for images of one to four
//! components; where the pixels are missing the layout is guessed from the
//! number of components and the payload is left empty.

use vstd::prelude::*;
use crate::codec::encode_response;
use crate::encode::outcome_view;
use crate::error::Error;
use crate::image::{ComponentInfo, ImageFormat, ImagePixelData, ImageView, J2KImage, PixelsView};
use crate::image_layout::{outcome_fits, wire_outcome, OutcomeView};

verus! {

/// What the codec found in an image.
#[derive(Debug, Clone, PartialEq, Eq)]
pub struct DecodedImage {
    /// Width after resolution reduction.
    pub width: u32,
    /// Height after resolution reduction.
    pub height: u32,
    /// Width at full resolution.
    pub orig_width: u32,
    /// Height at full resolution.
    pub orig_height: u32,
    /// Horizontal offset of the decoded window.
    pub x_offset: u32,
    /// Vertical offset of the decoded window.
    pub y_offset: u32,
    /// The metadata of each component, in order.
    pub components: Vec<ComponentInfo>,
    /// The pixels, unless only the header was read or they could not be
    /// materialised.
    pub pixels: Option<ImagePixelData>,
}

/// A codec result as a mathematical value.
pub ghost struct DecodedView {
    pub width: u32,
    pub height: u32,
    pub orig_width: u32,
    pub orig_height: u32,
    pub x_offset: u32,
    pub y_offset: u32,
    pub components: Seq<ComponentInfo>,
    pub pixels: Option<PixelsView>,
}

impl View for DecodedImage {
    type V = DecodedView;

    open spec fn view(&self) -> DecodedView {
        DecodedView {
            width: self.width,
            height: self.height,
            orig_width: self.orig_width,
            orig_height: self.orig_height,
            x_offset: self.x_offset,
            y_offset: self.y_offset,
            components: self.components@,
            pixels: match self.pixels {
                Some(p) => Some(p@),
                None => None,
            },
        }
    }
}

impl DecodedView {
    /// The same metadata without any pixels: what reading only the header
    /// of the same image gives.
    pub open spec fn header_only(self) -> DecodedView {
        DecodedView { pixels: None, ..self }
    }
}

/// The image has no component, or more than four: no pixel layout fits it.
#[derive(Debug, Clone, Copy, PartialEq, Eq, Structural)]
pub struct UnsupportedComponents {
    /// How many components the image has; `u32::MAX` stands for any larger
    /// number.
    pub count: u32,
}

/// A number of components as it is reported.
pub open spec fn reported_count(n: nat) -> u32 {
    if n > u32::MAX {
        u32::MAX
    } else {
        n as u32
    }
}

/// The descriptor of a codec result. The layout is that of the pixels
/// where there are any, and else the one guessed from the number of
/// components, with a payload that holds no sample.
pub open spec fn describe(d: DecodedView) -> Result<ImageView, UnsupportedComponents> {
    match ImageFormat::guess(d.components.len()) {
        None => Err(UnsupportedComponents { count: reported_count(d.components.len()) }),
        Some(guessed) => {
            let data = match d.pixels {
                Some(p) => p,
                None => PixelsView { format: guessed, samples: Seq::empty() },
            };
            Ok(
                ImageView {
                    width: d.width,
                    height: d.height,
                    format: data.format,
                    data,
                    orig_width: d.orig_width,
                    orig_height: d.orig_height,
                    x_offset: d.x_offset,
                    y_offset: d.y_offset,
                    num_components: d.components.len() as u32,
                    components: d.components,
                },
            )
        },
    }
}

/// The outcome of a conversion as a mathematical value.
pub open spec fn conversion_view(res: Result<J2KImage, UnsupportedComponents>) -> Result<
    ImageView,
    UnsupportedComponents,
> {
    match res {
        Ok(image) => Ok(image@),
        Err(e) => Err(e),
    }
}

impl UnsupportedComponents {
    /// The text under which this failure is reported to the caller.
    pub fn message(&self) -> (text: String)
        ensures
            text@ == "Unsupported components"@,
    {
        "Unsupported components".to_owned()
    }
}

impl J2KImage {
    /// Makes the descriptor of a codec result.
    ///
    /// Succeeds exactly for images of one to four components, and the
    /// descriptor is then consistent.
    pub fn try_from(img: DecodedImage) -> (res: Result<J2KImage, UnsupportedComponents>)
        ensures
            conversion_view(res) == describe(img@),
            res.is_ok() <==> 1 <= img@.components.len() <= 4,
            res matches Ok(image) ==> image@.well_formed(),
    {
        let count = img.components.len();
        let guessed = match ImageFormat::guess_for(count) {
            Some(f) => f,
            None => {
                let reported: u32 = if count > 0xffff_ffff {
                    0xffff_ffff
                } else {
                    count as u32
                };
                return Err(UnsupportedComponents { count: reported });
            },
        };
        let data = match img.pixels {
            Some(p) => p,
            None => ImagePixelData::empty(guessed),
        };
        Ok(
            J2KImage {
                width: img.width,
                height: img.height,
                format: data.format(),
                data,
                orig_width: img.orig_width,
                orig_height: img.orig_height,
                x_offset: img.x_offset,
                y_offset: img.y_offset,
                num_components: count as u32,
                components: img.components,
            },
        )
    }
}

/// Reading only the header changes nothing but the pixels: for the same
/// metadata, the descriptor made without pixels exists exactly when the one
/// made with them does, agrees with it on the sizes, the offsets, the
/// number of components and their metadata, and holds no sample.
pub proof fn law_header_only_keeps_metadata(d: DecodedView)
    ensures
        describe(d.header_only()).is_ok() == describe(d).is_ok(),
        describe(d) matches Ok(full) ==> {
            let header = describe(d.header_only())->Ok_0;
            &&& header.width == full.width
            &&& header.height == full.height
            &&& header.orig_width == full.orig_width
            &&& header.orig_height == full.orig_height
            &&& header.x_offset == full.x_offset
            &&& header.y_offset == full.y_offset
            &&& header.num_components == full.num_components
            &&& header.components == full.components
            &&& header.data.samples.len() == 0
        },
        describe(d) matches Err(e) ==> describe(d.header_only()) == Err::<
            ImageView,
            UnsupportedComponents,
        >(e),
{
}

/// Every descriptor that is made is consistent.
pub proof fn law_described_is_well_formed(d: DecodedView)
    ensures
        describe(d) matches Ok(image) ==> image.well_formed(),
{
}

/// What the codec made of a request as a mathematical value: what it found
/// in the image, or the text that says why it found nothing.
pub open spec fn codec_view(result: Result<DecodedImage, String>) -> Result<DecodedView, Seq<char>> {
    match result {
        Ok(decoded) => Ok(decoded@),
        Err(message) => Err(message@),
    }
}

/// What is answered to the caller: the descriptor of what the codec found,
/// the codec's own complaint, or the complaint that the image has a number
/// of components for which there is no descriptor.
pub open spec fn reply(result: Result<DecodedView, Seq<char>>) -> OutcomeView {
    match result {
        Ok(decoded) => match describe(decoded) {
            Ok(image) => Ok(image),
            Err(_) => Err("Unsupported components"@),
        },
        Err(message) => Err(message),
    }
}

/// Makes the answer to a request from what the codec made of it.
pub fn answer(result: Result<DecodedImage, String>) -> (outcome: Result<J2KImage, String>)
    ensures
        outcome_view(outcome) == reply(codec_view(result)),
        outcome matches Ok(image) ==> image@.well_formed(),
{
    match result {
        Ok(decoded) => match J2KImage::try_from(decoded) {
            Ok(image) => Ok(image),
            Err(unsupported) => Err(unsupported.message()),
        },
        Err(message) => Err(message),
    }
}

/// Makes the bytes that are written back for a request from what the codec
/// made of it.
///
/// Fails only where the answer is too long to be sent.
pub fn respond(result: Result<DecodedImage, String>) -> (res: Result<Vec<u8>, Error>)
    ensures
        res.is_ok() == outcome_fits(reply(codec_view(result))),
        res matches Ok(bytes) ==> bytes@ == wire_outcome(reply(codec_view(result))),
        res matches Err(e) ==> e == Error::Serialization,
{
    let outcome = answer(result);
    encode_response(&outcome)
}

} // verus!

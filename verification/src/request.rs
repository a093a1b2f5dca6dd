//! What a caller asks for: the decode parameters and the request that
//! carries them together with the compressed image.

use vstd::prelude::*;
use crate::area::DecodeArea;

verus! {

/// How an image is to be decoded.
#[derive(Debug, Clone, Copy, PartialEq, Eq)]
pub struct DecodeParameters {
    /// Resolution reduction level: each step halves both dimensions.
    pub reduce: u32,
    /// Whether warnings that the codec could recover from count as failures.
    pub strict: bool,
    /// How many quality layers to decode; zero means all of them.
    pub layers: u32,
    /// The window to decode; the whole image where absent.
    pub area: Option<DecodeArea>,
}

impl DecodeParameters {
    /// The parameters of a plain decode: full resolution, every layer, the
    /// whole image, lenient.
    pub open spec fn standard() -> DecodeParameters {
        DecodeParameters { reduce: 0, strict: false, layers: 0, area: None }
    }
}

impl Default for DecodeParameters {
    fn default() -> (params: Self)
        ensures
            params == DecodeParameters::standard(),
    {
        DecodeParameters { reduce: 0, strict: false, layers: 0, area: None }
    }
}

/// One decode request.
#[derive(Debug, Clone, PartialEq, Eq)]
pub struct DecodeImageRequest {
    /// The decode parameters; the standard ones apply where absent.
    pub params: Option<DecodeParameters>,
    /// Whether only the image's metadata is wanted, without any pixels.
    pub only_header: bool,
    /// The compressed JP2 or J2K image.
    pub data: Vec<u8>,
}

/// A request as a mathematical value.
pub ghost struct RequestView {
    pub params: Option<DecodeParameters>,
    pub only_header: bool,
    pub data: Seq<u8>,
}

impl View for DecodeImageRequest {
    type V = RequestView;

    open spec fn view(&self) -> RequestView {
        RequestView { params: self.params, only_header: self.only_header, data: self.data@ }
    }
}

impl DecodeImageRequest {
    /// A full decode of `data` with the standard parameters.
    pub fn new(data: Vec<u8>) -> (req: Self)
        ensures
            req@ == (RequestView { params: None, only_header: false, data: data@ }),
    {
        DecodeImageRequest { data, only_header: false, params: None }
    }

    /// A full decode of `data` with the given parameters.
    pub fn new_with(data: Vec<u8>, params: DecodeParameters) -> (req: Self)
        ensures
            req@ == (RequestView { params: Some(params), only_header: false, data: data@ }),
    {
        DecodeImageRequest { data, only_header: false, params: Some(params) }
    }

    /// The same request, asking for the metadata only.
    pub fn only_header(&self) -> (req: Self)
        ensures
            req@ == (RequestView { only_header: true, ..self@ }),
    {
        DecodeImageRequest { params: self.params, only_header: true, data: self.data.clone() }
    }

    /// The parameters that this request is decoded with: its own, or the
    /// standard ones where it names none.
    pub fn params(&self) -> (params: DecodeParameters)
        ensures
            params == match self.params {
                Some(p) => p,
                None => DecodeParameters::standard(),
            },
    {
        match self.params {
            Some(p) => p,
            None => DecodeParameters { reduce: 0, strict: false, layers: 0, area: None },
        }
    }
}

impl Default for DecodeImageRequest {
    fn default() -> (req: Self)
        ensures
            req@ == (RequestView { params: None, only_header: false, data: Seq::empty() }),
    {
        DecodeImageRequest { params: None, only_header: false, data: Vec::new() }
    }
}

} // verus!

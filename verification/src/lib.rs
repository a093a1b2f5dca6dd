//! Sandboxed decoding of JPEG 2000 images: the request and response data
//! model, the binary transport that crosses the isolation boundary, and the
//! engine that runs one disposable WebAssembly instance per decode call.

pub mod adapter;
pub mod area;
pub mod codec;
pub mod decode;
pub mod encode;
pub mod error;
pub mod image;
pub mod image_layout;
pub mod layout;
pub mod msgpack;
pub mod request;
pub mod sandbox;
pub mod session;

pub use adapter::{answer, respond, DecodedImage, UnsupportedComponents};
pub use area::{DecodeArea, ParseAreaError};
pub use codec::{decode_request, decode_response, encode_request, encode_response};
pub use error::{Error, RunFailure};
pub use image::{ComponentInfo, ImageFormat, ImagePixelData, J2KImage};
pub use request::{DecodeImageRequest, DecodeParameters};
pub use sandbox::Jpeg2kSandboxed;
pub use session::{conclude, interpret_output};

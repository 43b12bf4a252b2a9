pub mod codec_manager;
pub mod dds;
pub mod hdr;
pub mod jpeg;
pub mod png;
pub mod tga;

use vstd::prelude::*;

use crate::error::TexError;
use crate::graphics::texture::Texture;

verus! {

/// Trait for image codecs. Implement it and register the codec with the
/// codec manager to serve more file formats.
pub trait ImageCodec {
    fn save_to_memory(&self, texture: &Texture) -> Result<Vec<u8>, TexError>;

    fn load_from_memory(&self, source: &[u8]) -> Result<Texture, TexError>;

    fn supported_extensions(&self) -> Vec<&'static str>;
}

} // verus!

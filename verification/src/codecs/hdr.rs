use vstd::prelude::*;

use crate::codecs::ImageCodec;
use crate::error::TexError;
use crate::graphics::crate_image_utility::{
    save_texture_as_hdr, spec_save_hdr_rel, spec_texture_from_bytes_rel, ImageUtility,
};
use crate::graphics::texture::Texture;

verus! {

/// Radiance HDR files, decoded and encoded through the image crate. Saving
/// converts the plane to 32-bit float RGB, the one layout the encoder takes.
#[derive(Clone, Copy)]
pub struct HDRCodec;

impl ImageCodec for HDRCodec {
    fn save_to_memory(&self, texture: &Texture) -> (r: Result<Vec<u8>, TexError>)
        ensures
            spec_save_hdr_rel(*texture, r),
    {
        save_texture_as_hdr(texture)
    }

    fn load_from_memory(&self, source: &[u8]) -> (r: Result<Texture, TexError>)
        ensures
            spec_texture_from_bytes_rel(source@, r),
    {
        ImageUtility::get_texture_from_bytes(source)
    }

    fn supported_extensions(&self) -> (r: Vec<&'static str>)
        ensures
            r@.len() == 1,
            r@[0]@ == "hdr"@,
    {
        let mut v: Vec<&'static str> = Vec::new();
        v.push("hdr");
        v
    }
}

} // verus!

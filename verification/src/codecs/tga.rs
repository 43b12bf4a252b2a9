use vstd::prelude::*;

use crate::codecs::ImageCodec;
use crate::error::TexError;
use crate::graphics::crate_image_utility::{
    spec_save_via_image_rel, spec_texture_from_tga_rel, save_texture_via_image, ImageUtility,
};
use crate::graphics::texture::Texture;

verus! {

/// TGA files, decoded and encoded through the image crate.
#[derive(Clone, Copy)]
pub struct TGACodec;

impl ImageCodec for TGACodec {
    fn save_to_memory(&self, texture: &Texture) -> (r: Result<Vec<u8>, TexError>)
        ensures
            spec_save_via_image_rel(*texture, 3, false, r),
    {
        save_texture_via_image(texture, 3, false)
    }

    fn load_from_memory(&self, source: &[u8]) -> (r: Result<Texture, TexError>)
        ensures
            spec_texture_from_tga_rel(source@, r),
    {
        ImageUtility::get_texture_from_tga_bytes(source)
    }

    fn supported_extensions(&self) -> (r: Vec<&'static str>)
        ensures
            r@.len() == 1,
            r@[0]@ == "tga"@,
    {
        let mut v: Vec<&'static str> = Vec::new();
        v.push("tga");
        v
    }
}

} // verus!

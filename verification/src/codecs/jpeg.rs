use vstd::prelude::*;

use crate::codecs::ImageCodec;
use crate::error::TexError;
use crate::graphics::crate_image_utility::{
    spec_save_via_image_rel, spec_texture_from_bytes_rel, save_texture_via_image, ImageUtility,
};
use crate::graphics::texture::Texture;

verus! {

/// JPEG files, decoded and encoded through the image crate. Saving drops
/// alpha, since the container has no alpha channel.
#[derive(Clone, Copy)]
pub struct JPEGCodec;

impl ImageCodec for JPEGCodec {
    fn save_to_memory(&self, texture: &Texture) -> (r: Result<Vec<u8>, TexError>)
        ensures
            spec_save_via_image_rel(*texture, 2, true, r),
    {
        save_texture_via_image(texture, 2, true)
    }

    fn load_from_memory(&self, source: &[u8]) -> (r: Result<Texture, TexError>)
        ensures
            spec_texture_from_bytes_rel(source@, r),
    {
        ImageUtility::get_texture_from_bytes(source)
    }

    fn supported_extensions(&self) -> (r: Vec<&'static str>)
        ensures
            r@.len() == 2,
            r@[0]@ == "jpg"@,
            r@[1]@ == "jpeg"@,
    {
        let mut v: Vec<&'static str> = Vec::new();
        v.push("jpg");
        v.push("jpeg");
        v
    }
}

} // verus!

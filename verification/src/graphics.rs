pub mod crate_directxtex_utility;
pub mod crate_image_utility;
pub mod pixel_decoders;
pub mod pixel_encoders;
pub mod pixel_format_decoder;
pub mod pixel_format_encoder;
pub mod pixel_format;
pub mod swizzling;
pub mod texture;
pub mod texture_utility;

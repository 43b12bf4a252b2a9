pub mod codecs;
pub mod error;
pub mod graphics;

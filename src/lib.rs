//! Sanitising documents through pixels: a decoder for the raw pixel stream
//! that an isolated renderer emits, and an assembler that turns decoded pages
//! into a minimal PDF with Flate-compressed raster images.
pub mod decimal;
pub mod error;
pub mod integrity;
pub mod page;
pub mod pdf;
pub mod pipeline;
pub mod wire;

pub use error::{ConversionError, StreamField};
pub use page::PageData;
pub use pdf::{assemble_pdf, compress_pages, pixels_to_pdf, write_pdf, DPI};
pub use pipeline::{
    get_security_args, next_ocr_step, ocr_tiers, ocrmypdf_args, renderer_args, staging_path,
    OcrStep, OcrTier, IMAGE_NAME,
};
pub use wire::{encode_pixel_stream, parse_pixel_data, read_u16_be, INT_BYTES};

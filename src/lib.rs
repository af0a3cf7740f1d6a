//! Product labels for an EPL2 thermal printer (203 dpi, 440 x 320 dots):
//! EAN-13 payloads, bidirectional ordering and Arabic shaping of the text,
//! painting of laid-out glyphs into tight monochrome bitmaps, bit packing,
//! the layout of two- and four-product labels, and the printer's command
//! stream.
//!
//! Glyph outlines are not rasterized here: callers hand in each line's
//! glyphs as integer pixel boxes with their ink already thresholded.

mod text_util;
pub mod ean13;
pub mod epl;
pub mod raster;
pub mod pack;
pub mod shape;
pub mod label;
pub mod reader;

pub use ean13::{compute_ean13_checksum, ensure_valid_ean13, normalize_ean13, Ean13Error};
pub use epl::{encode_job, epl_line, gw_bytes, push_decimal, JobSettings, PlacedElement, Symbology};
pub use raster::{
    clip_left, overlay, paint_line, rasterize_line, render_arabic_line_tight_1bit,
    render_name_price_space_between, rotate90, tight_width, line_height, Bitmap, Glyph, GlyphRun,
    Stroke,
};
pub use pack::{image_to_gw, image_to_row_bytes, pack_rows, INVERT_BITS};
pub use shape::{bidi_then_shape, name_and_price, price_with_currency};
pub use label::{
    build_four_product_label_with_brand, build_two_product_label_clean_centered,
    build_two_product_label_with_brand, center_x_for_ean13,
};

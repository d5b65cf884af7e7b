//! Building blocks of a CAPTCHA image generator: an RGBA canvas, an
//! alpha-blending compositor, a glyph rasterizer that tints coverage masks,
//! the placement rules of the distortion pipeline, and the finished
//! challenge with its PNG encoding.

pub mod canvas;
pub mod challenge;
pub mod compose;
pub mod encode;
pub mod glyph;
pub mod pipeline;

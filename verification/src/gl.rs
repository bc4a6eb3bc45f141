//! Names of the graphics library, as the driver writes them.
use vstd::prelude::*;

verus! {

pub const NO_ERROR: u32 = 0;

pub const BLEND: u32 = 0x0BE2;
pub const CULL_FACE: u32 = 0x0B44;
pub const DEPTH_TEST: u32 = 0x0B71;
pub const DITHER: u32 = 0x0BD0;
pub const POLYGON_OFFSET_FILL: u32 = 0x8037;
pub const SAMPLE_ALPHA_TO_COVERAGE: u32 = 0x809E;
pub const SAMPLE_COVERAGE: u32 = 0x80A0;
pub const SCISSOR_TEST: u32 = 0x0C11;
pub const STENCIL_TEST: u32 = 0x0B90;
pub const RASTERIZER_DISCARD: u32 = 0x8C89;

pub const TEXTURE0: u32 = 0x84C0;
pub const TEXTURE_2D: u32 = 0x0DE1;
pub const ACTIVE_TEXTURE: u32 = 0x84E0;
pub const TEXTURE_BINDING_2D: u32 = 0x8069;
pub const RENDERBUFFER_BINDING: u32 = 0x8CA7;
pub const TEXTURE_MIN_FILTER: u32 = 0x2801;
pub const TEXTURE_MAG_FILTER: u32 = 0x2800;
pub const TEXTURE_WRAP_S: u32 = 0x2802;
pub const TEXTURE_WRAP_T: u32 = 0x2803;
pub const CLAMP_TO_EDGE: u32 = 0x812F;
pub const RGBA: u32 = 0x1908;
pub const RGBA8: u32 = 0x8058;
pub const DEPTH24_STENCIL8: u32 = 0x88F0;
pub const COLOR_ATTACHMENT0: u32 = 0x8CE0;
pub const DEPTH_STENCIL_ATTACHMENT: u32 = 0x821A;

pub const FRONT: u32 = 0x0404;
pub const BACK: u32 = 0x0405;
pub const FRONT_AND_BACK: u32 = 0x0408;

pub const PACK_ALIGNMENT: u32 = 0x0D05;
pub const UNPACK_ALIGNMENT: u32 = 0x0CF5;
pub const UNPACK_FLIP_Y_WEBGL: u32 = 0x9240;
pub const UNPACK_PREMULTIPLY_ALPHA_WEBGL: u32 = 0x9241;
pub const UNPACK_COLORSPACE_CONVERSION_WEBGL: u32 = 0x9243;
pub const UNPACK_ROW_LENGTH: u32 = 0x0CF2;
pub const UNPACK_SKIP_PIXELS: u32 = 0x0CF4;
pub const UNPACK_SKIP_ROWS: u32 = 0x0CF3;
pub const UNPACK_IMAGE_HEIGHT: u32 = 0x806E;
pub const UNPACK_SKIP_IMAGES: u32 = 0x806D;
pub const PACK_ROW_LENGTH: u32 = 0x0D02;
pub const PACK_SKIP_PIXELS: u32 = 0x0D04;
pub const PACK_SKIP_ROWS: u32 = 0x0D03;

pub const PIXEL_PACK_BUFFER: u32 = 0x88EB;
pub const PIXEL_UNPACK_BUFFER: u32 = 0x88EC;
pub const PIXEL_PACK_BUFFER_BINDING: u32 = 0x88ED;
pub const PIXEL_UNPACK_BUFFER_BINDING: u32 = 0x88EF;

pub const FRAMEBUFFER: u32 = 0x8D40;
pub const READ_FRAMEBUFFER: u32 = 0x8CA8;
pub const DRAW_FRAMEBUFFER: u32 = 0x8CA9;
pub const FRAMEBUFFER_BINDING: u32 = 0x8CA6;
pub const DRAW_FRAMEBUFFER_BINDING: u32 = 0x8CA6;
pub const READ_FRAMEBUFFER_BINDING: u32 = 0x8CAA;
pub const FRAMEBUFFER_COMPLETE: u32 = 0x8CD5;

pub const COLOR_BUFFER_BIT: u32 = 0x00004000;
pub const NEAREST: u32 = 0x2600;
pub const LINEAR: u32 = 0x2601;

pub const ALREADY_SIGNALED: u32 = 0x911A;
pub const TIMEOUT_EXPIRED: u32 = 0x911B;
pub const CONDITION_SATISFIED: u32 = 0x911C;
pub const WAIT_FAILED: u32 = 0x911D;

} // verus!

//! Decisions of a GPU canvas renderer, with their contracts.
use vstd::prelude::*;

pub mod binding;
pub mod canvas2d;
pub mod canvases;
pub mod captures;
pub mod damage;
pub mod default_framebuffer;
pub mod device_caps;
pub mod device_profile;
pub mod dedup;
pub mod draw_damage;
pub mod drawing_buffer;
pub mod egl_device;
pub mod egl_setup;
pub mod fences;
pub mod gl;
pub mod gl_device;
pub mod gl_state;
pub mod handler;
pub mod images;
pub mod install;
pub mod manager;
pub mod objects;
pub mod onscreen;
pub mod paint_scope;
pub mod painters;
pub mod painting;
pub mod pbo_upload;
pub mod pixel_ratio;
pub mod present;
pub mod presenting;
pub mod recovery;
pub mod shadows;
pub mod shutdown;
pub mod snapshots;
pub mod startup;
pub mod surface_ledger;
pub mod text;
pub mod uploads;
pub mod vertex_arrays;

verus! {

/// The name of a canvas.
pub type CanvasId = u32;

} // verus!

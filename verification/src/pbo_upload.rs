//! Texture uploads through pixel buffers: which path an upload takes, and the pool of
//! buffers that are kept for the next one.
use smallvec::SmallVec;
use vstd::prelude::*;

use crate::fences::fence_signalled;
use crate::gl::{
    CLAMP_TO_EDGE, LINEAR, NO_ERROR, PIXEL_UNPACK_BUFFER, RGBA, RGBA8, TEXTURE_2D, TEXTURE_BINDING_2D,
    TEXTURE_MAG_FILTER, TEXTURE_MIN_FILTER, TEXTURE_WRAP_S, TEXTURE_WRAP_T, UNPACK_ALIGNMENT,
};
use crate::gl_device::Gl;
use crate::gl_device::GlCall;
use crate::gl_device::Transfer;
use crate::text::contains_text;
use crate::text::starts_with_text;

verus! {

/// Limits of the pixel-buffer path.
#[derive(Clone, Copy, Debug)]
pub struct PboConfig {
    pub enabled: bool,
    pub max_buffer_size: usize,
}

impl Default for PboConfig {
    /// Enabled, for images of up to 4 MiB.
    fn default() -> (c: Self)
        ensures
            c == (PboConfig { enabled: true, max_buffer_size: 4194304 }),
    {
        PboConfig { enabled: true, max_buffer_size: 4 * 1024 * 1024 }
    }
}

/// Whether an upload goes through a hardware buffer: the device has them, the session
/// has not turned them off, and there is a display to import into.
pub fn should_try_ahb_upload(
    device_available: bool,
    session_enabled: bool,
    display_available: bool,
) -> (b: bool)
    ensures
        b == (device_available && session_enabled && display_available),
{
    device_available && session_enabled && display_available
}

/// A version string announces pixel buffers: ES 3, or a desktop version 3 or 4.
pub open spec fn announces_pbo(version: Seq<char>) -> bool {
    ||| crate::text::occurs_in(version, "OpenGL ES 3"@)
    ||| crate::text::occurs_at(version, "3."@, 0)
    ||| crate::text::occurs_at(version, "4."@, 0)
}

/// Whether the driver's version string announces pixel buffers.
pub fn check_pbo_support(version: &str) -> (b: bool)
    ensures
        b == announces_pbo(version@),
{
    contains_text(version, "OpenGL ES 3") || starts_with_text(version, "3.") || starts_with_text(
        version,
        "4.",
    )
}

/// How a texture reaches the GPU.
#[derive(Debug, Clone, Copy, PartialEq, Eq, Structural)]
pub enum TextureUploadPath {
    /// Through an imported hardware buffer.
    Ahb,
    /// Through a pixel buffer into immutable storage.
    PboImmutable,
    /// Through a pixel buffer into mutable storage.
    PboMutable,
    /// Straight from memory.
    Synchronous,
}

/// The path without hardware buffers.
pub open spec fn path_for(
    use_pbo: bool,
    has_tex_storage: bool,
    has_data: bool,
) -> TextureUploadPath {
    if !has_data || !use_pbo {
        TextureUploadPath::Synchronous
    } else if has_tex_storage {
        TextureUploadPath::PboImmutable
    } else {
        TextureUploadPath::PboMutable
    }
}

impl TextureUploadPath {
    /// Choose a path without hardware buffers. An image without data is never staged.
    pub fn select(use_pbo: bool, has_tex_storage: bool, has_data: bool) -> (path: Self)
        ensures
            path == path_for(use_pbo, has_tex_storage, has_data),
    {
        if !has_data {
            return TextureUploadPath::Synchronous;
        }
        if use_pbo && has_tex_storage {
            return TextureUploadPath::PboImmutable;
        }
        if use_pbo {
            return TextureUploadPath::PboMutable;
        }
        TextureUploadPath::Synchronous
    }

    /// Choose a path. Hardware buffers win where they may be used and there is data.
    pub fn select_tiered(
        ahb_available: bool,
        session_ahb_enabled: bool,
        display_available: bool,
        use_pbo: bool,
        has_tex_storage: bool,
        has_data: bool,
    ) -> (path: Self)
        ensures
            path == (if has_data && ahb_available && session_ahb_enabled && display_available {
                TextureUploadPath::Ahb
            } else {
                path_for(use_pbo, has_tex_storage, has_data)
            }),
    {
        if !has_data {
            return TextureUploadPath::Synchronous;
        }
        if should_try_ahb_upload(ahb_available, session_ahb_enabled, display_available) {
            return TextureUploadPath::Ahb;
        }
        Self::select(use_pbo, has_tex_storage, has_data)
    }
}

/// An uploaded texture.
#[derive(Debug, Clone, Copy)]
pub struct PboUploadResult {
    pub texture: u32,
    pub width: u32,
    pub height: u32,
    pub path_taken: TextureUploadPath,
}

/// Why an upload failed.
#[derive(Debug, Clone, Copy, PartialEq, Eq, Structural)]
pub enum UploadFailure {
    /// No texture could be created.
    CreateTexture,
    /// No pixel buffer could be created.
    CreateBuffer,
}

/// The size of an image to upload: its sides, and its bytes in memory.
#[derive(Debug, Clone, Copy, PartialEq, Eq, Structural)]
pub struct ImageExtent {
    pub width: u32,
    pub height: u32,
    pub bytes: usize,
}

/// The transfer by which a path puts an image into a texture.
pub open spec fn transfer_by(
    path: TextureUploadPath,
    texture: u32,
    image: ImageExtent,
    buffer: u32,
) -> crate::gl_device::TransferRecord {
    crate::gl_device::TransferRecord {
        texture,
        how: if path == TextureUploadPath::PboImmutable {
            Transfer::SubImage
        } else {
            Transfer::Image
        },
        width: image.width as i32,
        height: image.height as i32,
        buffer,
        alignment: if path == TextureUploadPath::Synchronous {
            1
        } else {
            4
        },
    }
}

/// The format of a texture that a path makes: one that stays has a sized one.
pub open spec fn format_of(path: TextureUploadPath) -> u32 {
    if path == TextureUploadPath::PboImmutable {
        RGBA8
    } else {
        RGBA
    }
}

/// What an upload that went well leaves: the texture, bound content as it was, and no pixel
/// buffer bound where one was used.
pub open spec fn uploaded(
    before: crate::gl_device::GlModel,
    after: crate::gl_device::GlModel,
    path: TextureUploadPath,
    texture: u32,
    image: ImageExtent,
) -> bool {
    let through_buffer = path != TextureUploadPath::Synchronous;
    &&& texture != 0
    &&& after.textures == before.textures.insert(texture)
    &&& after.storage[texture] == (format_of(path), image.width as i32, image.height as i32)
    &&& after.truthful ==> before.truthful
    &&& after.truthful ==> after.bindings =~= (crate::gl_device::Bindings {
        unpack_buffer: if through_buffer {
            0
        } else {
            before.bindings.unpack_buffer
        },
        ..before.bindings
    })
    &&& exists|buffer: u32|
        #![trigger transfer_by(path, texture, image, buffer)]
        {
            &&& after.transfers == before.transfers.push(
                transfer_by(path, texture, image, buffer),
            )
            &&& through_buffer ==> buffer != 0 && after.filled.dom().contains(buffer)
                && after.filled[buffer] == image.bytes
            &&& !through_buffer ==> buffer == before.bindings.unpack_buffer
        }
}

/// What the engine's own transfers go through and leave alone.
spec fn only_buffers_moved(
    before: crate::gl_device::GlModel,
    after: crate::gl_device::GlModel,
) -> bool {
    after == (crate::gl_device::GlModel {
        buffers: after.buffers,
        fences: after.fences,
        fenced: after.fenced,
        refused: after.refused,
        ..before
    })
}

/// No pixel went into the bound texture, for want of a buffer: the bindings are as they were,
/// and at most the texture's storage and the answers to error queries are new.
pub open spec fn unfilled(
    before: crate::gl_device::GlModel,
    after: crate::gl_device::GlModel,
) -> bool {
    after == (crate::gl_device::GlModel {
        buffers: after.buffers,
        fences: after.fences,
        fenced: after.fenced,
        refused: after.refused,
        storage: after.storage,
        errors: after.errors,
        ..before
    })
}

/// An upload that had no buffer to go through leaves the texture that it made, without pixels,
/// bound in place of the caller's; nothing else that is bound has moved.
pub open spec fn stranded(
    before: crate::gl_device::GlModel,
    after: crate::gl_device::GlModel,
    texture: u32,
    image: ImageExtent,
    path: TextureUploadPath,
) -> bool {
    &&& texture != 0
    &&& after.textures == before.textures.insert(texture)
    &&& after.bindings == (crate::gl_device::Bindings {
        textures: before.bindings.textures.insert(before.bindings.active_texture, texture),
        ..before.bindings
    })
    &&& after.sampling == crate::gl_device::sampled(before.sampling, texture, LINEAR)
    &&& after.storage == (if path == TextureUploadPath::PboImmutable {
        before.storage.insert(texture, (RGBA8, image.width as i32, image.height as i32))
    } else {
        before.storage
    })
    &&& after.transfers == before.transfers
}

/// The bytes of uploads whose buffers a pool has handed out.
pub open spec fn in_use(pool: Option<PboPool>) -> nat {
    match pool {
        Some(p) => p@.in_flight,
        None => 0,
    }
}

/// A pool that was worked through is well formed and as large as it was, with no more than
/// so many bytes in use.
pub open spec fn pool_kept(before: Option<PboPool>, after: Option<PboPool>, most: nat) -> bool {
    match (before, after) {
        (None, None) => true,
        (Some(b), Some(a)) => {
            &&& a.wf()
            &&& a@.max == b@.max
            &&& a@.supported == b@.supported
            &&& a@.in_flight <= most
        },
        _ => false,
    }
}

/// A buffer was taken: the pool handed it out; or there is no pool, or it had none to hand
/// out, and the driver made it.
pub open spec fn buffer_taken<F: Fn(GlCall) -> u32>(
    before: Option<PboPool>,
    after: Option<PboPool>,
    run: F,
    bytes: usize,
    buffer: u32,
) -> bool {
    match (before, after) {
        (None, None) => call_ensures(run, (GlCall::CreateBuffer,), buffer),
        (Some(b), Some(a)) => {
            ||| b@.supported && acquired(b@, a@, run, bytes, buffer)
            ||| {
                &&& a@ == b@
                &&& b@.supported ==> call_ensures(run, (GlCall::CreateBuffer,), 0u32)
                &&& call_ensures(run, (GlCall::CreateBuffer,), buffer)
            }
        },
        _ => false,
    }
}

/// A pixel buffer for an upload: from the pool, or else a new one. `None` where the driver
/// has none to give.
fn take_buffer<F: Fn(GlCall) -> u32>(
    gl: &mut Gl<F>,
    pool: &mut Option<PboPool>,
    bytes: usize,
) -> (buffer: Option<u32>)
    requires
        old(gl).ready(),
        *old(pool) matches Some(p) ==> p.wf(),
    ensures
        final(gl).ready(),
        final(gl).runner() == old(gl).runner(),
        only_buffers_moved(old(gl)@, final(gl)@),
        pool_kept(*old(pool), *final(pool), sat_add(in_use(*old(pool)), bytes as nat)),
        buffer matches Some(b) ==> b != 0 && buffer_taken(
            *old(pool),
            *final(pool),
            old(gl).runner(),
            bytes,
            b,
        ),
        *old(pool) is None ==> final(gl)@ == (crate::gl_device::GlModel {
            buffers: match buffer {
                Some(b) => old(gl)@.buffers.insert(b),
                None => old(gl)@.buffers,
            },
            refused: final(gl)@.refused,
            ..old(gl)@
        }),
        buffer is None ==> call_ensures(old(gl).runner(), (GlCall::CreateBuffer,), 0u32)
            && pool_kept(*old(pool), *final(pool), in_use(*old(pool))),
{
    let taken = match pool.take() {
        None => None,
        Some(mut p) => {
            let taken = p.acquire(gl, bytes);
            *pool = Some(p);
            taken
        },
    };
    if let Some(b) = taken {
        return Some(b);
    }
    let name: u32 = gl.issue(GlCall::CreateBuffer);
    if name == 0 {
        None
    } else {
        Some(name)
    }
}

/// Give a pixel buffer back: to the pool, or else to the driver.
fn give_buffer<F: Fn(GlCall) -> u32>(
    gl: &mut Gl<F>,
    pool: &mut Option<PboPool>,
    buffer: u32,
    bytes: usize,
)
    requires
        old(gl).ready(),
        *old(pool) matches Some(p) ==> p.wf(),
        buffer != 0,
    ensures
        final(gl).ready(),
        final(gl).runner() == old(gl).runner(),
        only_buffers_moved(old(gl)@, final(gl)@),
        pool_kept(*old(pool), *final(pool), sat_sub(in_use(*old(pool)), bytes as nat)),
        *old(pool) is None ==> final(gl)@.buffers == old(gl)@.buffers.remove(buffer),
{
    match pool.take() {
        None => {
            let _ = gl.issue(GlCall::DeleteBuffer { name: buffer });
        },
        Some(mut p) => {
            p.release(gl, buffer, bytes);
            *pool = Some(p);
        },
    }
}

/// Fill a pixel buffer and put it into the bound texture. No pixel buffer is bound
/// afterwards.
fn transfer_through<F: Fn(GlCall) -> u32>(
    gl: &mut Gl<F>,
    pool: &mut Option<PboPool>,
    how: Transfer,
    image: &ImageExtent,
) -> (buffer: Option<u32>)
    requires
        old(gl).ready(),
        *old(pool) matches Some(p) ==> p.wf(),
    ensures
        final(gl).ready(),
        final(gl).runner() == old(gl).runner(),
        pool_kept(*old(pool), *final(pool), in_use(*old(pool))),
        match buffer {
            None => only_buffers_moved(old(gl)@, final(gl)@) && call_ensures(
                old(gl).runner(),
                (GlCall::CreateBuffer,),
                0u32,
            ),
            Some(b) => {
                let texture = old(gl)@.bindings.textures[old(gl)@.bindings.active_texture];
                &&& b != 0
                &&& final(gl)@ == (crate::gl_device::GlModel {
                    buffers: final(gl)@.buffers,
                    fences: final(gl)@.fences,
                    fenced: final(gl)@.fenced,
                    refused: final(gl)@.refused,
                    filled: old(gl)@.filled.insert(b, image.bytes as nat),
                    bindings: crate::gl_device::Bindings {
                        unpack_buffer: 0,
                        pixel_store: old(gl)@.bindings.pixel_store.insert(UNPACK_ALIGNMENT, 4),
                        ..old(gl)@.bindings
                    },
                    storage: if how is Image {
                        old(gl)@.storage.insert(
                            texture,
                            (RGBA, image.width as i32, image.height as i32),
                        )
                    } else {
                        old(gl)@.storage
                    },
                    transfers: old(gl)@.transfers.push(
                        crate::gl_device::TransferRecord {
                            texture,
                            how,
                            width: image.width as i32,
                            height: image.height as i32,
                            buffer: b,
                            alignment: 4,
                        },
                    ),
                    ..old(gl)@
                })
            },
        },
{
    let buffer: u32 = match take_buffer(gl, pool, image.bytes) {
        None => {
            return None;
        },
        Some(b) => b,
    };
    let _ = gl.issue(GlCall::BindBuffer { target: PIXEL_UNPACK_BUFFER, name: buffer });
    let _ = gl.issue(GlCall::FillUnpackBuffer { bytes: image.bytes });
    let _ = gl.issue(GlCall::PixelStore { pname: UNPACK_ALIGNMENT, value: 4 });
    let _ = gl.issue(
        GlCall::TransferPixels {
            how,
            width: image.width as i32,
            height: image.height as i32,
        },
    );
    let _ = gl.issue(GlCall::BindBuffer { target: PIXEL_UNPACK_BUFFER, name: 0 });
    give_buffer(gl, pool, buffer, image.bytes);
    Some(buffer)
}

/// What a path has done to the bound texture.
spec fn path_taken(
    before: crate::gl_device::GlModel,
    after: crate::gl_device::GlModel,
    path: TextureUploadPath,
    image: ImageExtent,
    buffer: u32,
) -> bool {
    let texture = before.bindings.textures[before.bindings.active_texture];
    let through_buffer = path != TextureUploadPath::Synchronous;
    &&& after == (crate::gl_device::GlModel {
        buffers: after.buffers,
        fences: after.fences,
        fenced: after.fenced,
        refused: after.refused,
        filled: after.filled,
        storage: after.storage,
        bindings: after.bindings,
        errors: after.errors,
        transfers: before.transfers.push(transfer_by(path, texture, image, buffer)),
        ..before
    })
    &&& after.bindings == (crate::gl_device::Bindings {
        unpack_buffer: if through_buffer {
            0
        } else {
            before.bindings.unpack_buffer
        },
        pixel_store: before.bindings.pixel_store.insert(
            UNPACK_ALIGNMENT,
            if through_buffer {
                4
            } else {
                1
            },
        ),
        ..before.bindings
    })
    &&& after.storage == before.storage.insert(
        texture,
        (format_of(path), image.width as i32, image.height as i32),
    )
    &&& through_buffer ==> buffer != 0 && after.filled.dom().contains(buffer)
        && after.filled[buffer] == image.bytes
    &&& !through_buffer ==> buffer == before.bindings.unpack_buffer
}

/// Allocate the bound texture in a layout that stays. The answer is whether the library did.
fn allocate_immutable<F: Fn(GlCall) -> u32>(gl: &mut Gl<F>, image: &ImageExtent) -> (done: bool)
    requires
        old(gl).ready(),
    ensures
        final(gl).ready(),
        final(gl).runner() == old(gl).runner(),
        final(gl)@ == (crate::gl_device::GlModel {
            storage: old(gl)@.storage.insert(
                old(gl)@.bindings.textures[old(gl)@.bindings.active_texture],
                (RGBA8, image.width as i32, image.height as i32),
            ),
            errors: final(gl)@.errors,
            ..old(gl)@
        }),
        final(gl)@.errors.len() > 0,
        done == (final(gl)@.errors.last() == NO_ERROR),
{
    gl.clear_errors();
    let _ = gl.issue(
        GlCall::TexStorage2D {
            internal_format: RGBA8,
            width: image.width as i32,
            height: image.height as i32,
        },
    );
    gl.issue(GlCall::GetError) == NO_ERROR
}

/// Allocate the bound texture in a layout that stays, and fill it through a pixel buffer. A
/// texture that cannot be allocated so is made anew through the buffer instead.
fn upload_immutable_with_pbo<F: Fn(GlCall) -> u32>(
    gl: &mut Gl<F>,
    image: &ImageExtent,
    pool: &mut Option<PboPool>,
) -> (done: (TextureUploadPath, Option<u32>))
    requires
        old(gl).ready(),
        *old(pool) matches Some(p) ==> p.wf(),
    ensures
        final(gl).ready(),
        final(gl).runner() == old(gl).runner(),
        pool_kept(*old(pool), *final(pool), in_use(*old(pool))),
        final(gl)@.errors.len() > 0,
        done.0 == settled_path(TextureUploadPath::PboImmutable, final(gl)@),
        done.1 is None ==> call_ensures(old(gl).runner(), (GlCall::CreateBuffer,), 0u32)
            && unfilled(old(gl)@, final(gl)@) && final(gl)@.storage == old(gl)@.storage.insert(
            old(gl)@.bindings.textures[old(gl)@.bindings.active_texture],
            (RGBA8, image.width as i32, image.height as i32),
        ),
        done.1 matches Some(b) ==> path_taken(old(gl)@, final(gl)@, done.0, *image, b),
{
    if allocate_immutable(gl, image) {
        let buffer = transfer_through(gl, pool, Transfer::SubImage, image);
        (TextureUploadPath::PboImmutable, buffer)
    } else {
        let buffer = upload_with_pbo_pooled(gl, image, pool);
        proof {
            let texture = old(gl)@.bindings.textures[old(gl)@.bindings.active_texture];
            let tried = (RGBA8, image.width as i32, image.height as i32);
            let made = (RGBA, image.width as i32, image.height as i32);
            assert(old(gl)@.storage.insert(texture, tried).insert(texture, made)
                =~= old(gl)@.storage.insert(texture, made));
        }
        (TextureUploadPath::PboMutable, buffer)
    }
}

/// Make the bound texture anew through a pixel buffer.
fn upload_with_pbo_pooled<F: Fn(GlCall) -> u32>(
    gl: &mut Gl<F>,
    image: &ImageExtent,
    pool: &mut Option<PboPool>,
) -> (buffer: Option<u32>)
    requires
        old(gl).ready(),
        *old(pool) matches Some(p) ==> p.wf(),
    ensures
        final(gl).ready(),
        final(gl).runner() == old(gl).runner(),
        pool_kept(*old(pool), *final(pool), in_use(*old(pool))),
        final(gl)@.errors == old(gl)@.errors,
        buffer is None ==> call_ensures(old(gl).runner(), (GlCall::CreateBuffer,), 0u32)
            && unfilled(old(gl)@, final(gl)@) && final(gl)@.storage == old(gl)@.storage,
        buffer matches Some(b) ==> path_taken(
            old(gl)@,
            final(gl)@,
            TextureUploadPath::PboMutable,
            *image,
            b,
        ),
{
    transfer_through(gl, pool, Transfer::Image, image)
}

/// Make the bound texture anew from memory.
fn upload_sync_internal<F: Fn(GlCall) -> u32>(gl: &mut Gl<F>, image: &ImageExtent)
    requires
        old(gl).ready(),
    ensures
        final(gl).ready(),
        final(gl).runner() == old(gl).runner(),
        path_taken(
            old(gl)@,
            final(gl)@,
            TextureUploadPath::Synchronous,
            *image,
            old(gl)@.bindings.unpack_buffer,
        ),
        final(gl)@.errors == old(gl)@.errors,
{
    let _ = gl.issue(GlCall::PixelStore { pname: UNPACK_ALIGNMENT, value: 1 });
    let _ = gl.issue(
        GlCall::TransferPixels {
            how: Transfer::Image,
            width: image.width as i32,
            height: image.height as i32,
        },
    );
}

/// Bind a new texture and say how it is sampled.
fn start_texture<F: Fn(GlCall) -> u32>(gl: &mut Gl<F>, texture: u32)
    requires
        old(gl).ready(),
    ensures
        final(gl).ready(),
        final(gl).runner() == old(gl).runner(),
        final(gl)@ == (crate::gl_device::GlModel {
            bindings: crate::gl_device::Bindings {
                textures: old(gl)@.bindings.textures.insert(
                    old(gl)@.bindings.active_texture,
                    texture,
                ),
                ..old(gl)@.bindings
            },
            sampling: crate::gl_device::sampled(old(gl)@.sampling, texture, LINEAR),
            ..old(gl)@
        }),
{
    let _ = gl.issue(GlCall::BindTexture { target: TEXTURE_2D, name: texture });
    let _ = gl.issue(
        GlCall::TexParameter { target: TEXTURE_2D, pname: TEXTURE_MIN_FILTER, value: LINEAR },
    );
    let _ = gl.issue(
        GlCall::TexParameter { target: TEXTURE_2D, pname: TEXTURE_MAG_FILTER, value: LINEAR },
    );
    let _ = gl.issue(
        GlCall::TexParameter { target: TEXTURE_2D, pname: TEXTURE_WRAP_S, value: CLAMP_TO_EDGE },
    );
    let _ = gl.issue(
        GlCall::TexParameter { target: TEXTURE_2D, pname: TEXTURE_WRAP_T, value: CLAMP_TO_EDGE },
    );
}

/// Upload an image without hardware buffers. Where the library cannot allocate the texture in
/// a layout that stays, it is made anew in the usual way.
///
/// The caller's texture binding and unpack alignment are put back after a success: content
/// that binds the same texture again, or sets the same alignment, is not sent again. After a
/// failure for want of a buffer the new texture stays, bound and without pixels.
pub fn upload_texture_with_pbo_ext<F: Fn(GlCall) -> u32>(
    gl: &mut Gl<F>,
    image: &ImageExtent,
    use_pbo: bool,
    pool: &mut Option<PboPool>,
    has_tex_storage: bool,
) -> (result: Result<PboUploadResult, UploadFailure>)
    requires
        old(gl).ready(),
        *old(pool) matches Some(p) ==> p.wf(),
    ensures
        final(gl).ready(),
        final(gl).runner() == old(gl).runner(),
        pool_kept(*old(pool), *final(pool), in_use(*old(pool))),
        upload_outcome(
            old(gl)@,
            final(gl)@,
            old(gl).runner(),
            *image,
            path_for(use_pbo, has_tex_storage, image.bytes > 0),
            result,
        ),
{
    let saved_texture: u32 = gl.issue(GlCall::GetInteger { pname: TEXTURE_BINDING_2D });
    let saved_alignment: u32 = gl.issue(GlCall::GetInteger { pname: UNPACK_ALIGNMENT });
    let texture: u32 = gl.issue(GlCall::CreateTexture);
    if texture == 0 {
        return Err(UploadFailure::CreateTexture);
    }
    start_texture(gl, texture);
    let ghost started = gl@;
    assert(started.bindings.textures[started.bindings.active_texture] == texture);
    let mut path = TextureUploadPath::select(use_pbo, has_tex_storage, image.bytes > 0);
    let ghost mut through: u32 = started.bindings.unpack_buffer;
    match path {
        TextureUploadPath::PboImmutable => {
            let (settled, filled) = upload_immutable_with_pbo(gl, image, pool);
            path = settled;
            match filled {
                None => {
                    assert(stranded(
                        old(gl)@,
                        gl@,
                        texture,
                        *image,
                        path_for(use_pbo, has_tex_storage, image.bytes > 0),
                    ));
                    return Err(UploadFailure::CreateBuffer);
                },
                Some(buffer) => {
                    proof {
                        through = buffer;
                    }
                },
            }
        },
        TextureUploadPath::PboMutable => {
            match upload_with_pbo_pooled(gl, image, pool) {
                None => {
                    assert(stranded(
                        old(gl)@,
                        gl@,
                        texture,
                        *image,
                        path_for(use_pbo, has_tex_storage, image.bytes > 0),
                    ));
                    return Err(UploadFailure::CreateBuffer);
                },
                Some(buffer) => {
                    proof {
                        through = buffer;
                    }
                },
            }
        },
        TextureUploadPath::Ahb | TextureUploadPath::Synchronous => {
            upload_sync_internal(gl, image);
        },
    }
    let ghost filled = gl@;
    assert(path_taken(started, filled, path, *image, through));
    let _ = gl.issue(GlCall::BindTexture { target: TEXTURE_2D, name: saved_texture });
    let _ = gl.issue(GlCall::PixelStore { pname: UNPACK_ALIGNMENT, value: saved_alignment });
    proof {
        let before = old(gl)@;
        let after = gl@;
        assert(after.transfers == before.transfers.push(
            transfer_by(path, texture, *image, through),
        ));
        if after.truthful {
            let unit = before.bindings.active_texture;
            assert(crate::gl_device::reported(before.bindings, TEXTURE_BINDING_2D) == Some(
                saved_texture,
            ));
            assert(after.bindings.textures =~= before.bindings.textures);
            assert(after.bindings.pixel_store =~= before.bindings.pixel_store);
        }
    }
    Ok(PboUploadResult { texture, width: image.width, height: image.height, path_taken: path })
}

/// The path that an upload goes in the end: where the library raised an error when the
/// texture was allocated in a layout that stays, the texture is made anew.
pub open spec fn settled_path(
    path: TextureUploadPath,
    after: crate::gl_device::GlModel,
) -> TextureUploadPath {
    if path == TextureUploadPath::PboImmutable && after.errors.last() != NO_ERROR {
        TextureUploadPath::PboMutable
    } else {
        path
    }
}

/// What an upload without hardware buffers comes to.
pub open spec fn upload_outcome<F: Fn(GlCall) -> u32>(
    before: crate::gl_device::GlModel,
    after: crate::gl_device::GlModel,
    run: F,
    image: ImageExtent,
    path: TextureUploadPath,
    result: Result<PboUploadResult, UploadFailure>,
) -> bool {
    match result {
        Ok(up) => {
            &&& up.width == image.width && up.height == image.height
            &&& up.path_taken == settled_path(path, after)
            &&& path != TextureUploadPath::PboImmutable ==> after.errors == before.errors
            &&& uploaded(before, after, up.path_taken, up.texture, image)
        },
        Err(UploadFailure::CreateTexture) => {
            &&& call_ensures(run, (GlCall::CreateTexture,), 0u32)
            &&& after == (crate::gl_device::GlModel {
                truthful: after.truthful,
                ..crate::gl_device::unmade(before, GlCall::CreateTexture)
            })
        },
        Err(UploadFailure::CreateBuffer) => {
            &&& path != TextureUploadPath::Synchronous
            &&& call_ensures(run, (GlCall::CreateBuffer,), 0u32)
            &&& exists|texture: u32| #[trigger] stranded(before, after, texture, image, path)
        },
    }
}

/// Upload an image by the best path.
///
/// A hardware-buffer upload that fails turns hardware buffers off for the session and
/// goes on with the path that would have been taken without them.
pub fn upload_texture_tiered<
    F: Fn(GlCall) -> u32,
    TryAhb: FnOnce() -> Option<u32>,
    Disable: FnOnce() -> bool,
>(
    gl: &mut Gl<F>,
    image: &ImageExtent,
    ahb_allowed: bool,
    use_pbo: bool,
    pool: &mut Option<PboPool>,
    has_tex_storage: bool,
    try_ahb: TryAhb,
    disable_ahb: Disable,
) -> (result: Result<PboUploadResult, UploadFailure>)
    requires
        old(gl).ready(),
        *old(pool) matches Some(p) ==> p.wf(),
        ahb_allowed && image.bytes > 0 ==> call_requires(try_ahb, ()),
        call_ensures(try_ahb, (), None) ==> call_requires(disable_ahb, ()),
    ensures
        final(gl).ready(),
        final(gl).runner() == old(gl).runner(),
        pool_kept(*old(pool), *final(pool), in_use(*old(pool))),
        ({
            let plain = upload_outcome(
                old(gl)@,
                final(gl)@,
                old(gl).runner(),
                *image,
                path_for(use_pbo, has_tex_storage, image.bytes > 0),
                result,
            );
            if ahb_allowed && image.bytes > 0 {
                ||| {
                    &&& result matches Ok(up) && call_ensures(try_ahb, (), Some(up.texture))
                        && up.width == image.width && up.height == image.height && up.path_taken
                        == TextureUploadPath::Ahb
                    &&& final(gl)@ == old(gl)@
                }
                ||| {
                    &&& call_ensures(try_ahb, (), None)
                    &&& exists|first: bool| #[trigger] call_ensures(disable_ahb, (), first)
                    &&& plain
                }
            } else {
                plain
            }
        }),
{
    let path = TextureUploadPath::select_tiered(
        ahb_allowed,
        true,
        true,
        use_pbo,
        has_tex_storage,
        image.bytes > 0,
    );
    if path == TextureUploadPath::Ahb {
        match try_ahb() {
            Some(texture) => {
                return Ok(
                    PboUploadResult {
                        texture,
                        width: image.width,
                        height: image.height,
                        path_taken: path,
                    },
                );
            },
            None => {
                let first: bool = disable_ahb();
                assert(call_ensures(disable_ahb, (), first));
            },
        }
    }
    upload_texture_with_pbo_ext(gl, image, use_pbo, pool, has_tex_storage)
}

// ---- the buffer pool ---------------------------------------------------------

/// One probe of the pool: the size of each buffer that waits, and whether the GPU is
/// done with it. A probe of a pool fits in place.
#[verifier::external_body]
pub struct ProbeList {
    items: SmallVec<[(usize, bool); 8]>,
}

/// What a probe holds, in order.
pub uninterp spec fn probed(probe: ProbeList) -> Seq<(usize, bool)>;

/// `SmallVec::new`: a vector that holds nothing.
#[verifier::external_body]
fn probe_new() -> (probe: ProbeList)
    ensures
        probed(probe) == Seq::<(usize, bool)>::empty(),
{
    ProbeList { items: SmallVec::new() }
}

/// `SmallVec::push`: the item becomes the last one and the others stay. It panics only
/// where the storage would outgrow the address space, far beyond the length admitted
/// here.
#[verifier::external_body]
fn probe_push(probe: &mut ProbeList, item: (usize, bool))
    requires
        probed(*old(probe)).len() < 0x10000,
    ensures
        probed(*final(probe)) == probed(*old(probe)).push(item),
{
    probe.items.push(item)
}

/// `SmallVec::as_slice`: every item, in order.
#[verifier::external_body]
fn probe_slice(probe: &ProbeList) -> (items: &[(usize, bool)])
    ensures
        items@ == probed(*probe),
{
    probe.items.as_slice()
}

/// An entry of a probe can be reused for `size` bytes.
pub open spec fn fits(entry: (usize, bool), size: usize) -> bool {
    entry.0 >= size && entry.1
}

/// The first entry that is large enough and that the GPU is done with. An entry in
/// flight is passed over, never waited for.
pub fn first_reusable(entries: &[(usize, bool)], size: usize) -> (found: Option<usize>)
    ensures
        found matches Some(i) ==> i < entries@.len() && fits(entries@[i as int], size) && forall|
            j: int,
        |
            0 <= j < i ==> !fits(#[trigger] entries@[j], size),
        found is None ==> forall|j: int|
            0 <= j < entries@.len() ==> !fits(#[trigger] entries@[j], size),
{
    let mut i: usize = 0;
    while i < entries.len()
        invariant
            i <= entries@.len(),
            forall|j: int| 0 <= j < i ==> !fits(#[trigger] entries@[j], size),
        decreases entries@.len() - i,
    {
        if entries[i].0 >= size && entries[i].1 {
            return Some(i);
        }
        i = i + 1;
    }
    None
}

/// A buffer that waits in the pool. Its fence, where it has one, signals when the GPU
/// has read the last upload out of it.
#[derive(Clone, Copy, Debug)]
pub struct PoolEntry {
    pub buffer: u32,
    pub size: usize,
    pub fence: Option<u32>,
}

/// The buffers in the pool and the bytes on its books.
pub struct Pool {
    pub free: Seq<PoolEntry>,
    pub reserved: nat,
    pub in_flight: nat,
    pub max: nat,
    pub supported: bool,
}

/// The bytes of a list of entries.
pub open spec fn total(entries: Seq<PoolEntry>) -> nat
    decreases entries.len(),
{
    if entries.len() == 0 {
        0
    } else {
        total(entries.drop_last()) + entries.last().size as nat
    }
}

/// The entries are in order of size.
pub open spec fn by_size(entries: Seq<PoolEntry>) -> bool {
    forall|i: int, j: int|
        0 <= i <= j < entries.len() ==> (#[trigger] entries[i]).size <= (#[trigger] entries[j]).size
}

/// The sum, held at the largest machine value.
pub open spec fn sat_add(a: nat, b: nat) -> nat {
    if a + b <= usize::MAX {
        a + b
    } else {
        usize::MAX as nat
    }
}

/// The difference, held at zero.
pub open spec fn sat_sub(a: nat, b: nat) -> nat {
    if a >= b {
        (a - b) as nat
    } else {
        0
    }
}

/// `after` is `before` with `entry` behind every entry that is not larger.
pub open spec fn inserted_by_size(
    before: Seq<PoolEntry>,
    entry: PoolEntry,
    after: Seq<PoolEntry>,
) -> bool {
    exists|at: int|
        0 <= at <= before.len() && after == #[trigger] before.insert(at, entry) && (forall|j: int|
            0 <= j < at ==> (#[trigger] before[j]).size <= entry.size) && (forall|j: int|
            at <= j < before.len() ==> (#[trigger] before[j]).size > entry.size)
}

proof fn lemma_total_remove(entries: Seq<PoolEntry>, i: int)
    requires
        0 <= i < entries.len(),
    ensures
        total(entries) == total(entries.remove(i)) + entries[i].size,
    decreases entries.len(),
{
    if i == entries.len() - 1 {
        assert(entries.remove(i) =~= entries.drop_last());
    } else {
        lemma_total_remove(entries.drop_last(), i);
        assert(entries.remove(i).drop_last() =~= entries.drop_last().remove(i));
        assert(entries.remove(i).last() == entries.last());
    }
}

proof fn lemma_total_insert(entries: Seq<PoolEntry>, at: int, entry: PoolEntry)
    requires
        0 <= at <= entries.len(),
    ensures
        total(entries.insert(at, entry)) == total(entries) + entry.size,
{
    let after = entries.insert(at, entry);
    lemma_total_remove(after, at);
    assert(after.remove(at) =~= entries);
}

/// Reusable pixel buffers, smallest first.
pub struct PboPool {
    available: Vec<PoolEntry>,
    reserved_bytes: usize,
    in_flight_bytes: usize,
    max_pool_size: usize,
    pbo_supported: bool,
}

/// The GPU is past a fence, without waiting.
pub open spec fn passed<F: Fn(GlCall) -> u32>(run: F, fence: u32) -> bool {
    exists|status: u32| #[trigger]
        call_ensures(run, (GlCall::ClientWaitSync { fence, timeout: 0 },), status)
            && crate::fences::is_signalled(status)
}

/// The GPU is not past a fence yet.
pub open spec fn not_passed<F: Fn(GlCall) -> u32>(run: F, fence: u32) -> bool {
    exists|status: u32| #[trigger]
        call_ensures(run, (GlCall::ClientWaitSync { fence, timeout: 0 },), status)
            && !crate::fences::is_signalled(status)
}

/// A buffer that waits does not serve: it is too small, or the GPU still reads out of it.
pub open spec fn unfit<F: Fn(GlCall) -> u32>(run: F, entry: PoolEntry, size: usize) -> bool {
    entry.size < size || (entry.fence matches Some(f) && not_passed(run, f))
}

/// A buffer was handed out: of those in the pool that are large enough and that the GPU is
/// done with the smallest, or a new one where there is none.
pub open spec fn acquired<F: Fn(GlCall) -> u32>(
    before: Pool,
    after: Pool,
    run: F,
    size: usize,
    buffer: u32,
) -> bool {
    &&& after.in_flight == sat_add(before.in_flight, size as nat)
    &&& {
        ||| after.free == before.free && after.reserved == before.reserved && buffer != 0
            && call_ensures(run, (GlCall::CreateBuffer,), buffer) && none_fit(
            run,
            before.free,
            before.free.len() as int,
            size,
        )
        ||| exists|i: int|
            #![trigger before.free.remove(i)]
            {
                let entry = before.free[i];
                &&& 0 <= i < before.free.len()
                &&& entry.buffer == buffer
                &&& entry.size >= size
                &&& entry.fence matches Some(f) ==> passed(run, f)
                &&& none_fit(run, before.free, i, size)
                &&& after.free == before.free.remove(i)
                &&& after.reserved == sat_sub(before.reserved, entry.size as nat)
            }
    }
}

/// None of the first `n` buffers that wait serves.
pub open spec fn none_fit<F: Fn(GlCall) -> u32>(
    run: F,
    free: Seq<PoolEntry>,
    n: int,
    size: usize,
) -> bool {
    forall|j: int| 0 <= j < n ==> unfit(run, #[trigger] free[j], size)
}

impl View for PboPool {
    type V = Pool;

    closed spec fn view(&self) -> Pool {
        Pool {
            free: self.available@,
            reserved: self.reserved_bytes as nat,
            in_flight: self.in_flight_bytes as nat,
            max: self.max_pool_size as nat,
            supported: self.pbo_supported,
        }
    }
}

/// The size of a pool where the caller has no wish of its own.
pub const DEFAULT_POOL_SIZE: usize = 4;

impl PboPool {
    /// In order of size, each a buffer that there is, no more than the pool holds, and
    /// between one and eight.
    pub open spec fn wf(&self) -> bool {
        &&& by_size(self@.free)
        &&& self@.free.len() <= self@.max
        &&& 1 <= self@.max <= 8
        &&& forall|i: int|
            0 <= i < self@.free.len() ==> (#[trigger] self@.free[i]).buffer != 0
    }

    /// The reserved bytes are exactly those of the buffers that wait.
    pub open spec fn balanced(&self) -> bool {
        self@.reserved == total(self@.free)
    }

    /// An empty pool for a driver with the given version string.
    pub fn new(version: &str, max_pool_size: usize) -> (pool: Self)
        ensures
            pool.wf(),
            pool.balanced(),
            pool@ == (Pool {
                free: Seq::empty(),
                reserved: 0,
                in_flight: 0,
                max: if max_pool_size == 0 {
                    1
                } else if max_pool_size > 8 {
                    8
                } else {
                    max_pool_size as nat
                },
                supported: announces_pbo(version@),
            }),
    {
        let max: usize = if max_pool_size == 0 {
            1
        } else if max_pool_size > DEFAULT_POOL_SIZE * 2 {
            DEFAULT_POOL_SIZE * 2
        } else {
            max_pool_size
        };
        PboPool {
            available: Vec::new(),
            reserved_bytes: 0,
            in_flight_bytes: 0,
            max_pool_size: max,
            pbo_supported: check_pbo_support(version),
        }
    }

    /// Bytes held by buffers that wait in the pool.
    pub fn reserved_bytes(&self) -> (n: usize)
        ensures
            n == self@.reserved,
    {
        self.reserved_bytes
    }

    /// Bytes of uploads whose buffers are in use.
    pub fn in_flight_bytes(&self) -> (n: usize)
        ensures
            n == self@.in_flight,
    {
        self.in_flight_bytes
    }

    /// Whether the driver has pixel buffers at all.
    pub fn is_pbo_supported(&self) -> (b: bool)
        ensures
            b == self@.supported,
    {
        self.pbo_supported
    }

    /// Take the first waiting buffer that a probe shows to be reusable for `size` bytes.
    pub fn take_probed(&mut self, probe: &[(usize, bool)], size: usize) -> (taken: Option<
        PoolEntry,
    >)
        requires
            old(self).wf(),
            probe@.len() == old(self)@.free.len(),
            forall|i: int|
                0 <= i < probe@.len() ==> (#[trigger] probe@[i]).0 == old(self)@.free[i].size,
        ensures
            final(self).wf(),
            old(self).balanced() ==> final(self).balanced(),
            taken is None ==> final(self)@ == old(self)@ && forall|i: int|
                0 <= i < probe@.len() ==> !fits(#[trigger] probe@[i], size),
            taken matches Some(entry) ==> exists|i: int|
                #![trigger old(self)@.free.remove(i)]
                {
                    &&& 0 <= i < probe@.len()
                    &&& entry == old(self)@.free[i]
                    &&& fits(probe@[i], size)
                    &&& forall|j: int| 0 <= j < i ==> !fits(#[trigger] probe@[j], size)
                    &&& final(self)@ == (Pool {
                        free: old(self)@.free.remove(i),
                        reserved: sat_sub(old(self)@.reserved, entry.size as nat),
                        in_flight: sat_add(old(self)@.in_flight, size as nat),
                        ..old(self)@
                    })
                },
    {
        match first_reusable(probe, size) {
            None => None,
            Some(i) => {
                proof {
                    lemma_total_remove(self.available@, i as int);
                }
                let entry = self.available.remove(i);
                self.reserved_bytes = self.reserved_bytes.saturating_sub(entry.size);
                self.in_flight_bytes = self.in_flight_bytes.saturating_add(size);
                assert(self@.free == old(self)@.free.remove(i as int));
                Some(entry)
            },
        }
    }

    /// A buffer for an upload of `size` bytes: one that waits and is free, or a new one.
    /// `None` where the driver has no pixel buffers or cannot make another. Fences are
    /// asked about, never waited for.
    pub fn acquire<F: Fn(GlCall) -> u32>(&mut self, gl: &mut Gl<F>, size: usize) -> (buffer: Option<
        u32,
    >)
        requires
            old(self).wf(),
            old(gl).ready(),
        ensures
            final(self).wf(),
            final(gl).ready(),
            final(gl).runner() == old(gl).runner(),
            final(gl)@ == (crate::gl_device::GlModel {
                buffers: final(gl)@.buffers,
                fences: final(gl)@.fences,
                fenced: final(gl)@.fenced,
                refused: final(gl)@.refused,
                ..old(gl)@
            }),
            old(self).balanced() ==> final(self).balanced(),
            !old(self)@.supported ==> buffer is None && final(self)@ == old(self)@,
            old(self)@.supported && buffer is None ==> final(self)@ == old(self)@ && call_ensures(
                old(gl).runner(),
                (GlCall::CreateBuffer,),
                0u32,
            ) && none_fit(
                old(gl).runner(),
                old(self)@.free,
                old(self)@.free.len() as int,
                size,
            ),
            old(self)@.supported ==> (buffer matches Some(b) ==> acquired(
                old(self)@,
                final(self)@,
                old(gl).runner(),
                size,
                b,
            )),
            buffer matches Some(b) ==> b != 0,
            final(self)@.max == old(self)@.max,
            final(self)@.supported == old(self)@.supported,
    {
        if !self.pbo_supported {
            return None;
        }
        let ghost run = gl.runner();
        let mut probe = probe_new();
        let mut i: usize = 0;
        while i < self.available.len()
            invariant
                i <= self.available@.len(),
                self.available@.len() <= 8,
                *self == *old(self),
                gl.ready(),
                gl.runner() == run,
                gl@ == old(gl)@,
                probed(probe).len() == i,
                forall|j: int|
                    0 <= j < i ==> (#[trigger] probed(probe)[j]).0 == self.available@[j].size && (
                    probed(probe)[j].1 ==> (self.available@[j].fence matches Some(f)
                        ==> passed(run, f))) && (!probed(probe)[j].1 ==> (
                    self.available@[j].fence matches Some(f) && not_passed(run, f))),
            decreases self.available@.len() - i,
        {
            let entry = self.available[i];
            let ready: bool = match entry.fence {
                None => true,
                Some(f) => {
                    let status: u32 = gl.issue(GlCall::ClientWaitSync { fence: f, timeout: 0 });
                    assert(call_ensures(
                        run,
                        (GlCall::ClientWaitSync { fence: f, timeout: 0 },),
                        status,
                    ));
                    fence_signalled(status)
                },
            };
            probe_push(&mut probe, (entry.size, ready));
            i = i + 1;
        }
        let taken = self.take_probed(probe_slice(&probe), size);
        assert forall|j: int|
            0 <= j < old(self)@.free.len() && !fits(probed(probe)[j], size) implies unfit(
            run,
            #[trigger] old(self)@.free[j],
            size,
        ) by {
            let seen = probed(probe)[j];
        }
        match taken {
            Some(entry) => {
                if let Some(f) = entry.fence {
                    let _ = gl.issue(GlCall::DeleteSync { fence: f });
                }
                Some(entry.buffer)
            },
            None => {
                let made: u32 = gl.issue(GlCall::CreateBuffer);
                if made == 0 {
                    return None;
                }
                self.in_flight_bytes = self.in_flight_bytes.saturating_add(size);
                Some(made)
            },
        }
    }

    /// Take a buffer back after an upload of `size` bytes. It waits in the pool behind
    /// its fence; a pool that is full has it deleted.
    pub fn release<F: Fn(GlCall) -> u32>(&mut self, gl: &mut Gl<F>, buffer: u32, size: usize)
        requires
            old(self).wf(),
            old(gl).ready(),
            buffer != 0,
        ensures
            final(self).wf(),
            final(gl).ready(),
            final(gl).runner() == old(gl).runner(),
            final(gl)@ == (crate::gl_device::GlModel {
                buffers: final(gl)@.buffers,
                fences: final(gl)@.fences,
                fenced: final(gl)@.fenced,
                ..old(gl)@
            }),
            final(self)@.in_flight == sat_sub(old(self)@.in_flight, size as nat),
            final(self)@.max == old(self)@.max,
            final(self)@.supported == old(self)@.supported,
            old(self)@.free.len() < old(self)@.max ==> {
                &&& final(gl)@.buffers == old(gl)@.buffers
                &&& final(self)@.reserved == sat_add(old(self)@.reserved, size as nat)
                &&& exists|entry: PoolEntry| #[trigger]
                    inserted_by_size(old(self)@.free, entry, final(self)@.free) && entry.buffer
                        == buffer && entry.size == size && (entry.fence matches Some(f) ==> f != 0
                        && old(self)@.supported && call_ensures(
                        old(gl).runner(),
                        (GlCall::FenceSync,),
                        f,
                    )) && (entry.fence is None && old(self)@.supported ==> call_ensures(
                        old(gl).runner(),
                        (GlCall::FenceSync,),
                        0u32,
                    ))
            },
            old(self)@.free.len() >= old(self)@.max ==> {
                &&& final(self)@.free == old(self)@.free
                &&& final(self)@.reserved == old(self)@.reserved
                &&& final(gl)@.buffers == old(gl)@.buffers.remove(buffer)
            },
            old(self).balanced() && total(final(self)@.free) <= usize::MAX ==> final(self).balanced(),
    {
        self.in_flight_bytes = self.in_flight_bytes.saturating_sub(size);
        if self.available.len() < self.max_pool_size {
            let fence: Option<u32> = if self.pbo_supported {
                let made: u32 = gl.issue(GlCall::FenceSync);
                if made != 0 {
                    Some(made)
                } else {
                    None
                }
            } else {
                None
            };
            let entry = PoolEntry { buffer, size, fence };
            let ghost before = self.available@;
            let mut at: usize = 0;
            while at < self.available.len() && self.available[at].size <= size
                invariant
                    at <= self.available@.len(),
                    self.available@ == before,
                    forall|j: int| 0 <= j < at ==> (#[trigger] before[j]).size <= size,
                decreases self.available@.len() - at,
            {
                at = at + 1;
            }
            proof {
                assert(by_size(before));
                if at < before.len() {
                    assert forall|j: int| at <= j < before.len() implies (#[trigger] before[j]).size
                        > size by {
                        assert(before[at as int].size <= before[j].size);
                    }
                }
                lemma_total_insert(before, at as int, entry);
            }
            self.available.insert(at, entry);
            self.reserved_bytes = self.reserved_bytes.saturating_add(size);
            proof {
                let after = before.insert(at as int, entry);
                assert(self@.free == after);
                assert(by_size(after)) by {
                    assert forall|i: int, j: int| 0 <= i <= j < after.len() implies (
                    #[trigger] after[i]).size <= (#[trigger] after[j]).size by {
                        let a = if i < at {
                            i
                        } else {
                            i - 1
                        };
                        let b = if j < at {
                            j
                        } else {
                            j - 1
                        };
                        if i != at && j != at {
                            assert(before[a].size <= before[b].size);
                        }
                    }
                }
                assert(inserted_by_size(before, entry, self@.free));
            }
        } else {
            let _ = gl.issue(GlCall::DeleteBuffer { name: buffer });
        }
    }

    /// Empty the pool, delete its buffers and their fences, and close its books.
    pub fn clear<F: Fn(GlCall) -> u32>(&mut self, gl: &mut Gl<F>)
        requires
            old(self).wf(),
            old(gl).ready(),
        ensures
            final(self).wf(),
            final(self).balanced(),
            final(self)@ == (Pool { free: Seq::empty(), reserved: 0, in_flight: 0, ..old(self)@ }),
            final(gl).ready(),
            final(gl).runner() == old(gl).runner(),
            final(gl)@ == (crate::gl_device::GlModel {
                buffers: final(gl)@.buffers,
                fences: final(gl)@.fences,
                fenced: final(gl)@.fenced,
                ..old(gl)@
            }),
            forall|name: u32| #[trigger]
                final(gl)@.buffers.contains(name) <==> old(gl)@.buffers.contains(name) && !holds(
                    old(self)@.free,
                    name,
                ),
    {
        let mut i: usize = 0;
        while i < self.available.len()
            invariant
                i <= self.available@.len(),
                *self == *old(self),
                gl.ready(),
                gl.runner() == old(gl).runner(),
                gl@ == (crate::gl_device::GlModel {
                    buffers: gl@.buffers,
                    fences: gl@.fences,
                    fenced: gl@.fenced,
                    ..old(gl)@
                }),
                forall|name: u32| #[trigger]
                    gl@.buffers.contains(name) <==> old(gl)@.buffers.contains(name) && !holds(
                        self.available@.take(i as int),
                        name,
                    ),
            decreases self.available@.len() - i,
        {
            let entry = self.available[i];
            let ghost before = gl@.buffers;
            if let Some(f) = entry.fence {
                let _ = gl.issue(GlCall::DeleteSync { fence: f });
            }
            let _ = gl.issue(GlCall::DeleteBuffer { name: entry.buffer });
            proof {
                let now = self.available@.take(i + 1);
                let then = self.available@.take(i as int);
                assert forall|name: u32| holds(now, name) <==> holds(then, name) || name
                    == entry.buffer by {
                    if holds(then, name) {
                        let k = choose|k: int|
                            0 <= k < then.len() && (#[trigger] then[k]).buffer == name;
                        assert(now[k].buffer == name);
                    }
                    if holds(now, name) {
                        let k = choose|k: int|
                            0 <= k < now.len() && (#[trigger] now[k]).buffer == name;
                        if k < i {
                            assert(then[k].buffer == name);
                        }
                    }
                    assert(now[i as int].buffer == entry.buffer);
                }
                assert forall|name: u32| #[trigger] gl@.buffers.contains(name) <==> old(
                    gl,
                )@.buffers.contains(name) && !holds(now, name) by {
                    assert(before.contains(name) <==> old(gl)@.buffers.contains(name) && !holds(
                        then,
                        name,
                    ));
                }
            }
            i = i + 1;
        }
        assert(self.available@.take(i as int) =~= self.available@);
        self.available.clear();
        self.reserved_bytes = 0;
        self.in_flight_bytes = 0;
        assert(self@.free =~= Seq::empty());
    }
}

/// A list of entries holds a buffer.
pub open spec fn holds(entries: Seq<PoolEntry>, name: u32) -> bool {
    exists|k: int| 0 <= k < entries.len() && (#[trigger] entries[k]).buffer == name
}

/// In a pool that is in order of size, the first buffer that fits is the smallest
/// that fits, among those that are ready.
pub proof fn law_first_fit_is_best_fit(
    free: Seq<PoolEntry>,
    probe: Seq<(usize, bool)>,
    size: usize,
    i: int,
    j: int,
)
    requires
        by_size(free),
        probe.len() == free.len(),
        forall|k: int| 0 <= k < probe.len() ==> (#[trigger] probe[k]).0 == free[k].size,
        0 <= i < probe.len(),
        fits(probe[i], size),
        forall|k: int| 0 <= k < i ==> !fits(#[trigger] probe[k], size),
        0 <= j < probe.len(),
        fits(probe[j], size),
    ensures
        free[i].size <= free[j].size,
{
    if j < i {
        assert(!fits(probe[j], size));
    }
}

/// A hardware buffer is tried only where the device has them, the session has not turned them
/// off and there is a display.
pub proof fn law_when_a_hardware_buffer_is_tried(
    device: bool,
    session: bool,
    display: bool,
    tried: bool,
)
    requires
        call_ensures(should_try_ahb_upload, (device, session, display), tried),
    ensures
        tried == (device && session && display),
{
}

/// An image without data, or a device without pixel buffers, is uploaded from memory; with a
/// pixel buffer the storage stays where the library can make it so. A hardware buffer goes
/// first, and never without data.
pub proof fn law_which_path_an_upload_takes(
    ahb: bool,
    session: bool,
    display: bool,
    use_pbo: bool,
    has_tex_storage: bool,
    has_data: bool,
    plain: TextureUploadPath,
    tiered: TextureUploadPath,
)
    requires
        call_ensures(TextureUploadPath::select, (use_pbo, has_tex_storage, has_data), plain),
        call_ensures(
            TextureUploadPath::select_tiered,
            (ahb, session, display, use_pbo, has_tex_storage, has_data),
            tiered,
        ),
    ensures
        !has_data ==> plain is Synchronous && tiered is Synchronous,
        !use_pbo ==> plain is Synchronous,
        has_data && use_pbo && has_tex_storage ==> plain is PboImmutable,
        has_data && use_pbo && !has_tex_storage ==> plain is PboMutable,
        tiered is Ahb == (has_data && ahb && session && display),
        !(tiered is Ahb) ==> tiered == plain,
{
}

/// A version string announces pixel buffers exactly if it says "OpenGL ES 3" somewhere or
/// begins with "3." or "4.".
pub proof fn law_which_versions_have_pixel_buffers(version: &str, has: bool, at: int)
    requires
        call_ensures(check_pbo_support, (version,), has),
    ensures
        version@.len() >= 2 && (version@[0] == '3' || version@[0] == '4') && version@[1] == '.'
            ==> has,
        0 <= at && at + 11 <= version@.len() && version@.subrange(at, at + 11) == seq![
            'O',
            'p',
            'e',
            'n',
            'G',
            'L',
            ' ',
            'E',
            'S',
            ' ',
            '3',
        ] ==> has,
        has ==> version@.contains('3') || version@.len() >= 2 && version@[0] == '4' && version@[1]
            == '.',
        has ==> version@.len() >= 2,
{
    reveal_strlit("OpenGL ES 3");
    reveal_strlit("3.");
    reveal_strlit("4.");
    let name = "OpenGL ES 3"@;
    assert(name =~= seq!['O', 'p', 'e', 'n', 'G', 'L', ' ', 'E', 'S', ' ', '3']);
    if version@.len() >= 2 {
        if version@[0] == '3' && version@[1] == '.' {
            assert(version@.subrange(0, 2) =~= "3."@);
            assert(crate::text::occurs_at(version@, "3."@, 0));
        }
        if version@[0] == '4' && version@[1] == '.' {
            assert(version@.subrange(0, 2) =~= "4."@);
            assert(crate::text::occurs_at(version@, "4."@, 0));
        }
    }
    if 0 <= at && at + 11 <= version@.len() && version@.subrange(at, at + 11) == name {
        assert(crate::text::occurs_at(version@, name, at));
    }
    if has {
        if crate::text::occurs_in(version@, name) {
            let k = choose|k: int| #[trigger] crate::text::occurs_at(version@, name, k);
            assert(version@.subrange(k, k + 11)[10] == '3');
            assert(version@[k + 10] == '3');
        } else if crate::text::occurs_at(version@, "3."@, 0) {
            assert(version@.subrange(0, 2)[0] == '3');
            assert(version@[0] == '3');
        } else {
            assert(version@.subrange(0, 2)[0] == '4');
            assert(version@.subrange(0, 2)[1] == '.');
        }
    }
}

/// An image that was uploaded is whole in its texture: the texture has the image's size, and
/// one transfer brought all of it there, through a buffer that holds its bytes unless it came
/// from memory. The path is the one that was chosen, but for storage that could not be made to
/// stay.
pub proof fn law_an_uploaded_image_is_whole<F: Fn(GlCall) -> u32>(
    before: crate::gl_device::GlModel,
    after: crate::gl_device::GlModel,
    run: F,
    image: ImageExtent,
    path: TextureUploadPath,
    up: PboUploadResult,
)
    requires
        upload_outcome(before, after, run, image, path, Ok(up)),
        image.width <= i32::MAX,
        image.height <= i32::MAX,
    ensures
        up.width == image.width,
        up.height == image.height,
        up.texture != 0,
        after.textures.contains(up.texture),
        after.storage[up.texture].1 == image.width,
        after.storage[up.texture].2 == image.height,
        after.transfers.len() == before.transfers.len() + 1,
        after.transfers.last().texture == up.texture,
        after.transfers.last().width == image.width,
        after.transfers.last().height == image.height,
        !(up.path_taken is Synchronous) ==> after.filled[after.transfers.last().buffer]
            == image.bytes && after.transfers.last().buffer != 0,
        up.path_taken is Synchronous ==> after.transfers.last().buffer
            == before.bindings.unpack_buffer && after.transfers.last().alignment == 1,
        up.path_taken is PboImmutable ==> after.transfers.last().how is SubImage
            && after.storage[up.texture].0 == 0x8058,
        !(up.path_taken is PboImmutable) ==> after.transfers.last().how is Image
            && after.storage[up.texture].0 == 0x1908,
        up.path_taken == path || path is PboImmutable && up.path_taken is PboMutable,
        after.truthful ==> after.bindings.textures == before.bindings.textures,
        after.truthful && !(up.path_taken is Synchronous) ==> after.bindings.unpack_buffer == 0,
{
}

/// A buffer is taken again only if it is large enough and the GPU is done with it, and the
/// first such is.
pub proof fn law_which_buffer_is_taken_again(
    entries: &[(usize, bool)],
    size: usize,
    found: Option<usize>,
    j: int,
)
    requires
        call_ensures(first_reusable, (entries, size), found),
    ensures
        found matches Some(i) ==> i < entries@.len() && entries@[i as int].0 >= size
            && entries@[i as int].1 && (0 <= j < i ==> entries@[j].0 < size || !entries@[j].1),
        fits(entries@[j], size) == (entries@[j].0 >= size && entries@[j].1),
{
}

/// A pool keeps at least one buffer and at most eight, and the number asked for in between.
pub proof fn law_how_many_buffers_a_pool_keeps(version: &str, asked: usize, pool: PboPool)
    requires
        call_ensures(PboPool::new, (version, asked), pool),
    ensures
        asked == 0 ==> pool@.max == 1,
        1 <= asked <= 8 ==> pool@.max == asked,
        asked > 8 ==> pool@.max == 8,
        pool@.free.len() == 0,
        pool@.reserved == 0,
        pool@.in_flight == 0,
{
}

/// What is added and taken away again leaves what there was, as long as it is representable;
/// nothing goes below zero or above what is representable.
pub proof fn law_sums_stop_at_their_limits(a: nat, b: nat)
    requires
        a <= usize::MAX,
        b <= usize::MAX,
    ensures
        a + b <= usize::MAX ==> sat_add(a, b) == a + b,
        a + b > usize::MAX ==> sat_add(a, b) == usize::MAX,
        a >= b ==> sat_sub(a, b) == a - b,
        a < b ==> sat_sub(a, b) == 0,
        a + b <= usize::MAX ==> sat_sub(sat_add(a, b), b) == a,
{
}

/// A pool that is in order of size is so with one more buffer in it, which is in it once, and
/// none of the others has gone.
pub proof fn law_a_pool_stays_in_order(
    before: Seq<PoolEntry>,
    entry: PoolEntry,
    after: Seq<PoolEntry>,
    i: int,
    j: int,
)
    requires
        forall|a: int, b: int|
            0 <= a <= b < before.len() ==> (#[trigger] before[a]).size <= (
            #[trigger] before[b]).size,
        inserted_by_size(before, entry, after),
        0 <= i <= j < after.len(),
    ensures
        after.len() == before.len() + 1,
        after[i].size <= after[j].size,
        after.contains(entry),
        forall|k: int| 0 <= k < before.len() ==> after.contains(#[trigger] before[k]),
        total(after) == total(before) + entry.size,
{
    let at = choose|at: int|
        0 <= at <= before.len() && after == #[trigger] before.insert(at, entry) && (forall|
            j: int,
        |
            0 <= j < at ==> (#[trigger] before[j]).size <= entry.size) && (forall|j: int|
            at <= j < before.len() ==> (#[trigger] before[j]).size > entry.size);
    assert(after[at] == entry);
    assert forall|k: int| 0 <= k < before.len() implies after.contains(#[trigger] before[k]) by {
        if k < at {
            assert(after[k] == before[k]);
        } else {
            assert(after[k + 1] == before[k]);
        }
    }
    lemma_total_insert(before, at, entry);
    let a = if i < at {
        i
    } else {
        i - 1
    };
    let b = if j < at {
        j
    } else {
        j - 1
    };
    if i != at && j != at {
        assert(before[a].size <= before[b].size);
    }
}

/// A buffer that comes back is in flight no more. It waits in the pool, among the others by its
/// size, while there is room, and is deleted where there is none.
pub proof fn law_a_buffer_that_comes_back<F: Fn(GlCall) -> u32>(buffer: u32, size: usize)
    ensures
        forall|pool: &mut PboPool, gl: &mut Gl<F>|
            #[trigger] call_ensures(PboPool::release::<F>, (pool, gl, buffer, size), ()) ==> {
                let before = (*pool)@;
                let after = (*final(pool))@;
                &&& before.in_flight >= size ==> after.in_flight == before.in_flight - size
                &&& before.free.len() < before.max ==> after.free.len() == before.free.len() + 1
                    && (*final(gl))@.buffers == (*gl)@.buffers
                &&& before.free.len() >= before.max ==> after.free == before.free && !(*final(
                    gl))@.buffers.contains(buffer)
            },
        forall|pool: &mut PboPool, gl: &mut Gl<F>|
            #[trigger] call_ensures(PboPool::clear::<F>, (pool, gl), ()) ==> {
                let after = (*final(pool))@;
                &&& after.free.len() == 0 && after.reserved == 0 && after.in_flight == 0
                &&& after.max == (*pool)@.max && after.supported == (*pool)@.supported
            },
{
}

/// The limits are in force from the start, for images of up to four mebibytes.
pub proof fn law_what_the_limits_start_with(config: PboConfig)
    requires
        call_ensures(PboConfig::default, (), config),
    ensures
        config.enabled,
        config.max_buffer_size == 4194304,
{
}

/// A buffer that is handed out is new, and the pool keeps every buffer that it has; or it is
/// one that waited, holds the whole upload, and is waited for by the GPU no more, and the
/// pool keeps all the others. No buffer is made while one that is large enough lies idle. The
/// bytes of the upload count as in use.
pub proof fn law_which_buffer_is_handed_out<F: Fn(GlCall) -> u32>(
    before: Pool,
    after: Pool,
    run: F,
    size: usize,
    buffer: u32,
    j: int,
)
    requires
        acquired(before, after, run, size, buffer),
        0 <= j < before.free.len(),
    ensures
        before.in_flight + size <= usize::MAX ==> after.in_flight == before.in_flight + size,
        after.free == before.free || exists|i: int|
            0 <= i < before.free.len() && after.free == #[trigger] before.free.remove(i)
                && before.free[i].buffer == buffer && before.free[i].size >= size && (
            before.free[i].fence matches Some(f) ==> passed(run, f)),
        before.free[j].size >= size && before.free[j].fence is None ==> after.free.len()
            == before.free.len() - 1,
        before.free[j].size >= size && before.free[j].fence is None ==> exists|i: int|
            0 <= i <= j && after.free == #[trigger] before.free.remove(i) && before.free[i].buffer
                == buffer && before.free[i].size >= size,
{
    if before.free[j].size >= size && before.free[j].fence is None {
        assert(!unfit(run, before.free[j], size));
        let i = choose|i: int|
            #![trigger before.free.remove(i)]
            {
                let entry = before.free[i];
                &&& 0 <= i < before.free.len()
                &&& entry.buffer == buffer
                &&& entry.size >= size
                &&& entry.fence matches Some(f) ==> passed(run, f)
                &&& none_fit(run, before.free, i, size)
                &&& after.free == before.free.remove(i)
                &&& after.reserved == sat_sub(before.reserved, entry.size as nat)
            };
        assert(0 <= i <= j);
        assert(after.free == before.free.remove(i));
    }
}

} // verus!

//! Images that content loads: what is checked before they become textures, and what the 2D
//! contexts are told when they have.
use vstd::prelude::*;

use crate::egl_device::EglCall;
use crate::egl_setup::EglError;
use crate::gl_device::GlCall;
use crate::gl_device::TextureCopy;
use crate::gl_device::TextureDestination;
use crate::manager::CanvasError;
use crate::manager::CanvasManager;
use crate::manager::Mgr;
use crate::painters::PaintCall;
use crate::painters::StaleState;
use crate::snapshots::CopyError;

verus! {

/// A request to the registry of images. The reply is the image's size, or nothing where the
/// request failed.
#[derive(Clone, Copy, Debug, PartialEq, Eq, Structural)]
pub enum ImageCall {
    /// Make a texture of decoded pixels and record it.
    LoadShared { image_id: u32 },
    /// Make a texture of a hardware buffer and record it.
    LoadHardwareBuffer { image_id: u32 },
    /// Make a texture of compressed levels and record it.
    LoadCompressed { image_id: u32, format: u32 },
    /// Drop an image.
    Destroy { image_id: u32 },
}

/// Why an image could not be loaded or dropped.
#[derive(Clone, Copy, Debug, PartialEq, Eq, Structural)]
pub enum ImageError {
    /// It has more pixels than an image may.
    OutOfMemory,
    /// No context could be made current.
    Canvas(CanvasError),
    /// Its format is not known.
    UnknownFormat,
    /// Its levels do not have the sizes that its format and its own size call for.
    MalformedLevels,
    /// The driver or the registry refused it.
    Refused,
}

/// A compressed image, as far as it is checked.
#[derive(Clone, Copy, Debug, PartialEq, Eq, Structural)]
pub struct CompressedImage {
    pub width: u32,
    pub height: u32,
    /// The format, where it is a known one.
    pub format: Option<u32>,
    /// The device reads the format.
    pub supported: bool,
    /// Every level has the size that the format and the image's size call for.
    pub levels_fit: bool,
}

/// What uploads of decoded pixels and of hardware buffers make stale.
pub open spec fn load_stales() -> StaleState {
    StaleState { render_target: false, texture_binding: true, pixel_store: true }
}

/// How a compressed image becomes a texture: as it is, or as decoded pixels where the device
/// does not read its format.
pub open spec fn compressed_call(image_id: u32, image: CompressedImage) -> ImageCall {
    if image.supported {
        ImageCall::LoadCompressed { image_id, format: image.format->0 }
    } else {
        ImageCall::LoadShared { image_id }
    }
}

/// A compressed image is one that the registry sees. Its levels matter only where they are
/// read.
pub open spec fn compressed_reaches(image: CompressedImage, max_pixels: u64) -> bool {
    &&& image.width as nat * image.height as nat <= max_pixels
    &&& image.format is Some
    &&& image.supported ==> image.levels_fit
}

/// A compressed image met its checks with a context current: they are made in order, and the
/// registry sees it only where all hold.
pub open spec fn compressed_checked<D: FnOnce(ImageCall) -> Option<(u32, u32)>>(
    image_id: u32,
    image: CompressedImage,
    images: D,
    result: Result<(u32, u32), ImageError>,
) -> bool {
    if image.format is None {
        result == Err::<(u32, u32), ImageError>(ImageError::UnknownFormat)
    } else if image.supported && !image.levels_fit {
        result == Err::<(u32, u32), ImageError>(ImageError::MalformedLevels)
    } else {
        match result {
            Ok(size) => size == (image.width, image.height) && exists|reply: (u32, u32)| #[trigger]
                call_ensures(images, (compressed_call(image_id, image),), Some(reply)),
            Err(e) => e == ImageError::Refused && call_ensures(
                images,
                (compressed_call(image_id, image),),
                None,
            ),
        }
    }
}

/// A compressed image was to be loaded. One that is too large is refused before anything is
/// touched. Where it was loaded as decoded pixels, the 2D contexts are told.
pub open spec fn compressed_outcome<D: FnOnce(ImageCall) -> Option<(u32, u32)>>(
    before: Mgr,
    after: Mgr,
    image_id: u32,
    image: CompressedImage,
    max_pixels: u64,
    images: D,
    result: Result<(u32, u32), ImageError>,
) -> bool {
    if image.width as nat * image.height as nat > max_pixels {
        result == Err::<(u32, u32), ImageError>(ImageError::OutOfMemory) && after == before
    } else {
        match result {
            Err(ImageError::Canvas(e)) => crate::binding::any_current(
                before,
                after,
                Err::<u32, CanvasError>(e),
            ),
            _ => {
                &&& exists|bound: Mgr, id: u32|
                    {
                        &&& #[trigger] crate::binding::any_current(
                            before,
                            bound,
                            Ok::<u32, CanvasError>(id),
                        )
                        &&& after == (if result is Ok && !image.supported {
                            loads_told(bound)
                        } else {
                            bound
                        })
                    }
                &&& compressed_checked(image_id, image, images, result)
            },
        }
    }
}

/// The session once the 2D contexts were told of an upload.
pub open spec fn loads_told(m: Mgr) -> Mgr {
    Mgr {
        paint: crate::painters::PaintModel {
            stale: m.paint.stale.push(load_stales()),
            ..m.paint
        },
        ..m
    }
}

/// An image was to be loaded by the registry. A success is told to the 2D contexts.
pub open spec fn load_outcome<D: FnOnce(ImageCall) -> Option<(u32, u32)>>(
    before: Mgr,
    after: Mgr,
    call: ImageCall,
    images: D,
    result: Result<(u32, u32), ImageError>,
) -> bool {
    match result {
        Err(ImageError::Canvas(e)) => crate::binding::any_current(
            before,
            after,
            Err::<u32, CanvasError>(e),
        ),
        Err(e) => {
            &&& e == ImageError::Refused
            &&& call_ensures(images, (call,), None)
            &&& exists|id: u32| #[trigger]
                crate::binding::any_current(before, after, Ok::<u32, CanvasError>(id))
        },
        Ok(size) => {
            &&& call_ensures(images, (call,), Some(size))
            &&& exists|bound: Mgr, id: u32|
                {
                    &&& #[trigger] crate::binding::any_current(
                        before,
                        bound,
                        Ok::<u32, CanvasError>(id),
                    )
                    &&& after == loads_told(bound)
                }
        },
    }
}

/// An image was to be dropped.
pub open spec fn drop_outcome<D: FnOnce(ImageCall) -> Option<(u32, u32)>>(
    before: Mgr,
    after: Mgr,
    image_id: u32,
    images: D,
    result: Result<(), ImageError>,
) -> bool {
    match result {
        Err(ImageError::Canvas(e)) => crate::binding::any_current(
            before,
            after,
            Err::<u32, CanvasError>(e),
        ),
        Err(e) => {
            &&& e == ImageError::Refused
            &&& call_ensures(images, (ImageCall::Destroy { image_id },), None)
            &&& exists|id: u32| #[trigger]
                crate::binding::any_current(before, after, Ok::<u32, CanvasError>(id))
        },
        Ok(_) => {
            &&& exists|reply: (u32, u32)| #[trigger]
                call_ensures(images, (ImageCall::Destroy { image_id },), Some(reply))
            &&& exists|id: u32| #[trigger]
                crate::binding::any_current(before, after, Ok::<u32, CanvasError>(id))
        },
    }
}

/// A recorded image: its texture, and where it stands in it if it shares one.
#[derive(Clone, Copy, Debug, PartialEq, Eq)]
pub struct StoredTexture {
    pub texture: u32,
    pub atlas_origin: Option<(u16, u16)>,
}

/// The copy of an image out of its texture.
pub open spec fn stored_copy(
    stored: StoredTexture,
    width: i32,
    height: i32,
    destination: TextureDestination,
) -> TextureCopy {
    TextureCopy {
        framebuffer: 0,
        source: stored.texture,
        source_x: match stored.atlas_origin {
            Some(at) => at.0 as i32,
            None => 0,
        },
        source_y: match stored.atlas_origin {
            Some(at) => at.1 as i32,
            None => 0,
        },
        width,
        height,
        destination,
    }
}

/// An image was to be copied to a canvas. One that is not recorded, or has no texture, is
/// passed over once the canvas is current.
pub open spec fn shared_copy_outcome(
    before: Mgr,
    after: Mgr,
    canvas_id: u32,
    stored: Option<StoredTexture>,
    width: i32,
    height: i32,
    destination: TextureDestination,
    result: Result<bool, CopyError>,
) -> bool {
    match result {
        Err(CopyError::MakeCurrent(e)) => crate::binding::made_current(
            before,
            after,
            canvas_id,
            Err(e),
        ),
        Err(CopyError::CreateFramebuffer) => {
            &&& exists|bound: Mgr| #[trigger]
                crate::binding::made_current(before, bound, canvas_id, Ok(()))
                    && crate::captures::no_framebuffer(bound, after)
            &&& stored matches Some(s) && s.texture != 0
            &&& !after.copy_fbos.dom().contains(canvas_id)
        },
        Ok(false) => {
            &&& crate::binding::made_current(before, after, canvas_id, Ok(()))
            &&& stored matches Some(s) ==> s.texture == 0
        },
        Ok(true) => {
            &&& stored matches Some(s) && s.texture != 0
            &&& exists|bound: Mgr| #[trigger]
                crate::binding::made_current(before, bound, canvas_id, Ok(()))
                    && crate::captures::copied_to(
                    bound,
                    after,
                    canvas_id,
                    TextureCopy {
                        framebuffer: after.copy_fbos[canvas_id],
                        ..stored_copy(stored->0, width, height, destination)
                    },
                )
        },
    }
}

impl<
    F: Fn(GlCall) -> u32,
    H: Fn(EglCall) -> Result<usize, EglError>,
    P: Fn(PaintCall) -> u64,
> CanvasManager<F, H, P> {
    /// Make a texture of a compressed image: straight from its levels where the device reads
    /// its format, and otherwise the way that decoded pixels take. The answer is its size.
    ///
    /// The registry is asked once at most, and only where the image passed its checks.
    pub fn load_compressed_image<D: FnOnce(ImageCall) -> Option<(u32, u32)>>(
        &mut self,
        image_id: u32,
        image: &CompressedImage,
        max_pixels: u64,
        images: D,
    ) -> (result: Result<(u32, u32), ImageError>)
        requires
            old(self).wf(),
            compressed_reaches(*image, max_pixels) ==> call_requires(
                images,
                (compressed_call(image_id, *image),),
            ),
        ensures
            final(self).wf(),
            compressed_outcome(
                old(self)@,
                final(self)@,
                image_id,
                *image,
                max_pixels,
                images,
                result,
            ),
    {
        assert(image.width * image.height <= 0xFFFF_FFFF * 0xFFFF_FFFF) by (nonlinear_arith)
            requires
                image.width <= 0xFFFF_FFFF,
                image.height <= 0xFFFF_FFFF,
        ;
        assert(image.width as nat * image.height as nat == image.width * image.height)
            by (nonlinear_arith);
        let pixels: u64 = image.width as u64 * image.height as u64;
        if pixels > max_pixels {
            return Err(ImageError::OutOfMemory);
        }
        let ghost before = self@;
        match self.ensure_any_canvas_current() {
            Err(e) => {
                return Err(ImageError::Canvas(e));
            },
            Ok(id) => {
                assert(crate::binding::any_current(before, self@, Ok::<u32, CanvasError>(id)));
            },
        }
        let format: u32 = match image.format {
            None => {
                return Err(ImageError::UnknownFormat);
            },
            Some(format) => format,
        };
        if image.supported && !image.levels_fit {
            return Err(ImageError::MalformedLevels);
        }
        let call = if image.supported {
            ImageCall::LoadCompressed { image_id, format }
        } else {
            ImageCall::LoadShared { image_id }
        };
        let ghost bound = self@;
        match images(call) {
            None => Err(ImageError::Refused),
            Some(reply) => {
                assert(call_ensures(images, (call,), Some(reply)));
                if !image.supported {
                    self.mark_all_2d_contexts_stale_bits(
                        StaleState {
                            render_target: false,
                            texture_binding: true,
                            pixel_store: true,
                        },
                    );
                    assert(self@ == loads_told(bound));
                }
                Ok((image.width, image.height))
            },
        }
    }

    /// Have the registry load an image, with a context current, and tell the 2D contexts.
    fn load_by_registry<D: FnOnce(ImageCall) -> Option<(u32, u32)>>(
        &mut self,
        call: ImageCall,
        images: D,
    ) -> (result: Result<(u32, u32), ImageError>)
        requires
            old(self).wf(),
            call_requires(images, (call,)),
        ensures
            final(self).wf(),
            load_outcome(old(self)@, final(self)@, call, images, result),
    {
        let ghost before = self@;
        match self.ensure_any_canvas_current() {
            Err(e) => {
                return Err(ImageError::Canvas(e));
            },
            Ok(id) => {
                assert(crate::binding::any_current(before, self@, Ok::<u32, CanvasError>(id)));
            },
        }
        match images(call) {
            None => Err(ImageError::Refused),
            Some(size) => {
                self.mark_all_2d_contexts_stale_bits(
                    StaleState { render_target: false, texture_binding: true, pixel_store: true },
                );
                Ok(size)
            },
        }
    }

    /// Make a texture of decoded pixels. The answer is its size.
    pub fn load_shared_image<D: FnOnce(ImageCall) -> Option<(u32, u32)>>(
        &mut self,
        image_id: u32,
        images: D,
    ) -> (result: Result<(u32, u32), ImageError>)
        requires
            old(self).wf(),
            call_requires(images, (ImageCall::LoadShared { image_id },)),
        ensures
            final(self).wf(),
            load_outcome(
                old(self)@,
                final(self)@,
                ImageCall::LoadShared { image_id },
                images,
                result,
            ),
    {
        self.load_by_registry(ImageCall::LoadShared { image_id }, images)
    }

    /// Make a texture of a hardware buffer. The answer is its size.
    pub fn load_ahb_image<D: FnOnce(ImageCall) -> Option<(u32, u32)>>(
        &mut self,
        image_id: u32,
        images: D,
    ) -> (result: Result<(u32, u32), ImageError>)
        requires
            old(self).wf(),
            call_requires(images, (ImageCall::LoadHardwareBuffer { image_id },)),
        ensures
            final(self).wf(),
            load_outcome(
                old(self)@,
                final(self)@,
                ImageCall::LoadHardwareBuffer { image_id },
                images,
                result,
            ),
    {
        self.load_by_registry(ImageCall::LoadHardwareBuffer { image_id }, images)
    }

    /// Drop an image.
    pub fn destroy_shared_image<D: FnOnce(ImageCall) -> Option<(u32, u32)>>(
        &mut self,
        image_id: u32,
        images: D,
    ) -> (result: Result<(), ImageError>)
        requires
            old(self).wf(),
            call_requires(images, (ImageCall::Destroy { image_id },)),
        ensures
            final(self).wf(),
            drop_outcome(old(self)@, final(self)@, image_id, images, result),
            crate::binding::only_binding_moved(old(self)@, final(self)@),
    {
        let ghost before = self@;
        match self.ensure_any_canvas_current() {
            Err(e) => {
                return Err(ImageError::Canvas(e));
            },
            Ok(id) => {
                assert(crate::binding::any_current(before, self@, Ok::<u32, CanvasError>(id)));
            },
        }
        match images(ImageCall::Destroy { image_id }) {
            None => Err(ImageError::Refused),
            Some(reply) => {
                assert(call_ensures(images, (ImageCall::Destroy { image_id },), Some(reply)));
                Ok(())
            },
        }
    }

    /// Copy a recorded image into the texture that is bound on a canvas. The answer is
    /// whether there was one to copy.
    pub fn tex_image_2d_from_shared(
        &mut self,
        canvas_id: u32,
        stored: Option<StoredTexture>,
        width: i32,
        height: i32,
        destination: TextureDestination,
    ) -> (result: Result<bool, CopyError>)
        requires
            old(self).wf(),
        ensures
            final(self).wf(),
            shared_copy_outcome(
                old(self)@,
                final(self)@,
                canvas_id,
                stored,
                width,
                height,
                destination,
                result,
            ),
    {
        match self.make_current_needed(canvas_id) {
            Err(e) => {
                return Err(CopyError::MakeCurrent(e));
            },
            Ok(unit) => {
                assert(unit == ());
            },
        }
        let ghost bound = self@;
        assert(crate::binding::made_current(old(self)@, bound, canvas_id, Ok(())));
        let image = match stored {
            None => {
                return Ok(false);
            },
            Some(image) => image,
        };
        if image.texture == 0 {
            return Ok(false);
        }
        let (source_x, source_y): (i32, i32) = match image.atlas_origin {
            Some(at) => (at.0 as i32, at.1 as i32),
            None => (0, 0),
        };
        let from = TextureCopy {
            framebuffer: 0,
            source: image.texture,
            source_x,
            source_y,
            width,
            height,
            destination,
        };
        assert(from == stored_copy(image, width, height, destination));
        if self.copy_to_current(canvas_id, from) {
            Ok(true)
        } else {
            Err(CopyError::CreateFramebuffer)
        }
    }
}

/// An image that is too large, of no known format, or of one that the device reads with
/// levels of the wrong sizes never reaches the registry: it is an error whatever the registry
/// would have said.
pub proof fn law_bad_compressed_images_are_refused<D: FnOnce(ImageCall) -> Option<(u32, u32)>>(
    before: Mgr,
    after: Mgr,
    image_id: u32,
    image: CompressedImage,
    max_pixels: u64,
    images: D,
    result: Result<(u32, u32), ImageError>,
)
    requires
        compressed_outcome(before, after, image_id, image, max_pixels, images, result),
        image.width as nat * image.height as nat > max_pixels || image.format is None
            || image.supported && !image.levels_fit,
    ensures
        result is Err,
        result != Err::<(u32, u32), ImageError>(ImageError::Refused),
{
}

/// A device that does not read a format is no reason to refuse an image of it: it is loaded
/// as decoded pixels, wherever those can be, and whatever its levels are.
pub proof fn law_unread_formats_fall_back<D: FnOnce(ImageCall) -> Option<(u32, u32)>>(
    before: Mgr,
    after: Mgr,
    image_id: u32,
    image: CompressedImage,
    max_pixels: u64,
    images: D,
    result: Result<(u32, u32), ImageError>,
)
    requires
        compressed_outcome(before, after, image_id, image, max_pixels, images, result),
        image.width as nat * image.height as nat <= max_pixels,
        image.format is Some,
        !image.supported,
        !call_ensures(images, (ImageCall::LoadShared { image_id },), None),
    ensures
        result matches Err(e) ==> e is Canvas,
        result matches Ok(size) ==> size == (image.width, image.height),
{
}

/// A recorded image is copied from where it stands: from its place in an atlas where it has
/// one, and otherwise from the first row and column; at the size and to the place asked for.
pub proof fn law_a_recorded_image_is_copied_from_its_place(
    before: Mgr,
    after: Mgr,
    canvas_id: u32,
    stored: StoredTexture,
    width: i32,
    height: i32,
    destination: TextureDestination,
    found: bool,
)
    requires
        shared_copy_outcome(
            before,
            after,
            canvas_id,
            Some(stored),
            width,
            height,
            destination,
            Ok(found),
        ),
    ensures
        found == (stored.texture != 0),
        found ==> {
            let copy = after.gl.copies.last();
            &&& after.gl.copies.len() == before.gl.copies.len() + 1
            &&& copy.source == stored.texture
            &&& copy.width == width && copy.height == height
            &&& copy.destination == destination
            &&& stored.atlas_origin is None ==> copy.source_x == 0 && copy.source_y == 0
            &&& stored.atlas_origin matches Some(at) ==> copy.source_x == at.0 as i32
                && copy.source_y == at.1 as i32
        },
        crate::binding::serving(after.bound) == Some(canvas_id),
{
    reveal(crate::binding::made_current);
}

/// After an image was loaded every 2D context sets its texture and its pixel store anew, and
/// keeps its render target.
pub proof fn law_what_a_load_unsettles<D: FnOnce(ImageCall) -> Option<(u32, u32)>>(
    before: Mgr,
    after: Mgr,
    call: ImageCall,
    images: D,
    size: (u32, u32),
)
    requires
        load_outcome(before, after, call, images, Ok(size)),
    ensures
        after.paint.stale.last().texture_binding,
        after.paint.stale.last().pixel_store,
        !after.paint.stale.last().render_target,
        call_ensures(images, (call,), Some(size)),
{
}

/// A compressed image is too large exactly if it has more pixels than an image may; one that
/// is not, and is of a known format that the device reads, goes to the registry as it is.
pub proof fn law_what_becomes_of_a_compressed_image<D: FnOnce(ImageCall) -> Option<(u32, u32)>>(
    before: Mgr,
    after: Mgr,
    image_id: u32,
    image: CompressedImage,
    max_pixels: u64,
    images: D,
    result: Result<(u32, u32), ImageError>,
)
    requires
        compressed_outcome(before, after, image_id, image, max_pixels, images, result),
    ensures
        (result == Err::<(u32, u32), ImageError>(ImageError::OutOfMemory)) == (image.width as nat
            * image.height as nat > max_pixels),
        result is Ok ==> result->Ok_0.0 == image.width && result->Ok_0.1 == image.height,
        result is Ok && image.supported ==> image.levels_fit && image.format is Some && exists|
            reply: (u32, u32),
        | #[trigger]
            call_ensures(
                images,
                (ImageCall::LoadCompressed { image_id, format: image.format->0 },),
                Some(reply),
            ),
        result is Ok && !image.supported ==> exists|reply: (u32, u32)| #[trigger]
            call_ensures(images, (ImageCall::LoadShared { image_id },), Some(reply)),
        image.format is None && result is Err ==> !(result->Err_0 is MalformedLevels) && !(
        result->Err_0 is Refused),
{
}

/// An image that is dropped is dropped under its own name.
pub proof fn law_an_image_is_dropped_by_its_name<D: FnOnce(ImageCall) -> Option<(u32, u32)>>(
    before: Mgr,
    after: Mgr,
    image_id: u32,
    images: D,
)
    requires
        drop_outcome(before, after, image_id, images, Ok(())),
    ensures
        exists|reply: (u32, u32)| #[trigger]
            call_ensures(images, (ImageCall::Destroy { image_id },), Some(reply)),
        after.snapshots == before.snapshots,
        after.paint == before.paint,
{
    reveal(crate::binding::made_current);
}

} // verus!

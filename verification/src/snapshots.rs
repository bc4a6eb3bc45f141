//! The pool of canvas snapshots: textures that hold a region of a 2D canvas until the
//! frame in which they were captured ends.
use std::collections::HashMap;
use vstd::prelude::*;

use crate::fences::classify_snapshot_fence;
use crate::fences::SnapshotFenceStatus;
use crate::gl::{
    ACTIVE_TEXTURE, CLAMP_TO_EDGE, COLOR_ATTACHMENT0, COLOR_BUFFER_BIT, DRAW_FRAMEBUFFER,
    DRAW_FRAMEBUFFER_BINDING, FRAMEBUFFER_COMPLETE, LINEAR, NEAREST, READ_FRAMEBUFFER,
    READ_FRAMEBUFFER_BINDING, RGBA8, SCISSOR_TEST, TEXTURE0, TEXTURE_2D, TEXTURE_BINDING_2D,
    TEXTURE_MAG_FILTER, TEXTURE_MIN_FILTER, TEXTURE_WRAP_S, TEXTURE_WRAP_T,
};
use crate::gl_device::Corners;
use crate::gl_device::Gl;
use crate::gl_device::GlCall;
use crate::manager::CanvasError;

verus! {

/// The most snapshots that are alive at once.
pub const MAX_LIVE_CANVAS2D_SNAPSHOTS: usize = 1024;

/// The most bytes that they hold together: as much as one synchronous readback may.
pub const MAX_LIVE_CANVAS2D_SNAPSHOT_BYTES: usize = 67108864;

/// The identifier under which a capture is made and used up within one call.
pub const DIRECT_CANVAS2D_RESERVED_ID: u32 = 0xFFFF_FFFF;

/// The bytes of an image, four per pixel.
pub open spec fn rgba_bytes(width: nat, height: nat) -> nat {
    width * height * 4
}

/// The bytes of an image, or nothing where a synchronous readback could not hold it.
pub fn checked_canvas_rgba_byte_len(width: u32, height: u32) -> (bytes: Option<usize>)
    ensures
        match bytes {
            Some(n) => n == rgba_bytes(width as nat, height as nat) && n
                <= MAX_LIVE_CANVAS2D_SNAPSHOT_BYTES,
            None => rgba_bytes(width as nat, height as nat) > MAX_LIVE_CANVAS2D_SNAPSHOT_BYTES,
        },
{
    assert(width * height <= 0xFFFF_FFFF * 0xFFFF_FFFF) by (nonlinear_arith)
        requires
            width <= 0xFFFF_FFFF,
            height <= 0xFFFF_FFFF,
    ;
    let pixels: u64 = width as u64 * height as u64;
    if pixels > 16777216 {
        None
    } else {
        Some(pixels as usize * 4)
    }
}

/// A snapshot in the pool. A cache key marks one that the text cache takes over.
#[derive(Clone, Copy, Debug, PartialEq, Eq, Structural)]
pub struct SnapshotEntry {
    pub tex: u32,
    pub width: u32,
    pub height: u32,
    pub bytes: usize,
    pub cache_key: Option<u64>,
}

/// The pool: its snapshots, and the order in which they were captured.
#[verifier::ext_equal]
pub struct Pool {
    pub entries: Map<u32, SnapshotEntry>,
    pub order: Seq<u32>,
    /// How often a capture has waited for a fence since that was last asked.
    pub waits: u32,
}

/// The bytes of the snapshots that `order` names.
pub open spec fn live_bytes(entries: Map<u32, SnapshotEntry>, order: Seq<u32>) -> nat
    decreases order.len(),
{
    if order.len() == 0 {
        0
    } else {
        live_bytes(entries, order.drop_last()) + entries[order.last()].bytes as nat
    }
}

/// Every snapshot stands in the order once, and both limits hold.
pub open spec fn pool_wf(p: Pool) -> bool {
    &&& p.order.no_duplicates()
    &&& forall|id: u32| #[trigger] p.entries.dom().contains(id) <==> p.order.contains(id)
    &&& p.order.len() <= MAX_LIVE_CANVAS2D_SNAPSHOTS
    &&& live_bytes(p.entries, p.order) <= MAX_LIVE_CANVAS2D_SNAPSHOT_BYTES
}

/// The pool with one more snapshot.
pub open spec fn with_snapshot(p: Pool, id: u32, entry: SnapshotEntry) -> Pool {
    Pool { entries: p.entries.insert(id, entry), order: p.order.push(id), ..p }
}

/// A region to capture, and the name of the capture.
#[derive(Clone, Copy, Debug, PartialEq, Eq, Structural)]
pub struct SnapshotRequest {
    pub x: i32,
    pub y: i32,
    pub width: u32,
    pub height: u32,
    pub snapshot_id: u32,
}

/// The canvas that is captured: its size and its framebuffer.
#[derive(Clone, Copy, Debug, PartialEq, Eq, Structural)]
pub struct Source2d {
    pub width: u32,
    pub height: u32,
    pub fbo: u32,
}

/// What becomes of a request before anything is captured.
#[derive(Clone, Copy, Debug, PartialEq, Eq, Structural)]
pub enum Admission {
    /// Nothing is captured.
    Refused,
    /// The region is larger than any capture may be.
    TooLarge,
    /// The capture can be made.
    Admitted { bytes: usize },
}

/// The region lies in the canvas.
pub open spec fn region_fits(r: SnapshotRequest, source: Source2d) -> bool {
    &&& r.x >= 0 && r.y >= 0
    &&& r.x + r.width <= i32::MAX && r.y + r.height <= i32::MAX
    &&& r.x + r.width <= source.width as i32
    &&& r.y + r.height <= source.height as i32
}

/// What becomes of a request. A pool that is full refuses: no snapshot is traded for
/// another, because each one is waiting to be used.
pub open spec fn admission(
    p: Pool,
    r: SnapshotRequest,
    source: Option<Source2d>,
    gles_major: u32,
) -> Admission {
    let bytes = rgba_bytes(r.width as nat, r.height as nat);
    if r.width == 0 || r.height == 0 || r.snapshot_id == 0 {
        Admission::Refused
    } else if bytes > MAX_LIVE_CANVAS2D_SNAPSHOT_BYTES {
        Admission::TooLarge
    } else if p.entries.dom().contains(r.snapshot_id) || live_bytes(p.entries, p.order) + bytes
        > MAX_LIVE_CANVAS2D_SNAPSHOT_BYTES || p.order.len() >= MAX_LIVE_CANVAS2D_SNAPSHOTS
        || gles_major < 3 || !(source matches Some(s) && region_fits(r, s)) {
        Admission::Refused
    } else {
        Admission::Admitted { bytes: bytes as usize }
    }
}

proof fn lemma_live_bytes_push(p: Pool, id: u32, entry: SnapshotEntry)
    requires
        !p.order.contains(id),
    ensures
        live_bytes(p.entries.insert(id, entry), p.order.push(id)) == live_bytes(
            p.entries,
            p.order,
        ) + entry.bytes,
{
    assert(p.order.push(id).drop_last() =~= p.order);
    lemma_live_bytes_frame(p.entries, p.entries.insert(id, entry), p.order);
}

proof fn lemma_live_bytes_frame(
    a: Map<u32, SnapshotEntry>,
    b: Map<u32, SnapshotEntry>,
    order: Seq<u32>,
)
    requires
        forall|id: u32| order.contains(id) ==> (#[trigger] a[id]).bytes == b[id].bytes,
    ensures
        live_bytes(a, order) == live_bytes(b, order),
    decreases order.len(),
{
    if order.len() > 0 {
        assert forall|id: u32| order.drop_last().contains(id) implies (#[trigger] a[id]).bytes
            == b[id].bytes by {
            let i = choose|i: int| 0 <= i < order.drop_last().len() && order.drop_last()[i] == id;
            assert(order[i] == id);
        }
        assert(order.contains(order.last())) by {
            assert(order[order.len() - 1] == order.last());
        }
        lemma_live_bytes_frame(a, b, order.drop_last());
    }
}

proof fn lemma_live_bytes_remove(entries: Map<u32, SnapshotEntry>, order: Seq<u32>, at: int)
    requires
        order.no_duplicates(),
        0 <= at < order.len(),
    ensures
        live_bytes(entries, order) == live_bytes(entries.remove(order[at]), order.remove(at))
            + entries[order[at]].bytes,
        live_bytes(entries.remove(order[at]), order.remove(at)) == live_bytes(
            entries,
            order.remove(at),
        ),
    decreases order.len(),
{
    let id = order[at];
    assert forall|k: u32| order.remove(at).contains(k) implies (#[trigger] entries[k]).bytes
        == entries.remove(id)[k].bytes by {
        let i = choose|i: int| 0 <= i < order.remove(at).len() && order.remove(at)[i] == k;
        assert(k != id);
    }
    lemma_live_bytes_frame(entries, entries.remove(id), order.remove(at));
    if at == order.len() - 1 {
        assert(order.remove(at) =~= order.drop_last());
    } else {
        let shorter = order.drop_last();
        lemma_live_bytes_remove(entries, shorter, at);
        assert(order.remove(at).drop_last() =~= shorter.remove(at));
        assert(order.remove(at).last() == order.last());
        assert forall|k: u32| shorter.remove(at).contains(k) implies (#[trigger] entries[k]).bytes
            == entries.remove(id)[k].bytes by {
            let i = choose|i: int| 0 <= i < shorter.remove(at).len() && shorter.remove(at)[i] == k;
            assert(k != id);
        }
        lemma_live_bytes_frame(entries, entries.remove(id), shorter.remove(at));
    }
}

/// Why a capture failed.
#[derive(Clone, Copy, Debug, PartialEq, Eq, Structural)]
pub enum SnapshotError {
    /// The region exceeds the limit on synchronous pixels.
    TooLarge,
    /// The canvas's context could not be made current.
    MakeCurrent(CanvasError),
    /// The canvas's drawing did not finish in time; what would have been captured is stale.
    FenceTimeout,
    /// The driver refused to wait for the canvas's drawing.
    FenceFailed,
    CreateTexture,
    CreateFramebuffer,
}

/// The snapshot pool, with the framebuffers it works through.
pub struct SnapshotPool {
    entries: HashMap<u32, SnapshotEntry>,
    order: Vec<u32>,
    bytes: usize,
    fence_waits: u32,
    blit_fbo: u32,
    read_fbo: u32,
}

impl View for SnapshotPool {
    type V = Pool;

    closed spec fn view(&self) -> Pool {
        Pool { entries: self.entries@, order: self.order@, waits: self.fence_waits }
    }
}

/// The bindings that a capture moves, as the driver reported them.
#[derive(Clone, Copy, Debug, PartialEq, Eq, Structural)]
struct SavedBindings {
    active_texture: u32,
    texture: u32,
    read: u32,
    draw: u32,
    scissor: bool,
}

/// The blit that captures a region: upside down, so that the texture's first row is the
/// region's top row.
pub open spec fn capture_blit(
    r: SnapshotRequest,
    source: Source2d,
    blit_fbo: u32,
) -> crate::gl_device::BlitRecord {
    let top = source.height as i32 - r.y;
    crate::gl_device::BlitRecord {
        read_framebuffer: source.fbo,
        draw_framebuffer: blit_fbo,
        source: Corners {
            x0: r.x,
            y0: top as i32,
            x1: (r.x + r.width) as i32,
            y1: (top - r.height) as i32,
        },
        target: Corners { x0: 0, y0: 0, x1: r.width as i32, y1: r.height as i32 },
        mask: COLOR_BUFFER_BIT,
        filter: NEAREST,
        clipped: false,
    }
}

/// No object is left that was not there, but for a framebuffer that the pool keeps.
pub open spec fn only_framebuffer_added(
    before: crate::gl_device::GlModel,
    after: crate::gl_device::GlModel,
    kept: u32,
) -> bool {
    &&& after.textures.subset_of(before.textures)
    &&& after.framebuffers.subset_of(before.framebuffers.insert(kept))
    &&& after.renderbuffers == before.renderbuffers
    &&& after.fences.subset_of(before.fences)
}

impl SnapshotPool {
    /// The pool keeps its books.
    pub closed spec fn wf(&self) -> bool {
        pool_wf(self@) && self.bytes == live_bytes(self.entries@, self.order@)
    }

    /// The framebuffer that captures are made through, or zero.
    pub closed spec fn blit_framebuffer(&self) -> u32 {
        self.blit_fbo
    }

    /// The framebuffer that snapshots are read back through, or zero.
    pub closed spec fn read_framebuffer(&self) -> u32 {
        self.read_fbo
    }

    /// An empty pool.
    pub fn new() -> (p: Self)
        ensures
            p.wf(),
            p@ == (Pool { entries: Map::empty(), order: Seq::empty(), waits: 0 }),
            p.blit_framebuffer() == 0,
    {
        let p = SnapshotPool {
            entries: HashMap::new(),
            order: Vec::new(),
            bytes: 0,
            fence_waits: 0,
            blit_fbo: 0,
            read_fbo: 0,
        };
        assert(p@.entries =~= Map::empty());
        assert(p@.order =~= Seq::empty());
        p
    }

    /// How many snapshots are alive.
    pub fn len(&self) -> (n: usize)
        ensures
            n == self@.order.len(),
    {
        self.order.len()
    }

    /// The bytes that the snapshots hold.
    pub fn live_bytes(&self) -> (n: usize)
        requires
            self.wf(),
        ensures
            n == live_bytes(self@.entries, self@.order),
            n <= MAX_LIVE_CANVAS2D_SNAPSHOT_BYTES,
    {
        self.bytes
    }

    /// The snapshot with that identifier.
    pub fn get(&self, snapshot_id: u32) -> (entry: Option<SnapshotEntry>)
        ensures
            entry == (if self@.entries.dom().contains(snapshot_id) {
                Some(self@.entries[snapshot_id])
            } else {
                None
            }),
    {
        match self.entries.get(&snapshot_id) {
            Some(entry) => Some(*entry),
            None => None,
        }
    }

    /// Give up the framebuffers that captures and readbacks go through, and hand back their
    /// names, each zero where there is none.
    pub fn take_framebuffers(&mut self) -> (names: (u32, u32))
        requires
            old(self).wf(),
        ensures
            final(self).wf(),
            names == (old(self).blit_framebuffer(), old(self).read_framebuffer()),
            final(self).blit_framebuffer() == 0,
            final(self).read_framebuffer() == 0,
            final(self)@ == old(self)@,
    {
        let names: (u32, u32) = (self.blit_fbo, self.read_fbo);
        self.blit_fbo = 0;
        self.read_fbo = 0;
        names
    }

    /// Read and reset the number of fence waits.
    pub fn take_snapshot_fence_waits(&mut self) -> (n: u32)
        requires
            old(self).wf(),
        ensures
            final(self).wf(),
            n == old(self)@.waits,
            final(self)@ == (Pool { waits: 0, ..old(self)@ }),
            final(self).blit_framebuffer() == old(self).blit_framebuffer(),
    {
        let n: u32 = self.fence_waits;
        self.fence_waits = 0;
        n
    }

    /// Decide about a request.
    pub fn decide(&self, r: SnapshotRequest, source: Option<Source2d>, gles_major: u32) -> (a:
        Admission)
        requires
            self.wf(),
        ensures
            a == admission(self@, r, source, gles_major),
    {
        if r.width == 0 || r.height == 0 || r.snapshot_id == 0 {
            return Admission::Refused;
        }
        let bytes: usize = match checked_canvas_rgba_byte_len(r.width, r.height) {
            Some(bytes) => bytes,
            None => {
                return Admission::TooLarge;
            },
        };
        if self.entries.contains_key(&r.snapshot_id) {
            return Admission::Refused;
        }
        match self.bytes.checked_add(bytes) {
            None => {
                return Admission::Refused;
            },
            Some(next) => {
                if next > MAX_LIVE_CANVAS2D_SNAPSHOT_BYTES {
                    return Admission::Refused;
                }
            },
        }
        proof {
            lemma_sides_are_small(r.width as nat, r.height as nat);
        }
        let w: i32 = r.width as i32;
        let h: i32 = r.height as i32;
        match source {
            None => {
                return Admission::Refused;
            },
            Some(s) => {
                let surface_width: i32 = s.width as i32;
                let surface_height: i32 = s.height as i32;
                match (r.x.checked_add(w), r.y.checked_add(h)) {
                    (Some(right), Some(bottom)) => {
                        if r.x < 0 || r.y < 0 || right > surface_width || bottom > surface_height {
                            return Admission::Refused;
                        }
                    },
                    _ => {
                        return Admission::Refused;
                    },
                }
            },
        }
        if gles_major < 3 {
            return Admission::Refused;
        }
        if self.order.len() >= MAX_LIVE_CANVAS2D_SNAPSHOTS {
            return Admission::Refused;
        }
        Admission::Admitted { bytes }
    }

    /// Put a snapshot into the pool.
    fn insert(&mut self, snapshot_id: u32, entry: SnapshotEntry)
        requires
            old(self).wf(),
            !old(self)@.entries.dom().contains(snapshot_id),
            old(self)@.order.len() < MAX_LIVE_CANVAS2D_SNAPSHOTS,
            live_bytes(old(self)@.entries, old(self)@.order) + entry.bytes
                <= MAX_LIVE_CANVAS2D_SNAPSHOT_BYTES,
        ensures
            final(self).wf(),
            final(self)@ == with_snapshot(old(self)@, snapshot_id, entry),
            final(self).blit_framebuffer() == old(self).blit_framebuffer(),
    {
        proof {
            lemma_live_bytes_push(self@, snapshot_id, entry);
        }
        let ghost before = self@;
        self.bytes = self.bytes + entry.bytes;
        self.order.push(snapshot_id);
        let _ = self.entries.insert(snapshot_id, entry);
        proof {
            assert(self@.entries =~= before.entries.insert(snapshot_id, entry));
            assert(self@.order =~= before.order.push(snapshot_id));
            assert forall|id: u32| #[trigger] self@.entries.dom().contains(id)
                <==> self@.order.contains(id) by {
                if before.order.contains(id) {
                    let i = choose|i: int| 0 <= i < before.order.len() && before.order[i] == id;
                    assert(self@.order[i] == id);
                }
                if self@.order.contains(id) && id != snapshot_id {
                    let i = choose|i: int| 0 <= i < self@.order.len() && self@.order[i] == id;
                    assert(before.order[i] == id);
                }
                assert(self@.order[before.order.len() as int] == snapshot_id);
            }
        }
    }

    /// Take a snapshot out of the pool. Its bytes are free again.
    pub fn remove_canvas2d_snapshot(&mut self, snapshot_id: u32) -> (entry: Option<SnapshotEntry>)
        requires
            old(self).wf(),
        ensures
            final(self).wf(),
            final(self).blit_framebuffer() == old(self).blit_framebuffer(),
            match entry {
                Some(e) => {
                    &&& old(self)@.entries.dom().contains(snapshot_id)
                    &&& e == old(self)@.entries[snapshot_id]
                    &&& final(self)@.entries == old(self)@.entries.remove(snapshot_id)
                    &&& final(self)@.order == old(self)@.order.remove(
                        old(self)@.order.index_of(snapshot_id),
                    )
                    &&& final(self)@.waits == old(self)@.waits
                    &&& live_bytes(final(self)@.entries, final(self)@.order) + e.bytes
                        == live_bytes(old(self)@.entries, old(self)@.order)
                },
                None => !old(self)@.entries.dom().contains(snapshot_id) && final(self)@ == old(
                    self)@,
            },
    {
        let entry = match self.entries.get(&snapshot_id) {
            None => {
                return None;
            },
            Some(entry) => *entry,
        };
        let ghost before = self@;
        let _ = self.entries.remove(&snapshot_id);
        let mut at: usize = 0;
        while self.order[at] != snapshot_id
            invariant
                before.order.contains(snapshot_id),
                before.order.len() <= MAX_LIVE_CANVAS2D_SNAPSHOTS,
                self.order@ == before.order,
                at < self.order@.len(),
                forall|j: int| 0 <= j < at ==> self.order@[j] != snapshot_id,
            decreases self.order@.len() - at,
        {
            proof {
                let i = choose|i: int| 0 <= i < before.order.len() && before.order[i]
                    == snapshot_id;
                assert(i > at);
            }
            at = at + 1;
        }
        proof {
            assert(before.order.index_of(snapshot_id) == at) by {
                let i = before.order.index_of(snapshot_id);
                assert(before.order[at as int] == snapshot_id);
            }
            lemma_live_bytes_remove(before.entries, before.order, at as int);
        }
        let _ = self.order.remove(at);
        self.bytes = self.bytes - entry.bytes;
        proof {
            assert(self@.entries =~= before.entries.remove(snapshot_id));
            assert(self@.order =~= before.order.remove(at as int));
            assert forall|id: u32| #[trigger] self@.entries.dom().contains(id)
                <==> self@.order.contains(id) by {
                if before.order.contains(id) && id != snapshot_id {
                    let i = choose|i: int| 0 <= i < before.order.len() && before.order[i] == id;
                    if i < at {
                        assert(self@.order[i] == id);
                    } else {
                        assert(self@.order[i - 1] == id);
                    }
                }
                if self@.order.contains(id) {
                    let i = choose|i: int| 0 <= i < self@.order.len() && self@.order[i] == id;
                    if i < at {
                        assert(before.order[i] == id);
                    } else {
                        assert(before.order[i + 1] == id);
                    }
                }
            }
        }
        Some(entry)
    }

    /// Mark a snapshot for the text cache. Nothing happens where there is none.
    pub fn mark_snapshot_for_text_cache(&mut self, snapshot_id: u32, key: u64)
        requires
            old(self).wf(),
        ensures
            final(self).wf(),
            final(self).blit_framebuffer() == old(self).blit_framebuffer(),
            final(self)@.order == old(self)@.order,
            final(self)@.waits == old(self)@.waits,
            old(self)@.entries.dom().contains(snapshot_id) ==> final(self)@.entries == old(
                self)@.entries.insert(
                snapshot_id,
                SnapshotEntry { cache_key: Some(key), ..old(self)@.entries[snapshot_id] },
            ),
            !old(self)@.entries.dom().contains(snapshot_id) ==> final(self)@ == old(self)@,
    {
        if let Some(entry) = self.get(snapshot_id) {
            let ghost before = self@;
            let marked = SnapshotEntry { cache_key: Some(key), ..entry };
            let _ = self.entries.insert(snapshot_id, marked);
            proof {
                assert(self@.entries =~= before.entries.insert(snapshot_id, marked));
                lemma_live_bytes_frame(before.entries, self@.entries, before.order);
            }
        }
    }
}

/// Ask the driver for the bindings that a capture moves.
fn save_bindings<F: Fn(GlCall) -> u32>(gl: &mut Gl<F>) -> (saved: SavedBindings)
    requires
        old(gl).ready(),
    ensures
        final(gl).ready(),
        final(gl).runner() == old(gl).runner(),
        final(gl)@ == (crate::gl_device::GlModel { truthful: final(gl)@.truthful, ..old(gl)@ }),
        final(gl)@.truthful ==> saved_as(saved, old(gl)@.bindings) && old(gl)@.truthful,
{
    let active_texture: u32 = gl.issue(GlCall::GetInteger { pname: ACTIVE_TEXTURE });
    let texture: u32 = gl.issue(GlCall::GetInteger { pname: TEXTURE_BINDING_2D });
    let read: u32 = gl.issue(GlCall::GetInteger { pname: READ_FRAMEBUFFER_BINDING });
    let draw: u32 = gl.issue(GlCall::GetInteger { pname: DRAW_FRAMEBUFFER_BINDING });
    let scissor: bool = gl.issue(GlCall::IsEnabled { cap: SCISSOR_TEST }) != 0;
    SavedBindings { active_texture, texture, read, draw, scissor }
}

/// The saved values are the bindings.
spec fn saved_as(saved: SavedBindings, b: crate::gl_device::Bindings) -> bool {
    &&& saved.active_texture == b.active_texture
    &&& b.textures.dom().contains(b.active_texture)
    &&& saved.texture == b.textures[b.active_texture]
    &&& saved.read == b.read_framebuffer
    &&& saved.draw == b.draw_framebuffer
    &&& saved.scissor == b.scissor
}

/// The bindings agree but for what a capture moves.
spec fn moved_from(now: crate::gl_device::Bindings, b: crate::gl_device::Bindings) -> bool {
    &&& now.active_texture == b.active_texture
    &&& now.textures.remove(b.active_texture) =~= b.textures.remove(b.active_texture)
    &&& now.renderbuffer == b.renderbuffer
    &&& now.compact_unpack == b.compact_unpack
    &&& now.unpack_buffer == b.unpack_buffer
    &&& now.pack_buffer == b.pack_buffer
    &&& now.pixel_store == b.pixel_store
    &&& !now.scissor
}

/// Put the bindings back.
fn restore_state_after_snapshot<F: Fn(GlCall) -> u32>(
    gl: &mut Gl<F>,
    saved: SavedBindings,
    Ghost(b): Ghost<crate::gl_device::Bindings>,
)
    requires
        old(gl).ready(),
        old(gl)@.truthful ==> saved_as(saved, b) && moved_from(old(gl)@.bindings, b),
    ensures
        final(gl).ready(),
        final(gl).runner() == old(gl).runner(),
        final(gl)@ == (crate::gl_device::GlModel {
            bindings: final(gl)@.bindings,
            binds: final(gl)@.binds,
            ..old(gl)@
        }),
        final(gl)@.truthful ==> final(gl)@.bindings == b,
{
    let ghost moved = gl@.bindings;
    if saved.scissor {
        let _ = gl.issue(GlCall::Enable { cap: SCISSOR_TEST });
    }
    if saved.active_texture >= TEXTURE0 {
        let _ = gl.issue(GlCall::ActiveTexture { unit: saved.active_texture });
    }
    let _ = gl.issue(GlCall::BindTexture { target: TEXTURE_2D, name: saved.texture });
    let _ = gl.issue(GlCall::BindFramebuffer { target: READ_FRAMEBUFFER, name: saved.read });
    let _ = gl.issue(GlCall::BindFramebuffer { target: DRAW_FRAMEBUFFER, name: saved.draw });
    proof {
        if gl@.truthful {
            let unit = b.active_texture;
            assert forall|u: u32| u != unit implies moved.textures.dom().contains(u)
                == b.textures.dom().contains(u) && moved.textures[u] == b.textures[u] by {
                assert(moved.textures.remove(unit).dom().contains(u) == b.textures.remove(
                    unit,
                ).dom().contains(u));
                assert(moved.textures.remove(unit)[u] == b.textures.remove(unit)[u]);
            }
            assert(gl@.bindings.textures =~= b.textures);
            assert(gl@.bindings =~= b);
        }
    }
}

/// Wait until everything submitted so far is done. A driver that has no fence to give is
/// not waited for.
fn wait_for_drawing<F: Fn(GlCall) -> u32>(gl: &mut Gl<F>) -> (status: Option<SnapshotFenceStatus>)
    requires
        old(gl).ready(),
    ensures
        final(gl).ready(),
        final(gl).runner() == old(gl).runner(),
        final(gl)@ == (crate::gl_device::GlModel {
            fences: final(gl)@.fences,
            fenced: final(gl)@.fenced,
            waits: final(gl)@.waits,
            ..old(gl)@
        }),
        final(gl)@.fences.subset_of(old(gl)@.fences),
        final(gl)@.fenced.len() == old(gl)@.fenced.len() + 1,
        final(gl)@.fenced == old(gl)@.fenced.push(final(gl)@.fenced.last()),
        final(gl)@.fenced.last().1 == old(gl)@.blits.len(),
        status is None ==> final(gl)@.fenced.last().0 == 0 && final(gl)@.waits == old(gl)@.waits,
        match status {
            None => call_ensures(old(gl).runner(), (GlCall::FenceSync,), 0u32),
            Some(s) => waited_long(old(gl)@, final(gl)@, s) && exists|fence: u32, waited: u32|
                fence != 0 && call_ensures(old(gl).runner(), (GlCall::FenceSync,), fence)
                    && #[trigger] call_ensures(
                    old(gl).runner(),
                    (GlCall::ClientWaitSync { fence, timeout: i32::MAX },),
                    waited,
                ) && s == crate::fences::snapshot_fence(waited),
        },
{
    let fence: u32 = gl.issue(GlCall::FenceSync);
    if fence == 0 {
        return None;
    }
    let waited: u32 = gl.issue(GlCall::ClientWaitSync { fence, timeout: i32::MAX });
    assert(call_ensures(
        old(gl).runner(),
        (GlCall::ClientWaitSync { fence, timeout: i32::MAX },),
        waited,
    ));
    let _ = gl.issue(GlCall::DeleteSync { fence });
    assert(gl@.waits == old(gl)@.waits.push((fence, i32::MAX, waited, old(gl)@.blits.len())));
    Some(classify_snapshot_fence(waited))
}

/// Storage for a capture, with a filter that needs no further levels.
fn allocate_capture<F: Fn(GlCall) -> u32>(gl: &mut Gl<F>, tex: u32, width: u32, height: u32)
    requires
        old(gl).ready(),
    ensures
        final(gl).ready(),
        final(gl).runner() == old(gl).runner(),
        final(gl)@ == (crate::gl_device::GlModel {
            bindings: crate::gl_device::Bindings {
                textures: old(gl)@.bindings.textures.insert(
                    old(gl)@.bindings.active_texture,
                    tex,
                ),
                ..old(gl)@.bindings
            },
            storage: old(gl)@.storage.insert(tex, (RGBA8, width as i32, height as i32)),
            sampling: crate::gl_device::sampled(old(gl)@.sampling, tex, LINEAR),
            ..old(gl)@
        }),
{
    let _ = gl.issue(GlCall::BindTexture { target: TEXTURE_2D, name: tex });
    let _ = gl.issue(
        GlCall::TexParameter { target: TEXTURE_2D, pname: TEXTURE_MIN_FILTER, value: LINEAR },
    );
    let _ = gl.issue(
        GlCall::TexParameter { target: TEXTURE_2D, pname: TEXTURE_MAG_FILTER, value: LINEAR },
    );
    let _ = gl.issue(
        GlCall::TexParameter { target: TEXTURE_2D, pname: TEXTURE_WRAP_S, value: CLAMP_TO_EDGE },
    );
    let _ = gl.issue(
        GlCall::TexParameter { target: TEXTURE_2D, pname: TEXTURE_WRAP_T, value: CLAMP_TO_EDGE },
    );
    let _ = gl.issue(
        GlCall::TexImage2D {
            target: TEXTURE_2D,
            internal_format: RGBA8,
            width: width as i32,
            height: height as i32,
        },
    );
}

/// Before anything was copied, a fence was put behind the drawing, and waited for until it
/// signalled; only where the library had no fence to give, nothing was waited for.
#[verifier::opaque]
pub open spec fn finished_first(
    before: crate::gl_device::GlModel,
    after: crate::gl_device::GlModel,
) -> bool {
    &&& after.fenced == before.fenced.push((after.fenced.last().0, before.blits.len()))
    &&& {
        ||| after.fenced.last().0 == 0 && after.waits == before.waits
        ||| waited_long(before, after, SnapshotFenceStatus::Signalled)
    }
}

proof fn lemma_finished_since(
    first: crate::gl_device::GlModel,
    a: crate::gl_device::GlModel,
    b: crate::gl_device::GlModel,
)
    requires
        finished_first(first, a),
        b.fenced == a.fenced,
        b.waits == a.waits,
    ensures
        finished_first(first, b),
{
    reveal(finished_first);
}

/// The pool with one more wait counted where a fence was waited for; the count stops at its
/// largest value.
pub open spec fn with_wait(
    p: Pool,
    before: crate::gl_device::GlModel,
    after: crate::gl_device::GlModel,
) -> Pool {
    if after.waits.len() > before.waits.len() && p.waits < u32::MAX {
        Pool { waits: (p.waits + 1) as u32, ..p }
    } else {
        p
    }
}

/// What a capture that was admitted comes to: what the driver is left with, and what the
/// pool gains.
pub open spec fn captured(
    r: SnapshotRequest,
    source: Source2d,
    bytes: usize,
    gl_before: crate::gl_device::GlModel,
    gl_after: crate::gl_device::GlModel,
    before: Pool,
    after: Pool,
    blit_fbo: u32,
    result: Result<u32, SnapshotError>,
) -> bool {
    let counted = with_wait(before, gl_before, gl_after);
    &&& gl_after.truthful ==> gl_after.bindings == gl_before.bindings
    &&& match result {
        Ok(id) => if id == 0 {
            &&& after == counted
            &&& only_framebuffer_added(gl_before, gl_after, blit_fbo)
            &&& gl_after.blits == gl_before.blits
            &&& gl_after.statuses.last() != FRAMEBUFFER_COMPLETE
        } else {
            &&& id == r.snapshot_id
            &&& exists|tex: u32|
                #![trigger gl_before.textures.insert(tex)]
                {
                    &&& tex != 0
                    &&& after == with_snapshot(
                        counted,
                        r.snapshot_id,
                        SnapshotEntry {
                            tex,
                            width: r.width,
                            height: r.height,
                            bytes,
                            cache_key: None,
                        },
                    )
                    &&& gl_after.textures == gl_before.textures.insert(tex)
                    &&& gl_after.storage[tex] == (RGBA8, r.width as i32, r.height as i32)
                }
            &&& gl_after.truthful ==> gl_after.blits == gl_before.blits.push(
                capture_blit(r, source, blit_fbo),
            )
            &&& gl_after.statuses == gl_before.statuses.push(FRAMEBUFFER_COMPLETE)
            &&& gl_after.fences.subset_of(gl_before.fences)
            &&& finished_first(gl_before, gl_after)
        },
        Err(e) => {
            &&& after == counted
            &&& only_framebuffer_added(gl_before, gl_after, blit_fbo)
            &&& gl_after.blits == gl_before.blits
            &&& capture_caused(gl_before, gl_after, e)
        },
    }
}

/// A capture failed because its drawing was not done in time, or the wait for it failed, or
/// because the library did not make an object.
pub open spec fn capture_caused(
    before: crate::gl_device::GlModel,
    after: crate::gl_device::GlModel,
    e: SnapshotError,
) -> bool {
    match e {
        SnapshotError::TooLarge | SnapshotError::MakeCurrent(_) => false,
        SnapshotError::FenceTimeout => waited_long(before, after, SnapshotFenceStatus::Timeout),
        SnapshotError::FenceFailed => waited_long(before, after, SnapshotFenceStatus::Failed),
        SnapshotError::CreateTexture => after.refused == before.refused.push(GlCall::CreateTexture),
        SnapshotError::CreateFramebuffer => after.refused == before.refused.push(
            GlCall::CreateFramebuffer,
        ),
    }
}

/// One fence was waited for, as long as it took, and the wait ended in a way.
pub open spec fn waited_long(
    before: crate::gl_device::GlModel,
    after: crate::gl_device::GlModel,
    status: SnapshotFenceStatus,
) -> bool {
    exists|fence: u32, reply: u32|
        after.waits == #[trigger] before.waits.push((fence, i32::MAX, reply, before.blits.len()))
            && crate::fences::snapshot_fence(reply) == status
}

impl SnapshotPool {
    /// Capture a region of a 2D canvas whose drawing was submitted and whose context is
    /// current.
    ///
    /// The answer is the identifier, or zero where nothing was captured. The canvas's
    /// drawing is finished first, and a capture that would be stale is an error. The
    /// copy is not clipped by the scissor test, and every binding is as it was on every
    /// way out.
    #[verifier::rlimit(60)]
    pub fn capture<F: Fn(GlCall) -> u32>(
        &mut self,
        gl: &mut Gl<F>,
        r: SnapshotRequest,
        source: Source2d,
        gles_major: u32,
        bytes: usize,
    ) -> (result: Result<u32, SnapshotError>)
        requires
            old(self).wf(),
            old(gl).ready(),
            admission(old(self)@, r, Some(source), gles_major) == (Admission::Admitted { bytes }),
        ensures
            final(self).wf(),
            final(gl).ready(),
            final(gl).runner() == old(gl).runner(),
            captured(
                r,
                source,
                bytes,
                old(gl)@,
                final(gl)@,
                old(self)@,
                final(self)@,
                final(self).blit_framebuffer(),
                result,
            ),
            final(gl)@.copies == old(gl)@.copies,
            result matches Err(e) ==> match e {
                SnapshotError::TooLarge | SnapshotError::MakeCurrent(_) => false,
                SnapshotError::FenceTimeout => waited_as(
                    old(gl).runner(),
                    SnapshotFenceStatus::Timeout,
                ),
                SnapshotError::FenceFailed => waited_as(
                    old(gl).runner(),
                    SnapshotFenceStatus::Failed,
                ),
                SnapshotError::CreateTexture => call_ensures(
                    old(gl).runner(),
                    (GlCall::CreateTexture,),
                    0u32,
                ),
                SnapshotError::CreateFramebuffer => call_ensures(
                    old(gl).runner(),
                    (GlCall::CreateFramebuffer,),
                    0u32,
                ) && old(self).blit_framebuffer() == 0,
            },
    {
        proof {
            lemma_sides_are_small(r.width as nat, r.height as nat);
        }
        let answer = wait_for_drawing(gl);
        let ghost waited = gl@;
        match answer {
            None => {},
            Some(status) => {
                self.fence_waits = self.fence_waits.saturating_add(1);
                match status {
                    SnapshotFenceStatus::Signalled => {},
                    SnapshotFenceStatus::Timeout => {
                        return Err(SnapshotError::FenceTimeout);
                    },
                    SnapshotFenceStatus::Failed => {
                        return Err(SnapshotError::FenceFailed);
                    },
                }
            },
        }
        assert(finished_first(old(gl)@, waited)) by {
            reveal(finished_first);
        }
        let tex: u32 = gl.issue(GlCall::CreateTexture);
        if tex == 0 {
            return Err(SnapshotError::CreateTexture);
        }
        let ghost b = gl@.bindings;
        let saved = save_bindings(gl);
        if saved.scissor {
            let _ = gl.issue(GlCall::Disable { cap: SCISSOR_TEST });
        }
        allocate_capture(gl, tex, r.width, r.height);
        if self.blit_fbo == 0 {
            let fbo: u32 = gl.issue(GlCall::CreateFramebuffer);
            if fbo == 0 {
                let _ = gl.issue(GlCall::DeleteTexture { name: tex });
                restore_state_after_snapshot(gl, saved, Ghost(b));
                return Err(SnapshotError::CreateFramebuffer);
            }
            self.blit_fbo = fbo;
        }
        let _ = gl.issue(GlCall::BindFramebuffer { target: READ_FRAMEBUFFER, name: source.fbo });
        let _ = gl.issue(
            GlCall::BindFramebuffer { target: DRAW_FRAMEBUFFER, name: self.blit_fbo },
        );
        let _ = gl.issue(
            GlCall::FramebufferTexture {
                target: DRAW_FRAMEBUFFER,
                attachment: COLOR_ATTACHMENT0,
                name: tex,
            },
        );
        let status: u32 = gl.issue(GlCall::CheckFramebufferStatus { target: DRAW_FRAMEBUFFER });
        if status != FRAMEBUFFER_COMPLETE {
            let _ = gl.issue(
                GlCall::FramebufferTexture {
                    target: DRAW_FRAMEBUFFER,
                    attachment: COLOR_ATTACHMENT0,
                    name: 0,
                },
            );
            let _ = gl.issue(GlCall::DeleteTexture { name: tex });
            restore_state_after_snapshot(gl, saved, Ghost(b));
            return Ok(0);
        }
        let w: i32 = r.width as i32;
        let h: i32 = r.height as i32;
        let top: i32 = source.height as i32 - r.y;
        let _ = gl.issue(
            GlCall::Blit {
                source: Corners { x0: r.x, y0: top, x1: r.x + w, y1: top - h },
                target: Corners { x0: 0, y0: 0, x1: w, y1: h },
                mask: COLOR_BUFFER_BIT,
                filter: NEAREST,
            },
        );
        let _ = gl.issue(
            GlCall::FramebufferTexture {
                target: DRAW_FRAMEBUFFER,
                attachment: COLOR_ATTACHMENT0,
                name: 0,
            },
        );
        restore_state_after_snapshot(gl, saved, Ghost(b));
        proof {
            lemma_finished_since(old(gl)@, waited, gl@);
        }
        self.insert(
            r.snapshot_id,
            SnapshotEntry { tex, width: r.width, height: r.height, bytes, cache_key: None },
        );
        Ok(r.snapshot_id)
    }
}

/// Why a copy could not be made.
#[derive(Clone, Copy, Debug, PartialEq, Eq, Structural)]
pub enum CopyError {
    MakeCurrent(CanvasError),
    CreateFramebuffer,
}

/// Why a canvas could not be copied into a texture.
#[derive(Clone, Copy, Debug, PartialEq, Eq, Structural)]
pub enum DirectError {
    Capture(SnapshotError),
    Copy(CopyError),
}

/// One framebuffer per canvas through which textures are copied.
pub struct CopyFramebuffers {
    fbos: HashMap<u32, u32>,
}

impl View for CopyFramebuffers {
    type V = Map<u32, u32>;

    closed spec fn view(&self) -> Map<u32, u32> {
        self.fbos@
    }
}

impl CopyFramebuffers {
    /// None yet.
    pub fn new() -> (c: Self)
        ensures
            c@ == Map::<u32, u32>::empty(),
    {
        let c = CopyFramebuffers { fbos: HashMap::new() };
        assert(c@ =~= Map::empty());
        c
    }

    /// The canvas's framebuffer, made when it is first asked for. `None` where the
    /// driver has none to give.
    pub fn ensure_image_copy_fbo<F: Fn(GlCall) -> u32>(
        &mut self,
        gl: &mut Gl<F>,
        canvas_id: u32,
    ) -> (fbo: Option<u32>)
        requires
            old(gl).ready(),
        ensures
            final(gl).ready(),
            final(gl).runner() == old(gl).runner(),
            old(self)@.dom().contains(canvas_id) ==> fbo == Some(old(self)@[canvas_id]) && final(
                self)@ == old(self)@ && final(gl)@ == old(gl)@,
            !old(self)@.dom().contains(canvas_id) ==> match fbo {
                Some(name) => name != 0 && final(self)@ == old(self)@.insert(canvas_id, name)
                    && final(gl)@ == crate::gl_device::after_call(
                    old(gl)@,
                    GlCall::CreateFramebuffer,
                    name,
                ) && call_ensures(old(gl).runner(), (GlCall::CreateFramebuffer,), name),
                None => final(self)@ == old(self)@ && final(gl)@ == crate::gl_device::unmade(
                    old(gl)@,
                    GlCall::CreateFramebuffer,
                ) && call_ensures(
                    old(gl).runner(),
                    (GlCall::CreateFramebuffer,),
                    0u32,
                ),
            },
    {
        if let Some(fbo) = self.fbos.get(&canvas_id) {
            return Some(*fbo);
        }
        let ghost before = self@;
        let fbo: u32 = gl.issue(GlCall::CreateFramebuffer);
        if fbo == 0 {
            return None;
        }
        let _ = self.fbos.insert(canvas_id, fbo);
        assert(self@ =~= before.insert(canvas_id, fbo));
        Some(fbo)
    }

    /// Forget a canvas's framebuffer and give its name back.
    pub fn forget(&mut self, canvas_id: u32) -> (fbo: Option<u32>)
        ensures
            final(self)@ == old(self)@.remove(canvas_id),
            fbo == (if old(self)@.dom().contains(canvas_id) {
                Some(old(self)@[canvas_id])
            } else {
                None
            }),
    {
        let ghost before = self@;
        let fbo = self.fbos.remove(&canvas_id);
        assert(self@ =~= before.remove(canvas_id));
        fbo
    }
}

/// A text image in the text cache.
#[derive(Clone, Copy, Debug, PartialEq, Eq, Structural)]
pub struct CachedText {
    pub texture: u32,
    pub width: u32,
    pub height: u32,
}

/// A snapshot was read back: everything that was bound is bound again.
pub open spec fn pixels_read<ReadBack: Fn(u32, u32) -> Vec<u8>>(
    before: crate::gl_device::GlModel,
    after: crate::gl_device::GlModel,
    entry: SnapshotEntry,
    read: ReadBack,
    result: Option<Vec<u8>>,
) -> bool {
    match result {
        None => after == crate::gl_device::unmade(before, GlCall::CreateFramebuffer),
        Some(pixels) => {
            &&& after.refused == before.refused
            &&& after.truthful ==> after.bindings == before.bindings
            &&& after.textures == before.textures
            &&& after.statuses.len() == before.statuses.len() + 1
            &&& if after.statuses.last() == FRAMEBUFFER_COMPLETE {
                call_ensures(read, (entry.width, entry.height), pixels)
            } else {
                pixels@.len() == 0
            }
        },
    }
}

/// The pool without a snapshot.
pub open spec fn without_snapshot(p: Pool, id: u32) -> Pool {
    if p.entries.dom().contains(id) {
        Pool {
            entries: p.entries.remove(id),
            order: p.order.remove(p.order.index_of(id)),
            ..p
        }
    } else {
        p
    }
}

/// The pool with a snapshot marked for the text cache.
pub open spec fn marked(p: Pool, id: u32, key: u64) -> Pool {
    if p.entries.dom().contains(id) {
        Pool {
            entries: p.entries.insert(
                id,
                SnapshotEntry { cache_key: Some(key), ..p.entries[id] },
            ),
            ..p
        }
    } else {
        p
    }
}

/// What a drain took out of the pool.
pub struct SnapshotDrain {
    /// Textures to delete.
    pub to_delete: Vec<u32>,
    /// Snapshots that the text cache takes over, with its keys.
    pub to_cache: Vec<SnapshotEntry>,
}

/// The textures of those snapshots that nobody keeps.
pub open spec fn unkept(entries: Map<u32, SnapshotEntry>, order: Seq<u32>) -> Seq<u32>
    decreases order.len(),
{
    if order.len() == 0 {
        Seq::empty()
    } else {
        let rest = unkept(entries, order.drop_last());
        let entry = entries[order.last()];
        if entry.cache_key is None {
            rest.push(entry.tex)
        } else {
            rest
        }
    }
}

/// The snapshots that the text cache takes over.
pub open spec fn kept(entries: Map<u32, SnapshotEntry>, order: Seq<u32>) -> Seq<SnapshotEntry>
    decreases order.len(),
{
    if order.len() == 0 {
        Seq::empty()
    } else {
        let rest = kept(entries, order.drop_last());
        let entry = entries[order.last()];
        if entry.cache_key is Some {
            rest.push(entry)
        } else {
            rest
        }
    }
}

impl SnapshotPool {
    /// Read a snapshot's pixels back, with a context current. A snapshot that the driver
    /// cannot read gives none. `None` only where there is no framebuffer to read through and
    /// the driver makes none; one that was made is kept.
    pub fn read_pixels<F: Fn(GlCall) -> u32, ReadBack: Fn(u32, u32) -> Vec<u8>>(
        &mut self,
        gl: &mut Gl<F>,
        entry: SnapshotEntry,
        read: &ReadBack,
    ) -> (result: Option<Vec<u8>>)
        requires
            old(self).wf(),
            old(gl).ready(),
            call_requires(read, (entry.width, entry.height)),
        ensures
            final(self).wf(),
            final(self)@ == old(self)@,
            final(gl).ready(),
            final(gl).runner() == old(gl).runner(),
            pixels_read(old(gl)@, final(gl)@, entry, *read, result),
            final(self).blit_framebuffer() == old(self).blit_framebuffer(),
            old(self).read_framebuffer() != 0 ==> {
                &&& result is Some
                &&& final(self).read_framebuffer() == old(self).read_framebuffer()
                &&& final(gl)@.framebuffers == old(gl)@.framebuffers
            },
            old(self).read_framebuffer() == 0 ==> {
                let made = final(self).read_framebuffer();
                &&& call_ensures(old(gl).runner(), (GlCall::CreateFramebuffer,), made)
                &&& (result is Some) == (made != 0)
                &&& made != 0 ==> final(gl)@.framebuffers == old(gl)@.framebuffers.insert(made)
            },
    {
        if self.read_fbo == 0 {
            let fbo: u32 = gl.issue(GlCall::CreateFramebuffer);
            if fbo == 0 {
                return None;
            }
            self.read_fbo = fbo;
        }
        let previous: u32 = gl.issue(GlCall::GetInteger { pname: READ_FRAMEBUFFER_BINDING });
        let _ = gl.issue(
            GlCall::BindFramebuffer { target: READ_FRAMEBUFFER, name: self.read_fbo },
        );
        let _ = gl.issue(
            GlCall::FramebufferTexture {
                target: READ_FRAMEBUFFER,
                attachment: COLOR_ATTACHMENT0,
                name: entry.tex,
            },
        );
        let status: u32 = gl.issue(GlCall::CheckFramebufferStatus { target: READ_FRAMEBUFFER });
        let pixels: Vec<u8> = if status == FRAMEBUFFER_COMPLETE {
            read(entry.width, entry.height)
        } else {
            Vec::new()
        };
        let _ = gl.issue(
            GlCall::FramebufferTexture {
                target: READ_FRAMEBUFFER,
                attachment: COLOR_ATTACHMENT0,
                name: 0,
            },
        );
        let _ = gl.issue(GlCall::BindFramebuffer { target: READ_FRAMEBUFFER, name: previous });
        Some(pixels)
    }

    /// Empty the pool at the end of a frame. Without a current context nothing is done:
    /// the textures are kept until a context can delete them.
    pub fn drain_now(&mut self, context_is_current: bool) -> (drain: SnapshotDrain)
        requires
            old(self).wf(),
        ensures
            final(self).wf(),
            final(self).blit_framebuffer() == old(self).blit_framebuffer(),
            context_is_current ==> {
                &&& final(self)@ == (Pool {
                    entries: Map::empty(),
                    order: Seq::empty(),
                    ..old(self)@
                })
                &&& drain.to_delete@ == unkept(old(self)@.entries, old(self)@.order)
                &&& drain.to_cache@ == kept(old(self)@.entries, old(self)@.order)
            },
            !context_is_current ==> final(self)@ == old(self)@ && drain.to_delete@.len() == 0
                && drain.to_cache@.len() == 0,
    {
        let mut to_delete: Vec<u32> = Vec::new();
        let mut to_cache: Vec<SnapshotEntry> = Vec::new();
        if !context_is_current {
            return SnapshotDrain { to_delete, to_cache };
        }
        let mut i: usize = 0;
        let ghost before = self@;
        assert(to_delete@ =~= unkept(before.entries, before.order.take(0)));
        assert(to_cache@ =~= kept(before.entries, before.order.take(0)));
        while i < self.order.len()
            invariant
                i <= self.order@.len(),
                self@ == before,
                pool_wf(before),
                to_delete@ == unkept(before.entries, before.order.take(i as int)),
                to_cache@ == kept(before.entries, before.order.take(i as int)),
            decreases self.order@.len() - i,
        {
            let id: u32 = self.order[i];
            proof {
                assert(before.order.contains(id)) by {
                    assert(before.order[i as int] == id);
                }
                assert(before.entries.dom().contains(id));
                assert(before.order.take(i + 1).drop_last() =~= before.order.take(i as int));
            }
            if let Some(entry) = self.get(id) {
                match entry.cache_key {
                    Some(_) => {
                        to_cache.push(entry);
                    },
                    None => {
                        to_delete.push(entry.tex);
                    },
                }
            }
            i = i + 1;
        }
        assert(before.order.take(i as int) =~= before.order);
        self.entries.clear();
        self.order.clear();
        self.bytes = 0;
        assert(self@.entries =~= Map::empty());
        assert(self@.order =~= Seq::empty());
        SnapshotDrain { to_delete, to_cache }
    }

    /// Forget every snapshot without deleting anything: what they named is gone.
    pub fn abandon(&mut self)
        ensures
            final(self).wf(),
            final(self)@ == (Pool {
                    entries: Map::empty(),
                    order: Seq::empty(),
                    ..old(self)@
                }),
            final(self).blit_framebuffer() == 0,
    {
        self.entries.clear();
        self.order.clear();
        self.bytes = 0;
        self.blit_fbo = 0;
        self.read_fbo = 0;
        assert(self@.entries =~= Map::empty());
        assert(self@.order =~= Seq::empty());
    }
}

/// Every snapshot that a drain empties is either deleted or handed to the text cache.
pub proof fn law_a_drain_accounts_for_every_snapshot(
    entries: Map<u32, SnapshotEntry>,
    order: Seq<u32>,
)
    ensures
        unkept(entries, order).len() + kept(entries, order).len() == order.len(),
    decreases order.len(),
{
    if order.len() > 0 {
        law_a_drain_accounts_for_every_snapshot(entries, order.drop_last());
    }
}

/// A fence was waited for with that result.
pub open spec fn waited_as<F: Fn(GlCall) -> u32>(run: F, status: SnapshotFenceStatus) -> bool {
    exists|fence: u32, waited: u32| #[trigger]
        call_ensures(run, (GlCall::ClientWaitSync { fence, timeout: i32::MAX },), waited)
            && crate::fences::snapshot_fence(waited) == status
}

proof fn lemma_sides_are_small(width: nat, height: nat)
    requires
        width > 0,
        height > 0,
        rgba_bytes(width, height) <= MAX_LIVE_CANVAS2D_SNAPSHOT_BYTES,
    ensures
        width <= 16777216,
        height <= 16777216,
{
    assert(width <= width * height) by (nonlinear_arith)
        requires
            height > 0,
    ;
    assert(height <= width * height) by (nonlinear_arith)
        requires
            width > 0,
    ;
}

/// A pool at either limit refuses, whatever the request, and so never trades a snapshot
/// that is waiting to be used for another.
pub proof fn law_a_full_pool_refuses(
    p: Pool,
    r: SnapshotRequest,
    source: Option<Source2d>,
    gles_major: u32,
)
    requires
        p.order.len() >= MAX_LIVE_CANVAS2D_SNAPSHOTS || live_bytes(p.entries, p.order)
            >= MAX_LIVE_CANVAS2D_SNAPSHOT_BYTES,
    ensures
        !(admission(p, r, source, gles_major) is Admitted),
{
    if r.width > 0 && r.height > 0 {
        assert(rgba_bytes(r.width as nat, r.height as nat) > 0) by (nonlinear_arith)
            requires
                r.width > 0,
                r.height > 0,
                rgba_bytes(r.width as nat, r.height as nat) == r.width as nat * r.height as nat * 4,
        ;
    }
}

/// The pixel that a copy without scaling reads for a pixel that it writes. A copy whose source
/// runs downward reads its rows in reverse, and likewise its columns.
pub open spec fn pixel_read(blit: crate::gl_device::BlitRecord, column: int, row: int) -> (int, int) {
    let s = blit.source;
    let t = blit.target;
    (
        if s.x0 <= s.x1 {
            s.x0 + (column - t.x0)
        } else {
            s.x0 - 1 - (column - t.x0)
        },
        if s.y0 <= s.y1 {
            s.y0 + (row - t.y0)
        } else {
            s.y0 - 1 - (row - t.y0)
        },
    )
}

/// A snapshot shows its region the right way up: row `j` of its texture holds row `y + j` of
/// the canvas, counted from its top, and column `i` holds column `x + i`. A framebuffer counts
/// its rows from the bottom. Nothing is scaled, and the copy goes from the canvas's framebuffer
/// to the one that captures are made through.
pub proof fn law_a_snapshot_is_the_right_way_up(
    r: SnapshotRequest,
    source: Source2d,
    blit_fbo: u32,
    i: int,
    j: int,
)
    requires
        r.x >= 0,
        r.y >= 0,
        r.width > 0,
        r.height > 0,
        r.x + r.width <= source.width <= i32::MAX,
        r.y + r.height <= source.height <= i32::MAX,
        0 <= i < r.width,
        0 <= j < r.height,
    ensures
        ({
            let blit = capture_blit(r, source, blit_fbo);
            &&& pixel_read(blit, i, j) == (r.x + i, source.height - 1 - (r.y + j))
            &&& blit.read_framebuffer == source.fbo && blit.draw_framebuffer == blit_fbo
            &&& blit.target.x0 == 0 && blit.target.x1 == r.width
            &&& blit.target.y0 == 0 && blit.target.y1 == r.height
            &&& blit.source.x1 - blit.source.x0 == r.width
            &&& blit.source.y0 - blit.source.y1 == r.height
            &&& blit.mask == 0x4000 && blit.filter == 0x2600 && !blit.clipped
            &&& r.y == 0 && r.height == source.height ==> blit.source.y0 == source.height
                && blit.source.y1 == 0
        }),
{
}

/// Two captures of one canvas agree where their regions meet: the pixel of the canvas that
/// both hold is read from the same place.
pub proof fn law_overlapping_snapshots_agree(
    a: SnapshotRequest,
    b: SnapshotRequest,
    source: Source2d,
    fbo: u32,
    x: int,
    y: int,
)
    requires
        region_fits(a, source),
        region_fits(b, source),
        source.width <= i32::MAX,
        source.height <= i32::MAX,
        a.x <= x < a.x + a.width,
        a.y <= y < a.y + a.height,
        b.x <= x < b.x + b.width,
        b.y <= y < b.y + b.height,
    ensures
        pixel_read(capture_blit(a, source, fbo), x - a.x, y - a.y) == pixel_read(
            capture_blit(b, source, fbo),
            x - b.x,
            y - b.y,
        ),
{
}

/// A request is admitted exactly if it names a region with an area inside its canvas, under a
/// name that is neither zero nor taken, on a library of version three or later, and the pool
/// has room for one more of its size: at most 1024 snapshots and 64 mebibytes, four bytes to
/// the pixel.
pub proof fn law_what_is_admitted(p: Pool, r: SnapshotRequest, source: Source2d, gles_major: u32)
    requires
        source.width <= i32::MAX,
        source.height <= i32::MAX,
    ensures
        (admission(p, r, Some(source), gles_major) is Admitted) == {
            &&& r.width > 0 && r.height > 0 && r.snapshot_id != 0
            &&& 0 <= r.x && r.x + r.width <= source.width
            &&& 0 <= r.y && r.y + r.height <= source.height
            &&& !p.entries.dom().contains(r.snapshot_id)
            &&& gles_major >= 3
            &&& p.order.len() < 1024
            &&& live_bytes(p.entries, p.order) + 4 * (r.width as nat * r.height as nat) <= 67108864
        },
        admission(p, r, Some(source), gles_major) matches Admission::Admitted { bytes } ==> bytes
            == 4 * (r.width as nat * r.height as nat),
        (admission(p, r, Some(source), gles_major) is TooLarge) == (r.snapshot_id != 0 && 4 * (
        r.width as nat * r.height as nat) > 67108864),
        !(admission(p, r, None, gles_major) is Admitted),
{
    let pixels = r.width as nat * r.height as nat;
    assert(pixels * 4 == 4 * pixels);
    assert(rgba_bytes(r.width as nat, r.height as nat) == pixels * 4);
    if r.width == 0 || r.height == 0 {
        assert(pixels == 0) by (nonlinear_arith)
            requires
                pixels == r.width as nat * r.height as nat,
                r.width == 0 || r.height == 0,
        ;
    }
}

/// A drain deletes exactly the textures of the snapshots that no key marks, and hands over
/// exactly the marked ones, in the order in which they were captured.
pub proof fn law_a_drain_parts_by_key(
    entries: Map<u32, SnapshotEntry>,
    order: Seq<u32>,
    i: int,
    j: int,
)
    ensures
        0 <= i < order.len() && entries[order[i]].cache_key is None ==> unkept(
            entries,
            order,
        ).contains(entries[order[i]].tex),
        0 <= i < order.len() && entries[order[i]].cache_key is Some ==> kept(
            entries,
            order,
        ).contains(entries[order[i]]),
        0 <= j < kept(entries, order).len() ==> kept(entries, order)[j].cache_key is Some && exists|
            k: int,
        |
            0 <= k < order.len() && kept(entries, order)[j] == entries[#[trigger] order[k]],
        0 <= j < unkept(entries, order).len() ==> exists|k: int|
            0 <= k < order.len() && entries[#[trigger] order[k]].cache_key is None && unkept(
                entries,
                order,
            )[j] == entries[order[k]].tex,
    decreases order.len(),
{
    if order.len() > 0 {
        let rest = order.drop_last();
        let last = entries[order.last()];
        law_a_drain_parts_by_key(entries, rest, i, j);
        let some = kept(entries, rest);
        let others = unkept(entries, rest);
        if 0 <= i < rest.len() {
            assert(rest[i] == order[i]);
            if entries[order[i]].cache_key is None {
                let k = others.index_of(entries[order[i]].tex);
                assert(others.push(last.tex)[k] == entries[order[i]].tex);
            } else {
                let k = some.index_of(entries[order[i]]);
                assert(some.push(last)[k] == entries[order[i]]);
            }
        } else if i == rest.len() {
            assert(order[i] == order.last());
            assert(others.push(last.tex).last() == last.tex);
            assert(some.push(last).last() == last);
        }
        let end = order.len() - 1;
        assert(order[end] == order.last());
        if 0 <= j < kept(entries, order).len() {
            if j < some.len() {
                let k = choose|k: int|
                    0 <= k < rest.len() && some[j] == entries[#[trigger] rest[k]];
                assert(order[k] == rest[k]);
                assert(kept(entries, order)[j] == some[j]);
            } else {
                assert(kept(entries, order)[j] == entries[order[end]]);
            }
        }
        if 0 <= j < unkept(entries, order).len() {
            if j < others.len() {
                let k = choose|k: int|
                    0 <= k < rest.len() && entries[#[trigger] rest[k]].cache_key is None
                        && others[j] == entries[rest[k]].tex;
                assert(order[k] == rest[k]);
                assert(unkept(entries, order)[j] == others[j]);
            } else {
                assert(unkept(entries, order)[j] == entries[order[end]].tex);
            }
        }
    }
}

/// The bytes of an image are four to the pixel, wherever they are told; they are told exactly
/// up to 64 mebibytes.
pub proof fn law_an_image_has_four_bytes_to_the_pixel(
    width: u32,
    height: u32,
    bytes: Option<usize>,
)
    requires
        call_ensures(checked_canvas_rgba_byte_len, (width, height), bytes),
    ensures
        bytes is Some == (4 * (width as nat * height as nat) <= 67108864),
        bytes matches Some(n) ==> n == 4 * (width as nat * height as nat),
{
    let pixels = width as nat * height as nat;
    assert(rgba_bytes(width as nat, height as nat) == pixels * 4);
}

/// A capture that succeeds puts by a texture of the region's size that holds the region, the
/// right way up: row `j` of it is row `y + j` of the canvas from its top. It counts for the
/// bytes it was let in with, and is kept under no key.
pub proof fn law_a_capture_holds_its_region(
    r: SnapshotRequest,
    source: Source2d,
    bytes: usize,
    gl_before: crate::gl_device::GlModel,
    gl_after: crate::gl_device::GlModel,
    before: Pool,
    after: Pool,
    blit_fbo: u32,
    id: u32,
    i: int,
    j: int,
)
    requires
        captured(r, source, bytes, gl_before, gl_after, before, after, blit_fbo, Ok(id)),
        id != 0,
        gl_after.truthful,
        r.x >= 0,
        r.y >= 0,
        r.x + r.width <= source.width <= i32::MAX,
        r.y + r.height <= source.height <= i32::MAX,
        0 <= i < r.width,
        0 <= j < r.height,
    ensures
        id == r.snapshot_id,
        after.entries.dom().contains(id),
        after.entries[id].width == r.width,
        after.entries[id].height == r.height,
        after.entries[id].bytes == bytes,
        after.entries[id].cache_key is None,
        gl_after.storage[after.entries[id].tex].1 == r.width,
        gl_after.storage[after.entries[id].tex].2 == r.height,
        gl_after.textures.contains(after.entries[id].tex),
        gl_after.blits.len() == gl_before.blits.len() + 1,
        pixel_read(gl_after.blits.last(), i, j) == (r.x + i, source.height - 1 - (r.y + j)),
        gl_after.blits.last().read_framebuffer == source.fbo,
        gl_after.blits.last().target == (Corners {
            x0: 0,
            y0: 0,
            x1: r.width as i32,
            y1: r.height as i32,
        }),
        gl_after.bindings == gl_before.bindings,
{
}

/// One more snapshot counts once and for its own bytes, and taking it out again leaves the
/// pool as it was.
pub proof fn law_a_snapshot_counts_once(p: Pool, id: u32, entry: SnapshotEntry)
    requires
        pool_wf(p),
        !p.entries.dom().contains(id),
    ensures
        with_snapshot(p, id, entry).order.len() == p.order.len() + 1,
        with_snapshot(p, id, entry).entries[id] == entry,
        live_bytes(with_snapshot(p, id, entry).entries, with_snapshot(p, id, entry).order)
            == live_bytes(p.entries, p.order) + entry.bytes,
        without_snapshot(with_snapshot(p, id, entry), id) == p,
{
    let q = with_snapshot(p, id, entry);
    assert(q.order.drop_last() =~= p.order);
    assert(!p.order.contains(id));
    lemma_other_bytes(p.entries, p.order, id, entry);
    assert(q.order[p.order.len() as int] == id);
    assert(q.order.contains(id));
    let at = q.order.index_of(id);
    assert(at == p.order.len()) by {
        if at < p.order.len() {
            assert(p.order[at] == id);
        }
    }
    assert(q.order.remove(at) =~= p.order);
    assert(q.entries.remove(id) =~= p.entries);
}

proof fn lemma_other_bytes(
    entries: Map<u32, SnapshotEntry>,
    order: Seq<u32>,
    id: u32,
    entry: SnapshotEntry,
)
    requires
        !order.contains(id),
    ensures
        live_bytes(entries.insert(id, entry), order) == live_bytes(entries, order),
    decreases order.len(),
{
    if order.len() > 0 {
        assert(order.last() == order[order.len() - 1]);
        assert(!order.drop_last().contains(id)) by {
            if order.drop_last().contains(id) {
                let k = order.drop_last().index_of(id);
                assert(order[k] == id);
            }
        }
        lemma_other_bytes(entries, order.drop_last(), id, entry);
    }
}

/// A key marks one snapshot and changes nothing else of it, nor of any other.
pub proof fn law_a_key_marks_one_snapshot(p: Pool, id: u32, key: u64, other: u32)
    requires
        p.entries.dom().contains(id),
    ensures
        marked(p, id, key).entries[id].cache_key == Some(key),
        marked(p, id, key).entries[id].tex == p.entries[id].tex,
        marked(p, id, key).entries[id].width == p.entries[id].width,
        marked(p, id, key).entries[id].height == p.entries[id].height,
        marked(p, id, key).entries[id].bytes == p.entries[id].bytes,
        other != id ==> marked(p, id, key).entries[other] == p.entries[other],
        marked(p, id, key).order == p.order,
        marked(p, id, key).entries.dom() =~= p.entries.dom(),
{
}

/// Whoever asks is told what [`law_what_is_admitted`] says.
pub proof fn law_a_pool_decides_by_its_room(
    pool: SnapshotPool,
    r: SnapshotRequest,
    source: Source2d,
    gles_major: u32,
    a: Admission,
)
    requires
        call_ensures(SnapshotPool::decide, (&pool, r, Some(source), gles_major), a),
        source.width <= i32::MAX,
        source.height <= i32::MAX,
    ensures
        a is Admitted == {
            &&& r.width > 0 && r.height > 0 && r.snapshot_id != 0
            &&& 0 <= r.x && r.x + r.width <= source.width
            &&& 0 <= r.y && r.y + r.height <= source.height
            &&& !pool@.entries.dom().contains(r.snapshot_id)
            &&& gles_major >= 3
            &&& pool@.order.len() < 1024
            &&& live_bytes(pool@.entries, pool@.order) + 4 * (r.width as nat * r.height as nat)
                <= 67108864
        },
{
    law_what_is_admitted(pool@, r, source, gles_major);
}

/// Every capture that succeeds holds its region the right way up.
pub proof fn law_every_capture_is_the_right_way_up<F: Fn(GlCall) -> u32>(
    r: SnapshotRequest,
    source: Source2d,
    gles_major: u32,
    bytes: usize,
    id: u32,
    i: int,
    j: int,
)
    requires
        id != 0,
        r.x >= 0,
        r.y >= 0,
        r.x + r.width <= source.width <= i32::MAX,
        r.y + r.height <= source.height <= i32::MAX,
        0 <= i < r.width,
        0 <= j < r.height,
    ensures
        forall|pool: &mut SnapshotPool, gl: &mut Gl<F>|
            #[trigger] call_ensures(
                SnapshotPool::capture::<F>,
                (pool, gl, r, source, gles_major, bytes),
                Ok::<u32, SnapshotError>(id),
            ) && (*final(gl))@.truthful ==> {
                let blit = (*final(gl))@.blits.last();
                &&& pixel_read(blit, i, j) == (r.x + i, source.height - 1 - (r.y + j))
                &&& blit.read_framebuffer == source.fbo
                &&& (*final(gl))@.blits.len() == (*gl)@.blits.len() + 1
                &&& (*final(pool))@.entries[id].width == r.width
                &&& (*final(pool))@.entries[id].height == r.height
            },
{
}

/// A drain without a current context leaves the pool as it is; with one it empties it.
pub proof fn law_a_drain_needs_a_context(current: bool, drain: SnapshotDrain)
    ensures
        forall|pool: &mut SnapshotPool|
            #[trigger] call_ensures(SnapshotPool::drain_now, (pool, current), drain) ==> {
                &&& !current ==> (*final(pool))@ == (*pool)@ && drain.to_delete@.len() == 0
                    && drain.to_cache@.len() == 0
                &&& current ==> (*final(pool))@.order.len() == 0 && drain.to_delete@ == unkept(
                    (*pool)@.entries,
                    (*pool)@.order,
                ) && drain.to_cache@ == kept((*pool)@.entries, (*pool)@.order)
            },
{
}

/// A snapshot that is taken out is the one that was named, and its bytes are free again.
pub proof fn law_a_snapshot_taken_out_frees_its_bytes(id: u32, entry: Option<SnapshotEntry>)
    ensures
        forall|pool: &mut SnapshotPool|
            #[trigger] call_ensures(SnapshotPool::remove_canvas2d_snapshot, (pool, id), entry)
                ==> {
                let before = (*pool)@;
                let after = (*final(pool))@;
                &&& entry is Some == before.entries.dom().contains(id)
                &&& entry is None ==> after == before
                &&& entry matches Some(e) ==> e == before.entries[id]
                    && !after.entries.dom().contains(id) && live_bytes(after.entries, after.order)
                    + e.bytes == live_bytes(before.entries, before.order)
            },
{
}

} // verus!

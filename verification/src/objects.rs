//! The graphics objects that content has made, and whose they are.
use vstd::prelude::*;

use crate::binding::Deletion;
use crate::binding::ObjectOwner;
use crate::egl_device::EglCall;
use crate::egl_setup::EglError;
use crate::gl_device::Container;
use crate::gl_device::GlCall;
use crate::manager::CanvasError;
use crate::manager::CanvasManager;
use crate::manager::Mgr;
use crate::painters::PaintCall;

verus! {

/// An object on its way to be deleted. One that only a canvas's context has carries its
/// owner, because its name means another object in every other context.
#[derive(Clone, Copy, Debug, PartialEq, Eq, Structural)]
pub enum GlObject {
    Framebuffer { handle: u32, owner: u32 },
    VertexArray { handle: u32, owner: u32 },
    Query { handle: u32, owner: u32 },
    TransformFeedback { handle: u32, owner: u32 },
    Texture { handle: u32 },
    Renderbuffer { handle: u32 },
    Buffer { handle: u32 },
}

impl GlObject {
    /// Whose context has the object.
    pub open spec fn owned_by(self) -> ObjectOwner {
        match self {
            GlObject::Framebuffer { owner, .. } => ObjectOwner::Canvas(owner),
            GlObject::VertexArray { owner, .. } => ObjectOwner::Canvas(owner),
            GlObject::Query { owner, .. } => ObjectOwner::Canvas(owner),
            GlObject::TransformFeedback { owner, .. } => ObjectOwner::Canvas(owner),
            _ => ObjectOwner::Group,
        }
    }

    /// The call that deletes the object.
    pub open spec fn deletion(self) -> GlCall {
        match self {
            GlObject::Framebuffer { handle, .. } => GlCall::DeleteFramebuffer { name: handle },
            GlObject::VertexArray { handle, .. } => GlCall::DeleteContainer {
                container: Container::VertexArray,
                name: handle,
            },
            GlObject::Query { handle, .. } => GlCall::DeleteContainer {
                container: Container::Query,
                name: handle,
            },
            GlObject::TransformFeedback { handle, .. } => GlCall::DeleteContainer {
                container: Container::TransformFeedback,
                name: handle,
            },
            GlObject::Texture { handle } => GlCall::DeleteTexture { name: handle },
            GlObject::Renderbuffer { handle } => GlCall::DeleteRenderbuffer { name: handle },
            GlObject::Buffer { handle } => GlCall::DeleteBuffer { name: handle },
        }
    }

    /// Whose context must be current to delete the object.
    pub fn owner(&self) -> (owner: ObjectOwner)
        ensures
            owner == self.owned_by(),
    {
        match self {
            GlObject::Framebuffer { owner, .. } => ObjectOwner::Canvas(*owner),
            GlObject::VertexArray { owner, .. } => ObjectOwner::Canvas(*owner),
            GlObject::Query { owner, .. } => ObjectOwner::Canvas(*owner),
            GlObject::TransformFeedback { owner, .. } => ObjectOwner::Canvas(*owner),
            GlObject::Texture { .. } => ObjectOwner::Group,
            GlObject::Renderbuffer { .. } => ObjectOwner::Group,
            GlObject::Buffer { .. } => ObjectOwner::Group,
        }
    }

    fn call(&self) -> (call: GlCall)
        ensures
            call == self.deletion(),
    {
        match self {
            GlObject::Framebuffer { handle, .. } => GlCall::DeleteFramebuffer { name: *handle },
            GlObject::VertexArray { handle, .. } => GlCall::DeleteContainer {
                container: Container::VertexArray,
                name: *handle,
            },
            GlObject::Query { handle, .. } => GlCall::DeleteContainer {
                container: Container::Query,
                name: *handle,
            },
            GlObject::TransformFeedback { handle, .. } => GlCall::DeleteContainer {
                container: Container::TransformFeedback,
                name: *handle,
            },
            GlObject::Texture { handle } => GlCall::DeleteTexture { name: *handle },
            GlObject::Renderbuffer { handle } => GlCall::DeleteRenderbuffer { name: *handle },
            GlObject::Buffer { handle } => GlCall::DeleteBuffer { name: *handle },
        }
    }
}

/// The session after the deletion of an object, once its context is current.
pub open spec fn without_object(m: Mgr, object: GlObject) -> Mgr {
    Mgr { gl: crate::gl_device::after_call(m.gl, object.deletion(), 0), ..m }
}

/// What deleting an object comes to. An object of a canvas that is gone went with it: it is
/// never deleted from another context, where its name means another object or none.
pub open spec fn object_deleted(
    before: Mgr,
    after: Mgr,
    object: GlObject,
    result: Result<(), CanvasError>,
) -> bool {
    match object.owned_by() {
        ObjectOwner::Canvas(id) => if !before.canvases.dom().contains(id) {
            result is Ok && after == before
        } else {
            match result {
                Ok(_) => exists|mid: Mgr| #[trigger]
                    crate::binding::made_current(before, mid, id, Ok(())) && after
                        == without_object(mid, object),
                Err(e) => crate::binding::made_current(before, after, id, Err(e)),
            }
        },
        ObjectOwner::Group => match result {
            Ok(_) => exists|mid: Mgr, id: u32| #[trigger]
                crate::binding::any_current(before, mid, Ok::<u32, CanvasError>(id)) && after
                    == without_object(mid, object),
            Err(e) => crate::binding::any_current(before, after, Err::<u32, CanvasError>(e)),
        },
    }
}

impl<
    F: Fn(GlCall) -> u32,
    H: Fn(EglCall) -> Result<usize, EglError>,
    P: Fn(PaintCall) -> u64,
> CanvasManager<F, H, P> {
    /// Delete an object, from the context that has it.
    pub fn delete_gl_object(&mut self, object: GlObject) -> (result: Result<(), CanvasError>)
        requires
            old(self).wf(),
        ensures
            final(self).wf(),
            object_deleted(old(self)@, final(self)@, object, result),
    {
        let reached = self.reach_owner(object.owner());
        let ghost mid = self@;
        match reached {
            Err(e) => Err(e),
            Ok(Deletion::AlreadyGone) => Ok(()),
            Ok(Deletion::Delete) => {
                let _ = self.issue_gl(object.call());
                proof {
                    assert(self@ == without_object(mid, object));
                }
                Ok(())
            },
        }
    }
}

/// A framebuffer of content's.
#[derive(Clone, Copy, Debug, PartialEq, Eq, Structural)]
pub struct FramebufferMeta {
    pub gl_handle: Option<u32>,
    pub owner: u32,
    pub deleted: bool,
}

impl FramebufferMeta {
    /// Take the object for deletion, once.
    pub fn take_for_delete(&mut self) -> (object: Option<GlObject>)
        ensures
            final(self).owner == old(self).owner,
            final(self).gl_handle is None,
            match old(self).gl_handle {
                Some(handle) => object == Some(
                    GlObject::Framebuffer { handle, owner: old(self).owner },
                ) && final(self).deleted,
                None => object is None && *final(self) == *old(self),
            },
    {
        match self.gl_handle {
            None => None,
            Some(handle) => {
                self.gl_handle = None;
                self.deleted = true;
                Some(GlObject::Framebuffer { handle, owner: self.owner })
            },
        }
    }
}

/// A vertex array of content's.
#[derive(Clone, Copy, Debug, PartialEq, Eq, Structural)]
pub struct VaoMeta {
    pub gl_handle: Option<u32>,
    pub owner: u32,
    pub deleted: bool,
}

impl VaoMeta {
    /// Take the object for deletion, once.
    pub fn take_for_delete(&mut self) -> (object: Option<GlObject>)
        ensures
            final(self).owner == old(self).owner,
            final(self).gl_handle is None,
            match old(self).gl_handle {
                Some(handle) => object == Some(
                    GlObject::VertexArray { handle, owner: old(self).owner },
                ) && final(self).deleted,
                None => object is None && *final(self) == *old(self),
            },
    {
        match self.gl_handle {
            None => None,
            Some(handle) => {
                self.gl_handle = None;
                self.deleted = true;
                Some(GlObject::VertexArray { handle, owner: self.owner })
            },
        }
    }
}

/// A query of content's.
#[derive(Clone, Copy, Debug, PartialEq, Eq, Structural)]
pub struct QueryMeta {
    pub gl_handle: Option<u32>,
    pub owner: u32,
    pub deleted: bool,
}

impl QueryMeta {
    /// Take the object for deletion, once.
    pub fn take_for_delete(&mut self) -> (object: Option<GlObject>)
        ensures
            final(self).owner == old(self).owner,
            final(self).gl_handle is None,
            match old(self).gl_handle {
                Some(handle) => object == Some(
                    GlObject::Query { handle, owner: old(self).owner },
                ) && final(self).deleted,
                None => object is None && *final(self) == *old(self),
            },
    {
        match self.gl_handle {
            None => None,
            Some(handle) => {
                self.gl_handle = None;
                self.deleted = true;
                Some(GlObject::Query { handle, owner: self.owner })
            },
        }
    }
}

/// A transform feedback of content's.
#[derive(Clone, Copy, Debug, PartialEq, Eq, Structural)]
pub struct TransformFeedbackMeta {
    pub gl_handle: Option<u32>,
    pub owner: u32,
    pub deleted: bool,
}

impl TransformFeedbackMeta {
    /// Take the object for deletion, once.
    pub fn take_for_delete(&mut self) -> (object: Option<GlObject>)
        ensures
            final(self).owner == old(self).owner,
            final(self).gl_handle is None,
            match old(self).gl_handle {
                Some(handle) => object == Some(
                    GlObject::TransformFeedback { handle, owner: old(self).owner },
                ) && final(self).deleted,
                None => object is None && *final(self) == *old(self),
            },
    {
        match self.gl_handle {
            None => None,
            Some(handle) => {
                self.gl_handle = None;
                self.deleted = true;
                Some(GlObject::TransformFeedback { handle, owner: self.owner })
            },
        }
    }
}

/// An object was used from a canvas that is not its owner.
#[derive(Clone, Copy, Debug, PartialEq, Eq, Structural)]
pub struct ForeignObject {
    pub owner: Option<u32>,
    pub canvas: u32,
}

/// Refuse an object that is not the canvas's own. One without an owner is nobody's.
pub fn check_owner(owner: Option<u32>, canvas: u32) -> (result: Result<(), ForeignObject>)
    ensures
        result == (if owner == Some(canvas) {
            Ok::<(), ForeignObject>(())
        } else {
            Err(ForeignObject { owner, canvas })
        }),
{
    match owner {
        Some(id) => if id == canvas {
            Ok(())
        } else {
            Err(ForeignObject { owner, canvas })
        },
        None => Err(ForeignObject { owner, canvas }),
    }
}

// ---- objects that the whole share group sees -----------------------------------------

/// A texture or a renderbuffer of content's.
#[derive(Clone, Copy, Debug, PartialEq, Eq, Structural)]
pub struct SharedMeta {
    pub id: u32,
    pub gl_handle: Option<u32>,
    /// The canvas for which it was made, if one was.
    pub owner_canvas: Option<u32>,
}

/// The names of the objects that a canvas owns, in order.
pub open spec fn owned_handles(metas: Seq<SharedMeta>, canvas: u32) -> Seq<u32>
    decreases metas.len(),
{
    if metas.len() == 0 {
        Seq::empty()
    } else {
        let rest = owned_handles(metas.drop_last(), canvas);
        match (metas.last().owner_canvas, metas.last().gl_handle) {
            (Some(owner), Some(handle)) => if owner == canvas {
                rest.push(handle)
            } else {
                rest
            },
            _ => rest,
        }
    }
}

/// The objects that a canvas does not own, in order.
pub open spec fn unowned(metas: Seq<SharedMeta>, canvas: u32) -> Seq<SharedMeta>
    decreases metas.len(),
{
    if metas.len() == 0 {
        Seq::empty()
    } else {
        let rest = unowned(metas.drop_last(), canvas);
        if metas.last().owner_canvas == Some(canvas) {
            rest
        } else {
            rest.push(metas.last())
        }
    }
}

/// Content's objects of one kind.
pub struct SharedObjects {
    metas: Vec<SharedMeta>,
}

impl View for SharedObjects {
    type V = Seq<SharedMeta>;

    closed spec fn view(&self) -> Seq<SharedMeta> {
        self.metas@
    }
}

impl SharedObjects {
    pub fn new() -> (objects: Self)
        ensures
            objects@ == Seq::<SharedMeta>::empty(),
    {
        SharedObjects { metas: Vec::new() }
    }

    /// Record an object.
    pub fn record(&mut self, meta: SharedMeta)
        ensures
            final(self)@ == old(self)@.push(meta),
    {
        self.metas.push(meta);
    }

    /// Take the objects of a canvas that goes: they leave the books, and those that the
    /// driver knows are to be deleted.
    pub fn take_owned(&mut self, canvas: u32) -> (handles: Vec<u32>)
        ensures
            handles@ == owned_handles(old(self)@, canvas),
            final(self)@ == unowned(old(self)@, canvas),
    {
        let mut handles: Vec<u32> = Vec::new();
        let mut kept: Vec<SharedMeta> = Vec::new();
        let mut i: usize = 0;
        while i < self.metas.len()
            invariant
                i <= self.metas@.len(),
                self.metas@ == old(self).metas@,
                handles@ == owned_handles(self.metas@.take(i as int), canvas),
                kept@ == unowned(self.metas@.take(i as int), canvas),
            decreases self.metas@.len() - i,
        {
            let meta = self.metas[i];
            proof {
                let now = self.metas@.take(i + 1);
                assert(now.drop_last() =~= self.metas@.take(i as int));
                assert(now.last() == meta);
            }
            let owned: bool = match meta.owner_canvas {
                Some(owner) => owner == canvas,
                None => false,
            };
            if owned {
                if let Some(handle) = meta.gl_handle {
                    handles.push(handle);
                }
            } else {
                kept.push(meta);
            }
            i = i + 1;
        }
        assert(self.metas@.take(self.metas@.len() as int) =~= self.metas@);
        self.metas = kept;
        handles
    }
}

/// What a canvas that goes leaves behind belongs to others, and nothing of theirs is lost.
pub proof fn law_only_owned_objects_go(metas: Seq<SharedMeta>, canvas: u32)
    ensures
        forall|meta: SharedMeta|
            #![trigger unowned(metas, canvas).contains(meta)]
            #![trigger metas.contains(meta)]
            unowned(metas, canvas).contains(meta) <==> metas.contains(meta) && meta.owner_canvas
                != Some(canvas),
    decreases metas.len(),
{
    if metas.len() > 0 {
        law_only_owned_objects_go(metas.drop_last(), canvas);
        let rest = unowned(metas.drop_last(), canvas);
        assert forall|meta: SharedMeta|
            unowned(metas, canvas).contains(meta) <==> metas.contains(meta) && meta.owner_canvas
                != Some(canvas) by {
            assert(metas =~= metas.drop_last().push(metas.last()));
            if metas.contains(meta) {
                let i = choose|i: int| 0 <= i < metas.len() && metas[i] == meta;
                if i < metas.len() - 1 {
                    assert(metas.drop_last()[i] == meta);
                    assert(metas.drop_last().contains(meta));
                }
            }
            if metas.drop_last().contains(meta) {
                let i = choose|i: int|
                    0 <= i < metas.drop_last().len() && metas.drop_last()[i] == meta;
                assert(metas[i] == meta);
            }
            if rest.contains(meta) {
                let i = choose|i: int| 0 <= i < rest.len() && rest[i] == meta;
                assert(rest.push(metas.last())[i] == meta);
            }
            if metas.last() == meta && meta.owner_canvas != Some(canvas) {
                assert(unowned(metas, canvas)[rest.len() as int] == meta);
            }
            if unowned(metas, canvas).contains(meta) && !rest.contains(meta) {
                let i = choose|i: int|
                    0 <= i < unowned(metas, canvas).len() && unowned(metas, canvas)[i] == meta;
                if i < rest.len() {
                    assert(rest[i] == meta);
                }
            }
            if metas.last() == meta {
                assert(metas[metas.len() - 1] == meta);
            }
        }
    }
}

// ---- program links whose outcome has not been read ----------------------------------

/// Programs, and those of them whose link was issued and not yet asked about.
pub struct LinkQueue {
    programs: Vec<ProgramLink>,
    pending: Vec<u32>,
}

/// A program, and whether its link waits to be asked about.
#[derive(Clone, Copy, Debug, PartialEq, Eq, Structural)]
pub struct ProgramLink {
    pub id: u32,
    pub link_pending: bool,
}

/// What a link queue holds.
pub struct Links {
    pub programs: Set<u32>,
    pub pending: Seq<u32>,
}

/// The program identifiers.
spec fn ids_of(programs: Seq<ProgramLink>) -> Set<u32> {
    Set::new(|id: u32| exists|i: int| 0 <= i < programs.len() && (#[trigger] programs[i]).id == id)
}

/// The queue without a program.
pub open spec fn without(pending: Seq<u32>, id: u32) -> Seq<u32>
    decreases pending.len(),
{
    if pending.len() == 0 {
        Seq::empty()
    } else {
        let rest = without(pending.drop_last(), id);
        if pending.last() == id {
            rest
        } else {
            rest.push(pending.last())
        }
    }
}

proof fn lemma_without(pending: Seq<u32>, id: u32)
    ensures
        forall|x: u32|
            #![trigger without(pending, id).contains(x)]
            without(pending, id).contains(x) <==> pending.contains(x) && x != id,
        pending.no_duplicates() ==> without(pending, id).no_duplicates(),
    decreases pending.len(),
{
    if pending.len() > 0 {
        lemma_without(pending.drop_last(), id);
        let rest = without(pending.drop_last(), id);
        let last = pending.last();
        assert(pending =~= pending.drop_last().push(last));
        assert forall|x: u32| without(pending, id).contains(x) <==> pending.contains(x) && x
            != id by {
            if pending.contains(x) {
                let i = choose|i: int| 0 <= i < pending.len() && pending[i] == x;
                if i < pending.len() - 1 {
                    assert(pending.drop_last()[i] == x);
                    assert(pending.drop_last().contains(x));
                }
                if x != id {
                    if rest.contains(x) {
                        let j = choose|j: int| 0 <= j < rest.len() && rest[j] == x;
                        assert(rest.push(last)[j] == x);
                    } else {
                        assert(rest.push(last)[rest.len() as int] == x);
                    }
                }
            }
            if without(pending, id).contains(x) {
                let j = choose|j: int|
                    0 <= j < without(pending, id).len() && without(pending, id)[j] == x;
                if j < rest.len() {
                    assert(rest[j] == x);
                    assert(rest.contains(x));
                    let i = choose|i: int|
                        0 <= i < pending.drop_last().len() && pending.drop_last()[i] == x;
                    assert(pending[i] == x);
                } else {
                    assert(pending[pending.len() - 1] == x);
                }
            }
        }
        if pending.no_duplicates() {
            assert(pending.drop_last().no_duplicates());
            assert(!pending.drop_last().contains(last)) by {
                if pending.drop_last().contains(last) {
                    let i = choose|i: int|
                        0 <= i < pending.drop_last().len() && pending.drop_last()[i] == last;
                    assert(pending[i] == pending[pending.len() - 1]);
                }
            }
            assert(!rest.contains(last));
            assert forall|i: int, j: int|
                0 <= i < without(pending, id).len() && 0 <= j < without(pending, id).len() && i
                    != j implies without(pending, id)[i] != without(pending, id)[j] by {
                if i < rest.len() {
                    assert(rest[i] == without(pending, id)[i]);
                    assert(rest.contains(rest[i]));
                }
                if j < rest.len() {
                    assert(rest[j] == without(pending, id)[j]);
                    assert(rest.contains(rest[j]));
                }
            }
        }
    }
}

impl View for LinkQueue {
    type V = Links;

    closed spec fn view(&self) -> Links {
        Links { programs: ids_of(self.programs@), pending: self.pending@ }
    }
}

impl LinkQueue {
    /// Every program is known once and every pending link is listed once, and the two
    /// accounts of what is pending agree.
    pub closed spec fn wf(&self) -> bool {
        &&& self.pending@.no_duplicates()
        &&& forall|i: int, j: int|
            0 <= i < j < self.programs@.len() ==> (#[trigger] self.programs@[i]).id != (
            #[trigger] self.programs@[j]).id
        &&& forall|i: int|
            0 <= i < self.programs@.len() ==> (#[trigger] self.programs@[i]).link_pending
                == self.pending@.contains(self.programs@[i].id)
        &&& forall|k: int|
            0 <= k < self.pending@.len() ==> self@.programs.contains(#[trigger] self.pending@[k])
    }

    pub fn new() -> (q: Self)
        ensures
            q.wf(),
            q@.programs == Set::<u32>::empty(),
            q@.pending == Seq::<u32>::empty(),
    {
        let q = LinkQueue { programs: Vec::new(), pending: Vec::new() };
        assert(q@.programs =~= Set::<u32>::empty());
        q
    }

    fn find(&self, id: u32) -> (at: Option<usize>)
        ensures
            at matches Some(i) ==> i < self.programs@.len() && self.programs@[i as int].id == id,
            at is None <==> !self@.programs.contains(id),
    {
        let mut i: usize = 0;
        while i < self.programs.len()
            invariant
                i <= self.programs@.len(),
                forall|j: int| 0 <= j < i ==> (#[trigger] self.programs@[j]).id != id,
            decreases self.programs@.len() - i,
        {
            if self.programs[i].id == id {
                assert(self.programs@[i as int].id == id);
                return Some(i);
            }
            i = i + 1;
        }
        None
    }

    /// Record a program. One that is known stays as it is.
    pub fn record(&mut self, id: u32)
        requires
            old(self).wf(),
        ensures
            final(self).wf(),
            final(self)@.programs == old(self)@.programs.insert(id),
            final(self)@.pending == old(self)@.pending,
    {
        if self.find(id).is_some() {
            assert(self@.programs.insert(id) =~= self@.programs);
            return ;
        }
        let ghost before = self.programs@;
        assert(!self.pending@.contains(id)) by {
            if self.pending@.contains(id) {
                let k = choose|k: int| 0 <= k < self.pending@.len() && self.pending@[k] == id;
                assert(self@.programs.contains(self.pending@[k]));
            }
        }
        self.programs.push(ProgramLink { id, link_pending: false });
        proof {
            let now = self.programs@;
            assert(now[before.len() as int].id == id);
            assert forall|x: u32| ids_of(now).contains(x) <==> ids_of(before).insert(id).contains(
                x,
            ) by {
                if ids_of(before).contains(x) {
                    let i = choose|i: int| 0 <= i < before.len() && (#[trigger] before[i]).id == x;
                    assert(now[i].id == x);
                }
                if ids_of(now).contains(x) {
                    let i = choose|i: int| 0 <= i < now.len() && (#[trigger] now[i]).id == x;
                    if i < before.len() {
                        assert(before[i].id == x);
                    }
                }
            }
            assert(ids_of(now) =~= ids_of(before).insert(id));
            assert forall|i: int, j: int| 0 <= i < j < now.len() implies (#[trigger] now[i]).id != (
            #[trigger] now[j]).id by {
                if j == before.len() {
                    assert(before[i].id == now[i].id);
                    assert(ids_of(before).contains(before[i].id));
                }
            }
        }
    }

    /// The programs whose links wait, oldest first.
    pub fn pending(&self) -> (ids: Vec<u32>)
        ensures
            ids@ == self@.pending,
    {
        let mut ids: Vec<u32> = Vec::new();
        let mut i: usize = 0;
        while i < self.pending.len()
            invariant
                i <= self.pending@.len(),
                ids@ == self.pending@.take(i as int),
            decreases self.pending@.len() - i,
        {
            ids.push(self.pending[i]);
            assert(self.pending@.take(i + 1) =~= self.pending@.take(i as int).push(
                self.pending@[i as int],
            ));
            i = i + 1;
        }
        assert(self.pending@.take(i as int) =~= self.pending@);
        ids
    }

    /// A program's link was issued and its outcome not yet read. Issued again before that,
    /// it still waits only once. An unknown program leaves no mark.
    pub fn mark_link_pending(&mut self, id: u32)
        requires
            old(self).wf(),
        ensures
            final(self).wf(),
            final(self)@.programs == old(self)@.programs,
            final(self)@.pending == (if old(self)@.programs.contains(id) && !old(
                self)@.pending.contains(id) {
                old(self)@.pending.push(id)
            } else {
                old(self)@.pending
            }),
    {
        if let Some(i) = self.find(id) {
            let link = self.programs[i];
            if !link.link_pending {
                let ghost before = *self;
                self.programs.set(i, ProgramLink { id, link_pending: true });
                self.pending.push(id);
                proof {
                    lemma_same_ids(before.programs@, self.programs@);
                    let old_pending = before.pending@;
                    assert forall|x: u32| self.pending@.contains(x) <==> old_pending.contains(x) || x
                        == id by {
                        if old_pending.contains(x) {
                            let k = choose|k: int|
                                0 <= k < old_pending.len() && old_pending[k] == x;
                            assert(self.pending@[k] == x);
                        }
                        assert(self.pending@[old_pending.len() as int] == id);
                    }
                    assert forall|k: int| 0 <= k < self.pending@.len() implies self@.programs.contains(
                        #[trigger] self.pending@[k],
                    ) by {
                        if k < old_pending.len() {
                            assert(before@.programs.contains(old_pending[k]));
                        }
                    }
                }
            }
        }
    }

    /// Forget that a program's link waits, without reading its outcome.
    pub fn forget_pending_link(&mut self, id: u32)
        requires
            old(self).wf(),
        ensures
            final(self).wf(),
            final(self)@.programs == old(self)@.programs,
            final(self)@.pending == without(old(self)@.pending, id),
    {
        let ghost before = *self;
        if let Some(i) = self.find(id) {
            self.programs.set(i, ProgramLink { id, link_pending: false });
        }
        let ghost cleared = self.programs@;
        let mut kept: Vec<u32> = Vec::new();
        let mut k: usize = 0;
        while k < self.pending.len()
            invariant
                k <= self.pending@.len(),
                self.pending@ == before.pending@,
                self.programs@ == cleared,
                kept@ == without(self.pending@.take(k as int), id),
            decreases self.pending@.len() - k,
        {
            let x: u32 = self.pending[k];
            proof {
                let now = self.pending@.take(k + 1);
                assert(now.drop_last() =~= self.pending@.take(k as int));
                assert(now.last() == x);
            }
            if x != id {
                kept.push(x);
            }
            k = k + 1;
        }
        assert(self.pending@.take(self.pending@.len() as int) =~= self.pending@);
        self.pending = kept;
        proof {
            lemma_without(before.pending@, id);
            lemma_same_ids(before.programs@, cleared);
            assert forall|i: int| 0 <= i < cleared.len() implies (#[trigger] cleared[i]).link_pending
                == self.pending@.contains(cleared[i].id) by {
                assert(before.programs@[i].id == cleared[i].id);
            }
            assert forall|k: int| 0 <= k < self.pending@.len() implies self@.programs.contains(
                #[trigger] self.pending@[k],
            ) by {
                assert(self.pending@.contains(self.pending@[k]));
                let x = self.pending@[k];
                let j = choose|j: int| 0 <= j < before.pending@.len() && before.pending@[j] == x;
                assert(before@.programs.contains(before.pending@[j]));
            }
        }
    }
}

proof fn lemma_same_ids(a: Seq<ProgramLink>, b: Seq<ProgramLink>)
    requires
        a.len() == b.len(),
        forall|i: int| 0 <= i < a.len() ==> (#[trigger] a[i]).id == (#[trigger] b[i]).id,
    ensures
        ids_of(a) == ids_of(b),
{
    assert forall|x: u32| ids_of(a).contains(x) <==> ids_of(b).contains(x) by {
        if ids_of(a).contains(x) {
            let i = choose|i: int| 0 <= i < a.len() && (#[trigger] a[i]).id == x;
            assert(b[i].id == x);
        }
        if ids_of(b).contains(x) {
            let i = choose|i: int| 0 <= i < b.len() && (#[trigger] b[i]).id == x;
            assert(a[i].id == x);
        }
    }
    assert(ids_of(a) =~= ids_of(b));
}

/// Framebuffers, vertex arrays, queries and transform feedbacks belong to the canvas that made
/// them; textures, renderbuffers and buffers belong to all canvases.
pub proof fn law_whose_an_object_is(object: GlObject, owner: ObjectOwner)
    requires
        call_ensures(GlObject::owner, (&object,), owner),
    ensures
        object matches GlObject::Framebuffer { owner: id, .. } ==> owner == ObjectOwner::Canvas(id),
        object matches GlObject::VertexArray { owner: id, .. } ==> owner == ObjectOwner::Canvas(id),
        object matches GlObject::Query { owner: id, .. } ==> owner == ObjectOwner::Canvas(id),
        object matches GlObject::TransformFeedback { owner: id, .. } ==> owner
            == ObjectOwner::Canvas(id),
        object is Texture || object is Renderbuffer || object is Buffer ==> owner
            == ObjectOwner::Group,
{
}

/// Each kind of object is deleted by the call of its own kind, under its own name.
pub proof fn law_how_an_object_is_deleted(object: GlObject)
    ensures
        object matches GlObject::Framebuffer { handle, .. } ==> object.deletion()
            == (GlCall::DeleteFramebuffer { name: handle }),
        object matches GlObject::VertexArray { handle, .. } ==> object.deletion()
            == (GlCall::DeleteContainer { container: Container::VertexArray, name: handle }),
        object matches GlObject::Query { handle, .. } ==> object.deletion()
            == (GlCall::DeleteContainer { container: Container::Query, name: handle }),
        object matches GlObject::TransformFeedback { handle, .. } ==> object.deletion()
            == (GlCall::DeleteContainer { container: Container::TransformFeedback, name: handle }),
        object matches GlObject::Texture { handle } ==> object.deletion()
            == (GlCall::DeleteTexture { name: handle }),
        object matches GlObject::Renderbuffer { handle } ==> object.deletion()
            == (GlCall::DeleteRenderbuffer { name: handle }),
        object matches GlObject::Buffer { handle } ==> object.deletion() == (GlCall::DeleteBuffer {
            name: handle,
        }),
{
}

/// An object of a canvas is deleted while that canvas is current; one whose canvas is gone is
/// gone with it.
pub proof fn law_where_an_object_is_deleted(
    before: Mgr,
    after: Mgr,
    object: GlObject,
    result: Result<(), CanvasError>,
    id: u32,
)
    requires
        object_deleted(before, after, object, result),
        object matches GlObject::Framebuffer { owner, .. } && owner == id,
    ensures
        !before.canvases.dom().contains(id) ==> result is Ok && after == before,
        before.canvases.dom().contains(id) && result is Ok ==> crate::binding::serving(after.bound)
            == Some(id) && !after.gl.framebuffers.contains(object->Framebuffer_handle),
{
    reveal(crate::binding::made_current);
}

/// A canvas may use an object exactly if it owns it.
pub proof fn law_who_may_use_an_object(
    owner: Option<u32>,
    canvas: u32,
    result: Result<(), ForeignObject>,
)
    requires
        call_ensures(check_owner, (owner, canvas), result),
    ensures
        result is Ok == (owner == Some(canvas)),
        result matches Err(e) ==> e.owner == owner && e.canvas == canvas,
{
}

/// An object is taken for deletion once, under its name and with its owner.
pub proof fn law_an_object_is_taken_once(object: Option<GlObject>)
    ensures
        forall|m: &mut FramebufferMeta|
            #[trigger] call_ensures(FramebufferMeta::take_for_delete, (m,), object) ==> {
                &&& (*final(m)).gl_handle is None
                &&& (*m).gl_handle is None ==> object is None
                &&& (*m).gl_handle matches Some(handle) ==> object == Some(
                    GlObject::Framebuffer { handle, owner: (*m).owner },
                ) && (*final(m)).deleted
            },
        forall|m: &mut VaoMeta|
            #[trigger] call_ensures(VaoMeta::take_for_delete, (m,), object) ==> {
                &&& (*final(m)).gl_handle is None
                &&& (*m).gl_handle is None ==> object is None
                &&& (*m).gl_handle matches Some(handle) ==> object == Some(
                    GlObject::VertexArray { handle, owner: (*m).owner },
                ) && (*final(m)).deleted
            },
        forall|m: &mut QueryMeta|
            #[trigger] call_ensures(QueryMeta::take_for_delete, (m,), object) ==> {
                &&& (*final(m)).gl_handle is None
                &&& (*m).gl_handle is None ==> object is None
                &&& (*m).gl_handle matches Some(handle) ==> object == Some(
                    GlObject::Query { handle, owner: (*m).owner },
                ) && (*final(m)).deleted
            },
        forall|m: &mut TransformFeedbackMeta|
            #[trigger] call_ensures(TransformFeedbackMeta::take_for_delete, (m,), object) ==> {
                &&& (*final(m)).gl_handle is None
                &&& (*m).gl_handle is None ==> object is None
                &&& (*m).gl_handle matches Some(handle) ==> object == Some(
                    GlObject::TransformFeedback { handle, owner: (*m).owner },
                ) && (*final(m)).deleted
            },
{
}

/// A canvas that goes takes the names of its own objects, and the objects of others stay on the
/// books.
pub proof fn law_what_a_canvas_takes_along(metas: Seq<SharedMeta>, canvas: u32, i: int)
    requires
        0 <= i < metas.len(),
    ensures
        metas[i].owner_canvas == Some(canvas) && metas[i].gl_handle is Some ==> owned_handles(
            metas,
            canvas,
        ).contains(metas[i].gl_handle->0),
        metas[i].owner_canvas != Some(canvas) ==> unowned(metas, canvas).contains(metas[i]),
        forall|j: int|
            0 <= j < unowned(metas, canvas).len() ==> (#[trigger] unowned(
                metas,
                canvas,
            )[j]).owner_canvas != Some(canvas),
    decreases metas.len(),
{
    let rest = metas.drop_last();
    let handles = owned_handles(rest, canvas);
    let others = unowned(rest, canvas);
    if rest.len() > 0 {
        let k = if i < rest.len() {
            i
        } else {
            0
        };
        law_what_a_canvas_takes_along(rest, canvas, k);
        assert(rest[k] == metas[k]);
        if handles.contains(metas[k].gl_handle->0) {
            let at = handles.index_of(metas[k].gl_handle->0);
            if owned_handles(metas, canvas).len() > handles.len() {
                assert(owned_handles(metas, canvas)[at] == handles[at]);
            }
        }
        if others.contains(metas[k]) {
            let at = others.index_of(metas[k]);
            if unowned(metas, canvas).len() > others.len() {
                assert(unowned(metas, canvas)[at] == others[at]);
            }
        }
    } else {
        assert(others.len() == 0);
    }
    if i == rest.len() {
        assert(metas.last() == metas[i]);
        if metas[i].owner_canvas == Some(canvas) && metas[i].gl_handle is Some {
            assert(owned_handles(metas, canvas).last() == metas[i].gl_handle->0);
        }
        if metas[i].owner_canvas != Some(canvas) {
            assert(unowned(metas, canvas).last() == metas[i]);
        }
    }
}

/// A program that is linked waits once, behind those that wait already; a program that is not
/// known never waits, and one that is forgotten waits no more.
pub proof fn law_a_link_waits_once(id: u32, other: u32)
    ensures
        forall|q: &mut LinkQueue|
            #[trigger] call_ensures(LinkQueue::mark_link_pending, (q, id), ()) ==> {
                let before = (*q)@;
                let after = (*final(q))@;
                &&& !before.programs.contains(id) ==> after.pending == before.pending
                &&& before.pending.contains(id) ==> after.pending == before.pending
                &&& before.programs.contains(id) && !before.pending.contains(id)
                    ==> after.pending.len() == before.pending.len() + 1 && after.pending.last()
                    == id && after.pending.drop_last() =~= before.pending
                &&& after.programs == before.programs
            },
        forall|q: &mut LinkQueue|
            #[trigger] call_ensures(LinkQueue::forget_pending_link, (q, id), ()) ==> {
                let before = (*q)@;
                let after = (*final(q))@;
                &&& !after.pending.contains(id)
                &&& other != id ==> after.pending.contains(other) == before.pending.contains(other)
                &&& after.programs == before.programs
            },
{
    assert forall|q: &mut LinkQueue|
        #[trigger] call_ensures(LinkQueue::forget_pending_link, (q, id), ()) implies {
        let before = (*q)@;
        let after = (*final(q))@;
        &&& !after.pending.contains(id)
        &&& other != id ==> after.pending.contains(other) == before.pending.contains(other)
    } by {
        lemma_what_is_left((*q)@.pending, id, id);
        lemma_what_is_left((*q)@.pending, id, other);
    }
}

proof fn lemma_what_is_left(pending: Seq<u32>, id: u32, x: u32)
    ensures
        without(pending, id).contains(x) == (pending.contains(x) && x != id),
    decreases pending.len(),
{
    if pending.len() > 0 {
        let rest = pending.drop_last();
        let last = pending.last();
        lemma_what_is_left(rest, id, x);
        let left = without(rest, id);
        assert(pending.contains(x) == (rest.contains(x) || x == last)) by {
            if rest.contains(x) {
                let k = rest.index_of(x);
                assert(pending[k] == x);
            }
            if x == last {
                assert(pending[pending.len() - 1] == x);
            }
            if pending.contains(x) && x != last {
                let k = pending.index_of(x);
                assert(rest[k] == x);
            }
        }
        let longer = left.push(last);
        assert(longer.contains(x) == (left.contains(x) || x == last)) by {
            if left.contains(x) {
                let k = left.index_of(x);
                assert(longer[k] == x);
            }
            if x == last {
                assert(longer[left.len() as int] == x);
            }
            if longer.contains(x) && x != last {
                let k = longer.index_of(x);
                assert(left[k] == x);
            }
        }
    }
}

/// The objects that a canvas takes are its own, and those that stay are the others'.
pub proof fn law_a_canvas_takes_its_own_objects(canvas: u32, handles: Vec<u32>, i: int)
    ensures
        forall|objects: &mut SharedObjects|
            #[trigger] call_ensures(SharedObjects::take_owned, (objects, canvas), handles) ==> {
                let before = (*objects)@;
                let after = (*final(objects))@;
                0 <= i < before.len() ==> {
                    &&& before[i].owner_canvas == Some(canvas) && before[i].gl_handle is Some
                        ==> handles@.contains(before[i].gl_handle->0)
                    &&& before[i].owner_canvas != Some(canvas) ==> after.contains(before[i])
                }
            },
{
    assert forall|objects: &mut SharedObjects|
        #[trigger] call_ensures(SharedObjects::take_owned, (objects, canvas), handles) implies {
        let before = (*objects)@;
        let after = (*final(objects))@;
        0 <= i < before.len() ==> {
            &&& before[i].owner_canvas == Some(canvas) && before[i].gl_handle is Some
                ==> handles@.contains(before[i].gl_handle->0)
            &&& before[i].owner_canvas != Some(canvas) ==> after.contains(before[i])
        }
    } by {
        if 0 <= i < (*objects)@.len() {
            law_what_a_canvas_takes_along((*objects)@, canvas, i);
        }
    }
}

} // verus!

//! The request-facing side: the cache of finished previews, the scenes that a
//! render has been claimed for, and the queue of those that wait for a slot.

use crate::scene::{handle_scene_id, scene_id_of, SceneId};
use crate::tables::{
    handle_map_any_key, handle_map_get, handle_map_insert, handle_map_len, handle_map_new,
    handle_map_remove, lookup, scene_set_contains, scene_set_insert, scene_set_new,
    scene_set_remove, HandleMap, SceneSet,
};
use bevy::asset::UntypedHandle;
use vstd::prelude::*;

verus! {

/// What the cache holds, as mathematical maps and sets.
pub struct CacheView {
    /// The finished previews: for each scene the image that it was rendered
    /// into.
    pub cached: Map<SceneId, UntypedHandle>,
    /// The scenes that a render has been claimed for and that are not cached
    /// yet: they wait in the queue or occupy a slot.
    pub rendering: Set<SceneId>,
    /// The scenes that wait for a slot, each with the handle that keeps it
    /// loaded.
    pub queued: Map<SceneId, UntypedHandle>,
}

impl CacheView {
    /// The cache with nothing in it.
    pub open spec fn empty() -> CacheView {
        CacheView { cached: Map::empty(), rendering: Set::empty(), queued: Map::empty() }
    }

    /// All three collections are finite.
    pub open spec fn finite(self) -> bool {
        &&& self.cached.dom().finite()
        &&& self.rendering.finite()
        &&& self.queued.dom().finite()
    }

    /// The cache after a request for the preview of `id`. A scene that is cached
    /// or already claimed leaves the cache as it is; any other is claimed and
    /// put in the queue with its handle.
    pub open spec fn request(self, id: SceneId, handle: UntypedHandle) -> CacheView {
        if self.cached.contains_key(id) || self.rendering.contains(id) {
            self
        } else {
            CacheView {
                cached: self.cached,
                rendering: self.rendering.insert(id),
                queued: self.queued.insert(id, handle),
            }
        }
    }

    /// The cache after `id` has left the queue for a slot. It stays claimed.
    pub open spec fn dequeue(self, id: SceneId) -> CacheView {
        CacheView { cached: self.cached, rendering: self.rendering, queued: self.queued.remove(id) }
    }

    /// The cache after the render of `id` into `target` has completed: the claim
    /// is dropped and the preview is cached.
    pub open spec fn complete(self, id: SceneId, target: UntypedHandle) -> CacheView {
        CacheView {
            cached: self.cached.insert(id, target),
            rendering: self.rendering.remove(id),
            queued: self.queued,
        }
    }
}

/// The previews that have been rendered, the scenes in flight and the queue.
pub struct PrerenderedScenes {
    rendered: HandleMap,
    rendering: SceneSet,
    queue: HandleMap,
}

impl View for PrerenderedScenes {
    type V = CacheView;

    closed spec fn view(&self) -> CacheView {
        CacheView { cached: self.rendered@, rendering: self.rendering@, queued: self.queue@ }
    }
}

impl Default for PrerenderedScenes {
    fn default() -> (scenes: PrerenderedScenes)
        ensures
            scenes.wf(),
            scenes@ == CacheView::empty(),
    {
        PrerenderedScenes::new()
    }
}

impl PrerenderedScenes {
    /// The invariant of the cache.
    pub open spec fn wf(&self) -> bool {
        self@.finite()
    }

    /// A cache with nothing in it.
    pub fn new() -> (scenes: PrerenderedScenes)
        ensures
            scenes.wf(),
            scenes@ == CacheView::empty(),
    {
        PrerenderedScenes {
            rendered: handle_map_new(),
            rendering: scene_set_new(),
            queue: handle_map_new(),
        }
    }

    /// Returns the preview of the scene `id` if it is cached. If not, and no
    /// render of it has been claimed yet, claims one and puts the scene in the
    /// queue with `handle`.
    pub fn request(&mut self, id: SceneId, handle: UntypedHandle) -> (preview: Option<
        UntypedHandle,
    >)
        requires
            old(self).wf(),
        ensures
            final(self).wf(),
            final(self)@ == old(self)@.request(id, handle),
            preview == lookup(old(self)@.cached, id),
    {
        match handle_map_get(&self.rendered, id) {
            Some(target) => Some(target),
            None => {
                if !scene_set_contains(&self.rendering, id) {
                    handle_map_insert(&mut self.queue, id, handle);
                    scene_set_insert(&mut self.rendering, id);
                }
                None
            },
        }
    }

    /// Returns the preview of the scene behind `handle` if it is cached, and
    /// schedules its rendering if not: [`Self::request`] for the identity that
    /// the handle carries. The handle is taken for a handle to a scene; which
    /// type of asset it was made for is not looked at.
    pub fn get_or_schedule(&mut self, handle: UntypedHandle) -> (preview: Option<UntypedHandle>)
        requires
            old(self).wf(),
        ensures
            final(self).wf(),
            final(self)@ == old(self)@.request(scene_id_of(handle), handle),
            preview == lookup(old(self)@.cached, scene_id_of(handle)),
    {
        let id = handle_scene_id(&handle);
        self.request(id, handle)
    }

    /// Takes a scene out of the queue, if there is one. Which one is not
    /// determined.
    pub fn pop_queued(&mut self) -> (popped: Option<(SceneId, UntypedHandle)>)
        requires
            old(self).wf(),
        ensures
            final(self).wf(),
            match popped {
                Some((id, handle)) => {
                    &&& old(self)@.queued.contains_key(id)
                    &&& old(self)@.queued[id] == handle
                    &&& final(self)@ == old(self)@.dequeue(id)
                },
                None => old(self)@.queued.len() == 0 && final(self)@ == old(self)@,
            },
    {
        match handle_map_any_key(&self.queue) {
            Some(id) => match handle_map_remove(&mut self.queue, id) {
                Some(handle) => Some((id, handle)),
                None => None,
            },
            None => None,
        }
    }

    /// Records that the render of `id` into `target` has completed.
    pub fn complete(&mut self, id: SceneId, target: UntypedHandle)
        requires
            old(self).wf(),
        ensures
            final(self).wf(),
            final(self)@ == old(self)@.complete(id, target),
    {
        scene_set_remove(&mut self.rendering, id);
        handle_map_insert(&mut self.rendered, id, target);
    }

    /// The number of cached previews.
    pub fn rendered_count(&self) -> (count: usize)
        ensures
            count == self@.cached.len(),
    {
        handle_map_len(&self.rendered)
    }

    /// The number of scenes that wait for a slot.
    pub fn queued_count(&self) -> (count: usize)
        ensures
            count == self@.queued.len(),
    {
        handle_map_len(&self.queue)
    }

    /// Tells whether a render of `id` has been claimed and has not completed.
    pub fn is_rendering(&self, id: SceneId) -> (claimed: bool)
        ensures
            claimed == self@.rendering.contains(id),
    {
        scene_set_contains(&self.rendering, id)
    }

    /// The cached preview of `id`, if there is one. Nothing is scheduled.
    pub fn rendered(&self, id: SceneId) -> (preview: Option<UntypedHandle>)
        ensures
            preview == lookup(self@.cached, id),
    {
        handle_map_get(&self.rendered, id)
    }
}

} // verus!

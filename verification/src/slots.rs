//! The pool of render slots.
//!
//! A slot is a camera and a light that see one visibility layer of their own,
//! and it renders one scene instance at a time into one image. The pool hands
//! out the free slot of lowest index, counts the ready ticks of each occupant,
//! and remembers whether the occupant's entities have been moved to the slot's
//! layer.

use crate::host::{despawn_entity, spawn_camera, spawn_light, MAX_RENDER_LAYER};
use crate::scene::SceneId;
use crate::settings::PreviewSettings;
use bevy::asset::UntypedHandle;
use bevy::ecs::entity::Entity;
use bevy::ecs::system::Commands;
use bevy::scene::InstanceId;
use bevy::transform::components::Transform;
use vstd::prelude::*;

verus! {

/// Names the slot whose camera renders a preview.
#[derive(Clone, Copy, Debug, PartialEq, Eq, Structural)]
pub struct PreviewRenderView {
    /// The index of the slot.
    pub layer: usize,
}

/// Counts the ticks on which the occupant of a slot was found ready.
#[derive(Clone, Copy, Debug, PartialEq, Eq, Structural)]
pub struct PreviewRenderedFrames {
    /// The number of ready ticks so far.
    pub cur_frame: u32,
}

impl Default for PreviewRenderedFrames {
    fn default() -> (frames: PreviewRenderedFrames)
        ensures
            frames.cur_frame == 0,
    {
        PreviewRenderedFrames { cur_frame: 0 }
    }
}

/// Signals that the render in a slot has settled.
#[derive(Clone, Copy, Debug, PartialEq, Eq, Structural)]
pub struct PreviewRendered {
    /// The index of the slot.
    pub layer: usize,
}

/// What an occupied slot holds.
pub struct Slot {
    /// The scene that is rendered.
    pub scene: SceneId,
    /// The handle that keeps the scene loaded.
    pub scene_handle: UntypedHandle,
    /// The instantiation of the scene.
    pub instance: InstanceId,
    /// The image that the slot's camera renders into.
    pub render_target: UntypedHandle,
    /// The slot's light.
    pub light: Entity,
    /// The slot's camera.
    pub camera: Entity,
    /// Whether the instance's entities have been moved to the slot's layer.
    pub applied_layer: bool,
    /// The count of ready ticks; absent once the render has settled.
    pub frames: Option<PreviewRenderedFrames>,
}

/// Every slot is occupied.
pub open spec fn all_occupied(slots: Seq<Option<Slot>>) -> bool {
    forall|i: int| 0 <= i < slots.len() ==> (#[trigger] slots[i]) is Some
}

/// The number of free slots.
pub open spec fn free_count(slots: Seq<Option<Slot>>) -> nat
    decreases slots.len(),
{
    if slots.len() == 0 {
        0
    } else {
        free_count(slots.drop_last()) + if slots.last() is None {
            1nat
        } else {
            0nat
        }
    }
}

/// Filling or freeing one slot changes the number of free slots by that slot
/// alone.
pub proof fn lemma_free_count_update(slots: Seq<Option<Slot>>, i: int, slot: Option<Slot>)
    requires
        0 <= i < slots.len(),
    ensures
        free_count(slots.update(i, slot)) + (if slots[i] is None {
            1int
        } else {
            0int
        }) == free_count(slots) + (if slot is None {
            1int
        } else {
            0int
        }),
    decreases slots.len(),
{
    let updated = slots.update(i, slot);
    if i == slots.len() - 1 {
        assert(updated.drop_last() =~= slots.drop_last());
    } else {
        assert(updated.drop_last() =~= slots.drop_last().update(i, slot));
        lemma_free_count_update(slots.drop_last(), i, slot);
    }
}

/// No slot is free exactly when every slot is occupied, and there are never
/// more free slots than slots.
pub proof fn lemma_free_count_bounds(slots: Seq<Option<Slot>>)
    ensures
        free_count(slots) <= slots.len(),
        free_count(slots) == 0 <==> all_occupied(slots),
    decreases slots.len(),
{
    if slots.len() > 0 {
        let front = slots.drop_last();
        lemma_free_count_bounds(front);
        if all_occupied(slots) {
            assert forall|j: int| 0 <= j < front.len() implies (#[trigger] front[j]) is Some by {
                assert(slots[j] is Some);
            }
        }
        if free_count(slots) == 0 {
            assert forall|j: int| 0 <= j < slots.len() implies (#[trigger] slots[j]) is Some by {
                if j < front.len() {
                    assert(front[j] is Some);
                }
            }
        }
    }
}

/// `i` is the lowest index of a free slot.
pub open spec fn is_lowest_free(slots: Seq<Option<Slot>>, i: int) -> bool {
    &&& 0 <= i < slots.len()
    &&& slots[i] is None
    &&& forall|j: int| 0 <= j < i ==> (#[trigger] slots[j]) is Some
}

/// `slot` is what a slot holds right after it was occupied with these four: no
/// ready tick counted yet, the entities not yet moved to the slot's layer.
pub open spec fn newly_occupied(
    slot: Slot,
    scene: SceneId,
    scene_handle: UntypedHandle,
    instance: InstanceId,
    render_target: UntypedHandle,
) -> bool {
    &&& slot.scene == scene
    &&& slot.scene_handle == scene_handle
    &&& slot.instance == instance
    &&& slot.render_target == render_target
    &&& !slot.applied_layer
    &&& slot.frames == Some(PreviewRenderedFrames { cur_frame: 0 })
}

/// A count of ready ticks stays below the threshold: a count that reaches it is
/// removed at once.
pub open spec fn counter_in_range(slot: Option<Slot>, threshold: u32) -> bool {
    slot matches Some(s) ==> (s.frames matches Some(f) ==> f.cur_frame == 0 || f.cur_frame
        < threshold)
}

/// Whether a tick on which the occupant is found `ready` or not settles the
/// render in `slot`: the occupant is ready, its ticks are still counted, and this
/// one brings the count to the threshold.
pub open spec fn settles(slot: Option<Slot>, ready: bool, threshold: u32) -> bool {
    &&& ready
    &&& slot matches Some(s)
    &&& s.frames matches Some(f)
    &&& f.cur_frame + 1 >= threshold
}

/// The slot after a tick of the settle detector. A tick without readiness
/// changes nothing; a ready tick is counted, and the counter is removed when the
/// count reaches the threshold.
pub open spec fn after_tick(slot: Option<Slot>, ready: bool, threshold: u32) -> Option<Slot> {
    match slot {
        Some(s) => match s.frames {
            Some(f) => if !ready {
                slot
            } else if f.cur_frame + 1 >= threshold {
                Some(Slot { frames: None, ..s })
            } else {
                Some(
                    Slot {
                        frames: Some(PreviewRenderedFrames { cur_frame: (f.cur_frame + 1) as u32 }),
                        ..s
                    },
                )
            },
            None => slot,
        },
        None => slot,
    }
}

/// Whether the layer tagger, finding the occupant `ready` or not, moves its
/// entities to the slot's layer now: only if it is ready and this has not been
/// done during this occupation.
pub open spec fn tags(slot: Option<Slot>, ready: bool) -> bool {
    &&& ready
    &&& slot matches Some(s)
    &&& !s.applied_layer
}

/// The slot after the layer tagger has looked at it.
pub open spec fn after_tagging(slot: Option<Slot>, ready: bool) -> Option<Slot> {
    match slot {
        Some(s) => if ready && !s.applied_layer {
            Some(Slot { applied_layer: true, ..s })
        } else {
            slot
        },
        None => slot,
    }
}

/// The render has settled in `slot` and its completion has not been handled.
pub open spec fn is_settled(slot: Option<Slot>) -> bool {
    slot matches Some(s) && s.frames is None
}

/// The pool of render slots.
pub struct PreviewSceneState {
    base_layer: usize,
    settle_frames: u32,
    light_pose: Transform,
    camera_pose: Transform,
    slots: Vec<Option<Slot>>,
}

impl View for PreviewSceneState {
    type V = Seq<Option<Slot>>;

    /// The slots by index, `None` for a free one.
    closed spec fn view(&self) -> Seq<Option<Slot>> {
        self.slots@
    }
}

impl PreviewSceneState {
    /// The visibility layer of slot 0.
    pub closed spec fn base_layer(&self) -> usize {
        self.base_layer
    }

    /// The number of ready ticks after which a render counts as settled.
    pub closed spec fn settle_frames(&self) -> u32 {
        self.settle_frames
    }

    /// Where lights are placed.
    pub closed spec fn light_pose(&self) -> Transform {
        self.light_pose
    }

    /// Where cameras are placed.
    pub closed spec fn camera_pose(&self) -> Transform {
        self.camera_pose
    }

    /// The pool's invariant: every slot's layer can be handed to the renderer,
    /// and every count of ready ticks is in range.
    pub open spec fn wf(&self) -> bool {
        &&& self.base_layer() + self@.len() <= MAX_RENDER_LAYER + 1
        &&& forall|i: int|
            0 <= i < self@.len() ==> counter_in_range(#[trigger] self@[i], self.settle_frames())
    }

    /// The pool has the same options and poses as `other`.
    pub open spec fn same_setup(&self, other: &PreviewSceneState) -> bool {
        &&& self.base_layer() == other.base_layer()
        &&& self.settle_frames() == other.settle_frames()
        &&& self.light_pose() == other.light_pose()
        &&& self.camera_pose() == other.camera_pose()
        &&& self@.len() == other@.len()
    }

    /// A pool of `settings.slot_count` free slots. Lights and cameras will be
    /// placed at the two poses.
    pub fn new(settings: &PreviewSettings, light_pose: Transform, camera_pose: Transform) -> (pool:
        PreviewSceneState)
        requires
            settings.layers_fit(),
        ensures
            pool.wf(),
            pool@ == Seq::new(settings.slot_count as nat, |i: int| None::<Slot>),
            pool.base_layer() == settings.base_layer,
            pool.settle_frames() == settings.settle_frames,
            pool.light_pose() == light_pose,
            pool.camera_pose() == camera_pose,
    {
        let mut slots: Vec<Option<Slot>> = Vec::new();
        while slots.len() < settings.slot_count
            invariant
                slots@.len() <= settings.slot_count,
                forall|i: int| 0 <= i < slots@.len() ==> (#[trigger] slots@[i]) is None,
            decreases settings.slot_count - slots@.len(),
        {
            slots.push(None);
        }
        PreviewSceneState {
            base_layer: settings.base_layer,
            settle_frames: settings.settle_frames,
            light_pose,
            camera_pose,
            slots,
        }
    }

    /// The number of slots.
    pub fn slot_count(&self) -> (count: usize)
        ensures
            count == self@.len(),
    {
        self.slots.len()
    }

    /// What slot `layer` holds, if it is occupied.
    pub fn slot(&self, layer: usize) -> (occupant: Option<&Slot>)
        ensures
            match occupant {
                Some(s) => layer < self@.len() && self@[layer as int] == Some(*s),
                None => layer >= self@.len() || self@[layer as int] is None,
            },
    {
        if layer < self.slots.len() {
            self.slots[layer].as_ref()
        } else {
            None
        }
    }

    /// The visibility layer of slot `layer`.
    pub fn render_layer(&self, layer: usize) -> (number: usize)
        requires
            self.wf(),
            layer < self@.len(),
        ensures
            number == self.base_layer() + layer,
            number <= MAX_RENDER_LAYER,
    {
        self.base_layer + layer
    }

    /// The number of free slots.
    pub fn free_slots(&self) -> (count: usize)
        ensures
            count == free_count(self@),
    {
        let mut count: usize = 0;
        let mut i: usize = 0;
        while i < self.slots.len()
            invariant
                i <= self.slots@.len(),
                count == free_count(self.slots@.take(i as int)),
                count <= i,
            decreases self.slots@.len() - i,
        {
            proof {
                assert(self.slots@.take(i + 1).drop_last() =~= self.slots@.take(i as int));
            }
            if self.slots[i].is_none() {
                count += 1;
            }
            i += 1;
        }
        proof {
            assert(self.slots@.take(i as int) =~= self.slots@);
        }
        count
    }

    /// The lowest index of a free slot.
    fn lowest_free(&self) -> (found: Option<usize>)
        ensures
            match found {
                Some(i) => is_lowest_free(self@, i as int),
                None => all_occupied(self@),
            },
    {
        let mut i: usize = 0;
        while i < self.slots.len()
            invariant
                i <= self.slots@.len(),
                forall|j: int| 0 <= j < i ==> (#[trigger] self.slots@[j]) is Some,
            decreases self.slots@.len() - i,
        {
            if self.slots[i].is_none() {
                return Some(i);
            }
            i += 1;
        }
        None
    }

    /// Tells whether no slot is free.
    pub fn is_full(&self) -> (full: bool)
        ensures
            full == all_occupied(self@),
    {
        self.lowest_free().is_none()
    }

    /// Occupies the free slot of lowest index with a scene, its instance and the
    /// image to render into, and queues the spawning of the slot's light and
    /// camera, which see the slot's layer alone. With no slot free nothing
    /// happens and `None` is returned.
    pub fn occupy(
        &mut self,
        scene: SceneId,
        scene_handle: UntypedHandle,
        instance: InstanceId,
        render_target: UntypedHandle,
        commands: &mut Commands,
    ) -> (view: Option<PreviewRenderView>)
        requires
            old(self).wf(),
        ensures
            final(self).wf(),
            final(self).same_setup(old(self)),
            match view {
                Some(v) => {
                    &&& is_lowest_free(old(self)@, v.layer as int)
                    &&& final(self)@ == old(self)@.update(v.layer as int, final(self)@[v.layer as int])
                    &&& final(self)@[v.layer as int] matches Some(s)
                    &&& newly_occupied(s, scene, scene_handle, instance, render_target)
                },
                None => all_occupied(old(self)@) && final(self)@ == old(self)@,
            },
    {
        match self.lowest_free() {
            Some(layer) => {
                let number = self.render_layer(layer);
                let light = spawn_light(commands, self.light_pose, number);
                let camera = spawn_camera(commands, self.camera_pose, &render_target, number);
                let slot = Slot {
                    scene,
                    scene_handle,
                    instance,
                    render_target,
                    light,
                    camera,
                    applied_layer: false,
                    frames: Some(PreviewRenderedFrames { cur_frame: 0 }),
                };
                self.slots.set(layer, Some(slot));
                Some(PreviewRenderView { layer })
            },
            None => None,
        }
    }

    /// Releases slot `layer`: queues the removal of its light and camera and
    /// marks it free. The slot must be occupied.
    pub fn free(&mut self, layer: usize, commands: &mut Commands)
        requires
            old(self).wf(),
            layer < old(self)@.len(),
            old(self)@[layer as int] is Some,
        ensures
            final(self).wf(),
            final(self).same_setup(old(self)),
            final(self)@ == old(self)@.update(layer as int, None),
    {
        match &self.slots[layer] {
            Some(slot) => {
                despawn_entity(commands, slot.light);
                despawn_entity(commands, slot.camera);
            },
            None => {},
        }
        self.slots.set(layer, None);
    }

    /// One tick of the settle detector on slot `layer`, whose occupant was found
    /// `ready` or not. Returns the completion signal if this tick settles the
    /// render. A `layer` that names no slot changes nothing.
    pub fn count_frame(&mut self, layer: usize, ready: bool) -> (signal: Option<PreviewRendered>)
        requires
            old(self).wf(),
        ensures
            final(self).wf(),
            final(self).same_setup(old(self)),
            layer < old(self)@.len() ==> final(self)@ == old(self)@.update(
                layer as int,
                after_tick(old(self)@[layer as int], ready, old(self).settle_frames()),
            ),
            layer >= old(self)@.len() ==> final(self)@ == old(self)@,
            signal == (if layer < old(self)@.len() && settles(
                old(self)@[layer as int],
                ready,
                old(self).settle_frames(),
            ) {
                Some(PreviewRendered { layer })
            } else {
                None
            }),
    {
        if layer >= self.slots.len() || !ready {
            return None;
        }
        let mut taken: Option<Slot> = None;
        self.slots.set_and_swap(layer, &mut taken);
        match taken {
            Some(slot) => match slot.frames {
                Some(frames) => {
                    if frames.cur_frame + 1 >= self.settle_frames {
                        self.slots.set(layer, Some(Slot { frames: None, ..slot }));
                        Some(PreviewRendered { layer })
                    } else {
                        let counted = PreviewRenderedFrames { cur_frame: frames.cur_frame + 1 };
                        self.slots.set(layer, Some(Slot { frames: Some(counted), ..slot }));
                        None
                    }
                },
                None => {
                    self.slots.set(layer, Some(slot));
                    None
                },
            },
            None => {
                None
            },
        }
    }

    /// The layer tagger's decision on slot `layer`, whose occupant was found
    /// `ready` or not. Returns whether the occupant's entities are to be moved
    /// to the slot's layer now, and records that this has been done. A `layer`
    /// that names no slot changes nothing.
    pub fn apply_layer(&mut self, layer: usize, ready: bool) -> (tagged: bool)
        requires
            old(self).wf(),
        ensures
            final(self).wf(),
            final(self).same_setup(old(self)),
            layer < old(self)@.len() ==> final(self)@ == old(self)@.update(
                layer as int,
                after_tagging(old(self)@[layer as int], ready),
            ),
            layer >= old(self)@.len() ==> final(self)@ == old(self)@,
            tagged == (layer < old(self)@.len() && tags(old(self)@[layer as int], ready)),
    {
        if layer >= self.slots.len() || !ready {
            return false;
        }
        let mut taken: Option<Slot> = None;
        self.slots.set_and_swap(layer, &mut taken);
        match taken {
            Some(slot) => {
                let tagged = !slot.applied_layer;
                self.slots.set(layer, Some(Slot { applied_layer: true, ..slot }));
                assert(self@ =~= old(self)@.update(
                    layer as int,
                    after_tagging(old(self)@[layer as int], ready),
                ));
                tagged
            },
            None => {
                false
            },
        }
    }
}

} // verus!

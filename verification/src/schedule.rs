//! The steps of a scheduling tick: starting queued scenes in free slots,
//! handling completion signals, counting ready ticks and tagging layers.

use crate::cache::PrerenderedScenes;
use crate::host::{despawn_instance, instance_entities, instance_is_ready, spawn_scene, tag_entities};
use crate::laws::{
    consistent, lemma_drain_consistent, lemma_in_flight_bounded, lemma_starts_consistent,
    scenes_in_flight,
};
use crate::model::{
    before_start, drain, drained_scenes, found_ready, min3, readiness, settled_signals, starts,
    startable_count, tagged, tagged_views, ticked, Previews,
};
use crate::scene::{clone_handle, SceneId};
use crate::slots::{
    after_tagging, after_tick, free_count, lemma_free_count_bounds, lemma_free_count_update,
    PreviewRendered, PreviewRenderView, PreviewSceneState,
};
use bevy::asset::UntypedHandle;
use bevy::ecs::system::Commands;
use bevy::scene::{InstanceId, SceneSpawner};
use vstd::prelude::*;

verus! {

/// The cache and the pool as one state.
pub open spec fn previews_of(prerendered: &PrerenderedScenes, scene_state: &PreviewSceneState)
    -> Previews {
    Previews { cache: prerendered@, slots: scene_state@ }
}

/// Starts queued scenes in free slots for as long as a slot is free, a scene is
/// queued and an image is left in `targets`. For each start a scene is taken
/// from the queue, its instantiation is requested from the spawner, the last
/// image is taken from `targets`, and the free slot of lowest index is occupied
/// with the three. Returns the slots that were occupied, in this order.
pub fn start_queued(
    prerendered: &mut PrerenderedScenes,
    scene_state: &mut PreviewSceneState,
    scene_spawner: &mut SceneSpawner,
    commands: &mut Commands,
    targets: &mut Vec<UntypedHandle>,
) -> (views: Vec<PreviewRenderView>)
    requires
        old(prerendered).wf(),
        old(scene_state).wf(),
    ensures
        final(prerendered).wf(),
        final(scene_state).wf(),
        final(scene_state).same_setup(old(scene_state)),
        starts(
            previews_of(old(prerendered), old(scene_state)),
            previews_of(final(prerendered), final(scene_state)),
            old(targets)@,
            views@,
        ),
        views@.len() == min3(
            free_count(old(scene_state)@) as int,
            old(prerendered)@.queued.len() as int,
            old(targets)@.len() as int,
        ),
        old(targets)@.len() >= startable_count(previews_of(old(prerendered), old(scene_state)))
            ==> views@.len() == startable_count(previews_of(old(prerendered), old(scene_state))),
        final(targets)@ == old(targets)@.take(old(targets)@.len() - views@.len()),
        scenes_in_flight(final(scene_state)@).len() <= old(scene_state)@.len(),
        consistent(previews_of(old(prerendered), old(scene_state))) ==> consistent(
            previews_of(final(prerendered), final(scene_state)),
        ),
{
    let ghost start = previews_of(prerendered, scene_state);
    let ghost setup = *scene_state;
    let ghost targets0 = targets@;
    let mut views: Vec<PreviewRenderView> = Vec::new();
    loop
        invariant
            prerendered.wf(),
            scene_state.wf(),
            scene_state.same_setup(&setup),
            start.cache.finite(),
            starts(start, previews_of(prerendered, scene_state), targets0, views@),
            views@.len() + targets@.len() == targets0.len(),
            targets@ == targets0.take(targets@.len() as int),
            free_count(scene_state@) + views@.len() == free_count(start.slots),
            prerendered@.queued.len() + views@.len() == start.cache.queued.len(),
        ensures
            free_count(scene_state@) == 0 || targets@.len() == 0 || prerendered@.queued.len() == 0,
        decreases targets@.len(),
    {
        proof {
            lemma_free_count_bounds(scene_state@);
        }
        if scene_state.is_full() || targets.len() == 0 {
            break ;
        }
        let ghost earlier = previews_of(prerendered, scene_state);
        let ghost earlier_views = views@;
        match prerendered.pop_queued() {
            None => {
                break ;
            },
            Some((scene, handle)) => {
                let instance = spawn_scene(scene_spawner, &handle);
                match targets.pop() {
                    Some(target) => {
                        match scene_state.occupy(scene, handle, instance, target, commands) {
                            Some(view) => {
                                views.push(view);
                                proof {
                                    let now = previews_of(prerendered, scene_state);
                                    let layer = view.layer as int;
                                    lemma_free_count_update(earlier.slots, layer, now.slots[layer]);
                                    assert(before_start(now, layer).slots =~= earlier.slots);
                                    assert(before_start(now, layer).cache.queued
                                        =~= earlier.cache.queued);
                                    assert(views@.drop_last() =~= earlier_views);
                                }
                            },
                            None => {},
                        }
                    },
                    None => {},
                }
            },
        }
    }
    proof {
        lemma_in_flight_bounded(scene_state@);
        if consistent(start) {
            lemma_starts_consistent(start, previews_of(prerendered, scene_state), targets0, views@);
        }
    }
    views
}

/// Handles the completion signals in order. For each signal whose slot holds a
/// settled render, the scene is cached with the slot's image, the removal of its
/// instance is queued with the spawner, and the slot is released. Other signals
/// are passed over. Returns the scenes that were cached.
pub fn drain_finished(
    prerendered: &mut PrerenderedScenes,
    scene_state: &mut PreviewSceneState,
    scene_spawner: &mut SceneSpawner,
    commands: &mut Commands,
    finished: &Vec<PreviewRendered>,
) -> (completed: Vec<SceneId>)
    requires
        old(prerendered).wf(),
        old(scene_state).wf(),
    ensures
        final(prerendered).wf(),
        final(scene_state).wf(),
        final(scene_state).same_setup(old(scene_state)),
        previews_of(final(prerendered), final(scene_state)) == drain(
            previews_of(old(prerendered), old(scene_state)),
            finished@,
        ),
        completed@ == drained_scenes(previews_of(old(prerendered), old(scene_state)), finished@),
        consistent(previews_of(old(prerendered), old(scene_state))) ==> consistent(
            previews_of(final(prerendered), final(scene_state)),
        ),
{
    let ghost start = previews_of(prerendered, scene_state);
    let ghost setup = *scene_state;
    let mut completed: Vec<SceneId> = Vec::new();
    let mut i: usize = 0;
    while i < finished.len()
        invariant
            i <= finished@.len(),
            prerendered.wf(),
            scene_state.wf(),
            scene_state.same_setup(&setup),
            previews_of(prerendered, scene_state) == drain(start, finished@.take(i as int)),
            completed@ == drained_scenes(start, finished@.take(i as int)),
        decreases finished@.len() - i,
    {
        let layer = finished[i].layer;
        let settled: Option<(SceneId, InstanceId, UntypedHandle)> = match scene_state.slot(layer) {
            Some(slot) => if slot.frames.is_none() {
                Some((slot.scene, slot.instance, clone_handle(&slot.render_target)))
            } else {
                None
            },
            None => None,
        };
        match settled {
            Some((scene, instance, target)) => {
                prerendered.complete(scene, target);
                despawn_instance(scene_spawner, instance);
                scene_state.free(layer, commands);
                completed.push(scene);
            },
            None => {},
        }
        proof {
            assert(finished@.take(i + 1).drop_last() == finished@.take(i as int));
        }
        i += 1;
    }
    proof {
        assert(finished@.take(i as int) == finished@);
        if consistent(start) {
            lemma_drain_consistent(start, finished@);
        }
    }
    completed
}

/// What a tick did.
pub struct TickOutcome {
    /// The slots in which a scene was started, in the order of the starts.
    pub started: Vec<PreviewRenderView>,
    /// The scenes whose previews were cached, in the order of their signals.
    pub completed: Vec<SceneId>,
}

/// The number of queued scenes that the next tick can start: as many as there
/// are free slots, if so many are queued. A tick that is handed this many fresh
/// images starts this many scenes; with fewer images it starts one scene for
/// each image.
pub fn startable(prerendered: &PrerenderedScenes, scene_state: &PreviewSceneState) -> (count: usize)
    ensures
        count == startable_count(previews_of(prerendered, scene_state)),
{
    let free = scene_state.free_slots();
    let queued = prerendered.queued_count();
    if free <= queued {
        free
    } else {
        queued
    }
}

/// One scheduling tick in its two phases. First queued scenes are started in
/// free slots, as [`start_queued`] does it, with the images in `targets`. Then
/// the completion signals in `finished` are handled, as [`drain_finished`] does
/// it. A slot that the second phase releases is free from the next tick on.
pub fn update_queue(
    prerendered: &mut PrerenderedScenes,
    scene_state: &mut PreviewSceneState,
    scene_spawner: &mut SceneSpawner,
    commands: &mut Commands,
    targets: &mut Vec<UntypedHandle>,
    finished: &Vec<PreviewRendered>,
) -> (outcome: TickOutcome)
    requires
        old(prerendered).wf(),
        old(scene_state).wf(),
    ensures
        final(prerendered).wf(),
        final(scene_state).wf(),
        final(scene_state).same_setup(old(scene_state)),
        exists|mid: Previews|
            {
                &&& starts(
                    previews_of(old(prerendered), old(scene_state)),
                    mid,
                    old(targets)@,
                    outcome.started@,
                )
                &&& previews_of(final(prerendered), final(scene_state)) == #[trigger] drain(
                    mid,
                    finished@,
                )
                &&& outcome.completed@ == drained_scenes(mid, finished@)
            },
        outcome.started@.len() == min3(
            free_count(old(scene_state)@) as int,
            old(prerendered)@.queued.len() as int,
            old(targets)@.len() as int,
        ),
        old(targets)@.len() >= startable_count(previews_of(old(prerendered), old(scene_state)))
            ==> outcome.started@.len() == startable_count(
            previews_of(old(prerendered), old(scene_state)),
        ),
        final(targets)@ == old(targets)@.take(old(targets)@.len() - outcome.started@.len()),
        scenes_in_flight(final(scene_state)@).len() <= old(scene_state)@.len(),
        consistent(previews_of(old(prerendered), old(scene_state))) ==> consistent(
            previews_of(final(prerendered), final(scene_state)),
        ),
{
    let started = start_queued(prerendered, scene_state, scene_spawner, commands, targets);
    let ghost mid = previews_of(prerendered, scene_state);
    let completed = drain_finished(prerendered, scene_state, scene_spawner, commands, finished);
    proof {
        assert(previews_of(prerendered, scene_state) == drain(mid, finished@));
        lemma_in_flight_bounded(scene_state@);
    }
    TickOutcome { started, completed }
}

/// One tick of the settle detector. For every slot whose occupant's ready ticks
/// are still counted, the spawner is asked whether the instance is ready, and
/// the tick is counted if it is. Returns the completion signals of the slots
/// whose count reached the threshold, in the order of the slots.
pub fn update_preview_frames_counter(
    scene_state: &mut PreviewSceneState,
    scene_spawner: &SceneSpawner,
) -> (signals: Vec<PreviewRendered>)
    requires
        old(scene_state).wf(),
    ensures
        final(scene_state).wf(),
        final(scene_state).same_setup(old(scene_state)),
        final(scene_state)@ == ticked(
            old(scene_state)@,
            readiness(old(scene_state)@, *scene_spawner),
            old(scene_state).settle_frames(),
        ),
        signals@ == settled_signals(
            old(scene_state)@,
            readiness(old(scene_state)@, *scene_spawner),
            old(scene_state).settle_frames(),
            old(scene_state)@.len() as int,
        ),
{
    let ghost slots0 = scene_state@;
    let ghost setup = *scene_state;
    let ghost threshold = scene_state.settle_frames();
    let ghost ready = readiness(slots0, *scene_spawner);
    let mut signals: Vec<PreviewRendered> = Vec::new();
    let count = scene_state.slot_count();
    let mut layer: usize = 0;
    while layer < count
        invariant
            layer <= count,
            count == slots0.len(),
            ready == readiness(slots0, *scene_spawner),
            scene_state.wf(),
            scene_state.same_setup(&setup),
            threshold == setup.settle_frames(),
            scene_state@.len() == slots0.len(),
            forall|i: int|
                0 <= i < layer ==> #[trigger] scene_state@[i] == after_tick(
                    slots0[i],
                    ready[i],
                    threshold,
                ),
            forall|i: int| layer <= i < slots0.len() ==> #[trigger] scene_state@[i] == slots0[i],
            signals@ == settled_signals(slots0, ready, threshold, layer as int),
        decreases count - layer,
    {
        let counted: Option<InstanceId> = match scene_state.slot(layer) {
            Some(slot) => if slot.frames.is_some() {
                Some(slot.instance)
            } else {
                None
            },
            None => None,
        };
        match counted {
            Some(instance) => {
                let is_ready = instance_is_ready(scene_spawner, instance);
                assert(is_ready == found_ready(slots0[layer as int], *scene_spawner));
                match scene_state.count_frame(layer, is_ready) {
                    Some(signal) => {
                        signals.push(signal);
                    },
                    None => {},
                }
            },
            None => {},
        }
        layer += 1;
    }
    proof {
        assert(scene_state@ =~= ticked(slots0, ready, threshold));
    }
    signals
}

/// One pass of the layer tagger. For every slot whose occupant's entities have
/// not been moved to the slot's layer, the spawner is asked whether the
/// instance is ready; if it is, the insertion of the slot's layer on each of
/// the instance's entities is queued, and the slot remembers it. Returns the
/// slots that were tagged, in order.
pub fn change_render_layers(
    scene_state: &mut PreviewSceneState,
    scene_spawner: &SceneSpawner,
    commands: &mut Commands,
) -> (views: Vec<PreviewRenderView>)
    requires
        old(scene_state).wf(),
    ensures
        final(scene_state).wf(),
        final(scene_state).same_setup(old(scene_state)),
        final(scene_state)@ == tagged(
            old(scene_state)@,
            readiness(old(scene_state)@, *scene_spawner),
        ),
        views@ == tagged_views(
            old(scene_state)@,
            readiness(old(scene_state)@, *scene_spawner),
            old(scene_state)@.len() as int,
        ),
{
    let ghost slots0 = scene_state@;
    let ghost setup = *scene_state;
    let ghost ready = readiness(slots0, *scene_spawner);
    let mut views: Vec<PreviewRenderView> = Vec::new();
    let count = scene_state.slot_count();
    let mut layer: usize = 0;
    while layer < count
        invariant
            layer <= count,
            count == slots0.len(),
            ready == readiness(slots0, *scene_spawner),
            scene_state.wf(),
            scene_state.same_setup(&setup),
            scene_state@.len() == slots0.len(),
            forall|i: int|
                0 <= i < layer ==> #[trigger] scene_state@[i] == after_tagging(slots0[i], ready[i]),
            forall|i: int| layer <= i < slots0.len() ==> #[trigger] scene_state@[i] == slots0[i],
            views@ == tagged_views(slots0, ready, layer as int),
        decreases count - layer,
    {
        let untagged: Option<InstanceId> = match scene_state.slot(layer) {
            Some(slot) => if !slot.applied_layer {
                Some(slot.instance)
            } else {
                None
            },
            None => None,
        };
        match untagged {
            Some(instance) => {
                let is_ready = instance_is_ready(scene_spawner, instance);
                assert(is_ready == found_ready(slots0[layer as int], *scene_spawner));
                if scene_state.apply_layer(layer, is_ready) {
                    let entities = instance_entities(scene_spawner, instance);
                    let number = scene_state.render_layer(layer);
                    tag_entities(commands, entities, number);
                    views.push(PreviewRenderView { layer });
                }
            },
            None => {},
        }
        layer += 1;
    }
    proof {
        assert(scene_state@ =~= tagged(slots0, ready));
    }
    views
}

} // verus!

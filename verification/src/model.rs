//! The scheduler's state as one mathematical value, and the steps that a tick
//! is made of.

use crate::cache::CacheView;
use crate::scene::SceneId;
use crate::slots::{
    after_tagging, after_tick, free_count, is_lowest_free, is_settled, newly_occupied, settles, tags,
    PreviewRendered, PreviewRenderView, Slot,
};
use crate::host::instance_ready;
use bevy::asset::UntypedHandle;
use bevy::scene::SceneSpawner;
use vstd::prelude::*;

verus! {

/// The cache and the slots together.
pub struct Previews {
    /// What the cache holds.
    pub cache: CacheView,
    /// What the slots hold, by index.
    pub slots: Seq<Option<Slot>>,
}

/// The least of three numbers.
pub open spec fn min3(a: int, b: int, c: int) -> int {
    if a <= b && a <= c {
        a
    } else if b <= c {
        b
    } else {
        c
    }
}

/// The number of queued scenes that can be started at once: as many as there
/// are free slots, if so many are queued.
pub open spec fn startable_count(p: Previews) -> nat {
    if free_count(p.slots) <= p.cache.queued.len() {
        free_count(p.slots)
    } else {
        p.cache.queued.len()
    }
}

/// `after` is `before` with one scene moved from the queue into the free slot
/// of lowest index, which is `layer`, to be rendered into `target`. Which of the
/// queued scenes it is, and which instance, light and camera the slot got, can
/// be read off `after`.
pub open spec fn starts_one(before: Previews, after: Previews, layer: int, target: UntypedHandle)
    -> bool {
    &&& is_lowest_free(before.slots, layer)
    &&& after.slots == before.slots.update(layer, after.slots[layer])
    &&& after.slots[layer] matches Some(s)
    &&& before.cache.queued.contains_key(s.scene)
    &&& newly_occupied(s, s.scene, before.cache.queued[s.scene], s.instance, target)
    &&& after.cache == before.cache.dequeue(s.scene)
}

/// The state before the start that filled slot `layer` of `after`: the slot is
/// free again and its scene is back in the queue.
pub open spec fn before_start(after: Previews, layer: int) -> Previews {
    let s = after.slots[layer].unwrap();
    Previews {
        cache: CacheView {
            cached: after.cache.cached,
            rendering: after.cache.rendering,
            queued: after.cache.queued.insert(s.scene, s.scene_handle),
        },
        slots: after.slots.update(layer, None),
    }
}

/// `after` is reached from `before` by starting one queued scene after the
/// other, in the slots that `views` names in this order. The starts take their
/// images from the end of `targets`: the first start the last image.
pub open spec fn starts(
    before: Previews,
    after: Previews,
    targets: Seq<UntypedHandle>,
    views: Seq<PreviewRenderView>,
) -> bool
    decreases views.len(),
{
    if views.len() == 0 {
        after == before
    } else {
        let layer = views.last().layer as int;
        let earlier = before_start(after, layer);
        &&& views.len() <= targets.len()
        &&& 0 <= layer < after.slots.len()
        &&& after.slots[layer] is Some
        &&& starts(before, earlier, targets, views.drop_last())
        &&& starts_one(earlier, after, layer, targets[targets.len() - views.len()])
    }
}

/// Whether a completion signal for slot `layer` is acted on: the slot exists and
/// the render in it has settled.
pub open spec fn completes(p: Previews, layer: int) -> bool {
    0 <= layer < p.slots.len() && is_settled(p.slots[layer])
}

/// The state after a completion signal for slot `layer`. Where the signal is
/// acted on, the slot's scene is cached with the slot's image and the slot is
/// free; a signal for a slot that is free, or whose render has not settled,
/// changes nothing.
pub open spec fn complete_one(p: Previews, layer: int) -> Previews {
    if completes(p, layer) {
        let s = p.slots[layer].unwrap();
        Previews { cache: p.cache.complete(s.scene, s.render_target), slots: p.slots.update(layer, None) }
    } else {
        p
    }
}

/// The state after the completion signals were handled in order.
pub open spec fn drain(p: Previews, signals: Seq<PreviewRendered>) -> Previews
    decreases signals.len(),
{
    if signals.len() == 0 {
        p
    } else {
        complete_one(drain(p, signals.drop_last()), signals.last().layer as int)
    }
}

/// The scenes whose previews were cached while the signals were handled, in
/// this order.
pub open spec fn drained_scenes(p: Previews, signals: Seq<PreviewRendered>) -> Seq<SceneId>
    decreases signals.len(),
{
    if signals.len() == 0 {
        Seq::empty()
    } else {
        let earlier = drain(p, signals.drop_last());
        let scenes = drained_scenes(p, signals.drop_last());
        let layer = signals.last().layer as int;
        if completes(earlier, layer) {
            scenes.push(earlier.slots[layer].unwrap().scene)
        } else {
            scenes
        }
    }
}

/// Whether the spawner reports the occupant of `slot` ready. A free slot has
/// no occupant to be ready.
pub open spec fn found_ready(slot: Option<Slot>, spawner: SceneSpawner) -> bool {
    slot matches Some(s) && instance_ready(spawner, s.instance)
}

/// For each slot, whether the spawner reports its occupant ready.
pub open spec fn readiness(slots: Seq<Option<Slot>>, spawner: SceneSpawner) -> Seq<bool> {
    Seq::new(slots.len(), |i: int| found_ready(slots[i], spawner))
}

/// The slots after one tick of the settle detector that found the occupant of
/// slot `i` ready or not as `ready[i]` says.
pub open spec fn ticked(slots: Seq<Option<Slot>>, ready: Seq<bool>, threshold: u32) -> Seq<
    Option<Slot>,
> {
    Seq::new(slots.len(), |i: int| after_tick(slots[i], ready[i], threshold))
}

/// The completion signals of such a tick for the first `n` slots, in the order
/// of the slots.
pub open spec fn settled_signals(
    slots: Seq<Option<Slot>>,
    ready: Seq<bool>,
    threshold: u32,
    n: int,
) -> Seq<PreviewRendered>
    decreases n,
{
    if n <= 0 {
        Seq::empty()
    } else {
        let earlier = settled_signals(slots, ready, threshold, n - 1);
        if settles(slots[n - 1], ready[n - 1], threshold) {
            earlier.push(PreviewRendered { layer: (n - 1) as usize })
        } else {
            earlier
        }
    }
}

/// The slots after the layer tagger has gone over them and found the occupant
/// of slot `i` ready or not as `ready[i]` says.
pub open spec fn tagged(slots: Seq<Option<Slot>>, ready: Seq<bool>) -> Seq<Option<Slot>> {
    Seq::new(slots.len(), |i: int| after_tagging(slots[i], ready[i]))
}

/// The slots among the first `n` whose occupants' entities the tagger moved to
/// the slot's layer.
pub open spec fn tagged_views(slots: Seq<Option<Slot>>, ready: Seq<bool>, n: int) -> Seq<
    PreviewRenderView,
>
    decreases n,
{
    if n <= 0 {
        Seq::empty()
    } else {
        let earlier = tagged_views(slots, ready, n - 1);
        if tags(slots[n - 1], ready[n - 1]) {
            earlier.push(PreviewRenderView { layer: (n - 1) as usize })
        } else {
            earlier
        }
    }
}

} // verus!

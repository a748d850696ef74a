//! What holds of the scheduler whatever is requested and whatever the host
//! answers.

use crate::cache::CacheView;
use crate::model::{
    before_start, complete_one, completes, drain, starts, starts_one, tagged, ticked, Previews,
};
use crate::scene::SceneId;
use crate::slots::{
    after_tagging, after_tick, free_count, lemma_free_count_bounds, lemma_free_count_update,
    settles, tags, PreviewRendered, PreviewRenderView,
    PreviewRenderedFrames, Slot,
};
use crate::tables::lookup;
use bevy::asset::UntypedHandle;
use vstd::prelude::*;

verus! {

/// `slot` is occupied and renders the scene `id`.
pub open spec fn renders(slot: Option<Slot>, id: SceneId) -> bool {
    slot matches Some(s) && s.scene == id
}

/// Some slot renders the scene `id`.
pub open spec fn in_flight(slots: Seq<Option<Slot>>, id: SceneId) -> bool {
    exists|i: int| 0 <= i < slots.len() && renders(#[trigger] slots[i], id)
}

/// The scenes that are rendered in some slot.
pub open spec fn scenes_in_flight(slots: Seq<Option<Slot>>) -> Set<SceneId> {
    Set::new(|id: SceneId| in_flight(slots, id))
}

/// No two slots render the same scene.
pub open spec fn slots_distinct(slots: Seq<Option<Slot>>) -> bool {
    forall|i: int, j: int|
        0 <= i < slots.len() && 0 <= j < slots.len() && (#[trigger] slots[i]) is Some && renders(
            #[trigger] slots[j],
            slots[i].unwrap().scene,
        ) ==> i == j
}

/// Every scene is in at most one place. A scene is claimed exactly when it is
/// queued or rendered in a slot; it is not both; a cached scene is not claimed;
/// and no two slots render the same scene.
pub open spec fn consistent(p: Previews) -> bool {
    &&& p.cache.finite()
    &&& forall|id: SceneId|
        #[trigger] p.cache.rendering.contains(id) <==> p.cache.queued.contains_key(id) || in_flight(
            p.slots,
            id,
        )
    &&& forall|id: SceneId|
        !(#[trigger] p.cache.queued.contains_key(id) && in_flight(p.slots, id))
    &&& forall|id: SceneId|
        #[trigger] p.cache.cached.contains_key(id) ==> !p.cache.rendering.contains(id)
    &&& slots_distinct(p.slots)
}

/// The scheduler before anything was requested: nothing cached, claimed or
/// queued, and `slot_count` free slots.
pub open spec fn initial(slot_count: nat) -> Previews {
    Previews { cache: CacheView::empty(), slots: Seq::new(slot_count, |i: int| None::<Slot>) }
}

/// The scheduler starts out consistent.
pub proof fn lemma_initial_consistent(slot_count: nat)
    ensures
        consistent(initial(slot_count)),
{
}

/// There are never more scenes in flight than there are slots.
pub proof fn lemma_in_flight_bounded(slots: Seq<Option<Slot>>)
    ensures
        scenes_in_flight(slots).finite(),
        scenes_in_flight(slots).len() <= slots.len(),
    decreases slots.len(),
{
    if slots.len() == 0 {
        assert(scenes_in_flight(slots) =~= Set::<SceneId>::empty());
    } else {
        let front = slots.drop_last();
        lemma_in_flight_bounded(front);
        assert forall|id: SceneId| in_flight(front, id) implies in_flight(slots, id) by {
            let i = choose|i: int| 0 <= i < front.len() && renders(#[trigger] front[i], id);
            assert(renders(slots[i], id));
        }
        assert forall|id: SceneId| in_flight(slots, id) && !renders(slots.last(), id) implies in_flight(
            front,
            id,
        ) by {
            let i = choose|i: int| 0 <= i < slots.len() && renders(#[trigger] slots[i], id);
            assert(renders(front[i], id));
        }
        match slots.last() {
            Some(s) => {
                assert(renders(slots[slots.len() - 1], s.scene));
                assert(scenes_in_flight(slots) =~= scenes_in_flight(front).insert(s.scene));
            },
            None => {
                assert(scenes_in_flight(slots) =~= scenes_in_flight(front));
            },
        }
    }
}

/// A request keeps every scene in one place.
pub proof fn lemma_request_consistent(p: Previews, id: SceneId, handle: UntypedHandle)
    requires
        consistent(p),
    ensures
        consistent(Previews { cache: p.cache.request(id, handle), slots: p.slots }),
{
}

/// A second request for a scene changes nothing, whether the scene is cached
/// by then or not: it is not queued again, so no second render is started.
pub proof fn lemma_request_merges(
    c: CacheView,
    id: SceneId,
    first: UntypedHandle,
    second: UntypedHandle,
)
    ensures
        c.request(id, first).request(id, second) == c.request(id, first),
        !c.cached.contains_key(id) ==> c.request(id, first).rendering.contains(id),
{
}

/// A request for a cached scene returns the cached image and changes nothing.
pub proof fn lemma_cached_is_served(c: CacheView, id: SceneId, handle: UntypedHandle)
    requires
        c.cached.contains_key(id),
    ensures
        c.request(id, handle) == c,
        lookup(c.cached, id) == Some(c.cached[id]),
{
}

/// Filling a free slot adds the scene of the new occupant to the scenes in
/// flight and leaves the others.
proof fn lemma_in_flight_filled(slots: Seq<Option<Slot>>, layer: int, s: Slot, id: SceneId)
    requires
        0 <= layer < slots.len(),
        slots[layer] is None,
    ensures
        in_flight(slots.update(layer, Some(s)), id) <==> in_flight(slots, id) || id == s.scene,
{
    let filled = slots.update(layer, Some(s));
    if in_flight(slots, id) {
        let i = choose|i: int| 0 <= i < slots.len() && renders(#[trigger] slots[i], id);
        assert(renders(filled[i], id));
    }
    if id == s.scene {
        assert(renders(filled[layer], id));
    }
    if in_flight(filled, id) && id != s.scene {
        let i = choose|i: int| 0 <= i < filled.len() && renders(#[trigger] filled[i], id);
        assert(renders(slots[i], id));
    }
}

/// Freeing a slot takes the scene of its occupant out of the scenes in flight,
/// where no other slot renders the same scene, and leaves the others.
proof fn lemma_in_flight_freed(slots: Seq<Option<Slot>>, layer: int, id: SceneId)
    requires
        0 <= layer < slots.len(),
        slots[layer] is Some,
        slots_distinct(slots),
    ensures
        in_flight(slots.update(layer, None), id) <==> in_flight(slots, id) && id
            != slots[layer].unwrap().scene,
{
    let freed = slots.update(layer, None);
    let gone = slots[layer].unwrap().scene;
    if in_flight(slots, id) && id != gone {
        let i = choose|i: int| 0 <= i < slots.len() && renders(#[trigger] slots[i], id);
        assert(renders(freed[i], id));
    }
    if in_flight(freed, id) {
        let i = choose|i: int| 0 <= i < freed.len() && renders(#[trigger] freed[i], id);
        assert(renders(slots[i], id));
        assert(slots[layer] is Some);
    }
}

/// The start of one queued scene keeps every scene in one place. The scene
/// that is started was queued and was in no slot, so this is its only render.
pub proof fn lemma_start_consistent(
    before: Previews,
    after: Previews,
    layer: int,
    target: UntypedHandle,
)
    requires
        consistent(before),
        starts_one(before, after, layer, target),
    ensures
        consistent(after),
        before.cache.queued.contains_key(after.slots[layer].unwrap().scene),
        !in_flight(before.slots, after.slots[layer].unwrap().scene),
        !before.cache.cached.contains_key(after.slots[layer].unwrap().scene),
        in_flight(after.slots, after.slots[layer].unwrap().scene),
        !after.cache.queued.contains_key(after.slots[layer].unwrap().scene),
        after.cache.cached == before.cache.cached,
{
    let s = after.slots[layer].unwrap();
    assert(before.cache.rendering.contains(s.scene));
    assert forall|id: SceneId|
        in_flight(after.slots, id) <==> in_flight(before.slots, id) || id == s.scene by {
        lemma_in_flight_filled(before.slots, layer, s, id);
    }
    assert forall|i: int, j: int|
        0 <= i < after.slots.len() && 0 <= j < after.slots.len() && (
        #[trigger] after.slots[i]) is Some && renders(
            #[trigger] after.slots[j],
            after.slots[i].unwrap().scene,
        ) implies i == j by {
        let id = after.slots[i].unwrap().scene;
        if i != layer {
            assert(renders(before.slots[i], id));
        }
        if j != layer {
            assert(renders(before.slots[j], id));
        }
    }
}

/// A run of starts keeps every scene in one place and caches nothing.
pub proof fn lemma_starts_consistent(
    before: Previews,
    after: Previews,
    targets: Seq<UntypedHandle>,
    views: Seq<PreviewRenderView>,
)
    requires
        consistent(before),
        starts(before, after, targets, views),
    ensures
        consistent(after),
        after.cache.cached == before.cache.cached,
        after.cache.rendering == before.cache.rendering,
        after.slots.len() == before.slots.len(),
    decreases views.len(),
{
    if views.len() > 0 {
        let layer = views.last().layer as int;
        let earlier = before_start(after, layer);
        lemma_starts_consistent(before, earlier, targets, views.drop_last());
        lemma_start_consistent(earlier, after, layer, targets[targets.len() - views.len()]);
    }
}

/// A run of starts only puts scenes in slots that were queued and in no slot
/// before, each in one slot: whatever is in flight afterwards was in flight
/// before or was queued, and not both.
pub proof fn lemma_starts_only_queued(
    before: Previews,
    after: Previews,
    targets: Seq<UntypedHandle>,
    views: Seq<PreviewRenderView>,
    id: SceneId,
)
    requires
        consistent(before),
        starts(before, after, targets, views),
        in_flight(after.slots, id),
    ensures
        in_flight(before.slots, id) != before.cache.queued.contains_key(id),
        !before.cache.cached.contains_key(id),
    decreases views.len(),
{
    if views.len() > 0 {
        let layer = views.last().layer as int;
        let earlier = before_start(after, layer);
        let s = after.slots[layer].unwrap();
        lemma_starts_consistent(before, earlier, targets, views.drop_last());
        lemma_start_consistent(earlier, after, layer, targets[targets.len() - views.len()]);
        lemma_in_flight_filled(earlier.slots, layer, s, id);
        if in_flight(earlier.slots, id) {
            lemma_starts_only_queued(before, earlier, targets, views.drop_last(), id);
        } else {
            lemma_starts_queue_shrinks(before, earlier, targets, views.drop_last(), id);
            assert(before.cache.rendering.contains(id));
            if in_flight(before.slots, id) {
                lemma_starts_keep_in_flight(before, earlier, targets, views.drop_last(), id);
            }
        }
    } else {
        assert(before.cache.rendering.contains(id));
    }
}

/// A run of starts fills one free slot and takes one scene out of the queue
/// for each start, so it never starts more scenes than slots were free, nor
/// more than were queued.
pub proof fn lemma_starts_fill(
    before: Previews,
    after: Previews,
    targets: Seq<UntypedHandle>,
    views: Seq<PreviewRenderView>,
)
    requires
        before.cache.finite(),
        starts(before, after, targets, views),
    ensures
        after.cache.finite(),
        free_count(after.slots) + views.len() == free_count(before.slots),
        after.cache.queued.len() + views.len() == before.cache.queued.len(),
        views.len() <= free_count(before.slots) <= before.slots.len(),
        views.len() <= before.cache.queued.len(),
        views.len() <= targets.len(),
    decreases views.len(),
{
    lemma_free_count_bounds(before.slots);
    if views.len() > 0 {
        let layer = views.last().layer as int;
        let earlier = before_start(after, layer);
        lemma_starts_fill(before, earlier, targets, views.drop_last());
        lemma_free_count_update(earlier.slots, layer, after.slots[layer]);
    }
}

/// A run of starts adds nothing to the queue.
pub proof fn lemma_starts_queue_shrinks(
    before: Previews,
    after: Previews,
    targets: Seq<UntypedHandle>,
    views: Seq<PreviewRenderView>,
    id: SceneId,
)
    requires
        starts(before, after, targets, views),
        after.cache.queued.contains_key(id),
    ensures
        before.cache.queued.contains_key(id),
        before.cache.queued[id] == after.cache.queued[id],
    decreases views.len(),
{
    if views.len() > 0 {
        let layer = views.last().layer as int;
        let earlier = before_start(after, layer);
        lemma_starts_queue_shrinks(before, earlier, targets, views.drop_last(), id);
    }
}

/// A run of starts takes no scene out of its slot.
pub proof fn lemma_starts_keep_in_flight(
    before: Previews,
    after: Previews,
    targets: Seq<UntypedHandle>,
    views: Seq<PreviewRenderView>,
    id: SceneId,
)
    requires
        starts(before, after, targets, views),
        in_flight(before.slots, id),
    ensures
        in_flight(after.slots, id),
    decreases views.len(),
{
    if views.len() > 0 {
        let layer = views.last().layer as int;
        let earlier = before_start(after, layer);
        lemma_starts_keep_in_flight(before, earlier, targets, views.drop_last(), id);
        lemma_in_flight_filled(earlier.slots, layer, after.slots[layer].unwrap(), id);
    }
}

/// Handling one completion signal keeps every scene in one place, and keeps
/// what is cached.
pub proof fn lemma_complete_consistent(p: Previews, layer: int)
    requires
        consistent(p),
    ensures
        consistent(complete_one(p, layer)),
        p.cache.cached.submap_of(complete_one(p, layer).cache.cached),
        complete_one(p, layer).slots.len() == p.slots.len(),
{
    if completes(p, layer) {
        let s = p.slots[layer].unwrap();
        let after = complete_one(p, layer);
        assert(renders(p.slots[layer], s.scene));
        assert(in_flight(p.slots, s.scene));
        assert(p.cache.rendering.contains(s.scene));
        assert forall|id: SceneId|
            in_flight(after.slots, id) <==> in_flight(p.slots, id) && id != s.scene by {
            lemma_in_flight_freed(p.slots, layer, id);
        }
        assert forall|i: int, j: int|
            0 <= i < after.slots.len() && 0 <= j < after.slots.len() && (
            #[trigger] after.slots[i]) is Some && renders(
                #[trigger] after.slots[j],
                after.slots[i].unwrap().scene,
            ) implies i == j by {
            assert(p.slots[i] is Some);
            assert(renders(p.slots[j], p.slots[i].unwrap().scene));
        }
    }
}

/// Handling completion signals keeps every scene in one place, and keeps what
/// is cached: a cached preview stays the same image for good.
pub proof fn lemma_drain_consistent(p: Previews, signals: Seq<PreviewRendered>)
    requires
        consistent(p),
    ensures
        consistent(drain(p, signals)),
        p.cache.cached.submap_of(drain(p, signals).cache.cached),
        drain(p, signals).slots.len() == p.slots.len(),
    decreases signals.len(),
{
    if signals.len() > 0 {
        let earlier = drain(p, signals.drop_last());
        lemma_drain_consistent(p, signals.drop_last());
        lemma_complete_consistent(earlier, signals.last().layer as int);
        let after = drain(p, signals);
        assert forall|id: SceneId| #[trigger] p.cache.cached.contains_key(id) implies {
            &&& after.cache.cached.contains_key(id)
            &&& after.cache.cached[id] == p.cache.cached[id]
        } by {
            assert(earlier.cache.cached.contains_key(id));
        }
    }
}

/// A tick of the settle detector takes no scene out of its slot and puts none in.
pub proof fn lemma_ticked_in_flight(
    slots: Seq<Option<Slot>>,
    ready: Seq<bool>,
    threshold: u32,
    id: SceneId,
)
    ensures
        in_flight(ticked(slots, ready, threshold), id) <==> in_flight(slots, id),
{
    let after = ticked(slots, ready, threshold);
    if in_flight(after, id) {
        let i = choose|i: int| 0 <= i < after.len() && renders(#[trigger] after[i], id);
        assert(renders(slots[i], id));
    }
    if in_flight(slots, id) {
        let i = choose|i: int| 0 <= i < slots.len() && renders(#[trigger] slots[i], id);
        assert(renders(after[i], id));
    }
}

/// A pass of the layer tagger takes no scene out of its slot and puts none in.
pub proof fn lemma_tagged_in_flight(slots: Seq<Option<Slot>>, ready: Seq<bool>, id: SceneId)
    ensures
        in_flight(tagged(slots, ready), id) <==> in_flight(slots, id),
{
    let after = tagged(slots, ready);
    if in_flight(after, id) {
        let i = choose|i: int| 0 <= i < after.len() && renders(#[trigger] after[i], id);
        assert(renders(slots[i], id));
    }
    if in_flight(slots, id) {
        let i = choose|i: int| 0 <= i < slots.len() && renders(#[trigger] slots[i], id);
        assert(renders(after[i], id));
    }
}

/// A tick of the settle detector keeps every scene in one place.
pub proof fn lemma_ticked_consistent(p: Previews, ready: Seq<bool>, threshold: u32)
    requires
        consistent(p),
    ensures
        consistent(Previews { cache: p.cache, slots: ticked(p.slots, ready, threshold) }),
{
    let after = ticked(p.slots, ready, threshold);
    assert forall|id: SceneId| in_flight(after, id) <==> in_flight(p.slots, id) by {
        lemma_ticked_in_flight(p.slots, ready, threshold, id);
    }
    assert forall|i: int, j: int|
        0 <= i < after.len() && 0 <= j < after.len() && (#[trigger] after[i]) is Some && renders(
            #[trigger] after[j],
            after[i].unwrap().scene,
        ) implies i == j by {
        assert(p.slots[i] is Some);
        assert(renders(p.slots[j], p.slots[i].unwrap().scene));
    }
}

/// A pass of the layer tagger keeps every scene in one place.
pub proof fn lemma_tagged_consistent(p: Previews, ready: Seq<bool>)
    requires
        consistent(p),
    ensures
        consistent(Previews { cache: p.cache, slots: tagged(p.slots, ready) }),
{
    let after = tagged(p.slots, ready);
    assert forall|id: SceneId| in_flight(after, id) <==> in_flight(p.slots, id) by {
        lemma_tagged_in_flight(p.slots, ready, id);
    }
    assert forall|i: int, j: int|
        0 <= i < after.len() && 0 <= j < after.len() && (#[trigger] after[i]) is Some && renders(
            #[trigger] after[j],
            after[i].unwrap().scene,
        ) implies i == j by {
        assert(p.slots[i] is Some);
        assert(renders(p.slots[j], p.slots[i].unwrap().scene));
    }
}

/// Handling completion signals puts no scene in a slot, and a scene that
/// leaves its slot is cached.
pub proof fn lemma_drain_in_flight(p: Previews, signals: Seq<PreviewRendered>, id: SceneId)
    requires
        consistent(p),
    ensures
        in_flight(drain(p, signals).slots, id) ==> in_flight(p.slots, id),
        in_flight(p.slots, id) ==> in_flight(drain(p, signals).slots, id) || drain(
            p,
            signals,
        ).cache.cached.contains_key(id),
    decreases signals.len(),
{
    if signals.len() > 0 {
        let earlier = drain(p, signals.drop_last());
        let layer = signals.last().layer as int;
        lemma_drain_in_flight(p, signals.drop_last(), id);
        lemma_drain_consistent(p, signals.drop_last());
        lemma_complete_consistent(earlier, layer);
        if completes(earlier, layer) {
            lemma_in_flight_freed(earlier.slots, layer, id);
        }
    }
}

/// `b` is `a` after a request for some scene.
pub open spec fn requested(a: Previews, b: Previews) -> bool {
    exists|id: SceneId, handle: UntypedHandle|
        b == (Previews { cache: #[trigger] a.cache.request(id, handle), slots: a.slots })
}

/// `b` is `a` after some run of starts.
pub open spec fn started(a: Previews, b: Previews) -> bool {
    exists|targets: Seq<UntypedHandle>, views: Seq<PreviewRenderView>| #[trigger]
        starts(a, b, targets, views)
}

/// `b` is `a` after some completion signals were handled.
pub open spec fn drained(a: Previews, b: Previews) -> bool {
    exists|signals: Seq<PreviewRendered>| b == #[trigger] drain(a, signals)
}

/// `b` is `a` after a tick of the settle detector.
pub open spec fn counted(a: Previews, b: Previews) -> bool {
    exists|ready: Seq<bool>, threshold: u32|
        b == (Previews { cache: a.cache, slots: #[trigger] ticked(a.slots, ready, threshold) })
}

/// `b` is `a` after a pass of the layer tagger.
pub open spec fn retagged(a: Previews, b: Previews) -> bool {
    exists|ready: Seq<bool>| b == (Previews { cache: a.cache, slots: #[trigger] tagged(a.slots, ready) })
}

/// `b` is reached from `a` by one operation of the scheduler: a request, a run
/// of starts, the handling of completion signals, a tick of the settle
/// detector, or a pass of the layer tagger.
pub open spec fn step(a: Previews, b: Previews) -> bool {
    ||| requested(a, b)
    ||| started(a, b)
    ||| drained(a, b)
    ||| counted(a, b)
    ||| retagged(a, b)
}

/// Each state follows from the one before it by one operation.
pub open spec fn is_run(states: Seq<Previews>) -> bool {
    forall|k: int| 0 <= k < states.len() - 1 ==> step(#[trigger] states[k], states[k + 1])
}

/// The render of `id` begins between `a` and `b`: no slot rendered it, and now
/// one does.
pub open spec fn begins(a: Previews, b: Previews, id: SceneId) -> bool {
    !in_flight(a.slots, id) && in_flight(b.slots, id)
}

/// `id` has been started: it is rendered in a slot or its preview is cached.
pub open spec fn begun(p: Previews, id: SceneId) -> bool {
    in_flight(p.slots, id) || p.cache.cached.contains_key(id)
}

/// One operation keeps every scene in one place, keeps the number of slots and
/// keeps what is cached; a scene that has been started stays started; and a
/// render only begins for a scene that was queued and had not been started.
pub proof fn lemma_step(a: Previews, b: Previews, id: SceneId)
    requires
        consistent(a),
        step(a, b),
    ensures
        consistent(b),
        b.slots.len() == a.slots.len(),
        a.cache.cached.contains_key(id) ==> b.cache.cached.contains_key(id) && b.cache.cached[id]
            == a.cache.cached[id],
        begun(a, id) ==> begun(b, id),
        begins(a, b, id) ==> a.cache.queued.contains_key(id) && !begun(a, id),
{
    if requested(a, b) {
        let (scene, handle) = choose|scene: SceneId, handle: UntypedHandle|
            b == (Previews { cache: #[trigger] a.cache.request(scene, handle), slots: a.slots });
        lemma_request_consistent(a, scene, handle);
    } else if started(a, b) {
        let (targets, views) = choose|targets: Seq<UntypedHandle>, views: Seq<PreviewRenderView>|
         #[trigger]
            starts(a, b, targets, views);
        lemma_starts_consistent(a, b, targets, views);
        if in_flight(a.slots, id) {
            lemma_starts_keep_in_flight(a, b, targets, views, id);
        }
        if in_flight(b.slots, id) {
            lemma_starts_only_queued(a, b, targets, views, id);
        }
    } else if drained(a, b) {
        let signals = choose|signals: Seq<PreviewRendered>| b == #[trigger] drain(a, signals);
        lemma_drain_consistent(a, signals);
        lemma_drain_in_flight(a, signals, id);
    } else if counted(a, b) {
        let (ready, threshold) = choose|ready: Seq<bool>, threshold: u32|
            b == (Previews { cache: a.cache, slots: #[trigger] ticked(a.slots, ready, threshold) });
        lemma_ticked_consistent(a, ready, threshold);
        lemma_ticked_in_flight(a.slots, ready, threshold, id);
    } else {
        let ready = choose|ready: Seq<bool>|
            b == (Previews { cache: a.cache, slots: #[trigger] tagged(a.slots, ready) });
        lemma_tagged_consistent(a, ready);
        lemma_tagged_in_flight(a.slots, ready, id);
    }
}

/// Whatever is requested and whatever the host answers, every scene stays in
/// one place, and there are as many slots as at the start.
pub proof fn lemma_run_consistent(states: Seq<Previews>, k: int)
    requires
        is_run(states),
        0 <= k < states.len(),
        consistent(states[0]),
    ensures
        consistent(states[k]),
        states[k].slots.len() == states[0].slots.len(),
    decreases k,
{
    if k > 0 {
        lemma_run_consistent(states, k - 1);
        let id = arbitrary::<SceneId>();
        lemma_step(states[k - 1], states[k], id);
    }
}

/// Once the preview of a scene is cached, it stays cached, with the same
/// image, whatever happens afterwards.
pub proof fn lemma_cached_for_good(states: Seq<Previews>, i: int, j: int, id: SceneId)
    requires
        is_run(states),
        0 <= i <= j < states.len(),
        consistent(states[0]),
        states[i].cache.cached.contains_key(id),
    ensures
        states[j].cache.cached.contains_key(id),
        states[j].cache.cached[id] == states[i].cache.cached[id],
    decreases j - i,
{
    if i < j {
        lemma_cached_for_good(states, i, j - 1, id);
        lemma_run_consistent(states, j - 1);
        lemma_step(states[j - 1], states[j], id);
    }
}

/// A scene that has been started stays started, whatever happens afterwards:
/// it is in a slot until its preview is cached.
pub proof fn lemma_begun_for_good(states: Seq<Previews>, i: int, j: int, id: SceneId)
    requires
        is_run(states),
        0 <= i <= j < states.len(),
        consistent(states[0]),
        begun(states[i], id),
    ensures
        begun(states[j], id),
    decreases j - i,
{
    if i < j {
        lemma_begun_for_good(states, i, j - 1, id);
        lemma_run_consistent(states, j - 1);
        lemma_step(states[j - 1], states[j], id);
    }
}

/// However often a scene is requested, its render begins at most once: if it
/// begins in one operation, it begins in no later one.
pub proof fn lemma_begins_once(states: Seq<Previews>, i: int, j: int, id: SceneId)
    requires
        is_run(states),
        0 <= i < j < states.len() - 1,
        consistent(states[0]),
        begins(states[i], states[i + 1], id),
    ensures
        !begins(states[j], states[j + 1], id),
{
    lemma_begun_for_good(states, i + 1, j, id);
    lemma_run_consistent(states, j);
    lemma_step(states[j], states[j + 1], id);
}

/// Once the preview of a scene is cached, no render of that scene begins any
/// more, whatever is requested: a request for it is served from the cache.
pub proof fn lemma_cached_is_not_rendered_again(
    states: Seq<Previews>,
    i: int,
    j: int,
    id: SceneId,
)
    requires
        is_run(states),
        0 <= i <= j < states.len() - 1,
        consistent(states[0]),
        states[i].cache.cached.contains_key(id),
    ensures
        !begins(states[j], states[j + 1], id),
        states[j + 1].cache.cached.contains_key(id),
        states[j + 1].cache.cached[id] == states[i].cache.cached[id],
{
    lemma_cached_for_good(states, i, j, id);
    lemma_cached_for_good(states, i, j + 1, id);
    lemma_run_consistent(states, j);
    lemma_step(states[j], states[j + 1], id);
}

/// Whatever is requested and whatever the host answers, the scenes that are
/// rendered at one time are never more than the slots that the pool was made
/// with.
pub proof fn lemma_run_in_flight_bounded(states: Seq<Previews>, k: int)
    requires
        is_run(states),
        0 <= k < states.len(),
        consistent(states[0]),
    ensures
        scenes_in_flight(states[k].slots).finite(),
        scenes_in_flight(states[k].slots).len() <= states[0].slots.len(),
{
    lemma_run_consistent(states, k);
    lemma_in_flight_bounded(states[k].slots);
}

/// The slot after the layer tagger has looked at it once for each entry of
/// `ready`.
pub open spec fn after_taggings(slot: Option<Slot>, ready: Seq<bool>) -> Option<Slot>
    decreases ready.len(),
{
    if ready.len() == 0 {
        slot
    } else {
        after_tagging(after_taggings(slot, ready.drop_last()), ready.last())
    }
}

/// How often the occupant's entities were moved to the slot's layer in these
/// passes.
pub open spec fn tag_count(slot: Option<Slot>, ready: Seq<bool>) -> nat
    decreases ready.len(),
{
    if ready.len() == 0 {
        0
    } else {
        tag_count(slot, ready.drop_last()) + if tags(
            after_taggings(slot, ready.drop_last()),
            ready.last(),
        ) {
            1nat
        } else {
            0nat
        }
    }
}

/// The slot is occupied and its occupant's entities have been moved to its
/// layer.
pub open spec fn layer_applied(slot: Option<Slot>) -> bool {
    slot matches Some(s) && s.applied_layer
}

/// However often the layer tagger looks at a slot during one occupation, and
/// however often it finds the occupant ready, it moves the occupant's entities
/// to the slot's layer at most once; once it has, this is remembered.
pub proof fn lemma_tagged_at_most_once(slot: Option<Slot>, ready: Seq<bool>)
    ensures
        tag_count(slot, ready) <= 1,
        tag_count(slot, ready) == 1 ==> layer_applied(after_taggings(slot, ready)),
        layer_applied(slot) ==> tag_count(slot, ready) == 0,
        layer_applied(slot) ==> layer_applied(after_taggings(slot, ready)),
        slot is Some <==> after_taggings(slot, ready) is Some,
    decreases ready.len(),
{
    if ready.len() > 0 {
        lemma_tagged_at_most_once(slot, ready.drop_last());
    }
}

/// The slot after one tick of the settle detector for each entry of `ready`.
pub open spec fn after_ticks(slot: Option<Slot>, ready: Seq<bool>, threshold: u32) -> Option<Slot>
    decreases ready.len(),
{
    if ready.len() == 0 {
        slot
    } else {
        after_tick(after_ticks(slot, ready.drop_last(), threshold), ready.last(), threshold)
    }
}

/// The number of completion signals that these ticks gave.
pub open spec fn signal_count(slot: Option<Slot>, ready: Seq<bool>, threshold: u32) -> nat
    decreases ready.len(),
{
    if ready.len() == 0 {
        0
    } else {
        signal_count(slot, ready.drop_last(), threshold) + if settles(
            after_ticks(slot, ready.drop_last(), threshold),
            ready.last(),
            threshold,
        ) {
            1nat
        } else {
            0nat
        }
    }
}

/// The number of ticks on which the occupant was found ready.
pub open spec fn ready_ticks(ready: Seq<bool>) -> nat
    decreases ready.len(),
{
    if ready.len() == 0 {
        0
    } else {
        ready_ticks(ready.drop_last()) + if ready.last() {
            1nat
        } else {
            0nat
        }
    }
}

/// A slot that starts counting at zero gives its completion signal on the
/// ready tick that brings the count to the threshold, and never again. With
/// fewer ready ticks there is no signal and the counter holds their number; a
/// threshold of zero acts as a threshold of one.
pub proof fn lemma_settles_at_threshold(slot: Slot, ready: Seq<bool>, threshold: u32)
    requires
        slot.frames == Some(PreviewRenderedFrames { cur_frame: 0 }),
    ensures
        after_ticks(Some(slot), ready, threshold) is Some,
        ready_ticks(ready) < threshold || ready_ticks(ready) == 0 ==> {
            &&& signal_count(Some(slot), ready, threshold) == 0
            &&& after_ticks(Some(slot), ready, threshold).unwrap().frames == Some(
                PreviewRenderedFrames { cur_frame: ready_ticks(ready) as u32 },
            )
        },
        ready_ticks(ready) >= threshold && ready_ticks(ready) >= 1 ==> {
            &&& signal_count(Some(slot), ready, threshold) == 1
            &&& after_ticks(Some(slot), ready, threshold).unwrap().frames is None
        },
    decreases ready.len(),
{
    if ready.len() > 0 {
        lemma_settles_at_threshold(slot, ready.drop_last(), threshold);
    }
}

} // verus!

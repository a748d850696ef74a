use bevy::asset::{Handle, UntypedHandle};
use bevy::core_pipeline::core_3d::Camera3d;
use bevy::ecs::system::Commands;
use bevy::ecs::world::{CommandQueue, World};
use bevy::image::Image;
use bevy::math::Vec3;
use bevy::pbr::DirectionalLight;
use bevy::render::camera::{Camera, RenderTarget};
use bevy::render::view::RenderLayers;
use bevy::scene::{InstanceId, Scene, SceneSpawner};
use bevy::transform::components::Transform;
use bevy_asset_preview::host::MAX_RENDER_LAYER;
use bevy_asset_preview::scene::SceneId;
use bevy_asset_preview::settings::{
    PreviewSettings, BASE_PREVIEW_LAYER, PREVIEW_LAYERS_COUNT, PREVIEW_RENDER_FRAMES,
};
use bevy_asset_preview::slots::{
    PreviewRendered, PreviewRenderView, PreviewRenderedFrames, PreviewSceneState,
};

fn light_pose() -> Transform {
    Transform::IDENTITY.looking_to(Vec3::new(1.0, -1.0, 1.0), Vec3::Y)
}

fn camera_pose() -> Transform {
    Transform::from_translation(Vec3::new(-5.0, 2.0, -5.0)).looking_at(Vec3::ZERO, Vec3::Y)
}

fn settings(slot_count: usize, settle_frames: u32) -> PreviewSettings {
    PreviewSettings { resolution: (64, 64), slot_count, base_layer: 128, settle_frames }
}

fn pool(slot_count: usize, settle_frames: u32) -> PreviewSceneState {
    PreviewSceneState::new(&settings(slot_count, settle_frames), light_pose(), camera_pose())
}

fn scene(n: u128) -> (SceneId, UntypedHandle) {
    (SceneId::Uuid { uuid: n }, Handle::<Scene>::weak_from_u128(n).untyped())
}

fn target(n: u128) -> UntypedHandle {
    Handle::<Image>::weak_from_u128(1000 + n).untyped()
}

fn instance(spawner: &mut SceneSpawner, n: u128) -> InstanceId {
    spawner.spawn(Handle::<Scene>::weak_from_u128(n))
}

fn occupy(
    pool: &mut PreviewSceneState,
    spawner: &mut SceneSpawner,
    commands: &mut Commands,
    n: u128,
) -> Option<PreviewRenderView> {
    let (id, handle) = scene(n);
    let instance = instance(spawner, n);
    pool.occupy(id, handle, instance, target(n), commands)
}

#[test]
fn default_settings() {
    let settings = PreviewSettings::default();
    assert_eq!(settings.resolution, (256, 256));
    assert_eq!(settings.slot_count, 8);
    assert_eq!(settings.base_layer, 128);
    assert_eq!(settings.settle_frames, 8);
    assert_eq!(PREVIEW_LAYERS_COUNT, 8);
    assert_eq!(BASE_PREVIEW_LAYER, 128);
    assert_eq!(PREVIEW_RENDER_FRAMES, 8);
    assert!(settings.is_valid());
}

#[test]
fn settings_are_valid_while_every_layer_fits() {
    let mut settings = settings(8, 8);
    settings.base_layer = MAX_RENDER_LAYER + 1 - 8;
    assert!(settings.is_valid());
    settings.base_layer = MAX_RENDER_LAYER + 2 - 8;
    assert!(!settings.is_valid());
    settings.base_layer = usize::MAX;
    assert!(!settings.is_valid());
    settings.base_layer = MAX_RENDER_LAYER + 1;
    settings.slot_count = 0;
    assert!(settings.is_valid());
}

#[test]
fn default_frame_counter_starts_at_zero() {
    assert_eq!(PreviewRenderedFrames::default(), PreviewRenderedFrames { cur_frame: 0 });
}

#[test]
fn new_pool_has_only_free_slots() {
    let pool = pool(3, 8);
    assert_eq!(pool.slot_count(), 3);
    assert_eq!(pool.free_slots(), 3);
    assert!(!pool.is_full());
    for layer in 0..4 {
        assert!(pool.slot(layer).is_none());
    }
}

#[test]
fn pool_without_slots_is_full() {
    let world = World::new();
    let mut queue = CommandQueue::default();
    let mut commands = Commands::new(&mut queue, &world);
    let mut spawner = SceneSpawner::default();
    let mut pool = pool(0, 8);
    assert!(pool.is_full());
    assert_eq!(pool.free_slots(), 0);
    assert_eq!(occupy(&mut pool, &mut spawner, &mut commands, 1), None);
}

#[test]
fn occupy_takes_the_lowest_free_slot() {
    let world = World::new();
    let mut queue = CommandQueue::default();
    let mut commands = Commands::new(&mut queue, &world);
    let mut spawner = SceneSpawner::default();
    let mut pool = pool(3, 8);

    assert_eq!(
        occupy(&mut pool, &mut spawner, &mut commands, 1),
        Some(PreviewRenderView { layer: 0 })
    );
    assert_eq!(
        occupy(&mut pool, &mut spawner, &mut commands, 2),
        Some(PreviewRenderView { layer: 1 })
    );
    assert_eq!(
        occupy(&mut pool, &mut spawner, &mut commands, 3),
        Some(PreviewRenderView { layer: 2 })
    );
    assert!(pool.is_full());

    pool.free(1, &mut commands);
    pool.free(0, &mut commands);
    assert_eq!(pool.free_slots(), 2);
    assert!(!pool.is_full());
    assert_eq!(
        occupy(&mut pool, &mut spawner, &mut commands, 4),
        Some(PreviewRenderView { layer: 0 })
    );
    assert_eq!(
        occupy(&mut pool, &mut spawner, &mut commands, 5),
        Some(PreviewRenderView { layer: 1 })
    );
    assert_eq!(pool.slot(0).unwrap().scene, SceneId::Uuid { uuid: 4 });
    assert_eq!(pool.slot(1).unwrap().scene, SceneId::Uuid { uuid: 5 });
    assert_eq!(pool.slot(2).unwrap().scene, SceneId::Uuid { uuid: 3 });
}

#[test]
fn occupy_binds_scene_instance_and_target() {
    let world = World::new();
    let mut queue = CommandQueue::default();
    let mut commands = Commands::new(&mut queue, &world);
    let mut spawner = SceneSpawner::default();
    let mut pool = pool(2, 8);

    let (id, handle) = scene(7);
    let instance = instance(&mut spawner, 7);
    let view = pool.occupy(id, handle.clone(), instance, target(7), &mut commands);
    assert_eq!(view, Some(PreviewRenderView { layer: 0 }));

    let slot = pool.slot(0).unwrap();
    assert_eq!(slot.scene, id);
    assert_eq!(slot.scene_handle, handle);
    assert_eq!(slot.instance, instance);
    assert_eq!(slot.render_target, target(7));
    assert!(!slot.applied_layer);
    assert_eq!(slot.frames, Some(PreviewRenderedFrames { cur_frame: 0 }));
    assert_ne!(slot.light, slot.camera);
    assert!(pool.slot(1).is_none());
}

#[test]
fn occupy_into_a_full_pool_changes_nothing() {
    let world = World::new();
    let mut queue = CommandQueue::default();
    let mut commands = Commands::new(&mut queue, &world);
    let mut spawner = SceneSpawner::default();
    let mut pool = pool(1, 8);

    assert!(occupy(&mut pool, &mut spawner, &mut commands, 1).is_some());
    assert!(pool.is_full());
    assert_eq!(occupy(&mut pool, &mut spawner, &mut commands, 2), None);
    assert_eq!(pool.slot(0).unwrap().scene, SceneId::Uuid { uuid: 1 });
    assert_eq!(pool.slot(0).unwrap().render_target, target(1));
}

#[test]
fn occupy_spawns_light_and_camera_on_the_layer_of_the_slot() {
    let mut world = World::new();
    let mut queue = CommandQueue::default();
    let mut spawner = SceneSpawner::default();
    let mut pool = pool(2, 8);
    {
        let mut commands = Commands::new(&mut queue, &world);
        occupy(&mut pool, &mut spawner, &mut commands, 1);
        occupy(&mut pool, &mut spawner, &mut commands, 2);
    }
    queue.apply(&mut world);

    for layer in 0..2usize {
        let slot = pool.slot(layer).unwrap();
        let layers = RenderLayers::from_layers(&[128 + layer]);

        assert!(world.get::<DirectionalLight>(slot.light).is_some());
        assert_eq!(world.get::<Transform>(slot.light), Some(&light_pose()));
        assert_eq!(world.get::<RenderLayers>(slot.light), Some(&layers));

        assert!(world.get::<Camera3d>(slot.camera).is_some());
        assert_eq!(world.get::<Transform>(slot.camera), Some(&camera_pose()));
        assert_eq!(world.get::<RenderLayers>(slot.camera), Some(&layers));
        let camera = world.get::<Camera>(slot.camera).unwrap();
        match &camera.target {
            RenderTarget::Image(image) => {
                assert_eq!(image.clone().untyped(), target(1 + layer as u128));
            }
            _ => panic!("the camera of a slot renders into an image"),
        }
    }
}

#[test]
fn free_despawns_light_and_camera() {
    let mut world = World::new();
    let mut queue = CommandQueue::default();
    let mut spawner = SceneSpawner::default();
    let mut pool = pool(2, 8);
    {
        let mut commands = Commands::new(&mut queue, &world);
        occupy(&mut pool, &mut spawner, &mut commands, 1);
        occupy(&mut pool, &mut spawner, &mut commands, 2);
    }
    queue.apply(&mut world);
    let (light, camera) = {
        let slot = pool.slot(0).unwrap();
        (slot.light, slot.camera)
    };
    let kept = pool.slot(1).unwrap().camera;
    assert!(world.get_entity(light).is_ok());
    assert!(world.get_entity(camera).is_ok());

    {
        let mut commands = Commands::new(&mut queue, &world);
        pool.free(0, &mut commands);
    }
    queue.apply(&mut world);
    assert!(pool.slot(0).is_none());
    assert!(pool.slot(1).is_some());
    assert!(world.get_entity(light).is_err());
    assert!(world.get_entity(camera).is_err());
    assert!(world.get_entity(kept).is_ok());
}

#[test]
fn free_tolerates_entities_that_are_gone() {
    let mut world = World::new();
    let mut queue = CommandQueue::default();
    let mut spawner = SceneSpawner::default();
    let mut pool = pool(1, 8);
    {
        let mut commands = Commands::new(&mut queue, &world);
        occupy(&mut pool, &mut spawner, &mut commands, 1);
    }
    queue.apply(&mut world);
    let light = pool.slot(0).unwrap().light;
    world.despawn(light);
    {
        let mut commands = Commands::new(&mut queue, &world);
        pool.free(0, &mut commands);
    }
    queue.apply(&mut world);
    assert!(pool.slot(0).is_none());
}

#[test]
fn a_new_occupation_starts_untagged_and_uncounted() {
    let world = World::new();
    let mut queue = CommandQueue::default();
    let mut commands = Commands::new(&mut queue, &world);
    let mut spawner = SceneSpawner::default();
    let mut pool = pool(1, 2);

    occupy(&mut pool, &mut spawner, &mut commands, 1);
    assert!(pool.apply_layer(0, true));
    assert_eq!(pool.count_frame(0, true), None);
    assert!(pool.slot(0).unwrap().applied_layer);
    assert_eq!(pool.slot(0).unwrap().frames, Some(PreviewRenderedFrames { cur_frame: 1 }));

    pool.free(0, &mut commands);
    occupy(&mut pool, &mut spawner, &mut commands, 2);
    assert!(!pool.slot(0).unwrap().applied_layer);
    assert_eq!(pool.slot(0).unwrap().frames, Some(PreviewRenderedFrames { cur_frame: 0 }));
}

#[test]
fn render_layer_is_base_plus_index() {
    let mut settings = settings(4, 8);
    settings.base_layer = 200;
    let pool = PreviewSceneState::new(&settings, light_pose(), camera_pose());
    assert_eq!(pool.render_layer(0), 200);
    assert_eq!(pool.render_layer(3), 203);
}

#[test]
fn count_frame_signals_on_the_tick_that_reaches_the_threshold() {
    let world = World::new();
    let mut queue = CommandQueue::default();
    let mut commands = Commands::new(&mut queue, &world);
    let mut spawner = SceneSpawner::default();
    let mut pool = pool(2, 3);
    occupy(&mut pool, &mut spawner, &mut commands, 1);

    assert_eq!(pool.count_frame(0, true), None);
    assert_eq!(pool.slot(0).unwrap().frames, Some(PreviewRenderedFrames { cur_frame: 1 }));
    assert_eq!(pool.count_frame(0, true), None);
    assert_eq!(pool.slot(0).unwrap().frames, Some(PreviewRenderedFrames { cur_frame: 2 }));
    assert_eq!(pool.count_frame(0, true), Some(PreviewRendered { layer: 0 }));
    assert_eq!(pool.slot(0).unwrap().frames, None);
}

#[test]
fn count_frame_does_not_signal_twice() {
    let world = World::new();
    let mut queue = CommandQueue::default();
    let mut commands = Commands::new(&mut queue, &world);
    let mut spawner = SceneSpawner::default();
    let mut pool = pool(1, 1);
    occupy(&mut pool, &mut spawner, &mut commands, 1);

    assert_eq!(pool.count_frame(0, true), Some(PreviewRendered { layer: 0 }));
    assert_eq!(pool.count_frame(0, true), None);
    assert_eq!(pool.count_frame(0, true), None);
    assert_eq!(pool.slot(0).unwrap().frames, None);
}

#[test]
fn count_frame_ignores_ticks_without_readiness() {
    let world = World::new();
    let mut queue = CommandQueue::default();
    let mut commands = Commands::new(&mut queue, &world);
    let mut spawner = SceneSpawner::default();
    let mut pool = pool(1, 2);
    occupy(&mut pool, &mut spawner, &mut commands, 1);

    assert_eq!(pool.count_frame(0, false), None);
    assert_eq!(pool.count_frame(0, false), None);
    assert_eq!(pool.slot(0).unwrap().frames, Some(PreviewRenderedFrames { cur_frame: 0 }));
    assert_eq!(pool.count_frame(0, true), None);
    assert_eq!(pool.count_frame(0, false), None);
    assert_eq!(pool.slot(0).unwrap().frames, Some(PreviewRenderedFrames { cur_frame: 1 }));
    assert_eq!(pool.count_frame(0, true), Some(PreviewRendered { layer: 0 }));
}

#[test]
fn a_threshold_of_zero_signals_on_the_first_ready_tick() {
    let world = World::new();
    let mut queue = CommandQueue::default();
    let mut commands = Commands::new(&mut queue, &world);
    let mut spawner = SceneSpawner::default();
    let mut pool = pool(1, 0);
    occupy(&mut pool, &mut spawner, &mut commands, 1);

    assert_eq!(pool.count_frame(0, false), None);
    assert_eq!(pool.count_frame(0, true), Some(PreviewRendered { layer: 0 }));
}

#[test]
fn one_ready_tick_short_of_the_threshold_gives_no_signal() {
    let world = World::new();
    let mut queue = CommandQueue::default();
    let mut commands = Commands::new(&mut queue, &world);
    let mut spawner = SceneSpawner::default();
    let mut pool = pool(1, 8);
    occupy(&mut pool, &mut spawner, &mut commands, 1);

    for _ in 0..7 {
        assert_eq!(pool.count_frame(0, true), None);
    }
    assert_eq!(pool.slot(0).unwrap().frames, Some(PreviewRenderedFrames { cur_frame: 7 }));
    assert_eq!(pool.count_frame(0, true), Some(PreviewRendered { layer: 0 }));
}

#[test]
fn count_frame_leaves_free_and_missing_slots_alone() {
    let world = World::new();
    let mut queue = CommandQueue::default();
    let mut commands = Commands::new(&mut queue, &world);
    let mut spawner = SceneSpawner::default();
    let mut pool = pool(2, 1);
    occupy(&mut pool, &mut spawner, &mut commands, 1);

    assert_eq!(pool.count_frame(1, true), None);
    assert_eq!(pool.count_frame(2, true), None);
    assert_eq!(pool.count_frame(usize::MAX, true), None);
    assert!(pool.slot(1).is_none());
    assert_eq!(pool.slot(0).unwrap().frames, Some(PreviewRenderedFrames { cur_frame: 0 }));
}

#[test]
fn apply_layer_tags_once_per_occupation() {
    let world = World::new();
    let mut queue = CommandQueue::default();
    let mut commands = Commands::new(&mut queue, &world);
    let mut spawner = SceneSpawner::default();
    let mut pool = pool(2, 8);
    occupy(&mut pool, &mut spawner, &mut commands, 1);

    assert!(!pool.apply_layer(0, false));
    assert!(!pool.slot(0).unwrap().applied_layer);
    assert!(pool.apply_layer(0, true));
    assert!(pool.slot(0).unwrap().applied_layer);
    for _ in 0..5 {
        assert!(!pool.apply_layer(0, true));
        assert!(pool.slot(0).unwrap().applied_layer);
    }
    assert!(!pool.apply_layer(1, true));
    assert!(!pool.apply_layer(2, true));
}

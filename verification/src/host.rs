//! The calls into the host: the scene spawner that instantiates scenes, and the
//! command queue through which cameras, lights and layer tags reach the world.

use bevy::asset::UntypedHandle;
use bevy::core_pipeline::core_3d::Camera3d;
use bevy::ecs::entity::Entity;
use bevy::ecs::system::Commands;
use bevy::image::Image;
use bevy::pbr::DirectionalLight;
use bevy::render::camera::{Camera, RenderTarget};
use bevy::render::view::RenderLayers;
use bevy::scene::{InstanceId, Scene, SceneSpawner};
use bevy::transform::components::Transform;
use vstd::prelude::*;

verus! {

/// The highest visibility layer that the library hands to the renderer. A set of
/// layers is a bit vector as long as its highest layer, so a layer number costs
/// memory in proportion to its size.
pub const MAX_RENDER_LAYER: usize = 65535;

/// `bevy::scene::SceneSpawner`: it queues scenes for instantiation and knows
/// which instances are complete.
#[verifier::external_type_specification]
#[verifier::external_body]
pub struct ExSceneSpawner(SceneSpawner);

/// `bevy::scene::InstanceId`: the identifier of one instantiation of a scene.
#[verifier::external_type_specification]
#[verifier::external_body]
pub struct ExInstanceId(InstanceId);

/// `bevy::ecs::entity::Entity`: the identifier of an entity of the world.
#[verifier::external_type_specification]
#[verifier::external_body]
pub struct ExEntity(Entity);

/// `bevy::ecs::system::Commands`: the queue of deferred changes to the world.
#[verifier::external_type_specification]
#[verifier::external_body]
pub struct ExCommands<'w, 's>(Commands<'w, 's>);

/// `bevy::transform::components::Transform`: position, rotation and scale of
/// an entity.
#[verifier::external_type_specification]
#[verifier::external_body]
pub struct ExTransform(Transform);

/// `SceneSpawner::spawn`: queues an instantiation of the scene and returns the
/// identifier of the instance to come. The identifier is drawn at random, so
/// nothing is claimed of it.
#[verifier::external_body]
pub(crate) fn spawn_scene(spawner: &mut SceneSpawner, scene: &UntypedHandle) -> (instance:
    InstanceId) {
    spawner.spawn(scene.clone().typed_unchecked::<Scene>())
}

/// What `SceneSpawner::instance_is_ready` answers for this spawner and this
/// instance: whether the spawner holds the instance as built in full. The
/// answer is a lookup in the spawner, so the same spawner gives the same answer;
/// a spawner that has been handed on to the host may give another.
pub uninterp spec fn instance_ready(spawner: SceneSpawner, instance: InstanceId) -> bool;

/// `SceneSpawner::instance_is_ready`: whether the instance has been built in
/// full.
#[verifier::external_body]
pub(crate) fn instance_is_ready(spawner: &SceneSpawner, instance: InstanceId) -> (ready: bool)
    ensures
        ready == instance_ready(*spawner, instance),
{
    spawner.instance_is_ready(instance)
}

/// `SceneSpawner::despawn_instance`: queues the removal of the instance.
#[verifier::external_body]
pub(crate) fn despawn_instance(spawner: &mut SceneSpawner, instance: InstanceId) {
    spawner.despawn_instance(instance)
}

/// `SceneSpawner::iter_instance_entities`, collected: the entities that the
/// instance is made of, none while it is not ready. They come in the order in
/// which the spawner's hash map is walked, so nothing is claimed of the result.
#[verifier::external_body]
pub(crate) fn instance_entities(spawner: &SceneSpawner, instance: InstanceId) -> (entities: Vec<
    Entity,
>) {
    spawner.iter_instance_entities(instance).collect()
}

/// `Commands::spawn` of a directional light at `pose` that shines on `layer`
/// alone, and `EntityCommands::id` of the entity to come. The layer is bounded
/// because `RenderLayers::from_layers` reserves a bit for every layer up to it.
#[verifier::external_body]
pub(crate) fn spawn_light(commands: &mut Commands, pose: Transform, layer: usize) -> (light: Entity)
    requires
        layer <= MAX_RENDER_LAYER,
{
    commands.spawn((DirectionalLight::default(), pose, RenderLayers::from_layers(&[layer]))).id()
}

/// `Commands::spawn` of a 3D camera at `pose` that sees `layer` alone and
/// renders into the image behind `target`, and `EntityCommands::id` of the
/// entity to come.
#[verifier::external_body]
pub(crate) fn spawn_camera(
    commands: &mut Commands,
    pose: Transform,
    target: &UntypedHandle,
    layer: usize,
) -> (camera: Entity)
    requires
        layer <= MAX_RENDER_LAYER,
{
    let target = RenderTarget::Image(target.clone().typed_unchecked::<Image>());
    let camera = Camera { target, ..Default::default() };
    commands.spawn((Camera3d::default(), camera, pose, RenderLayers::from_layers(&[layer]))).id()
}

/// `Commands::get_entity` and, where the entity exists, `EntityCommands::despawn`:
/// queues the removal of the entity.
#[verifier::external_body]
pub(crate) fn despawn_entity(commands: &mut Commands, entity: Entity) {
    if let Some(mut entity_commands) = commands.get_entity(entity) {
        entity_commands.despawn();
    }
}

/// `Commands::try_insert_batch`: queues, for each of the entities, the insertion
/// of a `RenderLayers` component that holds `layer` alone. An entity that is
/// gone by the time the queue is applied is passed over.
#[verifier::external_body]
pub(crate) fn tag_entities(commands: &mut Commands, entities: Vec<Entity>, layer: usize)
    requires
        layer <= MAX_RENDER_LAYER,
{
    let batch: Vec<(Entity, RenderLayers)> =
        entities.into_iter().map(|entity| (entity, RenderLayers::from_layers(&[layer]))).collect();
    commands.try_insert_batch(batch);
}

} // verus!

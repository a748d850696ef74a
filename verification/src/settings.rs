//! Configuration of the preview renderer.

use crate::host::MAX_RENDER_LAYER;
use vstd::prelude::*;

verus! {

/// The visibility layer of the first render slot.
pub const BASE_PREVIEW_LAYER: usize = 128;

/// The number of render slots.
pub const PREVIEW_LAYERS_COUNT: usize = 8;

/// The number of ticks on which an instance must have been found ready before
/// its render counts as settled.
pub const PREVIEW_RENDER_FRAMES: u32 = 8;

/// The options of the preview renderer.
pub struct PreviewSettings {
    /// Width and height of the generated images, in pixels.
    pub resolution: (u32, u32),
    /// The number of render slots, fixed once a pool is made.
    pub slot_count: usize,
    /// The visibility layer of the first slot; slot `i` uses layer
    /// `base_layer + i`. No layer of the pool may be in use elsewhere in the
    /// host.
    pub base_layer: usize,
    /// The number of ready ticks after which a render counts as settled.
    pub settle_frames: u32,
}

impl PreviewSettings {
    /// The layers of all slots lie within what the renderer is handed.
    pub open spec fn layers_fit(&self) -> bool {
        self.base_layer + self.slot_count <= MAX_RENDER_LAYER + 1
    }

    /// Tells whether a pool can be made from these settings.
    pub fn is_valid(&self) -> (valid: bool)
        ensures
            valid == self.layers_fit(),
    {
        self.base_layer <= MAX_RENDER_LAYER + 1 && self.slot_count <= MAX_RENDER_LAYER + 1
            - self.base_layer
    }
}

impl Default for PreviewSettings {
    fn default() -> (settings: PreviewSettings)
        ensures
            settings.resolution == (256u32, 256u32),
            settings.slot_count == PREVIEW_LAYERS_COUNT,
            settings.base_layer == BASE_PREVIEW_LAYER,
            settings.settle_frames == PREVIEW_RENDER_FRAMES,
            settings.layers_fit(),
    {
        PreviewSettings {
            resolution: (256, 256),
            slot_count: PREVIEW_LAYERS_COUNT,
            base_layer: BASE_PREVIEW_LAYER,
            settle_frames: PREVIEW_RENDER_FRAMES,
        }
    }
}

} // verus!

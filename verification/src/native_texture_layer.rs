use vstd::prelude::*;
use crate::cx::{Cx, CxPart, CxTexture, TextureFormat};
use crate::ids::{LiveId, TextureId};

verus! {

/// A handle to a slot of the texture pool.
#[derive(Clone, Copy, Debug, PartialEq, Eq, Structural)]
pub struct Texture {
    pub id: TextureId,
}

impl Texture {
    /// The id of the pool slot this handle names.
    pub fn texture_id(&self) -> (r: TextureId)
        ensures
            r == self.id,
    {
        self.id
    }
}

/// An external texture that a native host view renders into, and how many
/// frames it has produced.
#[derive(Clone, Copy, Debug, PartialEq, Eq, Structural)]
pub struct NativeTextureLayer {
    pub host_id: LiveId,
    pub texture: Texture,
    pub generation: u64,
}

/// Notice that a native texture layer has a new frame.
#[derive(Clone, Copy, Debug, PartialEq, Eq, Structural)]
pub struct NativeTextureLayerFrame {
    pub host_id: LiveId,
    pub texture_id: TextureId,
    pub generation: u64,
}

impl NativeTextureLayer {
    /// The texture of the layer.
    pub fn texture(&self) -> (r: &Texture)
        ensures
            *r == self.texture,
    {
        &self.texture
    }

    /// The id of the layer's texture.
    pub fn texture_id(&self) -> (r: TextureId)
        ensures
            r == self.texture.id,
    {
        self.texture.texture_id()
    }

    /// Counts one more frame (saturating at `u64::MAX`) and describes it.
    pub fn mark_frame_available(&mut self) -> (r: NativeTextureLayerFrame)
        ensures
            final(self).host_id == old(self).host_id,
            final(self).texture == old(self).texture,
            final(self).generation == (if old(self).generation == u64::MAX {
                u64::MAX
            } else {
                (old(self).generation + 1) as u64
            }),
            r == (NativeTextureLayerFrame {
                host_id: final(self).host_id,
                texture_id: final(self).texture.id,
                generation: final(self).generation,
            }),
    {
        self.generation = self.generation.saturating_add(1);
        NativeTextureLayerFrame {
            host_id: self.host_id,
            texture_id: self.texture_id(),
            generation: self.generation,
        }
    }
}

impl Cx {
    /// Allocates a texture of the given format in a new pool slot.
    pub fn alloc_texture(&mut self, format: TextureFormat) -> (r: Texture)
        requires
            old(self).textures@.len() < usize::MAX,
        ensures
            r.id == TextureId(old(self).textures@.len() as usize),
            final(self).textures@ == old(self).textures@.push(CxTexture { format }),
            final(self).unchanged_except(*old(self), set![CxPart::Textures]),
    {
        let id = TextureId(self.textures.len());
        self.textures.push(CxTexture { format });
        Texture { id }
    }
}

/// Allocation of native texture layers.
pub trait NativeTextureLayerBridge {
    /// Whether there is room for one more texture.
    spec fn has_texture_slot(&self) -> bool;

    /// A layer for the host view `host_id`, with a texture of its own and no frame yet.
    fn alloc_native_texture_layer(&mut self, host_id: LiveId) -> (r: NativeTextureLayer)
        requires
            old(self).has_texture_slot(),
        ensures
            r.host_id == host_id,
            r.generation == 0,
    ;
}

impl NativeTextureLayerBridge for Cx {
    open spec fn has_texture_slot(&self) -> bool {
        self.textures@.len() < usize::MAX
    }

    /// Allocates a video-external texture in a new pool slot for the host view.
    fn alloc_native_texture_layer(&mut self, host_id: LiveId) -> (r: NativeTextureLayer)
        ensures
            r.texture.id == TextureId(old(self).textures@.len() as usize),
            final(self).textures@ == old(self).textures@.push(
                CxTexture { format: TextureFormat::VideoExternal },
            ),
            final(self).unchanged_except(*old(self), set![CxPart::Textures]),
    {
        let texture = self.alloc_texture(TextureFormat::VideoExternal);
        NativeTextureLayer { host_id, texture, generation: 0 }
    }
}


/// Each allocation takes the next pool slot, and slots are only added: a
/// texture allocated after another never shares its id.
pub proof fn law_allocated_textures_are_distinct(before: Seq<CxTexture>, first: CxTexture)
    requires
        before.len() + 1 < usize::MAX,
    ensures
        TextureId(before.len() as usize) != TextureId(before.push(first).len() as usize),
{
}

} // verus!

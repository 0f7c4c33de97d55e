//! Plain payload types for the scene-asset pieces that accompany the
//! animation core: the host's parsers fill them and hand them around.

use vstd::prelude::*;

verus! {

/// A parsed material: the texture names its samplers reference, in sampler
/// order, and its shader's name.
#[derive(Clone, Debug)]
pub struct FFXIVMaterial {
    pub texture_names: Vec<String>,
    pub shader_name: String,
}

impl FFXIVMaterial {
    /// Builds a material payload from its parsed pieces.
    pub fn new(texture_names: Vec<String>, shader_name: String) -> (r: FFXIVMaterial)
        ensures
            r.texture_names == texture_names,
            r.shader_name == shader_name,
    {
        FFXIVMaterial { texture_names, shader_name }
    }
}

/// A decoded texture: its pixels as tightly packed rows of four bytes each,
/// red, green, blue, alpha.
#[derive(Clone, Debug)]
pub struct FFXIVTexture {
    pub rgba: Vec<u8>,
}

impl FFXIVTexture {
    /// Builds a texture payload from decoded pixel bytes.
    pub fn new(rgba: Vec<u8>) -> (r: FFXIVTexture)
        ensures
            r.rgba == rgba,
    {
        FFXIVTexture { rgba }
    }

    /// How many whole four-byte pixels the payload holds.
    pub fn pixel_count(&self) -> (n: usize)
        ensures
            n == self.rgba@.len() / 4,
    {
        self.rgba.len() / 4
    }
}

} // verus!

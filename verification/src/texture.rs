//! Identity of a GPU texture object.
//!
//! The renderer binds textures by numeric handle.  Decoding image files and
//! the GL calls live in the unverified GPU layer; the core only tracks which
//! handle a texture carries.

use vstd::prelude::*;

verus! {

/// A GPU texture handle.
pub struct Texture {
    pub tex_id: u32,
}

impl Texture {
    /// Wrap an already-created GPU handle.
    pub fn new(tex_id: u32) -> (t: Texture)
        ensures
            t.tex_id == tex_id,
    {
        Texture { tex_id }
    }

    /// The raw handle the GPU layer binds.
    pub fn bind_id(&self) -> (id: u32)
        ensures
            id == self.tex_id,
    {
        self.tex_id
    }
}

} // verus!

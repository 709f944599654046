use vstd::prelude::*;

verus! {

/// A diffuse surface whose reflectance comes from a texture.
#[derive(Debug, Clone)]
pub struct Lambertian<T> {
    pub texture: T,
}

/// A light source that emits its texture's color and never scatters.
#[derive(Debug, Clone)]
pub struct DiffuseLight<T> {
    texture: T,
}

impl<T> DiffuseLight<T> {
    pub closed spec fn emitter(&self) -> T {
        self.texture
    }

    pub fn new(texture: T) -> (r: DiffuseLight<T>)
        ensures
            r.emitter() == texture,
    {
        DiffuseLight { texture }
    }

    /// The texture whose color this light emits.
    pub fn texture(&self) -> (r: &T)
        ensures
            *r == self.emitter(),
    {
        &self.texture
    }
}

} // verus!

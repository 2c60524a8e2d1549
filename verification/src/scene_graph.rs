//! The scene: an ordered collection of primitives with their materials,
//! immutable during a render pass.

pub mod material;
pub mod primitive;

use vstd::prelude::*;

pub use material::{Diffuse, Material, Metal};
pub use primitive::Prim;

verus! {

/// One entry of the scene: a shape and its material.
pub type SceneNode = (Prim, Material);

/// An ordered, append-only collection of scene nodes.
#[derive(Clone)]
pub struct Scene {
    storage: Vec<SceneNode>,
}

impl View for Scene {
    type V = Seq<SceneNode>;

    closed spec fn view(&self) -> Seq<SceneNode> {
        self.storage@
    }
}

impl Scene {
    /// Every material in the scene reflects no more light than it receives.
    pub open spec fn wf(&self) -> bool {
        forall|i: int| 0 <= i < self@.len() ==> (#[trigger] self@[i]).1.wf()
    }

    /// An empty scene.
    pub fn new() -> (r: Scene)
        ensures
            r@ == Seq::<SceneNode>::empty(),
            r.wf(),
    {
        let r = Scene { storage: Vec::new() };
        proof {
            assert(r@ =~= Seq::<SceneNode>::empty());
        }
        r
    }

    /// Appends a primitive with its material.
    pub fn add(&mut self, primitive: Prim, material: Material)
        ensures
            final(self)@ == old(self)@.push((primitive, material)),
    {
        self.storage.push((primitive, material));
    }

    /// The nodes, in insertion order.
    pub fn iter(&self) -> (r: &Vec<SceneNode>)
        ensures
            r@ == self@,
    {
        &self.storage
    }
}

} // verus!

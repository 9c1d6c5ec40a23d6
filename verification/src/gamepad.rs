//! A standard gamepad as the platform layer reports it.

use vstd::prelude::*;

verus! {

/// A w3c "standard gamepad": the model id and the name that the platform
/// reported for it.
pub struct Gamepad {
    id: u32,
    name: String,
}

impl Gamepad {
    /// The model id that the platform reported.
    pub closed spec fn spec_id(&self) -> u32 {
        self.id
    }

    /// The name that the platform reported.
    pub closed spec fn spec_name(&self) -> Seq<char> {
        self.name@
    }

    /// A gamepad of model `id` named `name`.
    pub fn new(id: u32, name: String) -> (r: Gamepad)
        ensures
            r.spec_id() == id,
            r.spec_name() == name@,
    {
        Gamepad { id, name }
    }

    /// A unique identifier for the gamepad's model.
    pub fn id(&self) -> (r: u32)
        ensures
            r == self.spec_id(),
    {
        self.id
    }

    /// The name of the gamepad.
    pub fn name(&self) -> (r: String)
        ensures
            r@ == self.spec_name(),
    {
        self.name.clone()
    }
}

} // verus!

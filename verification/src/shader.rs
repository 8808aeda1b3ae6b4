//! A handle to a linked shader program. Compiling and linking, and every
//! call that touches the graphics context, live with the host program;
//! this type carries the one invariant the rest of the code relies on:
//! the handle names a successfully linked program, and such names are
//! never zero.

use vstd::prelude::*;

verus! {

/// An owned, linked shader program handle.
#[derive(Clone, Copy, PartialEq, Eq, Structural, Debug)]
pub struct Shader {
    pub id: u32,
}

impl Shader {
    /// Valid for the object's whole lifetime: the graphics context gives
    /// linked programs nonzero names, and zero never names one.
    pub open spec fn valid(self) -> bool {
        self.id != 0
    }

    /// Wraps a program handle the graphics context linked successfully.
    pub fn from_program(id: u32) -> (s: Shader)
        requires
            id != 0,
        ensures
            s.valid(),
            s.id == id,
    {
        Shader { id: id }
    }

    /// The raw handle, for the host's graphics calls.
    pub fn program_id(&self) -> (r: u32)
        ensures
            r == self.id,
    {
        self.id
    }
}

} // verus!

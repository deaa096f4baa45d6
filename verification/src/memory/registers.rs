use vstd::prelude::*;

verus! {

/// One of the sixteen general-purpose registers.  `VF` doubles as the
/// carry, borrow and collision flag: arithmetic, shift and draw operations
/// overwrite it silently.
#[derive(Clone, Copy, Debug, PartialEq, Eq, Structural)]
pub enum Register {
    V0,
    V1,
    V2,
    V3,
    V4,
    V5,
    V6,
    V7,
    V8,
    V9,
    VA,
    VB,
    VC,
    VD,
    VE,
    VF,
}

impl Register {
    /// The register's position in the file.
    pub open spec fn index_spec(self) -> int {
        match self {
            Register::V0 => 0,
            Register::V1 => 1,
            Register::V2 => 2,
            Register::V3 => 3,
            Register::V4 => 4,
            Register::V5 => 5,
            Register::V6 => 6,
            Register::V7 => 7,
            Register::V8 => 8,
            Register::V9 => 9,
            Register::VA => 10,
            Register::VB => 11,
            Register::VC => 12,
            Register::VD => 13,
            Register::VE => 14,
            Register::VF => 15,
        }
    }

    /// The register's position in the file.
    pub fn index(self) -> (r: u8)
        ensures
            r == self.index_spec(),
            r < 16,
    {
        match self {
            Register::V0 => 0,
            Register::V1 => 1,
            Register::V2 => 2,
            Register::V3 => 3,
            Register::V4 => 4,
            Register::V5 => 5,
            Register::V6 => 6,
            Register::V7 => 7,
            Register::V8 => 8,
            Register::V9 => 9,
            Register::VA => 10,
            Register::VB => 11,
            Register::VC => 12,
            Register::VD => 13,
            Register::VE => 14,
            Register::VF => 15,
        }
    }
}

/// The register file: sixteen 8-bit registers and the 16-bit address
/// register `I` (called `image` here).  A register index is always derived
/// from a decoded 4-bit field, so it is in range by construction; the
/// contracts demand it, and a caller that cannot show it has a decoder
/// defect.
pub struct Registers {
    pub values: Vec<u8>,
    /// The address register.
    pub image: u16,
}

impl View for Registers {
    type V = Seq<u8>;

    open spec fn view(&self) -> Seq<u8> {
        self.values@
    }
}

impl Registers {
    /// Sixteen slots, no more, no fewer.
    pub open spec fn wf(self) -> bool {
        self@.len() == 16
    }

    /// A fresh file: every register and the address register zero.
    pub fn new() -> (r: Self)
        ensures
            r.wf(),
            forall|i: int| 0 <= i < 16 ==> r@[i] == 0u8,
            r.image == 0,
    {
        let mut values: Vec<u8> = Vec::new();
        let mut i: usize = 0;
        while i < 16
            invariant
                i <= 16,
                values@.len() == i,
                forall|j: int| 0 <= j < i ==> values@[j] == 0u8,
            decreases 16 - i,
        {
            values.push(0);
            i += 1;
        }
        Registers { values, image: 0 }
    }

    /// Reads register `index`.
    pub fn get(&self, index: u8) -> (r: u8)
        requires
            self.wf(),
            index < 16,
        ensures
            r == self@[index as int],
    {
        self.values[index as usize]
    }

    /// Writes register `index`.
    pub fn set(&mut self, index: u8, value: u8)
        requires
            old(self).wf(),
            index < 16,
        ensures
            final(self).wf(),
            final(self)@ == old(self)@.update(index as int, value),
            final(self).image == old(self).image,
    {
        self.values.set(index as usize, value);
    }
}

} // verus!

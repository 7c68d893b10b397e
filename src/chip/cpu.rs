//! Processors.
pub mod nes6502;

pub use nes6502::Nes6502;



use vstd::prelude::*;

verus! {

/// A processor register.
#[derive(Debug, Clone, Copy)]
pub struct Reg<T: Copy> {
    pub inner: T,
}

impl Reg<u8> {
    pub fn from_u8(v: u8) -> (r: Reg<u8>)
        ensures
            r.inner == v,
    {
        Reg { inner: v }
    }

    /// Adds one, wrapping.
    pub fn inc(&mut self)
        ensures
            final(self).inner == (old(self).inner + 1) % 256,
    {
        self.inner = if self.inner == 255 { 0 } else { self.inner + 1 };
    }

    /// Subtracts one, wrapping.
    pub fn dec(&mut self)
        ensures
            final(self).inner == (old(self).inner + 255) % 256,
    {
        self.inner = if self.inner == 0 { 255 } else { self.inner - 1 };
    }
}

impl Reg<u16> {
    pub fn from_u16(v: u16) -> (r: Reg<u16>)
        ensures
            r.inner == v,
    {
        Reg { inner: v }
    }

    /// Adds one, wrapping.
    pub fn inc(&mut self)
        ensures
            final(self).inner == (old(self).inner + 1) % 65536,
    {
        self.inner = if self.inner == 65535 { 0 } else { self.inner + 1 };
    }

    /// Subtracts one, wrapping.
    pub fn dec(&mut self)
        ensures
            final(self).inner == (old(self).inner + 65535) % 65536,
    {
        self.inner = if self.inner == 0 { 65535 } else { self.inner - 1 };
    }
}

} // verus!

//! Addresses in the processor's I/O port space.

use core::marker::PhantomData;
use vstd::prelude::*;

verus! {

/// The widths in which an I/O port can be read and written.
pub trait PortIO: Sized {

}

impl PortIO for u8 {

}

impl PortIO for u16 {

}

impl PortIO for u32 {

}

/// An I/O port that is accessed in width `T` and whose content reads as `R`.
pub struct Port<T: PortIO, R: From<T> + Into<T>> {
    port: u16,
    __: PhantomData<T>,
    ___: PhantomData<R>,
}

impl<T: PortIO, R: From<T> + Into<T>> Clone for Port<T, R> {
    fn clone(&self) -> (copy: Self)
        ensures
            copy@ == self@,
    {
        Self { port: self.port, __: PhantomData, ___: PhantomData }
    }
}

impl<T: PortIO, R: From<T> + Into<T>> Copy for Port<T, R> {

}

impl<T: PortIO, R: From<T> + Into<T>> View for Port<T, R> {
    type V = u16;

    closed spec fn view(&self) -> u16 {
        self.port
    }
}

impl<T: PortIO, R: From<T> + Into<T>> Port<T, R> {
    /// The port at address `port`.
    #[must_use]
    pub fn new(port: u16) -> (r: Self)
        ensures
            r@ == port,
    {
        Self { port, __: PhantomData, ___: PhantomData }
    }

    /// The address of the port.
    pub fn address(&self) -> (address: u16)
        ensures
            address == self@,
    {
        self.port
    }

    /// The address `off` ports above this one, which must exist.
    pub fn address_off(&self, off: u16) -> (address: u16)
        requires
            self@ + off <= u16::MAX,
        ensures
            address == self@ + off,
    {
        self.port + off
    }
}

} // verus!

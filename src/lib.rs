//! Precise, type-directed heap scanning on top of a conservative
//! mark-sweep collector.
//!
//! Types describe which machine words of their representation may hold
//! references to collected memory (`tracing::BoehmTraced`); those word
//! classifications are packed into the bitmap format that the collector's
//! typed allocation entry point compiles into a descriptor
//! (`tracing::make_descriptor`). The handles themselves (`Gc`,
//! `tracing::GcTracing`) hold the address of one collector allocation.
#![allow(non_snake_case)]

use vstd::prelude::*;

pub mod tracing;

verus! {

/// A handle on one collector allocation of a `T` that the collector scans
/// conservatively: every word of it is taken for a possible pointer. It
/// holds the allocation's address; when the allocation is reclaimed is up
/// to the collector alone, so dropping a handle releases nothing.
pub struct Gc<T> {
    addr: usize,
    marker: core::marker::PhantomData<T>,
}

impl<T> View for Gc<T> {
    type V = usize;

    closed spec fn view(&self) -> usize {
        self.addr
    }
}

impl<T> Clone for Gc<T> {
    /// Another handle on the same allocation.
    fn clone(&self) -> (r: Self)
        ensures
            r == *self,
    {
        proof {
            use_type_invariant(self);
        }
        Gc { addr: self.addr, marker: core::marker::PhantomData }
    }
}

impl<T> Gc<T> {
    #[verifier::type_invariant]
    closed spec fn non_null(&self) -> bool {
        self.addr != 0
    }

    /// Wraps the address that the collector's untyped allocation returned.
    /// A null address means the collector is out of memory: no handle is
    /// made for it.
    pub fn from_addr(addr: usize) -> (r: Option<Self>)
        ensures
            r is None <==> addr == 0,
            r matches Some(h) ==> h@ == addr,
    {
        if addr == 0 {
            None
        } else {
            Some(Gc { addr, marker: core::marker::PhantomData })
        }
    }

    /// The address of the allocation, never null.
    pub fn addr(&self) -> (r: usize)
        ensures
            r == self@,
            r != 0,
    {
        proof {
            use_type_invariant(self);
        }
        self.addr
    }
}

} // verus!

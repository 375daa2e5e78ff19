//! Immutable, reference-counted byte storage with O(1) non-copying
//! sub-range views.
//!
//! Any two `SharedData` values derived from the same origin via
//! [`SharedData::head`] / [`SharedData::tail`] alias ranges of the *same*
//! backing storage; slicing never allocates, and no operation ever exposes a
//! mutable view of a shared buffer.

use crate::error::VariantError;
use std::rc::Rc;
use vstd::prelude::*;

verus! {

/// A read-only window `[start, end)` into a shared byte buffer.
#[derive(Debug)]
pub struct SharedData {
    data: Rc<Vec<u8>>,
    start: usize,
    end: usize,
}

impl View for SharedData {
    type V = Seq<u8>;

    /// The bytes visible through this window.
    closed spec fn view(&self) -> Seq<u8> {
        self.data@.subrange(self.start as int, self.end as int)
    }
}

impl SharedData {
    /// The whole backing storage this window aliases.
    pub closed spec fn storage(self) -> Seq<u8> {
        self.data@
    }

    /// Offset of the window's first byte within the backing storage.
    pub closed spec fn spec_start(self) -> int {
        self.start as int
    }

    #[verifier::type_invariant]
    spec fn wf(self) -> bool {
        self.start <= self.end <= self.data@.len()
    }

    /// Wrap a byte buffer; the new window covers all of it.
    pub fn new(data: Vec<u8>) -> (r: Self)
        ensures
            r@ == data@,
            r.storage() == data@,
            r.spec_start() == 0,
    {
        let len = data.len();
        let r = SharedData { data: Rc::new(data), start: 0, end: len };
        proof {
            assert(r@ =~= r.data@);
        }
        r
    }

    /// Length of the visible range; O(1).
    pub fn len(&self) -> (r: usize)
        ensures
            r == self@.len(),
    {
        proof {
            use_type_invariant(self);
        }
        self.end - self.start
    }

    /// The first `n` bytes as an independent window sharing the same
    /// storage.  Fails with `InsufficientData` when `n` exceeds the length.
    pub fn head(&self, n: usize) -> (r: Result<Self, VariantError>)
        ensures
            match r {
                Ok(h) => {
                    &&& n <= self@.len()
                    &&& h@ == self@.subrange(0, n as int)
                    &&& h.storage() == self.storage()
                    &&& h.spec_start() == self.spec_start()
                },
                Err(e) => n > self@.len() && e == VariantError::InsufficientData,
            },
    {
        proof {
            use_type_invariant(self);
        }
        if n > self.end - self.start {
            Err(VariantError::InsufficientData)
        } else {
            let r = SharedData {
                data: Rc::clone(&self.data),
                start: self.start,
                end: self.start + n,
            };
            proof {
                assert(r@ =~= self@.subrange(0, n as int));
            }
            Ok(r)
        }
    }

    /// Everything after the first `n` bytes, as an independent window
    /// sharing the same storage.  Fails with `InsufficientData` when `n`
    /// exceeds the length.
    pub fn tail(&self, n: usize) -> (r: Result<Self, VariantError>)
        ensures
            match r {
                Ok(t) => {
                    &&& n <= self@.len()
                    &&& t@ == self@.subrange(n as int, self@.len() as int)
                    &&& t.storage() == self.storage()
                    &&& t.spec_start() == self.spec_start() + n
                },
                Err(e) => n > self@.len() && e == VariantError::InsufficientData,
            },
    {
        proof {
            use_type_invariant(self);
        }
        if n > self.end - self.start {
            Err(VariantError::InsufficientData)
        } else {
            let r = SharedData {
                data: Rc::clone(&self.data),
                start: self.start + n,
                end: self.end,
            };
            proof {
                assert(r@ =~= self@.subrange(n as int, self@.len() as int));
            }
            Ok(r)
        }
    }

    /// Borrow the visible bytes.  The borrow cannot outlive this window, so
    /// no caller can hold raw bytes once the window is gone.
    pub fn bytes(&self) -> (r: &[u8])
        ensures
            r@ == self@,
    {
        proof {
            use_type_invariant(self);
        }
        vstd::slice::slice_subrange((*self.data).as_slice(), self.start, self.end)
    }

    /// Hand `f` transient read access to the raw bytes and return its
    /// result.  This and [`SharedData::bytes`] are the only sanctioned
    /// accesses to the raw storage.
    pub fn apply<R, F: FnOnce(&[u8]) -> R>(&self, f: F) -> (r: R)
        requires
            forall|s: &[u8]| s@ == self@ ==> call_requires(f, (s,)),
        ensures
            exists|s: &[u8]| s@ == self@ && call_ensures(f, (s,), r),
    {
        f(self.bytes())
    }
}

} // verus!

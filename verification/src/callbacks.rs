//! Registration of the six host callback slots.
//!
//! At load the host hands the module one function pointer per query
//! operation. The module stores each under its discriminated kind; the slots
//! are written during load and only read afterwards. The pointer itself is
//! opaque here — a numeric value carried for the unverified shim to call.

use vstd::prelude::*;

verus! {

/// Discriminates the six callback slots.
#[derive(Clone, Copy, PartialEq, Eq, Structural, Debug)]
pub enum CallbackType {
    QueryGetFn,
    QueryGetMutFn,
    QueryGetFirstFn,
    QueryGetFirstMutFn,
    QueryForEachFn,
    QueryParForEachFn,
}

/// The six callback slots, each empty until the host registers it.
pub struct CallbackSlots {
    pub query_get_fn: Option<usize>,
    pub query_get_mut_fn: Option<usize>,
    pub query_get_first_fn: Option<usize>,
    pub query_get_first_mut_fn: Option<usize>,
    pub query_for_each_fn: Option<usize>,
    pub query_par_for_each_fn: Option<usize>,
}

impl CallbackSlots {
    pub open spec fn spec_slot(&self, kind: CallbackType) -> Option<usize> {
        match kind {
            CallbackType::QueryGetFn => self.query_get_fn,
            CallbackType::QueryGetMutFn => self.query_get_mut_fn,
            CallbackType::QueryGetFirstFn => self.query_get_first_fn,
            CallbackType::QueryGetFirstMutFn => self.query_get_first_mut_fn,
            CallbackType::QueryForEachFn => self.query_for_each_fn,
            CallbackType::QueryParForEachFn => self.query_par_for_each_fn,
        }
    }

    pub fn new() -> (r: CallbackSlots)
        ensures
            forall|kind: CallbackType| #[trigger] r.spec_slot(kind) is None,
    {
        let r = CallbackSlots {
            query_get_fn: None,
            query_get_mut_fn: None,
            query_get_first_fn: None,
            query_get_first_mut_fn: None,
            query_for_each_fn: None,
            query_par_for_each_fn: None,
        };
        proof {
            assert forall|kind: CallbackType| #[trigger] r.spec_slot(kind) is None by {
                match kind {
                    CallbackType::QueryGetFn => {},
                    CallbackType::QueryGetMutFn => {},
                    CallbackType::QueryGetFirstFn => {},
                    CallbackType::QueryGetFirstMutFn => {},
                    CallbackType::QueryForEachFn => {},
                    CallbackType::QueryParForEachFn => {},
                }
            }
        }
        r
    }

    /// Stores one callback under its kind; the other five slots keep their
    /// contents.
    pub fn set_callback_fn(&mut self, kind: CallbackType, callback: usize)
        ensures
            final(self).spec_slot(kind) == Some(callback),
            forall|other: CallbackType|
                other != kind ==> #[trigger] final(self).spec_slot(other) == old(self).spec_slot(
                    other,
                ),
    {
        match kind {
            CallbackType::QueryGetFn => {
                self.query_get_fn = Some(callback);
            },
            CallbackType::QueryGetMutFn => {
                self.query_get_mut_fn = Some(callback);
            },
            CallbackType::QueryGetFirstFn => {
                self.query_get_first_fn = Some(callback);
            },
            CallbackType::QueryGetFirstMutFn => {
                self.query_get_first_mut_fn = Some(callback);
            },
            CallbackType::QueryForEachFn => {
                self.query_for_each_fn = Some(callback);
            },
            CallbackType::QueryParForEachFn => {
                self.query_par_for_each_fn = Some(callback);
            },
        }
        proof {
            assert forall|other: CallbackType|
                other != kind implies #[trigger] final(self).spec_slot(other) == old(
                self,
            ).spec_slot(other) by {
                match other {
                    CallbackType::QueryGetFn => {},
                    CallbackType::QueryGetMutFn => {},
                    CallbackType::QueryGetFirstFn => {},
                    CallbackType::QueryGetFirstMutFn => {},
                    CallbackType::QueryForEachFn => {},
                    CallbackType::QueryParForEachFn => {},
                }
            }
        }
    }

    /// Reads one slot.
    pub fn slot(&self, kind: CallbackType) -> (r: Option<usize>)
        ensures
            r == self.spec_slot(kind),
    {
        match kind {
            CallbackType::QueryGetFn => self.query_get_fn,
            CallbackType::QueryGetMutFn => self.query_get_mut_fn,
            CallbackType::QueryGetFirstFn => self.query_get_first_fn,
            CallbackType::QueryGetFirstMutFn => self.query_get_first_mut_fn,
            CallbackType::QueryForEachFn => self.query_for_each_fn,
            CallbackType::QueryParForEachFn => self.query_par_for_each_fn,
        }
    }

    /// Whether every slot has been registered, so the query surface may be
    /// used.
    pub fn all_set(&self) -> (r: bool)
        ensures
            r == forall|kind: CallbackType| #[trigger] self.spec_slot(kind) is Some,
    {
        let r = self.query_get_fn.is_some() && self.query_get_mut_fn.is_some()
            && self.query_get_first_fn.is_some() && self.query_get_first_mut_fn.is_some()
            && self.query_for_each_fn.is_some() && self.query_par_for_each_fn.is_some();
        proof {
            if r {
                assert forall|kind: CallbackType| #[trigger] self.spec_slot(kind) is Some by {
                    match kind {
                        CallbackType::QueryGetFn => {},
                        CallbackType::QueryGetMutFn => {},
                        CallbackType::QueryGetFirstFn => {},
                        CallbackType::QueryGetFirstMutFn => {},
                        CallbackType::QueryForEachFn => {},
                        CallbackType::QueryParForEachFn => {},
                    }
                }
            } else {
                if self.query_get_fn is None {
                    assert(self.spec_slot(CallbackType::QueryGetFn) is None);
                } else if self.query_get_mut_fn is None {
                    assert(self.spec_slot(CallbackType::QueryGetMutFn) is None);
                } else if self.query_get_first_fn is None {
                    assert(self.spec_slot(CallbackType::QueryGetFirstFn) is None);
                } else if self.query_get_first_mut_fn is None {
                    assert(self.spec_slot(CallbackType::QueryGetFirstMutFn) is None);
                } else if self.query_for_each_fn is None {
                    assert(self.spec_slot(CallbackType::QueryForEachFn) is None);
                } else {
                    assert(self.spec_slot(CallbackType::QueryParForEachFn) is None);
                }
            }
        }
        r
    }
}

} // verus!

//! The two-state currency machine for a single rendering context.
//!
//! A context handle owns an opaque context resource `R` and records whether
//! the context is believed to be current (bound) on the calling thread.  The
//! transitions consume the handle and either produce a handle in the other
//! state or hand the original handle back together with the platform error,
//! so a failed transition never leaves a partially-moved value behind.

use vstd::prelude::*;

verus! {

/// A context resource tagged with its binding state.
///
/// `PossiblyCurrent` means the context is believed to hold the thread's
/// binding slot; `NotCurrent` means it does not.  At most one live handle
/// exists per underlying context, so the variant is the authoritative
/// bookkeeping for that context's state.
#[derive(Debug)]
pub enum ContextCurrentWrapper<R> {
    PossiblyCurrent(R),
    NotCurrent(R),
}

impl<R> ContextCurrentWrapper<R> {
    /// The underlying context resource, whatever the binding state.
    pub open spec fn resource(self) -> R {
        match self {
            ContextCurrentWrapper::PossiblyCurrent(c) => c,
            ContextCurrentWrapper::NotCurrent(c) => c,
        }
    }

    /// Whether this handle is in the `PossiblyCurrent` state.
    pub open spec fn spec_is_current(self) -> bool {
        self is PossiblyCurrent
    }

    /// Run-time observer for the binding state.
    pub fn is_current(&self) -> (r: bool)
        ensures
            r == self.spec_is_current(),
    {
        matches!(self, ContextCurrentWrapper::PossiblyCurrent(_))
    }

    /// Give the underlying resource back to the caller, consuming the handle.
    pub fn into_inner(self) -> (r: R)
        ensures
            r == self.resource(),
    {
        match self {
            ContextCurrentWrapper::PossiblyCurrent(c) => c,
            ContextCurrentWrapper::NotCurrent(c) => c,
        }
    }

    /// Borrow the underlying resource mutably, whatever the binding state.
    ///
    /// The binding state is unchanged; only the resource behind it can be
    /// modified through the returned borrow.
    pub fn resource_mut(&mut self) -> (r: &mut R)
        ensures
            *r == old(self).resource(),
            (*old(self)) is PossiblyCurrent ==> *final(self)
                == ContextCurrentWrapper::PossiblyCurrent(*final(r)),
            (*old(self)) is NotCurrent ==> *final(self)
                == ContextCurrentWrapper::NotCurrent(*final(r)),
    {
        match self {
            ContextCurrentWrapper::PossiblyCurrent(c) => c,
            ContextCurrentWrapper::NotCurrent(c) => c,
        }
    }

    /// Relabel the handle `NotCurrent` without any platform call.
    ///
    /// This is pure bookkeeping, used when a separate successful bind has
    /// already revoked this context's hardware binding, so the platform must
    /// not be asked to unbind it again.  It cannot fail.
    pub fn force_mark_unbound(self) -> (h: Self)
        ensures
            h == ContextCurrentWrapper::NotCurrent(self.resource()),
    {
        match self {
            ContextCurrentWrapper::PossiblyCurrent(c) => ContextCurrentWrapper::NotCurrent(c),
            ContextCurrentWrapper::NotCurrent(c) => ContextCurrentWrapper::NotCurrent(c),
        }
    }

    /// Transition toward `PossiblyCurrent` through the platform bind call `op`.
    ///
    /// On an already-current handle this is a no-op success and `op` is never
    /// invoked.  Otherwise `op` receives the resource; on success the result
    /// is a `PossiblyCurrent` handle around whatever `op` returned, and on
    /// failure the `NotCurrent` handle that `op` handed back is returned
    /// together with the platform error.
    pub fn bind<E, F: FnOnce(R) -> Result<R, (R, E)>>(self, op: F) -> (out: Result<
        Self,
        (Self, E),
    >)
        requires
            forall|x: R| #[trigger] call_requires(op, (x,)),
        ensures
            self is PossiblyCurrent ==> (out matches Ok(h) && h == self),
            self is NotCurrent ==> (match out {
                Ok(h) => h is PossiblyCurrent && call_ensures(
                    op,
                    (self.resource(),),
                    Ok(h.resource()),
                ),
                Err((h, e)) => h is NotCurrent && call_ensures(
                    op,
                    (self.resource(),),
                    Err((h.resource(), e)),
                ),
            }),
    {
        match self {
            ContextCurrentWrapper::PossiblyCurrent(c) => Ok(
                ContextCurrentWrapper::PossiblyCurrent(c),
            ),
            ContextCurrentWrapper::NotCurrent(c) => match op(c) {
                Ok(c2) => Ok(ContextCurrentWrapper::PossiblyCurrent(c2)),
                Err((c2, e)) => Err((ContextCurrentWrapper::NotCurrent(c2), e)),
            },
        }
    }

    /// Transition toward `NotCurrent` through the platform unbind call `op`.
    ///
    /// On an already-unbound handle this is a no-op success and `op` is never
    /// invoked.  Otherwise `op` receives the resource; on success the result
    /// is a `NotCurrent` handle around whatever `op` returned, and on failure
    /// the `PossiblyCurrent` handle that `op` handed back is returned
    /// together with the platform error.
    pub fn unbind<E, F: FnOnce(R) -> Result<R, (R, E)>>(self, op: F) -> (out: Result<
        Self,
        (Self, E),
    >)
        requires
            forall|x: R| #[trigger] call_requires(op, (x,)),
        ensures
            self is NotCurrent ==> (out matches Ok(h) && h == self),
            self is PossiblyCurrent ==> (match out {
                Ok(h) => h is NotCurrent && call_ensures(
                    op,
                    (self.resource(),),
                    Ok(h.resource()),
                ),
                Err((h, e)) => h is PossiblyCurrent && call_ensures(
                    op,
                    (self.resource(),),
                    Err((h.resource(), e)),
                ),
            }),
    {
        match self {
            ContextCurrentWrapper::NotCurrent(c) => Ok(ContextCurrentWrapper::NotCurrent(c)),
            ContextCurrentWrapper::PossiblyCurrent(c) => match op(c) {
                Ok(c2) => Ok(ContextCurrentWrapper::NotCurrent(c2)),
                Err((c2, e)) => Err((ContextCurrentWrapper::PossiblyCurrent(c2), e)),
            },
        }
    }
}

} // verus!

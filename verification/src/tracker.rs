//! The multi-context tracker.
//!
//! The tracker owns a registry of context handles keyed by identifiers it
//! mints itself, and remembers which identifier, if any, is current on the
//! calling thread.  Its abstract state is a [`TrackerModel`]; the invariant
//! [`TrackerModel::inv`] pins the heart of the design: at most one
//! registered handle is `PossiblyCurrent`, and it is exactly the one named
//! by `current`.
//!
//! The platform calls that move the hardware binding are foreign and
//! fallible; they enter as closures, and a ghost sequence of
//! [`PlatformCall`] records, in order, every platform call the tracker
//! issues, so the contracts can state which operations touch the platform
//! and which are pure bookkeeping.

use vstd::prelude::*;

use crate::handle::ContextCurrentWrapper;

verus! {

/// Identifier minted by the tracker for a registered context.
pub type ContextId = usize;

/// A platform call issued by the tracker, recorded in the ghost call log.
#[derive(Clone, Copy, Debug, PartialEq, Eq)]
pub enum PlatformCall {
    /// The bind call that makes the identified context current.
    Bind(ContextId),
    /// The unbind call that releases the identified context.
    Unbind(ContextId),
}

/// Failure surfaced by tracker operations.  `E` is the platform's own error
/// descriptor, handed through unchanged.
#[derive(Debug)]
pub enum TrackerError<E> {
    /// The platform bind call failed; the tracker rolled back to a state in
    /// which no context is current.
    BindFailed(E),
    /// The platform unbind call failed during an explicit release of the
    /// current context; the tracker state is unchanged.
    UnbindFailed(E),
    /// The identifier is not registered.
    LookupFailed,
    /// Both the bind call and the compensating unbind call failed.  The
    /// tracker can no longer tell which context, if any, holds the hardware
    /// binding; it is poisoned and refuses all further operations.  Carries
    /// the bind error, then the unbind error.
    Fatal(E, E),
}

/// The abstract state of a tracker.
///
/// `entries` lists the registered contexts in registration order; `current`
/// names the one believed to hold the thread's binding slot; `next_id` is
/// the monotone counter that mints identifiers; `minted` collects every
/// identifier the tracker has ever handed out; `calls` records every
/// platform call issued, in order; `poisoned` is set once the tracker has
/// lost track of the hardware state.
pub struct TrackerModel<R> {
    pub current: Option<ContextId>,
    pub entries: Seq<(ContextId, ContextCurrentWrapper<R>)>,
    pub next_id: ContextId,
    pub minted: Set<ContextId>,
    pub calls: Seq<PlatformCall>,
    pub poisoned: bool,
}

impl<R> TrackerModel<R> {
    /// Whether `id` is registered.
    pub open spec fn has_id(self, id: ContextId) -> bool {
        exists|j: int| 0 <= j < self.entries.len() && (#[trigger] self.entries[j]).0 == id
    }

    /// The registry index holding `id` (unique when the invariant holds).
    pub open spec fn idx_of(self, id: ContextId) -> int {
        choose|j: int| 0 <= j < self.entries.len() && (#[trigger] self.entries[j]).0 == id
    }

    /// The handle registered under `id`.
    pub open spec fn handle_of(self, id: ContextId) -> ContextCurrentWrapper<R> {
        self.entries[self.idx_of(id)].1
    }

    /// Identifiers are strictly increasing along the registry, hence unique.
    pub open spec fn ids_strictly_increasing(self) -> bool {
        forall|a: int, b: int|
            0 <= a < b < self.entries.len() ==> (#[trigger] self.entries[a]).0 < (
            #[trigger] self.entries[b]).0
    }

    /// The currency bookkeeping agrees with `current`: when `current` names
    /// an identifier, exactly that identifier's handle is `PossiblyCurrent`;
    /// when `current` is `None`, every handle is `NotCurrent`.
    pub open spec fn currency_coherent(self) -> bool {
        match self.current {
            Some(c) => self.has_id(c) && (forall|j: int|
                0 <= j < self.entries.len() ==> ((#[trigger] self.entries[j]).1
                    is PossiblyCurrent <==> self.entries[j].0 == c)),
            None => forall|j: int|
                0 <= j < self.entries.len() ==> (#[trigger] self.entries[j]).1 is NotCurrent,
        }
    }

    /// The tracker invariant.  Identifier bookkeeping holds in every state;
    /// currency coherence holds unless the tracker is poisoned.
    pub open spec fn inv(self) -> bool {
        &&& self.ids_strictly_increasing()
        &&& (forall|j: int|
            0 <= j < self.entries.len() ==> (#[trigger] self.entries[j]).0 < self.next_id)
        &&& (forall|j: int|
            0 <= j < self.entries.len() ==> self.minted.contains((#[trigger] self.entries[j]).0))
        &&& (forall|i: ContextId| self.minted.contains(i) ==> i < self.next_id)
        &&& (!self.poisoned ==> self.currency_coherent())
    }

    /// The registry after the entry holding `current`, if any, is relabeled
    /// `NotCurrent` in place, its resource untouched.
    pub open spec fn entries_with_current_released(self) -> Seq<
        (ContextId, ContextCurrentWrapper<R>),
    > {
        self.entries.map(
            |j: int, e: (ContextId, ContextCurrentWrapper<R>)|
                if self.current == Some(e.0) {
                    (e.0, ContextCurrentWrapper::NotCurrent(e.1.resource()))
                } else {
                    e
                },
        )
    }

    /// The state after registering an already-current context `ctx`.
    pub open spec fn register_model(self, ctx: R) -> TrackerModel<R> {
        TrackerModel {
            current: Some(self.next_id),
            entries: self.entries_with_current_released().push(
                (self.next_id, ContextCurrentWrapper::PossiblyCurrent(ctx)),
            ),
            next_id: (self.next_id + 1) as ContextId,
            minted: self.minted.insert(self.next_id),
            calls: self.calls,
            poisoned: self.poisoned,
        }
    }

    /// The state after removing `id`, paired with the handle handed back.
    pub open spec fn remove_model(self, id: ContextId) -> (TrackerModel<R>, ContextCurrentWrapper<
        R,
    >) {
        (
            TrackerModel {
                current: if self.current == Some(id) {
                    None
                } else {
                    self.current
                },
                entries: self.entries.remove(self.idx_of(id)),
                next_id: self.next_id,
                minted: self.minted,
                calls: self.calls,
                poisoned: self.poisoned,
            },
            self.handle_of(id),
        )
    }

    /// Relates this pre-state to a post-state in which the attempted rebind
    /// of `id` failed and the compensating unbind succeeded: no context is
    /// current, every handle is `NotCurrent`, identifiers are unchanged,
    /// entries other than the rebind target and the previously current one
    /// are untouched, and the call log grew by the failed bind call plus, if
    /// a context was current, the compensating unbind call.
    pub open spec fn rollback_of(self, post: TrackerModel<R>, id: ContextId) -> bool {
        &&& post.current is None
        &&& !post.poisoned
        &&& post.entries.len() == self.entries.len()
        &&& (forall|j: int|
            0 <= j < self.entries.len() ==> (#[trigger] post.entries[j]).0 == self.entries[j].0)
        &&& (forall|j: int|
            0 <= j < self.entries.len() ==> (#[trigger] post.entries[j]).1 is NotCurrent)
        &&& (forall|j: int|
            0 <= j < self.entries.len() && self.entries[j].0 != id && self.current != Some(
                self.entries[j].0,
            ) ==> (#[trigger] post.entries[j]) == self.entries[j])
        &&& post.calls == (match self.current {
            Some(c) => self.calls.push(PlatformCall::Bind(id)).push(PlatformCall::Unbind(c)),
            None => self.calls.push(PlatformCall::Bind(id)),
        })
        &&& post.next_id == self.next_id
        &&& post.minted == self.minted
    }

    /// Relates this pre-state to a post-state in which both the bind call
    /// for `id` and the compensating unbind of the previously current
    /// context failed: the tracker no longer knows which context holds the
    /// hardware binding, so it is poisoned.  The target's handle is
    /// `NotCurrent`, the previously current handle is still
    /// `PossiblyCurrent` although nothing is recorded as current, and both
    /// platform calls are in the log.
    pub open spec fn poisoned_of(self, post: TrackerModel<R>, id: ContextId) -> bool {
        &&& self.current is Some
        &&& post.poisoned
        &&& post.current is None
        &&& post.next_id == self.next_id
        &&& post.minted == self.minted
        &&& post.entries.len() == self.entries.len()
        &&& (forall|j: int|
            0 <= j < self.entries.len() ==> (#[trigger] post.entries[j]).0 == self.entries[j].0)
        &&& (match self.current {
            Some(c) => {
                &&& post.calls == self.calls.push(PlatformCall::Bind(id)).push(
                    PlatformCall::Unbind(c),
                )
                &&& post.entries[self.idx_of(id)].1 is NotCurrent
                &&& post.entries[self.idx_of(c)].1 is PossiblyCurrent
                &&& (forall|j: int|
                    0 <= j < self.entries.len() && self.entries[j].0 != id && self.entries[j].0
                        != c ==> (#[trigger] post.entries[j]) == self.entries[j])
            },
            None => false,
        })
    }

    /// A successful rebind of `id` preserves the tracker invariant: the
    /// previously current entry is released in place, and the target's
    /// handle becomes `PossiblyCurrent` around the resource the platform
    /// bind call returned.
    pub proof fn lemma_rebind_preserves_inv(self, id: ContextId, res: R)
        requires
            self.inv(),
            !self.poisoned,
            self.has_id(id),
            self.current != Some(id),
        ensures
            (TrackerModel {
                current: Some(id),
                entries: self.entries_with_current_released().update(
                    self.idx_of(id),
                    (id, ContextCurrentWrapper::PossiblyCurrent(res)),
                ),
                next_id: self.next_id,
                minted: self.minted,
                calls: self.calls.push(PlatformCall::Bind(id)),
                poisoned: false,
            }).inv(),
    {
        let i = self.idx_of(id);
        assert(0 <= i < self.entries.len() && self.entries[i].0 == id);
        let rel = self.entries_with_current_released();
        let m1 = TrackerModel {
            current: Some(id),
            entries: rel.update(i, (id, ContextCurrentWrapper::PossiblyCurrent(res))),
            next_id: self.next_id,
            minted: self.minted,
            calls: self.calls.push(PlatformCall::Bind(id)),
            poisoned: false,
        };
        assert(m1.entries.len() == self.entries.len());
        assert forall|j: int| 0 <= j < m1.entries.len() implies (#[trigger] m1.entries[j]).0
            == self.entries[j].0 by {
            if j != i {
                assert(m1.entries[j] == rel[j]);
            }
        }
        assert(m1.ids_strictly_increasing());
        assert(m1.currency_coherent()) by {
            assert(m1.entries[i] == (id, ContextCurrentWrapper::PossiblyCurrent(res)));
            assert(m1.has_id(id));
            assert forall|j: int| 0 <= j < m1.entries.len() implies ((
            #[trigger] m1.entries[j]).1 is PossiblyCurrent <==> m1.entries[j].0 == id) by {
                if j != i {
                    assert(m1.entries[j] == rel[j]);
                    if self.entries[j].0 == id {
                        self.lemma_idx_of(id, j);
                    }
                }
            }
        }
    }

    /// Registration preserves the tracker invariant.
    pub proof fn lemma_register_preserves_inv(self, ctx: R)
        requires
            self.inv(),
            !self.poisoned,
            self.next_id < usize::MAX,
        ensures
            self.register_model(ctx).inv(),
    {
        let m1 = self.register_model(ctx);
        let rel = self.entries_with_current_released();
        let n = self.entries.len() as int;
        assert forall|j: int| 0 <= j < n implies (#[trigger] m1.entries[j]).0
            == self.entries[j].0 by {
            assert(m1.entries[j] == rel[j]);
        }
        assert(m1.entries[n].0 == self.next_id);
        assert(m1.ids_strictly_increasing()) by {
            assert forall|a: int, b: int| 0 <= a < b < m1.entries.len() implies (
            #[trigger] m1.entries[a]).0 < (#[trigger] m1.entries[b]).0 by {
                if b < n {
                    assert(self.entries[a].0 < self.entries[b].0);
                } else {
                    assert(self.entries[a].0 < self.next_id);
                }
            }
        }
        assert(m1.currency_coherent()) by {
            assert(m1.entries[n].0 == self.next_id);
            assert(m1.has_id(self.next_id));
            assert forall|j: int| 0 <= j < m1.entries.len() implies ((
            #[trigger] m1.entries[j]).1 is PossiblyCurrent <==> m1.entries[j].0
                == self.next_id) by {
                if j < n {
                    assert(m1.entries[j] == rel[j]);
                    assert(self.entries[j].0 < self.next_id);
                    if self.current != Some(self.entries[j].0) {
                        assert(rel[j] == self.entries[j]);
                        assert(!(self.entries[j].1 is PossiblyCurrent));
                    }
                }
            }
        }
    }

    /// Removal preserves the tracker invariant.
    pub proof fn lemma_remove_preserves_inv(self, id: ContextId)
        requires
            self.inv(),
            self.has_id(id),
        ensures
            self.remove_model(id).0.inv(),
    {
        let m1 = self.remove_model(id).0;
        let i = self.idx_of(id);
        assert(0 <= i < self.entries.len() && self.entries[i].0 == id);
        self.entries.remove_ensures(i);
        assert forall|j: int| 0 <= j < m1.entries.len() implies #[trigger] m1.entries[j] == (
        if j < i {
            self.entries[j]
        } else {
            self.entries[j + 1]
        }) by {}
        assert(m1.ids_strictly_increasing()) by {
            assert forall|a: int, b: int| 0 <= a < b < m1.entries.len() implies (
            #[trigger] m1.entries[a]).0 < (#[trigger] m1.entries[b]).0 by {
                let a0: int = if a < i {
                    a
                } else {
                    a + 1
                };
                let b0: int = if b < i {
                    b
                } else {
                    b + 1
                };
                assert(self.entries[a0].0 < self.entries[b0].0);
            }
        }
        if !m1.poisoned {
            assert(m1.currency_coherent()) by {
                match m1.current {
                    Some(c) => {
                        let k = self.idx_of(c);
                        assert(0 <= k < self.entries.len() && self.entries[k].0 == c);
                        assert(c != id);
                        if k != i {
                            let k1: int = if k < i {
                                k
                            } else {
                                k - 1
                            };
                            assert(m1.entries[k1].0 == c);
                            assert(m1.has_id(c));
                        } else {
                            assert(false);
                        }
                        assert forall|j: int| 0 <= j < m1.entries.len() implies ((
                        #[trigger] m1.entries[j]).1 is PossiblyCurrent <==> m1.entries[j].0
                            == c) by {
                            let j0: int = if j < i {
                                j
                            } else {
                                j + 1
                            };
                            assert(self.entries[j0].1 is PossiblyCurrent <==> self.entries[j0].0
                                == c);
                        }
                    },
                    None => {
                        assert forall|j: int| 0 <= j < m1.entries.len() implies (
                        #[trigger] m1.entries[j]).1 is NotCurrent by {
                            let j0: int = if j < i {
                                j
                            } else {
                                j + 1
                            };
                            if self.current == Some(self.entries[j0].0) {
                                self.lemma_idx_of(self.entries[j0].0, j0);
                            }
                        }
                    },
                }
            }
        }
    }

    /// Any index holding `id` is the index `idx_of(id)` names: identifiers
    /// occur at most once in the registry.
    pub proof fn lemma_idx_of(self, id: ContextId, j: int)
        requires
            self.ids_strictly_increasing(),
            0 <= j < self.entries.len(),
            self.entries[j].0 == id,
        ensures
            self.has_id(id),
            self.idx_of(id) == j,
    {
        assert(self.has_id(id));
        let k = self.idx_of(id);
        if k < j {
            assert(self.entries[k].0 < self.entries[j].0);
        } else if k > j {
            assert(self.entries[j].0 < self.entries[k].0);
        }
    }
}

/// Tracker for the thread's single context binding slot.
///
/// Owns the registered context handles, keyed by identifiers of its own
/// minting, and serializes the unbind/bind choreography that moves the
/// hardware binding between them.
pub struct ContextTracker<R> {
    current: Option<ContextId>,
    others: Vec<(ContextId, ContextCurrentWrapper<R>)>,
    next_id: ContextId,
    poisoned: bool,
    minted: Ghost<Set<ContextId>>,
    calls: Ghost<Seq<PlatformCall>>,
}

impl<R> View for ContextTracker<R> {
    type V = TrackerModel<R>;

    closed spec fn view(&self) -> TrackerModel<R> {
        TrackerModel {
            current: self.current,
            entries: self.others@,
            next_id: self.next_id,
            minted: self.minted@,
            calls: self.calls@,
            poisoned: self.poisoned,
        }
    }
}

impl<R> Default for ContextTracker<R> {
    /// An empty tracker: nothing registered, nothing current, no calls made.
    fn default() -> (t: Self)
        ensures
            t.wf(),
            t@.current is None,
            t@.entries == Seq::<(ContextId, ContextCurrentWrapper<R>)>::empty(),
            t@.next_id == 0,
            t@.minted == Set::<ContextId>::empty(),
            t@.calls == Seq::<PlatformCall>::empty(),
            !t@.poisoned,
    {
        ContextTracker {
            current: None,
            others: Vec::new(),
            next_id: 0,
            poisoned: false,
            minted: Ghost(Set::empty()),
            calls: Ghost(Seq::empty()),
        }
    }
}

impl<R> ContextTracker<R> {
    /// Well-formed: the abstract state satisfies the tracker invariant.
    pub open spec fn wf(&self) -> bool {
        self@.inv()
    }

    /// The registry index holding `id`, if `id` is registered.
    fn find_index(&self, id: ContextId) -> (r: Option<usize>)
        ensures
            match r {
                Some(j) => j < self@.entries.len() && self@.entries[j as int].0 == id,
                None => !self@.has_id(id),
            },
    {
        let mut j: usize = 0;
        while j < self.others.len()
            invariant
                j <= self.others.len(),
                forall|k: int| 0 <= k < j ==> (#[trigger] self.others@[k]).0 != id,
            decreases self.others.len() - j,
        {
            if self.others[j].0 == id {
                return Some(j);
            }
            j += 1;
        }
        None
    }

    /// Register a context whose platform binding the caller has already
    /// made current, and return its fresh identifier.
    ///
    /// If another identifier was current, its handle is relabeled
    /// `NotCurrent` as pure bookkeeping: the platform silently dropped that
    /// binding when the new context was bound, so no platform call is made
    /// here, and the call log is unchanged.
    pub fn insert(&mut self, ctx: R) -> (id: ContextId)
        requires
            old(self).wf(),
            !old(self)@.poisoned,
            old(self)@.next_id < usize::MAX,
        ensures
            final(self).wf(),
            id == old(self)@.next_id,
            !old(self)@.minted.contains(id),
            final(self)@ == old(self)@.register_model(ctx),
    {
        let ghost m0 = self@;
        match self.current {
            Some(old_current) => {
                match self.find_index(old_current) {
                    Some(j) => {
                        let (oid, oh) = self.others.remove(j);
                        self.others.insert(j, (oid, oh.force_mark_unbound()));
                        proof {
                            m0.lemma_idx_of(old_current, j as int);
                            assert(self.others@ =~= m0.entries_with_current_released());
                        }
                    },
                    None => {
                        proof {
                            let k = m0.idx_of(old_current);
                            assert(self@.entries[k].0 == old_current);
                            assert(false);
                        }
                    },
                }
            },
            None => {
                proof {
                    assert(self.others@ =~= m0.entries_with_current_released());
                }
            },
        }
        let id = self.next_id;
        self.next_id = self.next_id + 1;
        self.current = Some(id);
        self.others.push((id, ContextCurrentWrapper::PossiblyCurrent(ctx)));
        self.minted = Ghost(self.minted@.insert(id));
        proof {
            assert(self@ == m0.register_model(ctx));
            m0.lemma_register_preserves_inv(ctx);
        }
        id
    }

    /// Remove `id` from the registry and hand its live handle back to the
    /// caller for disposal.  If `id` was current, no context is current
    /// afterwards.  No platform call is made.
    ///
    /// Removing an identifier that is not registered is a logic error in
    /// the caller, so registration is a precondition here rather than a
    /// reported failure.
    pub fn remove(&mut self, id: ContextId) -> (h: ContextCurrentWrapper<R>)
        requires
            old(self).wf(),
            !old(self)@.poisoned,
            old(self)@.has_id(id),
        ensures
            final(self).wf(),
            final(self)@ == old(self)@.remove_model(id).0,
            h == old(self)@.remove_model(id).1,
    {
        let ghost m0 = self@;
        match self.current {
            Some(c) => if c == id {
                self.current = None;
            },
            None => {},
        }
        let j = match self.find_index(id) {
            Some(j) => j,
            None => {
                proof {
                    let k = m0.idx_of(id);
                    assert(self@.entries[k].0 == id);
                    assert(false);
                }
                0
            },
        };
        proof {
            m0.lemma_idx_of(id, j as int);
            m0.lemma_remove_preserves_inv(id);
        }
        let (_removed_id, h) = self.others.remove(j);
        h
    }

    /// The identifier currently believed to hold the binding slot, if any.
    pub fn current_id(&self) -> (r: Option<ContextId>)
        ensures
            r == self@.current,
    {
        self.current
    }

    /// Whether `id` is registered.
    pub fn contains(&self, id: ContextId) -> (r: bool)
        ensures
            r == self@.has_id(id),
    {
        match self.find_index(id) {
            Some(_) => true,
            None => false,
        }
    }

    /// How many contexts are registered.
    pub fn len(&self) -> (n: usize)
        ensures
            n == self@.entries.len(),
    {
        self.others.len()
    }

    /// The identifier the next registration will mint.
    pub fn next_context_id(&self) -> (n: ContextId)
        ensures
            n == self@.next_id,
    {
        self.next_id
    }

    /// Whether the tracker has poisoned itself after a double failure.
    pub fn is_poisoned(&self) -> (r: bool)
        ensures
            r == self@.poisoned,
    {
        self.poisoned
    }

    /// The binding state recorded for `id`: `Some(true)` if its handle is
    /// `PossiblyCurrent`, `Some(false)` if it is `NotCurrent`, and `None`
    /// if `id` is not registered.
    pub fn is_context_current(&self, id: ContextId) -> (r: Option<bool>)
        requires
            self.wf(),
        ensures
            match r {
                Some(b) => self@.has_id(id) && b == (self@.handle_of(id) is PossiblyCurrent),
                None => !self@.has_id(id),
            },
    {
        match self.find_index(id) {
            Some(j) => {
                proof {
                    self@.lemma_idx_of(id, j as int);
                }
                Some(self.others[j].1.is_current())
            },
            None => None,
        }
    }

    /// Make `id`'s context current and borrow its resource mutably.
    ///
    /// If `id` is already current this is pure bookkeeping: no platform
    /// call is made and the stored handle is returned directly.  Otherwise
    /// the tracker first clears `current`, so that its own state stays
    /// consistent while a fallible platform call is in flight, then asks
    /// the platform to bind the target through `bind_op`:
    ///
    /// - on success the previously current handle, if any, is relabeled
    ///   `NotCurrent` without a platform call (the successful bind silently
    ///   revoked that binding), and the freshly bound handle is returned;
    /// - on failure the tracker restores the no-context-current state: the
    ///   target keeps the `NotCurrent` handle the platform handed back, and
    ///   the previously current context, whose binding may genuinely still
    ///   be live, is released through a real platform call via `unbind_op`.
    ///   If that compensating call also fails the tracker can no longer
    ///   tell which context holds the hardware binding: it poisons itself
    ///   and reports both errors.
    ///
    /// A defensive unbind of the failed target itself would be the no-op
    /// arm of [`ContextCurrentWrapper::unbind`]: after a failed bind the
    /// target's handle is already `NotCurrent`, a fact the invariant
    /// proves, so no such platform call is issued.
    pub fn get_current<E, FB: FnOnce(R) -> Result<R, (R, E)>, FU: FnOnce(R) -> Result<R, (R, E)>>(
        &mut self,
        id: ContextId,
        bind_op: FB,
        unbind_op: FU,
    ) -> (r: Result<&mut R, TrackerError<E>>)
        requires
            old(self).wf(),
            !old(self)@.poisoned,
            forall|x: R| #[trigger] call_requires(bind_op, (x,)),
            forall|x: R| #[trigger] call_requires(unbind_op, (x,)),
        ensures
            final(self).wf(),
            final(self)@.next_id == old(self)@.next_id,
            final(self)@.minted == old(self)@.minted,
            final(self)@.entries.len() == old(self)@.entries.len(),
            forall|j: int|
                0 <= j < old(self)@.entries.len() ==> (#[trigger] final(self)@.entries[j]).0
                    == old(self)@.entries[j].0,
            (r matches Err(k) && k is LookupFailed) <==> !old(self)@.has_id(id),
            !old(self)@.has_id(id) ==> *final(self) == *old(self),
            old(self)@.has_id(id) && old(self)@.current == Some(id) ==> (r matches Ok(ctx) && {
                &&& *ctx == old(self)@.handle_of(id).resource()
                &&& final(self)@.current == Some(id)
                &&& !final(self)@.poisoned
                &&& final(self)@.calls == old(self)@.calls
                &&& final(self)@.entries =~= old(self)@.entries.update(
                    old(self)@.idx_of(id),
                    (id, ContextCurrentWrapper::PossiblyCurrent(*final(ctx))),
                )
            }),
            old(self)@.has_id(id) && old(self)@.current != Some(id) ==> (match r {
                Ok(ctx) => {
                    &&& call_ensures(
                        bind_op,
                        (old(self)@.handle_of(id).resource(),),
                        Ok::<R, (R, E)>(*ctx),
                    )
                    &&& final(self)@.current == Some(id)
                    &&& !final(self)@.poisoned
                    &&& final(self)@.calls == old(self)@.calls.push(PlatformCall::Bind(id))
                    &&& final(self)@.entries =~= old(self)@.entries_with_current_released().update(
                        old(self)@.idx_of(id),
                        (id, ContextCurrentWrapper::PossiblyCurrent(*final(ctx))),
                    )
                },
                Err(TrackerError::BindFailed(e)) => {
                    &&& old(self)@.rollback_of(final(self)@, id)
                    &&& call_ensures(
                        bind_op,
                        (old(self)@.handle_of(id).resource(),),
                        Err::<R, (R, E)>(
                            (final(self)@.entries[old(self)@.idx_of(id)].1.resource(), e),
                        ),
                    )
                    &&& (old(self)@.current matches Some(c) ==> call_ensures(
                        unbind_op,
                        (old(self)@.handle_of(c).resource(),),
                        Ok::<R, (R, E)>(final(self)@.entries[old(self)@.idx_of(c)].1.resource()),
                    ))
                },
                Err(TrackerError::Fatal(eb, eu)) => {
                    &&& old(self)@.poisoned_of(final(self)@, id)
                    &&& call_ensures(
                        bind_op,
                        (old(self)@.handle_of(id).resource(),),
                        Err::<R, (R, E)>(
                            (final(self)@.entries[old(self)@.idx_of(id)].1.resource(), eb),
                        ),
                    )
                    &&& (old(self)@.current matches Some(c) ==> call_ensures(
                        unbind_op,
                        (old(self)@.handle_of(c).resource(),),
                        Err::<R, (R, E)>(
                            (final(self)@.entries[old(self)@.idx_of(c)].1.resource(), eu),
                        ),
                    ))
                },
                Err(TrackerError::UnbindFailed(_)) => false,
                Err(TrackerError::LookupFailed) => false,
            }),
            (old(self)@.has_id(id) && (forall|x: R, y: Result<R, (R, E)>|
                call_ensures(bind_op, (x,), y) ==> y is Ok)) ==> r is Ok,
            (forall|x: R, y: Result<R, (R, E)>| call_ensures(unbind_op, (x,), y) ==> y is Ok)
                ==> !(r matches Err(k2) && k2 is Fatal),
    {
        let ghost m0 = self@;
        let i = match self.find_index(id) {
            Some(i) => i,
            None => {
                return Err(TrackerError::LookupFailed);
            },
        };
        proof {
            m0.lemma_idx_of(id, i as int);
        }
        let is_fast = match self.current {
            Some(c) => c == id,
            None => false,
        };
        if is_fast {
            let pair = &mut self.others[i];
            let ctx = pair.1.resource_mut();
            return Ok(ctx);
        }
        let old_cur = self.current;
        self.current = None;
        let (tid, th) = self.others.remove(i);
        match th.bind(bind_op) {
            Ok(h2) => {
                let ghost hres = h2.resource();
                self.others.insert(i, (tid, h2));
                self.calls = Ghost(self.calls@.push(PlatformCall::Bind(id)));
                self.current = Some(id);
                proof {
                    assert(self.others@ =~= m0.entries.update(
                        i as int,
                        (id, ContextCurrentWrapper::PossiblyCurrent(hres)),
                    ));
                }
                match old_cur {
                    Some(oc) => {
                        let j = match self.find_index(oc) {
                            Some(j) => j,
                            None => {
                                proof {
                                    let k = m0.idx_of(oc);
                                    assert(m0.entries[k].0 == oc);
                                    assert(self@.entries[k].0 == oc);
                                    assert(false);
                                }
                                0
                            },
                        };
                        proof {
                            m0.lemma_idx_of(oc, j as int);
                        }
                        let (oid, oh) = self.others.remove(j);
                        self.others.insert(j, (oid, oh.force_mark_unbound()));
                        proof {
                            assert forall|k: int|
                                0 <= k < self.others@.len() implies #[trigger] self.others@[k]
                                == m0.entries_with_current_released().update(
                                i as int,
                                (id, ContextCurrentWrapper::PossiblyCurrent(hres)),
                            )[k] by {
                                if k != i && k != j as int && m0.current == Some(
                                    m0.entries[k].0,
                                ) {
                                    m0.lemma_idx_of(m0.entries[k].0, k);
                                }
                            }
                            assert(self.others@ =~= m0.entries_with_current_released().update(
                                i as int,
                                (id, ContextCurrentWrapper::PossiblyCurrent(hres)),
                            ));
                            m0.lemma_rebind_preserves_inv(id, hres);
                        }
                    },
                    None => {
                        proof {
                            assert(self.others@ =~= m0.entries_with_current_released().update(
                                i as int,
                                (id, ContextCurrentWrapper::PossiblyCurrent(hres)),
                            ));
                            m0.lemma_rebind_preserves_inv(id, hres);
                        }
                    },
                }
                let pair = &mut self.others[i];
                let ctx = pair.1.resource_mut();
                Ok(ctx)
            },
            Err((th2, e)) => {
                self.others.insert(i, (tid, th2));
                self.calls = Ghost(self.calls@.push(PlatformCall::Bind(id)));
                proof {
                    assert(self.others@ =~= m0.entries.update(i as int, (id, th2)));
                }
                match old_cur {
                    Some(oc) => {
                        let j = match self.find_index(oc) {
                            Some(j) => j,
                            None => {
                                proof {
                                    let k = m0.idx_of(oc);
                                    assert(m0.entries[k].0 == oc);
                                    assert(self@.entries[k].0 == oc);
                                    assert(false);
                                }
                                0
                            },
                        };
                        proof {
                            m0.lemma_idx_of(oc, j as int);
                        }
                        let (oid, oh) = self.others.remove(j);
                        self.calls = Ghost(self.calls@.push(PlatformCall::Unbind(oc)));
                        let ghost sbefore = m0.entries.update(
                            i as int,
                            (m0.entries[i as int].0, th2),
                        );
                        match oh.unbind(unbind_op) {
                            Ok(oh2) => {
                                self.others.insert(j, (oid, oh2));
                                proof {
                                    assert(self.others@ =~= sbefore.update(
                                        j as int,
                                        (oc, oh2),
                                    ));
                                    assert forall|k: int|
                                        0 <= k < m0.entries.len() && m0.entries[k].0 != id
                                            && m0.current != Some(m0.entries[k].0) implies (
                                    #[trigger] self.others@[k]) == m0.entries[k] by {
                                        if m0.entries[k].0 == id {
                                            m0.lemma_idx_of(id, k);
                                        }
                                    }
                                    assert forall|k: int|
                                        0 <= k < m0.entries.len() implies (
                                    #[trigger] self.others@[k]).1 is NotCurrent by {
                                        if k != i && k != j as int {
                                            if m0.current == Some(m0.entries[k].0) {
                                                m0.lemma_idx_of(m0.entries[k].0, k);
                                            }
                                        }
                                    }
                                }
                                Err(TrackerError::BindFailed(e))
                            },
                            Err((oh3, e2)) => {
                                self.others.insert(j, (oid, oh3));
                                self.poisoned = true;
                                proof {
                                    assert(self.others@ =~= sbefore.update(
                                        j as int,
                                        (oc, oh3),
                                    ));
                                    assert forall|k: int|
                                        0 <= k < m0.entries.len() && m0.entries[k].0 != id
                                            && m0.entries[k].0 != oc implies (
                                    #[trigger] self.others@[k]) == m0.entries[k] by {
                                        if m0.entries[k].0 == id {
                                            m0.lemma_idx_of(id, k);
                                        }
                                        if m0.entries[k].0 == oc {
                                            m0.lemma_idx_of(oc, k);
                                        }
                                    }
                                    assert(self.others@[i as int].1 is NotCurrent);
                                    assert(self.others@[j as int].1 is PossiblyCurrent);
                                }
                                Err(TrackerError::Fatal(e, e2))
                            },
                        }
                    },
                    None => {
                        proof {
                            assert forall|k: int|
                                0 <= k < m0.entries.len() implies (
                            #[trigger] self.others@[k]).1 is NotCurrent by {}
                        }
                        Err(TrackerError::BindFailed(e))
                    },
                }
            },
        }
    }

    /// Explicitly release the current context through the platform unbind
    /// call `unbind_op`.
    ///
    /// With no current context this is a no-op success and no platform
    /// call is made.  Otherwise the current handle is transitioned through
    /// a real unbind call: on success nothing is current afterwards; on
    /// failure the context stays current, its handle the `PossiblyCurrent`
    /// one the platform handed back, and the error is reported.
    pub fn unbind_current<E, FU: FnOnce(R) -> Result<R, (R, E)>>(&mut self, unbind_op: FU) -> (r:
        Result<(), TrackerError<E>>)
        requires
            old(self).wf(),
            !old(self)@.poisoned,
            forall|x: R| #[trigger] call_requires(unbind_op, (x,)),
        ensures
            final(self).wf(),
            !final(self)@.poisoned,
            final(self)@.next_id == old(self)@.next_id,
            final(self)@.minted == old(self)@.minted,
            final(self)@.entries.len() == old(self)@.entries.len(),
            forall|j: int|
                0 <= j < old(self)@.entries.len() ==> (#[trigger] final(self)@.entries[j]).0
                    == old(self)@.entries[j].0,
            old(self)@.current is None ==> (r is Ok && *final(self) == *old(self)),
            old(self)@.current matches Some(c) ==> {
                &&& final(self)@.calls == old(self)@.calls.push(PlatformCall::Unbind(c))
                &&& (match r {
                    Ok(_) => {
                        &&& final(self)@.current is None
                        &&& final(self)@.entries[old(self)@.idx_of(c)].1 is NotCurrent
                        &&& call_ensures(
                            unbind_op,
                            (old(self)@.handle_of(c).resource(),),
                            Ok::<R, (R, E)>(
                                final(self)@.entries[old(self)@.idx_of(c)].1.resource(),
                            ),
                        )
                        &&& (forall|j: int|
                            0 <= j < old(self)@.entries.len() && j != old(self)@.idx_of(c) ==> (
                            #[trigger] final(self)@.entries[j]) == old(self)@.entries[j])
                    },
                    Err(TrackerError::UnbindFailed(e)) => {
                        &&& final(self)@.current == old(self)@.current
                        &&& final(self)@.entries[old(self)@.idx_of(c)].1 is PossiblyCurrent
                        &&& call_ensures(
                            unbind_op,
                            (old(self)@.handle_of(c).resource(),),
                            Err::<R, (R, E)>(
                                (final(self)@.entries[old(self)@.idx_of(c)].1.resource(), e),
                            ),
                        )
                        &&& (forall|j: int|
                            0 <= j < old(self)@.entries.len() && j != old(self)@.idx_of(c) ==> (
                            #[trigger] final(self)@.entries[j]) == old(self)@.entries[j])
                    },
                    _ => false,
                })
            },
            (forall|x: R, y: Result<R, (R, E)>| call_ensures(unbind_op, (x,), y) ==> y is Ok)
                ==> r is Ok,
    {
        let ghost m0 = self@;
        let c = match self.current {
            Some(c) => c,
            None => {
                return Ok(());
            },
        };
        let i = match self.find_index(c) {
            Some(i) => i,
            None => {
                proof {
                    let k = m0.idx_of(c);
                    assert(self@.entries[k].0 == c);
                    assert(false);
                }
                0
            },
        };
        proof {
            m0.lemma_idx_of(c, i as int);
        }
        let (cid, ch) = self.others.remove(i);
        self.calls = Ghost(self.calls@.push(PlatformCall::Unbind(c)));
        match ch.unbind(unbind_op) {
            Ok(ch2) => {
                self.others.insert(i, (cid, ch2));
                self.current = None;
                proof {
                    assert(self.others@ =~= m0.entries.update(i as int, (c, ch2)));
                    assert forall|k: int|
                        0 <= k < m0.entries.len() implies (
                    #[trigger] self.others@[k]).1 is NotCurrent by {
                        if k != i {
                            if m0.current == Some(m0.entries[k].0) {
                                m0.lemma_idx_of(m0.entries[k].0, k);
                            }
                        }
                    }
                }
                Ok(())
            },
            Err((ch2, e)) => {
                self.others.insert(i, (cid, ch2));
                proof {
                    assert(self.others@ =~= m0.entries.update(i as int, (c, ch2)));
                    assert forall|k: int|
                        0 <= k < m0.entries.len() implies ((#[trigger] self.others@[k]).1
                            is PossiblyCurrent <==> self.others@[k].0 == c) by {
                        if k != i {
                            if m0.entries[k].0 == c {
                                m0.lemma_idx_of(c, k);
                            }
                        }
                    }
                }
                Err(TrackerError::UnbindFailed(e))
            },
        }
    }
}

} // verus!

//! Laws of the tracker, stated and proved over its abstract state.
//!
//! Each lemma here articulates a property that the operation contracts in
//! [`crate::tracker`] establish but do not spell out on their own: the
//! exclusivity of the binding slot, the register/remove round trip, the
//! bookkeeping-only nature of releasing the previous context, and the
//! freshness of minted identifiers.

use vstd::prelude::*;

use crate::handle::ContextCurrentWrapper;
use crate::tracker::TrackerModel;

verus! {

/// Exclusion: in every well-formed, unpoisoned tracker state, at most one
/// registered handle is `PossiblyCurrent`, and when one is, `current` names
/// exactly its identifier.
pub proof fn lemma_at_most_one_current<R>(m: TrackerModel<R>, a: int, b: int)
    requires
        m.inv(),
        !m.poisoned,
        0 <= a < m.entries.len(),
        0 <= b < m.entries.len(),
        m.entries[a].1 is PossiblyCurrent,
        m.entries[b].1 is PossiblyCurrent,
    ensures
        a == b,
        m.current == Some(m.entries[a].0),
{
    match m.current {
        Some(c) => {
            assert(m.entries[a].0 == c);
            assert(m.entries[b].0 == c);
            m.lemma_idx_of(c, a);
            m.lemma_idx_of(c, b);
        },
        None => {
            assert(m.entries[a].1 is NotCurrent);
        },
    }
}

/// The other face of exclusion: `current` is truthful.  When it names an
/// identifier, that identifier is registered and its handle is
/// `PossiblyCurrent`; when it is `None`, every handle is `NotCurrent`.
pub proof fn lemma_current_is_truthful<R>(m: TrackerModel<R>)
    requires
        m.inv(),
        !m.poisoned,
    ensures
        m.current matches Some(c) ==> m.has_id(c) && m.handle_of(c) is PossiblyCurrent,
        m.current is None ==> forall|j: int|
            0 <= j < m.entries.len() ==> (#[trigger] m.entries[j]).1 is NotCurrent,
{
    match m.current {
        Some(c) => {
            let i = m.idx_of(c);
            assert(0 <= i < m.entries.len() && m.entries[i].0 == c);
            assert(m.entries[i].1 is PossiblyCurrent);
        },
        None => {},
    }
}

/// Round trip: registering a context and immediately removing the minted
/// identifier hands back a handle around the very resource that was
/// registered, still in the `PossiblyCurrent` state, and no platform call
/// is recorded by either operation.
pub proof fn lemma_register_remove_round_trip<R>(m: TrackerModel<R>, ctx: R)
    requires
        m.inv(),
        !m.poisoned,
        m.next_id < usize::MAX,
    ensures
        ({
            let id = m.next_id;
            let m1 = m.register_model(ctx);
            &&& m1.has_id(id)
            &&& m1.remove_model(id).1 == ContextCurrentWrapper::PossiblyCurrent(ctx)
            &&& m1.remove_model(id).1.resource() == ctx
            &&& m1.remove_model(id).0.calls == m.calls
        }),
{
    let id = m.next_id;
    let m1 = m.register_model(ctx);
    let n = m.entries.len() as int;
    assert(m1.entries[n] == (id, ContextCurrentWrapper::<R>::PossiblyCurrent(ctx)));
    m.lemma_register_preserves_inv(ctx);
    m1.lemma_idx_of(id, n);
}

/// Releasing the previously current entry is bookkeeping only: every
/// identifier and every underlying resource is kept, and the one entry that
/// changes is the current one, relabeled `NotCurrent`.
pub proof fn lemma_release_is_bookkeeping_only<R>(m: TrackerModel<R>)
    requires
        m.inv(),
        !m.poisoned,
    ensures
        m.entries_with_current_released().len() == m.entries.len(),
        forall|j: int|
            0 <= j < m.entries.len() ==> (#[trigger] m.entries_with_current_released()[j]).0
                == m.entries[j].0,
        forall|j: int|
            0 <= j < m.entries.len() ==> (#[trigger] m.entries_with_current_released()[j]).1
                .resource() == m.entries[j].1.resource(),
        forall|j: int|
            0 <= j < m.entries.len() ==> (#[trigger] m.entries_with_current_released()[j]).1
                is NotCurrent,
{
    let rel = m.entries_with_current_released();
    assert forall|j: int| 0 <= j < m.entries.len() implies (#[trigger] rel[j]).1.resource()
        == m.entries[j].1.resource() && rel[j].1 is NotCurrent && rel[j].0
        == m.entries[j].0 by {
        if m.current != Some(m.entries[j].0) {
            assert(rel[j] == m.entries[j]);
            assert(m.entries[j].1 is NotCurrent);
        }
    }
}

/// Identifier freshness: the identifier the next registration will mint has
/// never been handed out before, while every registered identifier has
/// been; so a freshly minted identifier differs from every identifier the
/// tracker has ever returned, including those removed since.
pub proof fn lemma_identifiers_never_reused<R>(m: TrackerModel<R>, ctx: R)
    requires
        m.inv(),
        m.next_id < usize::MAX,
    ensures
        !m.minted.contains(m.next_id),
        forall|j: int|
            0 <= j < m.entries.len() ==> #[trigger] m.minted.contains(m.entries[j].0),
        m.register_model(ctx).minted == m.minted.insert(m.next_id),
{
}

} // verus!

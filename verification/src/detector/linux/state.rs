//! Up and down transitions of a VPN, and dropping repeats of them.

use vstd::prelude::*;

verus! {

/// NetworkManager's device states that mean a transition.
pub const NM_DEVICE_STATE_DISCONNECTED: u32 = 30;

pub const NM_DEVICE_STATE_ACTIVATED: u32 = 100;

pub const NM_DEVICE_STATE_DEACTIVATING: u32 = 110;

pub const NM_DEVICE_STATE_FAILED: u32 = 120;

/// A VPN went up or down.
#[derive(Debug, Clone, Copy, PartialEq, Eq, Structural)]
pub enum Transition {
    Up,
    Down,
}

/// The transition a device state means, if any.
pub open spec fn transition_of(state: u32) -> Option<Transition> {
    if state == NM_DEVICE_STATE_ACTIVATED {
        Some(Transition::Up)
    } else if state == NM_DEVICE_STATE_DISCONNECTED || state == NM_DEVICE_STATE_DEACTIVATING
        || state == NM_DEVICE_STATE_FAILED {
        Some(Transition::Down)
    } else {
        None
    }
}

/// The transition a device state means. The stages of an activation, and
/// states that are not known, mean none.
pub fn transition(new_state: u32) -> (r: Option<Transition>)
    ensures
        r == transition_of(new_state),
{
    if new_state == NM_DEVICE_STATE_ACTIVATED {
        Some(Transition::Up)
    } else if new_state == NM_DEVICE_STATE_DISCONNECTED || new_state
        == NM_DEVICE_STATE_DEACTIVATING || new_state == NM_DEVICE_STATE_FAILED {
        Some(Transition::Down)
    } else {
        None
    }
}

/// Drops consecutive repeats of a transition.
#[derive(Debug, PartialEq, Eq)]
pub struct Deduper {
    /// The transition that was reported last, if one is to count.
    pub last: Option<Transition>,
}

impl Default for Deduper {
    fn default() -> (r: Deduper)
        ensures
            r.last is None,
    {
        Deduper { last: None }
    }
}

impl Deduper {
    /// Would this transition be a repeat?
    pub fn is_dup(&self, transition: Transition) -> (r: bool)
        ensures
            r == (self.last == Some(transition)),
    {
        match self.last {
            Some(last) => last == transition,
            None => false,
        }
    }

    /// Take a transition as the last one reported.
    pub fn record(&mut self, transition: Transition)
        ensures
            final(self).last == Some(transition),
    {
        self.last = Some(transition);
    }

    /// Forget the last transition, so that neither would be a repeat. For an
    /// up that carried no resolvers: it must not keep a later up from being
    /// looked into, and the down that follows it must not be dropped.
    pub fn reset(&mut self)
        ensures
            final(self).last is None,
    {
        self.last = None;
    }

    /// The transition, unless it is a repeat; it is then the last reported.
    pub fn push(&mut self, transition: Transition) -> (r: Option<Transition>)
        ensures
            final(self).last == Some(transition),
            r == if old(self).last == Some(transition) {
                None
            } else {
                Some(transition)
            },
    {
        if self.is_dup(transition) {
            return None;
        }
        self.record(transition);
        Some(transition)
    }
}

/// What is reported of these transitions, pushed one after the other by a
/// deduper whose last was `last`.
pub open spec fn reported(last: Option<Transition>, pushed: Seq<Transition>) -> Seq<Transition>
    decreases pushed.len(),
{
    if pushed.len() == 0 {
        Seq::empty()
    } else if last == Some(pushed[0]) {
        reported(last, pushed.drop_first())
    } else {
        seq![pushed[0]] + reported(Some(pushed[0]), pushed.drop_first())
    }
}

/// What is reported alternates between up and down, starts with something
/// other than the last transition, and ends where the VPN is.
pub proof fn law_reports_alternate(last: Option<Transition>, pushed: Seq<Transition>)
    ensures
        forall|i: int|
            0 < i < reported(last, pushed).len() ==> #[trigger] reported(last, pushed)[i]
                != reported(last, pushed)[i - 1],
        reported(last, pushed).len() > 0 ==> Some(reported(last, pushed)[0]) != last
            && reported(last, pushed).last() == pushed.last(),
        pushed.len() > 0 && reported(last, pushed).len() == 0 ==> last == Some(pushed.last()),
    decreases pushed.len(),
{
    if pushed.len() > 0 {
        let rest = pushed.drop_first();
        if last == Some(pushed[0]) {
            law_reports_alternate(last, rest);
            if rest.len() > 0 {
                assert(rest.last() == pushed.last());
            }
        } else {
            let tail = reported(Some(pushed[0]), rest);
            law_reports_alternate(Some(pushed[0]), rest);
            let all = seq![pushed[0]] + tail;
            if rest.len() > 0 {
                assert(rest.last() == pushed.last());
            }
            if tail.len() > 0 {
                assert(all.last() == tail.last());
            }
            assert forall|i: int| 0 < i < all.len() implies #[trigger] all[i] != all[i - 1] by {
                assert(all[i] == tail[i - 1]);
                if i > 1 {
                    assert(all[i - 1] == tail[i - 2]);
                    assert(tail[i - 1] != tail[(i - 1) - 1]);
                }
            }
        }
    }
}

/// Of NetworkManager's device states, 100 means up, and 30, 110 and 120 mean
/// down; no other means either.
pub proof fn law_only_definite_states_are_transitions(state: u32)
    ensures
        transition_of(state) == Some(Transition::Up) <==> state == 100,
        transition_of(state) == Some(Transition::Down) <==> state == 30 || state == 110 || state
            == 120,
{
}

} // verus!

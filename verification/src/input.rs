//! Edge-triggered input tracking.
//!
//! One boolean level is stored per discrete input channel.  Observing a
//! new level produces a transition event exactly when the level changed:
//! holding a key yields no repeated events, and two channels never share
//! state.

use vstd::prelude::*;

verus! {

/// A discrete input channel the session tracks.
#[derive(Clone, Copy, PartialEq, Eq, Structural, Debug)]
pub enum Channel {
    Primary,
    Secondary,
    Mount,
    Interact,
    Respawn,
    Sit,
    Dance,
    Sneak,
    Glide,
    Wield,
    SwapLoadout,
    FreeLook,
    AutoWalk,
    Select,
    MoveForward,
    MoveBack,
    MoveLeft,
    MoveRight,
}

/// A level transition on one channel.
#[derive(Clone, Copy, PartialEq, Eq, Structural, Debug)]
pub enum Edge {
    /// The level went from released to held.
    Rising,
    /// The level went from held to released.
    Falling,
}

/// Number of tracked channels.
pub const CHANNEL_COUNT: usize = 18;

/// The slot a channel's stored level lives in.
pub open spec fn channel_index(c: Channel) -> int {
    match c {
        Channel::Primary => 0,
        Channel::Secondary => 1,
        Channel::Mount => 2,
        Channel::Interact => 3,
        Channel::Respawn => 4,
        Channel::Sit => 5,
        Channel::Dance => 6,
        Channel::Sneak => 7,
        Channel::Glide => 8,
        Channel::Wield => 9,
        Channel::SwapLoadout => 10,
        Channel::FreeLook => 11,
        Channel::AutoWalk => 12,
        Channel::Select => 13,
        Channel::MoveForward => 14,
        Channel::MoveBack => 15,
        Channel::MoveLeft => 16,
        Channel::MoveRight => 17,
    }
}

fn channel_slot(c: Channel) -> (i: usize)
    ensures
        i == channel_index(c),
        i < CHANNEL_COUNT,
{
    match c {
        Channel::Primary => 0,
        Channel::Secondary => 1,
        Channel::Mount => 2,
        Channel::Interact => 3,
        Channel::Respawn => 4,
        Channel::Sit => 5,
        Channel::Dance => 6,
        Channel::Sneak => 7,
        Channel::Glide => 8,
        Channel::Wield => 9,
        Channel::SwapLoadout => 10,
        Channel::FreeLook => 11,
        Channel::AutoWalk => 12,
        Channel::Select => 13,
        Channel::MoveForward => 14,
        Channel::MoveBack => 15,
        Channel::MoveLeft => 16,
        Channel::MoveRight => 17,
    }
}

/// The previously observed level of every tracked channel.
pub struct EdgeTracker {
    levels: Vec<bool>,
}

impl EdgeTracker {
    /// One stored slot per channel.
    pub closed spec fn wf(&self) -> bool {
        self.levels@.len() == CHANNEL_COUNT
    }

    /// The stored level of channel `c`.
    pub closed spec fn level(&self, c: Channel) -> bool {
        self.levels@[channel_index(c)]
    }

    /// A fresh tracker: every channel starts released.
    pub fn new() -> (t: EdgeTracker)
        ensures
            t.wf(),
            forall|c: Channel| !t.level(c),
    {
        let mut levels: Vec<bool> = Vec::new();
        let mut i: usize = 0;
        while i < CHANNEL_COUNT
            invariant
                0 <= i <= CHANNEL_COUNT,
                levels@.len() == i,
                forall|j: int| 0 <= j < i ==> !levels@[j],
            decreases CHANNEL_COUNT - i,
        {
            levels.push(false);
            i = i + 1;
        }
        EdgeTracker { levels }
    }

    /// Reads the stored level of channel `c`.
    pub fn get_level(&self, c: Channel) -> (l: bool)
        requires
            self.wf(),
        ensures
            l == self.level(c),
    {
        let i = channel_slot(c);
        self.levels[i]
    }

    /// Observes a new raw level on channel `c`.
    ///
    /// Returns the transition event, if any: exactly one event per
    /// physical transition, none while the level is unchanged.  Only the
    /// observed channel's stored state moves.
    pub fn observe(&mut self, c: Channel, level: bool) -> (e: Option<Edge>)
        requires
            old(self).wf(),
        ensures
            final(self).wf(),
            final(self).level(c) == level,
            forall|c2: Channel| c2 != c ==> final(self).level(c2) == old(self).level(c2),
            e == (if level == old(self).level(c) {
                None
            } else if level {
                Some(Edge::Rising)
            } else {
                Some(Edge::Falling)
            }),
    {
        let i = channel_slot(c);
        let prev = self.levels[i];
        self.levels.set(i, level);
        proof {
            assert forall|c2: Channel| c2 != c implies final(self).level(c2) == old(self).level(
                c2,
            ) by {
                assert(channel_index(c2) != channel_index(c));
            }
        }
        if level == prev {
            None
        } else if level {
            Some(Edge::Rising)
        } else {
            Some(Edge::Falling)
        }
    }
}

} // verus!

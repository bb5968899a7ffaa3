//! The monster behavior state machine.
//!
//! A monster is always in one of four discrete states. Each state maps to
//! an animation range selector (which packed range the entity should play)
//! and a flip policy (whether the sprite is mirrored horizontally). A
//! transition between two states yields the effects the caller must apply:
//! a flip request, and a range change only when the requested state draws
//! its frames from a different range than the current one.

use vstd::prelude::*;

verus! {

/// One discrete behavior state of a monster entity.
#[derive(Clone, Copy, Debug, PartialEq, Eq, Structural)]
pub enum MossMonsterState {
    WalkLeft,
    WalkRight,
    Idle,
    Attack,
}

/// Which packed animation range an entity should play. Walking left and
/// walking right share one range and differ only in the flip flag.
#[derive(Clone, Copy, Debug, PartialEq, Eq, Structural)]
pub enum AtlasRangeSelector {
    Walk,
    Idle,
    Attack,
}

/// The range selector a state plays from.
pub open spec fn spec_range_selector(s: MossMonsterState) -> AtlasRangeSelector {
    match s {
        MossMonsterState::WalkLeft => AtlasRangeSelector::Walk,
        MossMonsterState::WalkRight => AtlasRangeSelector::Walk,
        MossMonsterState::Idle => AtlasRangeSelector::Idle,
        MossMonsterState::Attack => AtlasRangeSelector::Attack,
    }
}

/// The flip policy of a state: `Some(true)` mirrors the sprite,
/// `Some(false)` unmirrors it, `None` leaves the flip unchanged.
pub open spec fn spec_flip_x(s: MossMonsterState) -> Option<bool> {
    match s {
        MossMonsterState::WalkLeft => Some(true),
        MossMonsterState::WalkRight => Some(false),
        MossMonsterState::Idle => None,
        MossMonsterState::Attack => None,
    }
}

/// The effects of moving from `current` to `requested`: the flip policy of
/// `requested`, and the selector of `requested` when it differs from the
/// selector of `current` (`None` when the two states share a range).
pub open spec fn spec_transition(
    current: MossMonsterState,
    requested: MossMonsterState,
) -> (Option<bool>, Option<AtlasRangeSelector>) {
    (
        spec_flip_x(requested),
        if spec_range_selector(requested) == spec_range_selector(current) {
            None
        } else {
            Some(spec_range_selector(requested))
        },
    )
}

impl MossMonsterState {
    /// The range selector this state plays from.
    pub fn range_selector(&self) -> (s: AtlasRangeSelector)
        ensures
            s == spec_range_selector(*self),
    {
        match self {
            MossMonsterState::WalkLeft => AtlasRangeSelector::Walk,
            MossMonsterState::WalkRight => AtlasRangeSelector::Walk,
            MossMonsterState::Idle => AtlasRangeSelector::Idle,
            MossMonsterState::Attack => AtlasRangeSelector::Attack,
        }
    }

    /// The range to switch to when moving from `self` to `other`, or `None`
    /// when both states play from the same range.
    pub fn range_change_needed(&self, other: &MossMonsterState) -> (r: Option<AtlasRangeSelector>)
        ensures
            r == spec_transition(*self, *other).1,
    {
        let own = self.range_selector();
        let next = other.range_selector();
        if own == next {
            None
        } else {
            Some(next)
        }
    }

    /// The flip policy of this state.
    pub fn flip_x_state(&self) -> (r: Option<bool>)
        ensures
            r == spec_flip_x(*self),
    {
        match self {
            MossMonsterState::WalkLeft => Some(true),
            MossMonsterState::WalkRight => Some(false),
            MossMonsterState::Idle => None,
            MossMonsterState::Attack => None,
        }
    }

    /// The effects of moving from `self` to `other`.
    pub fn to_data(&self, other: &MossMonsterState) -> (r: (
        Option<bool>,
        Option<AtlasRangeSelector>,
    ))
        ensures
            r == spec_transition(*self, *other),
    {
        (other.flip_x_state(), self.range_change_needed(other))
    }
}

/// The effects of moving from `current` to `requested`: a flip request that
/// reflects `requested` alone, and a range change exactly when `requested`
/// plays from a different range than `current`. An identity transition is a
/// no-op: both effects are `None` whenever the states coincide in flip
/// policy and range.
pub fn transition(current: MossMonsterState, requested: MossMonsterState) -> (r: (
    Option<bool>,
    Option<AtlasRangeSelector>,
))
    ensures
        r == spec_transition(current, requested),
{
    current.to_data(&requested)
}

/// The flip flag a sprite ends up with after a transition: a `Some` request
/// replaces the current flag, `None` keeps it.
pub fn resolve_flip(request: Option<bool>, current_flip: bool) -> (r: bool)
    ensures
        r == match request {
            Some(b) => b,
            None => current_flip,
        },
{
    match request {
        Some(b) => b,
        None => current_flip,
    }
}

/// The mutable per-entity holder of the current behavior state.
pub struct MossMonsterVary {
    state: MossMonsterState,
}

impl MossMonsterVary {
    /// The stored behavior state.
    pub closed spec fn spec_state(&self) -> MossMonsterState {
        self.state
    }

    /// A fresh holder, starting idle.
    pub fn new() -> (v: Self)
        ensures
            v.spec_state() == MossMonsterState::Idle,
    {
        Self { state: MossMonsterState::Idle }
    }

    /// The stored behavior state.
    pub fn state(&self) -> (s: MossMonsterState)
        ensures
            s == self.spec_state(),
    {
        self.state
    }

    /// Requests `requested`, stores it, and returns the transition effects
    /// from the previously stored state.
    pub fn request(&mut self, requested: MossMonsterState) -> (r: (
        Option<bool>,
        Option<AtlasRangeSelector>,
    ))
        ensures
            r == spec_transition(old(self).spec_state(), requested),
            final(self).spec_state() == requested,
    {
        let effects = transition(self.state, requested);
        self.state = requested;
        effects
    }

    /// Requests walking left.
    pub fn walk_left(&mut self) -> (r: (Option<bool>, Option<AtlasRangeSelector>))
        ensures
            r == spec_transition(old(self).spec_state(), MossMonsterState::WalkLeft),
            final(self).spec_state() == MossMonsterState::WalkLeft,
    {
        self.request(MossMonsterState::WalkLeft)
    }

    /// Requests idling.
    pub fn walk_idle(&mut self) -> (r: (Option<bool>, Option<AtlasRangeSelector>))
        ensures
            r == spec_transition(old(self).spec_state(), MossMonsterState::Idle),
            final(self).spec_state() == MossMonsterState::Idle,
    {
        self.request(MossMonsterState::Idle)
    }

    /// Requests walking right.
    pub fn walk_right(&mut self) -> (r: (Option<bool>, Option<AtlasRangeSelector>))
        ensures
            r == spec_transition(old(self).spec_state(), MossMonsterState::WalkRight),
            final(self).spec_state() == MossMonsterState::WalkRight,
    {
        self.request(MossMonsterState::WalkRight)
    }

    /// Requests attacking.
    pub fn attack(&mut self) -> (r: (Option<bool>, Option<AtlasRangeSelector>))
        ensures
            r == spec_transition(old(self).spec_state(), MossMonsterState::Attack),
            final(self).spec_state() == MossMonsterState::Attack,
    {
        self.request(MossMonsterState::Attack)
    }
}

impl Default for MossMonsterVary {
    /// A fresh holder, starting idle.
    fn default() -> (v: Self)
        ensures
            v.spec_state() == MossMonsterState::Idle,
    {
        Self::new()
    }
}

} // verus!

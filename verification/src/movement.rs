//! Held-key movement: eight edge triggers acting on four direction flags.

use vstd::prelude::*;

verus! {

/// One of the four directions a player can hold.
#[derive(Clone, Copy, Debug, PartialEq, Eq, Structural)]
pub enum Direction {
    Forward,
    Backward,
    Right,
    Left,
}

/// An edge trigger: a direction key went down (`Start..`) or up (`Stop..`).
#[derive(Clone, Copy, Debug, PartialEq, Eq, Structural)]
pub enum MoveModifier {
    StartForward,
    StopForward,
    StartBackward,
    StopBackward,
    StartRight,
    StopRight,
    StartLeft,
    StopLeft,
}

impl MoveModifier {
    /// The direction this trigger acts on.
    pub open spec fn spec_direction(self) -> Direction {
        match self {
            MoveModifier::StartForward | MoveModifier::StopForward => Direction::Forward,
            MoveModifier::StartBackward | MoveModifier::StopBackward => Direction::Backward,
            MoveModifier::StartRight | MoveModifier::StopRight => Direction::Right,
            MoveModifier::StartLeft | MoveModifier::StopLeft => Direction::Left,
        }
    }

    /// Whether this trigger is a `Start..` (true) or a `Stop..` (false).
    pub open spec fn spec_is_start(self) -> bool {
        match self {
            MoveModifier::StartForward
            | MoveModifier::StartBackward
            | MoveModifier::StartRight
            | MoveModifier::StartLeft => true,
            _ => false,
        }
    }

    #[verifier::when_used_as_spec(spec_direction)]
    pub fn direction(self) -> (d: Direction)
        ensures
            d == self.spec_direction(),
    {
        match self {
            MoveModifier::StartForward | MoveModifier::StopForward => Direction::Forward,
            MoveModifier::StartBackward | MoveModifier::StopBackward => Direction::Backward,
            MoveModifier::StartRight | MoveModifier::StopRight => Direction::Right,
            MoveModifier::StartLeft | MoveModifier::StopLeft => Direction::Left,
        }
    }

    #[verifier::when_used_as_spec(spec_is_start)]
    pub fn is_start(self) -> (b: bool)
        ensures
            b == self.spec_is_start(),
    {
        match self {
            MoveModifier::StartForward
            | MoveModifier::StartBackward
            | MoveModifier::StartRight
            | MoveModifier::StartLeft => true,
            _ => false,
        }
    }
}

/// How far one tick moves a player along the two ground axes, in whole
/// multiples of the per-tick speed: each component is -1, 0 or 1.
#[derive(Clone, Copy, Debug, PartialEq, Eq, Structural)]
pub struct Step {
    pub x: i8,
    pub z: i8,
}

/// The four held-key flags of one player.
#[derive(Clone, Copy, Debug, PartialEq, Eq, Structural)]
pub struct Movement {
    pub forward: bool,
    pub backward: bool,
    pub right: bool,
    pub left: bool,
}

impl Movement {
    /// The flag of one direction.
    pub open spec fn flag(self, d: Direction) -> bool {
        match d {
            Direction::Forward => self.forward,
            Direction::Backward => self.backward,
            Direction::Right => self.right,
            Direction::Left => self.left,
        }
    }

    /// The flags after one trigger: the trigger's direction is set to
    /// whether it is a start, the other three are kept.
    pub open spec fn apply(self, m: MoveModifier) -> Movement {
        match m.spec_direction() {
            Direction::Forward => Movement { forward: m.spec_is_start(), ..self },
            Direction::Backward => Movement { backward: m.spec_is_start(), ..self },
            Direction::Right => Movement { right: m.spec_is_start(), ..self },
            Direction::Left => Movement { left: m.spec_is_start(), ..self },
        }
    }

    /// The flags after a whole sequence of triggers, applied first to last.
    pub open spec fn apply_all(self, ms: Seq<MoveModifier>) -> Movement
        decreases ms.len(),
    {
        if ms.len() == 0 {
            self
        } else {
            self.apply_all(ms.drop_last()).apply(ms.last())
        }
    }

    /// Multiples of the per-tick speed that the held flags add to the
    /// position in one tick: forward and backward act on `x`, right and
    /// left on `z`, and opposite flags cancel.
    pub open spec fn spec_step(self) -> Step {
        Step {
            x: ((if self.forward { 1int } else { 0 }) - (if self.backward { 1int } else { 0 })) as i8,
            z: ((if self.right { 1int } else { 0 }) - (if self.left { 1int } else { 0 })) as i8,
        }
    }

    /// No key held.
    pub fn new() -> (m: Movement)
        ensures
            m == (Movement { forward: false, backward: false, right: false, left: false }),
    {
        Movement { forward: false, backward: false, right: false, left: false }
    }

    /// The per-tick displacement of the held flags, see [`Movement::spec_step`].
    #[verifier::when_used_as_spec(spec_step)]
    pub fn step(self) -> (s: Step)
        ensures
            s == self.spec_step(),
            -1 <= s.x <= 1,
            -1 <= s.z <= 1,
    {
        let mut x: i8 = 0;
        let mut z: i8 = 0;
        if self.forward {
            x = x + 1;
        }
        if self.backward {
            x = x - 1;
        }
        if self.left {
            z = z - 1;
        }
        if self.right {
            z = z + 1;
        }
        Step { x, z }
    }

    /// Applies one edge trigger to the flags.
    pub fn modify(&mut self, modifier: MoveModifier)
        ensures
            *final(self) == old(self).apply(modifier),
    {
        match modifier {
            MoveModifier::StartForward => self.forward = true,
            MoveModifier::StopForward => self.forward = false,
            MoveModifier::StartBackward => self.backward = true,
            MoveModifier::StopBackward => self.backward = false,
            MoveModifier::StartRight => self.right = true,
            MoveModifier::StopRight => self.right = false,
            MoveModifier::StartLeft => self.left = true,
            MoveModifier::StopLeft => self.left = false,
        }
    }
}

impl Default for Movement {
    fn default() -> (m: Movement)
        ensures
            m == (Movement { forward: false, backward: false, right: false, left: false }),
    {
        Movement::new()
    }
}

/// Whether the last trigger of `ms` that acts on `d` is a start, or `None`
/// where no trigger of `ms` acts on `d`.
pub open spec fn last_trigger(ms: Seq<MoveModifier>, d: Direction) -> Option<bool>
    decreases ms.len(),
{
    if ms.len() == 0 {
        None
    } else if ms.last().spec_direction() == d {
        Some(ms.last().spec_is_start())
    } else {
        last_trigger(ms.drop_last(), d)
    }
}

/// A trigger sets its own direction's flag and leaves the other three alone.
pub proof fn lemma_apply_flags(m: Movement, t: MoveModifier, d: Direction)
    ensures
        m.apply(t).flag(d) == (if t.spec_direction() == d {
            t.spec_is_start()
        } else {
            m.flag(d)
        }),
{
}

/// Repeating a trigger changes nothing: the flags are idempotent to
/// identical triggers.
pub proof fn lemma_apply_idempotent(m: Movement, t: MoveModifier)
    ensures
        m.apply(t).apply(t) == m.apply(t),
{
}

/// After any sequence of triggers each flag equals the last start or stop
/// given for its direction, and is unchanged where none was given.
pub proof fn lemma_flags_follow_last_trigger(m: Movement, ms: Seq<MoveModifier>, d: Direction)
    ensures
        m.apply_all(ms).flag(d) == (match last_trigger(ms, d) {
            Some(held) => held,
            None => m.flag(d),
        }),
    decreases ms.len(),
{
    if ms.len() > 0 {
        lemma_flags_follow_last_trigger(m, ms.drop_last(), d);
        lemma_apply_flags(m.apply_all(ms.drop_last()), ms.last(), d);
    }
}

} // verus!

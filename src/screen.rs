use vstd::prelude::*;

verus! {

/// Number of screens in the cycle.
pub const SCREEN_COUNT: usize = 4;

/// The screen that is currently shown. `Intro` is the start of the cycle.
#[derive(Debug, Clone, Copy, PartialEq, Eq, Structural)]
pub enum Screen {
    Intro,
    First,
    Second,
    Third,
}

impl Screen {
    /// Position of the screen in the cycle.
    pub open spec fn position(self) -> nat {
        match self {
            Screen::Intro => 0,
            Screen::First => 1,
            Screen::Second => 2,
            Screen::Third => 3,
        }
    }

    /// The screen at a position of the cycle, taken modulo its length.
    pub open spec fn at_position(p: nat) -> Screen {
        let q = p % (SCREEN_COUNT as nat);
        if q == 0 {
            Screen::Intro
        } else if q == 1 {
            Screen::First
        } else if q == 2 {
            Screen::Second
        } else {
            Screen::Third
        }
    }

    /// The screen after this one, wrapping from the last to the first.
    pub open spec fn successor(self) -> Screen {
        Screen::at_position(self.position() + 1)
    }

    /// The screen before this one, wrapping from the first to the last.
    pub open spec fn predecessor(self) -> Screen {
        Screen::at_position(self.position() + (SCREEN_COUNT - 1) as nat)
    }

    /// Advances to the next screen of the cycle.
    pub fn next(self) -> (r: Screen)
        ensures
            r == self.successor(),
            r.position() == (self.position() + 1) % (SCREEN_COUNT as nat),
    {
        match self {
            Screen::Intro => Screen::First,
            Screen::First => Screen::Second,
            Screen::Second => Screen::Third,
            Screen::Third => Screen::Intro,
        }
    }

    /// Goes back to the previous screen of the cycle.
    pub fn previous(self) -> (r: Screen)
        ensures
            r == self.predecessor(),
            r.position() == (self.position() + (SCREEN_COUNT - 1) as nat) % (SCREEN_COUNT as nat),
    {
        match self {
            Screen::Intro => Screen::Third,
            Screen::First => Screen::Intro,
            Screen::Second => Screen::First,
            Screen::Third => Screen::Second,
        }
    }
}

/// Stepping forward three times and back once ends where stepping forward
/// twice does, from any screen.
pub proof fn lemma_three_forward_one_back(s: Screen)
    ensures
        s.successor().successor().successor().predecessor() == s.successor().successor(),
{
}

/// The cycle wraps at both ends: the screen before the first is the last, and
/// the screen after the last is the first.
pub proof fn lemma_cycle_wraps()
    ensures
        Screen::Intro.predecessor() == Screen::Third,
        Screen::Third.successor() == Screen::Intro,
{
}

/// Every screen has a successor and a predecessor, and they undo each other.
pub proof fn lemma_step_inverse(s: Screen)
    ensures
        s.successor().predecessor() == s,
        s.predecessor().successor() == s,
{
}

} // verus!

use vstd::prelude::*;

verus! {

/// Idle ticks on the intro screen between two frame advances.
pub const FRAME_TICKS: u8 = 4;

/// Where the intro animation stands: the frame shown and the idle ticks
/// counted since the frame last changed.
#[derive(Debug, Clone, Copy, PartialEq, Eq, Structural)]
pub struct AnimationState {
    pub frame_index: usize,
    pub tick: u8,
}

impl AnimationState {
    /// The state of the animation after one idle tick, for a sequence of
    /// `frame_count` frames, with the intro screen shown or not.
    pub open spec fn ticked(self, on_intro: bool, frame_count: nat) -> AnimationState {
        if frame_count <= 1 {
            self
        } else if !on_intro {
            AnimationState { frame_index: (self.frame_index as int % frame_count as int) as usize, tick: 0 }
        } else {
            let t: u8 = if self.tick == 255 {
                255
            } else {
                (self.tick + 1) as u8
            };
            if t >= FRAME_TICKS {
                AnimationState {
                    frame_index: ((self.frame_index + 1) % frame_count as int) as usize,
                    tick: 0,
                }
            } else {
                AnimationState { frame_index: self.frame_index, tick: t }
            }
        }
    }

    /// The state after `n` idle ticks on the same screen.
    pub open spec fn ticked_n(self, on_intro: bool, frame_count: nat, n: nat) -> AnimationState
        decreases n,
    {
        if n == 0 {
            self
        } else {
            self.ticked(on_intro, frame_count).ticked_n(on_intro, frame_count, (n - 1) as nat)
        }
    }

    /// The first frame, with no ticks counted.
    pub fn new() -> (r: AnimationState)
        ensures
            r.frame_index == 0,
            r.tick == 0,
    {
        AnimationState { frame_index: 0, tick: 0 }
    }

    /// Counts one idle tick. Away from the intro screen the tick count is
    /// cleared and the frame index brought into range; on it, every
    /// `FRAME_TICKS`-th tick moves to the next frame, wrapping after the last.
    /// With fewer than two frames nothing changes.
    pub fn tick(&mut self, on_intro: bool, frame_count: usize)
        ensures
            *final(self) == old(self).ticked(on_intro, frame_count as nat),
    {
        if frame_count <= 1 {
            return;
        }
        if !on_intro {
            self.tick = 0;
            self.frame_index = self.frame_index % frame_count;
            return;
        }
        self.tick = self.tick.saturating_add(1);
        if self.tick >= FRAME_TICKS {
            self.tick = 0;
            let k = self.frame_index % frame_count;
            proof {
                vstd::arithmetic::div_mod::lemma_add_mod_noop(
                    old(self).frame_index as int,
                    1,
                    frame_count as int,
                );
                vstd::arithmetic::div_mod::lemma_small_mod(1, frame_count as nat);
            }
            if k + 1 == frame_count {
                self.frame_index = 0;
                proof {
                    vstd::arithmetic::div_mod::lemma_mod_self_0(frame_count as int);
                }
            } else {
                self.frame_index = k + 1;
                proof {
                    vstd::arithmetic::div_mod::lemma_small_mod((k + 1) as nat, frame_count as nat);
                }
            }
        }
    }
}

/// On the intro screen, starting with no ticks counted, the frame advances
/// once for every `FRAME_TICKS` idle ticks and the tick count is the
/// remainder.
pub proof fn lemma_frame_advances_every_fourth_tick(a: AnimationState, frame_count: usize, n: nat)
    requires
        frame_count > 1,
        a.tick == 0,
        a.frame_index < frame_count,
    ensures
        a.ticked_n(true, frame_count as nat, n).frame_index == (a.frame_index + n / 4) % (
        frame_count as int),
        a.ticked_n(true, frame_count as nat, n).tick == n % 4,
    decreases n,
{
    let fc = frame_count as nat;
    if n == 0 {
        vstd::arithmetic::div_mod::lemma_small_mod(a.frame_index as nat, fc);
    } else {
        let m = (n - 1) as nat;
        lemma_frame_advances_every_fourth_tick(a, frame_count, m);
        lemma_ticked_n_last(a, true, fc, m);
        let b = a.ticked_n(true, fc, m);
        assert(b.tick == m % 4);
        assert(b.frame_index < frame_count) by {
            vstd::arithmetic::div_mod::lemma_mod_bound(a.frame_index + m / 4, frame_count as int);
        }
        if m % 4 == 3 {
            assert(n / 4 == m / 4 + 1);
            assert(((a.frame_index + m / 4) % (frame_count as int) + 1) % (frame_count as int)
                == (a.frame_index + n / 4) % (frame_count as int)) by {
                vstd::arithmetic::div_mod::lemma_add_mod_noop(
                    a.frame_index + m / 4,
                    1,
                    frame_count as int,
                );
                vstd::arithmetic::div_mod::lemma_small_mod(1, fc);
            }
        } else {
            assert(n / 4 == m / 4);
            assert(n % 4 == m % 4 + 1);
        }
    }
}

/// One more tick after `n` ticks is the same as `n + 1` ticks.
pub proof fn lemma_ticked_n_last(a: AnimationState, on_intro: bool, frame_count: nat, n: nat)
    ensures
        a.ticked_n(on_intro, frame_count, n + 1) == a.ticked_n(on_intro, frame_count, n).ticked(
            on_intro,
            frame_count,
        ),
    decreases n,
{
    reveal_with_fuel(AnimationState::ticked_n, 2);
    if n > 0 {
        let b = a.ticked(on_intro, frame_count);
        lemma_ticked_n_last(b, on_intro, frame_count, (n - 1) as nat);
        assert(a.ticked_n(on_intro, frame_count, n + 1) == b.ticked_n(on_intro, frame_count, n));
        assert(a.ticked_n(on_intro, frame_count, n) == b.ticked_n(
            on_intro,
            frame_count,
            (n - 1) as nat,
        ));
    }
}

/// Away from the intro screen the frame never advances and the tick count
/// stays cleared, so coming back to the intro screen starts counting afresh.
pub proof fn lemma_no_advance_off_intro(a: AnimationState, frame_count: nat, n: nat)
    requires
        frame_count > 1,
        n > 0,
    ensures
        a.ticked_n(false, frame_count, n).frame_index == a.frame_index as int % (frame_count as int),
        a.ticked_n(false, frame_count, n).tick == 0,
    decreases n,
{
    reveal_with_fuel(AnimationState::ticked_n, 2);
    let b = a.ticked(false, frame_count);
    assert(a.frame_index as int % (frame_count as int) <= a.frame_index) by {
        vstd::arithmetic::div_mod::lemma_mod_decreases(a.frame_index as nat, frame_count);
    }
    assert(b.frame_index == a.frame_index as int % (frame_count as int));
    if n > 1 {
        lemma_no_advance_off_intro(b, frame_count, (n - 1) as nat);
        vstd::arithmetic::div_mod::lemma_mod_twice(a.frame_index as int, frame_count as int);
    }
}

} // verus!

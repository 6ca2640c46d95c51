//! The path of a snake that is left alone on an empty field.

use vstd::prelude::*;

use crate::grid::Cell;
use crate::snake::SnakeState;

verus! {

impl SnakeState {
    /// The snake after `ticks` moves with no fruit on the field and no turn.
    pub open spec fn coast(self, ticks: nat) -> SnakeState
        decreases ticks,
    {
        if ticks == 0 {
            self
        } else {
            self.coast((ticks - 1) as nat).advance(Seq::empty())
        }
    }
}

/// A snake that is left alone on an empty field moves in a straight line, one
/// cell per tick along the axis it started on. After `ticks` moves it has its
/// axis, step and length as before; its head lies `ticks` steps from where it
/// was; behind the head follow the cells that the head has passed, and then,
/// as far as the length reaches, the front of the body it started with.
pub proof fn lemma_straight_line(s: SnakeState, ticks: nat)
    requires
        s.body.len() >= 1,
        s.head == s.body[0],
    ensures
        s.coast(ticks).axis == s.axis,
        s.coast(ticks).step == s.step,
        s.coast(ticks).body.len() == s.body.len(),
        s.coast(ticks).head == s.body[0].shifted(s.axis, ticks * s.step),
        s.coast(ticks).head == s.coast(ticks).body[0],
        forall|i: int|
            0 <= i < s.body.len() ==> #[trigger] s.coast(ticks).body[i] == if i < ticks {
                s.body[0].shifted(s.axis, (ticks - i) * s.step)
            } else {
                s.body[i - ticks]
            },
    decreases ticks,
{
    if ticks > 0 {
        let before = s.coast((ticks - 1) as nat);
        let after = s.coast(ticks);
        lemma_straight_line(s, (ticks - 1) as nat);
        assert(!before.will_eat(Seq::<Cell>::empty()));
        assert((ticks - 1) * s.step + s.step == ticks * s.step) by (nonlinear_arith);
        assert(after.head == s.body[0].shifted(s.axis, ticks * s.step));
        assert forall|i: int| 0 <= i < s.body.len() implies #[trigger] after.body[i] == if i
            < ticks {
            s.body[0].shifted(s.axis, (ticks - i) * s.step)
        } else {
            s.body[i - ticks]
        } by {
            if i > 0 {
                assert(after.body[i] == before.body[i - 1]);
            }
        }
    }
}

} // verus!

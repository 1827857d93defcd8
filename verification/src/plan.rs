//! The column and project planners.
//!
//! A column's notes are evaluated in order, each from the committed state
//! the previous one carried over; the first note starts from the column
//! base state of 440.0 frequency and unit duration and velocity.  The
//! result is one [`NotePlan`] per note.  The draws the jitter opcodes
//! consumed exist only inside the planner, so its contract quantifies over
//! them: there is some valid draw assignment under which every plan is
//! exactly the evaluator's answer.  A chain without jitter opcodes makes
//! that assignment irrelevant (see [`crate::laws`]).

use vstd::prelude::*;
use crate::bits::{BASE_FREQ_BITS, ONE_BITS};
use crate::eval::{Triple, NotePlan, spec_eval_note, plan_matches, valid_note_draws, effects_v, draw_note_jitter, eval_note, draws_view};
use crate::model::{Column, Note, Project};

verus! {

/// The committed state every column starts from.
pub open spec fn spec_base_state() -> Triple {
    Triple { freq: BASE_FREQ_BITS, dur: ONE_BITS, vel: ONE_BITS }
}

/// The committed state every column starts from.
pub fn base_state() -> (r: Triple)
    ensures
        r == spec_base_state(),
{
    Triple { freq: BASE_FREQ_BITS, dur: ONE_BITS, vel: ONE_BITS }
}

/// The draws of one note, none when the list is exhausted.
pub open spec fn ds3_at(ds: Seq<Seq<Seq<usize>>>, k: int) -> Seq<Seq<usize>> {
    if 0 <= k < ds.len() {
        ds[k]
    } else {
        Seq::empty()
    }
}

/// The committed state entering note `i`: the base state threaded through
/// the first `i` notes.
pub open spec fn committed_before(notes: Seq<Note>, ds: Seq<Seq<Seq<usize>>>, i: int) -> Triple
    decreases i,
{
    if i <= 0 {
        spec_base_state()
    } else {
        spec_eval_note(committed_before(notes, ds, i - 1), notes[i - 1], ds3_at(ds, i - 1)).carry
    }
}

/// The committed state entering a note depends only on the draws of the
/// notes before it.
pub proof fn lemma_committed_stable(
    notes: Seq<Note>,
    ds1: Seq<Seq<Seq<usize>>>,
    ds2: Seq<Seq<Seq<usize>>>,
    i: int,
)
    requires
        0 <= i <= ds1.len(),
        ds1.len() <= ds2.len(),
        forall|k: int| 0 <= k < i ==> ds1[k] == ds2[k],
    ensures
        committed_before(notes, ds1, i) == committed_before(notes, ds2, i),
    decreases i,
{
    if i > 0 {
        lemma_committed_stable(notes, ds1, ds2, i - 1);
    }
}

/// Did the column's jitter draws all stay in range?
pub open spec fn column_draws_valid(notes: Seq<Note>, ds: Seq<Seq<Seq<usize>>>) -> bool {
    &&& ds.len() == notes.len()
    &&& (forall|i: int|
        0 <= i < notes.len() ==> valid_note_draws(effects_v(notes[i]), #[trigger] ds[i]))
}

/// Does every plan say exactly what evaluating its note under the draws
/// `ds` yields, threading the committed state in order?
pub open spec fn column_plan_matches(
    notes: Seq<Note>,
    ds: Seq<Seq<Seq<usize>>>,
    plans: Seq<NotePlan>,
) -> bool {
    &&& plans.len() == notes.len()
    &&& (forall|i: int|
        0 <= i < notes.len() ==> plan_matches(
            #[trigger] plans[i],
            committed_before(notes, ds, i),
            notes[i],
            ds3_at(ds, i),
        ))
}

/// Was this list of plans produced by evaluating the notes in order under
/// some valid draw assignment?
pub open spec fn column_planned(notes: Seq<Note>, plans: Seq<NotePlan>) -> bool {
    exists|ds: Seq<Seq<Seq<usize>>>|
        column_draws_valid(notes, ds) && column_plan_matches(notes, ds, plans)
}

/// Plan one column: evaluate its notes in order.
pub fn plan_column(c: &Column) -> (r: Vec<NotePlan>)
    ensures
        column_planned(c.notes@, r@),
{
    let mut plans: Vec<NotePlan> = Vec::new();
    let mut state: Triple = base_state();
    let ghost mut gds: Seq<Seq<Seq<usize>>> = Seq::empty();
    let mut i: usize = 0;
    while i < c.notes.len()
        invariant
            i <= c.notes@.len(),
            gds.len() == i,
            plans@.len() == i,
            state == committed_before(c.notes@, gds, i as int),
            forall|j: int|
                0 <= j < i ==> valid_note_draws(effects_v(c.notes@[j]), #[trigger] gds[j]),
            forall|j: int|
                0 <= j < i ==> plan_matches(
                    #[trigger] plans@[j],
                    committed_before(c.notes@, gds, j),
                    c.notes@[j],
                    gds[j],
                ),
        decreases c.notes@.len() - i,
    {
        let draws = draw_note_jitter(&c.notes[i]);
        let (plan, next) = eval_note(state, &c.notes[i], &draws);
        let ghost gds2 = gds.push(draws_view(draws));
        proof {
            assert forall|j: int| 0 <= j <= i implies committed_before(c.notes@, gds2, j)
                == committed_before(c.notes@, gds, j) by {
                lemma_committed_stable(c.notes@, gds, gds2, j);
            }
            assert(ds3_at(gds2, i as int) == draws_view(draws));
            assert(committed_before(c.notes@, gds2, i + 1) == spec_eval_note(
                committed_before(c.notes@, gds2, i as int),
                c.notes@[i as int],
                ds3_at(gds2, i as int),
            ).carry);
        }
        plans.push(plan);
        proof {
            gds = gds2;
        }
        state = next;
        i = i + 1;
    }
    proof {
        assert(column_draws_valid(c.notes@, gds));
        assert(column_plan_matches(c.notes@, gds, plans@));
        assert(column_planned(c.notes@, plans@));
    }
    plans
}

/// Plan a whole project: one list of note plans per column, in column
/// order.
pub fn plan_project(p: &Project) -> (r: Vec<Vec<NotePlan>>)
    ensures
        r@.len() == p.columns@.len(),
        forall|i: int|
            0 <= i < p.columns@.len() ==> column_planned(
                p.columns@[i].notes@,
                (#[trigger] r@[i])@,
            ),
{
    let mut r: Vec<Vec<NotePlan>> = Vec::new();
    let mut i: usize = 0;
    while i < p.columns.len()
        invariant
            i <= p.columns@.len(),
            r@.len() == i,
            forall|j: int|
                0 <= j < i ==> column_planned(p.columns@[j].notes@, (#[trigger] r@[j])@),
        decreases p.columns@.len() - i,
    {
        let plans = plan_column(&p.columns[i]);
        r.push(plans);
        i = i + 1;
    }
    r
}

} // verus!

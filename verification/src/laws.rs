//! The laws of the pipeline, stated and proved over its specifications.
//!
//! Each proof function here is part of the library's statement of intent:
//! what holds of every note, every chain, every project — not of chosen
//! values.  Where a law can only hold under an arithmetic identity the
//! bit-pattern model does not assume (addition of zeros, commutation of
//! sample addition), the identity stands as an explicit hypothesis.

use vstd::prelude::*;
use vstd::seq_lib::{commutative_foldl, lemma_fold_left_permutation, group_to_multiset_ensures};
use crate::bits::{ZERO_BITS, ONE_BITS, POS_INF_BITS, NEG_INF_BITS, MAX_FINITE_BITS, MIN_FINITE_BITS, abs_bits, is_nan_bits, spec_add_bits, spec_sanitize};
use crate::eval::{Triple, EvalState, NotePlan, spec_eval_upto, spec_eval_note, spec_init_state, spec_tuples, ratios_applied, effects_v};
use crate::model::{EffectV, Note};
use crate::plan::{spec_base_state, committed_before, column_plan_matches, column_planned, ds3_at};
use crate::render::{Sample, zero_sample, sanitize_sample, sum_at, spec_max_len, spec_mixdown, spec_fallback_len, spec_note_buffers, spec_note_sum, spec_assemble_note, answer_at, resolved_buffer};

verus! {

// ---------------------------------------------------------------------
// A note without effects renders its post-ratio committed state.
// ---------------------------------------------------------------------

/// For a note without effects the evaluator yields exactly one parameter
/// tuple — the incoming committed state with the note's own three ratios
/// applied — and carries that same state to the next note.
pub proof fn lemma_no_effects_tuple(pre: Triple, n: Note, ds: Seq<Seq<usize>>)
    requires
        effects_v(n).len() == 0,
    ensures
        spec_tuples(spec_eval_note(pre, n, ds)) =~= seq![ratios_applied(pre, n)],
        spec_eval_note(pre, n, ds).carry == ratios_applied(pre, n),
{
    let st = spec_eval_note(pre, n, ds);
    assert(st == spec_init_state(pre, n));
    assert(st.layered.push(st.run) =~= seq![st.run]);
    assert(spec_tuples(st)[0] == st.run);
}

/// The committed state of a chain of effect-free notes: the base state
/// with every prior note's ratios applied in order.
pub open spec fn spec_state_product(notes: Seq<Note>, i: int) -> Triple
    decreases i,
{
    if i <= 0 {
        spec_base_state()
    } else {
        ratios_applied(spec_state_product(notes, i - 1), notes[i - 1])
    }
}

/// In a column of effect-free notes the committed state entering note
/// `i` is the cumulative product of all prior notes' ratios over the
/// base state, whatever was drawn.
pub proof fn lemma_effect_free_committed(
    notes: Seq<Note>,
    ds: Seq<Seq<Seq<usize>>>,
    i: int,
)
    requires
        0 <= i <= notes.len(),
        forall|k: int| 0 <= k < notes.len() ==> effects_v(#[trigger] notes[k]).len() == 0,
    ensures
        committed_before(notes, ds, i) == spec_state_product(notes, i),
    decreases i,
{
    if i > 0 {
        lemma_effect_free_committed(notes, ds, i - 1);
        let pre = committed_before(notes, ds, i - 1);
        lemma_no_effects_tuple(pre, notes[i - 1], ds3_at(ds, i - 1));
    }
}

// ---------------------------------------------------------------------
// Layering only adds tuples; the natural tuple is always there, last.
// ---------------------------------------------------------------------

/// Is this one of the two layering opcodes?
pub open spec fn is_layer(e: EffectV) -> bool {
    e is LayerRelative || e is LayerAdditive
}

/// How many of the first `i` effects are layering opcodes.
pub open spec fn layer_count(effs: Seq<EffectV>, i: int) -> nat
    decreases i,
{
    if i <= 0 {
        0
    } else {
        layer_count(effs, i - 1) + (if is_layer(effs[i - 1]) {
            1nat
        } else {
            0nat
        })
    }
}

/// Each layering opcode pushes exactly one tuple; nothing else pushes
/// any.
proof fn lemma_layered_len(
    init: EvalState,
    effs: Seq<EffectV>,
    ds: Seq<Seq<usize>>,
    i: int,
)
    requires
        0 <= i <= effs.len(),
    ensures
        spec_eval_upto(init, effs, ds, i).layered.len() == init.layered.len() + layer_count(
            effs,
            i,
        ),
    decreases i,
{
    if i > 0 {
        lemma_layered_len(init, effs, ds, i - 1);
        let st = spec_eval_upto(init, effs, ds, i - 1);
        match effs[i - 1] {
            EffectV::LayerRelative { .. } => {},
            EffectV::LayerAdditive { .. } => {},
            EffectV::ConstFreq { .. } => {},
            EffectV::ConstDur { .. } => {},
            EffectV::ConstVel { .. } => {},
            EffectV::Repeat { .. } => {},
            EffectV::SendParams { .. } => {},
            EffectV::OverrideFreq { .. } => {},
            EffectV::OverrideDur { .. } => {},
            EffectV::OverrideVel { .. } => {},
            EffectV::KeepState => {},
            EffectV::Slice { .. } => {},
            EffectV::Jitter { .. } => {},
            EffectV::Ignored => {},
        }
    }
}

/// However many effects ran, the tuple list holds one tuple per layering
/// opcode executed plus the note's own natural tuple, and the natural
/// tuple — the running state at the end of the chain — comes last.
pub proof fn lemma_tuple_count(pre: Triple, n: Note, ds: Seq<Seq<usize>>)
    ensures
        ({
            let st = spec_eval_note(pre, n, ds);
            let ts = spec_tuples(st);
            &&& ts.len() == 1 + layer_count(effects_v(n), effects_v(n).len() as int)
            &&& ts.len() >= 1
            &&& ts.last() == (Triple {
                freq: st.run.freq,
                dur: if st.slice == ONE_BITS {
                    st.run.dur
                } else {
                    crate::bits::spec_div_bits(st.run.dur, st.slice)
                },
                vel: st.run.vel,
            })
        }),
{
    let st = spec_eval_note(pre, n, ds);
    lemma_layered_len(spec_init_state(pre, n), effects_v(n), ds, effects_v(n).len() as int);
    assert(st.layered.push(st.run).last() == st.run);
}

// ---------------------------------------------------------------------
// Without jitter opcodes, evaluation does not depend on the draws.
// ---------------------------------------------------------------------

/// Does the chain contain no jitter opcode?
pub open spec fn jitter_free(effs: Seq<EffectV>) -> bool {
    forall|i: int| 0 <= i < effs.len() ==> !((#[trigger] effs[i]) is Jitter)
}

/// A jitter-free chain evaluates the same under any draws.
pub proof fn lemma_eval_draw_independent(
    init: EvalState,
    effs: Seq<EffectV>,
    ds1: Seq<Seq<usize>>,
    ds2: Seq<Seq<usize>>,
    i: int,
)
    requires
        jitter_free(effs),
        0 <= i <= effs.len(),
    ensures
        spec_eval_upto(init, effs, ds1, i) == spec_eval_upto(init, effs, ds2, i),
    decreases i,
{
    if i > 0 {
        lemma_eval_draw_independent(init, effs, ds1, ds2, i - 1);
        let st = spec_eval_upto(init, effs, ds1, i - 1);
        match effs[i - 1] {
            EffectV::Jitter { .. } => {
                assert(false);
            },
            EffectV::LayerRelative { .. } => {},
            EffectV::LayerAdditive { .. } => {},
            EffectV::ConstFreq { .. } => {},
            EffectV::ConstDur { .. } => {},
            EffectV::ConstVel { .. } => {},
            EffectV::Repeat { .. } => {},
            EffectV::SendParams { .. } => {},
            EffectV::OverrideFreq { .. } => {},
            EffectV::OverrideDur { .. } => {},
            EffectV::OverrideVel { .. } => {},
            EffectV::KeepState => {},
            EffectV::Slice { .. } => {},
            EffectV::Ignored => {},
        }
    }
}

/// In a column whose notes are all jitter-free, the committed state
/// entering any note is the same under any draws.
pub proof fn lemma_committed_draw_independent(
    notes: Seq<Note>,
    ds1: Seq<Seq<Seq<usize>>>,
    ds2: Seq<Seq<Seq<usize>>>,
    i: int,
)
    requires
        0 <= i <= notes.len(),
        forall|k: int| 0 <= k < notes.len() ==> jitter_free(effects_v(#[trigger] notes[k])),
    ensures
        committed_before(notes, ds1, i) == committed_before(notes, ds2, i),
    decreases i,
{
    if i > 0 {
        lemma_committed_draw_independent(notes, ds1, ds2, i - 1);
        let pre = committed_before(notes, ds1, i - 1);
        let n = notes[i - 1];
        lemma_eval_draw_independent(
            spec_init_state(pre, n),
            effects_v(n),
            ds3_at(ds1, i - 1),
            ds3_at(ds2, i - 1),
            effects_v(n).len() as int,
        );
    }
}

/// Do two plan lists say the same in every observable part?
pub open spec fn plans_equal(a: Seq<NotePlan>, b: Seq<NotePlan>) -> bool {
    &&& a.len() == b.len()
    &&& (forall|i: int|
        0 <= i < a.len() ==> {
            &&& (#[trigger] a[i]).synth@ == b[i].synth@
            &&& a[i].tuples@ == b[i].tuples@
            &&& a[i].params@ == b[i].params@
            &&& a[i].repeat == b[i].repeat
        })
}

/// Planning a column whose notes use no jitter opcode is deterministic:
/// any two plan lists the planner can produce for it are identical.
/// Everything after planning — resolving, summing, cycling,
/// concatenating, mixing — is an exact function of the plans and the
/// synthesis answers, so re-rendering with the same answers reproduces
/// the output bit for bit.
pub proof fn lemma_plan_deterministic(notes: Seq<Note>, plans1: Seq<NotePlan>, plans2: Seq<NotePlan>)
    requires
        forall|k: int| 0 <= k < notes.len() ==> jitter_free(effects_v(#[trigger] notes[k])),
        column_planned(notes, plans1),
        column_planned(notes, plans2),
    ensures
        plans_equal(plans1, plans2),
{
    let ds1 = choose|ds: Seq<Seq<Seq<usize>>>|
        crate::plan::column_draws_valid(notes, ds) && column_plan_matches(notes, ds, plans1);
    let ds2 = choose|ds: Seq<Seq<Seq<usize>>>|
        crate::plan::column_draws_valid(notes, ds) && column_plan_matches(notes, ds, plans2);
    assert forall|i: int| 0 <= i < notes.len() implies {
        &&& (#[trigger] plans1[i]).synth@ == plans2[i].synth@
        &&& plans1[i].tuples@ == plans2[i].tuples@
        &&& plans1[i].params@ == plans2[i].params@
        &&& plans1[i].repeat == plans2[i].repeat
    } by {
        lemma_committed_draw_independent(notes, ds1, ds2, i);
        let pre = committed_before(notes, ds1, i);
        lemma_eval_draw_independent(
            spec_init_state(pre, notes[i]),
            effects_v(notes[i]),
            ds3_at(ds1, i),
            ds3_at(ds2, i),
            effects_v(notes[i]).len() as int,
        );
    }
}

/// Planning a whole project without jitter opcodes is deterministic,
/// column by column.
pub proof fn lemma_project_plan_deterministic(
    columns: Seq<crate::model::Column>,
    r1: Seq<Seq<NotePlan>>,
    r2: Seq<Seq<NotePlan>>,
)
    requires
        r1.len() == columns.len(),
        r2.len() == columns.len(),
        forall|i: int, k: int|
            0 <= i < columns.len() && 0 <= k < (#[trigger] columns[i]).notes@.len()
                ==> jitter_free(effects_v(#[trigger] columns[i].notes@[k])),
        forall|i: int| 0 <= i < columns.len() ==> column_planned(columns[i].notes@, #[trigger] r1[i]),
        forall|i: int| 0 <= i < columns.len() ==> column_planned(columns[i].notes@, #[trigger] r2[i]),
    ensures
        forall|i: int| 0 <= i < columns.len() ==> plans_equal(#[trigger] r1[i], r2[i]),
{
    assert forall|i: int| 0 <= i < columns.len() implies plans_equal(#[trigger] r1[i], r2[i]) by {
        lemma_plan_deterministic(columns[i].notes@, r1[i], r2[i]);
    }
}

// ---------------------------------------------------------------------
// Mixing is insensitive to column order, as far as addition commutes.
// ---------------------------------------------------------------------

/// The sum at one index only reads the buffers before `k`.
proof fn lemma_sum_at_prefix(cs1: Seq<Seq<Sample>>, cs2: Seq<Seq<Sample>>, i: int, k: int)
    requires
        0 <= k <= cs1.len(),
        k <= cs2.len(),
        forall|j: int| 0 <= j < k ==> cs1[j] == cs2[j],
    ensures
        sum_at(cs1, i, k) == sum_at(cs2, i, k),
    decreases k,
{
    if k > 0 {
        lemma_sum_at_prefix(cs1, cs2, i, k - 1);
    }
}

/// The position-wise summing step, as a fold operator.
pub open spec fn mix_step(i: int) -> spec_fn(Sample, Seq<Sample>) -> Sample {
    |acc: Sample, b: Seq<Sample>|
        if 0 <= i < b.len() {
            Sample {
                left: spec_add_bits(acc.left, b[i].left),
                right: spec_add_bits(acc.right, b[i].right),
            }
        } else {
            acc
        }
}

/// The recursive sum is the left fold of the summing step.
proof fn lemma_sum_at_is_fold(cs: Seq<Seq<Sample>>, i: int)
    ensures
        sum_at(cs, i, cs.len() as int) == cs.fold_left(zero_sample(), mix_step(i)),
    decreases cs.len(),
{
    if cs.len() > 0 {
        lemma_sum_at_is_fold(cs.drop_last(), i);
        lemma_sum_at_prefix(cs.drop_last(), cs, i, cs.len() - 1);
    }
}

/// The longest-buffer scan only reads the buffers before `k`.
proof fn lemma_max_len_prefix(cs1: Seq<Seq<Sample>>, cs2: Seq<Seq<Sample>>, k: int)
    requires
        0 <= k <= cs1.len(),
        k <= cs2.len(),
        forall|j: int| 0 <= j < k ==> cs1[j] == cs2[j],
    ensures
        spec_max_len(cs1, k) == spec_max_len(cs2, k),
    decreases k,
{
    if k > 0 {
        lemma_max_len_prefix(cs1, cs2, k - 1);
    }
}

/// The longest-buffer step, as a fold operator.
pub open spec fn max_step() -> spec_fn(nat, Seq<Sample>) -> nat {
    |m: nat, c: Seq<Sample>|
        if c.len() > m {
            c.len()
        } else {
            m
        }
}

/// The recursive longest-buffer scan is the left fold of its step.
proof fn lemma_max_len_is_fold(cs: Seq<Seq<Sample>>)
    ensures
        spec_max_len(cs, cs.len() as int) == cs.fold_left(0nat, max_step()),
    decreases cs.len(),
{
    if cs.len() > 0 {
        lemma_max_len_is_fold(cs.drop_last());
        lemma_max_len_prefix(cs.drop_last(), cs, cs.len() - 1);
    }
}

/// Permuting the columns does not change the mix, provided sample
/// addition commutes under the fold.  The hypothesis is exactly the gap
/// between IEEE-754 addition and a commutative-associative sum: patterns
/// of widely different magnitude can make `(v + x) + y` and `(v + y) + x`
/// differ by rounding, and for such columns a permutation may change the
/// output.
pub proof fn lemma_mixdown_permutation(cs1: Seq<Seq<Sample>>, cs2: Seq<Seq<Sample>>)
    requires
        cs1.to_multiset() == cs2.to_multiset(),
        forall|v: u32, x: u32, y: u32|
            #[trigger] spec_add_bits(spec_add_bits(v, x), y) == spec_add_bits(
                spec_add_bits(v, y),
                x,
            ),
    ensures
        spec_mixdown(cs1) == spec_mixdown(cs2),
{
    broadcast use group_to_multiset_ensures;

    assert(cs1.len() == cs2.len()) by {
        assert(cs1.to_multiset().len() == cs1.len());
        assert(cs2.to_multiset().len() == cs2.len());
    }
    assert(commutative_foldl(max_step())) by {
        assert forall|x: Seq<Sample>, y: Seq<Sample>, v: nat|
            #[trigger] max_step()(max_step()(v, x), y) == max_step()(max_step()(v, y), x) by {}
    }
    lemma_fold_left_permutation(cs1, cs2, max_step(), 0nat);
    lemma_max_len_is_fold(cs1);
    lemma_max_len_is_fold(cs2);
    let len = spec_max_len(cs1, cs1.len() as int);
    assert forall|i: int| 0 <= i < len implies sum_at(cs1, i, cs1.len() as int) == sum_at(
        cs2,
        i,
        cs2.len() as int,
    ) by {
        let f = mix_step(i);
        assert(commutative_foldl(f)) by {
            assert forall|x: Seq<Sample>, y: Seq<Sample>, v: Sample| #[trigger] f(f(v, x), y) == f(
                f(v, y),
                x,
            ) by {}
        }
        lemma_fold_left_permutation(cs1, cs2, f, zero_sample());
        lemma_sum_at_is_fold(cs1, i);
        lemma_sum_at_is_fold(cs2, i);
    }
    assert(spec_mixdown(cs1) =~= spec_mixdown(cs2));
}

// ---------------------------------------------------------------------
// The mix never carries an infinity or a NaN out.
// ---------------------------------------------------------------------

/// Every sample of the mix is the sanitized position-wise sum: positive
/// infinity left the largest finite pattern, negative infinity the
/// smallest, a NaN zero — and what remains is never an infinity or a
/// NaN.
pub proof fn lemma_mixdown_sanitized(cs: Seq<Seq<Sample>>, i: int)
    requires
        0 <= i < spec_mixdown(cs).len(),
    ensures
        ({
            let s = sum_at(cs, i, cs.len() as int);
            let o = spec_mixdown(cs)[i];
            &&& o == sanitize_sample(s)
            &&& (s.left == POS_INF_BITS ==> o.left == MAX_FINITE_BITS)
            &&& (s.left == NEG_INF_BITS ==> o.left == MIN_FINITE_BITS)
            &&& (is_nan_bits(s.left) ==> o.left == ZERO_BITS)
            &&& (s.right == POS_INF_BITS ==> o.right == MAX_FINITE_BITS)
            &&& (s.right == NEG_INF_BITS ==> o.right == MIN_FINITE_BITS)
            &&& (is_nan_bits(s.right) ==> o.right == ZERO_BITS)
            &&& !is_nan_bits(o.left) && abs_bits(o.left) != 0x7F80_0000
            &&& !is_nan_bits(o.right) && abs_bits(o.right) != 0x7F80_0000
        }),
{
    let s = sum_at(cs, i, cs.len() as int);
    lemma_sanitize_finite(s.left);
    lemma_sanitize_finite(s.right);
}

/// Sanitizing maps each kind of pattern as announced and never yields an
/// infinity or a NaN.
proof fn lemma_sanitize_finite(x: u32)
    ensures
        x == POS_INF_BITS ==> spec_sanitize(x) == MAX_FINITE_BITS,
        x == NEG_INF_BITS ==> spec_sanitize(x) == MIN_FINITE_BITS,
        is_nan_bits(x) ==> spec_sanitize(x) == ZERO_BITS,
        !is_nan_bits(spec_sanitize(x)),
        abs_bits(spec_sanitize(x)) != 0x7F80_0000,
{
    assert(0x7F7F_FFFFu32 & 0x7FFF_FFFF == 0x7F7F_FFFF) by (bit_vector);
    assert(0xFF7F_FFFFu32 & 0x7FFF_FFFF == 0x7F7F_FFFF) by (bit_vector);
    assert(0u32 & 0x7FFF_FFFF == 0) by (bit_vector);
    assert(x & 0x7FFF_FFFF > 0x7F80_0000 ==> x != 0x7F80_0000 && x != 0xFF80_0000) by (bit_vector);
    assert(!(x & 0x7FFF_FFFF > 0x7F80_0000) && x != 0x7F80_0000 && x != 0xFF80_0000 ==> (x
        & 0x7FFF_FFFF) != 0x7F80_0000) by (bit_vector);
}

// ---------------------------------------------------------------------
// An unresolved synthesis function degrades to measured silence.
// ---------------------------------------------------------------------

/// Summing all-zero buffers gives silence, by the zero-addition
/// identity.
proof fn lemma_sum_of_silence(bufs: Seq<Seq<Sample>>, i: int, k: int)
    requires
        spec_add_bits(ZERO_BITS, ZERO_BITS) == ZERO_BITS,
        0 <= k <= bufs.len(),
        forall|q: int, w: int|
            0 <= q < bufs.len() && 0 <= w < bufs[q].len() ==> (#[trigger] bufs[q][w])
                == zero_sample(),
    ensures
        sum_at(bufs, i, k) == zero_sample(),
    decreases k,
{
    if k > 0 {
        lemma_sum_of_silence(bufs, i, k - 1);
    }
}

/// A note none of whose synthesis calls resolved renders to exactly its
/// first tuple's duration's worth of samples, cycled `repeat` times —
/// and, by the zero-addition identity, to silence.
pub proof fn lemma_unresolved_note_silence(
    tuples: Seq<Triple>,
    repeat: nat,
    answers: Seq<Option<Seq<Sample>>>,
)
    requires
        tuples.len() > 0,
        forall|j: int| answer_at(answers, j) is None,
    ensures
        ({
            let out = spec_assemble_note(tuples, repeat, answers);
            &&& out.len() == spec_fallback_len(tuples[0].dur) * repeat
            &&& (spec_add_bits(ZERO_BITS, ZERO_BITS) == ZERO_BITS ==> forall|w: int|
                0 <= w < out.len() ==> out[w] == zero_sample())
        }),
{
    let bufs = spec_note_buffers(tuples, answers);
    assert forall|q: int, w: int|
        0 <= q < bufs.len() && 0 <= w < bufs[q].len() implies (#[trigger] bufs[q][w])
        == zero_sample() by {
        assert(answer_at(answers, q) is None);
        assert(bufs[q] == resolved_buffer(tuples[q], answer_at(answers, q)));
    }
    assert(bufs[0].len() == spec_fallback_len(tuples[0].dur)) by {
        assert(answer_at(answers, 0) is None);
    }
    let summed = spec_note_sum(bufs);
    assert(summed.len() == spec_fallback_len(tuples[0].dur));
    let out = spec_assemble_note(tuples, repeat, answers);
    if summed.len() == 0 {
        assert(out.len() == 0);
        assert(summed.len() * repeat == 0) by (nonlinear_arith)
            requires
                summed.len() == 0,
        ;
    } else {
        assert(out.len() == summed.len() * repeat);
    }
    if spec_add_bits(ZERO_BITS, ZERO_BITS) == ZERO_BITS {
        assert forall|w: int| 0 <= w < out.len() implies out[w] == zero_sample() by {
            lemma_sum_of_silence(bufs, w % (summed.len() as int), bufs.len() as int);
        }
    }
}

} // verus!

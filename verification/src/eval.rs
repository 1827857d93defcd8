//! The effect-chain evaluator: the heart of the pipeline.
//!
//! For one note, starting from the committed state the previous notes left
//! behind, the evaluator applies the note's own three ratios, runs the
//! effect chain in declaration order, and produces the note's plan: the
//! parameter tuples to synthesize (the layered tuples first, the note's
//! own "natural" tuple always last), the forwarded parameters, and the
//! repeat count — together with the committed state carried to the next
//! note.
//!
//! The whole computation is specified by the pure function
//! [`spec_eval_note`], a fold of [`spec_apply_effect`] over the chain.
//! Randomness never hides inside that fold: the jitter opcodes consume
//! numbers drawn beforehand ([`draw_note_jitter`]) and handed in as an
//! argument, so the evaluator itself is deterministic in its inputs.  A
//! jitter bound below two, for which no draw exists, leaves the state
//! untouched.  Repeat counts multiply with saturation at `usize::MAX`.

use vstd::prelude::*;
use crate::bits::{ONE_BITS, RATE_BITS, spec_mul_bits, spec_div_bits, spec_uint_bits, mul_bits, div_bits, uint_bits, rand_below};
use crate::model::{Effect, EffectV, Note};

verus! {

/// A (frequency, duration, velocity) triple of bit patterns: the running
/// state, and the shape of one parameter tuple.
#[derive(Clone, Copy, Debug, PartialEq, Eq, Structural)]
pub struct Triple {
    pub freq: u32,
    pub dur: u32,
    pub vel: u32,
}

/// The evaluator's state between two effects of one note.
pub struct EvalState {
    /// The committed state before this note's own ratios were applied;
    /// opcode 10 rolls the carry back to it.
    pub pre: Triple,
    /// The running state: what the note's natural tuple will be made of.
    pub run: Triple,
    /// The state carried to the next note.
    pub carry: Triple,
    /// The running layered tuple of opcode 0.
    pub layer: Triple,
    /// The layered tuples pushed so far.
    pub layered: Seq<Triple>,
    /// The note's repeat count, saturated at `usize::MAX`.
    pub repeat: nat,
    /// The divisor applied to every tuple's duration at synthesis time.
    pub slice: u32,
    /// The parameters forwarded verbatim to the synthesis call.
    pub params: Seq<u32>,
}

/// A drawn number, one when the draw list is exhausted.
pub open spec fn dr(ds: Seq<usize>, k: int) -> usize {
    if 0 <= k < ds.len() {
        ds[k]
    } else {
        1
    }
}

/// A product of counts, saturated at `usize::MAX`.
pub open spec fn spec_sat_mul(a: nat, b: nat) -> nat {
    if a * b > usize::MAX as nat {
        usize::MAX as nat
    } else {
        a * b
    }
}

/// One jittered axis: multiplied by the ratio of two draws, or left alone
/// when the bound admits no draw.
pub open spec fn jitter_axis(x: u32, a: usize, b: usize, bound: usize) -> u32 {
    if bound >= 2 {
        spec_mul_bits(x, spec_div_bits(spec_uint_bits(a), spec_uint_bits(b)))
    } else {
        x
    }
}

/// A present-or-running parameter: the opcodes that set an axis from a
/// constant fall back to the axis's running value when their parameter
/// did not parse.
pub open spec fn or_run(o: Option<u32>, run: u32) -> u32 {
    match o {
        Some(v) => v,
        None => run,
    }
}

/// What one effect does to the evaluator's state.
pub open spec fn spec_apply_effect(st: EvalState, e: EffectV, ds: Seq<usize>) -> EvalState {
    match e {
        EffectV::LayerRelative { freq_ratio, vel_ratio } => {
            let t = Triple {
                freq: spec_mul_bits(st.layer.freq, freq_ratio),
                dur: st.layer.dur,
                vel: spec_mul_bits(st.layer.vel, vel_ratio),
            };
            EvalState { layer: t, layered: st.layered.push(t), ..st }
        },
        EffectV::LayerAdditive { freq_ratio, vel_ratio } => {
            let t = Triple {
                freq: spec_mul_bits(st.run.freq, freq_ratio),
                dur: st.run.dur,
                vel: spec_mul_bits(st.run.vel, vel_ratio),
            };
            EvalState { layered: st.layered.push(t), ..st }
        },
        EffectV::ConstFreq { divisor } => EvalState {
            run: Triple {
                freq: spec_div_bits(RATE_BITS, or_run(divisor, st.run.freq)),
                ..st.run
            },
            ..st
        },
        EffectV::ConstDur { value } => EvalState {
            run: Triple { dur: or_run(value, st.run.dur), ..st.run },
            ..st
        },
        EffectV::ConstVel { value } => EvalState {
            run: Triple { vel: or_run(value, st.run.vel), ..st.run },
            ..st
        },
        EffectV::Repeat { times } => EvalState {
            repeat: spec_sat_mul(st.repeat, times as nat),
            ..st
        },
        EffectV::SendParams { values } => EvalState { params: st.params + values, ..st },
        EffectV::OverrideFreq { divisor } => {
            let x = spec_div_bits(RATE_BITS, or_run(divisor, st.run.freq));
            EvalState {
                run: Triple { freq: x, ..st.run },
                carry: Triple { freq: x, ..st.carry },
                ..st
            }
        },
        EffectV::OverrideDur { value } => {
            let x = or_run(value, st.run.dur);
            EvalState {
                run: Triple { dur: x, ..st.run },
                carry: Triple { dur: x, ..st.carry },
                ..st
            }
        },
        EffectV::OverrideVel { value } => {
            let x = or_run(value, st.run.vel);
            EvalState {
                run: Triple { vel: x, ..st.run },
                carry: Triple { vel: x, ..st.carry },
                ..st
            }
        },
        EffectV::KeepState => EvalState { carry: st.pre, ..st },
        EffectV::Slice { times } => {
            let rep = spec_sat_mul(st.repeat, times as nat);
            EvalState {
                repeat: rep,
                slice: if rep == 0 {
                    ONE_BITS
                } else {
                    spec_uint_bits(rep as usize)
                },
                ..st
            }
        },
        EffectV::Jitter { on_freq, on_dur, on_vel, persist, bound } => {
            let f2 = if on_freq {
                jitter_axis(st.run.freq, dr(ds, 0), dr(ds, 1), bound)
            } else {
                st.run.freq
            };
            let ol: int = if on_freq {
                2
            } else {
                0
            };
            let l2 = if on_dur {
                jitter_axis(st.run.dur, dr(ds, ol), dr(ds, ol + 1), bound)
            } else {
                st.run.dur
            };
            let ov: int = ol + (if on_dur {
                2int
            } else {
                0int
            });
            let v2 = if on_vel {
                jitter_axis(st.run.vel, dr(ds, ov), dr(ds, ov + 1), bound)
            } else {
                st.run.vel
            };
            let carry = if persist {
                Triple {
                    freq: if on_freq {
                        f2
                    } else {
                        st.carry.freq
                    },
                    dur: if on_dur {
                        l2
                    } else {
                        st.carry.dur
                    },
                    vel: if on_vel {
                        v2
                    } else {
                        st.carry.vel
                    },
                }
            } else {
                st.carry
            };
            EvalState { run: Triple { freq: f2, dur: l2, vel: v2 }, carry, ..st }
        },
        EffectV::Ignored => st,
    }
}

/// The view of a note's effect chain.
pub open spec fn effects_v(n: Note) -> Seq<EffectV> {
    n.effects@.map_values(|e: Effect| e@)
}

/// The view of a per-effect draw list.
pub open spec fn draws_view(d: Vec<Vec<usize>>) -> Seq<Seq<usize>> {
    d@.map_values(|x: Vec<usize>| x@)
}

/// The draw list of one effect, empty when the list is exhausted.
pub open spec fn ds_at(ds: Seq<Seq<usize>>, k: int) -> Seq<usize> {
    if 0 <= k < ds.len() {
        ds[k]
    } else {
        Seq::empty()
    }
}

/// A committed state with one note's own three ratios applied: each axis
/// multiplied by its (numerator / denominator).
pub open spec fn ratios_applied(pre: Triple, n: Note) -> Triple {
    Triple {
        freq: spec_mul_bits(pre.freq, spec_div_bits(n.freq_num, n.freq_den)),
        dur: spec_mul_bits(pre.dur, spec_div_bits(n.dur_num, n.dur_den)),
        vel: spec_mul_bits(spec_div_bits(n.vel_num, n.vel_den), pre.vel),
    }
}

/// The evaluator's state after the note's own ratios and before any
/// effect: the running, carried and layer states all start at the
/// post-ratio committed state.
pub open spec fn spec_init_state(pre: Triple, n: Note) -> EvalState {
    let run = ratios_applied(pre, n);
    EvalState {
        pre,
        run,
        carry: run,
        layer: run,
        layered: Seq::empty(),
        repeat: 1,
        slice: ONE_BITS,
        params: Seq::empty(),
    }
}

/// The evaluator's state after the first `i` effects.
pub open spec fn spec_eval_upto(
    init: EvalState,
    effs: Seq<EffectV>,
    ds: Seq<Seq<usize>>,
    i: int,
) -> EvalState
    decreases i,
{
    if i <= 0 {
        init
    } else {
        spec_apply_effect(spec_eval_upto(init, effs, ds, i - 1), effs[i - 1], ds_at(ds, i - 1))
    }
}

/// The evaluator's state after the whole chain of one note.
pub open spec fn spec_eval_note(pre: Triple, n: Note, ds: Seq<Seq<usize>>) -> EvalState {
    spec_eval_upto(spec_init_state(pre, n), effects_v(n), ds, effects_v(n).len() as int)
}

/// The parameter tuples a final state yields: every layered tuple, then
/// the natural tuple, each with its duration divided by the slice
/// divisor.  A unit divisor, the default, leaves durations untouched:
/// dividing by 1.0 is an IEEE-754 identity on every non-NaN pattern, and
/// skipping it keeps the unsliced pipeline exact.
pub open spec fn spec_tuples(st: EvalState) -> Seq<Triple> {
    st.layered.push(st.run).map_values(
        |t: Triple| Triple {
            freq: t.freq,
            dur: if st.slice == ONE_BITS {
                t.dur
            } else {
                spec_div_bits(t.dur, st.slice)
            },
            vel: t.vel,
        },
    )
}

/// The plan for one note: which function to call, on which tuples, with
/// which forwarded parameters, and how often to cycle the result.
pub struct NotePlan {
    pub synth: String,
    pub tuples: Vec<Triple>,
    pub params: Vec<u32>,
    pub repeat: usize,
}

/// Does a plan say exactly what evaluating the note from `pre` with the
/// draws `ds` yields?
pub open spec fn plan_matches(p: NotePlan, pre: Triple, n: Note, ds: Seq<Seq<usize>>) -> bool {
    let st = spec_eval_note(pre, n, ds);
    &&& p.synth@ == n.synth@
    &&& p.tuples@ == spec_tuples(st)
    &&& p.params@ == st.params
    &&& p.repeat as nat == st.repeat
}

/// A product of counts, saturated at `usize::MAX`.
pub fn sat_mul_usize(a: usize, b: usize) -> (r: usize)
    ensures
        r as nat == spec_sat_mul(a as nat, b as nat),
{
    if b != 0 && a > usize::MAX / b {
        proof {
            assert(a * b > usize::MAX) by (nonlinear_arith)
                requires
                    b >= 1,
                    a > usize::MAX / b,
                    usize::MAX / b == usize::MAX as int / b as int,
            ;
        }
        usize::MAX
    } else {
        proof {
            if b != 0 {
                assert(a * b <= usize::MAX) by (nonlinear_arith)
                    requires
                        b >= 1,
                        a <= usize::MAX / b,
                        usize::MAX / b == usize::MAX as int / b as int,
                ;
            }
        }
        a * b
    }
}

/// A drawn number, one when the draw list is exhausted.
fn dr_at(ds: &Vec<usize>, k: usize) -> (r: usize)
    ensures
        r == dr(ds@, k as int),
{
    if k < ds.len() {
        ds[k]
    } else {
        1
    }
}

/// How many numbers each effect of the chain will draw: two per jittered
/// axis, none for every other opcode.
pub open spec fn effect_draw_bounds(e: EffectV) -> Seq<usize> {
    match e {
        EffectV::Jitter { on_freq, on_dur, on_vel, persist, bound } => (if on_freq {
            seq![bound, bound]
        } else {
            Seq::empty()
        }) + (if on_dur {
            seq![bound, bound]
        } else {
            Seq::empty()
        }) + (if on_vel {
            seq![bound, bound]
        } else {
            Seq::empty()
        }),
        _ => Seq::empty(),
    }
}

/// Every draw sits in `[1, bound)` where its bound admits a draw, and is
/// one where it does not.
pub open spec fn valid_effect_draws(e: EffectV, ds: Seq<usize>) -> bool {
    let bs = effect_draw_bounds(e);
    &&& ds.len() == bs.len()
    &&& (forall|k: int|
        0 <= k < bs.len() ==> {
            &&& (bs[k] >= 2 ==> 1 <= #[trigger] ds[k] < bs[k])
            &&& (bs[k] < 2 ==> ds[k] == 1)
        })
}

/// Valid draws for a whole chain.
pub open spec fn valid_note_draws(effs: Seq<EffectV>, ds: Seq<Seq<usize>>) -> bool {
    &&& ds.len() == effs.len()
    &&& (forall|i: int| 0 <= i < effs.len() ==> valid_effect_draws(effs[i], #[trigger] ds[i]))
}

/// Draw the random numbers one note's jitter opcodes will consume.
pub fn draw_note_jitter(n: &Note) -> (r: Vec<Vec<usize>>)
    ensures
        valid_note_draws(effects_v(*n), draws_view(r)),
{
    let ghost effs = effects_v(*n);
    let mut r: Vec<Vec<usize>> = Vec::new();
    let mut i: usize = 0;
    while i < n.effects.len()
        invariant
            i <= n.effects@.len(),
            effs == effects_v(*n),
            r@.len() == i,
            forall|q: int|
                0 <= q < i ==> valid_effect_draws(effs[q], (#[trigger] r@[q])@),
        decreases n.effects@.len() - i,
    {
        let mut ds: Vec<usize> = Vec::new();
        match &n.effects[i] {
            Effect::Jitter { on_freq, on_dur, on_vel, persist: _, bound } => {
                let b: usize = *bound;
                if *on_freq {
                    if b >= 2 {
                        ds.push(rand_below(b));
                        ds.push(rand_below(b));
                    } else {
                        ds.push(1);
                        ds.push(1);
                    }
                }
                if *on_dur {
                    if b >= 2 {
                        ds.push(rand_below(b));
                        ds.push(rand_below(b));
                    } else {
                        ds.push(1);
                        ds.push(1);
                    }
                }
                if *on_vel {
                    if b >= 2 {
                        ds.push(rand_below(b));
                        ds.push(rand_below(b));
                    } else {
                        ds.push(1);
                        ds.push(1);
                    }
                }
            },
            _ => {},
        }
        proof {
            assert(effs[i as int] == n.effects@[i as int]@);
        }
        r.push(ds);
        i = i + 1;
    }
    r
}

/// Evaluate one note: its plan, and the committed state carried to the
/// next note.
pub fn eval_note(pre: Triple, n: &Note, draws: &Vec<Vec<usize>>) -> (r: (NotePlan, Triple))
    ensures
        plan_matches(r.0, pre, *n, draws_view(*draws)),
        r.1 == spec_eval_note(pre, *n, draws_view(*draws)).carry,
{
    let ghost effs = effects_v(*n);
    let ghost dsv = draws_view(*draws);
    let ghost init = spec_init_state(pre, *n);
    let rf = div_bits(n.freq_num, n.freq_den);
    let rl = div_bits(n.dur_num, n.dur_den);
    let rv = div_bits(n.vel_num, n.vel_den);
    let start = Triple {
        freq: mul_bits(pre.freq, rf),
        dur: mul_bits(pre.dur, rl),
        vel: mul_bits(rv, pre.vel),
    };
    let mut run: Triple = start;
    let mut carry: Triple = start;
    let mut layer: Triple = start;
    let mut layered: Vec<Triple> = Vec::new();
    let mut repeat: usize = 1;
    let mut slice: u32 = ONE_BITS;
    let mut params: Vec<u32> = Vec::new();
    let empty_ds: Vec<usize> = Vec::new();
    let mut i: usize = 0;
    while i < n.effects.len()
        invariant
            i <= n.effects@.len(),
            effs == effects_v(*n),
            dsv == draws_view(*draws),
            init == spec_init_state(pre, *n),
            empty_ds@ == Seq::<usize>::empty(),
            ({
                let st = spec_eval_upto(init, effs, dsv, i as int);
                &&& pre == st.pre
                &&& run == st.run
                &&& carry == st.carry
                &&& layer == st.layer
                &&& layered@ == st.layered
                &&& repeat as nat == st.repeat
                &&& slice == st.slice
                &&& params@ == st.params
            }),
        decreases n.effects@.len() - i,
    {
        let ghost st = spec_eval_upto(init, effs, dsv, i as int);
        let ghost e = effs[i as int];
        let ghost dse = ds_at(dsv, i as int);
        proof {
            assert(spec_eval_upto(init, effs, dsv, i + 1) == spec_apply_effect(st, e, dse));
            assert(e == n.effects@[i as int]@);
        }
        let dsi: &Vec<usize> = if i < draws.len() {
            &draws[i]
        } else {
            &empty_ds
        };
        proof {
            assert(dsi@ == dse);
        }
        match &n.effects[i] {
            Effect::LayerRelative { freq_ratio, vel_ratio } => {
                let t = Triple {
                    freq: mul_bits(layer.freq, *freq_ratio),
                    dur: layer.dur,
                    vel: mul_bits(layer.vel, *vel_ratio),
                };
                layer = t;
                layered.push(t);
            },
            Effect::LayerAdditive { freq_ratio, vel_ratio } => {
                let t = Triple {
                    freq: mul_bits(run.freq, *freq_ratio),
                    dur: run.dur,
                    vel: mul_bits(run.vel, *vel_ratio),
                };
                layered.push(t);
            },
            Effect::ConstFreq { divisor } => {
                let d: u32 = match divisor {
                    Some(v) => *v,
                    None => run.freq,
                };
                run.freq = div_bits(RATE_BITS, d);
            },
            Effect::ConstDur { value } => {
                let d: u32 = match value {
                    Some(v) => *v,
                    None => run.dur,
                };
                run.dur = d;
            },
            Effect::ConstVel { value } => {
                let d: u32 = match value {
                    Some(v) => *v,
                    None => run.vel,
                };
                run.vel = d;
            },
            Effect::Repeat { times } => {
                repeat = sat_mul_usize(repeat, *times);
            },
            Effect::SendParams { values } => {
                let mut k: usize = 0;
                let ghost base = params@;
                while k < values.len()
                    invariant
                        k <= values@.len(),
                        params@ == base + values@.take(k as int),
                    decreases values@.len() - k,
                {
                    params.push(values[k]);
                    proof {
                        assert(base + values@.take(k + 1) =~= (base + values@.take(k as int)).push(
                            values@[k as int],
                        ));
                    }
                    k = k + 1;
                }
                proof {
                    assert(values@.take(values@.len() as int) =~= values@);
                }
            },
            Effect::OverrideFreq { divisor } => {
                let d: u32 = match divisor {
                    Some(v) => *v,
                    None => run.freq,
                };
                let x = div_bits(RATE_BITS, d);
                run.freq = x;
                carry.freq = x;
            },
            Effect::OverrideDur { value } => {
                let d: u32 = match value {
                    Some(v) => *v,
                    None => run.dur,
                };
                run.dur = d;
                carry.dur = d;
            },
            Effect::OverrideVel { value } => {
                let d: u32 = match value {
                    Some(v) => *v,
                    None => run.vel,
                };
                run.vel = d;
                carry.vel = d;
            },
            Effect::KeepState => {
                carry = pre;
            },
            Effect::Slice { times } => {
                repeat = sat_mul_usize(repeat, *times);
                if repeat == 0 {
                    slice = ONE_BITS;
                } else {
                    slice = uint_bits(repeat);
                }
            },
            Effect::Jitter { on_freq, on_dur, on_vel, persist, bound } => {
                let b: usize = *bound;
                let mut off: usize = 0;
                if *on_freq {
                    if b >= 2 {
                        let da = dr_at(dsi, 0);
                        let db = dr_at(dsi, 1);
                        run.freq = mul_bits(run.freq, div_bits(uint_bits(da), uint_bits(db)));
                    }
                    if *persist {
                        carry.freq = run.freq;
                    }
                    off = 2;
                }
                if *on_dur {
                    if b >= 2 {
                        let da = dr_at(dsi, off);
                        let db = dr_at(dsi, off + 1);
                        run.dur = mul_bits(run.dur, div_bits(uint_bits(da), uint_bits(db)));
                    }
                    if *persist {
                        carry.dur = run.dur;
                    }
                    off = off + 2;
                }
                if *on_vel {
                    if b >= 2 {
                        let da = dr_at(dsi, off);
                        let db = dr_at(dsi, off + 1);
                        run.vel = mul_bits(run.vel, div_bits(uint_bits(da), uint_bits(db)));
                    }
                    if *persist {
                        carry.vel = run.vel;
                    }
                }
            },
            Effect::Ignored => {},
        }
        i = i + 1;
    }
    let ghost fin = spec_eval_note(pre, *n, dsv);
    proof {
        assert(fin == spec_eval_upto(init, effs, dsv, effs.len() as int));
    }
    layered.push(run);
    let mut tuples: Vec<Triple> = Vec::new();
    let mut k: usize = 0;
    while k < layered.len()
        invariant
            k <= layered@.len(),
            layered@ == fin.layered.push(fin.run),
            slice == fin.slice,
            tuples@ =~= spec_tuples(fin).take(k as int),
        decreases layered@.len() - k,
    {
        let t = layered[k];
        let d: u32 = if slice == ONE_BITS {
            t.dur
        } else {
            div_bits(t.dur, slice)
        };
        tuples.push(Triple { freq: t.freq, dur: d, vel: t.vel });
        proof {
            assert(spec_tuples(fin).take(k + 1) =~= spec_tuples(fin).take(k as int).push(
                spec_tuples(fin)[k as int],
            ));
        }
        k = k + 1;
    }
    proof {
        assert(spec_tuples(fin).take(spec_tuples(fin).len() as int) =~= spec_tuples(fin));
    }
    let plan = NotePlan { synth: n.synth.clone(), tuples, params, repeat };
    (plan, carry)
}

} // verus!

//! From plans and synthesis answers to the final stereo buffer.
//!
//! The caller runs each planned synthesis call and hands the answers back
//! in plan order, one `Option` per tuple: `None` where the function's
//! symbol could not be resolved.  Everything after that point is verified:
//! an unresolved call becomes the fallback silence of `duration × 44100`
//! zero samples, a note's tuples are summed sample-wise to the length of
//! its first tuple's buffer (shorter buffers contribute silence beyond
//! their end, longer ones are cut), the summed note is cycled `repeat`
//! times, notes are concatenated in order, an unresolved post-column
//! effect passes its input through unchanged, and the columns are mixed
//! position-wise, padded with silence, and sanitized.

use vstd::prelude::*;
use crate::bits::{ZERO_BITS, RATE_BITS, spec_mul_bits, mul_bits, spec_bits_to_len, bits_to_len, spec_sanitize, sanitize_bits, spec_add_bits, add_bits};
use crate::eval::{Triple, NotePlan};

verus! {

/// One stereo sample: the bit patterns of its two channels.
#[derive(Clone, Copy, Debug, PartialEq, Eq, Structural)]
pub struct Sample {
    pub left: u32,
    pub right: u32,
}

/// Silence.
pub open spec fn zero_sample() -> Sample {
    Sample { left: ZERO_BITS, right: ZERO_BITS }
}

/// How long the fallback buffer for an unresolved synthesis call is: the
/// tuple's (already sliced) duration times the sample rate, truncated.
pub open spec fn spec_fallback_len(dur: u32) -> nat {
    spec_bits_to_len(spec_mul_bits(dur, RATE_BITS))
}

/// The fallback for an unresolved synthesis call: silence of the
/// duration's worth of samples.
pub fn fallback_buffer(dur: u32) -> (r: Vec<Sample>)
    ensures
        r@ =~= Seq::new(spec_fallback_len(dur), |i: int| zero_sample()),
{
    let len = bits_to_len(mul_bits(dur, RATE_BITS));
    let mut r: Vec<Sample> = Vec::new();
    let mut i: usize = 0;
    while i < len
        invariant
            i <= len,
            r@ =~= Seq::new(i as nat, |q: int| zero_sample()),
        decreases len - i,
    {
        r.push(Sample { left: ZERO_BITS, right: ZERO_BITS });
        i = i + 1;
    }
    r
}

/// The `i`-th answer, `None` when the answer list is exhausted.
pub open spec fn answer_at(answers: Seq<Option<Seq<Sample>>>, i: int) -> Option<Seq<Sample>> {
    if 0 <= i < answers.len() {
        answers[i]
    } else {
        None
    }
}

/// The buffer one tuple contributes: the synthesis answer, or the
/// fallback silence for its duration.
pub open spec fn resolved_buffer(t: Triple, ans: Option<Seq<Sample>>) -> Seq<Sample> {
    match ans {
        Some(b) => b,
        None => Seq::new(spec_fallback_len(t.dur), |i: int| zero_sample()),
    }
}

/// The buffers of a note's tuples, in tuple order.
pub open spec fn spec_note_buffers(
    tuples: Seq<Triple>,
    answers: Seq<Option<Seq<Sample>>>,
) -> Seq<Seq<Sample>> {
    Seq::new(tuples.len(), |j: int| resolved_buffer(tuples[j], answer_at(answers, j)))
}

/// The sample-wise sum of the first `k` buffers at index `i`: silence
/// plus, for each buffer long enough, its sample there, added in buffer
/// order.
pub open spec fn sum_at(bufs: Seq<Seq<Sample>>, i: int, k: int) -> Sample
    decreases k,
{
    if k <= 0 {
        zero_sample()
    } else {
        let prev = sum_at(bufs, i, k - 1);
        let b = bufs[k - 1];
        if 0 <= i < b.len() {
            Sample {
                left: spec_add_bits(prev.left, b[i].left),
                right: spec_add_bits(prev.right, b[i].right),
            }
        } else {
            prev
        }
    }
}

/// A note's summed buffer: as long as its first tuple's buffer, each
/// position the sum over all tuple buffers.
pub open spec fn spec_note_sum(bufs: Seq<Seq<Sample>>) -> Seq<Sample> {
    let target: nat = if bufs.len() == 0 {
        0
    } else {
        bufs[0].len()
    };
    Seq::new(target, |i: int| sum_at(bufs, i, bufs.len() as int))
}

/// A buffer cycled end to end `repeat` times.
pub open spec fn spec_cycle(buf: Seq<Sample>, repeat: nat) -> Seq<Sample> {
    if buf.len() == 0 {
        Seq::empty()
    } else {
        Seq::new(buf.len() * repeat, |i: int| buf[i % buf.len() as int])
    }
}

/// Everything one note contributes to its column.
pub open spec fn spec_assemble_note(
    tuples: Seq<Triple>,
    repeat: nat,
    answers: Seq<Option<Seq<Sample>>>,
) -> Seq<Sample> {
    spec_cycle(spec_note_sum(spec_note_buffers(tuples, answers)), repeat)
}

/// The sample-wise sum of all buffers at one index.
fn sum_index(bufs: &Vec<Vec<Sample>>, i: usize) -> (r: Sample)
    ensures
        r == sum_at(bufs@.map_values(|b: Vec<Sample>| b@), i as int, bufs@.len() as int),
{
    let ghost bv = bufs@.map_values(|b: Vec<Sample>| b@);
    let mut acc = Sample { left: ZERO_BITS, right: ZERO_BITS };
    let mut k: usize = 0;
    while k < bufs.len()
        invariant
            k <= bufs@.len(),
            bv == bufs@.map_values(|b: Vec<Sample>| b@),
            acc == sum_at(bv, i as int, k as int),
        decreases bufs@.len() - k,
    {
        if i < bufs[k].len() {
            acc = Sample {
                left: add_bits(acc.left, bufs[k][i].left),
                right: add_bits(acc.right, bufs[k][i].right),
            };
        }
        k = k + 1;
    }
    acc
}

/// Copy a sample buffer.
fn copy_samples(b: &Vec<Sample>) -> (r: Vec<Sample>)
    ensures
        r@ == b@,
{
    let mut r: Vec<Sample> = Vec::new();
    let mut i: usize = 0;
    while i < b.len()
        invariant
            i <= b@.len(),
            r@ =~= b@.take(i as int),
        decreases b@.len() - i,
    {
        r.push(b[i]);
        proof {
            assert(b@.take(i + 1) =~= b@.take(i as int).push(b@[i as int]));
        }
        i = i + 1;
    }
    proof {
        assert(b@.take(b@.len() as int) =~= b@);
    }
    r
}

/// Assemble one note from its plan and its synthesis answers: resolve
/// each tuple's answer, sum, and cycle.
pub fn assemble_note(p: &NotePlan, answers: &Vec<Option<Vec<Sample>>>) -> (r: Vec<Sample>)
    ensures
        r@ =~= spec_assemble_note(
            p.tuples@,
            p.repeat as nat,
            answers@.map_values(|a: Option<Vec<Sample>>| match a {
                Some(b) => Some(b@),
                None => None,
            }),
        ),
{
    let ghost ansv = answers@.map_values(|a: Option<Vec<Sample>>| match a {
        Some(b) => Some(b@),
        None => None,
    });
    let mut bufs: Vec<Vec<Sample>> = Vec::new();
    let mut j: usize = 0;
    while j < p.tuples.len()
        invariant
            j <= p.tuples@.len(),
            ansv == answers@.map_values(|a: Option<Vec<Sample>>| match a {
                Some(b) => Some(b@),
                None => None,
            }),
            bufs@.len() == j,
            forall|q: int|
                0 <= q < j ==> (#[trigger] bufs@[q])@ == resolved_buffer(
                    p.tuples@[q],
                    answer_at(ansv, q),
                ),
        decreases p.tuples@.len() - j,
    {
        let buf: Vec<Sample> = if j < answers.len() {
            proof {
                assert(answer_at(ansv, j as int) == ansv[j as int]);
                assert(ansv[j as int] == (match answers@[j as int] {
                    Some(b) => Some(b@),
                    None => None::<Seq<Sample>>,
                }));
            }
            match &answers[j] {
                Some(b) => copy_samples(b),
                None => fallback_buffer(p.tuples[j].dur),
            }
        } else {
            proof {
                assert(answer_at(ansv, j as int) is None);
            }
            fallback_buffer(p.tuples[j].dur)
        };
        bufs.push(buf);
        j = j + 1;
    }
    let ghost bv = bufs@.map_values(|b: Vec<Sample>| b@);
    proof {
        assert(bv =~= spec_note_buffers(p.tuples@, ansv));
    }
    let target: usize = if bufs.len() == 0 {
        0
    } else {
        bufs[0].len()
    };
    let mut summed: Vec<Sample> = Vec::new();
    let mut i: usize = 0;
    while i < target
        invariant
            i <= target,
            bv == bufs@.map_values(|b: Vec<Sample>| b@),
            target as nat == (if bv.len() == 0 {
                0nat
            } else {
                bv[0].len()
            }),
            summed@ =~= spec_note_sum(bv).take(i as int),
        decreases target - i,
    {
        let s = sum_index(&bufs, i);
        summed.push(s);
        proof {
            assert(spec_note_sum(bv).take(i + 1) =~= spec_note_sum(bv).take(i as int).push(
                spec_note_sum(bv)[i as int],
            ));
        }
        i = i + 1;
    }
    proof {
        assert(spec_note_sum(bv).take(spec_note_sum(bv).len() as int) =~= spec_note_sum(bv));
        assert(summed@ =~= spec_note_sum(bv));
    }
    let mut out: Vec<Sample> = Vec::new();
    if summed.len() == 0 {
        proof {
            assert(out@ =~= spec_cycle(summed@, p.repeat as nat));
        }
        return out;
    }
    let len = summed.len();
    let mut q: usize = 0;
    while q < p.repeat
        invariant
            q <= p.repeat,
            len == summed@.len(),
            len >= 1,
            out@.len() == q * len,
            forall|w: int| 0 <= w < out@.len() ==> #[trigger] out@[w] == summed@[w % len as int],
        decreases p.repeat - q,
    {
        let mut i2: usize = 0;
        while i2 < len
            invariant
                i2 <= len,
                len == summed@.len(),
                len >= 1,
                q < p.repeat,
                out@.len() == q * len + i2,
                forall|w: int| 0 <= w < out@.len() ==> #[trigger] out@[w] == summed@[w % len as int],
            decreases len - i2,
        {
            proof {
                assert((q * len + i2) % (len as int) == i2) by (nonlinear_arith)
                    requires
                        0 <= i2 < len,
                        0 <= q,
                ;
            }
            out.push(summed[i2]);
            i2 = i2 + 1;
        }
        proof {
            assert(q * len + len == (q + 1) * len) by (nonlinear_arith);
        }
        q = q + 1;
    }
    proof {
        assert(p.repeat * len == len * p.repeat) by (nonlinear_arith);
        assert(out@.len() == spec_cycle(summed@, p.repeat as nat).len());
        assert(out@ =~= spec_cycle(summed@, p.repeat as nat));
    }
    out
}

/// The concatenation of the first `k` notes' contributions.
pub open spec fn spec_concat_notes(
    plans: Seq<NotePlan>,
    answers: Seq<Seq<Option<Seq<Sample>>>>,
    k: int,
) -> Seq<Sample>
    decreases k,
{
    if k <= 0 {
        Seq::empty()
    } else {
        spec_concat_notes(plans, answers, k - 1) + spec_assemble_note(
            plans[k - 1].tuples@,
            plans[k - 1].repeat as nat,
            note_answers_at(answers, k - 1),
        )
    }
}

/// The answers of one note, none when the list is exhausted.
pub open spec fn note_answers_at(
    answers: Seq<Seq<Option<Seq<Sample>>>>,
    k: int,
) -> Seq<Option<Seq<Sample>>> {
    if 0 <= k < answers.len() {
        answers[k]
    } else {
        Seq::empty()
    }
}

/// The view of a column's answers.
pub open spec fn column_answers_view(a: Vec<Vec<Option<Vec<Sample>>>>) -> Seq<
    Seq<Option<Seq<Sample>>>,
> {
    a@.map_values(
        |na: Vec<Option<Vec<Sample>>>| na@.map_values(|x: Option<Vec<Sample>>| match x {
            Some(b) => Some(b@),
            None => None,
        }),
    )
}

/// Assemble one column's notes: each note's contribution, concatenated in
/// note order.
pub fn assemble_column(plans: &Vec<NotePlan>, answers: &Vec<Vec<Option<Vec<Sample>>>>) -> (r: Vec<
    Sample,
>)
    ensures
        r@ =~= spec_concat_notes(plans@, column_answers_view(*answers), plans@.len() as int),
{
    let ghost ansv = column_answers_view(*answers);
    let mut out: Vec<Sample> = Vec::new();
    let empty_answers: Vec<Option<Vec<Sample>>> = Vec::new();
    let mut k: usize = 0;
    while k < plans.len()
        invariant
            k <= plans@.len(),
            ansv == column_answers_view(*answers),
            empty_answers@.len() == 0,
            out@ =~= spec_concat_notes(plans@, ansv, k as int),
        decreases plans@.len() - k,
    {
        let na: &Vec<Option<Vec<Sample>>> = if k < answers.len() {
            &answers[k]
        } else {
            &empty_answers
        };
        proof {
            if k < answers@.len() {
                assert(note_answers_at(ansv, k as int) == ansv[k as int]);
            } else {
                assert(note_answers_at(ansv, k as int) =~= na@.map_values(
                    |x: Option<Vec<Sample>>| match x {
                        Some(b) => Some(b@),
                        None => None::<Seq<Sample>>,
                    },
                ));
            }
        }
        let mut piece = assemble_note(&plans[k], na);
        let ghost before = out@;
        let ghost pv = piece@;
        out.append(&mut piece);
        proof {
            assert(out@ =~= before + pv);
        }
        k = k + 1;
    }
    out
}

/// Apply one post-column effect's answer: the transformed buffer where
/// the effect's function was resolved, the input unchanged where it was
/// not.
pub fn post_fx_step(buf: Vec<Sample>, answer: Option<Vec<Sample>>) -> (r: Vec<Sample>)
    ensures
        r@ == (match answer {
            Some(b) => b@,
            None => buf@,
        }),
{
    match answer {
        Some(b) => b,
        None => buf,
    }
}

/// The length of the longest of the first `k` buffers.
pub open spec fn spec_max_len(cs: Seq<Seq<Sample>>, k: int) -> nat
    decreases k,
{
    if k <= 0 {
        0
    } else {
        let prev = spec_max_len(cs, k - 1);
        if cs[k - 1].len() > prev {
            cs[k - 1].len()
        } else {
            prev
        }
    }
}

/// One sanitized stereo sample.
pub open spec fn sanitize_sample(s: Sample) -> Sample {
    Sample { left: spec_sanitize(s.left), right: spec_sanitize(s.right) }
}

/// The mix of all columns: as long as the longest column, each position
/// the sample-wise sum over all columns, sanitized channel by channel.
pub open spec fn spec_mixdown(cs: Seq<Seq<Sample>>) -> Seq<Sample> {
    Seq::new(
        spec_max_len(cs, cs.len() as int),
        |i: int| sanitize_sample(sum_at(cs, i, cs.len() as int)),
    )
}

/// Mix all column buffers into one sanitized stereo buffer.
pub fn mixdown(cols: &Vec<Vec<Sample>>) -> (r: Vec<Sample>)
    ensures
        r@ =~= spec_mixdown(cols@.map_values(|c: Vec<Sample>| c@)),
{
    let ghost cv = cols@.map_values(|c: Vec<Sample>| c@);
    let mut max_len: usize = 0;
    let mut k: usize = 0;
    while k < cols.len()
        invariant
            k <= cols@.len(),
            cv == cols@.map_values(|c: Vec<Sample>| c@),
            max_len as nat == spec_max_len(cv, k as int),
        decreases cols@.len() - k,
    {
        if cols[k].len() > max_len {
            max_len = cols[k].len();
        }
        k = k + 1;
    }
    let mut out: Vec<Sample> = Vec::new();
    let mut i: usize = 0;
    while i < max_len
        invariant
            i <= max_len,
            cv == cols@.map_values(|c: Vec<Sample>| c@),
            max_len as nat == spec_max_len(cv, cv.len() as int),
            out@ =~= spec_mixdown(cv).take(i as int),
        decreases max_len - i,
    {
        let s = sum_index(cols, i);
        out.push(Sample { left: sanitize_bits(s.left), right: sanitize_bits(s.right) });
        proof {
            assert(spec_mixdown(cv).take(i + 1) =~= spec_mixdown(cv).take(i as int).push(
                spec_mixdown(cv)[i as int],
            ));
        }
        i = i + 1;
    }
    proof {
        assert(spec_mixdown(cv).take(spec_mixdown(cv).len() as int) =~= spec_mixdown(cv));
    }
    out
}

/// Interleave a stereo buffer into a flat left-right sequence of
/// patterns.
pub fn interleave(buf: &Vec<Sample>) -> (r: Vec<u32>)
    ensures
        r@.len() == 2 * buf@.len(),
        forall|i: int|
            0 <= i < buf@.len() ==> r@[2 * i] == (#[trigger] buf@[i]).left && r@[2 * i + 1]
                == buf@[i].right,
{
    let mut r: Vec<u32> = Vec::new();
    let mut i: usize = 0;
    while i < buf.len()
        invariant
            i <= buf@.len(),
            r@.len() == 2 * i,
            forall|q: int|
                0 <= q < i ==> r@[2 * q] == (#[trigger] buf@[q]).left && r@[2 * q + 1]
                    == buf@[q].right,
        decreases buf@.len() - i,
    {
        r.push(buf[i].left);
        r.push(buf[i].right);
        i = i + 1;
    }
    r
}

} // verus!

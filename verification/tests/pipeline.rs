use iaue::bits::{MAX_FINITE_BITS, MIN_FINITE_BITS, ZERO_BITS};
use iaue::eval::{eval_note, NotePlan, Triple};
use iaue::model::{Column, Effect, Note, PostEffect, Project};
use iaue::plan::{base_state, plan_column, plan_project};
use iaue::registry::{unique_fx_names, unique_synth_names};
use iaue::render::{
    assemble_column, assemble_note, fallback_buffer, interleave, mixdown, post_fx_step, Sample,
};

fn b(x: f32) -> u32 {
    x.to_bits()
}

fn s(x: &str) -> String {
    x.to_string()
}

fn note(fnum: f32, fden: f32, synth: &str, effects: Vec<Effect>) -> Note {
    Note {
        freq_num: b(fnum),
        freq_den: b(fden),
        dur_num: b(1.0),
        dur_den: b(1.0),
        vel_num: b(1.0),
        vel_den: b(1.0),
        synth: s(synth),
        effects,
    }
}

fn column(notes: Vec<Note>) -> Column {
    Column { name: s("voice"), post_effects: vec![], notes }
}

#[test]
fn unit_ratios_keep_the_base_state() {
    let plans = plan_column(&column(vec![note(1.0, 1.0, "0", vec![])]));
    assert_eq!(plans.len(), 1);
    assert_eq!(plans[0].tuples, vec![Triple { freq: b(440.0), dur: b(1.0), vel: b(1.0) }]);
    assert_eq!(plans[0].repeat, 1);
    assert!(plans[0].params.is_empty());
}

#[test]
fn ratios_multiply_across_notes() {
    let plans = plan_column(&column(vec![
        note(3.0, 2.0, "0", vec![]),
        note(2.0, 1.0, "0", vec![]),
    ]));
    assert_eq!(plans[0].tuples[0].freq, b(660.0));
    assert_eq!(plans[1].tuples[0].freq, b(1320.0));
}

#[test]
fn override_frequency_persists_into_following_notes() {
    // Two unit-ratio notes; the second overrides the frequency with
    // opcode 7 and parameter 2, so it sounds at 44100 / 2 and the third
    // note inherits that committed state.
    let plans = plan_column(&column(vec![
        note(1.0, 1.0, "0", vec![]),
        note(1.0, 1.0, "0", vec![Effect::parse("7", "2")]),
        note(1.0, 1.0, "0", vec![]),
    ]));
    assert_eq!(plans[0].tuples[0].freq, b(440.0));
    assert_eq!(plans[1].tuples[0].freq, b(44100.0 / 2.0));
    assert_eq!(plans[1].tuples[0].freq, b(22050.0));
    assert_eq!(plans[2].tuples[0].freq, b(22050.0));
}

#[test]
fn constant_frequency_lasts_one_note_only() {
    let plans = plan_column(&column(vec![
        note(1.0, 1.0, "0", vec![Effect::parse("2", "100")]),
        note(1.0, 1.0, "0", vec![]),
    ]));
    assert_eq!(plans[0].tuples[0].freq, b(44100.0 / 100.0));
    assert_eq!(plans[1].tuples[0].freq, b(440.0));
}

#[test]
fn keep_state_rolls_back_to_the_preratio_state() {
    let plans = plan_column(&column(vec![
        note(3.0, 2.0, "0", vec![Effect::parse("10", "")]),
        note(1.0, 1.0, "0", vec![]),
    ]));
    // The first note still sounds with its own ratio applied...
    assert_eq!(plans[0].tuples[0].freq, b(660.0));
    // ...but the next note starts from the state before that ratio.
    assert_eq!(plans[1].tuples[0].freq, b(440.0));
}

#[test]
fn layering_adds_tuples_and_keeps_the_natural_one_last() {
    let plans = plan_column(&column(vec![note(
        1.0,
        1.0,
        "0",
        vec![Effect::parse("0", "2"), Effect::parse("1", "3,1")],
    )]));
    let tuples = &plans[0].tuples;
    assert_eq!(tuples.len(), 3);
    assert_eq!(tuples[0].freq, b(880.0));
    assert_eq!(tuples[1].freq, b(1320.0));
    assert_eq!(tuples[2].freq, b(440.0));
    assert_eq!(tuples[2].dur, b(1.0));
}

#[test]
fn send_parameters_accumulate_in_order() {
    let plans = plan_column(&column(vec![note(
        1.0,
        1.0,
        "0",
        vec![Effect::parse("6", "1,2"), Effect::parse("6", "3")],
    )]));
    assert_eq!(plans[0].params, vec![b(1.0), b(2.0), b(3.0)]);
}

#[test]
fn slicing_divides_duration_and_multiplies_repeat() {
    let plans = plan_column(&column(vec![note(1.0, 1.0, "0", vec![Effect::parse("11", "2")])]));
    assert_eq!(plans[0].repeat, 2);
    assert_eq!(plans[0].tuples[0].dur, b(0.5));
}

#[test]
fn degenerate_jitter_bound_leaves_the_state_alone() {
    let n = note(1.0, 1.0, "0", vec![Effect::parse("12", "1")]);
    let plans = plan_column(&column(vec![n]));
    assert_eq!(plans[0].tuples[0].freq, b(440.0));
}

#[test]
fn jitter_multiplies_by_a_ratio_of_draws_in_range() {
    let n = note(1.0, 1.0, "0", vec![Effect::parse("16", "5")]);
    let plans = plan_column(&column(vec![n]));
    let got = plans[0].tuples[0].freq;
    let mut candidates = vec![];
    for a in 1..5u32 {
        for d in 1..5u32 {
            candidates.push(b(440.0 * (a as f32 / d as f32)));
        }
    }
    assert!(candidates.contains(&got), "unexpected jittered frequency {got:#x}");
}

fn plans_identical(a: &[NotePlan], c: &[NotePlan]) -> bool {
    a.len() == c.len()
        && a.iter().zip(c.iter()).all(|(x, y)| {
            x.synth == y.synth && x.tuples == y.tuples && x.params == y.params
                && x.repeat == y.repeat
        })
}

#[test]
fn planning_without_jitter_is_deterministic() {
    let make = || {
        column(vec![
            note(3.0, 2.0, "1", vec![Effect::parse("0", "2"), Effect::parse("5", "4")]),
            note(1.0, 1.0, "2", vec![Effect::parse("7", "3")]),
        ])
    };
    let p1 = plan_column(&make());
    let p2 = plan_column(&make());
    assert!(plans_identical(&p1, &p2));
}

#[test]
fn evaluation_consumes_given_draws() {
    let n = note(1.0, 1.0, "0", vec![Effect::parse("12", "5")]);
    let (plan, carry) = eval_note(base_state(), &n, &vec![vec![3, 2]]);
    assert_eq!(plan.tuples[0].freq, b(440.0 * 1.5));
    // Opcode 12 does not persist the jitter.
    assert_eq!(carry.freq, b(440.0));
}

#[test]
fn repeat_cycles_the_rendered_note() {
    let n = note(1.0, 1.0, "0", vec![Effect::parse("5", "3")]);
    let plans = plan_column(&column(vec![n]));
    assert_eq!(plans[0].repeat, 3);
    let sa = Sample { left: b(0.1), right: b(0.2) };
    let sb = Sample { left: b(0.3), right: b(0.4) };
    let out = assemble_note(&plans[0], &vec![Some(vec![sa, sb])]);
    assert_eq!(out, vec![sa, sb, sa, sb, sa, sb]);
}

#[test]
fn repeat_zero_silences_the_note() {
    let n = note(1.0, 1.0, "0", vec![Effect::parse("5", "0")]);
    let plans = plan_column(&column(vec![n]));
    assert_eq!(plans[0].repeat, 0);
    let sa = Sample { left: b(0.1), right: b(0.2) };
    let out = assemble_note(&plans[0], &vec![Some(vec![sa])]);
    assert!(out.is_empty());
}

#[test]
fn layered_tuples_sum_samplewise() {
    let n = note(1.0, 1.0, "0", vec![Effect::parse("1", "2")]);
    let plans = plan_column(&column(vec![n]));
    assert_eq!(plans[0].tuples.len(), 2);
    let la = vec![Sample { left: b(1.0), right: b(2.0) }, Sample { left: b(5.0), right: b(6.0) }];
    let nat = vec![Sample { left: b(10.0), right: b(20.0) }];
    // The note is as long as the FIRST tuple's buffer; the shorter
    // natural buffer contributes silence beyond its end.
    let out = assemble_note(&plans[0], &vec![Some(la), Some(nat)]);
    assert_eq!(out.len(), 2);
    assert_eq!(out[0], Sample { left: b(11.0), right: b(22.0) });
    assert_eq!(out[1], Sample { left: b(5.0), right: b(6.0) });
}

#[test]
fn unresolved_synthesis_renders_measured_silence() {
    let mut n = note(1.0, 1.0, "nosuch", vec![]);
    n.dur_num = b(0.01);
    let plans = plan_column(&column(vec![n]));
    let out = assemble_note(&plans[0], &vec![None]);
    let expected = (0.01f32 * 44100.0) as usize;
    assert_eq!(out.len(), expected);
    assert!(out.iter().all(|&x| x == Sample { left: ZERO_BITS, right: ZERO_BITS }));
}

#[test]
fn unresolved_column_concatenates_silences() {
    let mut n1 = note(1.0, 1.0, "nosuch", vec![]);
    n1.dur_num = b(0.01);
    let mut n2 = note(1.0, 1.0, "nosuch", vec![]);
    n2.dur_num = b(1.0);
    // The second note's incoming duration state is 0.01, times 1/0.01.
    n2.dur_den = b(0.01);
    let plans = plan_column(&column(vec![n1, n2]));
    let out = assemble_column(&plans, &vec![vec![None], vec![None]]);
    let first = (0.01f32 * 44100.0) as usize;
    let second = ((0.01f32 * (1.0f32 / 0.01f32)) * 44100.0) as usize;
    assert_eq!(out.len(), first + second);
    assert!(out.iter().all(|&x| x == Sample { left: ZERO_BITS, right: ZERO_BITS }));
}

#[test]
fn fallback_buffer_is_sized_by_duration() {
    assert_eq!(fallback_buffer(b(0.5)).len(), (0.5f32 * 44100.0) as usize);
    assert_eq!(fallback_buffer(b(0.0)).len(), 0);
    assert_eq!(fallback_buffer(b(-1.0)).len(), 0);
}

#[test]
fn post_effect_answers_replace_or_pass_through() {
    let buf = vec![Sample { left: b(1.0), right: b(1.0) }];
    let replaced = post_fx_step(buf.clone(), Some(vec![Sample { left: b(9.0), right: b(9.0) }]));
    assert_eq!(replaced[0].left, b(9.0));
    let kept = post_fx_step(buf.clone(), None);
    assert_eq!(kept, buf);
}

#[test]
fn mixdown_pads_short_columns_with_silence() {
    let c1 = vec![Sample { left: b(1.0), right: b(2.0) }, Sample { left: b(3.0), right: b(4.0) }];
    let c2 = vec![Sample { left: b(10.0), right: b(20.0) }];
    let out = mixdown(&vec![c1, c2]);
    assert_eq!(out.len(), 2);
    assert_eq!(out[0], Sample { left: b(11.0), right: b(22.0) });
    assert_eq!(out[1], Sample { left: b(3.0), right: b(4.0) });
}

#[test]
fn mixdown_is_insensitive_to_column_order_here() {
    let c1 = vec![Sample { left: b(1.5), right: b(-2.0) }];
    let c2 = vec![Sample { left: b(0.25), right: b(8.0) }, Sample { left: b(1.0), right: b(1.0) }];
    let ab = mixdown(&vec![c1.clone(), c2.clone()]);
    let ba = mixdown(&vec![c2, c1]);
    assert_eq!(ab, ba);
}

#[test]
fn mixdown_sanitizes_every_channel() {
    let inf = vec![Sample { left: f32::INFINITY.to_bits(), right: f32::NEG_INFINITY.to_bits() }];
    let out = mixdown(&vec![inf]);
    assert_eq!(out[0], Sample { left: MAX_FINITE_BITS, right: MIN_FINITE_BITS });
    let nan = vec![Sample { left: f32::NAN.to_bits(), right: b(2.0) }];
    let out2 = mixdown(&vec![nan]);
    assert_eq!(out2[0], Sample { left: ZERO_BITS, right: b(2.0) });
}

#[test]
fn interleaving_orders_left_then_right() {
    let buf = vec![Sample { left: b(1.0), right: b(2.0) }, Sample { left: b(3.0), right: b(4.0) }];
    assert_eq!(interleave(&buf), vec![b(1.0), b(2.0), b(3.0), b(4.0)]);
}

#[test]
fn name_scans_keep_first_occurrences_once() {
    let p = Project {
        columns: vec![
            Column {
                name: s("a"),
                post_effects: vec![PostEffect { name: s("7"), params: vec![] }],
                notes: vec![note(1.0, 1.0, "1", vec![]), note(1.0, 1.0, "2", vec![])],
            },
            Column {
                name: s("c"),
                post_effects: vec![
                    PostEffect { name: s("8"), params: vec![] },
                    PostEffect { name: s("7"), params: vec![] },
                ],
                notes: vec![note(1.0, 1.0, "1", vec![])],
            },
        ],
    };
    assert_eq!(unique_synth_names(&p), vec![s("1"), s("2")]);
    assert_eq!(unique_fx_names(&p), vec![s("7"), s("8")]);
}

#[test]
fn empty_columns_and_projects_render_to_nothing() {
    let plans = plan_column(&column(vec![]));
    assert!(plans.is_empty());
    let out = assemble_column(&plans, &vec![]);
    assert!(out.is_empty());
    assert!(mixdown(&vec![]).is_empty());
    assert!(interleave(&vec![]).is_empty());
}

#[test]
fn missing_answers_count_as_unresolved() {
    let mut n = note(1.0, 1.0, "0", vec![]);
    n.dur_num = b(0.01);
    let plans = plan_column(&column(vec![n]));
    // No answer at all for the tuple: same as an unresolved symbol.
    let out = assemble_note(&plans[0], &vec![]);
    assert_eq!(out.len(), (0.01f32 * 44100.0) as usize);
}

#[test]
fn constant_opcodes_fall_back_to_the_running_value() {
    // Opcode 2 with an unparseable parameter divides the rate by the
    // running frequency itself.
    let plans = plan_column(&column(vec![note(1.0, 1.0, "0", vec![Effect::parse("2", "")])]));
    assert_eq!(plans[0].tuples[0].freq, b(44100.0 / 440.0));
    // Opcode 3 with an unparseable parameter keeps the duration.
    let plans2 = plan_column(&column(vec![note(1.0, 1.0, "0", vec![Effect::parse("3", "x")])]));
    assert_eq!(plans2[0].tuples[0].dur, b(1.0));
}

#[test]
fn unknown_opcodes_are_no_ops() {
    let plans = plan_column(&column(vec![note(
        1.0,
        1.0,
        "0",
        vec![Effect::parse("banana", "3"), Effect::parse("42", "3")],
    )]));
    assert_eq!(plans[0].tuples.len(), 1);
    assert_eq!(plans[0].tuples[0].freq, b(440.0));
    assert_eq!(plans[0].repeat, 1);
}

#[test]
fn whole_projects_plan_column_by_column() {
    let p = Project {
        columns: vec![
            column(vec![note(1.0, 1.0, "0", vec![])]),
            column(vec![note(2.0, 1.0, "0", vec![])]),
        ],
    };
    let plans = plan_project(&p);
    assert_eq!(plans.len(), 2);
    assert_eq!(plans[0][0].tuples[0].freq, b(440.0));
    assert_eq!(plans[1][0].tuples[0].freq, b(880.0));
}

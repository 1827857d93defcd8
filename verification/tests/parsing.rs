use iaue::bits::{
    add_bits, bits_to_len, div_bits, mul_bits, parse_bits, sanitize_bits, uint_bits,
    BASE_FREQ_BITS, MAX_FINITE_BITS, MIN_FINITE_BITS, NEG_INF_BITS, ONE_BITS, POS_INF_BITS,
    RATE_BITS, ZERO_BITS,
};
use iaue::model::{Effect, Note, Project};
use iaue::parse::{parse_opcode, parse_usize, split_on};

fn b(x: f32) -> u32 {
    x.to_bits()
}

#[test]
fn constants_match_ieee_singles() {
    assert_eq!(ZERO_BITS, 0.0f32.to_bits());
    assert_eq!(ONE_BITS, 1.0f32.to_bits());
    assert_eq!(BASE_FREQ_BITS, 440.0f32.to_bits());
    assert_eq!(RATE_BITS, 44100.0f32.to_bits());
    assert_eq!(POS_INF_BITS, f32::INFINITY.to_bits());
    assert_eq!(NEG_INF_BITS, f32::NEG_INFINITY.to_bits());
    assert_eq!(MAX_FINITE_BITS, f32::MAX.to_bits());
    assert_eq!(MIN_FINITE_BITS, f32::MIN.to_bits());
}

#[test]
fn arithmetic_wrappers_match_hardware() {
    assert_eq!(mul_bits(b(2.5), b(4.0)), b(10.0));
    assert_eq!(mul_bits(b(440.0), b(1.5)), b(660.0));
    assert_eq!(div_bits(RATE_BITS, b(2.0)), b(22050.0));
    assert_eq!(div_bits(b(1.0), b(3.0)), b(1.0f32 / 3.0f32));
    assert_eq!(add_bits(b(0.1), b(0.2)), b(0.1f32 + 0.2f32));
    assert_eq!(add_bits(ZERO_BITS, ZERO_BITS), ZERO_BITS);
    assert_eq!(add_bits(b(f32::MAX), b(f32::MAX)), POS_INF_BITS);
    assert_eq!(div_bits(b(1.0), ZERO_BITS), POS_INF_BITS);
    assert_eq!(uint_bits(7), b(7.0));
    assert_eq!(uint_bits(44100), RATE_BITS);
    assert_eq!(uint_bits(16_777_217), b(16_777_217u32 as f32));
}

#[test]
fn float_parsing_accepts_numbers_and_rejects_text() {
    assert_eq!(parse_bits("1.5"), Some(b(1.5)));
    assert_eq!(parse_bits("440"), Some(b(440.0)));
    assert_eq!(parse_bits("-2.25"), Some(b(-2.25)));
    assert_eq!(parse_bits("1e3"), Some(b(1000.0)));
    assert_eq!(parse_bits(""), None);
    assert_eq!(parse_bits("abc"), None);
    assert_eq!(parse_bits("1..2"), None);
}

#[test]
fn truncation_matches_rust_saturating_casts() {
    for x in [
        0.0f32,
        0.5,
        1.0,
        2.7,
        44.1,
        44100.0,
        16777215.5,
        1e20,
        3.4e38,
        -3.0,
        -0.5,
        f32::INFINITY,
        f32::NEG_INFINITY,
        f32::NAN,
        f32::MIN_POSITIVE,
    ] {
        assert_eq!(bits_to_len(x.to_bits()), x as usize, "for {x}");
    }
}

#[test]
fn sanitize_clamps_infinities_and_nans() {
    assert_eq!(sanitize_bits(POS_INF_BITS), MAX_FINITE_BITS);
    assert_eq!(sanitize_bits(NEG_INF_BITS), MIN_FINITE_BITS);
    assert_eq!(sanitize_bits(f32::NAN.to_bits()), ZERO_BITS);
    assert_eq!(sanitize_bits(b(1.5)), b(1.5));
    assert_eq!(sanitize_bits(b(-0.0)), b(-0.0));
}

#[test]
fn integer_parsing_follows_decimal_rules() {
    assert_eq!(parse_usize("7"), Some(7));
    assert_eq!(parse_usize("+7"), Some(7));
    assert_eq!(parse_usize("007"), Some(7));
    assert_eq!(parse_usize("0"), Some(0));
    assert_eq!(parse_usize(""), None);
    assert_eq!(parse_usize("abc"), None);
    assert_eq!(parse_usize("-3"), None);
    assert_eq!(parse_usize("3.5"), None);
    assert_eq!(parse_usize("99999999999999999999999999"), None);
    assert_eq!(parse_opcode("7"), Some(7));
    assert_eq!(parse_opcode("19"), Some(19));
    assert_eq!(parse_opcode("07"), None);
    assert_eq!(parse_opcode("+7"), None);
    assert_eq!(parse_opcode(""), None);
}

#[test]
fn splitting_keeps_empty_pieces() {
    let p = |v: Vec<String>| v.into_iter().collect::<Vec<String>>();
    assert_eq!(p(split_on("a,b", ',')), vec!["a", "b"]);
    assert_eq!(p(split_on("", ',')), vec![""]);
    assert_eq!(p(split_on("a,", ',')), vec!["a", ""]);
    assert_eq!(p(split_on(",,x", ',')), vec!["", "", "x"]);
    assert_eq!(p(split_on("3/2", '/')), vec!["3", "2"]);
}

#[test]
fn effect_parsing_covers_the_opcode_table() {
    assert!(matches!(
        Effect::parse("0", "3/2,1"),
        Effect::LayerRelative { freq_ratio, vel_ratio }
            if freq_ratio == b(1.5) && vel_ratio == b(1.0)
    ));
    assert!(matches!(
        Effect::parse("1", "2"),
        Effect::LayerAdditive { freq_ratio, vel_ratio }
            if freq_ratio == b(2.0) && vel_ratio == ONE_BITS
    ));
    assert!(matches!(
        Effect::parse("2", "100"),
        Effect::ConstFreq { divisor: Some(d) } if d == b(100.0)
    ));
    assert!(matches!(Effect::parse("3", "x"), Effect::ConstDur { value: None }));
    assert!(matches!(Effect::parse("4", "0.5"), Effect::ConstVel { value: Some(v) } if v == b(0.5)));
    assert!(matches!(Effect::parse("5", "3"), Effect::Repeat { times: 3 }));
    assert!(matches!(Effect::parse("5", "x"), Effect::Repeat { times: 1 }));
    match Effect::parse("6", "1,2.5,x") {
        Effect::SendParams { values } => {
            assert_eq!(values, vec![b(1.0), b(2.5), ZERO_BITS]);
        }
        _ => panic!("expected a send-parameters effect"),
    }
    assert!(matches!(
        Effect::parse("7", "2"),
        Effect::OverrideFreq { divisor: Some(d) } if d == b(2.0)
    ));
    assert!(matches!(Effect::parse("10", ""), Effect::KeepState));
    assert!(matches!(Effect::parse("11", "2"), Effect::Slice { times: 2 }));
    assert!(matches!(
        Effect::parse("12", "4"),
        Effect::Jitter { on_freq: true, on_dur: false, on_vel: false, persist: false, bound: 4 }
    ));
    assert!(matches!(
        Effect::parse("15", "4"),
        Effect::Jitter { on_freq: true, on_dur: true, on_vel: true, persist: false, bound: 4 }
    ));
    assert!(matches!(
        Effect::parse("19", "4"),
        Effect::Jitter { on_freq: true, on_dur: true, on_vel: true, persist: true, bound: 4 }
    ));
    assert!(matches!(Effect::parse("20", "1"), Effect::Ignored));
    assert!(matches!(Effect::parse("banana", "1"), Effect::Ignored));
    assert!(matches!(Effect::parse("07", "1"), Effect::Ignored));
}

fn s(x: &str) -> String {
    x.to_string()
}

#[test]
fn note_rows_parse_field_by_field() {
    let n = Note::from_fields(&vec![
        s("3"),
        s("2"),
        s("1"),
        s("1"),
        s("1"),
        s("2"),
        s("9"),
        s("5"),
        s("3"),
    ]);
    assert_eq!(n.freq_num, b(3.0));
    assert_eq!(n.freq_den, b(2.0));
    assert_eq!(n.dur_num, b(1.0));
    assert_eq!(n.vel_den, b(2.0));
    assert_eq!(n.synth, "9");
    assert_eq!(n.effects.len(), 1);
    assert!(matches!(n.effects[0], Effect::Repeat { times: 3 }));
}

#[test]
fn short_and_malformed_note_rows_fall_back() {
    let n = Note::from_fields(&vec![s("x"), s("2")]);
    assert_eq!(n.freq_num, ZERO_BITS);
    assert_eq!(n.freq_den, b(2.0));
    assert_eq!(n.dur_num, ZERO_BITS);
    assert_eq!(n.synth, "0");
    assert_eq!(n.effects.len(), 0);
    // An incomplete trailing pair is dropped.
    let m = Note::from_fields(&vec![
        s("1"),
        s("1"),
        s("1"),
        s("1"),
        s("1"),
        s("1"),
        s("0"),
        s("5"),
    ]);
    assert_eq!(m.effects.len(), 0);
}

#[test]
fn grids_parse_into_columns_and_notes() {
    // A gutter column, then one column: name row, header row with one
    // post-effect pair, and two note rows.
    let grid: Vec<Vec<Vec<String>>> = vec![
        vec![vec![s("1")], vec![s("1")], vec![s("1")]],
        vec![
            vec![s("lead")],
            vec![s("440"), s("1"), s("1"), s("7"), s("0.3,0.5")],
            vec![s("1"), s("1"), s("1"), s("1"), s("1"), s("1"), s("0")],
            vec![s("3"), s("2"), s("1"), s("1"), s("1"), s("1"), s("0")],
        ],
    ];
    let p = Project::from_grid(&grid);
    assert_eq!(p.columns.len(), 1);
    let c = &p.columns[0];
    assert_eq!(c.name, "lead");
    assert_eq!(c.post_effects.len(), 1);
    assert_eq!(c.post_effects[0].name, "7");
    assert_eq!(c.post_effects[0].params, vec![b(0.3), b(0.5)]);
    assert_eq!(c.notes.len(), 2);
    assert_eq!(c.notes[1].freq_num, b(3.0));
}

#[test]
fn empty_grids_parse_to_empty_projects() {
    let p = Project::from_grid(&vec![]);
    assert_eq!(p.columns.len(), 0);
    let q = Project::from_grid(&vec![vec![vec![s("1")]]]);
    assert_eq!(q.columns.len(), 0);
}

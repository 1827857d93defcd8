//! The data model of a project, parsed once at the boundary.
//!
//! A persisted project is nested text: columns of rows of cells.  The first
//! column is a gutter, the first row of a column is its name, the second row
//! carries the column's post-effect declarations from its fourth cell on,
//! and every further row is a note: six ratio cells, the name of the
//! note's synthesis function, then (opcode, parameter) cell pairs.  All
//! numeric cells are parsed here, exactly once, into bit patterns; each
//! opcode name and its parameter string are parsed into one [`Effect`].
//!
//! Parse failures never reject a project: a malformed ratio cell counts as
//! zero, a malformed layer ratio or repeat count as one, a malformed sent
//! parameter as zero, and an unknown opcode is kept as [`Effect::Ignored`],
//! which the evaluator treats as a no-op.  An incomplete trailing cell pair
//! is dropped.

use vstd::prelude::*;
use crate::bits::{ZERO_BITS, ONE_BITS, spec_parse_bits, parse_bits, spec_div_bits, div_bits};
use crate::parse::{spec_split, spec_parse_usize, spec_parse_opcode, split_on, parse_usize, parse_opcode};

verus! {

/// One effect invocation of a note, parsed.  The doc line of each variant
/// names the opcode it is written as.
pub enum Effect {
    /// Opcode 0: push a layered tuple multiplied relative to the previous
    /// layered tuple.
    LayerRelative { freq_ratio: u32, vel_ratio: u32 },
    /// Opcode 1: push a layered tuple multiplied relative to the running
    /// state.
    LayerAdditive { freq_ratio: u32, vel_ratio: u32 },
    /// Opcode 2: set the running frequency to the sample rate divided by
    /// the parameter, for this note only.
    ConstFreq { divisor: Option<u32> },
    /// Opcode 3: set the running duration to the parameter, for this note
    /// only.
    ConstDur { value: Option<u32> },
    /// Opcode 4: set the running velocity to the parameter, for this note
    /// only.
    ConstVel { value: Option<u32> },
    /// Opcode 5: multiply the note's repeat count.
    Repeat { times: usize },
    /// Opcode 6: append parameters forwarded verbatim to the synthesis
    /// call.
    SendParams { values: Vec<u32> },
    /// Opcode 7: as opcode 2, and persist into the state carried to the
    /// next note.
    OverrideFreq { divisor: Option<u32> },
    /// Opcode 8: as opcode 3, and persist.
    OverrideDur { value: Option<u32> },
    /// Opcode 9: as opcode 4, and persist.
    OverrideVel { value: Option<u32> },
    /// Opcode 10: roll the carried state back to its value before this
    /// note's own ratios were applied.
    KeepState,
    /// Opcode 11: multiply the repeat count and divide the duration by the
    /// resulting count.
    Slice { times: usize },
    /// Opcodes 12 through 19: multiply one or more axes of the running
    /// state by a ratio of two draws from `[1, bound)`; with `persist` the
    /// jittered value is also carried to the next note.
    Jitter { on_freq: bool, on_dur: bool, on_vel: bool, persist: bool, bound: usize },
    /// Any other opcode name: a no-op.
    Ignored,
}

/// The mathematical shadow of [`Effect`].
pub enum EffectV {
    LayerRelative { freq_ratio: u32, vel_ratio: u32 },
    LayerAdditive { freq_ratio: u32, vel_ratio: u32 },
    ConstFreq { divisor: Option<u32> },
    ConstDur { value: Option<u32> },
    ConstVel { value: Option<u32> },
    Repeat { times: usize },
    SendParams { values: Seq<u32> },
    OverrideFreq { divisor: Option<u32> },
    OverrideDur { value: Option<u32> },
    OverrideVel { value: Option<u32> },
    KeepState,
    Slice { times: usize },
    Jitter { on_freq: bool, on_dur: bool, on_vel: bool, persist: bool, bound: usize },
    Ignored,
}

impl View for Effect {
    type V = EffectV;

    open spec fn view(&self) -> EffectV {
        match self {
            Effect::LayerRelative { freq_ratio, vel_ratio } => EffectV::LayerRelative {
                freq_ratio: *freq_ratio,
                vel_ratio: *vel_ratio,
            },
            Effect::LayerAdditive { freq_ratio, vel_ratio } => EffectV::LayerAdditive {
                freq_ratio: *freq_ratio,
                vel_ratio: *vel_ratio,
            },
            Effect::ConstFreq { divisor } => EffectV::ConstFreq { divisor: *divisor },
            Effect::ConstDur { value } => EffectV::ConstDur { value: *value },
            Effect::ConstVel { value } => EffectV::ConstVel { value: *value },
            Effect::Repeat { times } => EffectV::Repeat { times: *times },
            Effect::SendParams { values } => EffectV::SendParams { values: values@ },
            Effect::OverrideFreq { divisor } => EffectV::OverrideFreq { divisor: *divisor },
            Effect::OverrideDur { value } => EffectV::OverrideDur { value: *value },
            Effect::OverrideVel { value } => EffectV::OverrideVel { value: *value },
            Effect::KeepState => EffectV::KeepState,
            Effect::Slice { times } => EffectV::Slice { times: *times },
            Effect::Jitter { on_freq, on_dur, on_vel, persist, bound } => EffectV::Jitter {
                on_freq: *on_freq,
                on_dur: *on_dur,
                on_vel: *on_vel,
                persist: *persist,
                bound: *bound,
            },
            Effect::Ignored => EffectV::Ignored,
        }
    }
}

/// A parsed numeric token, or zero when the token is not a number.
pub open spec fn parse_or_zero(t: Seq<char>) -> u32 {
    match spec_parse_bits(t) {
        Some(v) => v,
        None => ZERO_BITS,
    }
}

/// A parsed numeric token, or one when the token is not a number.
pub open spec fn parse_or_one(t: Seq<char>) -> u32 {
    match spec_parse_bits(t) {
        Some(v) => v,
        None => ONE_BITS,
    }
}

/// The value of a slash-separated ratio token: its pieces, each parsed or
/// defaulted to one, divided left to right.
pub open spec fn spec_ratio_fold(toks: Seq<Seq<char>>) -> u32
    decreases toks.len(),
{
    if toks.len() <= 1 {
        parse_or_one(if toks.len() == 1 {
            toks[0]
        } else {
            Seq::empty()
        })
    } else {
        spec_div_bits(spec_ratio_fold(toks.drop_last()), parse_or_one(toks.last()))
    }
}

/// The value of a ratio argument.
pub open spec fn spec_ratio(t: Seq<char>) -> u32 {
    spec_ratio_fold(spec_split(t, '/'))
}

/// The `k`-th comma-separated argument as a ratio, or one when absent.
pub open spec fn ratio_arg(args: Seq<Seq<char>>, k: int) -> u32 {
    if 0 <= k < args.len() {
        spec_ratio(args[k])
    } else {
        ONE_BITS
    }
}

/// The `k`-th argument parsed as a number, `None` when absent or
/// malformed; the evaluator then falls back to the running value.
pub open spec fn float_arg(args: Seq<Seq<char>>, k: int) -> Option<u32> {
    if 0 <= k < args.len() {
        spec_parse_bits(args[k])
    } else {
        None
    }
}

/// The `k`-th argument parsed as a count, or one when absent or
/// malformed.
pub open spec fn usize_arg(args: Seq<Seq<char>>, k: int) -> usize {
    if 0 <= k < args.len() {
        match spec_parse_usize(args[k]) {
            Some(n) => n,
            None => 1,
        }
    } else {
        1
    }
}

/// Every comma-separated argument parsed as a number, zero where
/// malformed.
pub open spec fn spec_params_list(t: Seq<char>) -> Seq<u32> {
    spec_split(t, ',').map_values(|a: Seq<char>| parse_or_zero(a))
}

/// What one (opcode name, parameter string) cell pair parses to.
pub open spec fn spec_effect(name: Seq<char>, params: Seq<char>) -> EffectV {
    let args = spec_split(params, ',');
    match spec_parse_opcode(name) {
        Some(op) => if op == 0 {
            EffectV::LayerRelative { freq_ratio: ratio_arg(args, 0), vel_ratio: ratio_arg(args, 1) }
        } else if op == 1 {
            EffectV::LayerAdditive { freq_ratio: ratio_arg(args, 0), vel_ratio: ratio_arg(args, 1) }
        } else if op == 2 {
            EffectV::ConstFreq { divisor: float_arg(args, 0) }
        } else if op == 3 {
            EffectV::ConstDur { value: float_arg(args, 0) }
        } else if op == 4 {
            EffectV::ConstVel { value: float_arg(args, 0) }
        } else if op == 5 {
            EffectV::Repeat { times: usize_arg(args, 0) }
        } else if op == 6 {
            EffectV::SendParams { values: spec_params_list(params) }
        } else if op == 7 {
            EffectV::OverrideFreq { divisor: float_arg(args, 0) }
        } else if op == 8 {
            EffectV::OverrideDur { value: float_arg(args, 0) }
        } else if op == 9 {
            EffectV::OverrideVel { value: float_arg(args, 0) }
        } else if op == 10 {
            EffectV::KeepState
        } else if op == 11 {
            EffectV::Slice { times: usize_arg(args, 0) }
        } else if 12 <= op <= 19 {
            let sel = op - 12;
            EffectV::Jitter {
                on_freq: sel % 4 == 0 || sel % 4 == 3,
                on_dur: sel % 4 == 1 || sel % 4 == 3,
                on_vel: sel % 4 == 2 || sel % 4 == 3,
                persist: sel >= 4,
                bound: usize_arg(args, 0),
            }
        } else {
            EffectV::Ignored
        },
        None => EffectV::Ignored,
    }
}

/// Parse a numeric token, or one when it is not a number.
pub fn parse_or_one_token(t: &str) -> (r: u32)
    ensures
        r == parse_or_one(t@),
{
    match parse_bits(t) {
        Some(v) => v,
        None => ONE_BITS,
    }
}

/// Parse a numeric token, or zero when it is not a number.
pub fn parse_or_zero_token(t: &str) -> (r: u32)
    ensures
        r == parse_or_zero(t@),
{
    match parse_bits(t) {
        Some(v) => v,
        None => ZERO_BITS,
    }
}

/// Evaluate a slash-separated ratio token.
pub fn ratio_of(t: &str) -> (r: u32)
    ensures
        r == spec_ratio(t@),
{
    let toks = split_on(t, '/');
    let ghost tv = toks@.map_values(|x: String| x@);
    let mut r: u32 = parse_or_one_token(toks[0].as_str());
    assert(tv.take(1).drop_last() =~= Seq::<Seq<char>>::empty());
    assert(r == spec_ratio_fold(tv.take(1)));
    let mut i: usize = 1;
    while i < toks.len()
        invariant
            1 <= i <= toks@.len(),
            tv == toks@.map_values(|x: String| x@),
            r == spec_ratio_fold(tv.take(i as int)),
        decreases toks@.len() - i,
    {
        let v = parse_or_one_token(toks[i].as_str());
        proof {
            assert(tv.take(i + 1).drop_last() =~= tv.take(i as int));
            assert(tv.take(i + 1).last() == tv[i as int]);
        }
        r = div_bits(r, v);
        i = i + 1;
    }
    proof {
        assert(tv.take(toks@.len() as int) =~= tv);
    }
    r
}

/// The `k`-th argument as a ratio, or one when absent.
fn ratio_arg_of(args: &Vec<String>, k: usize) -> (r: u32)
    ensures
        r == ratio_arg(args@.map_values(|x: String| x@), k as int),
{
    if k < args.len() {
        ratio_of(args[k].as_str())
    } else {
        ONE_BITS
    }
}

/// The `k`-th argument as a number, `None` when absent or malformed.
fn float_arg_of(args: &Vec<String>, k: usize) -> (r: Option<u32>)
    ensures
        r == float_arg(args@.map_values(|x: String| x@), k as int),
{
    if k < args.len() {
        parse_bits(args[k].as_str())
    } else {
        None
    }
}

/// The `k`-th argument as a count, or one when absent or malformed.
fn usize_arg_of(args: &Vec<String>, k: usize) -> (r: usize)
    ensures
        r == usize_arg(args@.map_values(|x: String| x@), k as int),
{
    if k < args.len() {
        match parse_usize(args[k].as_str()) {
            Some(n) => n,
            None => 1,
        }
    } else {
        1
    }
}

/// Parse a comma-separated parameter list, zero where malformed.
pub fn params_list_of(t: &str) -> (r: Vec<u32>)
    ensures
        r@ == spec_params_list(t@),
{
    let toks = split_on(t, ',');
    let ghost tv = toks@.map_values(|x: String| x@);
    let mut r: Vec<u32> = Vec::new();
    let mut i: usize = 0;
    while i < toks.len()
        invariant
            i <= toks@.len(),
            tv == toks@.map_values(|x: String| x@),
            r@ == tv.take(i as int).map_values(|a: Seq<char>| parse_or_zero(a)),
        decreases toks@.len() - i,
    {
        let v = parse_or_zero_token(toks[i].as_str());
        r.push(v);
        proof {
            assert(tv.take(i + 1).map_values(|a: Seq<char>| parse_or_zero(a)) =~= tv.take(
                i as int,
            ).map_values(|a: Seq<char>| parse_or_zero(a)).push(parse_or_zero(tv[i as int])));
        }
        i = i + 1;
    }
    proof {
        assert(tv.take(toks@.len() as int) =~= tv);
    }
    r
}

impl Effect {
    /// Parse one (opcode name, parameter string) cell pair.
    pub fn parse(name: &str, params: &str) -> (r: Effect)
        ensures
            r@ == spec_effect(name@, params@),
    {
        let args = split_on(params, ',');
        let op = match parse_opcode(name) {
            Some(op) => op,
            None => {
                return Effect::Ignored;
            },
        };
        if op == 0 {
            Effect::LayerRelative {
                freq_ratio: ratio_arg_of(&args, 0),
                vel_ratio: ratio_arg_of(&args, 1),
            }
        } else if op == 1 {
            Effect::LayerAdditive {
                freq_ratio: ratio_arg_of(&args, 0),
                vel_ratio: ratio_arg_of(&args, 1),
            }
        } else if op == 2 {
            Effect::ConstFreq { divisor: float_arg_of(&args, 0) }
        } else if op == 3 {
            Effect::ConstDur { value: float_arg_of(&args, 0) }
        } else if op == 4 {
            Effect::ConstVel { value: float_arg_of(&args, 0) }
        } else if op == 5 {
            Effect::Repeat { times: usize_arg_of(&args, 0) }
        } else if op == 6 {
            Effect::SendParams { values: params_list_of(params) }
        } else if op == 7 {
            Effect::OverrideFreq { divisor: float_arg_of(&args, 0) }
        } else if op == 8 {
            Effect::OverrideDur { value: float_arg_of(&args, 0) }
        } else if op == 9 {
            Effect::OverrideVel { value: float_arg_of(&args, 0) }
        } else if op == 10 {
            Effect::KeepState
        } else if op == 11 {
            Effect::Slice { times: usize_arg_of(&args, 0) }
        } else if 12 <= op && op <= 19 {
            let sel = op - 12;
            Effect::Jitter {
                on_freq: sel % 4 == 0 || sel % 4 == 3,
                on_dur: sel % 4 == 1 || sel % 4 == 3,
                on_vel: sel % 4 == 2 || sel % 4 == 3,
                persist: sel >= 4,
                bound: usize_arg_of(&args, 0),
            }
        } else {
            Effect::Ignored
        }
    }
}

/// One note: three ratios as parsed (numerator, denominator) bit-pattern
/// pairs, the name of its synthesis function, and its effect chain.
pub struct Note {
    pub freq_num: u32,
    pub freq_den: u32,
    pub dur_num: u32,
    pub dur_den: u32,
    pub vel_num: u32,
    pub vel_den: u32,
    pub synth: String,
    pub effects: Vec<Effect>,
}

/// The `k`-th cell of a note row parsed as a number, zero when the cell is
/// absent or malformed.
pub open spec fn field_bits(fields: Seq<Seq<char>>, k: int) -> u32 {
    if 0 <= k < fields.len() {
        parse_or_zero(fields[k])
    } else {
        ZERO_BITS
    }
}

/// The synthesis-function cell, `"0"` when absent.
pub open spec fn synth_field(fields: Seq<Seq<char>>) -> Seq<char> {
    if fields.len() > 6 {
        fields[6]
    } else {
        seq!['0']
    }
}

/// How many complete (opcode, parameter) cell pairs follow the seventh
/// cell.
pub open spec fn effect_pair_count(len: int) -> int {
    if len < 7 {
        0
    } else {
        (len - 7) / 2
    }
}

/// The parsed effect chain of a note row.
pub open spec fn spec_note_effects(fields: Seq<Seq<char>>) -> Seq<EffectV> {
    Seq::new(
        effect_pair_count(fields.len() as int) as nat,
        |j: int| spec_effect(fields[7 + 2 * j], fields[8 + 2 * j]),
    )
}

/// Does the parsed note say exactly what the note row says?
pub open spec fn note_matches(n: Note, fields: Seq<Seq<char>>) -> bool {
    &&& n.freq_num == field_bits(fields, 0)
    &&& n.freq_den == field_bits(fields, 1)
    &&& n.dur_num == field_bits(fields, 2)
    &&& n.dur_den == field_bits(fields, 3)
    &&& n.vel_num == field_bits(fields, 4)
    &&& n.vel_den == field_bits(fields, 5)
    &&& n.synth@ == synth_field(fields)
    &&& n.effects@.map_values(|e: Effect| e@) == spec_note_effects(fields)
}

/// The `k`-th cell parsed as a number, zero when absent or malformed.
fn field_bits_of(fields: &Vec<String>, k: usize) -> (r: u32)
    ensures
        r == field_bits(fields@.map_values(|s: String| s@), k as int),
{
    if k < fields.len() {
        parse_or_zero_token(fields[k].as_str())
    } else {
        ZERO_BITS
    }
}

impl Note {
    /// Parse one note row.
    pub fn from_fields(fields: &Vec<String>) -> (r: Note)
        ensures
            note_matches(r, fields@.map_values(|s: String| s@)),
    {
        let ghost fv = fields@.map_values(|s: String| s@);
        let synth: String = if fields.len() > 6 {
            fields[6].clone()
        } else {
            proof {
                reveal_strlit("0");
            }
            assert("0"@ =~= seq!['0']);
            "0".to_owned()
        };
        let mut effects: Vec<Effect> = Vec::new();
        let n = fields.len();
        let count: usize = if n < 7 {
            0
        } else {
            (n - 7) / 2
        };
        let ghost pc = effect_pair_count(fv.len() as int);
        assert(count == pc);
        let mut j: usize = 0;
        while j < count
            invariant
                fv == fields@.map_values(|s: String| s@),
                n == fv.len(),
                j <= count,
                count == pc,
                pc == effect_pair_count(fv.len() as int),
                effects@.map_values(|e: Effect| e@) =~= spec_note_effects(fv).take(j as int),
            decreases count - j,
        {
            proof {
                assert(2 * pc <= n - 7);
            }
            let e = Effect::parse(fields[7 + 2 * j].as_str(), fields[8 + 2 * j].as_str());
            proof {
                assert(spec_note_effects(fv)[j as int] == spec_effect(
                    fv[7 + 2 * (j as int)],
                    fv[8 + 2 * (j as int)],
                ));
                assert(effects@.push(e).map_values(|x: Effect| x@) =~= effects@.map_values(
                    |x: Effect| x@,
                ).push(e@));
            }
            effects.push(e);
            j = j + 1;
        }
        proof {
            assert(j == pc);
            assert(spec_note_effects(fv).take(pc) =~= spec_note_effects(fv));
        }
        Note {
            freq_num: field_bits_of(fields, 0),
            freq_den: field_bits_of(fields, 1),
            dur_num: field_bits_of(fields, 2),
            dur_den: field_bits_of(fields, 3),
            vel_num: field_bits_of(fields, 4),
            vel_den: field_bits_of(fields, 5),
            synth,
            effects,
        }
    }
}

/// One declared post-column effect: its name and its parsed parameters.
pub struct PostEffect {
    pub name: String,
    pub params: Vec<u32>,
}

/// One column: its name, its post-effects, and its notes in order.
pub struct Column {
    pub name: String,
    pub post_effects: Vec<PostEffect>,
    pub notes: Vec<Note>,
}

/// A whole project: its columns in playback order.
pub struct Project {
    pub columns: Vec<Column>,
}

/// How many complete post-effect cell pairs a column header row holds
/// after its three state cells.
pub open spec fn post_pair_count(len: int) -> int {
    if len < 3 {
        0
    } else {
        (len - 3) / 2
    }
}

/// Does the parsed column say exactly what the column's rows say?
pub open spec fn column_matches(c: Column, rows: Seq<Seq<Seq<char>>>) -> bool {
    let hdr: Seq<Seq<char>> = if rows.len() >= 2 {
        rows[1]
    } else {
        Seq::empty()
    };
    &&& c.name@ == (if rows.len() >= 1 && rows[0].len() >= 1 {
        rows[0][0]
    } else {
        Seq::<char>::empty()
    })
    &&& c.post_effects@.len() == post_pair_count(hdr.len() as int)
    &&& (forall|j: int|
        0 <= j < c.post_effects@.len() ==> {
            &&& (#[trigger] c.post_effects@[j]).name@ == hdr[3 + 2 * j]
            &&& c.post_effects@[j].params@ == spec_params_list(hdr[4 + 2 * j])
        })
    &&& c.notes@.len() == (if rows.len() >= 2 {
        rows.len() - 2
    } else {
        0
    })
    &&& (forall|i: int|
        0 <= i < c.notes@.len() ==> note_matches(#[trigger] c.notes@[i], rows[2 + i]))
}

/// Does the parsed project say exactly what the grid says?  The grid's
/// first column is the gutter and carries no music.
pub open spec fn project_matches(p: Project, grid: Seq<Seq<Seq<Seq<char>>>>) -> bool {
    &&& p.columns@.len() == (if grid.len() >= 1 {
        grid.len() - 1
    } else {
        0
    })
    &&& (forall|i: int|
        0 <= i < p.columns@.len() ==> column_matches(#[trigger] p.columns@[i], grid[1 + i]))
}

impl Column {
    /// Parse one column's rows.
    pub fn from_rows(rows: &Vec<Vec<String>>) -> (r: Column)
        ensures
            column_matches(r, rows.deep_view()),
    {
        let ghost rv = rows.deep_view();
        proof {
            assert forall|i: int| 0 <= i < rv.len() implies rv[i] == rows@[i].deep_view() by {}
        }
        let name: String = if rows.len() >= 1 && rows[0].len() >= 1 {
            rows[0][0].clone()
        } else {
            String::new()
        };
        let mut post_effects: Vec<PostEffect> = Vec::new();
        let mut notes: Vec<Note> = Vec::new();
        if rows.len() >= 2 {
            let hdr = &rows[1];
            let ghost hv = rv[1];
            proof {
                assert(hv =~= hdr@.map_values(|s: String| s@));
            }
            let hn = hdr.len();
            let count: usize = if hn < 3 {
                0
            } else {
                (hn - 3) / 2
            };
            let ghost pc = post_pair_count(hv.len() as int);
            assert(count == pc);
            let mut j: usize = 0;
            while j < count
                invariant
                    hv == hdr@.map_values(|s: String| s@),
                    hn == hv.len(),
                    j <= count,
                    count == pc,
                    pc == post_pair_count(hv.len() as int),
                    post_effects@.len() == j,
                    forall|q: int|
                        0 <= q < j ==> {
                            &&& (#[trigger] post_effects@[q]).name@ == hv[3 + 2 * q]
                            &&& post_effects@[q].params@ == spec_params_list(hv[4 + 2 * q])
                        },
                decreases count - j,
            {
                proof {
                    assert(2 * pc <= hn - 3);
                }
                let fx = PostEffect {
                    name: hdr[3 + 2 * j].clone(),
                    params: params_list_of(hdr[4 + 2 * j].as_str()),
                };
                post_effects.push(fx);
                j = j + 1;
            }
            proof {
                assert(j == pc);
            }
            let mut i: usize = 2;
            while i < rows.len()
                invariant
                    2 <= i <= rows@.len(),
                    rows@.len() >= 2,
                    rv == rows.deep_view(),
                    notes@.len() == i - 2,
                    forall|q: int|
                        0 <= q < notes@.len() ==> note_matches(#[trigger] notes@[q], rv[2 + q]),
                decreases rows@.len() - i,
            {
                let n = Note::from_fields(&rows[i]);
                proof {
                    assert(rv[i as int] =~= rows@[i as int]@.map_values(|s: String| s@));
                }
                notes.push(n);
                i = i + 1;
            }
        }
        Column { name, post_effects, notes }
    }
}

impl Project {
    /// Parse a whole persisted grid.
    pub fn from_grid(grid: &Vec<Vec<Vec<String>>>) -> (r: Project)
        ensures
            project_matches(r, grid.deep_view()),
    {
        let ghost gv = grid.deep_view();
        let mut columns: Vec<Column> = Vec::new();
        if grid.len() >= 1 {
            let mut i: usize = 1;
            while i < grid.len()
                invariant
                    1 <= i <= grid@.len(),
                    gv == grid.deep_view(),
                    columns@.len() == i - 1,
                    forall|q: int|
                        0 <= q < columns@.len() ==> column_matches(
                            #[trigger] columns@[q],
                            gv[1 + q],
                        ),
                decreases grid@.len() - i,
            {
                let c = Column::from_rows(&grid[i]);
                proof {
                    assert(gv[i as int] =~= grid@[i as int].deep_view());
                }
                columns.push(c);
                i = i + 1;
            }
        }
        Project { columns }
    }
}

} // verus!

//! Which names the caller must resolve before rendering.
//!
//! Every synthesis-function name any note references, and every
//! post-column effect name any column declares, is resolved exactly once.
//! The scans below walk the project in order and keep the first occurrence
//! of each name; the caller looks each one up in the compiled module and
//! keeps what it found, falling back to silence (or, for a post-column
//! effect, to a no-op) where a symbol is absent.

use vstd::prelude::*;
use crate::model::{Column, Note, PostEffect, Project};

verus! {

/// Keep the first occurrence of each name, in order.
pub open spec fn spec_dedup(xs: Seq<Seq<char>>) -> Seq<Seq<char>>
    decreases xs.len(),
{
    if xs.len() == 0 {
        Seq::empty()
    } else {
        let prior = spec_dedup(xs.drop_last());
        if prior.contains(xs.last()) {
            prior
        } else {
            prior.push(xs.last())
        }
    }
}

/// The synthesis-function names a column's notes reference, in note
/// order.
pub open spec fn column_synth_names(c: Column) -> Seq<Seq<char>> {
    c.notes@.map_values(|n: Note| n.synth@)
}

/// All synthesis-function names the project references, in order.
pub open spec fn spec_synth_names(p: Project) -> Seq<Seq<char>> {
    p.columns@.flat_map(|c: Column| column_synth_names(c))
}

/// The post-effect names a column declares, in order.
pub open spec fn column_fx_names(c: Column) -> Seq<Seq<char>> {
    c.post_effects@.map_values(|e: PostEffect| e.name@)
}

/// All post-effect names the project declares, in order.
pub open spec fn spec_fx_names(p: Project) -> Seq<Seq<char>> {
    p.columns@.flat_map(|c: Column| column_fx_names(c))
}

/// Is the name already among those collected?
fn contains_name(v: &Vec<String>, s: &String) -> (r: bool)
    ensures
        r == v@.map_values(|t: String| t@).contains(s@),
{
    let ghost vv = v@.map_values(|t: String| t@);
    let mut i: usize = 0;
    while i < v.len()
        invariant
            i <= v@.len(),
            vv == v@.map_values(|t: String| t@),
            forall|q: int| 0 <= q < i ==> vv[q] != s@,
        decreases v@.len() - i,
    {
        if v[i].eq(s) {
            proof {
                assert(vv[i as int] == s@);
            }
            return true;
        }
        i = i + 1;
    }
    proof {
        if vv.contains(s@) {
            let w = choose|w: int| 0 <= w < vv.len() && vv[w] == s@;
            assert(vv[w] != s@);
        }
    }
    false
}

/// Keep the first occurrence of each collected name, in order.
fn dedup_names(names: &Vec<String>) -> (r: Vec<String>)
    ensures
        r@.map_values(|t: String| t@) == spec_dedup(names@.map_values(|t: String| t@)),
{
    let ghost nv = names@.map_values(|t: String| t@);
    let mut r: Vec<String> = Vec::new();
    let mut i: usize = 0;
    while i < names.len()
        invariant
            i <= names@.len(),
            nv == names@.map_values(|t: String| t@),
            r@.map_values(|t: String| t@) =~= spec_dedup(nv.take(i as int)),
        decreases names@.len() - i,
    {
        proof {
            assert(nv.take(i + 1).drop_last() =~= nv.take(i as int));
            assert(nv.take(i + 1).last() == nv[i as int]);
        }
        if !contains_name(&r, &names[i]) {
            let ghost before = r@.map_values(|t: String| t@);
            let x = names[i].clone();
            r.push(x);
            proof {
                assert(r@.map_values(|t: String| t@) =~= before.push(nv[i as int]));
            }
        }
        i = i + 1;
    }
    proof {
        assert(nv.take(nv.len() as int) =~= nv);
    }
    r
}

/// The synthesis-function names to resolve: each name used by any note,
/// once, in first-use order.
pub fn unique_synth_names(p: &Project) -> (r: Vec<String>)
    ensures
        r@.map_values(|t: String| t@) == spec_dedup(spec_synth_names(*p)),
{
    let ghost f = |c: Column| column_synth_names(c);
    let mut all: Vec<String> = Vec::new();
    let mut i: usize = 0;
    proof {
        assert(p.columns@.take(0).flat_map(f) =~= Seq::<Seq<char>>::empty());
    }
    while i < p.columns.len()
        invariant
            i <= p.columns@.len(),
            all@.map_values(|t: String| t@) =~= p.columns@.take(i as int).flat_map(f),
            f == (|c: Column| column_synth_names(c)),
        decreases p.columns@.len() - i,
    {
        let c = &p.columns[i];
        let ghost base = p.columns@.take(i as int).flat_map(f);
        let mut j: usize = 0;
        while j < c.notes.len()
            invariant
                j <= c.notes@.len(),
                c == &p.columns@[i as int],
                all@.map_values(|t: String| t@) =~= base + column_synth_names(
                    p.columns@[i as int],
                ).take(j as int),
            decreases c.notes@.len() - j,
        {
            let ghost prev = all@.map_values(|t: String| t@);
            let x = c.notes[j].synth.clone();
            all.push(x);
            proof {
                assert(all@.map_values(|t: String| t@) =~= prev.push(c.notes@[j as int].synth@));
                assert(column_synth_names(p.columns@[i as int]).take(j + 1) =~= column_synth_names(
                    p.columns@[i as int],
                ).take(j as int).push(c.notes@[j as int].synth@));
            }
            j = j + 1;
        }
        proof {
            let cn = column_synth_names(p.columns@[i as int]);
            assert(cn.take(cn.len() as int) =~= cn);
            p.columns@.lemma_flat_map_take_append(f, i as int);
        }
        i = i + 1;
    }
    proof {
        assert(p.columns@.take(p.columns@.len() as int) =~= p.columns@);
    }
    dedup_names(&all)
}

/// The post-effect names to resolve: each name declared by any column,
/// once, in first-use order.
pub fn unique_fx_names(p: &Project) -> (r: Vec<String>)
    ensures
        r@.map_values(|t: String| t@) == spec_dedup(spec_fx_names(*p)),
{
    let ghost f = |c: Column| column_fx_names(c);
    let mut all: Vec<String> = Vec::new();
    let mut i: usize = 0;
    proof {
        assert(p.columns@.take(0).flat_map(f) =~= Seq::<Seq<char>>::empty());
    }
    while i < p.columns.len()
        invariant
            i <= p.columns@.len(),
            all@.map_values(|t: String| t@) =~= p.columns@.take(i as int).flat_map(f),
            f == (|c: Column| column_fx_names(c)),
        decreases p.columns@.len() - i,
    {
        let c = &p.columns[i];
        let ghost base = p.columns@.take(i as int).flat_map(f);
        let mut j: usize = 0;
        while j < c.post_effects.len()
            invariant
                j <= c.post_effects@.len(),
                c == &p.columns@[i as int],
                all@.map_values(|t: String| t@) =~= base + column_fx_names(
                    p.columns@[i as int],
                ).take(j as int),
            decreases c.post_effects@.len() - j,
        {
            let ghost prev = all@.map_values(|t: String| t@);
            let x = c.post_effects[j].name.clone();
            all.push(x);
            proof {
                assert(all@.map_values(|t: String| t@) =~= prev.push(
                    c.post_effects@[j as int].name@,
                ));
                assert(column_fx_names(p.columns@[i as int]).take(j + 1) =~= column_fx_names(
                    p.columns@[i as int],
                ).take(j as int).push(c.post_effects@[j as int].name@));
            }
            j = j + 1;
        }
        proof {
            let cn = column_fx_names(p.columns@[i as int]);
            assert(cn.take(cn.len() as int) =~= cn);
            p.columns@.lemma_flat_map_take_append(f, i as int);
        }
        i = i + 1;
    }
    proof {
        assert(p.columns@.take(p.columns@.len() as int) =~= p.columns@);
    }
    dedup_names(&all)
}

} // verus!

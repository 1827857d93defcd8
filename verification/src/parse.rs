//! Tokenizing the textual fields of a project.
//!
//! Effect parameter strings are comma-separated token lists, ratio tokens
//! are slash-separated, and several parameters are decimal integers.  The
//! splitting and the integer parsing are verified here against exact
//! specifications over character sequences; parsing a token as a
//! floating-point value lives in [`crate::bits`] behind its trusted
//! wrapper.

use vstd::prelude::*;

verus! {

/// Index of the first occurrence of `sep`, or -1 when there is none.
pub open spec fn find_char(s: Seq<char>, sep: char) -> int
    decreases s.len(),
{
    if s.len() == 0 {
        -1
    } else if s[0] == sep {
        0
    } else {
        let rest = find_char(s.skip(1), sep);
        if rest == -1 {
            -1
        } else {
            rest + 1
        }
    }
}

/// The pieces of `s` between occurrences of `sep`: always one piece more
/// than there are separators, so the empty text splits into one empty
/// piece.
pub open spec fn spec_split(s: Seq<char>, sep: char) -> Seq<Seq<char>>
    decreases s.len(),
{
    let j = find_char(s, sep);
    if 0 <= j && j < s.len() {
        seq![s.take(j)] + spec_split(s.skip(j + 1), sep)
    } else {
        seq![s]
    }
}

/// Where `find_char` points: at the first occurrence, or past none.
pub proof fn lemma_find_char_props(s: Seq<char>, sep: char)
    ensures
        find_char(s, sep) == -1 ==> forall|i: int| 0 <= i < s.len() ==> s[i] != sep,
        find_char(s, sep) != -1 ==> {
            let j = find_char(s, sep);
            &&& 0 <= j < s.len()
            &&& s[j] == sep
            &&& forall|i: int| 0 <= i < j ==> s[i] != sep
        },
    decreases s.len(),
{
    if s.len() == 0 {
    } else if s[0] == sep {
    } else {
        lemma_find_char_props(s.skip(1), sep);
        let rest = find_char(s.skip(1), sep);
        if rest == -1 {
            assert forall|i: int| 0 <= i < s.len() implies s[i] != sep by {
                if i > 0 {
                    assert(s.skip(1)[i - 1] == s[i]);
                }
            }
        } else {
            assert(s.skip(1)[rest] == s[rest + 1]);
            assert forall|i: int| 0 <= i < rest + 1 implies s[i] != sep by {
                if i > 0 {
                    assert(s.skip(1)[i - 1] == s[i]);
                }
            }
        }
    }
}

/// A text without the separator splits into itself alone.
pub proof fn lemma_split_no_sep(s: Seq<char>, sep: char)
    requires
        forall|i: int| 0 <= i < s.len() ==> s[i] != sep,
    ensures
        spec_split(s, sep) == seq![s],
{
    lemma_find_char_props(s, sep);
    let j = find_char(s, sep);
    if j != -1 {
        assert(s[j] == sep);
    }
}

/// Splitting at the first separator: the piece before it, then the split
/// of what follows it.
pub proof fn lemma_split_at(s: Seq<char>, sep: char, k: int)
    requires
        0 <= k < s.len(),
        s[k] == sep,
        forall|i: int| 0 <= i < k ==> s[i] != sep,
    ensures
        spec_split(s, sep) == seq![s.take(k)] + spec_split(s.skip(k + 1), sep),
    decreases k,
{
    lemma_find_char_props(s, sep);
    let j = find_char(s, sep);
    if j == -1 {
        assert(s[k] != sep);
        assert(false);
    }
    if j < k {
        assert(s[j] != sep);
        assert(false);
    }
    if j > k {
        assert(s[k] != sep);
        assert(false);
    }
}

/// Split a text at every occurrence of one character.
pub fn split_on(s: &str, sep: char) -> (r: Vec<String>)
    ensures
        r@.map_values(|t: String| t@) == spec_split(s@, sep),
{
    let n = s.unicode_len();
    let mut r: Vec<String> = Vec::new();
    let mut start: usize = 0;
    let mut i: usize = 0;
    proof {
        assert(s@.skip(0) =~= s@);
        assert(r@.map_values(|t: String| t@) + spec_split(s@, sep) =~= spec_split(s@, sep));
    }
    while i < n
        invariant
            start <= i <= n,
            n == s@.len(),
            forall|q: int| start <= q < i ==> s@[q] != sep,
            spec_split(s@, sep) == r@.map_values(|t: String| t@) + spec_split(
                s@.skip(start as int),
                sep,
            ),
        decreases n - i,
    {
        if s.get_char(i) == sep {
            let piece = s.substring_char(start, i).to_owned();
            proof {
                let tail = s@.skip(start as int);
                assert(tail.take(i - start) =~= s@.subrange(start as int, i as int));
                assert(tail.skip(i - start + 1) =~= s@.skip(i + 1));
                lemma_split_at(tail, sep, i - start);
                assert((r@ + seq![piece]).map_values(|t: String| t@) =~= r@.map_values(
                    |t: String| t@,
                ) + seq![piece@]);
                assert(r@.map_values(|t: String| t@) + (seq![tail.take(i - start)] + spec_split(
                    s@.skip(i + 1),
                    sep,
                )) =~= (r@.map_values(|t: String| t@) + seq![piece@]) + spec_split(
                    s@.skip(i + 1),
                    sep,
                ));
            }
            r.push(piece);
            start = i + 1;
        }
        i = i + 1;
    }
    let last = s.substring_char(start, n).to_owned();
    proof {
        let tail = s@.skip(start as int);
        assert(tail =~= s@.subrange(start as int, n as int));
        assert forall|q: int| 0 <= q < tail.len() implies tail[q] != sep by {
            assert(tail[q] == s@[start + q]);
        }
        lemma_split_no_sep(tail, sep);
        assert((r@ + seq![last]).map_values(|t: String| t@) =~= r@.map_values(|t: String| t@)
            + seq![last@]);
    }
    r.push(last);
    r
}

/// Is the character a decimal digit?
pub open spec fn is_digit(c: char) -> bool {
    48 <= c as u32 <= 57
}

/// Are all characters decimal digits?
pub open spec fn all_digits(s: Seq<char>) -> bool {
    forall|i: int| 0 <= i < s.len() ==> is_digit(#[trigger] s[i])
}

/// The value of a digit string, most significant digit first.
pub open spec fn digits_val(s: Seq<char>) -> nat
    decreases s.len(),
{
    if s.len() == 0 {
        0
    } else {
        digits_val(s.drop_last()) * 10 + ((s.last() as u32 - 48) as nat)
    }
}

/// A digit string is worth at least any of its prefixes.
proof fn lemma_digits_val_prefix(s: Seq<char>, i: int)
    requires
        all_digits(s),
        0 <= i <= s.len(),
    ensures
        digits_val(s) >= digits_val(s.take(i)),
    decreases s.len() - i,
{
    if i < s.len() {
        assert(s.take(i + 1).drop_last() =~= s.take(i));
        assert(s.take(i + 1).last() == s[i]);
        assert(digits_val(s.take(i + 1)) == digits_val(s.take(i)) * 10 + (s[i] as u32 - 48));
        lemma_digits_val_prefix(s, i + 1);
    } else {
        assert(s.take(i) =~= s);
    }
}

/// The value of the digits of `s` from position `from` on, or `None` when
/// that range is empty, holds a non-digit, or exceeds `usize`.
pub open spec fn spec_digits_from(s: Seq<char>, from: int) -> Option<usize> {
    let t = s.skip(from);
    if t.len() == 0 || !all_digits(t) {
        None
    } else if digits_val(t) > usize::MAX as nat {
        None
    } else {
        Some(digits_val(t) as usize)
    }
}

/// Read the digits of `s` from position `from` on.
fn digits_from(s: &str, from: usize) -> (r: Option<usize>)
    requires
        from <= s@.len(),
    ensures
        r == spec_digits_from(s@, from as int),
{
    let ghost t = s@.skip(from as int);
    let n = s.unicode_len();
    if from == n {
        return None;
    }
    let mut acc: usize = 0;
    let mut i: usize = from;
    while i < n
        invariant
            from <= i <= n,
            n == s@.len(),
            from < n,
            t == s@.skip(from as int),
            all_digits(t.take(i - from)),
            acc == digits_val(t.take(i - from)),
        decreases n - i,
    {
        let c = s.get_char(i);
        proof {
            assert(t[i - from] == s@[i as int]);
        }
        let u: u32 = c as u32;
        if u < 48 || u > 57 {
            proof {
                assert(!is_digit(t[i - from]));
            }
            return None;
        }
        let d: usize = (u - 48) as usize;
        proof {
            assert(t.take(i - from + 1).drop_last() =~= t.take(i - from));
            assert(t.take(i - from + 1).last() == t[i - from]);
        }
        if acc > (usize::MAX - d) / 10 {
            proof {
                assert(acc * 10 + d > usize::MAX) by (nonlinear_arith)
                    requires
                        acc > (usize::MAX - d) / 10,
                        d <= 9,
                ;
                if all_digits(t) {
                    lemma_digits_val_prefix(t, i - from + 1);
                }
            }
            return None;
        }
        acc = acc * 10 + d;
        i = i + 1;
    }
    proof {
        assert(t.take(n - from) =~= t);
    }
    Some(acc)
}

/// What a decimal parameter parses to: an optional leading plus sign, then
/// digits, rejected on any other character or on overflow.
pub open spec fn spec_parse_usize(s: Seq<char>) -> Option<usize> {
    if s.len() >= 1 && s[0] == '+' {
        spec_digits_from(s, 1)
    } else {
        spec_digits_from(s, 0)
    }
}

/// Parse a decimal parameter.
pub fn parse_usize(s: &str) -> (r: Option<usize>)
    ensures
        r == spec_parse_usize(s@),
{
    let n = s.unicode_len();
    if n >= 1 && s.get_char(0) == '+' {
        digits_from(s, 1)
    } else {
        digits_from(s, 0)
    }
}

/// What an opcode name denotes: the canonical decimal form of a number,
/// with no sign and no leading zero, so that each opcode has exactly one
/// name.
pub open spec fn spec_parse_opcode(s: Seq<char>) -> Option<usize> {
    if s.len() > 1 && s[0] == '0' {
        None
    } else {
        spec_digits_from(s, 0)
    }
}

/// Parse an opcode name.
pub fn parse_opcode(s: &str) -> (r: Option<usize>)
    ensures
        r == spec_parse_opcode(s@),
{
    let n = s.unicode_len();
    if n > 1 && s.get_char(0) == '0' {
        return None;
    }
    digits_from(s, 0)
}

} // verus!

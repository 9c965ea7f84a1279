//! Parsing of the analysis bin list: a comma-separated sequence of decimal
//! indices, each entry trimmed and parsed on its own, unparsable entries
//! dropped and the order of the rest preserved.

use crate::numeral::{is_unsigned_numeral, parse_usize, unsigned_numeral_val};
use crate::text::{trim, trim_spec};
use vstd::prelude::*;

verus! {

/// Index of the first comma of `s`, or `s.len()` if there is none.
pub open spec fn comma_split_point(s: Seq<char>) -> nat
    decreases s.len(),
{
    if s.len() == 0 {
        0
    } else if s[0] == ',' {
        0
    } else {
        1 + comma_split_point(s.drop_first())
    }
}

/// The bins a single list entry contributes: one value if the trimmed entry
/// is an in-range unsigned numeral, none otherwise.
pub open spec fn entry_vals(seg: Seq<char>) -> Seq<usize> {
    let t = trim_spec(seg);
    if is_unsigned_numeral(t) && unsigned_numeral_val(t) <= usize::MAX as int {
        seq![unsigned_numeral_val(t) as usize]
    } else {
        Seq::empty()
    }
}

/// The bin list a comma-separated string denotes: entries in order, each
/// trimmed and parsed independently, failures skipped.
pub open spec fn bins_of(s: Seq<char>) -> Seq<usize>
    decreases s.len(),
{
    let j = comma_split_point(s);
    if j >= s.len() {
        entry_vals(s)
    } else {
        entry_vals(s.take(j as int)) + bins_of(s.skip(j as int + 1))
    }
}

/// Parses a comma-separated bin list; see [`bins_of`].
pub fn parse_bins(s: &str) -> (r: Vec<usize>)
    ensures
        r@ == bins_of(s@),
    decreases s@.len(),
{
    let len = s.unicode_len();
    let mut j: usize = 0;
    proof {
        assert(s@.skip(0) =~= s@);
    }
    while j < len && s.get_char(j) != ','
        invariant
            len == s@.len(),
            j <= len,
            comma_split_point(s@) as int == j as int + comma_split_point(
                s@.skip(j as int),
            ) as int,
        decreases len - j,
    {
        proof {
            assert(s@.skip(j as int)[0] == s@[j as int]);
            assert(s@.skip(j as int).drop_first() =~= s@.skip(j as int + 1));
        }
        j = j + 1;
    }
    proof {
        if j < len {
            assert(s@.skip(j as int)[0] == s@[j as int]);
        }
        assert(comma_split_point(s@) == j as nat);
    }
    let seg = s.substring_char(0, j);
    let t = trim(seg);
    let p = parse_usize(t);
    let mut out: Vec<usize> = Vec::new();
    match p {
        Some(v) => { out.push(v) },
        None => {},
    }
    proof {
        assert(seg@ =~= s@.take(j as int));
        assert(out@ =~= entry_vals(s@.take(j as int)));
    }
    if j < len {
        let rest = s.substring_char(j + 1, len);
        let mut tail = parse_bins(rest);
        out.append(&mut tail);
        proof {
            assert(rest@ =~= s@.skip(j as int + 1));
            assert(out@ =~= entry_vals(s@.take(j as int)) + bins_of(s@.skip(j as int + 1)));
        }
    } else {
        proof {
            assert(s@.take(j as int) =~= s@);
        }
    }
    out
}

} // verus!

//! Remotes known to the external tool, read out of its `remote list` output.

use vstd::prelude::*;

use crate::strutil::{
    first_non_ws, first_ws, scan_token_end, scan_ws_end, spec_lines, spec_trim, split_lines,
    trim_ws,
};
use vstd::string::StrSliceExecFns;

verus! {

/// One remote: its name and its URL.
#[derive(Debug, Clone)]
pub struct Remote {
    pub name: String,
    pub url: String,
}

/// The name and URL a trimmed listing line carries. The line must hold a
/// non-whitespace run ending in `:`, whitespace, a non-whitespace URL, and
/// more whitespace before the trailing free text.
pub open spec fn spec_parse_remote_line(s: Seq<char>) -> Option<(Seq<char>, Seq<char>)> {
    let r1 = first_ws(s);
    if r1 < 2 || r1 >= s.len() || s[r1 - 1] != ':' {
        None
    } else {
        let m = r1 + first_non_ws(s.skip(r1));
        let r2 = first_ws(s.skip(m));
        if r2 < 1 || m + r2 >= s.len() {
            None
        } else {
            Some((s.take(r1 - 1), s.subrange(m, m + r2)))
        }
    }
}

/// The pair a line carries, for lines that parse.
pub open spec fn remote_val(l: Seq<char>) -> (Seq<char>, Seq<char>) {
    match spec_parse_remote_line(spec_trim(l)) {
        Some(p) => p,
        None => (Seq::empty(), Seq::empty()),
    }
}

/// The remotes a whole listing carries: one per line, each line trimmed and
/// parsed; absent as soon as one line does not parse.
pub open spec fn parse_remote_lines(lines: Seq<Seq<char>>) -> Option<Seq<(Seq<char>, Seq<char>)>>
    decreases lines.len(),
{
    if lines.len() == 0 {
        Some(Seq::empty())
    } else {
        match (spec_parse_remote_line(spec_trim(lines[0])), parse_remote_lines(
            lines.drop_first(),
        )) {
            (Some(r), Some(rest)) => Some(seq![r] + rest),
            _ => None,
        }
    }
}

/// The listing parses exactly when every line does, to one pair per line.
proof fn lemma_remote_lines_all(lines: Seq<Seq<char>>)
    ensures
        parse_remote_lines(lines) is Some <==> (forall|k: int|
            0 <= k < lines.len() ==> spec_parse_remote_line(spec_trim(#[trigger] lines[k]))
                is Some),
        parse_remote_lines(lines) matches Some(all) ==> all.len() == lines.len() && (forall|k: int|
            0 <= k < lines.len() ==> #[trigger] all[k] == remote_val(lines[k])),
    decreases lines.len(),
{
    if lines.len() > 0 {
        lemma_remote_lines_all(lines.drop_first());
        assert(forall|k: int|
            0 <= k < lines.drop_first().len() ==> #[trigger] lines.drop_first()[k] == lines[k
                + 1]);
        if spec_parse_remote_line(spec_trim(lines[0])) is Some {
            if forall|k: int|
                0 <= k < lines.len() ==> spec_parse_remote_line(
                    spec_trim(#[trigger] lines[k]),
                ) is Some {
                assert(forall|k: int|
                    0 <= k < lines.drop_first().len() ==> spec_parse_remote_line(
                        spec_trim(#[trigger] lines.drop_first()[k]),
                    ) is Some);
            }
            if parse_remote_lines(lines.drop_first()) is Some {
                assert forall|k: int|
                    0 <= k < lines.len() implies spec_parse_remote_line(
                    spec_trim(#[trigger] lines[k]),
                ) is Some by {
                    if k >= 1 {
                        assert(lines.drop_first()[k - 1] == lines[k]);
                    }
                }
            }
        }
    }
}

/// Parses one listing line, already trimmed.
pub fn parse_remote_line(s: &str) -> (r: Option<Remote>)
    ensures
        match r {
            Some(rem) => spec_parse_remote_line(s@) == Some((rem.name@, rem.url@)),
            None => spec_parse_remote_line(s@) is None,
        },
{
    let len = s.unicode_len();
    proof {
        assert(s@.skip(0) =~= s@);
    }
    let r1 = scan_token_end(s, 0);
    if r1 < 2 || r1 >= len || s.get_char(r1 - 1) != ':' {
        return None;
    }
    let m = scan_ws_end(s, r1);
    let r2_end = scan_token_end(s, m);
    proof {
        assert(first_ws(s@.skip(m as int)) == r2_end - m);
    }
    if r2_end == m || r2_end >= len {
        return None;
    }
    let name = s.substring_char(0, r1 - 1);
    let url = s.substring_char(m, r2_end);
    proof {
        assert(name@ =~= s@.take(r1 - 1));
        assert(url@ =~= s@.subrange(m as int, r2_end as int));
    }
    Some(Remote { name: String::from_str(name), url: String::from_str(url) })
}

/// Reads the remotes out of the whole listing text: one remote per line.
/// Absent as soon as one line does not have the listing shape; a failed
/// parse is never an empty list.
pub fn parse_remote_list(text: &str) -> (r: Option<Vec<Remote>>)
    ensures
        match parse_remote_lines(spec_lines(text@)) {
            Some(all) => r matches Some(v) && v@.len() == all.len() && (forall|k: int|
                0 <= k < all.len() ==> (#[trigger] v@[k]).name@ == all[k].0 && v@[k].url@
                    == all[k].1),
            None => r is None,
        },
{
    let lines = split_lines(text);
    let ghost lv = spec_lines(text@);
    let mut out: Vec<Remote> = Vec::new();
    let mut i: usize = 0;
    while i < lines.len()
        invariant
            i <= lines@.len(),
            lines.deep_view() == lv,
            lv == spec_lines(text@),
            lv.len() == lines@.len(),
            out@.len() == i,
            forall|k: int|
                0 <= k < i ==> spec_parse_remote_line(spec_trim(#[trigger] lv[k])) is Some,
            forall|k: int|
                0 <= k < i ==> ((#[trigger] out@[k]).name@, out@[k].url@) == remote_val(lv[k]),
        decreases lines@.len() - i,
    {
        let trimmed = trim_ws(lines[i].as_str());
        proof {
            assert(lines@[i as int]@ == lv[i as int]);
        }
        match parse_remote_line(trimmed.as_str()) {
            Some(rem) => {
                out.push(rem);
            },
            None => {
                proof {
                    lemma_remote_lines_all(lv);
                    assert(spec_parse_remote_line(spec_trim(lv[i as int])) is None);
                    assert(!(forall|k: int|
                        0 <= k < lv.len() ==> spec_parse_remote_line(
                            spec_trim(#[trigger] lv[k]),
                        ) is Some));
                }
                return None;
            },
        }
        i += 1;
    }
    proof {
        lemma_remote_lines_all(lv);
    }
    Some(out)
}

} // verus!

//! The external tool's version, read out of its `--version` output.

use vstd::prelude::*;

use crate::strutil::{
    digit_char, digits_val, is_digit, is_prefix, spec_trim, trim_ws,
};
use vstd::string::StrSliceExecFns;

verus! {

/// A semantic version of the external tool, as three small numbers.
#[derive(Clone, Copy, Debug, PartialEq, Eq, Structural)]
pub struct Version {
    pub major: u8,
    pub minor: u8,
    pub micro: u8,
}

/// The length of the digit run at the front of the text.
pub open spec fn digit_run(s: Seq<char>) -> int
    decreases s.len(),
{
    if s.len() == 0 || !is_digit(s[0]) {
        0
    } else {
        1 + digit_run(s.drop_first())
    }
}

/// The digit run is an initial segment of digits, ended by a non-digit.
proof fn lemma_digit_run(s: Seq<char>)
    ensures
        0 <= digit_run(s) <= s.len(),
        forall|k: int| 0 <= k < digit_run(s) ==> is_digit(s[k]),
        digit_run(s) < s.len() ==> !is_digit(s[digit_run(s)]),
    decreases s.len(),
{
    if s.len() > 0 && is_digit(s[0]) {
        lemma_digit_run(s.drop_first());
        assert forall|k: int| 0 <= k < digit_run(s) implies is_digit(s[k]) by {
            if k >= 1 {
                assert(s.drop_first()[k - 1] == s[k]);
            }
        }
        if digit_run(s) < s.len() {
            assert(s.drop_first()[digit_run(s) - 1] == s[digit_run(s)]);
        }
    }
}

/// The digit value of a digit string never shrinks as the string grows.
proof fn lemma_digits_val_grows(s: Seq<char>, k: int)
    requires
        0 <= k <= s.len(),
        forall|j: int| 0 <= j < s.len() ==> is_digit(s[j]),
    ensures
        digits_val(s) >= digits_val(s.take(k)) >= 0,
    decreases s.len() - k,
{
    if k == s.len() {
        assert(s.take(k) =~= s);
        lemma_digits_val_nonneg(s);
    } else {
        lemma_digits_val_grows(s, k + 1);
        assert(s.take(k + 1).drop_last() =~= s.take(k));
        assert(s.take(k + 1).last() == s[k]);
        lemma_digits_val_nonneg(s.take(k));
    }
}

/// The digit value of a digit string is not negative.
proof fn lemma_digits_val_nonneg(s: Seq<char>)
    requires
        forall|j: int| 0 <= j < s.len() ==> is_digit(s[j]),
    ensures
        digits_val(s) >= 0,
    decreases s.len(),
{
    if s.len() > 0 {
        assert(forall|j: int| 0 <= j < s.drop_last().len() ==> #[trigger] s.drop_last()[j] == s[j]);
        lemma_digits_val_nonneg(s.drop_last());
    }
}

/// A `major.minor<sep>micro` triplet at the front of the text: a digit run,
/// a dot, a digit run, one arbitrary character, and digits to the very end.
pub open spec fn triplet_at(s: Seq<char>) -> Option<(int, int, int)> {
    let a = digit_run(s);
    if a < 1 || a >= s.len() || s[a] != '.' {
        None
    } else {
        let t = s.skip(a + 1);
        let b = digit_run(t);
        if b < 1 || b + 1 >= t.len() {
            None
        } else {
            let u = t.skip(b + 1);
            if forall|k: int| 0 <= k < u.len() ==> is_digit(u[k]) {
                Some((digits_val(s.take(a)), digits_val(t.take(b)), digits_val(u)))
            } else {
                None
            }
        }
    }
}

/// The first position where the marker `version ` is followed by a whole
/// version triplet reaching the end of the text.
pub open spec fn find_version(s: Seq<char>) -> Option<(int, int, int)>
    decreases s.len(),
{
    if s.len() == 0 {
        None
    } else if is_prefix("version "@, s) && triplet_at(s.skip("version "@.len() as int)) is Some {
        triplet_at(s.skip("version "@.len() as int))
    } else {
        find_version(s.drop_first())
    }
}

/// The version the trimmed text reports: the first `version ` marker whose
/// triplet parses, with each component a small number.
pub open spec fn spec_version_of(text: Seq<char>) -> Option<Version> {
    match find_version(spec_trim(text)) {
        Some((ma, mi, mc)) => if ma <= 255 && mi <= 255 && mc <= 255 {
            Some(Version { major: ma as u8, minor: mi as u8, micro: mc as u8 })
        } else {
            None
        },
        None => None,
    }
}

/// The end of the digit run starting at `from`.
fn digit_run_end(s: &str, from: usize) -> (r: usize)
    requires
        from <= s@.len(),
    ensures
        from <= r <= s@.len(),
        r - from == digit_run(s@.skip(from as int)),
{
    let len = s.unicode_len();
    let mut j: usize = from;
    while j < len && digit_char(s.get_char(j))
        invariant
            from <= j <= len,
            len == s@.len(),
            forall|k: int| from <= k < j ==> is_digit(s@[k]),
        decreases len - j,
    {
        j += 1;
    }
    proof {
        let rest = s@.skip(from as int);
        lemma_digit_run(rest);
        assert(forall|k: int| 0 <= k < rest.len() ==> rest[k] == s@[k + from]);
        if (j - from) < digit_run(rest) {
            assert(is_digit(rest[j - from]));
        }
        if digit_run(rest) < (j - from) {
            assert(is_digit(rest[digit_run(rest)]));
        }
    }
    j
}

/// The value of the digit run `[from, to)`, when it fits in a small number.
fn parse_u8_run(s: &str, from: usize, to: usize) -> (r: Option<u8>)
    requires
        from <= to <= s@.len(),
        forall|k: int| from <= k < to ==> is_digit(s@[k]),
    ensures
        match r {
            Some(v) => v == digits_val(s@.subrange(from as int, to as int)) && digits_val(
                s@.subrange(from as int, to as int),
            ) <= 255,
            None => digits_val(s@.subrange(from as int, to as int)) > 255,
        },
{
    let ghost run = s@.subrange(from as int, to as int);
    proof {
        assert(forall|k: int| 0 <= k < run.len() ==> run[k] == s@[k + from]);
    }
    let mut acc: u32 = 0;
    let mut i: usize = from;
    while i < to
        invariant
            from <= i <= to,
            to <= s@.len(),
            run == s@.subrange(from as int, to as int),
            forall|k: int| 0 <= k < run.len() ==> run[k] == s@[k + from] && is_digit(run[k]),
            acc <= 255,
            acc == digits_val(run.take(i - from)),
        decreases to - i,
    {
        let c = s.get_char(i);
        proof {
            assert(run[i - from] == s@[i as int]);
            assert(('0' as u32) == 48 && ('9' as u32) == 57);
            assert(run.take(i - from + 1).drop_last() =~= run.take(i - from));
            assert(run.take(i - from + 1).last() == run[i - from]);
        }
        let d: u32 = (c as u32) - 48;
        let next: u32 = acc * 10 + d;
        if next > 255 {
            proof {
                lemma_digits_val_grows(run, i - from + 1);
            }
            return None;
        }
        acc = next;
        i += 1;
    }
    proof {
        assert(run.take(to - from) =~= run);
    }
    Some(acc as u8)
}

/// Whether the marker `version ` stands at position `at`.
fn version_marker_at(s: &str, at: usize) -> (r: bool)
    requires
        at <= s@.len(),
    ensures
        r == is_prefix("version "@, s@.skip(at as int)),
{
    proof {
        reveal_strlit("version ");
    }
    let len = s.unicode_len();
    let ghost rest = s@.skip(at as int);
    if len - at < 8 {
        return false;
    }
    let r = s.get_char(at) == 'v' && s.get_char(at + 1) == 'e' && s.get_char(at + 2) == 'r'
        && s.get_char(at + 3) == 's' && s.get_char(at + 4) == 'i' && s.get_char(at + 5) == 'o'
        && s.get_char(at + 6) == 'n' && s.get_char(at + 7) == ' ';
    proof {
        assert(forall|k: int| 0 <= k < rest.len() ==> rest[k] == s@[k + at]);
        if r {
            assert(rest.subrange(0, 8) =~= "version "@);
        } else {
            if is_prefix("version "@, rest) {
                let pre = rest.subrange(0, 8);
                assert(pre[0] == rest[0] && pre[1] == rest[1] && pre[2] == rest[2] && pre[3]
                    == rest[3] && pre[4] == rest[4] && pre[5] == rest[5] && pre[6] == rest[6]
                    && pre[7] == rest[7]);
                assert(pre[0] == 'v' && pre[1] == 'e' && pre[2] == 'r' && pre[3] == 's' && pre[4]
                    == 'i' && pre[5] == 'o' && pre[6] == 'n' && pre[7] == ' ');
            }
        }
    }
    r
}

/// Reads the tool's version out of its `--version` output: the text is
/// trimmed, the first `version ` marker whose `major.minor<sep>micro`
/// triplet reaches the end of the text is taken, and each component must be
/// a small number.
pub fn parse_version_output(text: &str) -> (r: Option<Version>)
    ensures
        r == spec_version_of(text@),
{
    let trimmed_string = trim_ws(text);
    let trimmed: &str = trimmed_string.as_str();
    let len = trimmed.unicode_len();
    let mut p: usize = 0;
    proof {
        assert(trimmed@.skip(0) =~= trimmed@);
    }
    while p < len
        invariant
            p <= len,
            len == trimmed@.len(),
            trimmed@ == spec_trim(text@),
            find_version(spec_trim(text@)) == find_version(trimmed@.skip(p as int)),
        decreases len - p,
    {
        let ghost rest = trimmed@.skip(p as int);
        if version_marker_at(trimmed, p) {
            proof {
                reveal_strlit("version ");
            }
            let q = p + 8;
            proof {
                assert(rest.skip(8) =~= trimmed@.skip(q as int));
            }
            match triplet_from(trimmed, q) {
                Some(v) => {
                    return v;
                },
                None => {},
            }
        }
        proof {
            assert(rest.drop_first() =~= trimmed@.skip(p as int + 1));
        }
        p += 1;
    }
    proof {
        assert(trimmed@.skip(len as int) =~= Seq::<char>::empty());
    }
    None
}

/// Parses the version triplet at `q`, reaching to the end of the text.
/// The outer `None` says the triplet shape is absent; the inner option is
/// the parsed version, absent when a component overflows.
fn triplet_from(s: &str, q: usize) -> (r: Option<Option<Version>>)
    requires
        q <= s@.len(),
    ensures
        match r {
            Some(v) => triplet_at(s@.skip(q as int)) matches Some(t) && v == (if t.0 <= 255 && t.1
                <= 255 && t.2 <= 255 {
                Some(Version { major: t.0 as u8, minor: t.1 as u8, micro: t.2 as u8 })
            } else {
                None::<Version>
            }),
            None => triplet_at(s@.skip(q as int)) is None,
        },
{
    let ghost rest = s@.skip(q as int);
    proof {
        assert(forall|k: int| 0 <= k < rest.len() ==> rest[k] == s@[k + q]);
    }
    let len = s.unicode_len();
    let a_end = digit_run_end(s, q);
    if a_end == q || a_end >= len || s.get_char(a_end) != '.' {
        proof {
            if a_end < len {
                assert(rest[a_end - q] == s@[a_end as int]);
            }
        }
        return None;
    }
    proof {
        assert(rest[a_end - q] == s@[a_end as int]);
    }
    let ghost t = rest.skip(a_end - q + 1);
    proof {
        assert(t =~= s@.skip(a_end as int + 1));
    }
    let b_end = digit_run_end(s, a_end + 1);
    let ghost b = digit_run(t);
    proof {
        assert(b == b_end - (a_end + 1));
    }
    if b_end == a_end + 1 || b_end >= len || b_end + 1 >= len {
        return None;
    }
    let ghost u = t.skip(b + 1);
    proof {
        assert(u =~= s@.skip(b_end as int + 1));
    }
    let tail_end = digit_run_end(s, b_end + 1);
    if tail_end < len {
        proof {
            lemma_digit_run(s@.skip(b_end as int + 1));
            assert(!is_digit(u[tail_end - (b_end + 1)]));
        }
        return None;
    }
    if b_end + 1 >= len {
        return None;
    }
    proof {
        lemma_digit_run(u);
        assert(forall|k: int| 0 <= k < u.len() ==> is_digit(u[k]));
        assert(forall|k: int| q <= k < a_end ==> is_digit(s@[k])) by {
            lemma_digit_run(rest);
            assert(forall|k: int| 0 <= k < digit_run(rest) ==> is_digit(rest[k]));
            assert(forall|k: int| q <= k < a_end ==> rest[k - q] == s@[k]);
        }
        assert(forall|k: int| a_end + 1 <= k < b_end ==> is_digit(s@[k])) by {
            lemma_digit_run(t);
            assert(forall|k: int| 0 <= k < digit_run(t) ==> is_digit(t[k]));
            assert(forall|k: int| a_end + 1 <= k < b_end ==> t[k - (a_end + 1)] == s@[k]);
        }
        assert(forall|k: int| b_end + 1 <= k < len ==> is_digit(s@[k])) by {
            assert(forall|k: int| b_end + 1 <= k < len ==> u[k - (b_end + 1)] == s@[k]);
        }
    }
    let major = parse_u8_run(s, q, a_end);
    let minor = parse_u8_run(s, a_end + 1, b_end);
    let micro = parse_u8_run(s, b_end + 1, len);
    proof {
        assert(rest.take(a_end - q) =~= s@.subrange(q as int, a_end as int));
        assert(t.take(b) =~= s@.subrange(a_end as int + 1, b_end as int));
        assert(u =~= s@.subrange(b_end as int + 1, len as int));
    }
    match (major, minor, micro) {
        (Some(ma), Some(mi), Some(mc)) => Some(
            Some(Version { major: ma, minor: mi, micro: mc }),
        ),
        _ => Some(None),
    }
}

} // verus!

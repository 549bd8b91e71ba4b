//! Small verified helpers over strings, used throughout the crate.

use vstd::prelude::*;
use vstd::string::StrSliceExecFns;
use vstd::string::StringExecFns;

verus! {

/// `pre` is an initial segment of `s`.
pub open spec fn is_prefix(pre: Seq<char>, s: Seq<char>) -> bool {
    pre.len() <= s.len() && s.subrange(0, pre.len() as int) == pre
}

/// Character-by-character equality of two string slices.
pub fn str_eq(a: &str, b: &str) -> (r: bool)
    ensures
        r == (a@ == b@),
{
    let alen = a.unicode_len();
    let blen = b.unicode_len();
    if alen != blen {
        return false;
    }
    let mut i: usize = 0;
    while i < alen
        invariant
            i <= alen,
            alen == a@.len(),
            alen == b@.len(),
            forall|k: int| 0 <= k < i ==> a@[k] == b@[k],
        decreases alen - i,
    {
        if a.get_char(i) != b.get_char(i) {
            return false;
        }
        i += 1;
    }
    proof {
        assert(a@ =~= b@);
    }
    true
}

/// Whether `s` starts with `pre`, compared character by character.
pub fn str_starts_with(s: &str, pre: &str) -> (r: bool)
    ensures
        r == is_prefix(pre@, s@),
{
    let plen = pre.unicode_len();
    let slen = s.unicode_len();
    if plen > slen {
        return false;
    }
    let mut i: usize = 0;
    while i < plen
        invariant
            i <= plen,
            plen == pre@.len(),
            slen == s@.len(),
            plen <= slen,
            forall|k: int| 0 <= k < i ==> s@[k] == pre@[k],
        decreases plen - i,
    {
        if s.get_char(i) != pre.get_char(i) {
            proof {
                let k = i as int;
                assert(s@.subrange(0, pre@.len() as int)[k] == s@[k]);
            }
            return false;
        }
        i += 1;
    }
    proof {
        assert(s@.subrange(0, pre@.len() as int) =~= pre@);
    }
    true
}

/// Concatenation of two string slices into an owned string.
pub fn concat_strs(a: &str, b: &str) -> (r: String)
    ensures
        r@ == a@ + b@,
{
    let mut s = a.to_owned();
    s.append(b);
    s
}

/// An ASCII whitespace character.
pub open spec fn is_ws_char(c: char) -> bool {
    c == ' ' || c == '\t' || c == '\n' || c == '\r' || c == '\u{b}' || c == '\u{c}'
}

/// Whether `c` is ASCII whitespace.
pub fn ws_char(c: char) -> (r: bool)
    ensures
        r == is_ws_char(c),
{
    c == ' ' || c == '\t' || c == '\n' || c == '\r' || c == '\u{b}' || c == '\u{c}'
}

/// An ASCII decimal digit.
pub open spec fn is_digit(c: char) -> bool {
    ('0' as u32) <= (c as u32) && (c as u32) <= ('9' as u32)
}

/// Whether `c` is an ASCII decimal digit.
pub fn digit_char(c: char) -> (r: bool)
    ensures
        r == is_digit(c),
{
    (c as u32) >= ('0' as u32) && (c as u32) <= ('9' as u32)
}

/// The numeric value of a string of decimal digits, most significant first.
pub open spec fn digits_val(s: Seq<char>) -> int
    decreases s.len(),
{
    if s.len() == 0 {
        0
    } else {
        digits_val(s.drop_last()) * 10 + ((s.last() as u32) - ('0' as u32))
    }
}

/// The index of the first newline, if the text holds one.
pub open spec fn first_nl(s: Seq<char>) -> Option<int>
    decreases s.len(),
{
    if s.len() == 0 {
        None
    } else if s[0] == '\n' {
        Some(0)
    } else {
        match first_nl(s.drop_first()) {
            Some(i) => Some(i + 1),
            None => None,
        }
    }
}

/// Where a first newline is found, nothing before it is one.
proof fn lemma_first_nl_at(s: Seq<char>, i: int)
    requires
        0 <= i < s.len(),
        s[i] == '\n',
        forall|k: int| 0 <= k < i ==> s[k] != '\n',
    ensures
        first_nl(s) == Some(i),
    decreases i,
{
    if i > 0 {
        assert(forall|k: int|
            0 <= k < s.drop_first().len() ==> #[trigger] s.drop_first()[k] == s[k + 1]);
        lemma_first_nl_at(s.drop_first(), i - 1);
    }
}

/// A text without a newline has no first one.
proof fn lemma_first_nl_none(s: Seq<char>)
    requires
        forall|k: int| 0 <= k < s.len() ==> s[k] != '\n',
    ensures
        first_nl(s) is None,
    decreases s.len(),
{
    if s.len() > 0 {
        assert(forall|k: int|
            0 <= k < s.drop_first().len() ==> #[trigger] s.drop_first()[k] == s[k + 1]);
        lemma_first_nl_none(s.drop_first());
    }
}

/// A line with a trailing carriage return loses it.
pub open spec fn strip_cr(l: Seq<char>) -> Seq<char> {
    if l.len() > 0 && l.last() == '\r' {
        l.drop_last()
    } else {
        l
    }
}

/// The lines of a text: split at each newline, a trailing carriage return
/// stripped from each line, and no empty line after a final newline.
pub open spec fn spec_lines(s: Seq<char>) -> Seq<Seq<char>>
    decreases s.len(),
{
    if s.len() == 0 {
        Seq::empty()
    } else {
        match first_nl(s) {
            Some(i) => if 0 <= i < s.len() {
                seq![strip_cr(s.take(i))] + spec_lines(s.skip(i + 1))
            } else {
                seq![strip_cr(s)]
            },
            None => seq![strip_cr(s)],
        }
    }
}

/// Splits a text into its lines.
pub fn split_lines(text: &str) -> (r: Vec<String>)
    ensures
        r.deep_view() == spec_lines(text@),
{
    let len = text.unicode_len();
    let mut out: Vec<String> = Vec::new();
    let mut p: usize = 0;
    proof {
        assert(out.deep_view() =~= Seq::<Seq<char>>::empty());
        assert(text@.skip(0) =~= text@);
    }
    while p < len
        invariant
            p <= len,
            len == text@.len(),
            spec_lines(text@) == out.deep_view() + spec_lines(text@.skip(p as int)),
        decreases len - p,
    {
        let ghost rest = text@.skip(p as int);
        let mut j: usize = p;
        while j < len && text.get_char(j) != '\n'
            invariant
                p <= j <= len,
                len == text@.len(),
                forall|k: int| p <= k < j ==> text@[k] != '\n',
            decreases len - j,
        {
            j += 1;
        }
        proof {
            assert(forall|k: int| 0 <= k < j - p ==> rest[k] == text@[k + p]);
            if j < len {
                lemma_first_nl_at(rest, j - p);
            } else {
                lemma_first_nl_none(rest);
            }
        }
        let end: usize = if j > p && text.get_char(j - 1) == '\r' {
            j - 1
        } else {
            j
        };
        let line = text.substring_char(p, end);
        proof {
            if j < len {
                assert(rest.take(j - p) =~= text@.subrange(p as int, j as int));
                assert(strip_cr(rest.take(j - p)) =~= line@);
                assert(rest.skip(j - p + 1) =~= text@.skip(j as int + 1));
            } else {
                assert(rest =~= text@.subrange(p as int, j as int));
                assert(strip_cr(rest) =~= line@);
            }
        }
        let ghost pre = out.deep_view();
        out.push(String::from_str(line));
        proof {
            assert(out.deep_view() =~= pre.push(line@));
            if j < len {
                assert(out.deep_view() + spec_lines(text@.skip(j as int + 1)) =~= pre + (seq![
                    strip_cr(rest.take(j - p)),
                ] + spec_lines(rest.skip(j - p + 1))));
            } else {
                assert(text@.skip(len as int) =~= Seq::<char>::empty());
                assert(spec_lines(text@.skip(len as int)) == Seq::<Seq<char>>::empty());
                assert(out.deep_view() + spec_lines(text@.skip(len as int)) =~= pre + seq![
                    strip_cr(rest),
                ]);
            }
        }
        if j < len {
            p = j + 1;
        } else {
            p = len;
        }
    }
    proof {
        assert(text@.skip(len as int) =~= Seq::<char>::empty());
        assert(spec_lines(text@.skip(len as int)) == Seq::<Seq<char>>::empty());
        assert(out.deep_view() + Seq::<Seq<char>>::empty() =~= out.deep_view());
    }
    out
}

/// How much leading whitespace the text carries.
pub open spec fn first_non_ws(s: Seq<char>) -> int
    decreases s.len(),
{
    if s.len() == 0 {
        0
    } else if is_ws_char(s[0]) {
        1 + first_non_ws(s.drop_first())
    } else {
        0
    }
}

/// Where the text's trailing whitespace begins.
pub open spec fn last_non_ws_end(s: Seq<char>) -> int
    decreases s.len(),
{
    if s.len() == 0 {
        0
    } else if is_ws_char(s.last()) {
        last_non_ws_end(s.drop_last())
    } else {
        s.len() as int
    }
}

/// The text with leading and trailing ASCII whitespace removed.
pub open spec fn spec_trim(s: Seq<char>) -> Seq<char> {
    if first_non_ws(s) >= last_non_ws_end(s) {
        Seq::empty()
    } else {
        s.subrange(first_non_ws(s), last_non_ws_end(s))
    }
}

/// The leading-whitespace count is an index into the text, and marks the
/// first non-whitespace character.
proof fn lemma_first_non_ws(s: Seq<char>)
    ensures
        0 <= first_non_ws(s) <= s.len(),
        forall|k: int| 0 <= k < first_non_ws(s) ==> is_ws_char(s[k]),
        first_non_ws(s) < s.len() ==> !is_ws_char(s[first_non_ws(s)]),
    decreases s.len(),
{
    if s.len() > 0 && is_ws_char(s[0]) {
        lemma_first_non_ws(s.drop_first());
        assert forall|k: int| 0 <= k < first_non_ws(s) implies is_ws_char(s[k]) by {
            if k >= 1 {
                assert(s.drop_first()[k - 1] == s[k]);
            }
        }
        if first_non_ws(s) < s.len() {
            assert(s.drop_first()[first_non_ws(s) - 1] == s[first_non_ws(s)]);
        }
    }
}

/// The trailing-whitespace start is an index into the text, and everything
/// from it on is whitespace, with a non-whitespace character just before it.
proof fn lemma_last_non_ws_end(s: Seq<char>)
    ensures
        0 <= last_non_ws_end(s) <= s.len(),
        forall|k: int| last_non_ws_end(s) <= k < s.len() ==> is_ws_char(s[k]),
        last_non_ws_end(s) > 0 ==> !is_ws_char(s[last_non_ws_end(s) - 1]),
    decreases s.len(),
{
    if s.len() > 0 && is_ws_char(s.last()) {
        lemma_last_non_ws_end(s.drop_last());
        assert forall|k: int| last_non_ws_end(s) <= k < s.len() implies is_ws_char(s[k]) by {
            if k < s.len() - 1 {
                assert(s.drop_last()[k] == s[k]);
            }
        }
        if last_non_ws_end(s) > 0 {
            assert(s.drop_last()[last_non_ws_end(s) - 1] == s[last_non_ws_end(s) - 1]);
        }
    }
}

/// How long the non-whitespace run at the front of the text is.
pub open spec fn first_ws(s: Seq<char>) -> int
    decreases s.len(),
{
    if s.len() == 0 {
        0
    } else if !is_ws_char(s[0]) {
        1 + first_ws(s.drop_first())
    } else {
        0
    }
}

/// The leading non-whitespace run is one, ended by whitespace.
proof fn lemma_first_ws(s: Seq<char>)
    ensures
        0 <= first_ws(s) <= s.len(),
        forall|k: int| 0 <= k < first_ws(s) ==> !is_ws_char(s[k]),
        first_ws(s) < s.len() ==> is_ws_char(s[first_ws(s)]),
    decreases s.len(),
{
    if s.len() > 0 && !is_ws_char(s[0]) {
        lemma_first_ws(s.drop_first());
        assert forall|k: int| 0 <= k < first_ws(s) implies !is_ws_char(s[k]) by {
            if k >= 1 {
                assert(s.drop_first()[k - 1] == s[k]);
            }
        }
        if first_ws(s) < s.len() {
            assert(s.drop_first()[first_ws(s) - 1] == s[first_ws(s)]);
        }
    }
}

/// The position where the whitespace run starting at `from` ends.
pub fn scan_ws_end(s: &str, from: usize) -> (r: usize)
    requires
        from <= s@.len(),
    ensures
        from <= r <= s@.len(),
        r - from == first_non_ws(s@.skip(from as int)),
{
    let len = s.unicode_len();
    let mut a: usize = from;
    while a < len && ws_char(s.get_char(a))
        invariant
            from <= a <= len,
            len == s@.len(),
            forall|k: int| from <= k < a ==> is_ws_char(s@[k]),
        decreases len - a,
    {
        a += 1;
    }
    proof {
        let rest = s@.skip(from as int);
        lemma_first_non_ws(rest);
        assert(forall|k: int| 0 <= k < rest.len() ==> rest[k] == s@[k + from]);
        if (a - from) < first_non_ws(rest) {
            assert(is_ws_char(rest[a - from]));
        }
        if first_non_ws(rest) < (a - from) {
            assert(is_ws_char(rest[first_non_ws(rest)]));
        }
    }
    a
}

/// The position where the non-whitespace run starting at `from` ends.
pub fn scan_token_end(s: &str, from: usize) -> (r: usize)
    requires
        from <= s@.len(),
    ensures
        from <= r <= s@.len(),
        r - from == first_ws(s@.skip(from as int)),
{
    let len = s.unicode_len();
    let mut a: usize = from;
    while a < len && !ws_char(s.get_char(a))
        invariant
            from <= a <= len,
            len == s@.len(),
            forall|k: int| from <= k < a ==> !is_ws_char(s@[k]),
        decreases len - a,
    {
        a += 1;
    }
    proof {
        let rest = s@.skip(from as int);
        lemma_first_ws(rest);
        assert(forall|k: int| 0 <= k < rest.len() ==> rest[k] == s@[k + from]);
        if (a - from) < first_ws(rest) {
            assert(!is_ws_char(rest[a - from]));
        }
        if first_ws(rest) < (a - from) {
            assert(!is_ws_char(rest[first_ws(rest)]));
        }
    }
    a
}

/// Trims leading and trailing ASCII whitespace.
pub fn trim_ws(s: &str) -> (r: String)
    ensures
        r@ == spec_trim(s@),
{
    let len = s.unicode_len();
    proof {
        assert(s@.skip(0) =~= s@);
    }
    let a = scan_ws_end(s, 0);
    let mut b: usize = len;
    while b > 0 && ws_char(s.get_char(b - 1))
        invariant
            0 <= b <= len,
            len == s@.len(),
            forall|k: int| b <= k < len ==> is_ws_char(s@[k]),
        decreases b,
    {
        b -= 1;
    }
    proof {
        lemma_last_non_ws_end(s@);
        if (b as int) < last_non_ws_end(s@) {
            assert(is_ws_char(s@[b as int]));
        }
        if last_non_ws_end(s@) < (b as int) {
            assert(is_ws_char(s@[last_non_ws_end(s@)]));
        }
        lemma_first_non_ws(s@);
    }
    if a >= b {
        String::new()
    } else {
        let t = s.substring_char(a, b);
        proof {
            assert(t@ =~= spec_trim(s@));
        }
        String::from_str(t)
    }
}

/// Unix-style path join: an absolute right side replaces the left; otherwise
/// the two are joined with exactly one separator between them.
pub open spec fn spec_path_join(a: Seq<char>, b: Seq<char>) -> Seq<char> {
    if b.len() > 0 && b[0] == '/' {
        b
    } else if a.len() == 0 {
        b
    } else if a[a.len() - 1] == '/' {
        a + b
    } else {
        a + "/"@ + b
    }
}

/// Joins two path fragments, Unix-style.
pub fn path_join(a: &str, b: &str) -> (r: String)
    ensures
        r@ == spec_path_join(a@, b@),
{
    proof {
        reveal_strlit("/");
    }
    let blen = b.unicode_len();
    if blen > 0 && b.get_char(0) == '/' {
        return b.to_owned();
    }
    let alen = a.unicode_len();
    if alen == 0 {
        return b.to_owned();
    }
    if a.get_char(alen - 1) == '/' {
        concat_strs(a, b)
    } else {
        let mut s = a.to_owned();
        s.append("/");
        s.append(b);
        s
    }
}

} // verus!

//! Character-level string utilities with exact specifications.
//!
//! Module names, file paths and node texts are plain strings; every routine
//! here is specified directly over the `Seq<char>` view of its arguments.

use vstd::prelude::*;
use vstd::string::StrSliceExecFns;
use vstd::string::StringExecFns;

verus! {

/// The view of every string in a vector, in order.
pub open spec fn views_of(v: Seq<String>) -> Seq<Seq<char>> {
    v.map_values(|x: String| x@)
}

/// Index of the first occurrence of `c` in `s`, if any.
pub open spec fn find_char(s: Seq<char>, c: char) -> Option<int>
    decreases s.len(),
{
    if s.len() == 0 {
        None
    } else if s[0] == c {
        Some(0int)
    } else {
        match find_char(s.drop_first(), c) {
            None => None,
            Some(i) => Some(i + 1),
        }
    }
}

/// Index of the last occurrence of `c` in `s`, if any.
pub open spec fn rfind_char(s: Seq<char>, c: char) -> Option<int>
    decreases s.len(),
{
    if s.len() == 0 {
        None
    } else if s[s.len() - 1] == c {
        Some(s.len() - 1)
    } else {
        rfind_char(s.drop_last(), c)
    }
}

/// The pieces of `s` between occurrences of the separator `c`.
/// A string with no separator is a single piece; each separator ends a piece,
/// so `n` separators give `n + 1` pieces, some possibly empty.
pub open spec fn split_char_seq(s: Seq<char>, c: char) -> Seq<Seq<char>>
    decreases s.len(),
{
    match find_char(s, c) {
        None => seq![s],
        Some(i) => if 0 <= i < s.len() {
            seq![s.take(i)] + split_char_seq(s.skip(i + 1), c)
        } else {
            seq![s]
        },
    }
}

/// The pieces joined with the separator `sep` between consecutive pieces.
pub open spec fn join_str_seq(parts: Seq<Seq<char>>, sep: Seq<char>) -> Seq<char>
    decreases parts.len(),
{
    if parts.len() == 0 {
        Seq::empty()
    } else if parts.len() == 1 {
        parts[0]
    } else {
        join_str_seq(parts.drop_last(), sep) + sep + parts.last()
    }
}

proof fn lemma_find_char_none(s: Seq<char>, c: char)
    requires
        forall|j: int| 0 <= j < s.len() ==> s[j] != c,
    ensures
        find_char(s, c) is None,
    decreases s.len(),
{
    if s.len() > 0 {
        lemma_find_char_none(s.drop_first(), c);
    }
}

proof fn lemma_find_char_at(s: Seq<char>, c: char, i: int)
    requires
        0 <= i < s.len(),
        s[i] == c,
        forall|j: int| 0 <= j < i ==> s[j] != c,
    ensures
        find_char(s, c) == Some(i),
    decreases i,
{
    if i > 0 {
        lemma_find_char_at(s.drop_first(), c, i - 1);
    }
}

/// Splitting a string whose first separator stands at `i` yields the prefix
/// before `i` followed by the pieces of the rest.
proof fn lemma_split_char_step(s: Seq<char>, c: char, i: int)
    requires
        0 <= i < s.len(),
        s[i] == c,
        forall|j: int| 0 <= j < i ==> s[j] != c,
    ensures
        split_char_seq(s, c) == seq![s.take(i)] + split_char_seq(s.skip(i + 1), c),
{
    lemma_find_char_at(s, c, i);
}

proof fn lemma_split_char_none(s: Seq<char>, c: char)
    requires
        forall|j: int| 0 <= j < s.len() ==> s[j] != c,
    ensures
        split_char_seq(s, c) == seq![s],
{
    lemma_find_char_none(s, c);
}

/// The whitespace characters recognised when trimming and tokenising.
pub open spec fn is_space_char(c: char) -> bool {
    c == ' ' || c == '\t' || c == '\r' || c == '\n'
}

/// How many whitespace characters `s` begins with.
pub open spec fn trim_start_count(s: Seq<char>) -> int
    decreases s.len(),
{
    if s.len() == 0 {
        0
    } else if is_space_char(s[0]) {
        1 + trim_start_count(s.drop_first())
    } else {
        0
    }
}

/// How many whitespace characters `s` ends with.
pub open spec fn trim_end_count(s: Seq<char>) -> int
    decreases s.len(),
{
    if s.len() == 0 {
        0
    } else if is_space_char(s[s.len() - 1]) {
        1 + trim_end_count(s.drop_last())
    } else {
        0
    }
}

/// `s` with leading and trailing whitespace removed.
pub open spec fn trim_seq(s: Seq<char>) -> Seq<char> {
    let a = trim_start_count(s);
    let b = trim_end_count(s);
    if a + b <= s.len() {
        s.subrange(a, s.len() - b)
    } else {
        Seq::empty()
    }
}

/// `s` with every trailing occurrence of `c` removed.
pub open spec fn strip_trailing(s: Seq<char>, c: char) -> Seq<char>
    decreases s.len(),
{
    if s.len() > 0 && s[s.len() - 1] == c {
        strip_trailing(s.drop_last(), c)
    } else {
        s
    }
}

/// A line with a trailing carriage return removed.
pub open spec fn strip_cr(l: Seq<char>) -> Seq<char> {
    if l.len() > 0 && l[l.len() - 1] == '\r' {
        l.drop_last()
    } else {
        l
    }
}

/// The lines of `s`: pieces between newlines, each with a trailing carriage
/// return removed, and without a final empty piece after a terminating newline.
pub open spec fn lines_seq(s: Seq<char>) -> Seq<Seq<char>> {
    if s.len() == 0 {
        Seq::empty()
    } else {
        let parts = split_char_seq(s, '\n');
        let kept = if parts.last().len() == 0 {
            parts.drop_last()
        } else {
            parts
        };
        kept.map_values(|l: Seq<char>| strip_cr(l))
    }
}

/// The length of the whitespace-free token `s` begins with.
pub open spec fn token_len(s: Seq<char>) -> int
    decreases s.len(),
{
    if s.len() == 0 {
        0
    } else if is_space_char(s[0]) {
        0
    } else {
        1 + token_len(s.drop_first())
    }
}

/// The maximal whitespace-free tokens of `s`, in order, none empty.
pub open spec fn split_ws_seq(s: Seq<char>) -> Seq<Seq<char>>
    decreases s.len(),
{
    if s.len() == 0 {
        Seq::empty()
    } else if is_space_char(s[0]) {
        split_ws_seq(s.drop_first())
    } else {
        let t = token_len(s);
        if 1 <= t <= s.len() {
            seq![s.take(t)] + split_ws_seq(s.skip(t))
        } else {
            seq![s]
        }
    }
}

/// Equality of two string slices, decided character by character.
pub fn str_eq(a: &str, b: &str) -> (r: bool)
    ensures
        r == (a@ == b@),
{
    let alen = a.unicode_len();
    let blen = b.unicode_len();
    if alen != blen {
        assert(a@ != b@) by {
            assert(a@.len() != b@.len());
        }
        return false;
    }
    let mut i: usize = 0;
    while i < alen
        invariant
            i <= alen,
            alen == a@.len(),
            alen == b@.len(),
            forall|j: int| 0 <= j < i ==> a@[j] == b@[j],
        decreases alen - i,
    {
        if a.get_char(i) != b.get_char(i) {
            return false;
        }
        i += 1;
    }
    proof {
        assert(a@ =~= b@);
    }
    true
}

/// Whether `p` is a prefix of `s`.
pub fn str_starts_with(s: &str, p: &str) -> (r: bool)
    ensures
        r == p@.is_prefix_of(s@),
{
    let slen = s.unicode_len();
    let plen = p.unicode_len();
    if plen > slen {
        return false;
    }
    let mut i: usize = 0;
    while i < plen
        invariant
            i <= plen,
            plen <= slen,
            slen == s@.len(),
            plen == p@.len(),
            forall|j: int| 0 <= j < i ==> s@[j] == p@[j],
        decreases plen - i,
    {
        if s.get_char(i) != p.get_char(i) {
            assert(!p@.is_prefix_of(s@)) by {
                assert(s@.subrange(0, p@.len() as int)[i as int] != p@[i as int]);
            }
            return false;
        }
        i += 1;
    }
    proof {
        assert(s@.subrange(0, p@.len() as int) =~= p@);
    }
    true
}

/// Whether `p` is a suffix of `s`.
pub fn str_ends_with(s: &str, p: &str) -> (r: bool)
    ensures
        r == p@.is_suffix_of(s@),
{
    let slen = s.unicode_len();
    let plen = p.unicode_len();
    if plen > slen {
        return false;
    }
    let off: usize = slen - plen;
    let mut i: usize = 0;
    while i < plen
        invariant
            i <= plen,
            plen <= slen,
            slen == s@.len(),
            plen == p@.len(),
            off == slen - plen,
            forall|j: int| 0 <= j < i ==> s@[off + j] == p@[j],
        decreases plen - i,
    {
        if s.get_char(off + i) != p.get_char(i) {
            assert(!p@.is_suffix_of(s@)) by {
                assert(s@.subrange(off as int, s@.len() as int)[i as int] != p@[i as int]);
            }
            return false;
        }
        i += 1;
    }
    proof {
        assert(s@.subrange(off as int, s@.len() as int) =~= p@);
    }
    true
}

/// The pieces of `s` between occurrences of `c`, as owned strings.
pub fn split_char(s: &str, c: char) -> (r: Vec<String>)
    ensures
        views_of(r@) == split_char_seq(s@, c),
{
    let len = s.unicode_len();
    let mut r: Vec<String> = Vec::new();
    let mut start: usize = 0;
    let mut i: usize = 0;
    proof {
        assert(s@.skip(0) =~= s@);
        assert(views_of(r@) + split_char_seq(s@, c) =~= split_char_seq(s@, c));
    }
    while i < len
        invariant
            start <= i <= len,
            len == s@.len(),
            split_char_seq(s@, c) == views_of(r@) + split_char_seq(
                s@.skip(start as int),
                c,
            ),
            forall|j: int| start <= j < i ==> s@[j] != c,
        decreases len - i,
    {
        if s.get_char(i) == c {
            let piece = s.substring_char(start, i).to_owned();
            proof {
                let rest = s@.skip(start as int);
                lemma_split_char_step(rest, c, i - start);
                assert(rest.take(i - start) =~= s@.subrange(start as int, i as int));
                assert(rest.skip(i - start + 1) =~= s@.skip(i + 1));
                assert(views_of(r@.push(piece)) =~= views_of(r@) + seq![piece@]);
                assert(views_of(r@) + (seq![piece@] + split_char_seq(s@.skip(i + 1), c))
                    =~= (views_of(r@) + seq![piece@]) + split_char_seq(s@.skip(i + 1), c));
            }
            r.push(piece);
            start = i + 1;
        }
        i += 1;
    }
    let piece = s.substring_char(start, len).to_owned();
    proof {
        let rest = s@.skip(start as int);
        lemma_split_char_none(rest, c);
        assert(rest =~= s@.subrange(start as int, len as int));
        assert(views_of(r@.push(piece)) =~= views_of(r@) + seq![piece@]);
    }
    r.push(piece);
    r
}

/// The strings of `parts`, joined with `sep` between consecutive entries.
pub fn join_str(parts: &Vec<String>, sep: &str) -> (r: String)
    ensures
        r@ == join_str_seq(views_of(parts@), sep@),
{
    let mut r = String::new();
    let mut k: usize = 0;
    while k < parts.len()
        invariant
            k <= parts@.len(),
            r@ == join_str_seq(views_of(parts@).take(k as int), sep@),
        decreases parts@.len() - k,
    {
        proof {
            let vs = views_of(parts@);
            assert(vs.take(k + 1).drop_last() =~= vs.take(k as int));
            assert(vs.take(k + 1).last() == vs[k as int]);
        }
        if k > 0 {
            r.append(sep);
        }
        r.append(parts[k].as_str());
        k += 1;
    }
    proof {
        assert(views_of(parts@).take(parts@.len() as int) =~= views_of(parts@));
    }
    r
}

/// The index of the last occurrence of `c` in `s`, if any.
pub fn rfind(s: &str, c: char) -> (r: Option<usize>)
    ensures
        match r {
            Some(i) => rfind_char(s@, c) == Some(i as int) && i < s@.len() && s@[i as int] == c,
            None => rfind_char(s@, c) is None,
        },
{
    let len = s.unicode_len();
    let mut j: usize = len;
    proof {
        assert(s@.take(len as int) =~= s@);
    }
    while j > 0
        invariant
            j <= len,
            len == s@.len(),
            rfind_char(s@, c) == rfind_char(s@.take(j as int), c),
            forall|m: int| j <= m < len ==> s@[m] != c,
        decreases j,
    {
        if s.get_char(j - 1) == c {
            proof {
                assert(s@.take(j as int)[j - 1] == s@[j - 1]);
            }
            return Some(j - 1);
        }
        proof {
            assert(s@.take(j as int).drop_last() =~= s@.take(j - 1));
            assert(s@.take(j as int)[j - 1] == s@[j - 1]);
        }
        j -= 1;
    }
    proof {
        assert(s@.take(0) =~= Seq::<char>::empty());
    }
    None
}

/// The first `n` strings of `v`, as owned strings.
pub fn prefix_strings(v: &Vec<String>, n: usize) -> (r: Vec<String>)
    requires
        n <= v@.len(),
    ensures
        views_of(r@) == views_of(v@).take(n as int),
{
    let mut r: Vec<String> = Vec::new();
    let mut i: usize = 0;
    proof {
        assert(views_of(r@) =~= views_of(v@).take(0));
    }
    while i < n
        invariant
            i <= n,
            n <= v@.len(),
            views_of(r@) == views_of(v@).take(i as int),
        decreases n - i,
    {
        let s = String::from_str(v[i].as_str());
        proof {
            assert(views_of(r@.push(s)) =~= views_of(r@).push(s@));
            assert(views_of(v@).take(i + 1) =~= views_of(v@).take(i as int).push(
                views_of(v@)[i as int],
            ));
            assert(views_of(v@)[i as int] == v@[i as int]@);
        }
        r.push(s);
        i += 1;
    }
    r
}

/// An owned copy of every string in `v`, in order.
pub fn clone_strings(v: &Vec<String>) -> (r: Vec<String>)
    ensures
        views_of(r@) == views_of(v@),
{
    let mut r: Vec<String> = Vec::new();
    let mut i: usize = 0;
    proof {
        assert(views_of(r@) =~= views_of(v@).take(0));
    }
    while i < v.len()
        invariant
            i <= v@.len(),
            views_of(r@) == views_of(v@).take(i as int),
        decreases v@.len() - i,
    {
        let s = String::from_str(v[i].as_str());
        proof {
            assert(views_of(r@.push(s)) =~= views_of(r@).push(s@));
            assert(views_of(v@).take(i + 1) =~= views_of(v@).take(i as int).push(
                views_of(v@)[i as int],
            ));
            assert(views_of(v@)[i as int] == v@[i as int]@);
        }
        r.push(s);
        i += 1;
    }
    proof {
        assert(views_of(v@).take(v@.len() as int) =~= views_of(v@));
    }
    r
}

/// Whether some string of `v` equals `s`.
pub fn contains_str(v: &Vec<String>, s: &str) -> (r: bool)
    ensures
        r == views_of(v@).contains(s@),
{
    let mut i: usize = 0;
    while i < v.len()
        invariant
            i <= v@.len(),
            forall|j: int| 0 <= j < i ==> views_of(v@)[j] != s@,
        decreases v@.len() - i,
    {
        proof {
            assert(views_of(v@)[i as int] == v@[i as int]@);
        }
        if str_eq(v[i].as_str(), s) {
            assert(views_of(v@).contains(s@)) by {
                assert(views_of(v@)[i as int] == s@);
            }
            return true;
        }
        i += 1;
    }
    proof {
        if views_of(v@).contains(s@) {
            let j = choose|j: int| 0 <= j < views_of(v@).len() && views_of(v@)[j] == s@;
            assert(views_of(v@)[j] != s@);
        }
    }
    false
}

/// Whether `c` counts as whitespace here.
pub fn is_space(c: char) -> (r: bool)
    ensures
        r == is_space_char(c),
{
    c == ' ' || c == '\t' || c == '\r' || c == '\n'
}

proof fn lemma_trim_start_count_at(s: Seq<char>, i: int)
    requires
        0 <= i <= s.len(),
        forall|j: int| 0 <= j < i ==> is_space_char(s[j]),
        i < s.len() ==> !is_space_char(s[i]),
    ensures
        trim_start_count(s) == i,
    decreases i,
{
    if i > 0 {
        lemma_trim_start_count_at(s.drop_first(), i - 1);
    }
}

proof fn lemma_trim_end_count_at(s: Seq<char>, b: int)
    requires
        0 <= b <= s.len(),
        forall|j: int| s.len() - b <= j < s.len() ==> is_space_char(s[j]),
        b < s.len() ==> !is_space_char(s[s.len() - b - 1]),
    ensures
        trim_end_count(s) == b,
    decreases b,
{
    if b > 0 {
        let d = s.drop_last();
        assert(forall|j: int| d.len() - (b - 1) <= j < d.len() ==> d[j] == s[j]);
        lemma_trim_end_count_at(d, b - 1);
    }
}

/// `s` with leading and trailing whitespace removed.
pub fn trim(s: &str) -> (r: String)
    ensures
        r@ == trim_seq(s@),
{
    let len = s.unicode_len();
    let mut a: usize = 0;
    while a < len && is_space(s.get_char(a))
        invariant
            a <= len,
            len == s@.len(),
            forall|j: int| 0 <= j < a ==> is_space_char(s@[j]),
        decreases len - a,
    {
        a += 1;
    }
    if a == len {
        proof {
            lemma_trim_start_count_at(s@, len as int);
            lemma_trim_end_count_at(s@, len as int);
            if len == 0 {
                assert(s@.subrange(0, 0) =~= Seq::<char>::empty());
            }
        }
        return String::new();
    }
    let mut b: usize = 0;
    while b < len && is_space(s.get_char(len - 1 - b))
        invariant
            b <= len,
            len == s@.len(),
            forall|j: int| len - b <= j < len ==> is_space_char(s@[j]),
        decreases len - b,
    {
        b += 1;
    }
    proof {
        lemma_trim_start_count_at(s@, a as int);
        lemma_trim_end_count_at(s@, b as int);
    }
    s.substring_char(a, len - b).to_owned()
}

proof fn lemma_strip_trailing_at(s: Seq<char>, k: int)
    requires
        0 <= k <= s.len(),
        forall|j: int| k <= j < s.len() ==> #[trigger] s[j] == s[s.len() - 1],
        k < s.len() ==> (k == 0 || s[k - 1] != s[s.len() - 1]),
    ensures
        k < s.len() ==> strip_trailing(s, s[s.len() - 1]) == s.take(k),
    decreases s.len() - k,
{
    if k < s.len() {
        let c = s[s.len() - 1];
        let d = s.drop_last();
        if k < d.len() {
            assert(d[d.len() - 1] == c);
            assert(forall|j: int| k <= j < d.len() ==> #[trigger] d[j] == d[d.len() - 1]);
            assert(k < d.len() ==> (k == 0 || d[k - 1] != d[d.len() - 1]));
            lemma_strip_trailing_at(d, k);
            assert(d.take(k) =~= s.take(k));
        } else {
            assert(strip_trailing(d, c) == d);
            assert(d =~= s.take(k));
        }
    }
}

/// `s` with every trailing occurrence of `c` removed.
pub fn trim_end_matches_char(s: &str, c: char) -> (r: String)
    ensures
        r@ == strip_trailing(s@, c),
{
    let len = s.unicode_len();
    let mut k: usize = len;
    while k > 0 && s.get_char(k - 1) == c
        invariant
            k <= len,
            len == s@.len(),
            forall|j: int| k <= j < len ==> s@[j] == c,
        decreases k,
    {
        k -= 1;
    }
    proof {
        if k < len {
            assert(s@[len - 1] == c);
            lemma_strip_trailing_at(s@, k as int);
        } else {
            lemma_strip_no_trailing(s@, c);
            assert(s@.take(len as int) =~= s@);
        }
    }
    s.substring_char(0, k).to_owned()
}

proof fn lemma_strip_no_trailing(s: Seq<char>, c: char)
    requires
        s.len() > 0 ==> s[s.len() - 1] != c,
    ensures
        strip_trailing(s, c) == s,
{
}

pub proof fn lemma_split_len(s: Seq<char>, c: char)
    ensures
        split_char_seq(s, c).len() >= 1,
    decreases s.len(),
{
    match find_char(s, c) {
        None => {},
        Some(i) => {
            if 0 <= i < s.len() {
                lemma_split_len(s.skip(i + 1), c);
            }
        },
    }
}

/// The lines of `s`, as owned strings.
pub fn lines(s: &str) -> (r: Vec<String>)
    ensures
        views_of(r@) == lines_seq(s@),
{
    let mut r: Vec<String> = Vec::new();
    if s.unicode_len() == 0 {
        proof {
            assert(views_of(r@) =~= lines_seq(s@));
        }
        return r;
    }
    let mut parts = split_char(s, '\n');
    proof {
        lemma_split_len(s@, '\n');
    }
    let plen = parts.len();
    let ghost kept = if views_of(parts@).last().len() == 0 {
        views_of(parts@).drop_last()
    } else {
        views_of(parts@)
    };
    if parts[plen - 1].as_str().unicode_len() == 0 {
        parts.pop();
        proof {
            assert(views_of(parts@) =~= kept);
        }
    }
    let mut k: usize = 0;
    while k < parts.len()
        invariant
            k <= parts@.len(),
            views_of(parts@) == kept,
            views_of(r@) =~= kept.map_values(|l: Seq<char>| strip_cr(l)).take(k as int),
        decreases parts@.len() - k,
    {
        let line = &parts[k];
        let llen = line.as_str().unicode_len();
        let stripped = if llen > 0 && line.as_str().get_char(llen - 1) == '\r' {
            line.as_str().substring_char(0, llen - 1).to_owned()
        } else {
            line.clone()
        };
        proof {
            assert(stripped@ == strip_cr(kept[k as int])) by {
                if kept[k as int].len() > 0 && kept[k as int][kept[k as int].len() - 1] == '\r' {
                    assert(line@.subrange(0, line@.len() - 1) =~= kept[k as int].drop_last());
                }
            }
            let mapped = kept.map_values(|l: Seq<char>| strip_cr(l));
            assert(views_of(r@.push(stripped)) =~= views_of(r@).push(stripped@));
            assert(mapped.take(k + 1) =~= mapped.take(k as int).push(mapped[k as int]));
        }
        r.push(stripped);
        k += 1;
    }
    proof {
        let mapped = kept.map_values(|l: Seq<char>| strip_cr(l));
        assert(mapped.take(parts@.len() as int) =~= mapped);
    }
    r
}

proof fn lemma_token_len_at(s: Seq<char>, t: int)
    requires
        0 <= t <= s.len(),
        forall|j: int| 0 <= j < t ==> !is_space_char(s[j]),
        t < s.len() ==> is_space_char(s[t]),
    ensures
        token_len(s) == t,
    decreases t,
{
    if t > 0 {
        lemma_token_len_at(s.drop_first(), t - 1);
    }
}

/// The maximal whitespace-free tokens of `s`, in order.
pub fn split_whitespace(s: &str) -> (r: Vec<String>)
    ensures
        views_of(r@) == split_ws_seq(s@),
{
    let len = s.unicode_len();
    let mut r: Vec<String> = Vec::new();
    let mut i: usize = 0;
    proof {
        assert(s@.skip(0) =~= s@);
        assert(views_of(r@) + split_ws_seq(s@) =~= split_ws_seq(s@));
    }
    while i < len
        invariant
            i <= len,
            len == s@.len(),
            split_ws_seq(s@) == views_of(r@) + split_ws_seq(s@.skip(i as int)),
        decreases len - i,
    {
        if is_space(s.get_char(i)) {
            proof {
                assert(s@.skip(i as int).drop_first() =~= s@.skip(i + 1));
            }
            i += 1;
        } else {
            let mut j: usize = i + 1;
            while j < len && !is_space(s.get_char(j))
                invariant
                    i < j <= len,
                    len == s@.len(),
                    forall|k: int| i <= k < j ==> !is_space_char(s@[k]),
                decreases len - j,
            {
                j += 1;
            }
            let token = s.substring_char(i, j).to_owned();
            proof {
                let rest = s@.skip(i as int);
                assert(forall|k: int| 0 <= k < j - i ==> rest[k] == s@[i + k]);
                lemma_token_len_at(rest, j - i);
                assert(rest.take(j - i) =~= s@.subrange(i as int, j as int));
                assert(rest.skip(j - i) =~= s@.skip(j as int));
                assert(views_of(r@.push(token)) =~= views_of(r@) + seq![token@]);
                assert(views_of(r@) + (seq![token@] + split_ws_seq(s@.skip(j as int)))
                    =~= (views_of(r@) + seq![token@]) + split_ws_seq(s@.skip(j as int)));
            }
            r.push(token);
            i = j;
        }
    }
    proof {
        assert(s@.skip(len as int) =~= Seq::<char>::empty());
        assert(views_of(r@) + split_ws_seq(Seq::<char>::empty()) =~= views_of(r@));
    }
    r
}

} // verus!

//! Key-terms files: one term per line, `#` comments and blank lines
//! skipped. The terms steer the recogniser through its initial prompt.

use vstd::prelude::*;
use crate::text::{chars_of, is_whitespace, is_ws, join, lemma_join_push, push_str, string_of};

verus! {

/// `s` cut at every line break (a trailing break leaves an empty last piece).
pub open spec fn split_lines(s: Seq<char>) -> Seq<Seq<char>>
    decreases s.len(),
{
    if s.len() == 0 {
        seq![seq![]]
    } else {
        let p = split_lines(s.drop_last());
        if s.last() == '\n' {
            p.push(seq![])
        } else {
            p.update(p.len() - 1, p.last().push(s.last()))
        }
    }
}

pub proof fn lemma_split_lines_nonempty(s: Seq<char>)
    ensures
        split_lines(s).len() >= 1,
    decreases s.len(),
{
    if s.len() > 0 {
        lemma_split_lines_nonempty(s.drop_last());
    }
}

/// `s` without leading whitespace.
pub open spec fn trim_start(s: Seq<char>) -> Seq<char>
    decreases s.len(),
{
    if s.len() > 0 && is_ws(s[0]) {
        trim_start(s.drop_first())
    } else {
        s
    }
}

/// `s` without trailing whitespace.
pub open spec fn trim_end(s: Seq<char>) -> Seq<char>
    decreases s.len(),
{
    if s.len() > 0 && is_ws(s.last()) {
        trim_end(s.drop_last())
    } else {
        s
    }
}

/// `s` without whitespace at either end, as `str::trim` gives it.
pub open spec fn trim(s: Seq<char>) -> Seq<char> {
    trim_end(trim_start(s))
}

/// A trimmed line is a term when it is not empty and not a `#` comment.
pub open spec fn is_term(t: Seq<char>) -> bool {
    t.len() > 0 && t[0] != '#'
}

/// The terms among `lines`, trimmed, in order.
pub open spec fn terms_of(lines: Seq<Seq<char>>) -> Seq<Seq<char>>
    decreases lines.len(),
{
    if lines.len() == 0 {
        seq![]
    } else {
        let r = terms_of(lines.drop_last());
        let t = trim(lines.last());
        if is_term(t) {
            r.push(t)
        } else {
            r
        }
    }
}

/// The terms of a terms file. Splitting at `\n` and trimming gives what
/// `str::lines` followed by `trim` gives, since `\r` is whitespace and the
/// empty piece after a final line break is dropped as blank.
pub open spec fn file_terms(content: Seq<char>) -> Seq<Seq<char>> {
    terms_of(split_lines(content))
}

/// The texts of a list of strings.
pub open spec fn string_views(v: Seq<String>) -> Seq<Seq<char>> {
    v.map_values(|x: String| x@)
}

proof fn lemma_trim_start_skip(s: Seq<char>, k: int)
    requires
        0 <= k <= s.len(),
        forall|j: int| 0 <= j < k ==> is_ws(s[j]),
    ensures
        trim_start(s) == trim_start(s.skip(k)),
    decreases k,
{
    if k > 0 {
        assert(s.drop_first().skip(k - 1) == s.skip(k));
        lemma_trim_start_skip(s.drop_first(), k - 1);
    } else {
        assert(s.skip(0) == s);
    }
}

proof fn lemma_trim_end_take(s: Seq<char>, k: int)
    requires
        0 <= k <= s.len(),
        forall|j: int| k <= j < s.len() ==> is_ws(s[j]),
    ensures
        trim_end(s) == trim_end(s.take(k)),
    decreases s.len() - k,
{
    if k < s.len() {
        assert(s.drop_last().take(k) == s.take(k));
        lemma_trim_end_take(s.drop_last(), k);
    } else {
        assert(s.take(k) == s);
    }
}

/// The characters of `line` without whitespace at either end.
fn trimmed(line: &Vec<char>) -> (t: Vec<char>)
    ensures
        t@ == trim(line@),
{
    let mut a: usize = 0;
    while a < line.len() && is_whitespace(line[a])
        invariant
            a <= line.len(),
            forall|j: int| 0 <= j < a ==> is_ws(line@[j]),
        decreases line.len() - a,
    {
        a += 1;
    }
    let mut b: usize = line.len();
    while b > a && is_whitespace(line[b - 1])
        invariant
            a <= b <= line.len(),
            forall|j: int| b <= j < line.len() ==> is_ws(line@[j]),
        decreases b,
    {
        b -= 1;
    }
    let mut t: Vec<char> = Vec::new();
    let mut j: usize = a;
    while j < b
        invariant
            a <= j <= b,
            b <= line.len(),
            t@ == line@.subrange(a as int, j as int),
        decreases b - j,
    {
        t.push(line[j]);
        j += 1;
    }
    proof {
        let s = line@;
        lemma_trim_start_skip(s, a as int);
        let u = s.skip(a as int);
        assert(u.len() == 0 || !is_ws(u[0]));
        assert(trim_start(s) == u);
        lemma_trim_end_take(u, (b - a) as int);
        let w = u.take((b - a) as int);
        assert(w.len() == 0 || !is_ws(w.last()));
        assert(w == s.subrange(a as int, b as int));
    }
    t
}

/// Adds the line's term, if it has one, to `out`.
fn take_line(out: &mut Vec<String>, line: &Vec<char>)
    ensures
        string_views(final(out)@) == if is_term(trim(line@)) {
            string_views(old(out)@).push(trim(line@))
        } else {
            string_views(old(out)@)
        },
{
    let t = trimmed(line);
    if t.len() > 0 && t[0] != '#' {
        let ghost before = string_views(out@);
        out.push(string_of(&t));
        assert(string_views(out@) == before.push(t@));
    }
}

/// The key terms of a terms file: each line trimmed, blank lines and lines
/// starting with `#` left out.
pub fn parse_terms(content: &str) -> (r: Vec<String>)
    ensures
        string_views(r@) == file_terms(content@),
{
    let mut out: Vec<String> = Vec::new();
    let mut cur: Vec<char> = Vec::new();
    for c in it: content.chars()
        invariant
            it.seq() == content@,
            split_lines(content@.take(it.index() as int)).len() >= 1,
            cur@ == split_lines(content@.take(it.index() as int)).last(),
            string_views(out@) == terms_of(
                split_lines(content@.take(it.index() as int)).drop_last(),
            ),
    {
        let ghost i = it.index();
        let ghost pre = content@.take(i as int);
        let ghost cur_s = content@.take(i + 1);
        assert(cur_s.drop_last() == pre);
        assert(cur_s.last() == c);
        let ghost p = split_lines(pre);
        if c == '\n' {
            take_line(&mut out, &cur);
            cur = Vec::new();
            proof {
                assert(split_lines(cur_s) == p.push(seq![]));
                assert(p.push(seq![]).drop_last() == p);
                assert(p == p.drop_last().push(p.last()));
            }
        } else {
            cur.push(c);
            proof {
                let q = p.update(p.len() - 1, p.last().push(c));
                assert(split_lines(cur_s) == q);
                assert(q.drop_last() == p.drop_last());
            }
        }
    }
    take_line(&mut out, &cur);
    proof {
        let p = split_lines(content@.take(content@.len() as int));
        assert(content@.take(content@.len() as int) == content@);
        assert(p == p.drop_last().push(p.last()));
    }
    out
}

/// The initial prompt made of `terms`: `None` when there are none,
/// otherwise the terms separated by `", "`.
pub fn initial_prompt_text(terms: &Vec<String>) -> (r: Option<String>)
    ensures
        r is None <==> terms@.len() == 0,
        r matches Some(p) ==> p@ == join(string_views(terms@), ", "@),
{
    if terms.len() == 0 {
        return None;
    }
    let ghost tv = string_views(terms@);
    let mut out: Vec<char> = Vec::new();
    let mut i: usize = 0;
    while i < terms.len()
        invariant
            i <= terms.len(),
            tv == string_views(terms@),
            out@ == join(tv.take(i as int), ", "@),
        decreases terms.len() - i,
    {
        if i > 0 {
            push_str(&mut out, ", ");
        }
        push_str(&mut out, terms[i].as_str());
        proof {
            assert(tv.take(i + 1) == tv.take(i as int).push(tv[i as int]));
            lemma_join_push(tv.take(i as int), ", "@, tv[i as int]);
        }
        i += 1;
    }
    assert(tv.take(terms.len() as int) == tv);
    Some(string_of(&out))
}

/// The initial prompt a terms file gives: its terms joined by `", "`, or
/// `None` when it has no terms.
pub fn initial_prompt_from(content: &str) -> (r: Option<String>)
    ensures
        r is None <==> file_terms(content@).len() == 0,
        r matches Some(p) ==> p@ == join(file_terms(content@), ", "@),
{
    let terms = parse_terms(content);
    initial_prompt_text(&terms)
}


/// `s` without whitespace at either end.
pub fn trim_text(s: &str) -> (r: String)
    ensures
        r@ == trim(s@),
{
    let v = chars_of(s);
    let t = trimmed(&v);
    string_of(&t)
}

} // verus!

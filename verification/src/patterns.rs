//! Finding the matches of a picker in captured lines.
//!
//! A line is cut into tokens, the maximal runs of characters other than space
//! and tab. The open-URL picker matches the tokens that are `http` or `https`
//! URLs; the copy picker matches the tokens that hold a `/` (paths and URLs) or
//! one of the user's patterns.

use crate::model::{MatchSpan, PatternSpec};
use crate::text::{chars_of, string_from_range, views};
use vstd::prelude::*;

verus! {

pub open spec fn is_space(c: char) -> bool {
    c == ' ' || c == '\t'
}

/// Characters `s..e` of `l` form a token: none is a space and the run cannot be extended.
pub open spec fn is_token(l: Seq<char>, s: int, e: int) -> bool {
    &&& 0 <= s < e <= l.len()
    &&& forall|k: int| s <= k < e ==> !is_space(#[trigger] l[k])
    &&& (s == 0 || is_space(l[s - 1]))
    &&& (e == l.len() || is_space(l[e]))
}

pub open spec fn starts_with(t: Seq<char>, p: Seq<char>) -> bool {
    p.len() <= t.len() && t.subrange(0, p.len() as int) == p
}

/// An `http` or `https` URL with something after the scheme.
pub open spec fn is_openable_url(t: Seq<char>) -> bool {
    ||| starts_with(t, "http://"@) && t.len() > 7
    ||| starts_with(t, "https://"@) && t.len() > 8
}

pub open spec fn contains_seq(t: Seq<char>, p: Seq<char>) -> bool {
    exists|k: int| 0 <= k && k + p.len() <= t.len() && #[trigger] t.subrange(k, k + p.len()) == p
}

/// A token the copy picker offers: a path or URL, or one that holds a user pattern.
pub open spec fn is_copyable(t: Seq<char>, patterns: Seq<Seq<char>>) -> bool {
    ||| t.contains('/')
    ||| exists|i: int| 0 <= i < patterns.len() && (#[trigger] patterns[i]).len() > 0 && contains_seq(t, patterns[i])
}

/// Which tokens a picker matches.
pub enum MatchRule {
    OpenableUrls,
    Copyable(Vec<Vec<char>>),
}

pub open spec fn char_views(v: Seq<Vec<char>>) -> Seq<Seq<char>> {
    v.map_values(|c: Vec<char>| c@)
}

/// Which tokens a picker matches, with the user's patterns as characters.
pub enum RuleView {
    OpenableUrls,
    Copyable(Seq<Seq<char>>),
}

impl View for MatchRule {
    type V = RuleView;

    open spec fn view(&self) -> RuleView {
        match self {
            MatchRule::OpenableUrls => RuleView::OpenableUrls,
            MatchRule::Copyable(patterns) => RuleView::Copyable(char_views(patterns@)),
        }
    }
}

pub open spec fn rule_accepts(rule: RuleView, t: Seq<char>) -> bool {
    match rule {
        RuleView::OpenableUrls => is_openable_url(t),
        RuleView::Copyable(patterns) => is_copyable(t, patterns),
    }
}

/// `m` is a token of `lines` that `rule` accepts, with its text.
pub open spec fn is_rule_match(lines: Seq<Seq<char>>, rule: RuleView, m: MatchSpan) -> bool {
    &&& m.line < lines.len()
    &&& is_token(lines[m.line as int], m.start as int, m.end as int)
    &&& m.text@ == lines[m.line as int].subrange(m.start as int, m.end as int)
    &&& rule_accepts(rule, m.text@)
}

/// In reading order: by line, then by position in the line.
pub open spec fn before(a: MatchSpan, b: MatchSpan) -> bool {
    a.line < b.line || (a.line == b.line && a.start < b.start)
}

/// `ms` lists, in reading order, exactly the tokens of `lines` that `rule` accepts.
pub open spec fn all_rule_matches(lines: Seq<Seq<char>>, rule: RuleView, ms: Seq<MatchSpan>) -> bool {
    &&& forall|k: int| 0 <= k < ms.len() ==> is_rule_match(lines, rule, #[trigger] ms[k])
    &&& forall|a: int, b: int| 0 <= a < b < ms.len() ==> before(#[trigger] ms[a], #[trigger] ms[b])
    &&& forall|i: int, s: int, e: int|
        0 <= i < lines.len() && #[trigger] is_token(lines[i], s, e) && rule_accepts(rule, lines[i].subrange(s, e))
        ==> exists|k: int| 0 <= k < ms.len() && (#[trigger] ms[k]).line == i && ms[k].start == s && ms[k].end == e
}

/// A token is determined by where it starts.
pub proof fn lemma_token_unique(l: Seq<char>, s: int, e1: int, e2: int)
    requires
        is_token(l, s, e1),
        is_token(l, s, e2),
    ensures
        e1 == e2,
{
    if e1 < e2 {
        assert(!is_space(l[e1]));
    } else if e2 < e1 {
        assert(!is_space(l[e2]));
    }
}

fn starts_with_exec(t: &Vec<char>, p: &str) -> (r: bool)
    ensures
        r == starts_with(t@, p@),
{
    let pc = chars_of(p);
    if pc.len() > t.len() {
        return false;
    }
    let mut i: usize = 0;
    while i < pc.len()
        invariant
            pc@ == p@,
            pc@.len() <= t@.len(),
            i <= pc@.len(),
            forall|k: int| 0 <= k < i ==> t@[k] == pc@[k],
        decreases pc@.len() - i,
    {
        if t[i] != pc[i] {
            assert(t@.subrange(0, pc@.len() as int)[i as int] != p@[i as int]);
            return false;
        }
        i = i + 1;
    }
    assert(t@.subrange(0, pc@.len() as int) =~= p@);
    true
}

fn contains_at(t: &Vec<char>, p: &Vec<char>, k: usize) -> (r: bool)
    requires
        k + p@.len() <= t@.len(),
    ensures
        r == (t@.subrange(k as int, k + p@.len()) == p@),
{
    let tl = t.len();
    let mut i: usize = 0;
    while i < p.len()
        invariant
            tl == t@.len(),
            k + p@.len() <= t@.len(),
            i <= p@.len(),
            forall|j: int| 0 <= j < i ==> t@[k + j] == p@[j],
        decreases p@.len() - i,
    {
        if t[k + i] != p[i] {
            assert(t@.subrange(k as int, k + p@.len())[i as int] != p@[i as int]);
            return false;
        }
        i = i + 1;
    }
    assert(t@.subrange(k as int, k + p@.len()) =~= p@);
    true
}

fn contains_seq_exec(t: &Vec<char>, p: &Vec<char>) -> (r: bool)
    ensures
        r == contains_seq(t@, p@),
{
    if p.len() > t.len() {
        return false;
    }
    if p.len() == 0 {
        assert(t@.subrange(0, 0int + p@.len()) =~= p@);
        return true;
    }
    let tl = t.len();
    let last = tl - p.len();
    let mut k: usize = 0;
    while k <= last
        invariant
            tl == t@.len(),
            p@.len() > 0,
            last + p@.len() == t@.len(),
            k <= last + 1,
            forall|j: int| 0 <= j < k ==> #[trigger] t@.subrange(j, j + p@.len()) != p@,
        decreases last + 1 - k,
    {
        if contains_at(t, p, k) {
            return true;
        }
        k = k + 1;
    }
    false
}

fn accepts_exec(rule: &MatchRule, t: &Vec<char>) -> (r: bool)
    ensures
        r == rule_accepts(rule@, t@),
{
    match rule {
        MatchRule::OpenableUrls => {
            (starts_with_exec(t, "http://") && t.len() > 7) || (starts_with_exec(t, "https://") && t.len() > 8)
        },
        MatchRule::Copyable(patterns) => {
            assert(rule_accepts(rule@, t@) == is_copyable(t@, char_views(patterns@)));
            let mut i: usize = 0;
            while i < t.len()
                invariant
                    rule_accepts(rule@, t@) == is_copyable(t@, char_views(patterns@)),
                    i <= t@.len(),
                    forall|k: int| 0 <= k < i ==> t@[k] != '/',
                decreases t@.len() - i,
            {
                if t[i] == '/' {
                    assert(t@[i as int] == '/');
                    assert(t@.contains('/'));
                    return true;
                }
                i = i + 1;
            }
            let mut j: usize = 0;
            while j < patterns.len()
                invariant
                    rule_accepts(rule@, t@) == is_copyable(t@, char_views(patterns@)),
                    !t@.contains('/'),
                    j <= patterns@.len(),
                    forall|k: int| 0 <= k < j ==> !((#[trigger] char_views(patterns@)[k]).len() > 0 && contains_seq(t@, char_views(patterns@)[k])),
                decreases patterns@.len() - j,
            {
                assert(char_views(patterns@)[j as int] == patterns@[j as int]@);
                if patterns[j].len() > 0 && contains_seq_exec(t, &patterns[j]) {
                    assert(char_views(patterns@)[j as int].len() > 0 && contains_seq(t@, char_views(patterns@)[j as int]));
                    return true;
                }
                j = j + 1;
            }
            false
        },
    }
}

/// The tokens of one line that `rule` accepts, in order, as matches of line `li`.
fn line_matches(line: &Vec<char>, li: usize, rule: &MatchRule) -> (r: Vec<MatchSpan>)
    ensures
        forall|k: int| 0 <= k < r@.len() ==> {
            let m = #[trigger] r@[k];
            &&& m.line == li
            &&& is_token(line@, m.start as int, m.end as int)
            &&& m.text@ == line@.subrange(m.start as int, m.end as int)
            &&& rule_accepts(rule@, m.text@)
        },
        forall|a: int, b: int| 0 <= a < b < r@.len() ==> (#[trigger] r@[a]).start < (#[trigger] r@[b]).start,
        forall|s: int, e: int| #[trigger] is_token(line@, s, e) && rule_accepts(rule@, line@.subrange(s, e))
            ==> exists|k: int| 0 <= k < r@.len() && (#[trigger] r@[k]).start == s && r@[k].end == e,
{
    let n = line.len();
    let mut out: Vec<MatchSpan> = Vec::new();
    let mut i: usize = 0;
    while i < n
        invariant
            n == line@.len(),
            i <= n,
            i == 0 || i == n || is_space(line@[i as int]) || is_space(line@[i - 1]),
            forall|k: int| 0 <= k < out@.len() ==> {
                let m = #[trigger] out@[k];
                &&& m.line == li
                &&& is_token(line@, m.start as int, m.end as int)
                &&& m.end <= i
                &&& m.text@ == line@.subrange(m.start as int, m.end as int)
                &&& rule_accepts(rule@, m.text@)
            },
            forall|a: int, b: int| 0 <= a < b < out@.len() ==> (#[trigger] out@[a]).start < (#[trigger] out@[b]).start,
            forall|s: int, e: int| #[trigger] is_token(line@, s, e) && s < i && rule_accepts(rule@, line@.subrange(s, e))
                ==> exists|k: int| 0 <= k < out@.len() && (#[trigger] out@[k]).start == s && out@[k].end == e,
        decreases n - i,
    {
        let i0 = i;
        while i < n && (line[i] == ' ' || line[i] == '\t')
            invariant
                n == line@.len(),
                i0 <= i <= n,
                forall|k: int| i0 <= k < i ==> is_space(#[trigger] line@[k]),
            decreases n - i,
        {
            i = i + 1;
        }
        if i == n {
            assert forall|s: int, e: int| #[trigger] is_token(line@, s, e) && s < i && rule_accepts(rule@, line@.subrange(s, e))
                implies exists|k: int| 0 <= k < out@.len() && (#[trigger] out@[k]).start == s && out@[k].end == e by {
                if s >= i0 {
                    assert(is_space(line@[s]));
                }
            }
        } else {
        let s = i;
        while i < n && line[i] != ' ' && line[i] != '\t'
            invariant
                n == line@.len(),
                s <= i <= n,
                forall|k: int| s <= k < i ==> !is_space(#[trigger] line@[k]),
            decreases n - i,
        {
            i = i + 1;
        }
        let e = i;
        assert(!is_space(line@[s as int]));
        assert(is_token(line@, s as int, e as int));
        let ghost old_out = out@;
        let mut text: Vec<char> = Vec::new();
        let mut p: usize = s;
        while p < e
            invariant
                s <= p <= e <= n,
                n == line@.len(),
                text@ == line@.subrange(s as int, p as int),
            decreases e - p,
        {
            text.push(line[p]);
            assert(line@.subrange(s as int, p + 1) == line@.subrange(s as int, p as int).push(line@[p as int]));
            p = p + 1;
        }
        if accepts_exec(rule, &text) {
            let t = string_from_range(line.as_slice(), s, e);
            out.push(MatchSpan { line: li, start: s, end: e, text: t });
        }
        assert forall|a: int, b: int| 0 <= a < b < out@.len() implies (#[trigger] out@[a]).start < (#[trigger] out@[b]).start by {
            if b == old_out.len() {
                assert(out@[a] == old_out[a]);
            }
        }
        assert forall|s2: int, e2: int| #[trigger] is_token(line@, s2, e2) && s2 < i && rule_accepts(rule@, line@.subrange(s2, e2))
            implies exists|k: int| 0 <= k < out@.len() && (#[trigger] out@[k]).start == s2 && out@[k].end == e2 by {
            if s2 < i0 {
                let k = choose|k: int| 0 <= k < old_out.len() && (#[trigger] old_out[k]).start == s2 && old_out[k].end == e2;
                assert(out@[k] == old_out[k]);
            } else if s2 < s {
                assert(is_space(line@[s2]));
            } else if s2 == s {
                lemma_token_unique(line@, s as int, e as int, e2);
                assert(out@[old_out.len() as int].start == s2);
            } else {
                assert(!is_space(line@[s2 - 1]));
            }
        }
        }
    }
    out
}

/// The matches of `rule` in all `lines`, in reading order.
pub fn find_rule_matches(lines: &[String], rule: &MatchRule) -> (r: Vec<MatchSpan>)
    ensures
        all_rule_matches(views(lines@), rule@, r@),
{
    let ghost lv = views(lines@);
    let mut out: Vec<MatchSpan> = Vec::new();
    let mut li: usize = 0;
    while li < lines.len()
        invariant
            li <= lines@.len(),
            lv == views(lines@),
            forall|k: int| 0 <= k < out@.len() ==> is_rule_match(lv, rule@, #[trigger] out@[k]) && out@[k].line < li,
            forall|a: int, b: int| 0 <= a < b < out@.len() ==> before(#[trigger] out@[a], #[trigger] out@[b]),
            forall|i: int, s: int, e: int|
                0 <= i < li && #[trigger] is_token(lv[i], s, e) && rule_accepts(rule@, lv[i].subrange(s, e))
                ==> exists|k: int| 0 <= k < out@.len() && (#[trigger] out@[k]).line == i && out@[k].start == s && out@[k].end == e,
        decreases lines@.len() - li,
    {
        let line = chars_of(lines[li].as_str());
        assert(line@ == lv[li as int]);
        let found = line_matches(&line, li, rule);
        let ghost old_out = out@;
        let mut k: usize = 0;
        while k < found.len()
            invariant
                li < lines@.len(),
                lv == views(lines@),
                line@ == lv[li as int],
                k <= found@.len(),
                out@.len() == old_out.len() + k,
                forall|j: int| 0 <= j < old_out.len() ==> out@[j] == old_out[j],
                forall|j: int| 0 <= j < k ==> out@[old_out.len() + j] == found@[j],
                forall|j: int| 0 <= j < old_out.len() ==> is_rule_match(lv, rule@, #[trigger] old_out[j]) && old_out[j].line < li,
                forall|a: int, b: int| 0 <= a < b < old_out.len() ==> before(#[trigger] old_out[a], #[trigger] old_out[b]),
                forall|j: int| 0 <= j < found@.len() ==> {
                    let m = #[trigger] found@[j];
                    &&& m.line == li
                    &&& is_token(line@, m.start as int, m.end as int)
                    &&& m.text@ == line@.subrange(m.start as int, m.end as int)
                    &&& rule_accepts(rule@, m.text@)
                },
                forall|a: int, b: int| 0 <= a < b < found@.len() ==> (#[trigger] found@[a]).start < (#[trigger] found@[b]).start,
            decreases found@.len() - k,
        {
            out.push(found[k].duplicate());
            k = k + 1;
        }
        assert forall|j: int| 0 <= j < out@.len() implies is_rule_match(lv, rule@, #[trigger] out@[j]) && out@[j].line < li + 1 by {
            if j >= old_out.len() {
                let m = found@[j - old_out.len()];
                assert(out@[j] == m);
                assert(m.line == li);
                assert(lv[li as int] == line@);
                assert(is_token(lv[m.line as int], m.start as int, m.end as int));
                assert(m.text@ == lv[m.line as int].subrange(m.start as int, m.end as int));
                assert(rule_accepts(rule@, m.text@));
                assert(m.line < lv.len());
            } else {
                assert(out@[j] == old_out[j]);
            }
        }
        assert forall|a: int, b: int| 0 <= a < b < out@.len() implies before(#[trigger] out@[a], #[trigger] out@[b]) by {
            if a >= old_out.len() {
                assert(out@[a] == found@[a - old_out.len()]);
                assert(out@[b] == found@[b - old_out.len()]);
            } else if b >= old_out.len() {
                assert(out@[a] == old_out[a]);
                assert(out@[b] == found@[b - old_out.len()]);
            } else {
                assert(out@[a] == old_out[a]);
                assert(out@[b] == old_out[b]);
            }
        }
        assert forall|i: int, s: int, e: int|
            0 <= i < li + 1 && #[trigger] is_token(lv[i], s, e) && rule_accepts(rule@, lv[i].subrange(s, e))
            implies exists|k: int| 0 <= k < out@.len() && (#[trigger] out@[k]).line == i && out@[k].start == s && out@[k].end == e by {
            if i < li {
                let k = choose|k: int| 0 <= k < old_out.len() && (#[trigger] old_out[k]).line == i && old_out[k].start == s && old_out[k].end == e;
                assert(out@[k] == old_out[k]);
            } else {
                let k = choose|k: int| 0 <= k < found@.len() && (#[trigger] found@[k]).start == s && found@[k].end == e;
                assert(out@[old_out.len() + k] == found@[k]);
            }
        }
        li = li + 1;
    }
    out
}

/// The rule of the copy picker for the user's patterns.
pub fn compile_pattern_specs(specs: &[PatternSpec]) -> (r: MatchRule)
    ensures
        r@ == RuleView::Copyable(specs@.map_values(|s: PatternSpec| s.pattern@)),
{
    let mut patterns: Vec<Vec<char>> = Vec::new();
    let mut i: usize = 0;
    while i < specs.len()
        invariant
            i <= specs@.len(),
            char_views(patterns@) == specs@.map_values(|s: PatternSpec| s.pattern@).take(i as int),
        decreases specs@.len() - i,
    {
        let ghost old_p = patterns@;
        patterns.push(chars_of(specs[i].pattern.as_str()));
        assert(char_views(patterns@) =~= char_views(old_p).push(specs@[i as int].pattern@));
        assert(specs@.map_values(|s: PatternSpec| s.pattern@).take(i + 1) =~= specs@.map_values(|s: PatternSpec| s.pattern@).take(i as int).push(specs@[i as int].pattern@));
        i = i + 1;
    }
    assert(specs@.map_values(|s: PatternSpec| s.pattern@).take(specs@.len() as int) =~= specs@.map_values(|s: PatternSpec| s.pattern@));
    MatchRule::Copyable(patterns)
}

/// The copy picker's matches: tokens with a `/` or with one of the patterns.
pub fn find_matches(lines: &[String], custom_patterns: &MatchRule) -> (r: Vec<MatchSpan>)
    ensures
        all_rule_matches(views(lines@), custom_patterns@, r@),
{
    find_rule_matches(lines, custom_patterns)
}

/// The open-URL picker's matches: `http` and `https` URLs.
pub fn find_openable_urls(lines: &[String]) -> (r: Vec<MatchSpan>)
    ensures
        all_rule_matches(views(lines@), RuleView::OpenableUrls, r@),
{
    find_rule_matches(lines, &MatchRule::OpenableUrls)
}

} // verus!

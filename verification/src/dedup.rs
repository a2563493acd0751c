//! Merging candidates from every probe into one list, unique by path.
//!
//! This is the single place where identity-by-path lives: every detection
//! source feeds its candidates through `dedup_by_path`.

use vstd::prelude::*;

use crate::text::str_eq;
use crate::Browser;
use crate::BrowserView;

verus! {

/// The views of the browsers in a sequence.
pub open spec fn views_of(s: Seq<Browser>) -> Seq<BrowserView> {
    s.map_values(|b: Browser| b@)
}

/// Does some entry of `s` already carry the path `p`?
pub open spec fn seen_path(s: Seq<BrowserView>, p: Seq<char>) -> bool {
    exists|k: int| 0 <= k < s.len() && s[k].path == p
}

/// No two entries share a path.
pub open spec fn unique_paths(s: Seq<BrowserView>) -> bool {
    forall|a: int, b: int| 0 <= a < b < s.len() ==> s[a].path != s[b].path
}

/// What deduplication returns: the input in order, keeping the first entry
/// with each path and dropping every later one, whatever its name or
/// version.
pub open spec fn dedup_spec(s: Seq<BrowserView>) -> Seq<BrowserView>
    decreases s.len(),
{
    if s.len() == 0 {
        s
    } else if seen_path(s.drop_last(), s.last().path) {
        dedup_spec(s.drop_last())
    } else {
        dedup_spec(s.drop_last()).push(s.last())
    }
}

/// Deduplication keeps exactly the paths of its input.
pub proof fn lemma_dedup_same_paths(s: Seq<BrowserView>, p: Seq<char>)
    ensures
        seen_path(dedup_spec(s), p) == seen_path(s, p),
    decreases s.len(),
{
    if s.len() > 0 {
        let s2 = s.drop_last();
        lemma_dedup_same_paths(s2, p);
        assert(seen_path(s, p) <==> (seen_path(s2, p) || s.last().path == p)) by {
            if seen_path(s, p) {
                let k = choose|k: int| 0 <= k < s.len() && s[k].path == p;
                if k < s.len() - 1 {
                    assert(s2[k].path == p);
                }
            }
            if seen_path(s2, p) {
                let k = choose|k: int| 0 <= k < s2.len() && s2[k].path == p;
                assert(s[k].path == p);
            }
            if s.last().path == p {
                assert(s[s.len() - 1].path == p);
            }
        }
        if !seen_path(s2, s.last().path) {
            let rest = dedup_spec(s2);
            let d = rest.push(s.last());
            assert(seen_path(d, p) <==> (seen_path(rest, p) || s.last().path == p)) by {
                if seen_path(rest, p) {
                    let k = choose|k: int| 0 <= k < rest.len() && rest[k].path == p;
                    assert(d[k].path == p);
                }
                if s.last().path == p {
                    assert(d[d.len() - 1].path == p);
                }
                if seen_path(d, p) {
                    let k = choose|k: int| 0 <= k < d.len() && d[k].path == p;
                    if k < d.len() - 1 {
                        assert(rest[k].path == p);
                    }
                }
            }
        }
    }
}

/// The dedup invariant: what `dedup_spec` returns never holds two entries
/// with equal paths.
pub proof fn lemma_dedup_unique_paths(s: Seq<BrowserView>)
    ensures
        unique_paths(dedup_spec(s)),
    decreases s.len(),
{
    if s.len() > 0 {
        lemma_dedup_unique_paths(s.drop_last());
        if !seen_path(s.drop_last(), s.last().path) {
            lemma_dedup_same_paths(s.drop_last(), s.last().path);
            let rest = dedup_spec(s.drop_last());
            let d = rest.push(s.last());
            assert forall|a: int, b: int| 0 <= a < b < d.len() implies d[a].path != d[b].path by {
                if b < d.len() - 1 {
                    assert(rest[a].path != rest[b].path);
                } else {
                    assert(d[a] == rest[a]);
                    if d[a].path == s.last().path {
                        assert(seen_path(rest, s.last().path));
                    }
                }
            }
        }
    }
}

/// Every entry of the deduplicated list is an entry of the input.
pub proof fn lemma_dedup_elements(s: Seq<BrowserView>)
    ensures
        forall|k: int|
            0 <= k < dedup_spec(s).len() ==> exists|j: int|
                0 <= j < s.len() && s[j] == #[trigger] dedup_spec(s)[k],
    decreases s.len(),
{
    if s.len() > 0 {
        let s2 = s.drop_last();
        lemma_dedup_elements(s2);
        assert forall|k: int| 0 <= k < dedup_spec(s).len() implies exists|j: int|
            0 <= j < s.len() && s[j] == #[trigger] dedup_spec(s)[k] by {
            if seen_path(s2, s.last().path) {
                let el = dedup_spec(s2)[k];
                let j = choose|j: int| 0 <= j < s2.len() && s2[j] == el;
                assert(s[j] == el);
            } else {
                if k < dedup_spec(s).len() - 1 {
                    let el = dedup_spec(s2)[k];
                    assert(dedup_spec(s)[k] == el);
                    let j = choose|j: int| 0 <= j < s2.len() && s2[j] == el;
                    assert(s[j] == el);
                } else {
                    assert(s[s.len() - 1] == dedup_spec(s)[k]);
                }
            }
        }
    }
}

/// Appending a browser whose path is fresh keeps the paths unique.
pub proof fn lemma_unique_push(s: Seq<BrowserView>, b: BrowserView)
    requires
        unique_paths(s),
        !seen_path(s, b.path),
    ensures
        unique_paths(s.push(b)),
{
    let d = s.push(b);
    assert forall|x: int, y: int| 0 <= x < y < d.len() implies d[x].path != d[y].path by {
        if y < d.len() - 1 {
            assert(s[x].path != s[y].path);
        } else {
            assert(d[x] == s[x]);
            if s[x].path == b.path {
                assert(seen_path(s, b.path));
            }
        }
    }
}

/// Is the path `p` already present in `out`?
pub(crate) fn contains_path(out: &Vec<Browser>, p: &str) -> (r: bool)
    ensures
        r == seen_path(views_of(out@), p@),
{
    let n: usize = out.len();
    let mut k: usize = 0;
    while k < n
        invariant
            0 <= k <= n,
            n == out@.len(),
            forall|j: int| 0 <= j < k ==> views_of(out@)[j].path != p@,
        decreases n - k,
    {
        if str_eq(out[k].path.as_str(), p) {
            assert(views_of(out@)[k as int].path == p@);
            return true;
        }
        k = k + 1;
    }
    false
}

/// Keep the first browser recorded for each path and drop later duplicates,
/// preserving the order in which candidates were emitted.
pub fn dedup_by_path(input: Vec<Browser>) -> (r: Vec<Browser>)
    ensures
        views_of(r@) == dedup_spec(views_of(input@)),
        unique_paths(views_of(r@)),
{
    let n: usize = input.len();
    let mut out: Vec<Browser> = Vec::new();
    let mut i: usize = 0;
    proof {
        assert(views_of(input@.subrange(0, 0)) =~= Seq::<BrowserView>::empty());
        assert(views_of(out@) =~= dedup_spec(views_of(input@.subrange(0, 0))));
    }
    while i < n
        invariant
            0 <= i <= n,
            n == input@.len(),
            views_of(out@) == dedup_spec(views_of(input@.subrange(0, i as int))),
        decreases n - i,
    {
        let ghost pre = views_of(input@.subrange(0, i as int));
        let ghost cur = views_of(input@.subrange(0, i as int + 1));
        proof {
            assert(cur.drop_last() =~= pre);
            assert(cur.last() == input@[i as int]@);
            lemma_dedup_same_paths(pre, input@[i as int]@.path);
        }
        let b = input[i].duplicate();
        if !contains_path(&out, b.path.as_str()) {
            out.push(b);
            proof {
                assert(views_of(out@) =~= dedup_spec(pre).push(cur.last()));
            }
        }
        i = i + 1;
    }
    proof {
        assert(views_of(input@.subrange(0, n as int)) =~= views_of(input@));
        lemma_dedup_unique_paths(views_of(input@));
    }
    out
}

} // verus!

//! Fuzzy path completion over worktree snapshots.
//!
//! One candidate set is built per visible worktree at call time; a candidate
//! matches when the query's characters appear in order, case-insensitively
//! for ASCII letters, inside the root-prefixed path. Matches are ranked by a
//! relevance score (shorter paths rank higher), ordered descending, and
//! capped at `MAX_SEARCH_RESULTS` entries. A cancellation flag set before
//! the search starts yields an empty result rather than an error.

use crate::worktree::{PathEntry, PathEntryV, Project, WorktreeV};
use vstd::prelude::*;

verus! {

/// The most completion results a search ever returns.
pub const MAX_SEARCH_RESULTS: usize = 100;

/// ASCII case folding: the code point of `c`, with upper-case letters taken
/// to lower case.
pub open spec fn fold_char(c: char) -> u32 {
    if 65 <= c as u32 && c as u32 <= 90 {
        (c as u32 + 32) as u32
    } else {
        c as u32
    }
}

/// Case-insensitive character equality.
pub open spec fn chars_eq_ci(a: char, b: char) -> bool {
    fold_char(a) == fold_char(b)
}

/// Does `q` appear in order inside `t`, comparing case-insensitively and
/// binding each query character to the first place it can go?
pub open spec fn is_subseq_ci(q: Seq<char>, t: Seq<char>) -> bool
    decreases q.len() + t.len(),
{
    if q.len() == 0 {
        true
    } else if t.len() == 0 {
        false
    } else if chars_eq_ci(q[0], t[0]) {
        is_subseq_ci(q.drop_first(), t.drop_first())
    } else {
        is_subseq_ci(q, t.drop_first())
    }
}

/// ASCII case folding of one character's code point.
pub fn fold_char_x(c: char) -> (r: u32)
    ensures
        r == fold_char(c),
{
    let u: u32 = c as u32;
    if 65 <= u && u <= 90 {
        u + 32
    } else {
        u
    }
}

/// Decide `is_subseq_ci(q@, t@)` by one left-to-right scan of `t`.
pub fn subseq_ci(q: &str, t: &str) -> (r: bool)
    ensures
        r == is_subseq_ci(q@, t@),
{
    let qn: usize = q.unicode_len();
    let tn: usize = t.unicode_len();
    let mut i: usize = 0;
    let mut j: usize = 0;
    proof {
        assert(q@.skip(0) =~= q@);
        assert(t@.skip(0) =~= t@);
    }
    while j < qn && i < tn
        invariant
            qn == q@.len(),
            tn == t@.len(),
            0 <= j <= qn,
            0 <= i <= tn,
            is_subseq_ci(q@, t@) == is_subseq_ci(q@.skip(j as int), t@.skip(i as int)),
        decreases tn - i,
    {
        proof {
            assert(q@.skip(j as int)[0] == q@[j as int]);
            assert(t@.skip(i as int)[0] == t@[i as int]);
            assert(q@.skip(j as int).drop_first() =~= q@.skip(j as int + 1));
            assert(t@.skip(i as int).drop_first() =~= t@.skip(i as int + 1));
        }
        if fold_char_x(q.get_char(j)) == fold_char_x(t.get_char(i)) {
            j += 1;
        }
        i += 1;
    }
    if j == qn {
        proof {
            assert(q@.skip(qn as int) =~= Seq::<char>::empty());
        }
        true
    } else {
        proof {
            assert(t@.skip(tn as int) =~= Seq::<char>::empty());
            assert(q@.skip(j as int).len() > 0);
        }
        false
    }
}

/// A fuzzy search hit: the matched root-relative path, the root-name prefix
/// it belongs to, and its relevance score.
pub struct PathMatch {
    pub path: String,
    pub path_prefix: String,
    pub score: u64,
}

/// The mathematical value of a `PathMatch`.
pub struct PathMatchV {
    pub path: Seq<char>,
    pub path_prefix: Seq<char>,
    pub score: u64,
}

impl View for PathMatch {
    type V = PathMatchV;

    open spec fn view(&self) -> PathMatchV {
        PathMatchV { path: self.path@, path_prefix: self.path_prefix@, score: self.score }
    }
}

impl Clone for PathMatch {
    fn clone(&self) -> (r: Self)
        ensures
            r == *self,
    {
        PathMatch {
            path: self.path.clone(),
            path_prefix: self.path_prefix.clone(),
            score: self.score,
        }
    }
}

/// The views of a sequence of matches.
pub open spec fn match_views(s: Seq<PathMatch>) -> Seq<PathMatchV> {
    s.map_values(|m: PathMatch| m@)
}

/// One search's immutable candidates from one worktree: a snapshot of its
/// entries and the flags the matcher is configured with.
pub struct PathMatchCandidateSet {
    pub root_name: String,
    pub entries: Vec<PathEntry>,
    pub include_ignored: bool,
    pub include_root_name: bool,
    pub directories_only: bool,
}

/// The mathematical value of a `PathMatchCandidateSet`.
pub struct CandidateSetV {
    pub root_name: Seq<char>,
    pub entries: Seq<PathEntryV>,
    pub include_ignored: bool,
    pub include_root_name: bool,
    pub directories_only: bool,
}

impl View for PathMatchCandidateSet {
    type V = CandidateSetV;

    open spec fn view(&self) -> CandidateSetV {
        CandidateSetV {
            root_name: self.root_name@,
            entries: self.entries@.map_values(|e: PathEntry| e@),
            include_ignored: self.include_ignored,
            include_root_name: self.include_root_name,
            directories_only: self.directories_only,
        }
    }
}

/// The prefix under which a set's paths are matched and reported: the root
/// name and a separator, when root names are included.
pub open spec fn prefix_of(s: CandidateSetV) -> Seq<char> {
    if s.include_root_name {
        s.root_name + seq!['/']
    } else {
        Seq::empty()
    }
}

/// Whether a set offers an entry as a candidate at all.
pub open spec fn included(s: CandidateSetV, e: PathEntryV) -> bool {
    (s.include_ignored || !e.is_ignored) && (!s.directories_only || e.is_dir)
}

/// The relevance score of a matched full path: shorter paths rank higher.
pub open spec fn score_of(full: Seq<char>) -> u64 {
    if full.len() < 1000 {
        (1000 - full.len()) as u64
    } else {
        0
    }
}

/// The score of one full path.
pub fn score_of_x(full: &String) -> (r: u64)
    ensures
        r == score_of(full@),
{
    let n: usize = full.as_str().unicode_len();
    if n < 1000 {
        (1000 - n) as u64
    } else {
        0
    }
}

/// The zero or one hits that entry `e` of set `s` contributes for query `q`.
pub open spec fn entry_matches(s: CandidateSetV, q: Seq<char>, e: PathEntryV) -> Seq<PathMatchV> {
    if included(s, e) && is_subseq_ci(q, prefix_of(s) + e.path) {
        seq![
            PathMatchV {
                path: e.path,
                path_prefix: prefix_of(s),
                score: score_of(prefix_of(s) + e.path),
            },
        ]
    } else {
        Seq::empty()
    }
}

/// All hits of query `q` among the first entries of set `s`, in entry order.
pub open spec fn set_matches(s: CandidateSetV, q: Seq<char>, es: Seq<PathEntryV>) -> Seq<PathMatchV>
    decreases es.len(),
{
    if es.len() == 0 {
        Seq::empty()
    } else {
        set_matches(s, q, es.drop_last()) + entry_matches(s, q, es.last())
    }
}

/// All hits of query `q` across the candidate sets, in set order.
pub open spec fn sets_matches(sets: Seq<CandidateSetV>, q: Seq<char>) -> Seq<PathMatchV>
    decreases sets.len(),
{
    if sets.len() == 0 {
        Seq::empty()
    } else {
        sets_matches(sets.drop_last(), q) + set_matches(sets.last(), q, sets.last().entries)
    }
}

/// The candidate set a worktree contributes: its snapshot, ignored entries
/// included only when the root itself is ignored, root names shown, files
/// and directories alike.
pub open spec fn candidate_set_of(w: WorktreeV) -> CandidateSetV {
    CandidateSetV {
        root_name: w.root_name,
        entries: w.entries,
        include_ignored: w.root_ignored,
        include_root_name: true,
        directories_only: false,
    }
}

/// The candidate sets of the visible worktrees, in worktree order.
pub open spec fn candidate_sets_of(wts: Seq<WorktreeV>) -> Seq<CandidateSetV>
    decreases wts.len(),
{
    if wts.len() == 0 {
        Seq::empty()
    } else {
        candidate_sets_of(wts.drop_last()) + (if wts.last().visible {
            seq![candidate_set_of(wts.last())]
        } else {
            Seq::empty()
        })
    }
}

/// Copy a snapshot of entries.
fn copy_entries(es: &Vec<PathEntry>) -> (r: Vec<PathEntry>)
    ensures
        r@ == es@,
{
    let n: usize = es.len();
    let mut r: Vec<PathEntry> = Vec::new();
    let mut i: usize = 0;
    while i < n
        invariant
            n == es@.len(),
            0 <= i <= n,
            r@ == es@.take(i as int),
        decreases n - i,
    {
        r.push(es[i].clone());
        proof {
            assert(es@.take(i as int).push(es@[i as int]) =~= es@.take(i as int + 1));
        }
        i += 1;
    }
    proof {
        assert(es@.take(n as int) =~= es@);
    }
    r
}

impl Project {
    /// Build one candidate set per visible worktree, each a consistent
    /// snapshot taken at call time.
    pub fn visible_candidate_sets(&self) -> (r: Vec<PathMatchCandidateSet>)
        ensures
            r@.map_values(|s: PathMatchCandidateSet| s@) == candidate_sets_of(self@),
    {
        let n: usize = self.worktrees.len();
        let mut r: Vec<PathMatchCandidateSet> = Vec::new();
        let mut i: usize = 0;
        proof {
            assert(r@.map_values(|s: PathMatchCandidateSet| s@) =~= candidate_sets_of(
                self@.take(0),
            ));
        }
        while i < n
            invariant
                n == self.worktrees@.len(),
                0 <= i <= n,
                r@.map_values(|s: PathMatchCandidateSet| s@) == candidate_sets_of(
                    self@.take(i as int),
                ),
            decreases n - i,
        {
            let w = &self.worktrees[i];
            proof {
                assert(self@.take(i as int + 1).drop_last() =~= self@.take(i as int));
                assert(self@.take(i as int + 1).last() == self@[i as int]);
            }
            if w.visible {
                let set = PathMatchCandidateSet {
                    root_name: w.root_name.clone(),
                    entries: copy_entries(&w.entries),
                    include_ignored: w.root_ignored,
                    include_root_name: true,
                    directories_only: false,
                };
                proof {
                    assert(set@ == candidate_set_of(self@[i as int]));
                }
                r.push(set);
                proof {
                    assert(r@.map_values(|s: PathMatchCandidateSet| s@) =~= candidate_sets_of(
                        self@.take(i as int + 1),
                    ));
                }
            } else {
                proof {
                    assert(r@.map_values(|s: PathMatchCandidateSet| s@) =~= candidate_sets_of(
                        self@.take(i as int + 1),
                    ));
                }
            }
            i += 1;
        }
        proof {
            assert(self@.take(n as int) =~= self@);
        }
        r
    }
}

/// Collect every hit of `query` across the candidate sets, in order.
pub fn collect_matches(sets: &Vec<PathMatchCandidateSet>, query: &str) -> (r: Vec<PathMatch>)
    ensures
        match_views(r@) == sets_matches(sets@.map_values(|s: PathMatchCandidateSet| s@), query@),
{
    let ghost sv = sets@.map_values(|s: PathMatchCandidateSet| s@);
    let n: usize = sets.len();
    let mut acc: Vec<PathMatch> = Vec::new();
    let mut i: usize = 0;
    proof {
        assert(match_views(acc@) =~= sets_matches(sv.take(0), query@));
    }
    while i < n
        invariant
            n == sets@.len(),
            sv == sets@.map_values(|s: PathMatchCandidateSet| s@),
            0 <= i <= n,
            match_views(acc@) == sets_matches(sv.take(i as int), query@),
        decreases n - i,
    {
        let set = &sets[i];
        proof {
            reveal_strlit("/");
            assert(sv.take(i as int + 1).drop_last() =~= sv.take(i as int));
            assert(sv.take(i as int + 1).last() == sv[i as int]);
            assert(sv[i as int] == set@);
        }
        let mut prefix: String = if set.include_root_name {
            let mut p: String = set.root_name.clone();
            p.append("/");
            p
        } else {
            String::new()
        };
        proof {
            assert(prefix@ =~= prefix_of(set@));
        }
        let ghost es = set@.entries;
        let m: usize = set.entries.len();
        let mut j: usize = 0;
        proof {
            assert(set_matches(set@, query@, es.take(0)) =~= Seq::<PathMatchV>::empty());
        }
        while j < m
            invariant
                m == set.entries@.len(),
                es == set@.entries,
                prefix@ == prefix_of(set@),
                0 <= j <= m,
                match_views(acc@) == sets_matches(sv.take(i as int), query@) + set_matches(
                    set@,
                    query@,
                    es.take(j as int),
                ),
            decreases m - j,
        {
            let e = &set.entries[j];
            proof {
                assert(es.take(j as int + 1).drop_last() =~= es.take(j as int));
                assert(es.take(j as int + 1).last() == es[j as int]);
                assert(es[j as int] == e@);
            }
            if (set.include_ignored || !e.is_ignored) && (!set.directories_only || e.is_dir) {
                let mut full: String = prefix.clone();
                full.append(e.path.as_str());
                proof {
                    assert(full@ =~= prefix_of(set@) + e@.path);
                }
                if subseq_ci(query, full.as_str()) {
                    let score: u64 = score_of_x(&full);
                    let hit = PathMatch {
                        path: e.path.clone(),
                        path_prefix: prefix.clone(),
                        score,
                    };
                    proof {
                        assert(entry_matches(set@, query@, e@) =~= seq![hit@]);
                    }
                    let ghost acc0 = acc@;
                    acc.push(hit);
                    proof {
                        assert(match_views(acc@) =~= match_views(acc0).push(hit@));
                        assert(set_matches(set@, query@, es.take(j as int + 1)) == set_matches(
                            set@,
                            query@,
                            es.take(j as int),
                        ) + entry_matches(set@, query@, e@));
                        assert(match_views(acc@) =~= sets_matches(sv.take(i as int), query@)
                            + set_matches(set@, query@, es.take(j as int + 1)));
                    }
                } else {
                    proof {
                        assert(entry_matches(set@, query@, e@) =~= Seq::<PathMatchV>::empty());
                        assert(match_views(acc@) =~= sets_matches(sv.take(i as int), query@)
                            + set_matches(set@, query@, es.take(j as int + 1)));
                    }
                }
            } else {
                proof {
                    assert(entry_matches(set@, query@, e@) =~= Seq::<PathMatchV>::empty());
                    assert(match_views(acc@) =~= sets_matches(sv.take(i as int), query@)
                        + set_matches(set@, query@, es.take(j as int + 1)));
                }
            }
            j += 1;
        }
        proof {
            assert(es.take(m as int) =~= es);
            assert(match_views(acc@) =~= sets_matches(sv.take(i as int + 1), query@));
        }
        i += 1;
    }
    proof {
        assert(sv.take(n as int) =~= sv);
    }
    acc
}

/// Scores never increase along the sequence.
pub open spec fn sorted_desc(s: Seq<PathMatchV>) -> bool {
    forall|a: int, b: int| 0 <= a < b < s.len() ==> s[a].score >= s[b].score
}

/// Where a hit goes in a descending list: after every hit scoring at least
/// as much, before the first scoring less.
pub open spec fn insert_desc(s: Seq<PathMatchV>, m: PathMatchV) -> Seq<PathMatchV>
    decreases s.len(),
{
    if s.len() == 0 {
        seq![m]
    } else if s[0].score >= m.score {
        seq![s[0]] + insert_desc(s.drop_first(), m)
    } else {
        seq![m] + s
    }
}

/// Insertion sort of the hits, left to right, descending by score; hits of
/// equal score keep their encounter order.
pub open spec fn sort_desc(s: Seq<PathMatchV>) -> Seq<PathMatchV>
    decreases s.len(),
{
    if s.len() == 0 {
        Seq::empty()
    } else {
        insert_desc(sort_desc(s.drop_last()), s.last())
    }
}

/// Inserting at the first position whose score is lower is what
/// `insert_desc` does.
proof fn lemma_insert_desc_at(s: Seq<PathMatchV>, m: PathMatchV, j: int)
    requires
        0 <= j <= s.len(),
        forall|k: int| 0 <= k < j ==> s[k].score >= m.score,
        j < s.len() ==> s[j].score < m.score,
    ensures
        insert_desc(s, m) == s.insert(j, m),
    decreases s.len(),
{
    if s.len() == 0 {
        assert(insert_desc(s, m) =~= s.insert(0, m));
    } else if j == 0 {
        assert(s[0].score < m.score);
        assert(seq![m] + s =~= s.insert(0, m));
    } else {
        assert(s[0].score >= m.score);
        lemma_insert_desc_at(s.drop_first(), m, j - 1);
        assert(seq![s[0]] + s.drop_first().insert(j - 1, m) =~= s.insert(j, m));
    }
}

/// `insert_desc` grows the list by one, keeps it sorted, and adds no hit
/// but `m`.
pub proof fn lemma_insert_desc_sorted(s: Seq<PathMatchV>, m: PathMatchV)
    requires
        sorted_desc(s),
    ensures
        insert_desc(s, m).len() == s.len() + 1,
        sorted_desc(insert_desc(s, m)),
        forall|k: int|
            0 <= k < insert_desc(s, m).len() ==> (#[trigger] insert_desc(s, m)[k] == m
                || s.contains(insert_desc(s, m)[k])),
    decreases s.len(),
{
    let r = insert_desc(s, m);
    if s.len() == 0 {
        assert(r =~= seq![m]);
    } else if s[0].score >= m.score {
        assert(sorted_desc(s.drop_first())) by {
            assert(forall|a: int, b: int|
                0 <= a < b < s.drop_first().len() ==> s.drop_first()[a] == s[a + 1]
                    && s.drop_first()[b] == s[b + 1]);
        }
        lemma_insert_desc_sorted(s.drop_first(), m);
        let t = insert_desc(s.drop_first(), m);
        assert(r == seq![s[0]] + t);
        assert forall|k: int| 0 <= k < r.len() implies (#[trigger] r[k] == m || s.contains(
            r[k],
        )) by {
            if k == 0 {
                assert(r[0] == s[0]);
                assert(s.contains(s[0]));
            } else {
                assert(r[k] == t[k - 1]);
                if t[k - 1] == m {
                } else {
                    let idx = choose|idx: int|
                        0 <= idx < s.drop_first().len() && s.drop_first()[idx] == t[k - 1];
                    assert(s[idx + 1] == t[k - 1]);
                    assert(s.contains(r[k]));
                }
            }
        }
        assert forall|a: int, b: int| 0 <= a < b < r.len() implies r[a].score >= r[b].score by {
            if a == 0 {
                assert(r[0] == s[0]);
                assert(r[b] == t[b - 1]);
                if t[b - 1] == m {
                } else {
                    let idx = choose|idx: int|
                        0 <= idx < s.drop_first().len() && s.drop_first()[idx] == t[b - 1];
                    assert(s[idx + 1] == t[b - 1]);
                    assert(s[0].score >= s[idx + 1].score);
                }
            } else {
                assert(r[a] == t[a - 1] && r[b] == t[b - 1]);
                assert(t[a - 1].score >= t[b - 1].score);
            }
        }
    } else {
        assert(r == seq![m] + s);
        assert forall|k: int| 0 <= k < r.len() implies (#[trigger] r[k] == m || s.contains(
            r[k],
        )) by {
            if k > 0 {
                assert(r[k] == s[k - 1]);
                assert(s.contains(s[k - 1]));
            }
        }
        assert forall|a: int, b: int| 0 <= a < b < r.len() implies r[a].score >= r[b].score by {
            if a == 0 {
                assert(r[b] == s[b - 1]);
                if b > 1 {
                    assert(s[0].score >= s[b - 1].score);
                }
            } else {
                assert(r[a] == s[a - 1] && r[b] == s[b - 1]);
            }
        }
    }
}

/// A sorted permutation: `sort_desc` keeps the length and orders scores
/// descending.
pub proof fn lemma_sort_desc_sorted(s: Seq<PathMatchV>)
    ensures
        sort_desc(s).len() == s.len(),
        sorted_desc(sort_desc(s)),
    decreases s.len(),
{
    if s.len() == 0 {
    } else {
        lemma_sort_desc_sorted(s.drop_last());
        lemma_insert_desc_sorted(sort_desc(s.drop_last()), s.last());
    }
}

/// Sort the hits by score, descending, with insertion sort.
pub fn sort_matches(v: Vec<PathMatch>) -> (r: Vec<PathMatch>)
    ensures
        match_views(r@) == sort_desc(match_views(v@)),
{
    let ghost xs = match_views(v@);
    let n: usize = v.len();
    let mut out: Vec<PathMatch> = Vec::new();
    let mut i: usize = 0;
    proof {
        assert(match_views(out@) =~= sort_desc(xs.take(0)));
    }
    while i < n
        invariant
            n == v@.len(),
            xs == match_views(v@),
            0 <= i <= n,
            match_views(out@) == sort_desc(xs.take(i as int)),
        decreases n - i,
    {
        let m = v[i].clone();
        proof {
            assert(xs.take(i as int + 1).drop_last() =~= xs.take(i as int));
            assert(xs.take(i as int + 1).last() == xs[i as int]);
            assert(m@ == xs[i as int]);
        }
        let len: usize = out.len();
        let mut j: usize = 0;
        while j < len && out[j].score >= m.score
            invariant
                len == out@.len(),
                0 <= j <= len,
                forall|k: int| 0 <= k < j ==> match_views(out@)[k].score >= m@.score,
            decreases len - j,
        {
            proof {
                assert(match_views(out@)[j as int].score == out@[j as int].score);
            }
            j += 1;
        }
        proof {
            if j < len {
                assert(match_views(out@)[j as int].score < m@.score);
            }
            lemma_insert_desc_at(match_views(out@), m@, j as int);
        }
        let ghost out0 = out@;
        out.insert(j, m);
        proof {
            assert(match_views(out0.insert(j as int, m)) =~= match_views(out0).insert(
                j as int,
                m@,
            ));
            assert(match_views(out@) =~= sort_desc(xs.take(i as int + 1)));
        }
        i += 1;
    }
    proof {
        assert(xs.take(n as int) =~= xs);
    }
    out
}

/// The shared, advisory cancellation signal of one search: a caller sets it
/// to ask a search to stop early; a search only ever reads it.
pub struct CancellationFlag {
    pub cancelled: bool,
}

impl CancellationFlag {
    /// A flag that nobody has set.
    pub fn new() -> (r: CancellationFlag)
        ensures
            !r.cancelled,
    {
        CancellationFlag { cancelled: false }
    }

    /// Request cancellation.
    pub fn set(&mut self)
        ensures
            final(self).cancelled,
    {
        self.cancelled = true;
    }

    /// Has cancellation been requested?
    pub fn is_set(&self) -> (r: bool)
        ensures
            r == self.cancelled,
    {
        self.cancelled
    }
}

/// Everything a completed search returns: all hits across the visible
/// worktrees' candidate sets, sorted descending by score, capped at
/// `MAX_SEARCH_RESULTS`.
pub open spec fn search_spec(wts: Seq<WorktreeV>, q: Seq<char>) -> Seq<PathMatchV> {
    let s = sort_desc(sets_matches(candidate_sets_of(wts), q));
    if s.len() <= 100 {
        s
    } else {
        s.take(100)
    }
}

/// How many results a search yields: none under cancellation, the capped
/// count otherwise.
pub open spec fn search_result_len(wts: Seq<WorktreeV>, q: Seq<char>, cancelled: bool) -> nat {
    if cancelled {
        0
    } else {
        search_spec(wts, q).len()
    }
}

/// Search the visible worktrees of a project for fuzzy matches of `query`.
/// The cancellation flag is read before any work: a search cancelled ahead
/// of time reports an empty result, not an error.
pub fn search_project(project: &Project, query: &str, cancellation_flag: &CancellationFlag) -> (r:
    Vec<PathMatch>)
    ensures
        cancellation_flag.cancelled ==> match_views(r@) == Seq::<PathMatchV>::empty(),
        !cancellation_flag.cancelled ==> match_views(r@) == search_spec(project@, query@),
        r@.len() == search_result_len(project@, query@, cancellation_flag.cancelled),
{
    if cancellation_flag.is_set() {
        let r: Vec<PathMatch> = Vec::new();
        proof {
            assert(match_views(r@) =~= Seq::<PathMatchV>::empty());
        }
        return r;
    }
    let sets = project.visible_candidate_sets();
    let all = collect_matches(&sets, query);
    let mut sorted = sort_matches(all);
    if sorted.len() > MAX_SEARCH_RESULTS {
        let ghost before = sorted@;
        sorted.truncate(MAX_SEARCH_RESULTS);
        proof {
            assert(match_views(sorted@) =~= match_views(before).take(100));
        }
    }
    sorted
}

/// However a search is invoked, its result never holds more than
/// `MAX_SEARCH_RESULTS` entries.
pub proof fn lemma_results_capped(wts: Seq<WorktreeV>, q: Seq<char>, cancelled: bool)
    ensures
        search_result_len(wts, q, cancelled) <= 100,
{
}

/// Cancellation is monotonic: a search whose flag was set before it started
/// yields a result list no larger than an unflagged search on the same
/// inputs.
pub proof fn lemma_cancellation_monotonic(wts: Seq<WorktreeV>, q: Seq<char>)
    ensures
        search_result_len(wts, q, true) <= search_result_len(wts, q, false),
{
}

/// `insert_desc` only makes room: the result holds the old hits and `m`,
/// each as often as before.
proof fn lemma_insert_desc_multiset(s: Seq<PathMatchV>, m: PathMatchV)
    ensures
        insert_desc(s, m).to_multiset() == s.to_multiset().insert(m),
    decreases s.len(),
{
    broadcast use vstd::seq_lib::group_to_multiset_ensures;
    broadcast use vstd::seq_lib::lemma_multiset_commutative;
    broadcast use vstd::multiset::group_multiset_axioms;

    if s.len() == 0 {
        assert(seq![m] =~= Seq::<PathMatchV>::empty().push(m));
        assert(insert_desc(s, m).to_multiset() =~= s.to_multiset().insert(m));
    } else if s[0].score >= m.score {
        lemma_insert_desc_multiset(s.drop_first(), m);
        let t = insert_desc(s.drop_first(), m);
        assert(insert_desc(s, m) == seq![s[0]] + t);
        assert(s =~= seq![s[0]] + s.drop_first());
        assert((seq![s[0]] + t).to_multiset() =~= seq![s[0]].to_multiset().add(t.to_multiset()));
        assert(insert_desc(s, m).to_multiset() =~= s.to_multiset().insert(m));
    } else {
        assert(insert_desc(s, m) == seq![m] + s);
        assert(seq![m] =~= Seq::<PathMatchV>::empty().push(m));
        assert((seq![m] + s).to_multiset() =~= seq![m].to_multiset().add(s.to_multiset()));
        assert(insert_desc(s, m).to_multiset() =~= s.to_multiset().insert(m));
    }
}

/// `sort_desc` is a permutation: the same hits, each as often as before.
pub proof fn lemma_sort_desc_permutation(s: Seq<PathMatchV>)
    ensures
        sort_desc(s).to_multiset() == s.to_multiset(),
    decreases s.len(),
{
    broadcast use vstd::seq_lib::group_to_multiset_ensures;

    if s.len() == 0 {
    } else {
        lemma_sort_desc_permutation(s.drop_last());
        lemma_insert_desc_multiset(sort_desc(s.drop_last()), s.last());
        assert(s =~= s.drop_last().push(s.last()));
        assert(sort_desc(s).to_multiset() =~= s.to_multiset());
    }
}

/// Every entry a completed search returns is a genuine hit of the query
/// among the visible worktrees' candidates.
pub proof fn lemma_search_results_are_hits(wts: Seq<WorktreeV>, q: Seq<char>)
    ensures
        forall|k: int|
            0 <= k < search_spec(wts, q).len() ==> sets_matches(candidate_sets_of(wts), q).contains(
                #[trigger] search_spec(wts, q)[k],
            ),
{
    broadcast use vstd::seq_lib::group_to_multiset_ensures;

    let all = sets_matches(candidate_sets_of(wts), q);
    let s = sort_desc(all);
    lemma_sort_desc_permutation(all);
    assert forall|k: int| 0 <= k < search_spec(wts, q).len() implies all.contains(
        #[trigger] search_spec(wts, q)[k],
    ) by {
        let x = search_spec(wts, q)[k];
        if s.len() <= 100 {
            assert(x == s[k]);
        } else {
            assert(x == s.take(100)[k] && s.take(100)[k] == s[k]);
        }
        assert(s.contains(s[k]));
        assert(s.to_multiset().count(x) > 0);
        assert(all.contains(x));
    }
}

/// A completed search's result is ordered by relevance score, descending.
pub proof fn lemma_search_sorted(wts: Seq<WorktreeV>, q: Seq<char>)
    ensures
        sorted_desc(search_spec(wts, q)),
{
    let all = sets_matches(candidate_sets_of(wts), q);
    lemma_sort_desc_sorted(all);
    let s = sort_desc(all);
    if s.len() <= 100 {
    } else {
        assert forall|a: int, b: int| 0 <= a < b < s.take(100).len() implies s.take(100)[a].score
            >= s.take(100)[b].score by {
            assert(s.take(100)[a] == s[a] && s.take(100)[b] == s[b]);
        }
    }
}

} // verus!

//! The project model: worktrees as immutable snapshots of a root's file tree,
//! absolutization of root-relative paths, and argument resolution.
//!
//! An argument such as `root/sub/file.txt` resolves against the first known
//! worktree whose root name is its leading component; the remainder is taken
//! as root-relative and absolutized, unless it escapes the root through a
//! `..` component.

use vstd::prelude::*;

verus! {

/// One file or directory of a worktree snapshot, under its root-relative path.
pub struct PathEntry {
    pub path: String,
    pub is_dir: bool,
    pub is_ignored: bool,
}

/// The mathematical value of a `PathEntry`.
pub struct PathEntryV {
    pub path: Seq<char>,
    pub is_dir: bool,
    pub is_ignored: bool,
}

impl View for PathEntry {
    type V = PathEntryV;

    open spec fn view(&self) -> PathEntryV {
        PathEntryV { path: self.path@, is_dir: self.is_dir, is_ignored: self.is_ignored }
    }
}

impl Clone for PathEntry {
    fn clone(&self) -> (r: Self)
        ensures
            r == *self,
    {
        PathEntry { path: self.path.clone(), is_dir: self.is_dir, is_ignored: self.is_ignored }
    }
}

/// A project root: its display name, its absolute location, whether its root
/// entry is ignored, whether it is visible in the workspace, and a snapshot
/// of its entries.
pub struct Worktree {
    pub root_name: String,
    pub abs_root: String,
    pub root_ignored: bool,
    pub visible: bool,
    pub entries: Vec<PathEntry>,
}

/// The mathematical value of a `Worktree`.
pub struct WorktreeV {
    pub root_name: Seq<char>,
    pub abs_root: Seq<char>,
    pub root_ignored: bool,
    pub visible: bool,
    pub entries: Seq<PathEntryV>,
}

impl View for Worktree {
    type V = WorktreeV;

    open spec fn view(&self) -> WorktreeV {
        WorktreeV {
            root_name: self.root_name@,
            abs_root: self.abs_root@,
            root_ignored: self.root_ignored,
            visible: self.visible,
            entries: self.entries@.map_values(|e: PathEntry| e@),
        }
    }
}

/// The workspace's project model: the known worktrees, in iteration order.
pub struct Project {
    pub worktrees: Vec<Worktree>,
}

impl View for Project {
    type V = Seq<WorktreeV>;

    open spec fn view(&self) -> Seq<WorktreeV> {
        self.worktrees@.map_values(|w: Worktree| w@)
    }
}

/// `rel` surrounded by separators, so that a `..` component appears exactly
/// as the window `/../`.
pub open spec fn padded(rel: Seq<char>) -> Seq<char> {
    seq!['/'] + rel + seq!['/']
}

/// Whether the window of four characters starting at `i` reads `/../`.
pub open spec fn dotdot_window(p: Seq<char>, i: int) -> bool {
    p[i] == '/' && p[i + 1] == '.' && p[i + 2] == '.' && p[i + 3] == '/'
}

/// A root-relative path escapes its root when it contains a `..` component.
pub open spec fn escapes_root(rel: Seq<char>) -> bool {
    exists|i: int| 0 <= i && i + 4 <= padded(rel).len() && dotdot_window(padded(rel), i)
}

/// Scan for a `..` component in a root-relative path.
pub fn has_dotdot_component(rel: &str) -> (r: bool)
    ensures
        r == escapes_root(rel@),
{
    proof {
        reveal_strlit("/");
    }
    let mut p: String = "/".to_owned();
    p.append(rel);
    p.append("/");
    assert(p@ =~= padded(rel@));
    let n: usize = p.as_str().unicode_len();
    if n < 4 {
        return false;
    }
    let mut i: usize = 0;
    while i <= n - 4
        invariant
            p@ == padded(rel@),
            n == p@.len(),
            n >= 4,
            0 <= i <= n - 3,
            forall|k: int| 0 <= k < i ==> !dotdot_window(p@, k),
        decreases n - i,
    {
        let s: &str = p.as_str();
        if s.get_char(i) == '/' && s.get_char(i + 1) == '.' && s.get_char(i + 2) == '.'
            && s.get_char(i + 3) == '/' {
            assert(dotdot_window(p@, i as int));
            return true;
        }
        i += 1;
    }
    false
}

/// What absolutizing `rel` against worktree `w` yields: the absolute root for
/// the empty remainder, the joined path otherwise, and nothing at all when
/// `rel` escapes the root.
pub open spec fn absolutize_spec(w: WorktreeV, rel: Seq<char>) -> Option<Seq<char>> {
    if escapes_root(rel) {
        None
    } else if rel.len() == 0 {
        Some(w.abs_root)
    } else {
        Some(w.abs_root + seq!['/'] + rel)
    }
}

/// What stripping root name `root` off argument `arg` leaves: the empty
/// remainder when they are equal, the part after `root/` when `root` is the
/// leading component, and nothing otherwise.
pub open spec fn strips_to(root: Seq<char>, arg: Seq<char>) -> Option<Seq<char>> {
    if arg == root {
        Some(Seq::empty())
    } else if arg.len() > root.len() && arg.subrange(0, root.len() as int) == root && arg[root.len() as int]
        == '/' {
        Some(arg.subrange(root.len() as int + 1, arg.len() as int))
    } else {
        None
    }
}

/// The absolute path one worktree offers for an argument: its root name
/// stripped off, the remainder absolutized.
pub open spec fn hit_of(w: WorktreeV, arg: Seq<char>) -> Option<Seq<char>> {
    match strips_to(w.root_name, arg) {
        Some(rel) => absolutize_spec(w, rel),
        None => None,
    }
}

/// First-match-wins resolution of an argument across the worktrees: the first
/// root whose name is the argument's leading component and whose remainder
/// absolutizes wins.
pub open spec fn resolve_spec(wts: Seq<WorktreeV>, arg: Seq<char>) -> Option<Seq<char>>
    decreases wts.len(),
{
    if wts.len() == 0 {
        None
    } else {
        match hit_of(wts[0], arg) {
            Some(abs) => Some(abs),
            None => resolve_spec(wts.drop_first(), arg),
        }
    }
}

/// First match wins, in general: when the worktrees before `i` offer no
/// absolute path for the argument and worktree `i` offers one, resolution
/// returns exactly worktree `i`'s path, in iteration order.
pub proof fn lemma_first_match_wins(wts: Seq<WorktreeV>, arg: Seq<char>, i: int)
    requires
        0 <= i < wts.len(),
        forall|j: int| 0 <= j < i ==> hit_of(#[trigger] wts[j], arg) is None,
        hit_of(wts[i], arg) is Some,
    ensures
        resolve_spec(wts, arg) == hit_of(wts[i], arg),
    decreases i,
{
    if i == 0 {
    } else {
        assert(hit_of(wts[0], arg) is None);
        assert(forall|j: int|
            0 <= j < i - 1 ==> hit_of(#[trigger] wts.drop_first()[j], arg) is None) by {
            assert(forall|j: int|
                0 <= j < i - 1 ==> #[trigger] wts.drop_first()[j] == wts[j + 1]);
        }
        assert(wts.drop_first()[i - 1] == wts[i]);
        lemma_first_match_wins(wts.drop_first(), arg, i - 1);
    }
}

impl Worktree {
    /// Turn a root-relative path into an absolute one, refusing a path that
    /// escapes the root.
    pub fn absolutize(&self, rel: &str) -> (r: Option<String>)
        ensures
            (r is Some) == (absolutize_spec(self@, rel@) is Some),
            r is Some ==> r.unwrap()@ == absolutize_spec(self@, rel@).unwrap(),
    {
        if has_dotdot_component(rel) {
            return None;
        }
        if rel.unicode_len() == 0 {
            return Some(self.abs_root.clone());
        }
        proof {
            reveal_strlit("/");
        }
        let mut abs: String = self.abs_root.clone();
        abs.append("/");
        abs.append(rel);
        assert(abs@ =~= self@.abs_root + seq!['/'] + rel@);
        Some(abs)
    }
}

/// Strip `root` (as a leading path component) off `arg`.
pub fn strip_root_prefix(root: &str, arg: &str) -> (r: Option<String>)
    ensures
        (r is Some) == (strips_to(root@, arg@) is Some),
        r is Some ==> r.unwrap()@ == strips_to(root@, arg@).unwrap(),
{
    if crate::text::str_eq(arg, root) {
        return Some(String::new());
    }
    let rn: usize = root.unicode_len();
    let an: usize = arg.unicode_len();
    if an <= rn {
        return None;
    }
    let mut i: usize = 0;
    while i < rn
        invariant
            rn == root@.len(),
            an == arg@.len(),
            an > rn,
            0 <= i <= rn,
            arg@ != root@,
            forall|k: int| 0 <= k < i ==> arg@[k] == root@[k],
        decreases rn - i,
    {
        if arg.get_char(i) != root.get_char(i) {
            assert(arg@.subrange(0, rn as int)[i as int] != root@[i as int]);
            return None;
        }
        i += 1;
    }
    assert(arg@.subrange(0, rn as int) =~= root@);
    if arg.get_char(rn) != '/' {
        return None;
    }
    let rest: String = arg.substring_char(rn + 1, an).to_owned();
    Some(rest)
}

impl Project {
    /// Resolve an argument to an absolute path inside the first matching
    /// worktree, in worktree iteration order.
    pub fn resolve(&self, arg: &str) -> (r: Option<String>)
        ensures
            (r is Some) == (resolve_spec(self@, arg@) is Some),
            r is Some ==> r.unwrap()@ == resolve_spec(self@, arg@).unwrap(),
    {
        let n: usize = self.worktrees.len();
        let mut i: usize = 0;
        proof {
            assert(self@.skip(0) =~= self@);
        }
        while i < n
            invariant
                n == self.worktrees@.len(),
                0 <= i <= n,
                resolve_spec(self@, arg@) == resolve_spec(self@.skip(i as int), arg@),
            decreases n - i,
        {
            let w: &Worktree = &self.worktrees[i];
            proof {
                assert(self@.skip(i as int)[0] == self@[i as int]);
                assert(self@.skip(i as int).drop_first() =~= self@.skip(i as int + 1));
            }
            if let Some(rel) = strip_root_prefix(w.root_name.as_str(), arg) {
                if let Some(abs) = w.absolutize(rel.as_str()) {
                    return Some(abs);
                }
            }
            i += 1;
        }
        None
    }
}

} // verus!

//! The `file` slash command: it resolves its path argument inside the known
//! project roots, loads the file's content, and wraps it in a fenced code
//! block labelled with the argument as typed.

use crate::error::{InsertionError, IoErrorKind};
use crate::file_store::{lookup, FileStore, StoredFile};
use crate::search::{
    match_views, search_project, search_result_len, search_spec, CancellationFlag, PathMatch,
    PathMatchV,
};
use crate::worktree::{resolve_spec, Project};
use vstd::prelude::*;

verus! {

/// The three-backtick fence marker.
pub open spec fn fence() -> Seq<char> {
    seq!['`', '`', '`']
}

/// The formatted insertion text: opening fence, the argument as a label, a
/// newline, the raw content, a newline unless the content already ends in
/// one, and the closing fence. The output is a well-formed fenced block
/// even when the content lacks a trailing newline.
pub open spec fn formatted_text(arg: Seq<char>, content: Seq<char>) -> Seq<char> {
    let head = fence() + arg + seq!['\n'] + content;
    if content.len() > 0 && content.last() == '\n' {
        head + fence()
    } else {
        head + seq!['\n'] + fence()
    }
}

/// The strings under which search hits are offered as completions: the
/// root-name prefix followed by the relative path.
pub open spec fn completion_strings(ms: Seq<PathMatchV>) -> Seq<Seq<char>> {
    ms.map_values(|m: PathMatchV| m.path_prefix + m.path)
}

/// A file whose content already ends with a newline is wrapped as it is:
/// nothing is appended between the content and the closing fence, so the
/// content's own newline is the one trailing newline there. Formatting is a
/// function of the argument and content alone, so re-running the insertion
/// on the same file yields identical output bytes.
pub proof fn lemma_trailing_newline_kept(arg: Seq<char>, content: Seq<char>)
    requires
        content.len() > 0,
        content.last() == '\n',
    ensures
        formatted_text(arg, content) == fence() + arg + seq!['\n'] + content + fence(),
{
    let head = fence() + arg + seq!['\n'] + content;
    assert(head.last() == content.last());
}

/// A file whose content does not end with a newline has exactly one newline
/// appended between the content and the closing fence.
pub proof fn lemma_missing_newline_appended(arg: Seq<char>, content: Seq<char>)
    requires
        content.len() == 0 || content.last() != '\n',
    ensures
        formatted_text(arg, content) == fence() + arg + seq!['\n'] + content + seq!['\n']
            + fence(),
{
    assert(formatted_text(arg, content) =~= fence() + arg + seq!['\n'] + content + seq!['\n']
        + fence());
}

/// Build the fenced block around `content`, labelled with `argument`.
pub fn build_fenced_text(argument: &str, content: &str) -> (out: String)
    ensures
        out@ == formatted_text(argument@, content@),
{
    proof {
        reveal_strlit("```");
        reveal_strlit("\n");
    }
    let mut out: String = String::new();
    out.append("```");
    out.append(argument);
    out.append("\n");
    out.append(content);
    assert(out@ =~= fence() + argument@ + seq!['\n'] + content@);
    if !crate::text::str_ends_with_newline(content) {
        out.append("\n");
    }
    out.append("```");
    assert(out@ =~= formatted_text(argument@, content@));
    out
}

/// The renderable placeholder that stands in for the inserted block: the
/// display path, when one is known, and the element id the UI assigned.
/// Unfolding it back into the inserted text is a UI action and stays with
/// the caller that renders it.
#[derive(Debug)]
pub struct FilePlaceholder {
    pub path: Option<String>,
    pub id: u64,
}

impl FilePlaceholder {
    /// The label under which the placeholder is shown.
    pub fn title(&self) -> (r: String)
        ensures
            self.path matches Some(p) ==> r@ == p@,
            self.path is None ==> r@ == "untitled"@,
    {
        match &self.path {
            Some(p) => p.clone(),
            None => "untitled".to_owned(),
        }
    }
}

/// What a successful insertion hands back: the formatted text and the
/// as-typed path from which a placeholder is rendered.
#[derive(Debug)]
pub struct SlashCommandOutput {
    pub text: String,
    pub path: String,
}

impl SlashCommandOutput {
    /// The placeholder for this output, under the element id the UI chose.
    pub fn render_placeholder(&self, id: u64) -> (p: FilePlaceholder)
        ensures
            p.path matches Some(q) && q@ == self.path@,
            p.id == id,
    {
        FilePlaceholder { path: Some(self.path.clone()), id }
    }
}

/// The `file` slash command over a project model.
pub struct FileSlashCommand {
    pub project: Project,
}

impl FileSlashCommand {
    /// A command bound to the given project model.
    pub fn new(project: Project) -> (r: Self)
        ensures
            r.project == project,
    {
        FileSlashCommand { project }
    }

    /// The command's name.
    pub fn name(&self) -> (r: String)
        ensures
            r@ == "file"@,
    {
        "file".to_owned()
    }

    /// The command's palette description.
    pub fn description(&self) -> (r: String)
        ensures
            r@ == "insert a file"@,
    {
        "insert a file".to_owned()
    }

    /// The command's tooltip.
    pub fn tooltip_text(&self) -> (r: String)
        ensures
            r@ == "insert file"@,
    {
        "insert file".to_owned()
    }

    /// The command demands exactly one path argument.
    pub fn requires_argument(&self) -> (r: bool)
        ensures
            r == true,
    {
        true
    }

    /// Search the project's visible worktrees for fuzzy matches of `query`,
    /// ranked by score, descending, at most `MAX_SEARCH_RESULTS` of them;
    /// a flag set before the call yields an empty list.
    pub fn search_paths(&self, query: &str, cancellation_flag: &CancellationFlag) -> (r: Vec<
        PathMatch,
    >)
        ensures
            cancellation_flag.cancelled ==> match_views(r@) == Seq::<PathMatchV>::empty(),
            !cancellation_flag.cancelled ==> match_views(r@) == search_spec(self.project@, query@),
            r@.len() == search_result_len(self.project@, query@, cancellation_flag.cancelled),
    {
        search_project(&self.project, query, cancellation_flag)
    }

    /// Complete a partial argument: each search hit, shown as its root-name
    /// prefix followed by its relative path.
    pub fn complete_argument(&self, query: &str, cancellation_flag: &CancellationFlag) -> (r:
        Result<Vec<String>, InsertionError>)
        ensures
            r matches Ok(v) && v@.map_values(|s: String| s@) == completion_strings(
                if cancellation_flag.cancelled {
                    Seq::<PathMatchV>::empty()
                } else {
                    search_spec(self.project@, query@)
                },
            ),
            r matches Ok(v) && v@.len() <= 100,
    {
        let hits = self.search_paths(query, cancellation_flag);
        let ghost hv = match_views(hits@);
        let n: usize = hits.len();
        let mut out: Vec<String> = Vec::new();
        let mut i: usize = 0;
        proof {
            assert(out@.map_values(|s: String| s@) =~= completion_strings(hv.take(0)));
        }
        while i < n
            invariant
                n == hits@.len(),
                hv == match_views(hits@),
                0 <= i <= n,
                out@.map_values(|s: String| s@) == completion_strings(hv.take(i as int)),
            decreases n - i,
        {
            let mut s: String = hits[i].path_prefix.clone();
            s.append(hits[i].path.as_str());
            proof {
                assert(hv.take(i as int + 1).drop_last() =~= hv.take(i as int));
                assert(hv.take(i as int + 1).last() == hv[i as int]);
                assert(s@ == hv[i as int].path_prefix + hv[i as int].path);
            }
            let ghost out0 = out@;
            let ghost sv = s@;
            out.push(s);
            proof {
                assert(out@.map_values(|s2: String| s2@) =~= out0.map_values(
                    |s2: String| s2@,
                ).push(sv));
                assert(completion_strings(hv.take(i as int + 1)) =~= completion_strings(
                    hv.take(i as int),
                ).push(hv[i as int].path_prefix + hv[i as int].path));
                assert(out@.map_values(|s2: String| s2@) == completion_strings(
                    hv.take(i as int + 1),
                ));
            }
            i += 1;
        }
        proof {
            assert(hv.take(n as int) =~= hv);
        }
        Ok(out)
    }

    /// Run the insertion: resolve the argument inside the project roots,
    /// load the file from the store, and format the fenced block. A missing
    /// or unresolvable argument fails before any load; a load failure is
    /// passed on with the collaborator's own error kind; the store is read
    /// through exactly one load otherwise.
    pub fn run(&self, argument: Option<&str>, store: &mut FileStore) -> (r: Result<
        SlashCommandOutput,
        InsertionError,
    >)
        requires
            old(store).load_count < u64::MAX,
        ensures
            argument is None ==> (r matches Err(e) && e is MissingArgument && *final(store)
                == *old(store)),
            (argument is Some && resolve_spec(self.project@, argument.unwrap()@) is None) ==> (
            r matches Err(e) && e is PathNotFound && *final(store) == *old(store)),
            (argument is Some && resolve_spec(self.project@, argument.unwrap()@) is Some) ==> {
                let a = argument.unwrap()@;
                let abs = resolve_spec(self.project@, a).unwrap();
                &&& final(store).files == old(store).files
                &&& final(store).load_count == old(store).load_count + 1
                &&& match lookup(old(store).files@.map_values(|f: StoredFile| f@), abs) {
                    Some(content) => r matches Ok(out) && out.text@ == formatted_text(a, content)
                        && out.path@ == a,
                    None => r matches Err(e) && e == InsertionError::IoFailure(
                        IoErrorKind::NotFound,
                    ),
                }
            },
    {
        let Some(arg) = argument else {
            return Err(InsertionError::MissingArgument);
        };
        let Some(abs_path) = self.project.resolve(arg) else {
            return Err(InsertionError::PathNotFound);
        };
        let content = match store.load(abs_path.as_str()) {
            Ok(content) => content,
            Err(e) => {
                return Err(e);
            },
        };
        let text = build_fenced_text(arg, content.as_str());
        Ok(SlashCommandOutput { text, path: arg.to_owned() })
    }
}

} // verus!

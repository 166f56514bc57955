//! What "Git Clone" does once a destination is chosen: the directory name
//! taken from the repository URL, the question asked when the window already
//! has a project, and where the clone is opened for each answer.

use vstd::prelude::*;

verus! {

/// The text after the last `/` (all of it when there is none).
pub open spec fn last_segment(s: Seq<char>) -> Seq<char>
    decreases s.len(),
{
    if s.len() == 0 {
        s
    } else if s.last() == '/' {
        Seq::empty()
    } else {
        last_segment(s.drop_last()).push(s.last())
    }
}

/// `s` without a trailing `.git`.
pub open spec fn strip_git(s: Seq<char>) -> Seq<char> {
    if s.len() >= 4 && s.subrange(s.len() - 4, s.len() as int) == seq!['.', 'g', 'i', 't'] {
        s.subrange(0, s.len() - 4)
    } else {
        s
    }
}

proof fn lemma_last_segment(s: Seq<char>, i: int)
    requires
        0 <= i <= s.len(),
        i == 0 || s[i - 1] == '/',
        forall|t: int| i <= t < s.len() ==> s[t] != '/',
    ensures
        last_segment(s) == s.subrange(i, s.len() as int),
    decreases s.len(),
{
    if s.len() == i {
        if i > 0 {
            assert(s.last() == '/');
        }
        assert(s.subrange(i, s.len() as int) =~= Seq::<char>::empty());
    } else {
        lemma_last_segment(s.drop_last(), i);
        assert(s.subrange(i, s.len() as int) =~= s.drop_last().subrange(i, s.len() - 1).push(s.last()));
    }
}

/// The directory a clone of `repo_url` goes into: the URL's last path
/// segment without `.git`.
pub fn repo_name_from_url(repo_url: &str) -> (name: String)
    ensures
        name@ == strip_git(last_segment(repo_url@)),
{
    let len = repo_url.unicode_len();
    let mut start: usize = len;
    while start > 0
        invariant_except_break
            forall|t: int| start <= t < len ==> repo_url@[t] != '/',
        invariant
            start <= len,
            len == repo_url@.len(),
        ensures
            start <= len,
            start == 0 || repo_url@[start - 1] == '/',
            forall|t: int| start <= t < len ==> repo_url@[t] != '/',
        decreases start,
    {
        if repo_url.get_char(start - 1) == '/' {
            break;
        }
        start -= 1;
    }
    proof {
        lemma_last_segment(repo_url@, start as int);
    }
    let segment = repo_url.substring_char(start, len);
    let n = len - start;
    if n >= 4 && segment.get_char(n - 4) == '.' && segment.get_char(n - 3) == 'g'
        && segment.get_char(n - 2) == 'i' && segment.get_char(n - 1) == 't' {
        assert(segment@.subrange(n - 4, n as int) =~= seq!['.', 'g', 'i', 't']);
        String::from_str(segment.substring_char(0, n - 4))
    } else {
        proof {
            if n >= 4 && segment@.subrange(n - 4, n as int) == seq!['.', 'g', 'i', 't'] {
                assert(segment@[n - 4] == segment@.subrange(n - 4, n as int)[0]);
                assert(segment@[n - 3] == segment@.subrange(n - 4, n as int)[1]);
                assert(segment@[n - 2] == segment@.subrange(n - 4, n as int)[2]);
                assert(segment@[n - 1] == segment@.subrange(n - 4, n as int)[3]);
            }
        }
        String::from_str(segment)
    }
}

/// The title of the question asked after a clone: `Git Clone: <name>`.
pub fn clone_prompt_title(repo_name: &str) -> (title: String)
    ensures
        title@ == "Git Clone: "@ + repo_name@,
{
    let mut title = String::from_str("Git Clone: ");
    title.append(repo_name);
    title
}

/// Where a finished clone is opened.
#[derive(Clone, Copy, Debug, PartialEq, Eq, Structural)]
pub enum CloneOpen {
    /// Added as a worktree of the window's project.
    AddToProject,
    /// Opened in this window, which had no project.
    OpenHere,
    /// Opened as a project of its own in a new window.
    OpenInNewWindow,
    /// The question was dismissed: nothing is opened.
    Nothing,
}

/// Where the clone is opened for the answer to "Add repo to project" (0) /
/// "Open repo in new project" (1). A window without a project is not asked:
/// its answer counts as 0, and the clone opens in it.
pub fn clone_open_action(has_worktrees: bool, answer: usize) -> (action: CloneOpen)
    ensures
        action == if !has_worktrees {
            CloneOpen::OpenHere
        } else if answer == 0 {
            CloneOpen::AddToProject
        } else if answer == 1 {
            CloneOpen::OpenInNewWindow
        } else {
            CloneOpen::Nothing
        },
{
    let answer = if has_worktrees { answer } else { 0 };
    if answer == 0 {
        if has_worktrees {
            CloneOpen::AddToProject
        } else {
            CloneOpen::OpenHere
        }
    } else if answer == 1 {
        CloneOpen::OpenInNewWindow
    } else {
        CloneOpen::Nothing
    }
}

} // verus!

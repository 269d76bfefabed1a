//! The decisions of the synchronisation engine: which of the three pull outcomes
//! applies, how commits are signed and named, and which paths may be staged.
use vstd::prelude::*;
use crate::storage::strs;
use crate::repo_path::within;

verus! {

/// The one remote the engine talks to.
pub const REMOTE_NAME: &'static str = "origin";

/// The one branch the engine tracks.
pub const BRANCH_NAME: &'static str = "main";

/// What a pull does once the remote history has been fetched.
#[derive(Debug, PartialEq, Eq, Structural, Clone, Copy)]
pub enum PullPlan {
    /// Nothing to do.
    UpToDate,
    /// Move the branch to the fetched commit and update the working tree.
    FastForward,
    /// Merge, keeping the remote's version of every conflicting path, then commit with
    /// both histories as parents.
    MergeTheirs,
}

/// The file to stage lies outside the working tree.
#[derive(Debug, PartialEq, Eq, Structural, Clone, Copy)]
pub struct NotInRepository;

/// The pull outcome for a merge analysis of the fetched commit.
pub fn pull_plan(up_to_date: bool, fast_forward: bool) -> (r: PullPlan)
    ensures
        r == if up_to_date {
            PullPlan::UpToDate
        } else if fast_forward {
            PullPlan::FastForward
        } else {
            PullPlan::MergeTheirs
        },
{
    if up_to_date {
        PullPlan::UpToDate
    } else if fast_forward {
        PullPlan::FastForward
    } else {
        PullPlan::MergeTheirs
    }
}

pub open spec fn fallback_name() -> Seq<char> {
    seq!['W', 'e', 'b', 'T', 'a', 'g', 's', ' ', 'U', 's', 'e', 'r']
}

pub open spec fn fallback_email() -> Seq<char> {
    seq!['w', 'e', 'b', 't', 'a', 'g', 's', '@', 'l', 'o', 'c', 'a', 'l', 'h', 'o', 's', 't']
}

/// The name and email commits are signed with: the configured ones, each replaced by a
/// fixed fallback where it is not configured.
pub fn signature_identity(name: Option<String>, email: Option<String>) -> (r: (String, String))
    ensures
        r.0@ == match name {
            Some(n) => n@,
            None => fallback_name(),
        },
        r.1@ == match email {
            Some(e) => e@,
            None => fallback_email(),
        },
{
    proof {
        reveal_strlit("WebTags User");
        reveal_strlit("webtags@localhost");
    }
    let n = match name {
        Some(n) => n,
        None => {
            let d = String::from_str("WebTags User");
            assert(d@ =~= fallback_name());
            d
        },
    };
    let e = match email {
        Some(e) => e,
        None => {
            let d = String::from_str("webtags@localhost");
            assert(d@ =~= fallback_email());
            d
        },
    };
    (n, e)
}

pub open spec fn heads_prefix() -> Seq<char> {
    seq!['r', 'e', 'f', 's', '/', 'h', 'e', 'a', 'd', 's', '/']
}

/// The reference of a local branch: `refs/heads/<branch>`.
pub fn branch_ref(branch: &str) -> (r: String)
    ensures
        r@ == heads_prefix() + branch@,
{
    proof {
        reveal_strlit("refs/heads/");
    }
    let mut s = String::from_str("refs/heads/");
    s.append(branch);
    assert(s@ =~= heads_prefix() + branch@);
    s
}

/// The push refspec sending a branch to the branch of the same name.
pub fn push_refspec(branch: &str) -> (r: String)
    ensures
        r@ == heads_prefix() + branch@ + seq![':'] + heads_prefix() + branch@,
{
    proof {
        reveal_strlit(":");
    }
    let mut s = branch_ref(branch);
    s.append(":");
    let other = branch_ref(branch);
    s.append(other.as_str());
    assert(s@ =~= heads_prefix() + branch@ + seq![':'] + heads_prefix() + branch@);
    s
}

pub open spec fn merge_message_text(remote: Seq<char>, branch: Seq<char>) -> Seq<char> {
    seq!['M', 'e', 'r', 'g', 'e', ' ', 'f', 'r', 'o', 'm', ' '] + remote + seq!['/'] + branch
}

/// The message of the commit that completes a merge: `Merge from <remote>/<branch>`.
pub fn merge_message(remote: &str, branch: &str) -> (r: String)
    ensures
        r@ == merge_message_text(remote@, branch@),
{
    proof {
        reveal_strlit("Merge from ");
        reveal_strlit("/");
    }
    let mut s = String::from_str("Merge from ");
    s.append(remote);
    s.append("/");
    s.append(branch);
    assert(s@ =~= merge_message_text(remote@, branch@));
    s
}

pub open spec fn no_message() -> Seq<char> {
    seq!['(', 'n', 'o', ' ', 'm', 'e', 's', 's', 'a', 'g', 'e', ')']
}

/// The branch tip's message, or `(no message)` where it has none.
pub fn message_or_default(message: Option<String>) -> (r: String)
    ensures
        r@ == match message {
            Some(m) => m@,
            None => no_message(),
        },
{
    match message {
        Some(m) => m,
        None => {
            proof {
                reveal_strlit("(no message)");
            }
            let d = String::from_str("(no message)");
            assert(d@ =~= no_message());
            d
        },
    }
}

/// The path to stage, relative to the working tree: a relative path as given, an
/// absolute one with the tree's own path removed from its front.
pub fn relative_in_repo(repo: &Vec<String>, file: Vec<String>, absolute: bool) -> (r: Result<
    Vec<String>,
    NotInRepository,
>)
    ensures
        !absolute ==> r is Ok && strs(r->Ok_0@) == strs(file@),
        absolute && within(strs(repo@), strs(file@)) ==> r is Ok && strs(r->Ok_0@) == strs(
            file@,
        ).subrange(repo@.len() as int, file@.len() as int),
        absolute && !within(strs(repo@), strs(file@)) ==> r == Err::<Vec<String>, NotInRepository>(
            NotInRepository,
        ),
{
    if !absolute {
        return Ok(file);
    }
    if !crate::repo_path::is_within(repo, &file) {
        return Err(NotInRepository);
    }
    let mut out: Vec<String> = Vec::new();
    let mut i: usize = repo.len();
    while i < file.len()
        invariant
            repo@.len() <= i <= file@.len(),
            strs(out@) == strs(file@).subrange(repo@.len() as int, i as int),
        decreases file@.len() - i,
    {
        let ghost before = out@;
        let c = file[i].clone();
        out.push(c);
        assert(strs(out@) =~= strs(before).push(c@));
        assert(strs(out@) =~= strs(file@).subrange(repo@.len() as int, i + 1));
        i = i + 1;
    }
    Ok(out)
}

/// The present values of `s`, in order.
pub open spec fn present_sides<T>(s: Seq<Option<T>>) -> Seq<T>
    decreases s.len(),
{
    if s.len() == 0 {
        Seq::empty()
    } else {
        match s.last() {
            Some(x) => present_sides(s.drop_last()).push(x),
            None => present_sides(s.drop_last()),
        }
    }
}

/// The "theirs" resolution of a conflicted merge: for each conflicting path, in order,
/// the remote's side where the remote has one; a path the remote deleted contributes
/// nothing.
pub fn theirs_resolution<T>(their_sides: Vec<Option<T>>) -> (r: Vec<T>)
    ensures
        r@ == present_sides(their_sides@),
{
    let ghost all = their_sides@;
    let mut v = their_sides;
    let mut out: Vec<T> = Vec::new();
    let ghost mut k: int = 0;
    while v.len() > 0
        invariant
            0 <= k <= all.len(),
            v@ == all.subrange(k, all.len() as int),
            out@ == present_sides(all.subrange(0, k)),
        decreases v@.len(),
    {
        let side = v.remove(0);
        assert(all.subrange(0, k + 1).drop_last() =~= all.subrange(0, k));
        assert(all.subrange(0, k + 1).last() == side);
        match side {
            Some(x) => {
                out.push(x);
            },
            None => {},
        }
        proof {
            k = k + 1;
        }
        assert(v@ =~= all.subrange(k, all.len() as int));
    }
    assert(all.subrange(0, k) =~= all);
    out
}

} // verus!

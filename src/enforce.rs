//! Committing a sandbox policy to the calling thread, and the processes it
//! starts afterwards, through Landlock.

use vstd::prelude::*;

use crate::access::{known_rights, TARGET_ABI};
use crate::laws::planned_rights_known;
use crate::policy::{
    dir_view, policy_for, roots_view, root_dir, sandbox_policy, state_dir_of, state_dir_path,
    policy_rights_known, tmp_dir, PolicyView, SandboxPolicy,
};
use crate::ruleset::{
    add_path_rule, create_ruleset, handle_fs_access, open_path, path_exists, restrict_self,
    Committed, OpenDir,
};

verus! {

/// How far the kernel enforces a committed policy.
#[derive(Clone, Copy, Debug, PartialEq, Eq, Structural)]
pub enum Enforcement {
    /// Every handled right is enforced.
    Full,
    /// Some rights are not enforced: the running kernel does not know them,
    /// or a rule on a regular file was narrowed to the rights that apply to
    /// files.
    Partial,
    /// The kernel has no Landlock support: nothing is enforced.
    NotEnforced,
}

impl Enforcement {
    /// A caller warns that the process runs unsandboxed exactly when nothing
    /// is enforced; partial enforcement is still a sandbox.
    pub fn should_warn(&self) -> (r: bool)
        ensures
            r == (*self == Enforcement::NotEnforced),
    {
        match self {
            Enforcement::NotEnforced => true,
            _ => false,
        }
    }
}

/// Why a policy could not be committed. Each variant carries the underlying
/// cause.
#[derive(Debug)]
pub enum SandboxError {
    /// A directory of a rule could not be opened.
    PathResolution { path: String, cause: landlock::PathFdError },
    /// The kernel refused to create the ruleset, to handle its rights or to
    /// register a rule.
    PolicyCreation(landlock::RulesetError),
    /// The kernel refused to restrict the process.
    Commit(landlock::RulesetError),
    /// The policy names a right that Landlock does not know.
    UnknownRights,
}

/// A step of building the ruleset: a refusal by the kernel becomes a
/// `PolicyCreation` error carrying it.
pub fn creation_outcome<T>(outcome: Result<T, landlock::RulesetError>) -> (r: Result<T, SandboxError>)
    ensures
        match outcome {
            Ok(v) => r == Ok::<T, SandboxError>(v),
            Err(e) => r == Err::<T, SandboxError>(SandboxError::PolicyCreation(e)),
        },
{
    match outcome {
        Ok(v) => Ok(v),
        Err(e) => Err(SandboxError::PolicyCreation(e)),
    }
}

/// Opening the directory of the rule for `path`: a failure becomes a
/// `PathResolution` error naming `path` and carrying the cause.
pub fn open_outcome(path: &String, outcome: Result<OpenDir, landlock::PathFdError>) -> (r: Result<
    OpenDir,
    SandboxError,
>)
    ensures
        match outcome {
            Ok(d) => r == Ok::<OpenDir, SandboxError>(d),
            Err(e) => match r {
                Err(SandboxError::PathResolution { path: p, cause }) => p@ == path@ && cause == e,
                _ => false,
            },
        },
{
    match outcome {
        Ok(d) => Ok(d),
        Err(cause) => Err(SandboxError::PathResolution { path: path.clone(), cause }),
    }
}

/// Committing the ruleset: every enforcement status the kernel reports,
/// `NotEnforced` included, is a success; only a refused restriction is an
/// error.
pub fn commit_outcome(outcome: Result<Committed, landlock::RulesetError>) -> (r: Result<
    Committed,
    SandboxError,
>)
    ensures
        match outcome {
            Ok(c) => r == Ok::<Committed, SandboxError>(c),
            Err(e) => r == Err::<Committed, SandboxError>(SandboxError::Commit(e)),
        },
{
    match outcome {
        Ok(c) => Ok(c),
        Err(e) => Err(SandboxError::Commit(e)),
    }
}

/// The error that names a directory of `policy` which could not be opened.
pub open spec fn names_rule_dir(policy: PolicyView, r: Result<Committed, SandboxError>) -> bool {
    match r {
        Err(SandboxError::PathResolution { path, .. }) => exists|i: int|
            0 <= i < policy.rules.len() && #[trigger] policy.rules[i].path == path@,
        _ => true,
    }
}

/// Commits `policy` to the calling thread and the processes it starts
/// afterwards: its handled rights become denied by default and each rule, in
/// order, allows some back. On success the committed ruleset is `policy`
/// exactly. The restriction cannot be undone. A policy that names a right
/// Landlock does not know is refused before anything reaches the kernel.
pub fn apply_policy(policy: &SandboxPolicy) -> (r: Result<Committed, SandboxError>)
    ensures
        r is Ok ==> r->Ok_0.policy() == policy@,
        names_rule_dir(policy@, r),
        (r matches Err(SandboxError::UnknownRights)) <==> !policy_rights_known(policy@),
{
    if !policy.rights_known() {
        return Err(SandboxError::UnknownRights);
    }
    let handling = match creation_outcome(handle_fs_access(policy.handled)) {
        Ok(h) => h,
        Err(e) => return Err(e),
    };
    let mut ruleset = match creation_outcome(create_ruleset(handling)) {
        Ok(b) => b,
        Err(e) => return Err(e),
    };
    let mut i: usize = 0;
    assert(policy@.rules.take(0) =~= Seq::empty());
    while i < policy.rules.len()
        invariant
            policy_rights_known(policy@),
            i <= policy.rules@.len(),
            ruleset@ == (PolicyView { handled: policy@.handled, rules: policy@.rules.take(i as int) }),
        decreases policy.rules@.len() - i,
    {
        let rule = &policy.rules[i];
        let dir = match open_outcome(&rule.path, open_path(rule.path.as_str())) {
            Ok(dir) => dir,
            Err(e) => {
                assert(policy@.rules[i as int].path == rule.path@);
                return Err(e);
            },
        };
        assert(known_rights(policy@.rules[i as int].access));
        ruleset = match creation_outcome(add_path_rule(ruleset, dir, rule.access)) {
            Ok(b) => b,
            Err(e) => return Err(e),
        };
        assert(policy@.rules.take(i + 1) =~= policy@.rules.take(i as int).push(policy@.rules[i as int]));
        i = i + 1;
    }
    assert(policy@.rules.take(i as int) =~= policy@.rules);
    commit_outcome(restrict_self(ruleset))
}

/// `path` is one of the directories that the sandbox for `roots`, `home` and
/// the state directory's name `name` names in its rules.
pub open spec fn sandbox_dir(
    roots: Seq<Seq<char>>,
    home: Option<Seq<char>>,
    name: Seq<char>,
    path: Seq<char>,
) -> bool {
    ||| path == root_dir()
    ||| path == tmp_dir()
    ||| roots.contains(path)
    ||| (home is Some && path == state_dir_path(home->Some_0, name))
}

/// `committed` is the sandbox policy for `roots`: without a state directory,
/// or, when there is a home directory, with the state directory `name` in it.
pub open spec fn is_sandbox_for(
    committed: PolicyView,
    roots: Seq<Seq<char>>,
    home: Option<Seq<char>>,
    name: Seq<char>,
) -> bool {
    ||| committed == policy_for(TARGET_ABI, roots, None)
    ||| (home is Some && committed == policy_for(
        TARGET_ABI,
        roots,
        Some(state_dir_path(home->Some_0, name)),
    ))
}

/// Restricts the calling thread, and every process it starts afterwards,
/// to writing in `writable_roots`, the scratch directory `/tmp` and, when it
/// exists, the per-user state directory `state_dir_name` in `home`. Reading
/// and executing stay allowed everywhere.
///
/// Succeeds with the committed ruleset and the enforcement the kernel
/// reports; a kernel without Landlock gives `Enforcement::NotEnforced`, which
/// is no error. A directory that cannot be opened fails the whole call.
pub fn apply_landlock_sandbox(
    writable_roots: &[String],
    home: Option<String>,
    state_dir_name: &str,
) -> (r: Result<Committed, SandboxError>)
    ensures
        !(r matches Err(SandboxError::UnknownRights)),
        r is Ok ==> is_sandbox_for(
            r->Ok_0.policy(),
            roots_view(writable_roots@),
            dir_view(home),
            state_dir_name@,
        ),
        match r {
            Err(SandboxError::PathResolution { path, .. }) => sandbox_dir(
                roots_view(writable_roots@),
                dir_view(home),
                state_dir_name@,
                path@,
            ),
            _ => true,
        },
{
    let state_dir = match &home {
        Some(h) => {
            let d = state_dir_of(h.as_str(), state_dir_name);
            if path_exists(d.as_str()) {
                Some(d)
            } else {
                None
            }
        },
        None => None,
    };
    let ghost state = dir_view(state_dir);
    let policy = sandbox_policy(TARGET_ABI, writable_roots, state_dir);
    proof {
        planned_rights_known(TARGET_ABI, roots_view(writable_roots@), state);
    }
    let r = apply_policy(&policy);
    proof {
        if let Err(SandboxError::PathResolution { ref path, .. }) = r {
            let roots = roots_view(writable_roots@);
            let i = choose|i: int| 0 <= i < policy@.rules.len() && #[trigger] policy@.rules[i].path == path@;
            assert(policy@ == policy_for(TARGET_ABI, roots, state));
            if i >= 2 && i < 2 + roots.len() {
                assert(roots[i - 2] == path@);
            }
        }
    }
    r
}

} // verus!

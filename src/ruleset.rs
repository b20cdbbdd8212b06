//! Landlock rulesets as the kernel sees them, each value carrying the policy
//! it stands for. Only the calls into `landlock` below make such values, so
//! the policy a value carries is the one that was handed to the kernel.

use vstd::prelude::*;

use crate::access::known_rights;
use crate::enforce::Enforcement;
use crate::policy::{rule, PolicyView};

verus! {

#[verifier::external_type_specification]
#[verifier::external_body]
pub struct ExRuleset(landlock::Ruleset);

#[verifier::external_type_specification]
#[verifier::external_body]
pub struct ExRulesetCreated(landlock::RulesetCreated);

#[verifier::external_type_specification]
#[verifier::external_body]
pub struct ExRulesetError(landlock::RulesetError);

#[verifier::external_type_specification]
#[verifier::external_body]
pub struct ExPathFd(landlock::PathFd);

#[verifier::external_type_specification]
#[verifier::external_body]
pub struct ExPathFdError(landlock::PathFdError);

/// A ruleset not yet created in the kernel, with the rights it handles.
pub struct Handling {
    inner: landlock::Ruleset,
    access: Ghost<u64>,
}

impl View for Handling {
    type V = u64;

    closed spec fn view(&self) -> u64 {
        self.access@
    }
}

/// A kernel ruleset being filled, with the rights it handles and the rules
/// registered so far.
pub struct Building {
    inner: landlock::RulesetCreated,
    model: Ghost<PolicyView>,
}

impl View for Building {
    type V = PolicyView;

    closed spec fn view(&self) -> PolicyView {
        self.model@
    }
}

/// An opened directory that a rule can name, with the path it was opened by.
pub struct OpenDir {
    fd: landlock::PathFd,
    path: Ghost<Seq<char>>,
}

impl View for OpenDir {
    type V = Seq<char>;

    closed spec fn view(&self) -> Seq<char> {
        self.path@
    }
}

/// A ruleset committed to the calling thread (and the processes it starts
/// afterwards), with the enforcement the kernel reported.
pub struct Committed {
    status: Enforcement,
    model: Ghost<PolicyView>,
}

impl Committed {
    /// The policy that was committed.
    pub closed spec fn policy(&self) -> PolicyView {
        self.model@
    }

    pub closed spec fn enforcement(&self) -> Enforcement {
        self.status
    }

    /// How far the kernel enforces the committed policy.
    pub fn status(&self) -> (r: Enforcement)
        ensures
            r == self.enforcement(),
    {
        self.status
    }
}

/// Relies on `landlock::RulesetAttr::handle_access` with filesystem rights,
/// called on a fresh `landlock::Ruleset::default` (which probes the kernel):
/// the ruleset handles `access` and nothing else. Only known rights are
/// handed over, since unknown bits would be dropped on the way.
#[verifier::external_body]
pub(crate) fn handle_fs_access(access: u64) -> (r: Result<Handling, landlock::RulesetError>)
    requires
        known_rights(access),
    ensures
        r is Ok ==> r->Ok_0@ == access,
{
    let flags = landlock::BitFlags::<landlock::AccessFs>::from_bits_truncate(access);
    let inner = landlock::RulesetAttr::handle_access(landlock::Ruleset::default(), flags)?;
    Ok(Handling { inner, access: Ghost(access) })
}

/// Relies on `landlock::Ruleset::create`: the created ruleset handles what
/// the builder handled and holds no rule yet.
#[verifier::external_body]
pub(crate) fn create_ruleset(h: Handling) -> (r: Result<Building, landlock::RulesetError>)
    ensures
        r is Ok ==> r->Ok_0@ == (PolicyView { handled: h@, rules: Seq::empty() }),
{
    let model = Ghost(PolicyView { handled: h@, rules: Seq::empty() });
    Ok(Building { inner: h.inner.create()?, model })
}

/// Relies on `landlock::PathFd::new`, which opens `path` to name a file
/// hierarchy.
#[verifier::external_body]
pub(crate) fn open_path(path: &str) -> (r: Result<OpenDir, landlock::PathFdError>)
    ensures
        r is Ok ==> r->Ok_0@ == path@,
{
    Ok(OpenDir { fd: landlock::PathFd::new(path)?, path: Ghost(path@) })
}

/// Relies on `landlock::RulesetCreatedAttr::add_rule` with a
/// `landlock::PathBeneath` rule: `access` becomes allowed beneath `dir`,
/// after the rules already registered. Only known rights are handed over,
/// since unknown bits would be dropped on the way.
#[verifier::external_body]
pub(crate) fn add_path_rule(b: Building, dir: OpenDir, access: u64) -> (r: Result<Building, landlock::RulesetError>)
    requires
        known_rights(access),
    ensures
        r is Ok ==> r->Ok_0@ == (PolicyView { handled: b@.handled, rules: b@.rules.push(rule(dir@, access)) }),
{
    let model = Ghost(PolicyView { handled: b@.handled, rules: b@.rules.push(rule(dir@, access)) });
    let flags = landlock::BitFlags::<landlock::AccessFs>::from_bits_truncate(access);
    let inner = landlock::RulesetCreatedAttr::add_rule(b.inner, landlock::PathBeneath::new(dir.fd, flags))?;
    Ok(Building { inner, model })
}

/// Relies on `landlock::RulesetCreated::restrict_self`, which commits the
/// ruleset to the current thread and reports how far it is enforced.
#[verifier::external_body]
pub(crate) fn restrict_self(b: Building) -> (r: Result<Committed, landlock::RulesetError>)
    ensures
        r is Ok ==> r->Ok_0.policy() == b@,
{
    let model = Ghost(b@);
    let status = match b.inner.restrict_self()?.ruleset {
        landlock::RulesetStatus::FullyEnforced => Enforcement::Full,
        landlock::RulesetStatus::PartiallyEnforced => Enforcement::Partial,
        landlock::RulesetStatus::NotEnforced => Enforcement::NotEnforced,
    };
    Ok(Committed { status, model })
}

/// Relies on `std::path::Path::exists`: whether something is found at `path`.
#[verifier::external_body]
pub(crate) fn path_exists(path: &str) -> bool {
    std::path::Path::new(path).exists()
}

} // verus!

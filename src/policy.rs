//! The sandbox policy: which rights are denied by default, which file
//! hierarchies get them back, and what that allows on a given path.

use vstd::prelude::*;

use crate::access::{
    all_access, all_rights, known_rights, read_access, read_rights, Abi, EXECUTE, KNOWN_RIGHTS,
};

verus! {

/// A rule that allows `access` on the file hierarchy rooted at `path`.
pub struct PathRule {
    pub path: String,
    pub access: u64,
}

pub ghost struct RuleView {
    pub path: Seq<char>,
    pub access: u64,
}

impl View for PathRule {
    type V = RuleView;

    open spec fn view(&self) -> RuleView {
        RuleView { path: self.path@, access: self.access }
    }
}

/// A ruleset before it is committed: the rights it denies by default
/// (`handled`) and the rules that allow some of them back, in the order they
/// are registered.
pub struct SandboxPolicy {
    pub handled: u64,
    pub rules: Vec<PathRule>,
}

pub ghost struct PolicyView {
    pub handled: u64,
    pub rules: Seq<RuleView>,
}

impl View for SandboxPolicy {
    type V = PolicyView;

    open spec fn view(&self) -> PolicyView {
        PolicyView { handled: self.handled, rules: self.rules@.map_values(|r: PathRule| r@) }
    }
}

/// `path` lies in the file hierarchy rooted at `root`: it is `root` itself or
/// names something below it. Paths are taken as written, without resolving
/// links or `..`.
pub open spec fn beneath(path: Seq<char>, root: Seq<char>) -> bool {
    &&& root.len() > 0
    &&& root.is_prefix_of(path)
    &&& (path.len() == root.len() || root.last() == '/' || path[root.len() as int] == '/')
}

/// `path` is absolute.
pub open spec fn absolute(path: Seq<char>) -> bool {
    path.len() > 0 && path[0] == '/'
}

/// The union of the rights that the rules covering `path` allow.
pub open spec fn granted(rules: Seq<RuleView>, path: Seq<char>) -> u64
    decreases rules.len(),
{
    if rules.len() == 0 {
        0
    } else {
        let last = rules.last();
        granted(rules.drop_last(), path) | (if beneath(path, last.path) {
            last.access
        } else {
            0
        })
    }
}

/// Under `policy`, every right of `access` is allowed on `path`: each one is
/// either not handled at all or allowed by some rule that covers `path`.
///
/// This is the kernel's decision when the policy is fully enforced and its
/// rule paths are absolute and free of links and `..`: paths are compared
/// as written.
pub open spec fn permits(policy: PolicyView, path: Seq<char>, access: u64) -> bool {
    access & policy.handled & !granted(policy.rules, path) == 0
}

pub open spec fn rule(path: Seq<char>, access: u64) -> RuleView {
    RuleView { path, access }
}

/// The file system root.
pub open spec fn root_dir() -> Seq<char> {
    seq!['/']
}

/// The shared scratch directory that stays writable.
pub open spec fn tmp_dir() -> Seq<char> {
    seq!['/', 't', 'm', 'p']
}

/// The per-user state directory called `name` in the home directory `home`:
/// `home` joined with `name`, with one separator between them. An absolute
/// `name` stands for itself.
pub open spec fn state_dir_path(home: Seq<char>, name: Seq<char>) -> Seq<char> {
    if home.len() == 0 || absolute(name) {
        name
    } else if home.last() == '/' {
        home + name
    } else {
        home + seq!['/'] + name
    }
}

pub open spec fn dir_view(dir: Option<String>) -> Option<Seq<char>> {
    match dir {
        Some(d) => Some(d@),
        None => None,
    }
}

pub open spec fn roots_view(roots: Seq<String>) -> Seq<Seq<char>> {
    roots.map_values(|s: String| s@)
}

/// Rules granting every right of `abi` on each of `dirs`, in order.
pub open spec fn full_rules(abi: Abi, dirs: Seq<Seq<char>>) -> Seq<RuleView> {
    dirs.map_values(|d: Seq<char>| rule(d, all_rights(abi)))
}

/// The directories that stay writable: the given roots, the scratch directory
/// and, when there is one, the state directory.
pub open spec fn writable_dirs(roots: Seq<Seq<char>>, state_dir: Option<Seq<char>>) -> Seq<Seq<char>> {
    roots + seq![tmp_dir()] + match state_dir {
        Some(d) => seq![d],
        None => Seq::empty(),
    }
}

/// The policy for `abi`: every right of the level is handled; reads and
/// execution are allowed from the root down; everything is allowed in the
/// writable directories.
pub open spec fn policy_for(abi: Abi, roots: Seq<Seq<char>>, state_dir: Option<Seq<char>>) -> PolicyView {
    PolicyView {
        handled: all_rights(abi),
        rules: seq![rule(root_dir(), read_rights(abi)), rule(root_dir(), EXECUTE)] + full_rules(
            abi,
            writable_dirs(roots, state_dir),
        ),
    }
}

pub open spec fn rules_view(rules: Seq<PathRule>) -> Seq<RuleView> {
    rules.map_values(|r: PathRule| r@)
}

fn push_rule(rules: &mut Vec<PathRule>, path: String, access: u64)
    ensures
        rules_view(final(rules)@) =~= rules_view(old(rules)@).push(rule(path@, access)),
{
    rules.push(PathRule { path, access });
}

/// Builds the policy that denies writes outside `writable_roots`, the scratch
/// directory and `state_dir`, and keeps reads and execution allowed everywhere.
pub fn sandbox_policy(abi: Abi, writable_roots: &[String], state_dir: Option<String>) -> (r: SandboxPolicy)
    ensures
        r@ == policy_for(abi, roots_view(writable_roots@), dir_view(state_dir)),
{
    let read = read_access(abi);
    let all = all_access(abi);
    let mut rules: Vec<PathRule> = Vec::new();
    proof {
        reveal_strlit("/");
        reveal_strlit("/tmp");
        assert("/"@ =~= root_dir());
        assert("/tmp"@ =~= tmp_dir());
        assert(rules_view(rules@) =~= Seq::empty());
    }
    push_rule(&mut rules, String::from_str("/"), read);
    push_rule(&mut rules, String::from_str("/"), EXECUTE);
    let ghost head = seq![rule(root_dir(), read_rights(abi)), rule(root_dir(), EXECUTE)];
    assert(rules_view(rules@) =~= head);
    let mut i: usize = 0;
    while i < writable_roots.len()
        invariant
            all == all_rights(abi),
            i <= writable_roots@.len(),
            rules_view(rules@) =~= head + full_rules(abi, roots_view(writable_roots@.take(i as int))),
        decreases writable_roots@.len() - i,
    {
        push_rule(&mut rules, writable_roots[i].clone(), all);
        proof {
            assert(writable_roots@.take(i + 1) =~= writable_roots@.take(i as int).push(
                writable_roots@[i as int],
            ));
            assert(head + full_rules(abi, roots_view(writable_roots@.take(i + 1))) =~= (head
                + full_rules(abi, roots_view(writable_roots@.take(i as int)))).push(
                rule(writable_roots@[i as int]@, all),
            ));
        }
        i = i + 1;
    }
    push_rule(&mut rules, String::from_str("/tmp"), all);
    match state_dir {
        Some(d) => push_rule(&mut rules, d, all),
        None => {},
    }
    let r = SandboxPolicy { handled: all, rules };
    proof {
        assert(writable_roots@.take(writable_roots@.len() as int) =~= writable_roots@);
        let dirs = writable_dirs(roots_view(writable_roots@), dir_view(state_dir));
        assert(full_rules(abi, dirs) =~= full_rules(abi, roots_view(writable_roots@)) + full_rules(abi, dirs.subrange(writable_roots@.len() as int, dirs.len() as int)));
        assert(r@.rules =~= policy_for(abi, roots_view(writable_roots@), dir_view(state_dir)).rules);
    }
    r
}

/// Tells whether `path` lies in the file hierarchy rooted at `root`.
pub fn is_beneath(path: &str, root: &str) -> (r: bool)
    ensures
        r == beneath(path@, root@),
{
    let n = path.unicode_len();
    let m = root.unicode_len();
    if m == 0 || m > n {
        return false;
    }
    let mut i: usize = 0;
    while i < m
        invariant
            n == path@.len(),
            m == root@.len(),
            m <= n,
            i <= m,
            forall|j: int| 0 <= j < i ==> path@[j] == root@[j],
        decreases m - i,
    {
        if path.get_char(i) != root.get_char(i) {
            return false;
        }
        i = i + 1;
    }
    proof {
        assert(root@ =~= path@.subrange(0, m as int));
    }
    m == n || root.get_char(m - 1) == '/' || path.get_char(m) == '/'
}

impl SandboxPolicy {
    /// Tells whether the policy, once committed, lets a process use every right
    /// of `access` on `path`.
    pub fn allows(&self, path: &str, access: u64) -> (r: bool)
        ensures
            r == permits(self@, path@, access),
    {
        let mut g: u64 = 0;
        let mut i: usize = 0;
        while i < self.rules.len()
            invariant
                i <= self.rules@.len(),
                g == granted(self@.rules.take(i as int), path@),
            decreases self.rules@.len() - i,
        {
            proof {
                assert(self@.rules.take(i + 1).drop_last() =~= self@.rules.take(i as int));
            }
            if is_beneath(path, self.rules[i].path.as_str()) {
                g = g | self.rules[i].access;
            } else {
                proof {
                    let x = granted(self@.rules.take(i as int), path@);
                    assert(x | 0 == x) by (bit_vector);
                }
            }
            i = i + 1;
        }
        proof {
            assert(self@.rules.take(i as int) =~= self@.rules);
        }
        access & self.handled & !g == 0
    }
}

/// The per-user state directory called `name` in the home directory `home`.
pub fn state_dir_of(home: &str, name: &str) -> (r: String)
    ensures
        r@ == state_dir_path(home@, name@),
{
    proof {
        reveal_strlit("/");
        assert("/"@ =~= seq!['/']);
    }
    let n = home.unicode_len();
    if n == 0 || (name.unicode_len() > 0 && name.get_char(0) == '/') {
        String::from_str(name)
    } else if home.get_char(n - 1) == '/' {
        let mut s = String::from_str(home);
        s.append(name);
        s
    } else {
        let mut s = String::from_str(home);
        s.append("/");
        s.append(name);
        s
    }
}

/// Every right that `policy` handles or allows is one the `landlock` crate
/// knows.
pub open spec fn policy_rights_known(policy: PolicyView) -> bool {
    &&& known_rights(policy.handled)
    &&& forall|i: int| 0 <= i < policy.rules.len() ==> known_rights(#[trigger] policy.rules[i].access)
}

impl SandboxPolicy {
    /// Tells whether every right of the policy is one the `landlock` crate
    /// knows.
    pub fn rights_known(&self) -> (r: bool)
        ensures
            r == policy_rights_known(self@),
    {
        if self.handled & !KNOWN_RIGHTS != 0 {
            return false;
        }
        let mut i: usize = 0;
        while i < self.rules.len()
            invariant
                i <= self.rules@.len(),
                forall|j: int| 0 <= j < i ==> known_rights(#[trigger] self@.rules[j].access),
            decreases self.rules@.len() - i,
        {
            if self.rules[i].access & !KNOWN_RIGHTS != 0 {
                assert(!known_rights(self@.rules[i as int].access));
                return false;
            }
            i = i + 1;
        }
        true
    }
}

} // verus!

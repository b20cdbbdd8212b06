//! What the sandbox policy guarantees, proved over the model of how Landlock
//! decides an access.

use vstd::prelude::*;

use crate::access::{all_rights, known_rights, read_rights, write_rights, Abi, EXECUTE, TARGET_ABI};
use crate::enforce::is_sandbox_for;
use crate::policy::{
    absolute, beneath, full_rules, granted, permits, policy_for, policy_rights_known, root_dir, rule, state_dir_path,
    tmp_dir, writable_dirs, PolicyView, RuleView,
};

verus! {

/// `path` lies in one of the directories that the policy keeps writable.
pub open spec fn in_writable_dir(roots: Seq<Seq<char>>, state_dir: Option<Seq<char>>, path: Seq<char>) -> bool {
    exists|j: int|
        0 <= j < writable_dirs(roots, state_dir).len() && #[trigger] beneath(
            path,
            writable_dirs(roots, state_dir)[j],
        )
}

/// Every right is allowed on `path` by each of the stacked `layers`: what a
/// process may do once all of them are committed.
pub open spec fn stacked_permits(layers: Seq<PolicyView>, path: Seq<char>, access: u64) -> bool {
    forall|i: int| 0 <= i < layers.len() ==> permits(#[trigger] layers[i], path, access)
}

proof fn lemma_granted_uniform(pre: Seq<RuleView>, extra: Seq<RuleView>, path: Seq<char>, a: u64)
    requires
        forall|j: int| 0 <= j < extra.len() ==> (#[trigger] extra[j]).access == a,
    ensures
        granted(pre + extra, path) == if exists|j: int|
            0 <= j < extra.len() && #[trigger] beneath(path, extra[j].path) {
            granted(pre, path) | a
        } else {
            granted(pre, path)
        },
    decreases extra.len(),
{
    let x = granted(pre, path);
    if extra.len() == 0 {
        assert(pre + extra =~= pre);
    } else {
        let rest = extra.drop_last();
        let last = extra.last();
        assert((pre + extra).drop_last() =~= pre + rest);
        assert((pre + extra).last() == last);
        lemma_granted_uniform(pre, rest, path, a);
        let xa = x | a;
        assert(x | 0 == x) by (bit_vector);
        assert(xa | 0 == xa) by (bit_vector);
        assert(x | a | a == x | a) by (bit_vector);
        let in_rest = exists|j: int| 0 <= j < rest.len() && #[trigger] beneath(path, rest[j].path);
        let in_extra = exists|j: int| 0 <= j < extra.len() && #[trigger] beneath(path, extra[j].path);
        if in_rest {
            let j = choose|j: int| 0 <= j < rest.len() && #[trigger] beneath(path, rest[j].path);
            assert(rest[j] == extra[j]);
            assert(in_extra);
        }
        if beneath(path, last.path) {
            assert(beneath(path, extra[extra.len() - 1].path));
            assert(in_extra);
        }
        if in_extra {
            let j = choose|j: int| 0 <= j < extra.len() && #[trigger] beneath(path, extra[j].path);
            if j < rest.len() {
                assert(beneath(path, rest[j].path));
            }
        }
    }
}

proof fn lemma_abi_rights(abi: Abi)
    ensures
        read_rights(abi) == 13,
        write_rights(abi) & 13 == 0,
        all_rights(abi) == write_rights(abi) | 13,
        write_rights(abi) != 0,
{
    assert(EXECUTE | 4u64 | 8u64 == 13) by (bit_vector);
    match abi {
        Abi::V1 => assert(0x1ff2u64 & 13 == 0 && 13 | 0x1ff2u64 == 0x1ff2u64 | 13) by (bit_vector),
        Abi::V2 => assert(0x3ff2u64 & 13 == 0 && 13 | 0x3ff2u64 == 0x3ff2u64 | 13) by (bit_vector),
        Abi::V3 | Abi::V4 => assert(0x7ff2u64 & 13 == 0 && 13 | 0x7ff2u64 == 0x7ff2u64 | 13) by (bit_vector),
        Abi::V5 | Abi::V6 | Abi::V7 | Abi::V8 => assert(0xfff2u64 & 13 == 0 && 13 | 0xfff2u64
            == 0xfff2u64 | 13) by (bit_vector),
        Abi::V9 => assert(0x1fff2u64 & 13 == 0 && 13 | 0x1fff2u64 == 0x1fff2u64 | 13) by (bit_vector),
    }
}

/// The rights that the planned policy gives an absolute path: the read-like
/// ones everywhere, all of them in the writable directories.
proof fn lemma_granted_policy(abi: Abi, roots: Seq<Seq<char>>, state_dir: Option<Seq<char>>, path: Seq<char>)
    requires
        absolute(path),
    ensures
        granted(policy_for(abi, roots, state_dir).rules, path) == if in_writable_dir(roots, state_dir, path) {
            all_rights(abi)
        } else {
            read_rights(abi)
        },
{
    lemma_abi_rights(abi);
    let all = all_rights(abi);
    let w = write_rights(abi);
    let head = seq![rule(root_dir(), read_rights(abi)), rule(root_dir(), EXECUTE)];
    let dirs = writable_dirs(roots, state_dir);
    let extra = full_rules(abi, dirs);
    assert(policy_for(abi, roots, state_dir).rules == head + extra);
    assert(root_dir().is_prefix_of(path));
    assert(beneath(path, root_dir()));
    assert(head.drop_last() =~= seq![rule(root_dir(), read_rights(abi))]);
    assert(head.drop_last().drop_last() =~= Seq::<RuleView>::empty());
    assert(0u64 | 13 == 13 && 13u64 | 1 == 13) by (bit_vector);
    assert(granted(Seq::<RuleView>::empty(), path) == 0);
    assert(granted(head.drop_last(), path) == 13);
    assert(granted(head, path) == 13);
    lemma_granted_uniform(head, extra, path, all);
    assert(13 | (w | 13) == w | 13) by (bit_vector);
    if in_writable_dir(roots, state_dir, path) {
        let j = choose|j: int| 0 <= j < dirs.len() && #[trigger] beneath(path, dirs[j]);
        assert(beneath(path, extra[j].path));
    } else {
        assert forall|j: int| 0 <= j < extra.len() implies !#[trigger] beneath(path, extra[j].path) by {
            assert(extra[j].path == dirs[j]);
        }
    }
}

/// Reading and executing stay allowed on every absolute path, whatever
/// directories are writable.
pub proof fn reads_and_execution_allowed_everywhere(
    abi: Abi,
    roots: Seq<Seq<char>>,
    state_dir: Option<Seq<char>>,
    path: Seq<char>,
)
    requires
        absolute(path),
    ensures
        permits(policy_for(abi, roots, state_dir), path, read_rights(abi)),
        permits(policy_for(abi, roots, state_dir), path, EXECUTE),
{
    lemma_granted_policy(abi, roots, state_dir, path);
    lemma_abi_rights(abi);
    let w = write_rights(abi);
    assert(13u64 & (w | 13) & !13u64 == 0 && 13u64 & (w | 13) & !(w | 13) == 0) by (bit_vector);
    assert(1u64 & (w | 13) & !13u64 == 0 && 1u64 & (w | 13) & !(w | 13) == 0) by (bit_vector);
}

/// On an absolute path, a set of rights is allowed exactly when it holds no
/// write-like right or the path lies in a writable directory.
pub proof fn writes_allowed_only_in_writable_dirs(
    abi: Abi,
    roots: Seq<Seq<char>>,
    state_dir: Option<Seq<char>>,
    path: Seq<char>,
    access: u64,
)
    requires
        absolute(path),
    ensures
        permits(policy_for(abi, roots, state_dir), path, access) <==> (access & write_rights(abi) == 0
            || in_writable_dir(roots, state_dir, path)),
{
    lemma_granted_policy(abi, roots, state_dir, path);
    lemma_abi_rights(abi);
    let w = write_rights(abi);
    assert(access & (w | 13) & !(w | 13) == 0) by (bit_vector);
    assert(w & 13 == 0 ==> ((access & (w | 13) & !13u64 == 0) <==> (access & w == 0))) by (bit_vector);
}

/// With no writable roots given, writes are allowed only in the scratch
/// directory and, when there is one, the state directory.
pub proof fn no_roots_leave_only_scratch_writable(
    abi: Abi,
    state_dir: Option<Seq<char>>,
    path: Seq<char>,
    access: u64,
)
    requires
        absolute(path),
    ensures
        permits(policy_for(abi, Seq::empty(), state_dir), path, access) <==> (access & write_rights(abi)
            == 0 || beneath(path, tmp_dir()) || (state_dir is Some && beneath(
            path,
            state_dir->Some_0,
        ))),
{
    writes_allowed_only_in_writable_dirs(abi, Seq::empty(), state_dir, path, access);
    let dirs = writable_dirs(Seq::empty(), state_dir);
    assert(dirs[0] == tmp_dir());
    if state_dir is Some {
        assert(dirs[1] == state_dir->Some_0);
    }
    if in_writable_dir(Seq::empty(), state_dir, path) {
        let j = choose|j: int| 0 <= j < dirs.len() && #[trigger] beneath(path, dirs[j]);
        assert(j == 0 || j == 1);
    }
}

/// What a successful sandbox call leaves in force, on every absolute path,
/// when the kernel reports it fully enforced and the roots are absolute paths
/// without links or `..` (the model compares paths as written):
/// reading and executing stay allowed; the writable roots and the scratch
/// directory stay fully writable; and a write-like right is allowed nowhere
/// else but in the state directory inside `home`.
pub proof fn committed_sandbox_guarantees(
    committed: PolicyView,
    roots: Seq<Seq<char>>,
    home: Option<Seq<char>>,
    name: Seq<char>,
    path: Seq<char>,
    access: u64,
)
    requires
        is_sandbox_for(committed, roots, home, name),
        absolute(path),
    ensures
        permits(committed, path, read_rights(TARGET_ABI)),
        permits(committed, path, EXECUTE),
        in_writable_dir(roots, None, path) ==> permits(committed, path, access),
        permits(committed, path, access) ==> (access & write_rights(TARGET_ABI) == 0 || in_writable_dir(
            roots,
            None,
            path,
        ) || (home is Some && beneath(path, state_dir_path(home->Some_0, name)))),
{
    let state = if committed == policy_for(TARGET_ABI, roots, None) {
        None
    } else {
        Some(state_dir_path(home->Some_0, name))
    };
    assert(committed == policy_for(TARGET_ABI, roots, state));
    reads_and_execution_allowed_everywhere(TARGET_ABI, roots, state, path);
    writes_allowed_only_in_writable_dirs(TARGET_ABI, roots, state, path, access);
    let without = writable_dirs(roots, None);
    let with = writable_dirs(roots, state);
    if in_writable_dir(roots, None, path) {
        let j = choose|j: int| 0 <= j < without.len() && #[trigger] beneath(path, without[j]);
        assert(with[j] == without[j]);
    }
    if in_writable_dir(roots, state, path) {
        let j = choose|j: int| 0 <= j < with.len() && #[trigger] beneath(path, with[j]);
        if j < without.len() {
            assert(with[j] == without[j]);
        }
    }
}

/// No rule of the planned policy allows a right that the policy does not
/// handle, so the ruleset never carries a rule that Landlock would refuse as
/// allowing an unhandled right.
pub proof fn rules_stay_within_handled(abi: Abi, roots: Seq<Seq<char>>, state_dir: Option<Seq<char>>)
    ensures
        forall|j: int|
            0 <= j < policy_for(abi, roots, state_dir).rules.len() ==> #[trigger] policy_for(
                abi,
                roots,
                state_dir,
            ).rules[j].access & policy_for(abi, roots, state_dir).handled == policy_for(
                abi,
                roots,
                state_dir,
            ).rules[j].access,
{
    lemma_abi_rights(abi);
    let w = write_rights(abi);
    assert(13u64 & (w | 13) == 13 && 1u64 & (w | 13) == 1 && (w | 13) & (w | 13) == w | 13) by (bit_vector);
    let p = policy_for(abi, roots, state_dir);
    assert forall|j: int| 0 <= j < p.rules.len() implies #[trigger] p.rules[j].access & p.handled
        == p.rules[j].access by {
        if j >= 2 {
            assert(p.rules[j] == full_rules(abi, writable_dirs(roots, state_dir))[j - 2]);
        }
    }
}

/// The planned policy names only rights that the `landlock` crate knows,
/// so none of them is dropped on the way to the kernel.
pub proof fn planned_rights_known(abi: Abi, roots: Seq<Seq<char>>, state_dir: Option<Seq<char>>)
    ensures
        policy_rights_known(policy_for(abi, roots, state_dir)),
{
    rules_stay_within_handled(abi, roots, state_dir);
    lemma_abi_rights(abi);
    let h = all_rights(abi);
    match abi {
        Abi::V1 => assert(0x1ff2u64 | 13 == 0x1fff && 0x1fffu64 & !0x1ffffu64 == 0) by (bit_vector),
        Abi::V2 => assert(0x3ff2u64 | 13 == 0x3fff && 0x3fffu64 & !0x1ffffu64 == 0) by (bit_vector),
        Abi::V3 | Abi::V4 => assert(0x7ff2u64 | 13 == 0x7fff && 0x7fffu64 & !0x1ffffu64 == 0) by (bit_vector),
        Abi::V5 | Abi::V6 | Abi::V7 | Abi::V8 => assert(0xfff2u64 | 13 == 0xffff && 0xffffu64 & !0x1ffffu64
            == 0) by (bit_vector),
        Abi::V9 => assert(0x1fff2u64 | 13 == 0x1ffff && 0x1ffffu64 & !0x1ffffu64 == 0) by (bit_vector),
    }
    assert(known_rights(h));
    let p = policy_for(abi, roots, state_dir);
    assert forall|i: int| 0 <= i < p.rules.len() implies known_rights(#[trigger] p.rules[i].access) by {
        let a = p.rules[i].access;
        assert(a & h == a);
        assert(a & h == a && h & !0x1ffffu64 == 0 ==> a & !0x1ffffu64 == 0) by (bit_vector);
    }
}

/// Committing one more ruleset never allows what the rulesets committed
/// before it denied: a process may only lose rights.
pub proof fn another_layer_never_relaxes(layers: Seq<PolicyView>, next: PolicyView, path: Seq<char>, access: u64)
    ensures
        stacked_permits(layers.push(next), path, access) ==> stacked_permits(layers, path, access),
        stacked_permits(layers.push(next), path, access) ==> permits(next, path, access),
{
    if stacked_permits(layers.push(next), path, access) {
        assert forall|i: int| 0 <= i < layers.len() implies permits(#[trigger] layers[i], path, access) by {
            assert(layers.push(next)[i] == layers[i]);
        }
        assert(layers.push(next)[layers.len() as int] == next);
    }
}

} // verus!

use write_sandbox::access::{Abi, EXECUTE, READ_DIR, READ_FILE, TARGET_ABI, WRITE_FILE};
use write_sandbox::enforce::{
    apply_landlock_sandbox, apply_policy, commit_outcome, creation_outcome, open_outcome, Enforcement, SandboxError,
};
use write_sandbox::policy::{is_beneath, sandbox_policy, state_dir_of, PathRule, SandboxPolicy};

const READ: u64 = EXECUTE | READ_FILE | READ_DIR;

fn project_policy() -> SandboxPolicy {
    sandbox_policy(Abi::V3, &[String::from("/workspace/project")], None)
}

#[test]
fn write_inside_root_allowed_outside_denied() {
    let p = project_policy();
    assert!(p.allows("/workspace/project/file.txt", WRITE_FILE));
    assert!(!p.allows("/etc/passwd", WRITE_FILE));
    assert!(p.allows("/etc/passwd", READ_FILE));
    assert!(p.allows("/workspace/project", p.handled));
    assert!(!p.allows("/workspace/projects/file.txt", WRITE_FILE));
    assert!(!p.allows("/workspace", WRITE_FILE));
}

#[test]
fn no_roots_leaves_scratch_and_state_writable() {
    let p = sandbox_policy(Abi::V3, &[], Some(String::from("/home/user/.agent")));
    for path in ["/", "/etc/passwd", "/usr/bin/bash", "/home/user/notes"] {
        assert!(p.allows(path, READ));
        assert!(p.allows(path, EXECUTE));
        assert!(!p.allows(path, WRITE_FILE));
    }
    assert!(p.allows("/tmp/scratch", WRITE_FILE));
    assert!(p.allows("/tmp", p.handled));
    assert!(p.allows("/home/user/.agent/session.json", WRITE_FILE));
    assert!(!p.allows("/tmpfile", WRITE_FILE));
}

#[test]
fn no_roots_without_state_dir() {
    let p = sandbox_policy(Abi::V3, &[], None);
    assert_eq!(p.rules.len(), 3);
    assert!(!p.allows("/home/user/.agent/session.json", WRITE_FILE));
    assert!(p.allows("/tmp/x", WRITE_FILE));
}

#[test]
fn v3_rights_are_exact() {
    let p = project_policy();
    assert_eq!(p.handled, 0x7fff);
    assert_eq!(p.rules.len(), 4);
    assert_eq!(p.rules[0].path, "/");
    assert_eq!(p.rules[0].access, 13);
    assert_eq!(p.rules[1].path, "/");
    assert_eq!(p.rules[1].access, EXECUTE);
    assert_eq!(p.rules[2].path, "/workspace/project");
    assert_eq!(p.rules[2].access, 0x7fff);
    assert_eq!(p.rules[3].path, "/tmp");
    assert_eq!(p.rules[3].access, 0x7fff);
}

#[test]
fn rights_of_each_level() {
    let cases = [
        (Abi::V1, 0x1fff),
        (Abi::V2, 0x3fff),
        (Abi::V3, 0x7fff),
        (Abi::V4, 0x7fff),
        (Abi::V5, 0xffff),
        (Abi::V8, 0xffff),
        (Abi::V9, 0x1ffff),
    ];
    for (abi, all) in cases {
        let p = sandbox_policy(abi, &[], None);
        assert_eq!(p.handled, all);
        assert_eq!(p.rules[0].access, READ);
    }
    assert_eq!(TARGET_ABI, Abi::V3);
}

#[test]
fn roots_keep_their_order() {
    let roots = [String::from("/b"), String::from("/a"), String::from("/c")];
    let p = sandbox_policy(Abi::V3, &roots, Some(String::from("/h/.agent")));
    let paths: Vec<&str> = p.rules.iter().map(|r| r.path.as_str()).collect();
    assert_eq!(paths, vec!["/", "/", "/b", "/a", "/c", "/tmp", "/h/.agent"]);
}

#[test]
fn second_layer_only_narrows() {
    let first = sandbox_policy(Abi::V3, &[String::from("/work/a"), String::from("/work/b")], None);
    let second = sandbox_policy(Abi::V3, &[String::from("/work/a")], None);
    let stacked = |path: &str| first.allows(path, WRITE_FILE) && second.allows(path, WRITE_FILE);
    assert!(stacked("/work/a/f"));
    assert!(stacked("/tmp/f"));
    assert!(first.allows("/work/b/f", WRITE_FILE));
    assert!(!stacked("/work/b/f"));
    assert!(!stacked("/work/c/f"));
    assert!(stacked("/etc/hosts") == false && first.allows("/etc/hosts", READ_FILE));
}

#[test]
fn beneath_is_by_path_component() {
    assert!(is_beneath("/a/b", "/a"));
    assert!(is_beneath("/a", "/a"));
    assert!(is_beneath("/a/b", "/a/"));
    assert!(is_beneath("/anything", "/"));
    assert!(!is_beneath("/ab", "/a"));
    assert!(!is_beneath("/a", "/a/b"));
    assert!(!is_beneath("/a", ""));
}

#[test]
fn state_dir_joins_home() {
    assert_eq!(state_dir_of("/home/user", ".agent"), "/home/user/.agent");
    assert_eq!(state_dir_of("/home/user/", ".agent"), "/home/user/.agent");
    assert_eq!(state_dir_of("", ".agent"), ".agent");
}

#[test]
fn warning_only_when_not_enforced() {
    assert!(Enforcement::NotEnforced.should_warn());
    assert!(!Enforcement::Partial.should_warn());
    assert!(!Enforcement::Full.should_warn());
}

#[test]
fn missing_root_fails_with_path_error() {
    let missing = String::from("/nonexistent/write_sandbox/root");
    match apply_landlock_sandbox(&[missing.clone()], None, ".agent") {
        Err(SandboxError::PathResolution { path, .. }) => assert_eq!(path, missing),
        Err(_) => panic!("expected a path error"),
        Ok(_) => panic!("a missing root must fail"),
    }
}

#[test]
fn existing_roots_apply() {
    let roots = [String::from("/tmp"), String::from("/")];
    let r = apply_landlock_sandbox(&roots, None, ".agent");
    assert!(r.is_ok(), "existing roots must apply");
}

fn refused_ruleset() -> landlock::RulesetError {
    match landlock::Ruleset::default().create() {
        Err(e) => e,
        Ok(_) => panic!("a ruleset without handled rights is refused"),
    }
}

#[test]
fn kernel_refusals_map_to_their_errors() {
    assert!(matches!(
        creation_outcome::<u8>(Err(refused_ruleset())),
        Err(SandboxError::PolicyCreation(_))
    ));
    assert!(matches!(creation_outcome::<u8>(Ok(7)), Ok(7)));
    assert!(matches!(commit_outcome(Err(refused_ruleset())), Err(SandboxError::Commit(_))));
}

#[test]
fn open_failure_names_the_rule_path() {
    let path = String::from("/nonexistent/write_sandbox/dir");
    let cause = landlock::PathFd::new(&path).unwrap_err();
    match open_outcome(&path, Err(cause)) {
        Err(SandboxError::PathResolution { path: p, .. }) => assert_eq!(p, path),
        _ => panic!("expected a path error"),
    }
}

#[test]
fn state_dir_with_absolute_name() {
    assert_eq!(state_dir_of("/home/user", "/var/state"), "/var/state");
}

#[test]
fn unknown_rights_are_refused_before_the_kernel() {
    let mut p = project_policy();
    assert!(p.rights_known());
    p.handled = u64::MAX;
    assert!(!p.rights_known());
    assert!(matches!(apply_policy(&p), Err(SandboxError::UnknownRights)));
    let mut q = project_policy();
    q.rules.push(PathRule { path: String::from("/tmp"), access: 1 << 17 });
    assert!(!q.rights_known());
    assert!(matches!(apply_policy(&q), Err(SandboxError::UnknownRights)));
}

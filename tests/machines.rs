use disk_os::mkdir::{MkdirAll, MkdirStage};
use disk_os::ops::{FsAction, FsOutcome};
use disk_os::paths::{PathPart, SysPath};
use disk_os::rename::{RenameAll, RenameStage};

fn path(s: &str) -> SysPath {
    let mut parts = Vec::new();
    if s.starts_with('/') {
        parts.push(PathPart::Root);
    }
    for seg in s.split('/').filter(|x| !x.is_empty()) {
        parts.push(match seg {
            "." => PathPart::Current,
            ".." => PathPart::Up,
            n => PathPart::Normal(n.to_string()),
        });
    }
    SysPath { parts }
}

fn show(p: &SysPath) -> String {
    let mut out = String::new();
    for (i, part) in p.parts.iter().enumerate() {
        match part {
            PathPart::Root => out.push('/'),
            PathPart::Prefix(s) => out.push_str(s),
            PathPart::Current => out.push('.'),
            PathPart::Up => out.push_str(".."),
            PathPart::Normal(s) => {
                out.push_str(s);
                if i + 1 < p.parts.len() {
                    out.push('/');
                }
            }
        }
    }
    out
}

fn target(a: &FsAction) -> String {
    match a {
        FsAction::Stat(p) => format!("stat {}", show(p)),
        FsAction::CreateDir(p) => format!("mkdir {}", show(p)),
        FsAction::Rename => "rename".to_string(),
        FsAction::Succeed => "ok".to_string(),
        FsAction::Fail => "fail".to_string(),
    }
}

#[test]
fn creates_missing_directories_one_at_a_time() {
    let (mut m, a) = MkdirAll::start(path("/vol/bucket/obj"), path("/vol"));
    assert_eq!(target(&a), "mkdir /vol/bucket");
    let a = m.step(FsOutcome::Done);
    assert_eq!(target(&a), "mkdir /vol/bucket/obj");
    let a = m.step(FsOutcome::Done);
    assert_eq!(target(&a), "ok");
    assert_eq!(m.stage, MkdirStage::Finished);
}

#[test]
fn already_exists_is_success_at_each_step() {
    let (mut m, a) = MkdirAll::start(path("/vol/bucket/obj"), path("/vol"));
    assert_eq!(target(&a), "mkdir /vol/bucket");
    let a = m.step(FsOutcome::AlreadyExists);
    assert_eq!(target(&a), "mkdir /vol/bucket/obj");
    let a = m.step(FsOutcome::AlreadyExists);
    assert_eq!(target(&a), "ok");
}

#[test]
fn creating_twice_succeeds_the_second_time() {
    let (mut m, _) = MkdirAll::start(path("/vol/a/b"), path("/vol"));
    while !matches!(m.step(FsOutcome::Done), FsAction::Succeed) {}
    let (mut again, _) = MkdirAll::start(path("/vol/a/b"), path("/vol"));
    assert_eq!(target(&again.step(FsOutcome::AlreadyExists)), "mkdir /vol/a/b");
    assert_eq!(target(&again.step(FsOutcome::AlreadyExists)), "ok");
}

#[test]
fn boundary_and_its_ancestors_are_never_created() {
    for p in ["/vol", "/", "/vol/disk1"] {
        let (m, a) = MkdirAll::start(path(p), path("/vol/disk1"));
        assert_eq!(target(&a), "ok", "{p}");
        assert_eq!(m.stage, MkdirStage::Finished);
    }
    // A sibling of the boundary is not guarded, but its shared ancestors are.
    let (_, a) = MkdirAll::start(path("/vol/disk2"), path("/vol/disk1"));
    assert_eq!(target(&a), "mkdir /vol/disk2");
    // A missing boundary is not created either: the first request is below it.
    let (_, a) = MkdirAll::start(path("/vol/x/y"), path("/vol"));
    assert_eq!(target(&a), "mkdir /vol/x");
}

#[test]
fn empty_boundary_guards_nothing() {
    let (_, a) = MkdirAll::start(path("/vol"), path(""));
    assert_eq!(target(&a), "mkdir /vol");
    let (_, a) = MkdirAll::start(path("a/b"), path(""));
    assert_eq!(target(&a), "mkdir a");
    let (_, a) = MkdirAll::start(path("/"), path(""));
    assert_eq!(target(&a), "ok");
}

#[test]
fn vanished_ancestor_is_retried_once_with_climbed_boundary() {
    let (mut m, a) = MkdirAll::start(path("data/vol/bucket/obj"), path("data/vol"));
    assert_eq!(target(&a), "mkdir data/vol/bucket");
    let a = m.step(FsOutcome::NotFound);
    assert!(m.retried);
    assert_eq!(show(&m.boundary), "data");
    assert_eq!(show(&m.base), "data/vol");
    assert_eq!(target(&a), "mkdir data/vol");
    let a = m.step(FsOutcome::Done);
    assert_eq!(target(&a), "mkdir data/vol/bucket");
    let a = m.step(FsOutcome::NotFound);
    assert_eq!(target(&a), "fail");
}

#[test]
fn absolute_boundary_does_not_climb_to_root() {
    let (mut m, _) = MkdirAll::start(path("/vol/bucket/obj"), path("/vol/disk"));
    let a = m.step(FsOutcome::NotFound);
    assert_eq!(show(&m.boundary), "/vol/disk");
    assert_eq!(target(&a), "mkdir /vol/bucket");
}

#[test]
fn other_failures_are_not_retried() {
    let (mut m, _) = MkdirAll::start(path("/vol/bucket/obj"), path("/vol"));
    let a = m.step(FsOutcome::Failed);
    assert_eq!(target(&a), "fail");
    assert!(!m.retried);
}

#[test]
fn rename_with_existing_parent() {
    let (mut r, a) = RenameAll::start(path("/vol/tmp/x"), path("/vol/b/obj"), path("/vol"));
    assert_eq!(target(&a), "stat /vol/b");
    let a = r.step(FsOutcome::Done);
    assert_eq!(target(&a), "rename");
    let a = r.step(FsOutcome::Done);
    assert_eq!(target(&a), "ok");
    assert_eq!(r.stage, RenameStage::Finished);
}

#[test]
fn rename_creates_missing_parent_first() {
    let (mut r, _) = RenameAll::start(path("/vol/tmp/x"), path("/vol/b/c/obj"), path("/vol"));
    let a = r.step(FsOutcome::NotFound);
    assert_eq!(target(&a), "mkdir /vol/b");
    let a = r.step(FsOutcome::Done);
    assert_eq!(target(&a), "mkdir /vol/b/c");
    let a = r.step(FsOutcome::AlreadyExists);
    assert_eq!(target(&a), "rename");
    let a = r.step(FsOutcome::Done);
    assert_eq!(target(&a), "ok");
}

#[test]
fn rename_of_missing_source_succeeds() {
    let (mut r, _) = RenameAll::start(path("/vol/tmp/x"), path("/vol/b/obj"), path("/vol"));
    r.step(FsOutcome::Done);
    let a = r.step(FsOutcome::NotFound);
    assert_eq!(target(&a), "ok");
}

#[test]
fn rename_retries_once_then_fails() {
    let (mut r, _) = RenameAll::start(path("/vol/tmp/x"), path("/vol/b/obj"), path("/vol"));
    r.step(FsOutcome::Done);
    let a = r.step(FsOutcome::Failed);
    assert_eq!(target(&a), "rename");
    assert!(r.retried);
    let a = r.step(FsOutcome::Failed);
    assert_eq!(target(&a), "fail");
}

#[test]
fn rename_retry_can_succeed() {
    let (mut r, _) = RenameAll::start(path("/vol/tmp/x"), path("/vol/b/obj"), path("/vol"));
    r.step(FsOutcome::Done);
    assert_eq!(target(&r.step(FsOutcome::Failed)), "rename");
    assert_eq!(target(&r.step(FsOutcome::Done)), "ok");
}

#[test]
fn rename_fails_when_parent_cannot_be_created() {
    let (mut r, _) = RenameAll::start(path("/vol/tmp/x"), path("/vol/b/c/obj"), path("/vol"));
    r.step(FsOutcome::NotFound);
    let a = r.step(FsOutcome::Failed);
    assert_eq!(target(&a), "fail");
}

#[test]
fn rename_onto_a_path_without_parent() {
    let (mut r, a) = RenameAll::start(path("x"), path("/"), path(""));
    assert_eq!(target(&a), "rename");
    assert_eq!(target(&r.step(FsOutcome::NotFound)), "ok");
}

#[test]
fn parent_inside_boundary_is_not_created() {
    let (mut r, _) = RenameAll::start(path("/vol/tmp/x"), path("/vol/obj"), path("/vol"));
    let a = r.step(FsOutcome::NotFound);
    assert_eq!(target(&a), "rename");
}

#[test]
fn single_round_does_not_retry() {
    let (mut m, a) = MkdirAll::start_single_round(path("/vol/bucket/obj"), path("/vol"));
    assert_eq!(target(&a), "mkdir /vol/bucket");
    let a = m.step(FsOutcome::NotFound);
    assert_eq!(target(&a), "fail");
    let (_, a) = MkdirAll::start_single_round(path("/vol"), path("/vol/disk"));
    assert_eq!(target(&a), "ok");
}

#[test]
fn missing_source_succeeds_after_parent_created_on_retry() {
    let (mut r, _) = RenameAll::start(path("t/x"), path("data/vol/b/c/obj"), path("data/vol"));
    assert_eq!(target(&r.step(FsOutcome::NotFound)), "mkdir data/vol/b");
    assert_eq!(target(&r.step(FsOutcome::NotFound)), "mkdir data/vol");
    assert_eq!(target(&r.step(FsOutcome::Done)), "mkdir data/vol/b");
    assert_eq!(target(&r.step(FsOutcome::Done)), "mkdir data/vol/b/c");
    assert_eq!(target(&r.step(FsOutcome::Done)), "rename");
    assert_eq!(target(&r.step(FsOutcome::NotFound)), "ok");
}

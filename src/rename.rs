//! Renaming onto a destination whose parent may have to be created first,
//! with one retry.
use vstd::prelude::*;
use crate::mkdir::{MkdirAll, MkdirStage, MkdirView, creates_only_below, mkdir_start, mkdir_step, mkdir_wf};
use crate::ops::{ActionView, FsAction, FsOutcome};
use crate::paths::{PartView, SysPath, parent_of};

verus! {

/// Where a rename stands.
#[derive(Clone, Copy, Debug, PartialEq, Eq, Structural)]
pub enum RenameStage {
    /// Waiting to learn whether the destination's parent exists.
    Probe,
    /// Creating the destination's parent.
    Creating,
    /// Waiting for the outcome of the rename.
    Renaming,
    /// Over.
    Finished,
}

/// A rename of `src` onto `dst`; a missing parent of `dst` is created, but
/// nothing at or above `base`.
#[derive(Debug)]
pub struct RenameAll {
    pub src: SysPath,
    pub dst: SysPath,
    pub base: SysPath,
    pub mkdir: Option<MkdirAll>,
    pub retried: bool,
    pub stage: RenameStage,
}

pub struct RenameView {
    pub src: Seq<PartView>,
    pub dst: Seq<PartView>,
    pub base: Seq<PartView>,
    pub mkdir: Option<MkdirView>,
    pub retried: bool,
    pub stage: RenameStage,
}

impl View for RenameAll {
    type V = RenameView;

    open spec fn view(&self) -> RenameView {
        RenameView {
            src: self.src@,
            dst: self.dst@,
            base: self.base@,
            mkdir: match self.mkdir {
                Some(m) => Some(m@),
                None => None,
            },
            retried: self.retried,
            stage: self.stage,
        }
    }
}

/// The state and first action of renaming `src` onto `dst`: first learn
/// whether the parent of `dst` exists, if it has one.
pub open spec fn rename_start(src: Seq<PartView>, dst: Seq<PartView>, base: Seq<PartView>) -> (
    RenameView,
    ActionView,
) {
    match parent_of(dst) {
        Some(p) => (
            RenameView { src, dst, base, mkdir: None, retried: false, stage: RenameStage::Probe },
            ActionView::Stat(p),
        ),
        None => (
            RenameView { src, dst, base, mkdir: None, retried: false, stage: RenameStage::Renaming },
            ActionView::Rename,
        ),
    }
}

/// Hands control to the rename once the parent is there, or ends the
/// operation when creating it failed.
pub open spec fn after_creation_request(v: RenameView, m: MkdirView, a: ActionView) -> (RenameView, ActionView) {
    if a is Succeed {
        (RenameView { mkdir: Some(m), stage: RenameStage::Renaming, ..v }, ActionView::Rename)
    } else if a is Fail {
        (RenameView { mkdir: Some(m), stage: RenameStage::Finished, ..v }, ActionView::Fail)
    } else {
        (RenameView { mkdir: Some(m), stage: RenameStage::Creating, ..v }, a)
    }
}

/// What follows the outcome `o` of the request that `v` waits on.
///
/// A missing parent is created below `base`. A rename that finds no source
/// has nothing left to do and succeeds; any other failure is retried once.
pub open spec fn rename_step(v: RenameView, o: FsOutcome) -> (RenameView, ActionView) {
    match v.stage {
        RenameStage::Probe => if o == FsOutcome::Done {
            (RenameView { stage: RenameStage::Renaming, ..v }, ActionView::Rename)
        } else {
            after_creation_request(
                v,
                mkdir_start(parent_of(v.dst)->0, v.base).0,
                mkdir_start(parent_of(v.dst)->0, v.base).1,
            )
        },
        RenameStage::Creating => after_creation_request(
            v,
            mkdir_step(v.mkdir->0, o).0,
            mkdir_step(v.mkdir->0, o).1,
        ),
        _ => if o == FsOutcome::Done || o == FsOutcome::NotFound {
            (RenameView { stage: RenameStage::Finished, ..v }, ActionView::Succeed)
        } else if !v.retried {
            (RenameView { retried: true, ..v }, ActionView::Rename)
        } else {
            (RenameView { stage: RenameStage::Finished, ..v }, ActionView::Fail)
        },
    }
}

/// The states that a rename passes through: a probe has a parent to look
/// at, and a creation in progress is that of the parent below `base`.
pub open spec fn rename_wf(v: RenameView) -> bool {
    &&& (v.stage == RenameStage::Probe ==> parent_of(v.dst) is Some)
    &&& (v.stage == RenameStage::Creating ==> {
        &&& v.mkdir is Some
        &&& mkdir_wf(v.mkdir->0)
        &&& v.mkdir->0.stage != MkdirStage::Finished
        &&& parent_of(v.dst) == Some(v.mkdir->0.path)
        &&& v.mkdir->0.base == v.base
    })
}

/// The requests of a rename: it looks up, or creates below `base`, only the
/// parent of `dst`, and renames.
pub open spec fn rename_requests_ok(v: RenameView, a: ActionView) -> bool {
    &&& (a matches ActionView::Stat(t) ==> parent_of(v.dst) == Some(t))
    &&& (a is CreateDir ==> v.mkdir is Some && v.mkdir->0.path
        == parent_of(v.dst)->0 && v.mkdir->0.base == v.base && creates_only_below(
        v.mkdir->0,
        a,
    ))
}

/// Every state that a rename reaches is well formed, and each request it
/// makes stays within `rename_requests_ok`.
pub proof fn lemma_rename_step_wf(v: RenameView, o: FsOutcome)
    requires
        rename_wf(v),
        v.stage != RenameStage::Finished,
    ensures
        rename_wf(rename_step(v, o).0),
        rename_requests_ok(rename_step(v, o).0, rename_step(v, o).1),
        rename_step(v, o).0.dst == v.dst,
        rename_step(v, o).0.base == v.base,
{
    if v.stage == RenameStage::Creating {
        crate::mkdir::lemma_mkdir_step_stays_below(v.mkdir->0, o);
    } else if v.stage == RenameStage::Probe {
        crate::mkdir::lemma_mkdir_start_wf(parent_of(v.dst)->0, v.base);
    }
}

/// A rename whose source is already gone succeeds: the state it was meant
/// to bring about already holds.
pub proof fn lemma_rename_missing_source_succeeds(v: RenameView)
    requires
        v.stage == RenameStage::Renaming,
    ensures
        rename_step(v, FsOutcome::NotFound).1 == ActionView::Succeed,
        rename_step(v, FsOutcome::NotFound).0.stage == RenameStage::Finished,
{
}

/// The state and last request after the outcomes `os` are fed, one by one,
/// to the rename in state `v` whose last request was `a`.
pub open spec fn rename_after(v: RenameView, a: ActionView, os: Seq<FsOutcome>) -> (RenameView, ActionView)
    decreases os.len(),
{
    if os.len() == 0 || v.stage == RenameStage::Finished {
        (v, a)
    } else {
        rename_after(rename_step(v, os[0]).0, rename_step(v, os[0]).1, os.drop_first())
    }
}

proof fn lemma_rename_request_means_renaming(v: RenameView, a: ActionView, os: Seq<FsOutcome>)
    requires
        a is Rename ==> v.stage == RenameStage::Renaming,
    ensures
        rename_after(v, a, os).1 is Rename ==> rename_after(v, a, os).0.stage == RenameStage::Renaming,
    decreases os.len(),
{
    if os.len() > 0 && v.stage != RenameStage::Finished {
        lemma_rename_request_means_renaming(
            rename_step(v, os[0]).0,
            rename_step(v, os[0]).1,
            os.drop_first(),
        );
    }
}

/// However the rename got to the point of renaming (the parent found,
/// created at once, or created after the creator's retry, and after any
/// number of failed attempts), a source that is gone by then makes the whole
/// operation succeed.
pub proof fn lemma_missing_source_succeeds_after_any_run(
    src: Seq<PartView>,
    dst: Seq<PartView>,
    base: Seq<PartView>,
    os: Seq<FsOutcome>,
)
    requires
        rename_after(rename_start(src, dst, base).0, rename_start(src, dst, base).1, os).1 is Rename,
    ensures
        rename_step(
            rename_after(rename_start(src, dst, base).0, rename_start(src, dst, base).1, os).0,
            FsOutcome::NotFound,
        ).1 == ActionView::Succeed,
{
    lemma_rename_request_means_renaming(
        rename_start(src, dst, base).0,
        rename_start(src, dst, base).1,
        os,
    );
}

impl RenameAll {
    pub open spec fn wf(&self) -> bool {
        rename_wf(self@)
    }

    /// Starts renaming `src` onto `dst` below `base`, and returns the first
    /// request.
    pub fn start(src: SysPath, dst: SysPath, base: SysPath) -> (r: (RenameAll, FsAction))
        ensures
            (r.0@, r.1@) == rename_start(src@, dst@, base@),
            r.0.wf(),
    {
        match dst.parent() {
            Some(p) => (
                RenameAll { src, dst, base, mkdir: None, retried: false, stage: RenameStage::Probe },
                FsAction::Stat(p),
            ),
            None => (
                RenameAll { src, dst, base, mkdir: None, retried: false, stage: RenameStage::Renaming },
                FsAction::Rename,
            ),
        }
    }

    fn settle(&mut self, m: MkdirAll, a: FsAction) -> (r: FsAction)
        ensures
            (final(self)@, r@) == after_creation_request(old(self)@, m@, a@),
    {
        self.mkdir = Some(m);
        match a {
            FsAction::Succeed => {
                self.stage = RenameStage::Renaming;
                FsAction::Rename
            },
            FsAction::Fail => {
                self.stage = RenameStage::Finished;
                FsAction::Fail
            },
            _ => {
                self.stage = RenameStage::Creating;
                a
            },
        }
    }

    /// Takes the outcome of the outstanding request and returns the next one.
    pub fn step(&mut self, o: FsOutcome) -> (a: FsAction)
        requires
            old(self).wf(),
            old(self).stage != RenameStage::Finished,
        ensures
            (final(self)@, a@) == rename_step(old(self)@, o),
            final(self).wf(),
            rename_requests_ok(final(self)@, a@),
    {
        proof {
            lemma_rename_step_wf(self@, o);
        }
        match self.stage {
            RenameStage::Probe => {
                if o == FsOutcome::Done {
                    self.stage = RenameStage::Renaming;
                    FsAction::Rename
                } else {
                    let p = self.dst.parent();
                    let parent = match p {
                        Some(q) => q,
                        None => {
                            proof {
                                assert(false);
                            }
                            SysPath { parts: Vec::new() }
                        },
                    };
                    let (m, a) = MkdirAll::start(parent, self.base.copy());
                    self.settle(m, a)
                }
            },
            RenameStage::Creating => {
                let taken = self.mkdir.take();
                match taken {
                    Some(mut m) => {
                        let a = m.step(o);
                        self.settle(m, a)
                    },
                    None => {
                        proof {
                            assert(false);
                        }
                        FsAction::Fail
                    },
                }
            },
            _ => {
                if o == FsOutcome::Done || o == FsOutcome::NotFound {
                    self.stage = RenameStage::Finished;
                    FsAction::Succeed
                } else if !self.retried {
                    self.retried = true;
                    FsAction::Rename
                } else {
                    self.stage = RenameStage::Finished;
                    FsAction::Fail
                }
            },
        }
    }
}

} // verus!

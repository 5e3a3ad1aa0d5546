//! Creating a directory tree below a boundary, with one climb-and-retry.
//!
//! The directories are created one at a time, from the shallowest one below
//! the boundary down to the path itself, so that no request ever names a directory at
//! or above the boundary.
use vstd::prelude::*;
use crate::ops::{ActionView, FsAction, FsOutcome};
use crate::paths::{PartView, SysPath, climb, is_ancestor_or_self, lemma_climb_is_ancestor, parent_of};

verus! {

/// Where a directory creation stands.
#[derive(Clone, Copy, Debug, PartialEq, Eq, Structural)]
pub enum MkdirStage {
    /// Waiting for the outcome of creating the first `next` components of the path.
    Creating,
    /// Over.
    Finished,
}

/// Creation of `path` and its missing ancestors, never at or above the
/// boundary in force.
///
/// `boundary` is the boundary in force: `base`, or its parent after the one
/// retry that a vanished ancestor allows.
#[derive(Debug)]
pub struct MkdirAll {
    pub path: SysPath,
    pub base: SysPath,
    pub boundary: SysPath,
    pub retried: bool,
    pub next: usize,
    pub stage: MkdirStage,
}

pub struct MkdirView {
    pub path: Seq<PartView>,
    pub base: Seq<PartView>,
    pub boundary: Seq<PartView>,
    pub retried: bool,
    pub next: nat,
    pub stage: MkdirStage,
}

impl View for MkdirAll {
    type V = MkdirView;

    open spec fn view(&self) -> MkdirView {
        MkdirView {
            path: self.path@,
            base: self.base@,
            boundary: self.boundary@,
            retried: self.retried,
            next: self.next as nat,
            stage: self.stage,
        }
    }
}

/// The boundary forbids creating `path`: it is non-empty and `path` is the
/// boundary or one of its ancestors.
pub open spec fn guarded(path: Seq<PartView>, boundary: Seq<PartView>) -> bool {
    boundary.len() > 0 && is_ancestor_or_self(path, boundary)
}

/// The first `k` components of `path` name a directory that may be created:
/// one with a parent, and not the boundary or above it.
pub open spec fn creatable(path: Seq<PartView>, boundary: Seq<PartView>, k: int) -> bool {
    &&& 1 <= k <= path.len()
    &&& !is_ancestor_or_self(path.subrange(0, k), boundary)
    &&& parent_of(path.subrange(0, k)) is Some
}

/// The least `j >= k` for which the first `j` components may be created, or
/// a number past the end of `path` when there is none.
pub open spec fn next_creatable(path: Seq<PartView>, boundary: Seq<PartView>, k: int) -> int
    decreases path.len() + 1 - k,
{
    if k > path.len() || creatable(path, boundary, k) || k < 1 {
        k
    } else {
        next_creatable(path, boundary, k + 1)
    }
}

/// Requests the next directory after the first `after` components, or
/// succeeds when the whole path is done.
pub open spec fn request_after(v: MkdirView, after: int) -> (MkdirView, ActionView) {
    let j = next_creatable(v.path, v.boundary, after + 1);
    if j > v.path.len() {
        (MkdirView { stage: MkdirStage::Finished, ..v }, ActionView::Succeed)
    } else {
        (
            MkdirView { stage: MkdirStage::Creating, next: j as nat, ..v },
            ActionView::CreateDir(v.path.subrange(0, j)),
        )
    }
}

/// A round of creation under the boundary in force: nothing to do when the
/// boundary forbids it, else the directories from the shallowest down.
pub open spec fn begin_round(v: MkdirView) -> (MkdirView, ActionView) {
    if guarded(v.path, v.boundary) {
        (MkdirView { stage: MkdirStage::Finished, ..v }, ActionView::Succeed)
    } else {
        request_after(v, 0)
    }
}

/// The state and first action of creating `path` below `boundary`.
pub open spec fn mkdir_start(path: Seq<PartView>, boundary: Seq<PartView>) -> (MkdirView, ActionView) {
    begin_round(
        MkdirView { path, base: boundary, boundary, retried: false, next: 0, stage: MkdirStage::Creating },
    )
}

/// After an ancestor vanished: one retry with the boundary climbed, then failure.
pub open spec fn after_not_found(v: MkdirView) -> (MkdirView, ActionView) {
    if v.retried {
        (MkdirView { stage: MkdirStage::Finished, ..v }, ActionView::Fail)
    } else {
        begin_round(MkdirView { retried: true, boundary: climb(v.boundary), ..v })
    }
}

/// What follows the outcome `o` of the request that `v` waits on. "Already
/// exists" counts as success at each step.
pub open spec fn mkdir_step(v: MkdirView, o: FsOutcome) -> (MkdirView, ActionView) {
    match o {
        FsOutcome::Done | FsOutcome::AlreadyExists => request_after(v, v.next as int),
        FsOutcome::NotFound => after_not_found(v),
        FsOutcome::Failed => (MkdirView { stage: MkdirStage::Finished, ..v }, ActionView::Fail),
    }
}

/// The states that a creation passes through: the boundary in force is the
/// initial one or, after the retry, the one above it, and the directory
/// awaited may be created under it.
pub open spec fn mkdir_wf(v: MkdirView) -> bool {
    &&& (v.boundary == v.base || (v.retried && v.boundary == climb(v.base)))
    &&& (v.stage == MkdirStage::Creating ==> creatable(v.path, v.boundary, v.next as int))
}

/// The directories that a request creates in the filesystem when it succeeds.
pub open spec fn created_by(a: ActionView) -> Set<Seq<PartView>> {
    match a {
        ActionView::CreateDir(t) => set![t],
        _ => Set::empty(),
    }
}

/// A creation only ever asks to create one directory at a time: an ancestor
/// of `path` or `path` itself, below the boundary in force.
pub open spec fn creates_only_below(v: MkdirView, a: ActionView) -> bool {
    &&& (a matches ActionView::CreateDir(t) ==> v.stage == MkdirStage::Creating && t
        == v.path.subrange(0, v.next as int) && creatable(v.path, v.boundary, v.next as int))
    &&& !(a is Stat) && !(a is Rename)
}

proof fn lemma_next_creatable(path: Seq<PartView>, boundary: Seq<PartView>, k: int)
    requires
        k >= 1,
    ensures
        next_creatable(path, boundary, k) >= k,
        next_creatable(path, boundary, k) > path.len() || creatable(
            path,
            boundary,
            next_creatable(path, boundary, k),
        ),
    decreases path.len() + 1 - k,
{
    if !(k > path.len() || creatable(path, boundary, k)) {
        lemma_next_creatable(path, boundary, k + 1);
    }
}

proof fn lemma_request_after(v: MkdirView, after: int)
    requires
        after >= 0,
        v.boundary == v.base || (v.retried && v.boundary == climb(v.base)),
    ensures
        mkdir_wf(request_after(v, after).0),
        creates_only_below(request_after(v, after).0, request_after(v, after).1),
        request_after(v, after).0.path == v.path,
        request_after(v, after).0.base == v.base,
        request_after(v, after).0.boundary == v.boundary,
{
    lemma_next_creatable(v.path, v.boundary, after + 1);
}

proof fn lemma_begin_round(v: MkdirView)
    requires
        v.boundary == v.base || (v.retried && v.boundary == climb(v.base)),
    ensures
        mkdir_wf(begin_round(v).0),
        creates_only_below(begin_round(v).0, begin_round(v).1),
        begin_round(v).0.path == v.path,
        begin_round(v).0.base == v.base,
        begin_round(v).0.boundary == v.boundary,
{
    lemma_request_after(v, 0);
}

/// Every state that a creation reaches is well formed, and every request it
/// makes creates one ancestor of `path`, or `path`, below the boundary in force.
pub proof fn lemma_mkdir_step_stays_below(v: MkdirView, o: FsOutcome)
    requires
        mkdir_wf(v),
        v.stage != MkdirStage::Finished,
    ensures
        mkdir_wf(mkdir_step(v, o).0),
        creates_only_below(mkdir_step(v, o).0, mkdir_step(v, o).1),
        mkdir_step(v, o).0.path == v.path,
        mkdir_step(v, o).0.base == v.base,
{
    match o {
        FsOutcome::Done | FsOutcome::AlreadyExists => lemma_request_after(v, v.next as int),
        FsOutcome::NotFound => if !v.retried {
            lemma_begin_round(MkdirView { retried: true, boundary: climb(v.boundary), ..v });
        },
        FsOutcome::Failed => {},
    }
}

/// Nothing that a creation adds to the filesystem is the boundary in force or
/// above it: neither the initial boundary nor, after the retry, its parent.
pub proof fn lemma_nothing_created_at_or_above_boundary(v: MkdirView, o: FsOutcome, q: Seq<PartView>)
    requires
        mkdir_wf(v),
        v.stage != MkdirStage::Finished,
        created_by(mkdir_step(v, o).1).contains(q),
    ensures
        !is_ancestor_or_self(q, mkdir_step(v, o).0.boundary),
        mkdir_step(v, o).0.boundary == v.base || mkdir_step(v, o).0.boundary == climb(v.base),
        is_ancestor_or_self(q, v.path),
{
    lemma_mkdir_step_stays_below(v, o);
    let k = mkdir_step(v, o).0.next as int;
    assert(v.path.subrange(0, k) == v.path.subrange(0, k));
    assert(v.path.subrange(0, q.len() as int) =~= q);
}

/// A creation starts well formed, and its first request creates one
/// ancestor of `path`, or `path`, below the boundary.
pub proof fn lemma_mkdir_start_wf(path: Seq<PartView>, boundary: Seq<PartView>)
    ensures
        mkdir_wf(mkdir_start(path, boundary).0),
        creates_only_below(mkdir_start(path, boundary).0, mkdir_start(path, boundary).1),
        mkdir_start(path, boundary).0.path == path,
        mkdir_start(path, boundary).0.base == boundary,
{
    lemma_begin_round(
        MkdirView { path, base: boundary, boundary, retried: false, next: 0, stage: MkdirStage::Creating },
    );
}

/// The same holds of the first request.
pub proof fn lemma_first_request_below_boundary(path: Seq<PartView>, boundary: Seq<PartView>, q: Seq<PartView>)
    requires
        created_by(mkdir_start(path, boundary).1).contains(q),
    ensures
        !is_ancestor_or_self(q, boundary),
        is_ancestor_or_self(q, path),
{
    lemma_begin_round(
        MkdirView { path, base: boundary, boundary, retried: false, next: 0, stage: MkdirStage::Creating },
    );
    assert(path.subrange(0, q.len() as int) =~= q);
}

/// Creating a path that is the boundary or above it issues no request and
/// succeeds at once.
pub proof fn lemma_mkdir_at_or_above_boundary(path: Seq<PartView>, boundary: Seq<PartView>)
    requires
        guarded(path, boundary),
    ensures
        mkdir_start(path, boundary).1 == ActionView::Succeed,
{
}

/// "Already exists" is never a reason to fail: it leads wherever success does,
/// so creating a tree that is already there succeeds.
pub proof fn lemma_mkdir_already_exists_is_success(v: MkdirView)
    requires
        v.stage != MkdirStage::Finished,
    ensures
        mkdir_step(v, FsOutcome::AlreadyExists) == mkdir_step(v, FsOutcome::Done),
        mkdir_step(v, FsOutcome::AlreadyExists).1 != ActionView::Fail,
{
}

/// The boundary in force is the initial boundary or one of its ancestors.
pub proof fn lemma_boundary_in_force(v: MkdirView)
    requires
        mkdir_wf(v),
    ensures
        is_ancestor_or_self(v.boundary, v.base),
{
    lemma_climb_is_ancestor(v.base);
    assert(v.base.subrange(0, v.base.len() as int) =~= v.base);
}

impl MkdirAll {
    pub open spec fn wf(&self) -> bool {
        mkdir_wf(self@)
    }

    /// Whether the first `k` components of the path may be created.
    fn may_create(&self, k: usize) -> (r: bool)
        requires
            1 <= k <= self.path@.len(),
        ensures
            r == creatable(self.path@, self.boundary@, k as int),
    {
        let q = self.path.take(k);
        !q.is_ancestor_or_self_of(&self.boundary) && q.parent().is_some()
    }

    /// Requests the next directory after the first `after` components.
    fn request_after(&mut self, after: usize) -> (a: FsAction)
        requires
            after <= old(self).path@.len(),
        ensures
            (final(self)@, a@) == request_after(old(self)@, after as int),
    {
        let n = self.path.parts.len();
        let mut j: usize = after;
        while j < n
            invariant
                after <= j <= n == self.path@.len(),
                self@ == old(self)@,
                next_creatable(self.path@, self.boundary@, after + 1) == next_creatable(
                    self.path@,
                    self.boundary@,
                    j + 1,
                ),
            decreases n - j,
        {
            if self.may_create(j + 1) {
                self.stage = MkdirStage::Creating;
                self.next = j + 1;
                return FsAction::CreateDir(self.path.take(j + 1));
            }
            j = j + 1;
        }
        self.stage = MkdirStage::Finished;
        FsAction::Succeed
    }

    fn begin(&mut self) -> (a: FsAction)
        ensures
            (final(self)@, a@) == begin_round(old(self)@),
    {
        if !self.boundary.is_empty() && self.path.is_ancestor_or_self_of(&self.boundary) {
            self.stage = MkdirStage::Finished;
            return FsAction::Succeed;
        }
        self.request_after(0)
    }

    /// Starts creating `path` and its missing ancestors below `boundary`, and
    /// returns the first request.
    pub fn start(path: SysPath, boundary: SysPath) -> (r: (MkdirAll, FsAction))
        ensures
            (r.0@, r.1@) == mkdir_start(path@, boundary@),
            r.0.wf(),
            creates_only_below(r.0@, r.1@),
    {
        let base = boundary.copy();
        let mut m = MkdirAll {
            path,
            base,
            boundary,
            retried: false,
            next: 0,
            stage: MkdirStage::Creating,
        };
        proof {
            lemma_begin_round(m@);
        }
        let a = m.begin();
        (m, a)
    }

    /// Starts a single round of creating `path` below `boundary`: a vanished
    /// ancestor fails it at once, with no retry.
    pub fn start_single_round(path: SysPath, boundary: SysPath) -> (r: (MkdirAll, FsAction))
        ensures
            (r.0@, r.1@) == begin_round(
                MkdirView {
                    path: path@,
                    base: boundary@,
                    boundary: boundary@,
                    retried: true,
                    next: 0,
                    stage: MkdirStage::Creating,
                },
            ),
            r.0.wf(),
            creates_only_below(r.0@, r.1@),
    {
        let base = boundary.copy();
        let mut m = MkdirAll {
            path,
            base,
            boundary,
            retried: true,
            next: 0,
            stage: MkdirStage::Creating,
        };
        proof {
            lemma_begin_round(m@);
        }
        let a = m.begin();
        (m, a)
    }

    /// Takes the outcome of the outstanding request and returns the next one.
    pub fn step(&mut self, o: FsOutcome) -> (a: FsAction)
        requires
            old(self).wf(),
            old(self).stage != MkdirStage::Finished,
        ensures
            (final(self)@, a@) == mkdir_step(old(self)@, o),
            final(self).wf(),
            creates_only_below(final(self)@, a@),
    {
        proof {
            lemma_mkdir_step_stays_below(self@, o);
        }
        match o {
            FsOutcome::Done | FsOutcome::AlreadyExists => {
                let after = self.next;
                self.request_after(after)
            },
            FsOutcome::NotFound => {
                if self.retried {
                    self.stage = MkdirStage::Finished;
                    FsAction::Fail
                } else {
                    self.retried = true;
                    self.boundary = self.boundary.climbed();
                    self.begin()
                }
            },
            FsOutcome::Failed => {
                self.stage = MkdirStage::Finished;
                FsAction::Fail
            },
        }
    }
}

} // verus!

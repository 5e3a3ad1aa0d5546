//! Filesystem paths as sequences of components.
use vstd::prelude::*;

verus! {

/// One component of a path, as the platform's path parser splits it.
#[derive(Debug)]
pub enum PathPart {
    /// A Windows drive or UNC prefix, such as `C:`.
    Prefix(String),
    /// The root directory.
    Root,
    /// `.` at the start of a relative path.
    Current,
    /// `..`.
    Up,
    /// An ordinary name.
    Normal(String),
}

/// The mathematical value of a path component.
pub enum PartView {
    Prefix(Seq<char>),
    Root,
    Current,
    Up,
    Normal(Seq<char>),
}

impl View for PathPart {
    type V = PartView;

    open spec fn view(&self) -> PartView {
        match self {
            PathPart::Prefix(s) => PartView::Prefix(s@),
            PathPart::Root => PartView::Root,
            PathPart::Current => PartView::Current,
            PathPart::Up => PartView::Up,
            PathPart::Normal(s) => PartView::Normal(s@),
        }
    }
}

/// A filesystem path, held as its components in order.
#[derive(Debug)]
pub struct SysPath {
    pub parts: Vec<PathPart>,
}

impl View for SysPath {
    type V = Seq<PartView>;

    open spec fn view(&self) -> Seq<PartView> {
        self.parts@.map_values(|p: PathPart| p@)
    }
}

/// The path without its last component. There is none when the path is
/// empty or ends in a root or a prefix.
pub open spec fn parent_of(p: Seq<PartView>) -> Option<Seq<PartView>> {
    if p.len() > 0 && (p.last() is Normal || p.last() is Current || p.last() is Up) {
        Some(p.drop_last())
    } else {
        None
    }
}

/// Whether `a` is `b` or one of its ancestors, comparing whole components.
pub open spec fn is_ancestor_or_self(a: Seq<PartView>, b: Seq<PartView>) -> bool {
    a.len() <= b.len() && b.subrange(0, a.len() as int) == a
}

/// The boundary one level up, where its parent exists and does not start
/// at the filesystem root; otherwise the boundary unchanged.
pub open spec fn climb(b: Seq<PartView>) -> Seq<PartView> {
    match parent_of(b) {
        Some(q) => if q.len() > 0 && !(q[0] is Root) {
            q
        } else {
            b
        },
        None => b,
    }
}

/// Climbing never leaves the boundary's line of ancestors.
pub proof fn lemma_climb_is_ancestor(b: Seq<PartView>)
    ensures
        is_ancestor_or_self(climb(b), b),
{
    assert(b.subrange(0, b.len() as int) =~= b);
    if let Some(q) = parent_of(b) {
        assert(b.subrange(0, q.len() as int) =~= q);
    }
}

impl PathPart {
    pub fn copy(&self) -> (r: PathPart)
        ensures
            r@ == self@,
    {
        match self {
            PathPart::Prefix(s) => PathPart::Prefix(s.clone()),
            PathPart::Root => PathPart::Root,
            PathPart::Current => PathPart::Current,
            PathPart::Up => PathPart::Up,
            PathPart::Normal(s) => PathPart::Normal(s.clone()),
        }
    }

    pub fn same_as(&self, other: &PathPart) -> (r: bool)
        ensures
            r == (self@ == other@),
    {
        match (self, other) {
            (PathPart::Prefix(a), PathPart::Prefix(b)) => a.eq(b),
            (PathPart::Root, PathPart::Root) => true,
            (PathPart::Current, PathPart::Current) => true,
            (PathPart::Up, PathPart::Up) => true,
            (PathPart::Normal(a), PathPart::Normal(b)) => a.eq(b),
            _ => false,
        }
    }
}

impl SysPath {
    /// The path of the first `n` components.
    pub fn take(&self, n: usize) -> (r: SysPath)
        requires
            n <= self@.len(),
        ensures
            r@ == self@.subrange(0, n as int),
    {
        let mut parts: Vec<PathPart> = Vec::new();
        let mut i: usize = 0;
        while i < n
            invariant
                i <= n <= self.parts.len(),
                parts.len() == i,
                forall|j: int| 0 <= j < i ==> parts[j]@ == self.parts[j]@,
            decreases n - i,
        {
            let p = self.parts[i].copy();
            parts.push(p);
            i = i + 1;
        }
        let r = SysPath { parts };
        assert(r@ =~= self@.subrange(0, n as int));
        r
    }

    pub fn copy(&self) -> (r: SysPath)
        ensures
            r@ == self@,
    {
        let r = self.take(self.parts.len());
        assert(self@.subrange(0, self@.len() as int) =~= self@);
        r
    }

    pub fn is_empty(&self) -> (r: bool)
        ensures
            r == (self@.len() == 0),
    {
        self.parts.len() == 0
    }

    /// The parent directory, as `Path::parent` gives it.
    pub fn parent(&self) -> (r: Option<SysPath>)
        ensures
            r matches Some(q) ==> parent_of(self@) == Some(q@),
            r is None ==> parent_of(self@) is None,
    {
        let n = self.parts.len();
        if n == 0 {
            return None;
        }
        match &self.parts[n - 1] {
            PathPart::Normal(_) | PathPart::Current | PathPart::Up => Some(self.take(n - 1)),
            _ => None,
        }
    }

    /// Whether `self` is `other` or one of its ancestors.
    pub fn is_ancestor_or_self_of(&self, other: &SysPath) -> (r: bool)
        ensures
            r == is_ancestor_or_self(self@, other@),
    {
        let n = self.parts.len();
        if n > other.parts.len() {
            return false;
        }
        let mut i: usize = 0;
        while i < n
            invariant
                i <= n <= other.parts.len(),
                n == self.parts.len(),
                forall|j: int| 0 <= j < i ==> self@[j] == other@[j],
            decreases n - i,
        {
            if !self.parts[i].same_as(&other.parts[i]) {
                assert(other@.subrange(0, n as int)[i as int] != self@[i as int]);
                return false;
            }
            i = i + 1;
        }
        assert(other@.subrange(0, n as int) =~= self@);
        true
    }

    /// The boundary one level up, as `climb` describes.
    pub fn climbed(&self) -> (r: SysPath)
        ensures
            r@ == climb(self@),
    {
        match self.parent() {
            Some(q) => {
                if q.parts.len() > 0 && !matches!(q.parts[0], PathPart::Root) {
                    q
                } else {
                    self.copy()
                }
            },
            None => self.copy(),
        }
    }
}

} // verus!

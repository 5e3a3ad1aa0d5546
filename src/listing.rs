//! Turning raw directory entries into the names that a listing reports.
use vstd::prelude::*;
use vstd::string::StringExecFns;

verus! {

/// What a directory entry is.
#[derive(Clone, Copy, Debug, PartialEq, Eq, Structural)]
pub enum EntryKind {
    File,
    Dir,
    /// A symbolic link, a device or anything else: never reported.
    Other,
}

/// Whether a listing considers an entry of this name at all: the empty
/// name, `.` and `..` are skipped.
pub open spec fn listable(name: Seq<char>) -> bool {
    name.len() != 0 && name != seq!['.'] && name != seq!['.', '.']
}

/// The name reported for an entry: a file's bare, a directory's with a
/// trailing `/`, and none for other kinds.
pub open spec fn reported_name(name: Seq<char>, kind: EntryKind) -> Option<Seq<char>> {
    match kind {
        EntryKind::File => Some(name),
        EntryKind::Dir => Some(name.push('/')),
        EntryKind::Other => None,
    }
}

/// Whether a listing with this limit has all it asked for. A limit of zero
/// or below asks for everything.
pub open spec fn limit_reached(count: nat, limit: i32) -> bool {
    limit > 0 && count >= limit as nat
}

pub fn is_listable_name(name: &str) -> (r: bool)
    ensures
        r == listable(name@),
{
    let n = name.unicode_len();
    if n == 0 {
        false
    } else if n == 1 {
        let c = name.get_char(0);
        proof {
            if c == '.' {
                assert(name@ =~= seq!['.']);
            }
        }
        c != '.'
    } else if n == 2 {
        let c0 = name.get_char(0);
        let c1 = name.get_char(1);
        proof {
            if c0 == '.' && c1 == '.' {
                assert(name@ =~= seq!['.', '.']);
            }
        }
        !(c0 == '.' && c1 == '.')
    } else {
        true
    }
}

/// The names gathered so far by a directory listing, and its limit.
#[derive(Debug)]
pub struct Listing {
    pub names: Vec<String>,
    pub limit: i32,
}

impl Listing {
    pub open spec fn names_view(&self) -> Seq<Seq<char>> {
        self.names@.map_values(|s: String| s@)
    }

    /// Whether the listing has gathered all it asked for.
    pub open spec fn full(&self) -> bool {
        limit_reached(self.names@.len(), self.limit)
    }

    /// An empty listing that stops after `limit` names; `0` means no limit.
    pub fn new(limit: i32) -> (r: Listing)
        ensures
            r.names@.len() == 0,
            r.limit == limit,
    {
        Listing { names: Vec::new(), limit }
    }

    /// Takes one entry that passed `is_listable_name`, and says whether the
    /// listing is now full.
    pub fn accept(&mut self, name: String, kind: EntryKind) -> (full: bool)
        requires
            !old(self).full(),
        ensures
            final(self).limit == old(self).limit,
            final(self).names_view() == match reported_name(name@, kind) {
                Some(n) => old(self).names_view().push(n),
                None => old(self).names_view(),
            },
            full == final(self).full(),
    {
        let ghost before = self.names_view();
        match kind {
            EntryKind::File => {
                self.names.push(name);
                assert(self.names_view() =~= before.push(name@));
            },
            EntryKind::Dir => {
                let dir = name.concat("/");
                proof {
                    reveal_strlit("/");
                    assert(dir@ =~= name@.push('/'));
                }
                self.names.push(dir);
                assert(self.names_view() =~= before.push(name@.push('/')));
            },
            EntryKind::Other => {},
        }
        self.limit > 0 && self.names.len() >= self.limit as usize
    }
}

} // verus!

//! Telling a leaf object directory from one that holds nested objects.
use vstd::prelude::*;

verus! {

/// An ASCII hexadecimal digit, of either case.
pub open spec fn is_hex_digit(c: char) -> bool {
    ('0' <= c && c <= '9') || ('a' <= c && c <= 'f') || ('A' <= c && c <= 'F')
}

/// The positions of the hyphens in a hyphenated UUID.
pub open spec fn is_hyphen_position(i: int) -> bool {
    i == 8 || i == 13 || i == 18 || i == 23
}

/// `8-4-4-4-12` hexadecimal digits separated by hyphens.
pub open spec fn hyphenated_uuid(s: Seq<char>) -> bool {
    s.len() == 36 && forall|i: int|
        0 <= i < 36 ==> if is_hyphen_position(i) {
            #[trigger] s[i] == '-'
        } else {
            is_hex_digit(s[i])
        }
}

/// `c` equals the lowercase ASCII character `p`, ignoring ASCII case.
pub open spec fn ascii_case_match(c: char, p: char) -> bool {
    c == p || ('a' <= p && p <= 'z' && c as u32 + 32 == p as u32)
}

/// The texts that `uuid::Uuid::parse_str` accepts: 32 hexadecimal digits;
/// the hyphenated form; the hyphenated form in braces; or the hyphenated
/// form after `urn:uuid:` in any ASCII case.
pub open spec fn uuid_text(s: Seq<char>) -> bool {
    ||| (s.len() == 32 && forall|i: int| 0 <= i < 32 ==> is_hex_digit(#[trigger] s[i]))
    ||| hyphenated_uuid(s)
    ||| (s.len() == 38 && s[0] == '{' && s[37] == '}' && hyphenated_uuid(s.subrange(1, 37)))
    ||| (s.len() == 45 && (forall|i: int|
        0 <= i < 9 ==> ascii_case_match(#[trigger] s[i], seq!['u', 'r', 'n', ':', 'u', 'u', 'i', 'd', ':'][i]))
        && hyphenated_uuid(s.subrange(9, 45)))
}

/// Relies on `uuid::Uuid::parse_str`: it succeeds exactly on the four
/// textual forms of `uuid_text`.
#[verifier::external_body]
fn parses_as_uuid(s: &str) -> (r: bool)
    ensures
        r == uuid_text(s@),
{
    uuid::Uuid::parse_str(s).is_ok()
}

/// `s` without its trailing `/` characters.
pub open spec fn trim_trailing_slashes(s: Seq<char>) -> Seq<char>
    decreases s.len(),
{
    if s.len() > 0 && s.last() == '/' {
        trim_trailing_slashes(s.drop_last())
    } else {
        s
    }
}

/// A listed name that stands for a nested object: a subdirectory whose
/// name is not a canonical, hyphenated UUID.
pub open spec fn names_nested_object(name: Seq<char>) -> bool {
    name.len() > 0 && name.last() == '/' && !hyphenated_uuid(trim_trailing_slashes(name))
}

/// A listing of a leaf object directory: no entry stands for a nested object.
pub open spec fn leaf_only(names: Seq<Seq<char>>) -> bool {
    forall|i: int| 0 <= i < names.len() ==> !names_nested_object(#[trigger] names[i])
}

/// Whether the directory name `name` (with its trailing `/`) stands for a
/// nested object rather than a data directory; files never do. Only the
/// hyphenated `8-4-4-4-12` form names a data directory.
pub fn is_nested_object_entry(name: &str) -> (r: bool)
    ensures
        r == names_nested_object(name@),
{
    let n = name.unicode_len();
    if n == 0 || name.get_char(n - 1) != '/' {
        return false;
    }
    let mut k: usize = n;
    assert(name@.subrange(0, n as int) =~= name@);
    while k > 0 && name.get_char(k - 1) == '/'
        invariant
            k <= n == name@.len(),
            trim_trailing_slashes(name@.subrange(0, k as int)) == trim_trailing_slashes(name@),
        decreases k,
    {
        assert(name@.subrange(0, k as int).drop_last() =~= name@.subrange(0, k - 1));
        k = k - 1;
    }
    let stem = name.substring_char(0, k);
    !(stem.unicode_len() == 36 && parses_as_uuid(stem))
}

/// Whether a complete listing is that of a leaf object directory: every
/// subdirectory is named by a canonical UUID. Files are not examined, and the order of
/// the names does not matter.
pub fn is_leaf_listing(names: &Vec<String>) -> (r: bool)
    ensures
        r == leaf_only(names@.map_values(|s: String| s@)),
{
    let ghost v = names@.map_values(|s: String| s@);
    let mut i: usize = 0;
    while i < names.len()
        invariant
            i <= names.len(),
            v == names@.map_values(|s: String| s@),
            forall|j: int| 0 <= j < i ==> !names_nested_object(#[trigger] v[j]),
        decreases names.len() - i,
    {
        if is_nested_object_entry(names[i].as_str()) {
            assert(names_nested_object(v[i as int]));
            return false;
        }
        i = i + 1;
    }
    true
}

/// The classification of a directory from the outcome of listing it in
/// full: `None` when it could not be listed, which counts as a leaf.
pub fn leaf_only_listing(listing: &Option<Vec<String>>) -> (r: bool)
    ensures
        r == match listing {
            Some(names) => leaf_only(names@.map_values(|s: String| s@)),
            None => true,
        },
{
    match listing {
        Some(names) => is_leaf_listing(names),
        None => true,
    }
}

/// Whether a directory is empty, from the outcome of listing at most one
/// of its entries: `None` when it could not be listed, which counts as empty.
pub fn empty_listing(listing: &Option<Vec<String>>) -> (r: bool)
    ensures
        r == match listing {
            Some(names) => names@.len() == 0,
            None => true,
        },
{
    match listing {
        Some(names) => names.len() == 0,
        None => true,
    }
}

/// The order of the names does not matter: two listings with the same
/// names classify alike.
pub proof fn lemma_leaf_only_ignores_order(a: Seq<Seq<char>>, b: Seq<Seq<char>>)
    requires
        forall|x: Seq<char>| a.contains(x) == b.contains(x),
    ensures
        leaf_only(a) == leaf_only(b),
{
    if leaf_only(a) {
        assert forall|i: int| 0 <= i < b.len() implies !names_nested_object(#[trigger] b[i]) by {
            assert(b.contains(b[i]));
            let j = choose|j: int| 0 <= j < a.len() && a[j] == b[i];
            assert(!names_nested_object(a[j]));
        }
    }
    if leaf_only(b) {
        assert forall|i: int| 0 <= i < a.len() implies !names_nested_object(#[trigger] a[i]) by {
            assert(a.contains(a[i]));
            let j = choose|j: int| 0 <= j < b.len() && b[j] == a[i];
            assert(!names_nested_object(b[j]));
        }
    }
}

/// A directory that holds only files (its metadata among them) and
/// subdirectories named by canonical UUIDs is a leaf.
pub proof fn lemma_files_and_data_dirs_are_leaf(names: Seq<Seq<char>>)
    requires
        forall|i: int|
            0 <= i < names.len() ==> (#[trigger] names[i]).len() == 0 || names[i].last() != '/'
                || hyphenated_uuid(trim_trailing_slashes(names[i])),
    ensures
        leaf_only(names),
{
}

/// One subdirectory whose name is not a UUID, wherever it stands among the
/// others, makes the directory no leaf.
pub proof fn lemma_nested_entry_breaks_leaf(names: Seq<Seq<char>>, k: int, name: Seq<char>)
    requires
        0 <= k <= names.len(),
        names_nested_object(name),
    ensures
        !leaf_only(names.insert(k, name)),
{
    assert(names.insert(k, name)[k] == name);
}

/// Taking a name out of a leaf listing leaves a leaf listing.
pub proof fn lemma_removal_keeps_leaf(names: Seq<Seq<char>>, k: int)
    requires
        0 <= k < names.len(),
        leaf_only(names),
    ensures
        leaf_only(names.remove(k)),
{
    assert forall|i: int| 0 <= i < names.remove(k).len() implies !names_nested_object(
        #[trigger] names.remove(k)[i],
    ) by {
        if i < k {
            assert(names.remove(k)[i] == names[i]);
        } else {
            assert(names.remove(k)[i] == names[i + 1]);
        }
    }
}

} // verus!

use disk_os::listing::{is_listable_name, EntryKind, Listing};

#[test]
fn limit_one_over_five_files_gives_one() {
    let files = ["a", "b", "c", "d", "e"];
    let mut listing = Listing::new(1);
    for f in files {
        if listing.accept(f.to_string(), EntryKind::File) {
            break;
        }
    }
    assert_eq!(listing.names, vec!["a".to_string()]);
}

#[test]
fn zero_limit_lists_everything() {
    let mut listing = Listing::new(0);
    for f in ["a", "b", "c", "d", "e"] {
        assert!(!listing.accept(f.to_string(), EntryKind::File));
    }
    assert_eq!(listing.names.len(), 5);
}

#[test]
fn directories_get_a_trailing_separator() {
    let mut listing = Listing::new(0);
    listing.accept("xl.meta".to_string(), EntryKind::File);
    listing.accept("data".to_string(), EntryKind::Dir);
    listing.accept("link".to_string(), EntryKind::Other);
    assert_eq!(listing.names, vec!["xl.meta".to_string(), "data/".to_string()]);
}

#[test]
fn other_kinds_do_not_count_towards_the_limit() {
    let mut listing = Listing::new(2);
    assert!(!listing.accept("link".to_string(), EntryKind::Other));
    assert!(!listing.accept("a".to_string(), EntryKind::File));
    assert!(listing.accept("b".to_string(), EntryKind::Dir));
    assert_eq!(listing.names, vec!["a".to_string(), "b/".to_string()]);
}

#[test]
fn dot_entries_are_skipped() {
    assert!(!is_listable_name(""));
    assert!(!is_listable_name("."));
    assert!(!is_listable_name(".."));
    assert!(is_listable_name("..."));
    assert!(is_listable_name(".hidden"));
    assert!(is_listable_name("x"));
}

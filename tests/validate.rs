use disk_os::validate::{check_path_length, DiskError, Platform};

const ALL: [Platform; 3] = [Platform::MacOs, Platform::Windows, Platform::Unix];

#[test]
fn long_single_segment_fails_everywhere() {
    let name = "a".repeat(300);
    for p in ALL {
        assert_eq!(check_path_length(&name, p), Err(DiskError::FileNameTooLong));
    }
}

#[test]
fn reserved_paths_are_denied() {
    for p in ALL {
        assert_eq!(check_path_length(".", p), Err(DiskError::FileAccessDenied));
        assert_eq!(check_path_length("..", p), Err(DiskError::FileAccessDenied));
        assert_eq!(check_path_length("/", p), Err(DiskError::FileAccessDenied));
        assert_eq!(check_path_length("./", p), Ok(()));
        assert_eq!(check_path_length("...", p), Ok(()));
    }
}

#[test]
fn segment_of_255_is_accepted_and_256_is_not() {
    let ok = format!("/vol/{}/x", "b".repeat(255));
    let bad = format!("/vol/{}/x", "b".repeat(256));
    for p in ALL {
        assert_eq!(check_path_length(&ok, p), Ok(()));
        assert_eq!(check_path_length(&bad, p), Err(DiskError::FileNameTooLong));
    }
}

#[test]
fn segment_length_counts_characters() {
    // 200 two-byte characters: 400 bytes, but only 200 characters.
    let name = "é".repeat(200);
    assert_eq!(check_path_length(&name, Platform::Unix), Ok(()));
}

#[test]
fn total_length_limits_per_platform() {
    let seg = "c".repeat(100);
    let mut path = String::new();
    while path.len() < 1017 {
        path.push('/');
        path.push_str(&seg);
    }
    path.truncate(1017);
    assert_eq!(check_path_length(&path, Platform::MacOs), Err(DiskError::FileNameTooLong));
    assert_eq!(check_path_length(&path, Platform::Windows), Ok(()));
    assert_eq!(check_path_length(&path, Platform::Unix), Ok(()));
    path.truncate(1016);
    assert_eq!(check_path_length(&path, Platform::MacOs), Ok(()));
    let mut longer = path.clone();
    while longer.len() < 1025 {
        longer.push('d');
    }
    assert_eq!(check_path_length(&longer, Platform::Windows), Err(DiskError::FileNameTooLong));
    assert_eq!(check_path_length(&longer, Platform::Unix), Ok(()));
}

#[test]
fn backslash_separates_only_on_windows() {
    let path = format!("{}\\{}", "e".repeat(200), "e".repeat(200));
    assert_eq!(check_path_length(&path, Platform::Windows), Ok(()));
    assert_eq!(check_path_length(&path, Platform::Unix), Err(DiskError::FileNameTooLong));
    assert_eq!(check_path_length(&path, Platform::MacOs), Err(DiskError::FileNameTooLong));
}

#[test]
fn validation_is_deterministic() {
    let path = format!("/data/{}", "f".repeat(256));
    for p in ALL {
        assert_eq!(check_path_length(&path, p), check_path_length(&path, p));
        assert_eq!(check_path_length("/data/obj", p), Ok(()));
        assert_eq!(check_path_length("/data/obj", p), check_path_length("/data/obj", p));
    }
}

//! Path validation against the limits of the target platform.
use vstd::prelude::*;

verus! {

broadcast use vstd::string::group_string_axioms;

/// Longest total path, in bytes, accepted on macOS.
pub const MACOS_PATH_MAX: usize = 1016;

/// Longest total path, in bytes, accepted on Windows.
pub const WINDOWS_PATH_MAX: usize = 1024;

/// Longest single path segment, in characters, on every platform.
pub const SEGMENT_MAX: usize = 255;

/// The class of operating system whose filesystem rules apply.
#[derive(Clone, Copy, Debug, PartialEq, Eq, Structural)]
pub enum Platform {
    MacOs,
    Windows,
    Unix,
}

/// Errors raised by the path validator.
#[derive(Clone, Copy, Debug, PartialEq, Eq, Structural)]
pub enum DiskError {
    FileNameTooLong,
    FileAccessDenied,
}

/// The byte-length limit on a whole path, where the platform has one.
pub open spec fn total_limit(platform: Platform) -> Option<nat> {
    match platform {
        Platform::MacOs => Some(MACOS_PATH_MAX as nat),
        Platform::Windows => Some(WINDOWS_PATH_MAX as nat),
        Platform::Unix => None,
    }
}

/// Whether `c` separates path segments: `/` everywhere, `\` on Windows too.
pub open spec fn is_separator(platform: Platform, c: char) -> bool {
    c == '/' || (platform == Platform::Windows && c == '\\')
}

/// Length of the segment that ends `s`: the characters after its last separator.
pub open spec fn trailing_segment_len(platform: Platform, s: Seq<char>) -> nat
    decreases s.len(),
{
    if s.len() == 0 {
        0
    } else if is_separator(platform, s.last()) {
        0
    } else {
        trailing_segment_len(platform, s.drop_last()) + 1
    }
}

/// Whether some segment of `s` is longer than `SEGMENT_MAX` characters.
pub open spec fn has_long_segment(platform: Platform, s: Seq<char>) -> bool {
    exists|i: int|
        0 <= i <= s.len() && trailing_segment_len(platform, #[trigger] s.subrange(0, i))
            > SEGMENT_MAX
}

/// The paths that are refused outright: `.`, `..` and `/`.
pub open spec fn is_reserved_path(s: Seq<char>) -> bool {
    s == seq!['.'] || s == seq!['.', '.'] || s == seq!['/']
}

/// The verdict on a path of characters `s` that takes `n_bytes` bytes: the
/// limits are checked in order and the first that fails decides.
pub open spec fn path_verdict(platform: Platform, s: Seq<char>, n_bytes: nat) -> Result<(), DiskError> {
    if total_limit(platform) is Some && n_bytes > total_limit(platform)->0 {
        Err(DiskError::FileNameTooLong)
    } else if is_reserved_path(s) {
        Err(DiskError::FileAccessDenied)
    } else if has_long_segment(platform, s) {
        Err(DiskError::FileNameTooLong)
    } else {
        Ok(())
    }
}

fn is_reserved(path_name: &str) -> (r: bool)
    ensures
        r == is_reserved_path(path_name@),
{
    let n = path_name.unicode_len();
    if n == 1 {
        let c = path_name.get_char(0);
        proof {
            if c == '.' {
                assert(path_name@ =~= seq!['.']);
            }
            if c == '/' {
                assert(path_name@ =~= seq!['/']);
            }
        }
        c == '.' || c == '/'
    } else if n == 2 {
        let c0 = path_name.get_char(0);
        let c1 = path_name.get_char(1);
        proof {
            if c0 == '.' && c1 == '.' {
                assert(path_name@ =~= seq!['.', '.']);
            }
        }
        c0 == '.' && c1 == '.'
    } else {
        false
    }
}

proof fn lemma_trailing_segment_step(platform: Platform, s: Seq<char>, i: int)
    requires
        0 <= i < s.len(),
    ensures
        trailing_segment_len(platform, s.subrange(0, i + 1)) == if is_separator(
            platform,
            s[i],
        ) {
            0
        } else {
            trailing_segment_len(platform, s.subrange(0, i)) + 1
        },
{
    assert(s.subrange(0, i + 1).drop_last() =~= s.subrange(0, i));
}

/// Checks a path name against the platform's limits, without any I/O.
///
/// On macOS a path over 1016 bytes, and on Windows one over 1024 bytes, is
/// too long. The paths `.`, `..` and `/` are refused. Any segment longer than
/// 255 characters is too long; on Windows both `/` and `\` separate segments.
pub fn check_path_length(path_name: &str, platform: Platform) -> (r: Result<(), DiskError>)
    ensures
        r == path_verdict(platform, path_name@, path_name.len() as nat),
{
    let limit: Option<usize> = match platform {
        Platform::MacOs => Some(MACOS_PATH_MAX),
        Platform::Windows => Some(WINDOWS_PATH_MAX),
        Platform::Unix => None,
    };
    if let Some(max) = limit {
        if path_name.len() > max {
            return Err(DiskError::FileNameTooLong);
        }
    }
    if is_reserved(path_name) {
        return Err(DiskError::FileAccessDenied);
    }
    let ghost s = path_name@;
    let mut count: usize = 0;
    for c in it: path_name.chars()
        invariant
            it.seq() == s,
            s == path_name@,
            !is_reserved_path(s),
            path_verdict(platform, s, path_name.len() as nat) == (if has_long_segment(platform, s) {
                Err::<(), DiskError>(DiskError::FileNameTooLong)
            } else {
                Ok(())
            }),
            count as nat == trailing_segment_len(platform, s.subrange(0, it.index() as int)),
            count <= SEGMENT_MAX,
            forall|j: int|
                0 <= j <= it.index() ==> trailing_segment_len(platform, #[trigger] s.subrange(0, j))
                    <= SEGMENT_MAX,
    {
        proof {
            lemma_trailing_segment_step(platform, s, it.index() as int);
            assert(c == s[it.index() as int]);
        }
        if c == '/' || (platform == Platform::Windows && c == '\\') {
            count = 0;
        } else {
            count = count + 1;
            if count > SEGMENT_MAX {
                let ghost k: int = it.index() + 1;
                assert(trailing_segment_len(platform, s.subrange(0, k)) > SEGMENT_MAX);
                assert(has_long_segment(platform, s));
                return Err(DiskError::FileNameTooLong);
            }
        }
    }
    Ok(())
}

/// Validation is a function of the text and the platform alone: two paths
/// with the same characters get the same verdict.
pub proof fn lemma_verdict_depends_on_text(platform: Platform, a: &str, b: &str)
    requires
        a@ == b@,
    ensures
        path_verdict(platform, a@, a.len() as nat) == path_verdict(platform, b@, b.len() as nat),
{
}

} // verus!

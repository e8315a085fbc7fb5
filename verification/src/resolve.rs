//! Directory resolution: decide which directory to scan.
//!
//! Given the home directory, the result of one existence probe of
//! `home/Downloads`, and the observed state of the `XDG_DOWNLOAD_DIR`
//! environment variable, produce the target directory path. Resolution never
//! touches the filesystem itself: the caller performs the single probe and
//! the environment read and passes their outcomes in as plain values.

use vstd::prelude::*;

verus! {

/// The observed state of the `XDG_DOWNLOAD_DIR` environment variable,
/// as reported by the host environment.
pub enum EnvVarValue {
    /// The variable is set to this (unicode) value.
    Present(String),
    /// The variable is not set.
    NotPresent,
    /// The variable is set but its value is not valid unicode.
    NotUnicode,
}

/// The one failure resolution can produce.
#[derive(Debug, PartialEq, Eq, Structural)]
pub enum ResolveError {
    /// The environment variable is present but cannot be decoded as text.
    EnvNotUnicode,
}

/// Path join as the host filesystem API performs it for a relative child:
/// a separator is inserted unless the base is empty or already ends in one.
pub open spec fn spec_join(base: Seq<char>, child: Seq<char>) -> Seq<char> {
    if base.len() == 0 || base.last() == '/' {
        base + child
    } else {
        base + seq!['/'] + child
    }
}

/// Append `child` to `base` as a path component.
pub fn join_path(base: &str, child: &str) -> (r: String)
    ensures
        r@ == spec_join(base@, child@),
{
    let n: usize = base.unicode_len();
    let mut r = String::new();
    r.append(base);
    if n > 0 {
        let last = base.get_char(n - 1);
        if last != '/' {
            r.append("/");
            proof {
                reveal_strlit("/");
                assert(r@ =~= base@ + seq!['/']);
            }
        }
    }
    r.append(child);
    r
}

/// The target directory that resolution must produce: the override value
/// verbatim when the environment variable is set, else `home/Downloads` when
/// that directory exists, else `home/dl` (whether or not it exists).
pub open spec fn spec_target_dir(home: Seq<char>, downloads_exists: bool) -> Seq<char> {
    if downloads_exists {
        spec_join(home, "Downloads"@)
    } else {
        spec_join(home, "dl"@)
    }
}

/// Resolve the downloads directory.
///
/// `home` is the home directory path; `downloads_exists` is the result of
/// the caller's single existence probe of `home/Downloads` (the path
/// `join_path(home, "Downloads")`); `xdg` is the observed state of the
/// `XDG_DOWNLOAD_DIR` environment variable. An override value is used
/// verbatim, with no existence check; when neither fallback exists the
/// resolver still returns `home/dl`, and enumeration fails later instead.
pub fn find_downloads_dir(home: &str, downloads_exists: bool, xdg: EnvVarValue) -> (r: Result<
    String,
    ResolveError,
>)
    ensures
        match xdg {
            EnvVarValue::Present(v) => r == Ok::<String, ResolveError>(v),
            EnvVarValue::NotPresent => r is Ok && r->Ok_0@ == spec_target_dir(
                home@,
                downloads_exists,
            ),
            EnvVarValue::NotUnicode => r == Err::<String, ResolveError>(
                ResolveError::EnvNotUnicode,
            ),
        },
{
    match xdg {
        EnvVarValue::Present(v) => Ok(v),
        EnvVarValue::NotPresent => {
            if downloads_exists {
                Ok(join_path(home, "Downloads"))
            } else {
                Ok(join_path(home, "dl"))
            }
        },
        EnvVarValue::NotUnicode => Err(ResolveError::EnvNotUnicode),
    }
}

} // verus!

//! Where things lie under the home directory of the version manager.

use crate::text::starts_with;
use crate::version::{version_text, Version};
use vstd::prelude::*;

verus! {

/// The file name of the default cache file
pub const VYPER_FILES_CACHE_FILENAME: &'static str = "vvm-vyper-files-cache.json";

/// `name` below `base`: a separator stands between the two unless `base` is
/// empty or ends in one, and an absolute `name` stands alone.
pub open spec fn joined(base: Seq<char>, name: Seq<char>) -> Seq<char> {
    if name.len() > 0 && name[0] == '/' {
        name
    } else if base.len() == 0 || base.last() == '/' {
        base + name
    } else {
        base + seq!['/'] + name
    }
}

/// The name of the installed binary of a version.
pub open spec fn binary_name(version: Seq<char>) -> Seq<char> {
    "vyper-"@ + version
}

/// The name of the lock file of a version.
pub open spec fn lock_name(version: Seq<char>) -> Seq<char> {
    ".lock-vyper-"@ + version
}

/// What a relative name is put behind to lie below `base`.
pub open spec fn stem(base: Seq<char>) -> Seq<char> {
    if base.len() == 0 || base.last() == '/' {
        base
    } else {
        base + seq!['/']
    }
}

/// A relative name below a directory is the stem of the directory and the
/// name.
pub proof fn lemma_joined_relative(base: Seq<char>, name: Seq<char>)
    requires
        name.len() > 0,
        name[0] != '/',
    ensures
        joined(base, name) == stem(base) + name,
{
}

/// Text put behind the same text twice gives the same text only where it
/// is the same.
pub proof fn lemma_same_stem(before: Seq<char>, a: Seq<char>, b: Seq<char>)
    requires
        before + a == before + b,
    ensures
        a == b,
{
    assert((before + a).skip(before.len() as int) =~= a);
    assert((before + b).skip(before.len() as int) =~= b);
}

/// `name` below `base`.
pub fn join(base: &str, name: &str) -> (r: String)
    ensures
        r@ == joined(base@, name@),
{
    proof {
        reveal_strlit("/");
    }
    if starts_with(name, "/") {
        assert(name@.subrange(0, 1)[0] == name@[0]);
        return name.to_owned();
    }
    assert(name@.len() > 0 && name@[0] == '/' ==> name@.subrange(0, 1) =~= "/"@);
    let n: usize = base.unicode_len();
    let mut out = base.to_owned();
    if n > 0 && base.get_char(n - 1) != '/' {
        out.append("/");
    }
    out.append(name);
    out
}

/// The home directory of the version manager, below the user's own.
pub fn vvm_home(user_home: &str) -> (r: String)
    ensures
        r@ == joined(user_home@, ".vvm"@),
{
    join(user_home, ".vvm")
}

/// Derive path to a specific Vyper version's binary.
pub fn version_path(home: &str, version: &str) -> (r: String)
    ensures
        r@ == joined(home@, version@),
{
    join(home, version)
}

/// Derive path to VVM's global version file.
pub fn global_version_path(home: &str) -> (r: String)
    ensures
        r@ == joined(home@, ".global-version"@),
{
    join(home, ".global-version")
}

/// The path of the installed binary of a version.
pub fn binary_path(home: &str, version: &Version) -> (r: String)
    ensures
        r@ == joined(joined(home@, version_text(version@)), binary_name(version_text(version@))),
{
    let text = version.to_string();
    let dir = join(home, text.as_str());
    let mut name = "vyper-".to_owned();
    name.append(text.as_str());
    join(dir.as_str(), name.as_str())
}

/// Returns the lockfile to use for a specific version
pub fn lock_file_path(home: &str, version: &Version) -> (r: String)
    ensures
        r@ == joined(home@, lock_name(version_text(version@))),
{
    let mut name = ".lock-vyper-".to_owned();
    name.append(version.to_string().as_str());
    join(home, name.as_str())
}

/// Get cache dir path
pub fn get_cache_path(home: &str) -> (r: String)
    ensures
        r@ == joined(joined(home@, "cache"@), VYPER_FILES_CACHE_FILENAME@),
{
    let dir = join(home, "cache");
    join(dir.as_str(), VYPER_FILES_CACHE_FILENAME)
}

} // verus!

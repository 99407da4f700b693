//! What the commands of the version manager decide, from what is installed,
//! what can be had and what the user answered.

use crate::registry::{contains_version, holds_version, lemma_same_members};
use crate::text::same_text;
use crate::version::{is_ascending, sort_versions, texts, version_le, version_text, Version};
use vstd::prelude::*;

verus! {

/// What installing a version comes to.
#[derive(Clone, Copy, Debug, PartialEq, Eq, Structural)]
pub enum InstallPlan {
    /// The version is installed: offer to make it the global version.
    AlreadyInstalled,
    /// The version can be had: download it, and make it the global version
    /// if there is none.
    Download { set_global: bool },
    /// The version cannot be had for this platform.
    Unsupported,
}

/// What using a version comes to.
#[derive(Clone, Copy, Debug, PartialEq, Eq, Structural)]
pub enum UsePlan {
    /// The version is installed: make it the global version.
    SetGlobal,
    /// The version can be had: offer to install it.
    OfferInstall,
    /// The version cannot be had for this platform.
    Unsupported,
}

/// What removing a version comes to.
#[derive(Clone, Copy, Debug, PartialEq, Eq, Structural)]
pub enum RemovePlan {
    /// The version is installed: ask whether it is to go.
    Confirm,
    /// The version is not installed.
    NotFound,
}

/// What becomes of the global version when a version is removed.
#[derive(Debug)]
pub enum PointerChange {
    /// It stays as it is.
    Keep,
    /// It becomes this version.
    Replace(Version),
    /// It is unset.
    Unset,
}

/// An answer that means yes.
pub open spec fn means_yes(input: Seq<char>) -> bool {
    input == "y"@ || input == "Y"@ || input == "yes"@ || input == "Yes"@
}

/// The word that stands for all versions.
pub open spec fn means_all(input: Seq<char>) -> bool {
    input == "ALL"@ || input == "all"@
}

/// The version with the text `t` stands at `i` and nowhere before.
pub open spec fn is_first_at(s: Seq<Version>, t: Seq<char>, i: int) -> bool {
    &&& 0 <= i < s.len()
    &&& version_text(s[i]@) == t
    &&& forall|k: int| 0 <= k < i ==> version_text((#[trigger] s[k])@) != t
}

/// Where the version with the text `t` stands first.
pub open spec fn first_index(s: Seq<Version>, t: Seq<char>) -> int {
    choose|i: int| is_first_at(s, t, i)
}

/// The removed version is the global version and is among the installed
/// ones.
pub open spec fn loses_current(
    removed: Seq<char>,
    installed: Seq<Version>,
    current: Option<Version>,
) -> bool {
    current matches Some(c) && version_text(c@) == removed && holds_version(installed, removed)
}

/// What becomes of the global version once the version with the text
/// `removed` is removed: where it was the global version, the last of the
/// other installed versions takes its place, which is the greatest of them
/// where the installed versions are in ascending order, and where there is
/// no other the global version is unset.
pub open spec fn is_pointer_change(
    removed: Seq<char>,
    installed: Seq<Version>,
    current: Option<Version>,
    r: PointerChange,
) -> bool {
    match r {
        PointerChange::Keep => !loses_current(removed, installed, current),
        PointerChange::Replace(v) => {
            let rest = installed.remove(first_index(installed, removed));
            &&& loses_current(removed, installed, current)
            &&& rest.len() > 0
            &&& v == rest.last()
            &&& is_ascending(installed) ==> forall|k: int|
                0 <= k < rest.len() - 1 ==> version_le((#[trigger] rest[k])@, v@)
        },
        PointerChange::Unset => loses_current(removed, installed, current) && installed.len()
            == 1,
    }
}

/// Removing the only installed version, where it is the global version,
/// leaves no global version.
pub proof fn lemma_only_version_removed(
    removed: Seq<char>,
    installed: Seq<Version>,
    current: Option<Version>,
    r: PointerChange,
)
    requires
        installed.len() == 1,
        loses_current(removed, installed, current),
        is_pointer_change(removed, installed, current, r),
    ensures
        r is Unset,
{
    let k = choose|k: int| 0 <= k < installed.len() && version_text((#[trigger] installed[k])@) == removed;
    assert(is_first_at(installed, removed, 0));
    let i = first_index(installed, removed);
    assert(installed.remove(i).len() == 0);
}

/// Whether the answer means yes.
pub fn is_yes(input: &str) -> (r: bool)
    ensures
        r == means_yes(input@),
{
    same_text(input, "y") || same_text(input, "Y") || same_text(input, "yes") || same_text(
        input,
        "Yes",
    )
}

/// Whether the word stands for all versions.
pub fn is_all(input: &str) -> (r: bool)
    ensures
        r == means_all(input@),
{
    same_text(input, "ALL") || same_text(input, "all")
}

/// The versions that can be had and are not installed, each once, in
/// ascending order.
pub fn available_versions(all: &Vec<Version>, installed: &Vec<Version>) -> (r: Vec<Version>)
    ensures
        is_ascending(r@),
        texts(r@).no_duplicates(),
        forall|t: Seq<char>|
            #[trigger] holds_version(r@, t) <==> holds_version(all@, t) && !holds_version(
                installed@,
                t,
            ),
{
    let mut out: Vec<Version> = Vec::new();
    let mut i: usize = 0;
    while i < all.len()
        invariant
            i <= all.len(),
            texts(out@).no_duplicates(),
            forall|t: Seq<char>|
                #[trigger] holds_version(out@, t) <==> holds_version(
                    all@.subrange(0, i as int),
                    t,
                ) && !holds_version(installed@, t),
        decreases all.len() - i,
    {
        let ghost before = out@;
        let ghost seen = all@.subrange(0, i as int);
        let ghost more = all@.subrange(0, i + 1);
        let ghost x = version_text(all@[i as int]@);
        let skip = contains_version(installed, &all[i]) || contains_version(&out, &all[i]);
        if !skip {
            out.push(all[i].clone());
        }
        proof {
            assert(more.drop_last() == seen);
            assert(more.last() == all@[i as int]);
            assert forall|t: Seq<char>| holds_version(more, t) <==> (t == x || holds_version(
                seen,
                t,
            )) by {
                if holds_version(more, t) && t != x {
                    let k = choose|k: int|
                        0 <= k < more.len() && version_text((#[trigger] more[k])@) == t;
                    assert(version_text(seen[k]@) == t);
                }
                if holds_version(seen, t) {
                    let k = choose|k: int|
                        0 <= k < seen.len() && version_text((#[trigger] seen[k])@) == t;
                    assert(version_text(more[k]@) == t);
                }
                if t == x {
                    assert(version_text(more[i as int]@) == t);
                }
            }
            if !skip {
                assert(out@ == before.push(all@[i as int]));
                assert forall|t: Seq<char>| holds_version(out@, t) <==> (t == x || holds_version(
                    before,
                    t,
                )) by {
                    if holds_version(out@, t) && t != x {
                        let k = choose|k: int|
                            0 <= k < out@.len() && version_text((#[trigger] out@[k])@) == t;
                        assert(version_text(before[k]@) == t);
                    }
                    if holds_version(before, t) {
                        let k = choose|k: int|
                            0 <= k < before.len() && version_text((#[trigger] before[k])@) == t;
                        assert(version_text(out@[k]@) == t);
                    }
                    if t == x {
                        assert(version_text(out@[before.len() as int]@) == t);
                    }
                }
                assert(texts(out@) =~= texts(before).push(x));
                assert(!texts(before).contains(x)) by {
                    if texts(before).contains(x) {
                        let k = choose|k: int| 0 <= k < texts(before).len() && texts(before)[k] == x;
                        assert(version_text(before[k]@) == x);
                    }
                }
            }
            assert forall|t: Seq<char>| #[trigger]
                holds_version(out@, t) <==> holds_version(more, t) && !holds_version(
                    installed@,
                    t,
                ) by {
                assert(holds_version(before, t) <==> holds_version(seen, t) && !holds_version(
                    installed@,
                    t,
                ));
                assert(holds_version(before, x) <==> holds_version(seen, x) && !holds_version(
                    installed@,
                    x,
                ));
            }
        }
        i = i + 1;
    }
    assert(all@.subrange(0, i as int) == all@);
    let ghost unsorted = out@;
    let sorted = sort_versions(out);
    proof {
        lemma_same_members(sorted@, unsorted);
    }
    sorted
}

/// What installing `version` comes to.
pub fn plan_install(
    version: &Version,
    all: &Vec<Version>,
    installed: &Vec<Version>,
    current: &Option<Version>,
) -> (r: InstallPlan)
    ensures
        r == (if holds_version(installed@, version_text(version@)) {
            InstallPlan::AlreadyInstalled
        } else if holds_version(all@, version_text(version@)) {
            InstallPlan::Download { set_global: current is None }
        } else {
            InstallPlan::Unsupported
        }),
{
    if contains_version(installed, version) {
        InstallPlan::AlreadyInstalled
    } else if contains_version(all, version) {
        InstallPlan::Download { set_global: current.is_none() }
    } else {
        InstallPlan::Unsupported
    }
}

/// What using `version` comes to.
pub fn plan_use(version: &Version, all: &Vec<Version>, installed: &Vec<Version>) -> (r: UsePlan)
    ensures
        r == (if holds_version(installed@, version_text(version@)) {
            UsePlan::SetGlobal
        } else if holds_version(all@, version_text(version@)) {
            UsePlan::OfferInstall
        } else {
            UsePlan::Unsupported
        }),
{
    if contains_version(installed, version) {
        UsePlan::SetGlobal
    } else if contains_version(all, version) {
        UsePlan::OfferInstall
    } else {
        UsePlan::Unsupported
    }
}

/// What removing `version` comes to.
pub fn plan_remove(version: &Version, installed: &Vec<Version>) -> (r: RemovePlan)
    ensures
        r == (if holds_version(installed@, version_text(version@)) {
            RemovePlan::Confirm
        } else {
            RemovePlan::NotFound
        }),
{
    if contains_version(installed, version) {
        RemovePlan::Confirm
    } else {
        RemovePlan::NotFound
    }
}

/// Where `version` stands first in the list.
pub fn first_position(list: &Vec<Version>, version: &Version) -> (r: Option<usize>)
    ensures
        match r {
            Some(i) => is_first_at(list@, version_text(version@), i as int) && first_index(
                list@,
                version_text(version@),
            ) == i,
            None => !holds_version(list@, version_text(version@)),
        },
{
    let mut i: usize = 0;
    while i < list.len()
        invariant
            i <= list.len(),
            forall|k: int|
                0 <= k < i ==> version_text((#[trigger] list@[k])@) != version_text(version@),
        decreases list.len() - i,
    {
        if list[i].same_as(version) {
            proof {
                let j = first_index(list@, version_text(version@));
                assert(is_first_at(list@, version_text(version@), i as int));
                assert(j == i);
            }
            return Some(i);
        }
        i = i + 1;
    }
    None
}

/// What becomes of the global version once `removed` is removed: where it
/// was the global version, the last of the other installed versions takes
/// its place, and where there is no other the global version is unset.
pub fn pointer_after_removal(
    removed: &Version,
    installed: Vec<Version>,
    current: &Option<Version>,
) -> (r: PointerChange)
    ensures
        is_pointer_change(version_text(removed@), installed@, *current, r),
{
    let is_current = match current {
        Some(c) => c.same_as(removed),
        None => false,
    };
    if !is_current {
        return PointerChange::Keep;
    }
    let mut rest = installed;
    match first_position(&rest, removed) {
        Some(i) => {
            let ghost all = rest@;
            let _ = rest.remove(i);
            match rest.pop() {
                Some(v) => {
                    proof {
                        let left = all.remove(i as int);
                        if is_ascending(all) {
                            assert forall|k: int| 0 <= k < left.len() - 1 implies version_le(
                                (#[trigger] left[k])@,
                                v@,
                            ) by {
                                let a = if k < i {
                                    k
                                } else {
                                    k + 1
                                };
                                let b = if left.len() - 1 < i {
                                    left.len() - 1
                                } else {
                                    left.len() as int
                                };
                                assert(left[k] == all[a]);
                                assert(v == all[b]);
                                assert(version_le(all[a]@, all[b]@));
                            }
                        }
                    }
                    PointerChange::Replace(v)
                },
                None => PointerChange::Unset,
            }
        },
        None => PointerChange::Keep,
    }
}

} // verus!

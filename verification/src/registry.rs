//! Which versions are installed and which one is the global version.

use crate::error::VyperVmError;
use crate::layout::{joined, version_path};
use crate::text::{decimal, lemma_decimal_digits, same_text, trim_end_matches, without_trailing};
use crate::version::{
    is_ascending, is_valid, is_version_text, lemma_text_determines_version, parses_as,
    sort_versions, texts, version_text, Version, VersionView,
};
use vstd::prelude::*;

verus! {

/// The name of the file that holds the global version.
pub const GLOBAL_VERSION_FILE: &'static str = ".global-version";

/// The names of the entries of the home directory, in their order, the
/// file of the global version left out: each is read as a version.
pub open spec fn candidates(names: Seq<String>) -> Seq<Seq<char>>
    decreases names.len(),
{
    if names.len() == 0 {
        Seq::empty()
    } else if names.last()@ == GLOBAL_VERSION_FILE@ {
        candidates(names.drop_last())
    } else {
        candidates(names.drop_last()).push(names.last()@)
    }
}

/// Every text of the sequence is the text of a version.
pub open spec fn all_version_texts(s: Seq<Seq<char>>) -> bool {
    forall|k: int| 0 <= k < s.len() ==> is_version_text(#[trigger] s[k])
}

/// Every version of the sequence is valid.
pub open spec fn all_valid(s: Seq<Version>) -> bool {
    forall|k: int| 0 <= k < s.len() ==> is_valid(#[trigger] s[k]@)
}

/// Some version of the sequence has the text `text`.
pub open spec fn holds_version(s: Seq<Version>, text: Seq<char>) -> bool {
    exists|k: int| 0 <= k < s.len() && version_text((#[trigger] s[k])@) == text
}

/// What the file of the global version says: the version whose text it
/// holds before its trailing line ends, or none where that is no version.
pub open spec fn is_current(content: Seq<char>, r: Option<Version>) -> bool {
    match r {
        Some(v) => parses_as(without_trailing(content, '\n'), v@),
        None => !is_version_text(without_trailing(content, '\n')),
    }
}

/// Two sequences with the same members keep the same members when one
/// function is applied to each member.
pub proof fn lemma_map_keeps_members<A, B>(a: Seq<A>, b: Seq<A>, f: spec_fn(A) -> B)
    requires
        a.to_multiset() == b.to_multiset(),
    ensures
        a.map_values(f).to_multiset() == b.map_values(f).to_multiset(),
    decreases a.len(),
{
    broadcast use vstd::seq_lib::group_to_multiset_ensures;

    a.to_multiset_ensures();
    b.to_multiset_ensures();
    if a.len() == 0 {
        assert(b.len() == 0);
        assert(a.map_values(f) =~= b.map_values(f));
    } else {
        let x = a.last();
        assert(a == a.drop_last().push(x));
        assert(a.contains(x));
        assert(b.to_multiset().count(x) > 0);
        assert(b.contains(x));
        let i = choose|i: int| 0 <= i < b.len() && b[i] == x;
        assert(b.remove(i).to_multiset() =~= a.drop_last().to_multiset());
        lemma_map_keeps_members(a.drop_last(), b.remove(i), f);
        assert(a.map_values(f) =~= a.drop_last().map_values(f).push(f(x)));
        assert(b.map_values(f).remove(i) =~= b.remove(i).map_values(f));
        let mb = b.map_values(f);
        assert(mb[i] == f(x));
        assert(mb.remove(i).to_multiset() == mb.to_multiset().remove(f(x)));
        assert(mb.contains(f(x)));
        assert(mb.to_multiset() =~= mb.remove(i).to_multiset().insert(f(x)));
    }
}

/// Two sequences of versions with the same members hold the same texts,
/// and where one holds no text twice neither does the other.
pub proof fn lemma_same_members(a: Seq<Version>, b: Seq<Version>)
    requires
        a.to_multiset() == b.to_multiset(),
    ensures
        forall|t: Seq<char>| holds_version(a, t) <==> holds_version(b, t),
        texts(b).no_duplicates() ==> texts(a).no_duplicates(),
{
    broadcast use vstd::seq_lib::group_to_multiset_ensures;

    let ta = texts(a);
    let tb = texts(b);
    lemma_map_keeps_members(a, b, |v: Version| version_text(v@));
    assert forall|t: Seq<char>| holds_version(a, t) <==> holds_version(b, t) by {
        if holds_version(a, t) {
            let i = choose|i: int| 0 <= i < a.len() && version_text((#[trigger] a[i])@) == t;
            assert(ta[i] == t);
            assert(ta.contains(t));
            assert(tb.to_multiset().count(t) > 0);
            assert(tb.contains(t));
            let j = choose|j: int| 0 <= j < tb.len() && tb[j] == t;
            assert(version_text(b[j]@) == t);
        }
        if holds_version(b, t) {
            let i = choose|i: int| 0 <= i < b.len() && version_text((#[trigger] b[i])@) == t;
            assert(tb[i] == t);
            assert(tb.contains(t));
            assert(ta.to_multiset().count(t) > 0);
            assert(ta.contains(t));
            let j = choose|j: int| 0 <= j < ta.len() && ta[j] == t;
            assert(version_text(a[j]@) == t);
        }
    }
    if tb.no_duplicates() {
        tb.lemma_multiset_has_no_duplicates();
        ta.lemma_multiset_has_no_duplicates_conv();
    }
}

/// Reads the versions from the names of the entries of the home directory,
/// in their order.
pub fn read_versions(names: &Vec<String>) -> (r: Result<Vec<Version>, VyperVmError>)
    ensures
        r is Ok <==> all_version_texts(candidates(names@)),
        r matches Ok(list) ==> texts(list@) == candidates(names@) && all_valid(list@),
        r matches Err(e) ==> e is UnknownVersion,
{
    let mut out: Vec<Version> = Vec::new();
    let mut i: usize = 0;
    assert(names@.subrange(0, 0) =~= Seq::<String>::empty());
    while i < names.len()
        invariant
            i <= names.len(),
            texts(out@) =~= candidates(names@.subrange(0, i as int)),
            all_valid(out@),
        decreases names.len() - i,
    {
        let ghost prefix = names@.subrange(0, i as int);
        let ghost next = names@.subrange(0, i + 1);
        assert(next.drop_last() == prefix);
        assert(next.last() == names@[i as int]);
        if !same_text(names[i].as_str(), GLOBAL_VERSION_FILE) {
            match Version::parse(names[i].as_str()) {
                Ok(v) => {
                    out.push(v);
                },
                Err(_) => {
                    proof {
                        let all = candidates(names@);
                        lemma_candidates_prefix(names@, i + 1);
                        let k = candidates(next).len() - 1;
                        assert(all[k] == candidates(next)[k]);
                        assert(!is_version_text(all[k]));
                    }
                    return Err(VyperVmError::UnknownVersion);
                },
            }
        }
        i = i + 1;
    }
    assert(names@.subrange(0, i as int) == names@);
    proof {
        let all = candidates(names@);
        assert forall|k: int| 0 <= k < all.len() implies is_version_text(#[trigger] all[k]) by {
            assert(texts(out@)[k] == version_text(out@[k]@));
            assert(parses_as(all[k], out@[k]@));
        }
    }
    Ok(out)
}

/// The names read from the first `n` entries are the first of the names
/// read from all.
pub proof fn lemma_candidates_prefix(names: Seq<String>, n: int)
    requires
        0 <= n <= names.len(),
    ensures
        candidates(names.subrange(0, n)).len() <= candidates(names).len(),
        forall|k: int|
            0 <= k < candidates(names.subrange(0, n)).len() ==> candidates(names)[k]
                == #[trigger] candidates(names.subrange(0, n))[k],
    decreases names.len(),
{
    if n == names.len() {
        assert(names.subrange(0, n) == names);
    } else {
        assert(names.drop_last().subrange(0, n) == names.subrange(0, n));
        lemma_candidates_prefix(names.drop_last(), n);
    }
}

/// Reads the list of Vyper versions that have been installed in the machine,
/// from the names of the entries of the home directory. The version list is
/// sorted in ascending order.
pub fn installed_versions(names: &Vec<String>) -> (r: Result<Vec<Version>, VyperVmError>)
    ensures
        r is Ok <==> all_version_texts(candidates(names@)),
        r matches Ok(list) ==> {
            &&& is_ascending(list@)
            &&& all_valid(list@)
            &&& texts(list@).to_multiset() == candidates(names@).to_multiset()
        },
        r matches Err(e) ==> e is UnknownVersion,
{
    match read_versions(names) {
        Ok(found) => {
            let ghost unsorted = found@;
            let sorted = sort_versions(found);
            proof {
                broadcast use vstd::seq_lib::group_to_multiset_ensures;

                lemma_map_keeps_members(sorted@, unsorted, |v: Version| version_text(v@));
                assert forall|k: int| 0 <= k < sorted@.len() implies is_valid(
                    #[trigger] sorted@[k]@,
                ) by {
                    assert(sorted@.contains(sorted@[k]));
                    assert(unsorted.to_multiset().count(sorted@[k]) > 0);
                    assert(unsorted.contains(sorted@[k]));
                }
            }
            Ok(sorted)
        },
        Err(e) => Err(e),
    }
}

/// The text of a valid version begins with a digit and does not end with a
/// line end.
pub proof fn lemma_version_text_ends(v: VersionView)
    requires
        is_valid(v),
    ensures
        version_text(v).len() > 0,
        '0' <= version_text(v)[0] <= '9',
        version_text(v).last() != '\n',
{
    lemma_decimal_digits(v.major as nat);
    lemma_decimal_digits(v.minor as nat);
    lemma_decimal_digits(v.patch as nat);
    let numbers = decimal(v.major as nat) + seq!['.'] + decimal(v.minor as nat) + seq!['.']
        + decimal(v.patch as nat);
    let pre = if v.pre.len() > 0 {
        seq!['-'] + v.pre
    } else {
        Seq::empty()
    };
    let build = if v.build.len() > 0 {
        seq!['+'] + v.build
    } else {
        Seq::empty()
    };
    let t = version_text(v);
    assert(t == numbers + pre + build);
    assert(t[0] == decimal(v.major as nat)[0]);
    assert(numbers.last() == decimal(v.patch as nat).last());
    if v.build.len() > 0 {
        assert(t.last() == v.build.last());
    } else if v.pre.len() > 0 {
        assert(t.last() == v.pre.last());
    } else {
        assert(t.last() == numbers.last());
    }
}

/// Once a version was made the global version, reading the file of the
/// global version gives exactly that version, whether or not it is
/// installed.
pub proof fn lemma_current_after_use(v: VersionView, r: Option<Version>)
    requires
        is_valid(v),
        is_current(version_text(v), r),
    ensures
        r matches Some(w) && w@ == v,
{
    lemma_version_text_ends(v);
    assert(parses_as(version_text(v), v));
    if let Some(w) = r {
        lemma_text_determines_version(w@, v);
    }
}

/// Once the global version was unset, reading its file gives none.
pub proof fn lemma_current_after_unset(r: Option<Version>)
    requires
        is_current(Seq::<char>::empty(), r),
    ensures
        r is None,
{
    if let Some(w) = r {
        lemma_decimal_digits(w@.major as nat);
    }
}

/// The name of every entry that is not the file of the global version is
/// among the names that are read.
pub proof fn lemma_candidate_is_listed(names: Seq<String>, k: int)
    requires
        0 <= k < names.len(),
        names[k]@ != GLOBAL_VERSION_FILE@,
    ensures
        candidates(names).contains(names[k]@),
    decreases names.len(),
{
    let rest = candidates(names.drop_last());
    if k == names.len() - 1 {
        assert(candidates(names) == rest.push(names[k]@));
        assert(candidates(names)[rest.len() as int] == names[k]@);
    } else {
        lemma_candidate_is_listed(names.drop_last(), k);
        let i = choose|i: int| 0 <= i < rest.len() && rest[i] == names[k]@;
        if names.last()@ == GLOBAL_VERSION_FILE@ {
        } else {
            assert(candidates(names)[i] == rest[i]);
        }
    }
}

/// A version that was installed is among the installed versions: where the
/// home directory has an entry named as the version, the list that
/// [`installed_versions`] reads from the entries holds the version.
pub proof fn lemma_installed_is_listed(names: Seq<String>, k: int, v: VersionView, list: Seq<Version>)
    requires
        is_valid(v),
        0 <= k < names.len(),
        names[k]@ == version_text(v),
        all_valid(list),
        texts(list).to_multiset() == candidates(names).to_multiset(),
    ensures
        holds_version(list, version_text(v)),
        exists|j: int| 0 <= j < list.len() && (#[trigger] list[j])@ == v,
{
    broadcast use vstd::seq_lib::group_to_multiset_ensures;

    let t = version_text(v);
    lemma_version_text_ends(v);
    reveal_strlit(".global-version");
    assert(GLOBAL_VERSION_FILE@[0] == '.');
    lemma_candidate_is_listed(names, k);
    assert(candidates(names).contains(t));
    assert(texts(list).to_multiset().count(t) > 0);
    assert(texts(list).contains(t));
    let j = choose|j: int| 0 <= j < texts(list).len() && texts(list)[j] == t;
    assert(version_text(list[j]@) == t);
    lemma_text_determines_version(list[j]@, v);
}

/// Reads the currently set global version for Vyper from what its file
/// holds. Returns None if none has yet been set.
pub fn current_version(content: &str) -> (r: Option<Version>)
    ensures
        is_current(content@, r),
{
    let text = trim_end_matches(content, '\n');
    match Version::parse(text.as_str()) {
        Ok(v) => Some(v),
        Err(_) => None,
    }
}

/// What the file of the global version holds once the provided version is
/// the global version for Vyper.
pub fn use_version(version: &Version) -> (r: String)
    ensures
        r@ == version_text(version@),
{
    version.to_string()
}

/// What the file of the global version holds once no version is the global
/// version. This should be done if all versions are removed.
pub fn unset_global_version() -> (r: String)
    ensures
        r@ == Seq::<char>::empty(),
{
    String::new()
}

/// The directory that goes, with all that is in it, when the provided
/// version of Vyper is removed from the machine.
pub fn remove_version(home: &str, version: &Version) -> (r: String)
    ensures
        r@ == joined(home@, version_text(version@)),
{
    version_path(home, version.to_string().as_str())
}

/// Whether the list holds a version with the text of `version`.
pub fn contains_version(list: &Vec<Version>, version: &Version) -> (r: bool)
    ensures
        r == holds_version(list@, version_text(version@)),
{
    let mut i: usize = 0;
    while i < list.len()
        invariant
            i <= list.len(),
            forall|k: int| 0 <= k < i ==> version_text((#[trigger] list@[k])@) != version_text(version@),
        decreases list.len() - i,
    {
        if list[i].same_as(version) {
            return true;
        }
        i = i + 1;
    }
    false
}

} // verus!

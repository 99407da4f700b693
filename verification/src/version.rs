//! Semantic versions: their fields, their text and their order.

use crate::error::VyperVmError;
use crate::text::{
    decimal, decimal_text, lemma_cut_is_unique, lemma_decimal_digits, lemma_decimal_injective,
    lemma_decimal_len_u64,
};
use vstd::multiset::Multiset;
use vstd::prelude::*;

verus! {

/// A semantic version: three numbers, pre-release identifiers and build
/// metadata, the last two empty where the version has none.
#[derive(Debug)]
pub struct Version {
    pub major: u64,
    pub minor: u64,
    pub patch: u64,
    pub pre: String,
    pub build: String,
}

/// What a [`Version`] holds.
pub struct VersionView {
    pub major: u64,
    pub minor: u64,
    pub patch: u64,
    pub pre: Seq<char>,
    pub build: Seq<char>,
}

impl View for Version {
    type V = VersionView;

    open spec fn view(&self) -> VersionView {
        VersionView {
            major: self.major,
            minor: self.minor,
            patch: self.patch,
            pre: self.pre@,
            build: self.build@,
        }
    }
}

/// The length that the text of a version stays below. Longer text is the
/// text of no version: it could not be held in memory on every machine.
pub const MAX_TEXT: usize = 0x7fff_fff0;

/// A decimal digit.
pub open spec fn is_digit(c: char) -> bool {
    '0' <= c <= '9'
}

/// A character that an identifier may hold: a digit, a letter or a hyphen.
pub open spec fn is_identifier_char(c: char) -> bool {
    is_digit(c) || ('a' <= c <= 'z') || ('A' <= c <= 'Z') || c == '-'
}

/// Identifiers separated by dots, none of them empty.
pub open spec fn is_identifier_list(s: Seq<char>) -> bool {
    &&& s.len() > 0
    &&& s[0] != '.'
    &&& s.last() != '.'
    &&& forall|i: int| 0 <= i < s.len() ==> is_identifier_char(#[trigger] s[i]) || s[i] == '.'
    &&& forall|i: int| 0 < i < s.len() && #[trigger] s[i] == '.' ==> s[i - 1] != '.'
}

/// An identifier of more than one character begins at `i` with a zero and
/// holds digits only.
pub open spec fn has_padded_number_at(s: Seq<char>, i: int) -> bool {
    &&& 0 <= i < s.len() - 1
    &&& (i == 0 || s[i - 1] == '.')
    &&& s[i] == '0'
    &&& s[i + 1] != '.'
    &&& forall|j: int|
        i < j < s.len() && !is_digit(#[trigger] s[j]) ==> exists|k: int|
            i < k <= j && #[trigger] s[k] == '.'
}

/// What may stand behind the hyphen: nothing, or identifiers in which no
/// number is padded with zeros.
pub open spec fn is_prerelease(s: Seq<char>) -> bool {
    s.len() == 0 || (is_identifier_list(s) && forall|i: int| !#[trigger] has_padded_number_at(s, i))
}

/// What may stand behind the plus sign: nothing, or identifiers.
pub open spec fn is_build_metadata(s: Seq<char>) -> bool {
    s.len() == 0 || is_identifier_list(s)
}

/// The fields are those of a version that can be written down and read
/// back: the suffixes are lists of identifiers, and the text is not too
/// long.
pub open spec fn is_valid(v: VersionView) -> bool {
    is_prerelease(v.pre) && is_build_metadata(v.build) && version_text(v).len() < MAX_TEXT
}

/// The version `0.0.0` with the pre-release identifiers `pre`.
pub open spec fn with_prerelease(pre: Seq<char>) -> VersionView {
    VersionView { major: 0, minor: 0, patch: 0, pre, build: Seq::empty() }
}

/// The version `0.0.0` with the build metadata `build`.
pub open spec fn with_build(build: Seq<char>) -> VersionView {
    VersionView { major: 0, minor: 0, patch: 0, pre: Seq::empty(), build }
}

/// The pre-release identifiers as they are compared: text that no valid
/// version has for its pre-release identifiers counts as none.
pub open spec fn clipped_prerelease(s: Seq<char>) -> Seq<char> {
    if is_valid(with_prerelease(s)) {
        s
    } else {
        Seq::empty()
    }
}

/// The build metadata as it is compared: text that no valid version has for
/// its build metadata counts as none.
pub open spec fn clipped_build(s: Seq<char>) -> Seq<char> {
    if is_valid(with_build(s)) {
        s
    } else {
        Seq::empty()
    }
}

/// The text of a version: `major.minor.patch`, then `-` and the pre-release
/// identifiers if there are any, then `+` and the build metadata if there is
/// any.
pub open spec fn version_text(v: VersionView) -> Seq<char> {
    decimal(v.major as nat) + seq!['.'] + decimal(v.minor as nat) + seq!['.'] + decimal(
        v.patch as nat,
    ) + (if v.pre.len() > 0 {
        seq!['-'] + v.pre
    } else {
        Seq::empty()
    }) + (if v.build.len() > 0 {
        seq!['+'] + v.build
    } else {
        Seq::empty()
    })
}

/// `text` is the text of the valid version `v`.
pub open spec fn parses_as(text: Seq<char>, v: VersionView) -> bool {
    is_valid(v) && version_text(v) == text
}

/// `text` is the text of some valid version.
pub open spec fn is_version_text(text: Seq<char>) -> bool {
    exists|v: VersionView| parses_as(text, v)
}

/// The text of each version, in the same order.
pub open spec fn texts(versions: Seq<Version>) -> Seq<Seq<char>> {
    versions.map_values(|v: Version| version_text(v@))
}

/// What stands behind the numbers in the text of a version.
pub open spec fn suffix_text(v: VersionView) -> Seq<char> {
    (if v.pre.len() > 0 {
        seq!['-'] + v.pre
    } else {
        Seq::empty()
    }) + (if v.build.len() > 0 {
        seq!['+'] + v.build
    } else {
        Seq::empty()
    })
}

/// Two valid versions with the same suffix in their text have the same
/// pre-release identifiers and the same build metadata.
pub proof fn lemma_suffix_determines_fields(p: VersionView, q: VersionView)
    requires
        is_valid(p),
        is_valid(q),
        suffix_text(p) == suffix_text(q),
    ensures
        p.pre == q.pre,
        p.build == q.build,
{
    let s = suffix_text(p);
    let build_p = if p.build.len() > 0 {
        seq!['+'] + p.build
    } else {
        Seq::empty()
    };
    let build_q = if q.build.len() > 0 {
        seq!['+'] + q.build
    } else {
        Seq::empty()
    };
    if p.pre.len() > 0 {
        assert(s[0] == '-');
    }
    if q.pre.len() > 0 {
        assert(suffix_text(q)[0] == '-');
    }
    if p.pre.len() == 0 && p.build.len() > 0 {
        assert(s[0] == '+');
    }
    if q.pre.len() == 0 && q.build.len() > 0 {
        assert(suffix_text(q)[0] == '+');
    }
    if p.pre.len() == 0 && p.build.len() == 0 {
        assert(s.len() == 0);
    }
    if q.pre.len() == 0 && q.build.len() == 0 {
        assert(suffix_text(q).len() == 0);
    }
    if p.pre.len() > 0 && q.pre.len() > 0 {
        let kind = |c: char| c != '+';
        assert(s.skip(1) =~= p.pre + build_p);
        assert(suffix_text(q).skip(1) =~= q.pre + build_q);
        assert forall|i: int| 0 <= i < p.pre.len() implies kind(#[trigger] p.pre[i]) by {
            assert(is_identifier_char(p.pre[i]) || p.pre[i] == '.');
        }
        assert forall|i: int| 0 <= i < q.pre.len() implies kind(#[trigger] q.pre[i]) by {
            assert(is_identifier_char(q.pre[i]) || q.pre[i] == '.');
        }
        lemma_cut_is_unique(p.pre, build_p, q.pre, build_q, kind);
    } else {
        assert(p.pre.len() == 0 && q.pre.len() == 0);
        assert(p.pre =~= q.pre);
        assert(s =~= build_p);
        assert(suffix_text(q) =~= build_q);
    }
    assert(build_p == build_q);
    if p.build.len() > 0 {
        assert(build_q.len() > 0);
        assert(build_p.skip(1) =~= p.build);
        assert(build_q.skip(1) =~= q.build);
    } else {
        assert(build_q.len() == 0);
        assert(p.build =~= q.build);
    }
}

/// A number in decimal and what follows it are told apart where what
/// follows does not begin with a digit.
pub proof fn lemma_number_then_rest(a: nat, rest_a: Seq<char>, b: nat, rest_b: Seq<char>)
    requires
        decimal(a) + rest_a == decimal(b) + rest_b,
        rest_a.len() > 0 ==> !is_digit(rest_a[0]),
        rest_b.len() > 0 ==> !is_digit(rest_b[0]),
    ensures
        a == b,
        rest_a == rest_b,
{
    lemma_decimal_digits(a);
    lemma_decimal_digits(b);
    lemma_cut_is_unique(decimal(a), rest_a, decimal(b), rest_b, |c: char| is_digit(c));
    lemma_decimal_injective(a, b);
}

/// What follows the minor number in the text of a version.
pub open spec fn patch_text(v: VersionView) -> Seq<char> {
    seq!['.'] + (decimal(v.patch as nat) + suffix_text(v))
}

/// What follows the major number in the text of a version.
pub open spec fn minor_text(v: VersionView) -> Seq<char> {
    seq!['.'] + (decimal(v.minor as nat) + patch_text(v))
}

/// The text of a version is its major number and what follows it.
pub proof fn lemma_version_text_shape(v: VersionView)
    ensures
        version_text(v) == decimal(v.major as nat) + minor_text(v),
        minor_text(v)[0] == '.',
        minor_text(v).skip(1) == decimal(v.minor as nat) + patch_text(v),
        patch_text(v)[0] == '.',
        patch_text(v).skip(1) == decimal(v.patch as nat) + suffix_text(v),
        suffix_text(v).len() > 0 ==> !is_digit(suffix_text(v)[0]),
{
    assert(version_text(v) =~= decimal(v.major as nat) + minor_text(v));
    assert(minor_text(v).skip(1) =~= decimal(v.minor as nat) + patch_text(v));
    assert(patch_text(v).skip(1) =~= decimal(v.patch as nat) + suffix_text(v));
    if v.pre.len() > 0 {
        assert(suffix_text(v)[0] == '-');
    } else if v.build.len() > 0 {
        assert(suffix_text(v)[0] == '+');
    }
}

/// Two valid versions with the same text are the same version: the text of
/// a version says what each of its fields holds.
pub proof fn lemma_text_determines_version(p: VersionView, q: VersionView)
    requires
        is_valid(p),
        is_valid(q),
        version_text(p) == version_text(q),
    ensures
        p == q,
{
    lemma_version_text_shape(p);
    lemma_version_text_shape(q);
    lemma_number_then_rest(p.major as nat, minor_text(p), q.major as nat, minor_text(q));
    lemma_number_then_rest(p.minor as nat, patch_text(p), q.minor as nat, patch_text(q));
    lemma_number_then_rest(p.patch as nat, suffix_text(p), q.patch as nat, suffix_text(q));
    lemma_suffix_determines_fields(p, q);
}

/// Whether the pre-release identifiers and build metadata of one version
/// come before those of another, or are the same, in the order that
/// `semver` gives them. Text that is no list of identifiers counts as none.
pub uninterp spec fn suffix_le(
    pre_a: Seq<char>,
    build_a: Seq<char>,
    pre_b: Seq<char>,
    build_b: Seq<char>,
) -> bool;

/// Of every two suffixes one comes before the other or they are level.
pub open spec fn suffix_le_is_total() -> bool {
    forall|pa: Seq<char>, ba: Seq<char>, pb: Seq<char>, bb: Seq<char>|
        #[trigger] suffix_le(pa, ba, pb, bb) || #[trigger] suffix_le(pb, bb, pa, ba)
}

/// What comes before a suffix comes before all that the suffix comes before.
pub open spec fn suffix_le_is_transitive() -> bool {
    forall|pa: Seq<char>, ba: Seq<char>, pb: Seq<char>, bb: Seq<char>, pc: Seq<char>, bc: Seq<char>|
        #[trigger] suffix_le(pa, ba, pb, bb) && #[trigger] suffix_le(pb, bb, pc, bc) ==> suffix_le(
            pa,
            ba,
            pc,
            bc,
        )
}

/// The order of versions: by major, then minor, then patch number, then by
/// the suffixes.
pub open spec fn version_le(a: VersionView, b: VersionView) -> bool {
    if a.major != b.major {
        a.major < b.major
    } else if a.minor != b.minor {
        a.minor < b.minor
    } else if a.patch != b.patch {
        a.patch < b.patch
    } else {
        suffix_le(
            clipped_prerelease(a.pre),
            clipped_build(a.build),
            clipped_prerelease(b.pre),
            clipped_build(b.build),
        )
    }
}

/// `r` says whether `a` comes before `b` or is level with it, in an order
/// whose part on the suffixes is total and transitive.
pub open spec fn is_precedence(a: VersionView, b: VersionView, r: bool) -> bool {
    &&& r == version_le(a, b)
    &&& suffix_le_is_total()
    &&& suffix_le_is_transitive()
}

/// A sequence of versions in which none comes before an earlier one.
pub open spec fn is_ascending(s: Seq<Version>) -> bool {
    forall|i: int, j: int| 0 <= i < j < s.len() ==> version_le(#[trigger] s[i]@, #[trigger] s[j]@)
}

/// Calls `semver::Version::parse` and hands the fields out. The contract
/// claims that the text is accepted exactly when it is the text of valid
/// fields, and that those fields are returned. Text of `MAX_TEXT`
/// characters or more is left out: on an identifier that long `semver`
/// gives up.
#[verifier::external_body]
fn semver_parse(text: &str) -> (r: Result<Version, semver::Error>)
    requires
        text@.len() < MAX_TEXT,
    ensures
        r matches Ok(v) ==> parses_as(text@, v@),
        r is Err ==> !is_version_text(text@),
{
    semver::Version::parse(text).map(
        |v| Version {
            major: v.major,
            minor: v.minor,
            patch: v.patch,
            pre: v.pre.as_str().to_string(),
            build: v.build.as_str().to_string(),
        },
    )
}

/// Compares two versions with `semver`'s `<=`. The contract claims the
/// order that `semver::Version` derives from its fields: the three numbers
/// come first; where they are equal the suffixes decide, in an order that
/// is total and transitive. The suffixes have to be those of valid
/// versions: lists of identifiers, which `semver` takes as they are, and
/// shorter than `MAX_TEXT`, since on an identifier that long `semver` gives
/// up.
#[verifier::external_body]
fn semver_le(a: &Version, b: &Version) -> (r: bool)
    requires
        is_valid(with_prerelease(a.pre@)),
        is_valid(with_build(a.build@)),
        is_valid(with_prerelease(b.pre@)),
        is_valid(with_build(b.build@)),
    ensures
        is_precedence(a@, b@, r),
        a.major == b.major && a.minor == b.minor && a.patch == b.patch ==> r == suffix_le(
            a.pre@,
            a.build@,
            b.pre@,
            b.build@,
        ),
{
    let x = semver::Version {
        major: a.major,
        minor: a.minor,
        patch: a.patch,
        pre: semver::Prerelease::new(a.pre.as_str()).unwrap_or_default(),
        build: semver::BuildMetadata::new(a.build.as_str()).unwrap_or_default(),
    };
    let y = semver::Version {
        major: b.major,
        minor: b.minor,
        patch: b.patch,
        pre: semver::Prerelease::new(b.pre.as_str()).unwrap_or_default(),
        build: semver::BuildMetadata::new(b.build.as_str()).unwrap_or_default(),
    };
    x <= y
}

/// Where the suffixes are ordered, so are the versions: every two can be
/// compared.
pub proof fn lemma_version_le_total(a: VersionView, b: VersionView)
    requires
        suffix_le_is_total(),
    ensures
        version_le(a, b) || version_le(b, a),
{
}

/// Where the suffixes are ordered, so are the versions: the order passes on.
pub proof fn lemma_version_le_transitive(a: VersionView, b: VersionView, c: VersionView)
    requires
        suffix_le_is_transitive(),
        version_le(a, b),
        version_le(b, c),
    ensures
        version_le(a, c),
{
}

impl Clone for Version {
    fn clone(&self) -> (r: Self)
        ensures
            r == *self,
    {
        Version {
            major: self.major,
            minor: self.minor,
            patch: self.patch,
            pre: self.pre.clone(),
            build: self.build.clone(),
        }
    }
}

impl Version {
    /// The version `major.minor.patch`, without suffixes.
    pub fn new(major: u64, minor: u64, patch: u64) -> (r: Version)
        ensures
            r@ == (VersionView { major, minor, patch, pre: Seq::empty(), build: Seq::empty() }),
            is_valid(r@),
    {
        let r = Version { major, minor, patch, pre: String::new(), build: String::new() };
        proof {
            lemma_decimal_len_u64(major);
            lemma_decimal_len_u64(minor);
            lemma_decimal_len_u64(patch);
        }
        r
    }

    /// Reads a version from its text.
    pub fn parse(text: &str) -> (r: Result<Version, VyperVmError>)
        ensures
            r is Ok <==> is_version_text(text@),
            r matches Ok(v) ==> parses_as(text@, v@),
            r matches Err(e) ==> e is SemverError,
    {
        let readable = if text.unicode_len() < MAX_TEXT {
            text
        } else {
            proof {
                reveal_strlit("");
                assert forall|v: VersionView| !parses_as(""@, v) by {
                    lemma_decimal_digits(v.major as nat);
                }
            }
            ""
        };
        match semver_parse(readable) {
            Ok(v) => Ok(v),
            Err(e) => Err(VyperVmError::SemverError(e)),
        }
    }

    /// The text of the version.
    pub fn to_string(&self) -> (r: String)
        ensures
            r@ == version_text(self@),
    {
        let mut out = decimal_text(self.major);
        out.append(".");
        out.append(decimal_text(self.minor).as_str());
        out.append(".");
        out.append(decimal_text(self.patch).as_str());
        proof {
            reveal_strlit(".");
            reveal_strlit("-");
            reveal_strlit("+");
        }
        if self.pre.as_str().unicode_len() > 0 {
            out.append("-");
            out.append(self.pre.as_str());
        }
        if self.build.as_str().unicode_len() > 0 {
            out.append("+");
            out.append(self.build.as_str());
        }
        assert(out@ =~= version_text(self@));
        out
    }

    /// Whether the two versions have the same text.
    pub fn same_as(&self, other: &Version) -> (r: bool)
        ensures
            r == (version_text(self@) == version_text(other@)),
    {
        self.to_string() == other.to_string()
    }

    /// Whether the version comes before `other` or is level with it.
    pub fn precedes(&self, other: &Version) -> (r: bool)
        ensures
            r == version_le(self@, other@),
    {
        precedence(self, other)
    }
}

/// The text of `0.0.0` with pre-release identifiers is `0.0.0-` and the
/// identifiers, and with build metadata `0.0.0+` and the metadata.
pub proof fn lemma_suffix_version_text(s: Seq<char>)
    requires
        s.len() > 0,
    ensures
        version_text(with_prerelease(s)) == "0.0.0-"@ + s,
        version_text(with_build(s)) == "0.0.0+"@ + s,
{
    reveal_strlit("0.0.0-");
    reveal_strlit("0.0.0+");
    assert(decimal(0) == seq!['0']);
    assert(version_text(with_prerelease(s)) =~= "0.0.0-"@ + s);
    assert(version_text(with_build(s)) =~= "0.0.0+"@ + s);
}

/// The suffixes of a valid version are compared as they are.
pub proof fn lemma_valid_is_unclipped(v: VersionView)
    requires
        is_valid(v),
    ensures
        clipped_prerelease(v.pre) == v.pre,
        clipped_build(v.build) == v.build,
{
    lemma_decimal_digits(v.major as nat);
    lemma_decimal_digits(v.minor as nat);
    lemma_decimal_digits(v.patch as nat);
    assert(decimal(0).len() == 1);
    assert(version_text(with_prerelease(v.pre)).len() <= version_text(v).len());
    assert(version_text(with_build(v.build)).len() <= version_text(v).len());
}

/// The pre-release identifiers as they are compared.
fn clip_prerelease(s: &String) -> (r: String)
    ensures
        r@ == clipped_prerelease(s@),
        is_valid(with_prerelease(r@)),
{
    let ghost q = with_prerelease(s@);
    let ghost none = with_prerelease(Seq::empty());
    proof {
        assert(decimal(0).len() == 1);
        assert(version_text(none).len() == 5);
    }
    let n = s.as_str().unicode_len();
    if n == 0 {
        assert(s@ =~= Seq::<char>::empty());
        return String::new();
    }
    proof {
        lemma_suffix_version_text(s@);
        reveal_strlit("0.0.0-");
    }
    if n >= MAX_TEXT - 6 {
        return String::new();
    }
    let mut text = "0.0.0-".to_owned();
    text.append(s.as_str());
    match Version::parse(text.as_str()) {
        Ok(v) => {
            if v.build.as_str().unicode_len() == 0 && v.pre == *s {
                assert(v@.build =~= Seq::<char>::empty());
                s.clone()
            } else {
                proof {
                    if is_valid(q) {
                        lemma_text_determines_version(v@, q);
                    }
                }
                String::new()
            }
        },
        Err(_) => {
            assert(!parses_as(text@, q));
            String::new()
        },
    }
}

/// The build metadata as it is compared.
fn clip_build(s: &String) -> (r: String)
    ensures
        r@ == clipped_build(s@),
        is_valid(with_build(r@)),
{
    let ghost q = with_build(s@);
    let ghost none = with_build(Seq::empty());
    proof {
        assert(decimal(0).len() == 1);
        assert(version_text(none).len() == 5);
    }
    let n = s.as_str().unicode_len();
    if n == 0 {
        assert(s@ =~= Seq::<char>::empty());
        return String::new();
    }
    proof {
        lemma_suffix_version_text(s@);
        reveal_strlit("0.0.0+");
    }
    if n >= MAX_TEXT - 6 {
        return String::new();
    }
    let mut text = "0.0.0+".to_owned();
    text.append(s.as_str());
    match Version::parse(text.as_str()) {
        Ok(v) => {
            if v.pre.as_str().unicode_len() == 0 && v.build == *s {
                assert(v@.pre =~= Seq::<char>::empty());
                s.clone()
            } else {
                proof {
                    if is_valid(q) {
                        lemma_text_determines_version(v@, q);
                    }
                }
                String::new()
            }
        },
        Err(_) => {
            assert(!parses_as(text@, q));
            String::new()
        },
    }
}

/// Whether `a` comes before `b` or is level with it; and that the order of
/// the suffixes is total and transitive, which is known once two versions
/// were compared.
fn precedence(a: &Version, b: &Version) -> (r: bool)
    ensures
        is_precedence(a@, b@, r),
{
    let x = Version {
        major: a.major,
        minor: a.minor,
        patch: a.patch,
        pre: clip_prerelease(&a.pre),
        build: clip_build(&a.build),
    };
    let y = Version {
        major: b.major,
        minor: b.minor,
        patch: b.patch,
        pre: clip_prerelease(&b.pre),
        build: clip_build(&b.build),
    };
    semver_le(&x, &y)
}

/// The versions in ascending order. Versions that are level with each other
/// keep the order they came in.
pub fn sort_versions(versions: Vec<Version>) -> (r: Vec<Version>)
    ensures
        is_ascending(r@),
        r@.to_multiset() == versions@.to_multiset(),
{
    let mut input = versions;
    let mut out: Vec<Version> = Vec::new();
    assert(out@.to_multiset().add(input@.to_multiset()) =~= versions@.to_multiset()) by {
        broadcast use vstd::seq_lib::group_to_multiset_ensures;
    }
    while input.len() > 0
        invariant
            is_ascending(out@),
            out@.to_multiset().add(input@.to_multiset()) == versions@.to_multiset(),
        decreases input.len(),
    {
        let ghost before_in = input@;
        let ghost before_out = out@;
        let x = input.pop().unwrap();
        assert(before_in == input@.push(x));
        let mut k: usize = 0;
        let mut ordered: bool = false;
        while k < out.len()
            invariant
                out@ == before_out,
                k <= out.len(),
                forall|j: int| 0 <= j < k ==> version_le(#[trigger] out@[j]@, x@),
                ordered ==> suffix_le_is_total() && suffix_le_is_transitive(),
                k > 0 ==> ordered,
            ensures
                k <= out.len(),
                k < out.len() ==> version_le(x@, out@[k as int]@) && ordered,
            decreases out.len() - k,
        {
            let goes_first = precedence(&x, &out[k]);
            ordered = true;
            if goes_first {
                break;
            }
            proof {
                lemma_version_le_total(x@, out@[k as int]@);
            }
            k = k + 1;
        }
        out.insert(k, x);
        proof {
            broadcast use vstd::seq_lib::group_to_multiset_ensures;
            assert(out@.remove(k as int) == before_out);
            assert(out@.to_multiset() =~= before_out.to_multiset().insert(x));
            assert forall|i: int, j: int| 0 <= i < j < out@.len() implies version_le(
                #[trigger] out@[i]@,
                #[trigger] out@[j]@,
            ) by {
                if j == k {
                } else if i == k {
                    if j > k + 1 {
                        lemma_version_le_transitive(x@, before_out[k as int]@, before_out[j - 1]@);
                    }
                } else if i < k && j > k {
                    assert(version_le(before_out[i]@, before_out[j - 1]@));
                } else if i < k {
                    assert(version_le(before_out[i]@, before_out[j]@));
                } else {
                    assert(version_le(before_out[i - 1]@, before_out[j - 1]@));
                }
            }
        }
    }
    assert(input@.to_multiset() =~= Multiset::empty()) by {
        broadcast use vstd::seq_lib::group_to_multiset_ensures;
    }
    assert(out@.to_multiset() =~= versions@.to_multiset());
    out
}

} // verus!

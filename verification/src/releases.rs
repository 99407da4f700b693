//! The catalog of releases: which versions can be had for a platform, under
//! which artifact name, and from which URL.

use crate::error::VyperVmError;
use crate::platform::{platform_token, Platform};
use crate::registry::{holds_version, lemma_same_members};
use crate::text::{contains, has_infix, trim_start_matches, without_leading};
use crate::version::{
    is_ascending, is_version_text, parses_as, sort_versions, texts, version_text, Version,
};
use vstd::prelude::*;

verus! {

/// Where the list of releases is fetched from.
pub const GITHUB_RELEASES: &'static str =
    "https://api.github.com/repos/vyperlang/vyper/releases?per_page=100";

/// What the download URL of every artifact begins with.
pub const DOWNLOAD_PREFIX: &'static str = "https://github.com/vyperlang/vyper/releases/download/v";

/// A downloadable file of a release, as the release list names it.
#[derive(Debug)]
pub struct VyperAsset {
    pub name: String,
    pub browser_download_url: String,
}

/// A release, as the release list gives it: its tag, `v` and a version, and
/// its downloadable files.
#[derive(Debug)]
pub struct VyperReleases {
    pub tag_name: String,
    pub assets: Vec<VyperAsset>,
}

/// Build info contains the SHA256 checksum of a binary.
#[derive(Debug)]
pub struct BuildInfo {
    pub version: Version,
    pub sha256: Vec<u8>,
}

/// A version and the name of its artifact.
#[derive(Debug)]
pub struct Artifact {
    pub version: Version,
    pub name: String,
}

/// The builds of a platform and, for each version, the name of its
/// artifact. No version has two names.
#[derive(Debug)]
pub struct Releases {
    pub builds: Vec<BuildInfo>,
    pub releases: Vec<Artifact>,
}

/// A tag and an artifact name of the release list that belong together.
pub struct Match {
    pub tag: Seq<char>,
    pub name: Seq<char>,
}

/// The text of the version that an artifact belongs to.
pub open spec fn key(a: Artifact) -> Seq<char> {
    version_text(a.version@)
}

/// No two artifacts belong to the same version.
pub open spec fn versions_distinct(s: Seq<Artifact>) -> bool {
    forall|i: int, j: int| 0 <= i < j < s.len() ==> key(#[trigger] s[i]) != key(#[trigger] s[j])
}

/// Some artifact of the sequence belongs to the version with the text `v`.
pub open spec fn has_artifact(s: Seq<Artifact>, v: Seq<char>) -> bool {
    exists|i: int| 0 <= i < s.len() && key(#[trigger] s[i]) == v
}

/// The index of the artifact of the version with the text `v`.
pub open spec fn index_of_version(s: Seq<Artifact>, v: Seq<char>) -> int {
    choose|i: int| 0 <= i < s.len() && key(#[trigger] s[i]) == v
}

/// From the text of each version of the sequence to the name of its
/// artifact.
pub open spec fn artifact_map(s: Seq<Artifact>) -> Map<Seq<char>, Seq<char>> {
    Map::new(|v: Seq<char>| has_artifact(s, v), |v: Seq<char>| s[index_of_version(s, v)].name@)
}

/// The assets of one release whose name holds the platform's token, each
/// with the release's tag without its leading `v`, in the order of the list.
pub open spec fn matching_assets(tag: Seq<char>, assets: Seq<VyperAsset>, token: Seq<char>) -> Seq<
    Match,
>
    decreases assets.len(),
{
    if assets.len() == 0 {
        Seq::empty()
    } else if has_infix(assets.last().name@, token) {
        matching_assets(tag, assets.drop_last(), token).push(
            Match { tag: without_leading(tag, "v"@), name: assets.last().name@ },
        )
    } else {
        matching_assets(tag, assets.drop_last(), token)
    }
}

/// The assets of all releases whose name holds the platform's token, in the
/// order of the list.
pub open spec fn matching(listing: Seq<VyperReleases>, token: Seq<char>) -> Seq<Match>
    decreases listing.len(),
{
    if listing.len() == 0 {
        Seq::empty()
    } else {
        matching(listing.drop_last(), token) + matching_assets(
            listing.last().tag_name@,
            listing.last().assets@,
            token,
        )
    }
}

/// Every tag of the matches is the text of a version.
pub open spec fn all_tags_versions(m: Seq<Match>) -> bool {
    forall|k: int| 0 <= k < m.len() ==> is_version_text((#[trigger] m[k]).tag)
}

/// From the tag of each match to the name that came last for it.
pub open spec fn listed(m: Seq<Match>) -> Map<Seq<char>, Seq<char>>
    decreases m.len(),
{
    if m.len() == 0 {
        Map::empty()
    } else {
        listed(m.drop_last()).insert(m.last().tag, m.last().name)
    }
}

/// The builds are those of the matches, in their order and without
/// checksum.
pub open spec fn builds_of(builds: Seq<BuildInfo>, m: Seq<Match>) -> bool {
    &&& builds.len() == m.len()
    &&& forall|k: int|
        0 <= k < m.len() ==> parses_as(m[k].tag, (#[trigger] builds[k]).version@)
            && builds[k].sha256@.len() == 0
}

/// `text` with `%2B` in the place of each plus sign.
pub open spec fn plus_escaped(text: Seq<char>) -> Seq<char>
    decreases text.len(),
{
    if text.len() == 0 {
        Seq::empty()
    } else if text.last() == '+' {
        plus_escaped(text.drop_last()) + "%2B"@
    } else {
        plus_escaped(text.drop_last()).push(text.last())
    }
}

/// The text of the URL from which an artifact of a version is downloaded.
pub open spec fn download_text(version: Seq<char>, artifact: Seq<char>) -> Seq<char> {
    DOWNLOAD_PREFIX@ + version + "/"@ + plus_escaped(artifact)
}

/// The URL that `url` reads from a text, written out again; none where it
/// reads no URL from it.
pub uninterp spec fn url_parse(text: Seq<char>) -> Option<Seq<char>>;

/// Calls `url::Url::parse` and writes the URL out as text. The contract
/// names what comes back and claims nothing else of it.
#[verifier::external_body]
fn parse_url(text: &str) -> (r: Result<String, url::ParseError>)
    ensures
        r is Ok <==> url_parse(text@) is Some,
        r matches Ok(s) ==> url_parse(text@) == Some(s@),
{
    url::Url::parse(text).map(|u| u.into())
}

impl Releases {
    /// No version has two artifact names.
    pub open spec fn wf(&self) -> bool {
        versions_distinct(self.releases@)
    }

    /// From the text of each version of the catalog to the name of its
    /// artifact.
    pub open spec fn artifacts(&self) -> Map<Seq<char>, Seq<char>> {
        artifact_map(self.releases@)
    }

    /// Whether no version has two artifact names.
    pub fn is_well_formed(&self) -> (r: bool)
        ensures
            r == self.wf(),
    {
        let mut j: usize = 0;
        while j < self.releases.len()
            invariant
                j <= self.releases.len(),
                forall|a: int, b: int|
                    0 <= a < b < j ==> key(#[trigger] self.releases@[a]) != key(
                        #[trigger] self.releases@[b],
                    ),
            decreases self.releases.len() - j,
        {
            let mut i: usize = 0;
            while i < j
                invariant
                    i <= j,
                    j < self.releases.len(),
                    forall|a: int|
                        0 <= a < i ==> key(#[trigger] self.releases@[a]) != key(
                            self.releases@[j as int],
                        ),
                decreases j - i,
            {
                if self.releases[i].version.same_as(&self.releases[j].version) {
                    return false;
                }
                i = i + 1;
            }
            j = j + 1;
        }
        true
    }

    /// A catalog without builds and without artifacts.
    pub fn new() -> (r: Releases)
        ensures
            r.wf(),
            r.builds@.len() == 0,
            r.artifacts() == Map::<Seq<char>, Seq<char>>::empty(),
    {
        let r = Releases { builds: Vec::new(), releases: Vec::new() };
        assert(r.artifacts() =~= Map::<Seq<char>, Seq<char>>::empty());
        r
    }

    /// The index of the artifact of `version`, if the catalog has one.
    pub fn position(&self, version: &Version) -> (r: Option<usize>)
        ensures
            match r {
                Some(i) => i < self.releases@.len() && key(self.releases@[i as int])
                    == version_text(version@),
                None => !has_artifact(self.releases@, version_text(version@)),
            },
    {
        let mut i: usize = 0;
        while i < self.releases.len()
            invariant
                i <= self.releases.len(),
                forall|k: int|
                    0 <= k < i ==> key(#[trigger] self.releases@[k]) != version_text(version@),
            decreases self.releases.len() - i,
        {
            if self.releases[i].version.same_as(version) {
                return Some(i);
            }
            i = i + 1;
        }
        None
    }

    /// Gives `version` the artifact `name`, in the place of the name it had.
    pub fn insert(&mut self, version: Version, name: String)
        requires
            old(self).wf(),
        ensures
            final(self).wf(),
            final(self).builds == old(self).builds,
            final(self).artifacts() == old(self).artifacts().insert(version_text(version@), name@),
    {
        let ghost before = self.releases@;
        let ghost v = version_text(version@);
        let ghost n = name@;
        let ghost at: int;
        match self.position(&version) {
            Some(i) => {
                proof {
                    at = i as int;
                }
                self.releases.set(i, Artifact { version, name });
            },
            None => {
                proof {
                    at = before.len() as int;
                }
                self.releases.push(Artifact { version, name });
            },
        }
        proof {
            let after = self.releases@;
            assert(key(after[at]) == v && after[at].name@ == n);
            assert(forall|k: int| 0 <= k < before.len() && k != at ==> after[k] == before[k]);
            assert(forall|k: int|
                0 <= k < before.len() && k != at ==> key(#[trigger] before[k]) != v);
            assert(versions_distinct(after));
            assert forall|w: Seq<char>| has_artifact(after, w) <==> (w == v || has_artifact(
                before,
                w,
            )) by {
                if has_artifact(after, w) && w != v {
                    let k = index_of_version(after, w);
                    assert(key(before[k]) == w);
                }
                if w != v && has_artifact(before, w) {
                    let k = index_of_version(before, w);
                    assert(key(after[k]) == w);
                }
            }
            assert forall|w: Seq<char>| has_artifact(after, w) implies #[trigger] artifact_map(
                after,
            )[w] == artifact_map(before).insert(v, n)[w] by {
                let k = index_of_version(after, w);
                if w != v {
                    let kb = index_of_version(before, w);
                    assert(key(before[k]) == w);
                    assert(kb == k);
                } else {
                    assert(k == at);
                }
            }
            assert(artifact_map(after) =~= artifact_map(before).insert(v, n));
        }
    }

    /// NOTE: vyper binaries dont support checksums
    pub fn get_checksum(&self, v: &Version) -> (r: Option<Vec<u8>>)
        ensures
            match r {
                Some(sum) => exists|i: int|
                    0 <= i < self.builds@.len() && version_text((#[trigger] self.builds@[i]).version@)
                        == version_text(v@) && sum@ == self.builds@[i].sha256@ && forall|k: int|
                        0 <= k < i ==> version_text((#[trigger] self.builds@[k]).version@)
                            != version_text(v@),
                None => forall|k: int|
                    0 <= k < self.builds@.len() ==> version_text(
                        (#[trigger] self.builds@[k]).version@,
                    ) != version_text(v@),
            },
    {
        let mut i: usize = 0;
        while i < self.builds.len()
            invariant
                i <= self.builds.len(),
                forall|k: int|
                    0 <= k < i ==> version_text((#[trigger] self.builds@[k]).version@)
                        != version_text(v@),
            decreases self.builds.len() - i,
        {
            if self.builds[i].version.same_as(v) {
                let sum = copy_bytes(&self.builds[i].sha256);
                return Some(sum);
            }
            i = i + 1;
        }
        None
    }

    /// Returns the artifact of the version if any
    pub fn get_artifact(&self, version: &Version) -> (r: Option<&String>)
        requires
            self.wf(),
        ensures
            match r {
                Some(name) => self.artifacts().dom().contains(version_text(version@)) && name@
                    == self.artifacts()[version_text(version@)],
                None => !self.artifacts().dom().contains(version_text(version@)),
            },
    {
        match self.position(version) {
            Some(i) => {
                assert(index_of_version(self.releases@, version_text(version@)) == i);
                Some(&self.releases[i].name)
            },
            None => None,
        }
    }

    /// Returns a sorted list of all versions
    pub fn into_versions(self) -> (r: Vec<Version>)
        requires
            self.wf(),
        ensures
            is_ascending(r@),
            forall|v: Seq<char>|
                self.artifacts().dom().contains(v) <==> #[trigger] holds_version(r@, v),
            texts(r@).no_duplicates(),
    {
        let mut releases = self.releases;
        let ghost all = releases@;
        let mut keys: Vec<Version> = Vec::new();
        while releases.len() > 0
            invariant
                releases@.len() <= all.len(),
                releases@ == all.subrange(0, releases@.len() as int),
                keys@.len() + releases@.len() == all.len(),
                forall|k: int|
                    0 <= k < keys@.len() ==> #[trigger] keys@[k] == all[all.len() - 1 - k].version,
            decreases releases.len(),
        {
            let last = releases.pop().unwrap();
            keys.push(last.version);
        }
        let sorted = sort_versions(keys);
        proof {
            let kv = texts(keys@);
            assert(kv.no_duplicates()) by {
                assert forall|a: int, b: int|
                    0 <= a < kv.len() && 0 <= b < kv.len() && a != b implies kv[a] != kv[b] by {
                    let ia = all.len() - 1 - a;
                    let ib = all.len() - 1 - b;
                    assert(kv[a] == key(all[ia]));
                    assert(kv[b] == key(all[ib]));
                    if ia < ib {
                        assert(key(all[ia]) != key(all[ib]));
                    } else {
                        assert(key(all[ib]) != key(all[ia]));
                    }
                }
            }
            lemma_same_members(sorted@, keys@);
            assert forall|v: Seq<char>| has_artifact(all, v) <==> holds_version(keys@, v) by {
                if has_artifact(all, v) {
                    let i = index_of_version(all, v);
                    assert(version_text(keys@[all.len() - 1 - i]@) == v);
                }
                if holds_version(keys@, v) {
                    let k = choose|k: int|
                        0 <= k < keys@.len() && version_text((#[trigger] keys@[k])@) == v;
                    assert(key(all[all.len() - 1 - k]) == v);
                }
            }
        }
        sorted
    }
}

/// A copy of the bytes.
pub fn copy_bytes(bytes: &Vec<u8>) -> (r: Vec<u8>)
    ensures
        r@ == bytes@,
{
    let mut out: Vec<u8> = Vec::new();
    let mut i: usize = 0;
    while i < bytes.len()
        invariant
            i <= bytes.len(),
            out@ == bytes@.subrange(0, i as int),
        decreases bytes.len() - i,
    {
        out.push(bytes[i]);
        assert(bytes@.subrange(0, i + 1) == bytes@.subrange(0, i as int).push(bytes@[i as int]));
        i = i + 1;
    }
    assert(bytes@.subrange(0, i as int) == bytes@);
    out
}

/// The matches of the first `n` assets of a release are the first matches of
/// all its assets.
pub proof fn lemma_matching_assets_prefix(
    tag: Seq<char>,
    assets: Seq<VyperAsset>,
    token: Seq<char>,
    n: int,
)
    requires
        0 <= n <= assets.len(),
    ensures
        matching_assets(tag, assets.subrange(0, n), token).is_prefix_of(
            matching_assets(tag, assets, token),
        ),
    decreases assets.len(),
{
    if n == assets.len() {
        assert(assets.subrange(0, n) == assets);
    } else {
        assert(assets.drop_last().subrange(0, n) == assets.subrange(0, n));
        lemma_matching_assets_prefix(tag, assets.drop_last(), token, n);
    }
}

/// The matches of the first `n` releases, followed by the first matches of
/// the next one, are the first matches of the whole list.
pub proof fn lemma_matching_prefix(
    listing: Seq<VyperReleases>,
    token: Seq<char>,
    n: int,
    head: Seq<Match>,
)
    requires
        0 <= n < listing.len(),
        head.is_prefix_of(matching_assets(listing[n].tag_name@, listing[n].assets@, token)),
    ensures
        (matching(listing.subrange(0, n), token) + head).is_prefix_of(matching(listing, token)),
    decreases listing.len(),
{
    if n == listing.len() - 1 {
        assert(listing.subrange(0, n) == listing.drop_last());
    } else {
        assert(listing.drop_last().subrange(0, n) == listing.subrange(0, n));
        lemma_matching_prefix(listing.drop_last(), token, n, head);
    }
}

/// Builds the catalog of a platform from the list of releases: an asset
/// belongs to the platform where its name holds the platform's token, and
/// where a version has several such assets the last one stays.
pub fn all_releases(platform: Platform, listing: &Vec<VyperReleases>) -> (r: Result<
    Releases,
    VyperVmError,
>)
    ensures
        r is Ok <==> all_tags_versions(matching(listing@, platform_token(platform))),
        r matches Ok(catalog) ==> {
            let m = matching(listing@, platform_token(platform));
            &&& catalog.wf()
            &&& builds_of(catalog.builds@, m)
            &&& catalog.artifacts() == listed(m)
        },
        r matches Err(e) ==> e is SemverError,
{
    let token = platform.to_string();
    let ghost tk = platform_token(platform);
    let mut catalog = Releases::new();
    let ghost mut done: Seq<Match> = Seq::empty();
    let mut i: usize = 0;
    assert(listing@.subrange(0, 0) =~= Seq::<VyperReleases>::empty());
    while i < listing.len()
        invariant
            i <= listing.len(),
            token@ == tk,
            tk == platform_token(platform),
            catalog.wf(),
            done == matching(listing@.subrange(0, i as int), tk),
            builds_of(catalog.builds@, done),
            catalog.artifacts() == listed(done),
        decreases listing.len() - i,
    {
        let release = &listing[i];
        let ghost tag = release.tag_name@;
        let ghost before = done;
        let mut j: usize = 0;
        assert(release.assets@.subrange(0, 0) =~= Seq::<VyperAsset>::empty());
        assert(before + Seq::<Match>::empty() == before);
        while j < release.assets.len()
            invariant
                i < listing.len(),
                release == &listing@[i as int],
                tag == release.tag_name@,
                j <= release.assets.len(),
                token@ == tk,
            tk == platform_token(platform),
                catalog.wf(),
                before == matching(listing@.subrange(0, i as int), tk),
                done == before + matching_assets(tag, release.assets@.subrange(0, j as int), tk),
                builds_of(catalog.builds@, done),
                catalog.artifacts() == listed(done),
            decreases release.assets.len() - j,
        {
            let asset = &release.assets[j];
            let ghost seen = release.assets@.subrange(0, j as int);
            let ghost next = release.assets@.subrange(0, j + 1);
            assert(next.drop_last() == seen);
            assert(next.last() == release.assets@[j as int]);
            if contains(asset.name.as_str(), token.as_str()) {
                let text = trim_start_matches(release.tag_name.as_str(), "v");
                let ghost found = Match { tag: text@, name: asset.name@ };
                assert(matching_assets(tag, next, tk) == matching_assets(tag, seen, tk).push(found));
                assert(before + matching_assets(tag, next, tk) == done.push(found));
                match Version::parse(text.as_str()) {
                    Ok(version) => {
                        let build = BuildInfo { version: version.clone(), sha256: Vec::new() };
                        catalog.builds.push(build);
                        catalog.insert(version, asset.name.clone());
                        proof {
                            let grown = done.push(found);
                            assert(grown.drop_last() == done);
                            done = grown;
                        }
                    },
                    Err(e) => {
                        proof {
                            let head = matching_assets(tag, next, tk);
                            lemma_matching_assets_prefix(tag, release.assets@, tk, j + 1);
                            lemma_matching_prefix(listing@, tk, i as int, head);
                            let all = matching(listing@, tk);
                            let k = done.len() as int;
                            assert((before + head)[k] == found);
                            assert(all[k] == found);
                            assert(!is_version_text(all[k].tag));
                        }
                        return Err(e);
                    },
                }
            }
            j = j + 1;
        }
        assert(release.assets@.subrange(0, j as int) == release.assets@);
        proof {
            let grown = listing@.subrange(0, i + 1);
            assert(grown.drop_last() == listing@.subrange(0, i as int));
            assert(grown.last() == listing@[i as int]);
        }
        i = i + 1;
    }
    assert(listing@.subrange(0, i as int) == listing@);
    assert forall|k: int| 0 <= k < done.len() implies is_version_text((#[trigger] done[k]).tag) by {
        assert(parses_as(done[k].tag, catalog.builds@[k].version@));
    }
    Ok(catalog)
}

/// Fetches the list of all the available versions of Vyper from the list of
/// releases. The list is platform dependent, so different versions can be
/// found for macosx vs linux.
pub fn all_versions(platform: Platform, listing: &Vec<VyperReleases>) -> (r: Result<
    Vec<Version>,
    VyperVmError,
>)
    ensures
        r is Ok <==> all_tags_versions(matching(listing@, platform_token(platform))),
        r matches Ok(versions) ==> {
            &&& is_ascending(versions@)
            &&& texts(versions@).no_duplicates()
            &&& forall|v: Seq<char>|
                listed(matching(listing@, platform_token(platform))).dom().contains(v)
                    <==> #[trigger] holds_version(versions@, v)
        },
        r matches Err(e) ==> e is SemverError,
{
    match all_releases(platform, listing) {
        Ok(catalog) => Ok(catalog.into_versions()),
        Err(e) => Err(e),
    }
}

/// What asking the release list for the artifact of a version gives: the
/// name that came last for the version, `UnknownVersion` where the list has
/// none for it, and the error of a tag that is no version.
pub open spec fn is_resolution(
    listing: Seq<VyperReleases>,
    platform: Platform,
    version: Seq<char>,
    r: Result<String, VyperVmError>,
) -> bool {
    let m = matching(listing, platform_token(platform));
    if !all_tags_versions(m) {
        r matches Err(e) && e is SemverError
    } else if listed(m).dom().contains(version) {
        r matches Ok(name) && name@ == listed(m)[version]
    } else {
        r matches Err(e) && e is UnknownVersion
    }
}

/// The name of the artifact of a version for a platform, from the list of
/// releases.
pub fn resolve_artifact(platform: Platform, version: &Version, listing: &Vec<VyperReleases>) -> (r:
    Result<String, VyperVmError>)
    ensures
        is_resolution(listing@, platform, version_text(version@), r),
{
    match all_releases(platform, listing) {
        Ok(catalog) => match catalog.get_artifact(version) {
            Some(name) => Ok(name.clone()),
            None => Err(VyperVmError::UnknownVersion),
        },
        Err(e) => Err(e),
    }
}

/// `text` with `%2B` in the place of each plus sign.
pub fn escape_plus(text: &str) -> (r: String)
    ensures
        r@ == plus_escaped(text@),
{
    let n: usize = text.unicode_len();
    let mut out = String::new();
    let mut i: usize = 0;
    assert(text@.subrange(0, 0) =~= Seq::<char>::empty());
    while i < n
        invariant
            n == text@.len(),
            i <= n,
            out@ == plus_escaped(text@.subrange(0, i as int)),
        decreases n - i,
    {
        let ghost next = text@.subrange(0, i + 1);
        assert(next.drop_last() == text@.subrange(0, i as int));
        assert(next.last() == text@[i as int]);
        if text.get_char(i) == '+' {
            out.append("%2B");
        } else {
            let ghost before = out@;
            out.append(text.substring_char(i, i + 1));
            assert(text@.subrange(i as int, i + 1) == seq![text@[i as int]]);
            assert(before + seq![text@[i as int]] == before.push(text@[i as int]));
        }
        i = i + 1;
    }
    assert(text@.subrange(0, n as int) == text@);
    out
}

/// The text of the URL from which an artifact of a version is downloaded.
pub fn download_url_text(version: &Version, artifact: &str) -> (r: String)
    ensures
        r@ == download_text(version_text(version@), artifact@),
{
    let mut out = DOWNLOAD_PREFIX.to_owned();
    out.append(version.to_string().as_str());
    out.append("/");
    out.append(escape_plus(artifact).as_str());
    out
}

/// What [`artifact_url`] returns for what `url` made of the text.
pub fn url_or_error(parsed: Result<String, url::ParseError>) -> (r: Result<String, VyperVmError>)
    ensures
        match parsed {
            Ok(s) => r == Ok::<String, VyperVmError>(s),
            Err(e) => r matches Err(VyperVmError::UrlError(inner)) && inner == e,
        },
{
    match parsed {
        Ok(s) => Ok(s),
        Err(e) => Err(VyperVmError::UrlError(e)),
    }
}

/// Construct the URL to the Vyper binary for the specified release version
/// and target platform.
pub fn artifact_url(_platform: Platform, version: &Version, artifact: &str) -> (r: Result<
    String,
    VyperVmError,
>)
    ensures
        match url_parse(download_text(version_text(version@), artifact@)) {
            Some(url) => r matches Ok(s) && s@ == url,
            None => r matches Err(e) && e is UrlError,
        },
{
    let text = download_url_text(version, artifact);
    url_or_error(parse_url(text.as_str()))
}

} // verus!

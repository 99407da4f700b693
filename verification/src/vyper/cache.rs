//! The cache of compiled files: for each source file the hash of its
//! content and what the compiler made of it.

use crate::hex_string::{hex_encode, hex_lower, is_hex_lower_text, lemma_hex_lower_shape};
use crate::text::same_text;
use crate::vyper::error::VyperError;
use vstd::prelude::*;

verus! {

/// The format tag of the cache file.
pub const FORMAT_VERSION: &'static str = "vvm-rs-vyper-cache-1";

/// A `CacheEntry` in the cache file represents a vyper file
#[derive(Debug)]
pub struct CacheEntry {
    /// hash to identify whether the content of the file changed
    pub content_hash: String,
    /// identifier name
    pub source_name: String,
    pub deployed_bytecode: String,
}

/// What a [`CacheEntry`] holds.
pub struct CacheEntryView {
    pub content_hash: Seq<char>,
    pub source_name: Seq<char>,
    pub deployed_bytecode: Seq<char>,
}

impl View for CacheEntry {
    type V = CacheEntryView;

    open spec fn view(&self) -> CacheEntryView {
        CacheEntryView {
            content_hash: self.content_hash@,
            source_name: self.source_name@,
            deployed_bytecode: self.deployed_bytecode@,
        }
    }
}

/// An entry of the cache under the path it is found by.
#[derive(Debug)]
pub struct CacheFile {
    pub path: String,
    pub entry: CacheEntry,
}

/// A cache file: a format tag and the entries, each under its path, in the
/// order in which their paths came in. No path has two entries.
#[derive(Debug)]
pub struct VyperFilesCache {
    pub format: String,
    pub files: Vec<CacheFile>,
}

/// The MD5 digest of the bytes.
pub uninterp spec fn md5_digest(data: Seq<u8>) -> Seq<u8>;

/// The hash by which a change of content is told: the MD5 digest of the
/// content in hexadecimal.
pub open spec fn content_hash_text(data: Seq<u8>) -> Seq<char> {
    hex_lower(md5_digest(data))
}

/// The shape of a hash: 32 hexadecimal digits in lower case, which are the
/// 128 bits of a digest.
pub open spec fn is_hash_text(s: Seq<char>) -> bool {
    s.len() == 32 && is_hex_lower_text(s)
}

/// The cache is one that this library wrote: it carries the format tag.
pub open spec fn is_compatible(cache: VyperFilesCache) -> bool {
    cache.format@ == FORMAT_VERSION@
}

/// What loading the cache gives: the cache that was read, where one was
/// read and carries the format tag, and else a new cache without entries.
pub open spec fn is_load(loaded: Result<VyperFilesCache, VyperError>, r: VyperFilesCache) -> bool {
    if loaded is Ok && is_compatible(loaded->Ok_0) {
        r == loaded->Ok_0
    } else {
        r.wf() && r.format@ == FORMAT_VERSION@ && r.files@.len() == 0
    }
}

/// The entry no longer says what the file holds: the file could not be
/// read, or the hash of its content is not the recorded one.
pub open spec fn is_stale(entry: CacheEntryView, content: Result<Vec<u8>, VyperError>) -> bool {
    !(content matches Ok(data) && content_hash_text(data@) == entry.content_hash)
}

/// No two files have the same path.
pub open spec fn paths_distinct(s: Seq<CacheFile>) -> bool {
    forall|i: int, j: int| 0 <= i < j < s.len() ==> (#[trigger] s[i]).path@ != (#[trigger] s[j]).path@
}

/// Some file of the sequence has the path `p`.
pub open spec fn has_path(s: Seq<CacheFile>, p: Seq<char>) -> bool {
    exists|i: int| 0 <= i < s.len() && (#[trigger] s[i]).path@ == p
}

/// The index of the first file with the path `p`.
pub open spec fn index_of_path(s: Seq<CacheFile>, p: Seq<char>) -> int {
    choose|i: int| 0 <= i < s.len() && (#[trigger] s[i]).path@ == p
}

/// From each path of the sequence to what its entry holds.
pub open spec fn entry_map(s: Seq<CacheFile>) -> Map<Seq<char>, CacheEntryView> {
    Map::new(|p: Seq<char>| has_path(s, p), |p: Seq<char>| s[index_of_path(s, p)].entry@)
}

/// The paths of the files, in their order.
pub open spec fn paths(s: Seq<CacheFile>) -> Seq<Seq<char>> {
    s.map_values(|f: CacheFile| f.path@)
}

/// The files with `file` put in: in the place of the file with the same
/// path where there is one, else at the end.
pub open spec fn upserted(s: Seq<CacheFile>, file: CacheFile) -> Seq<CacheFile> {
    if has_path(s, file.path@) {
        s.update(index_of_path(s, file.path@), file)
    } else {
        s.push(file)
    }
}

/// The files of a document put in one after the other, so that of two
/// files with the same path the later one stays.
pub open spec fn merged(files: Seq<CacheFile>) -> Seq<CacheFile>
    decreases files.len(),
{
    if files.len() == 0 {
        Seq::empty()
    } else {
        upserted(merged(files.drop_last()), files.last())
    }
}

/// Calls `md5::Md5::digest`. The contract names the digest and claims its
/// length of sixteen bytes.
#[verifier::external_body]
fn md5_of(data: &[u8]) -> (r: Vec<u8>)
    ensures
        r@ == md5_digest(data@),
        r@.len() == 16,
{
    <md5::Md5 as md5::Digest>::digest(data).to_vec()
}

/// The hash of the content of a file.
pub fn content_hash(data: &[u8]) -> (r: String)
    ensures
        r@ == content_hash_text(data@),
        is_hash_text(r@),
{
    let digest = md5_of(data);
    proof {
        lemma_hex_lower_shape(digest@);
    }
    hex_encode(digest.as_slice())
}

/// The hash of the content of a file, or the error with which the file
/// could not be read.
pub fn get_file_hash(content: Result<Vec<u8>, VyperError>) -> (r: Result<String, VyperError>)
    ensures
        match content {
            Ok(data) => r matches Ok(h) && h@ == content_hash_text(data@) && is_hash_text(h@),
            Err(e) => r matches Err(f) && f == e,
        },
{
    match content {
        Ok(data) => Ok(content_hash(data.as_slice())),
        Err(e) => Err(e),
    }
}

impl Clone for CacheEntry {
    fn clone(&self) -> (r: Self)
        ensures
            r == *self,
    {
        CacheEntry {
            content_hash: self.content_hash.clone(),
            source_name: self.source_name.clone(),
            deployed_bytecode: self.deployed_bytecode.clone(),
        }
    }
}

impl Clone for CacheFile {
    fn clone(&self) -> (r: Self)
        ensures
            r == *self,
    {
        CacheFile { path: self.path.clone(), entry: self.entry.clone() }
    }
}

impl CacheEntry {
    ///  returns true file:
    ///   - is new
    ///   - has changed
    ///  returns false if file si found and hash is the same
    ///
    /// `content` is what reading the file at `source_name` gave.
    pub fn is_dirty(&self, content: &Result<Vec<u8>, VyperError>) -> (r: bool)
        ensures
            r == is_stale(self@, *content),
    {
        match content {
            Ok(data) => {
                let hash = content_hash(data.as_slice());
                !same_text(hash.as_str(), self.content_hash.as_str())
            },
            Err(_) => true,
        }
    }
}

impl VyperFilesCache {
    /// No path has two entries.
    pub open spec fn wf(&self) -> bool {
        paths_distinct(self.files@)
    }

    /// From each path of the cache to what its entry holds.
    pub open spec fn entries(&self) -> Map<Seq<char>, CacheEntryView> {
        entry_map(self.files@)
    }

    /// Whether no path has two entries.
    pub fn is_well_formed(&self) -> (r: bool)
        ensures
            r == self.wf(),
    {
        let mut j: usize = 0;
        while j < self.files.len()
            invariant
                j <= self.files.len(),
                forall|a: int, b: int|
                    0 <= a < b < j ==> (#[trigger] self.files@[a]).path@
                        != (#[trigger] self.files@[b]).path@,
            decreases self.files.len() - j,
        {
            let mut i: usize = 0;
            while i < j
                invariant
                    i <= j,
                    j < self.files.len(),
                    forall|a: int|
                        0 <= a < i ==> (#[trigger] self.files@[a]).path@ != self.files@[j as int].path@,
                decreases j - i,
            {
                if same_text(self.files[i].path.as_str(), self.files[j].path.as_str()) {
                    return false;
                }
                i = i + 1;
            }
            j = j + 1;
        }
        true
    }

    /// Create a new cache instance with empty entries
    pub fn new() -> (r: Self)
        ensures
            r.wf(),
            r.format@ == FORMAT_VERSION@,
            r.files@.len() == 0,
    {
        Self { format: FORMAT_VERSION.to_owned(), files: Vec::new() }
    }

    /// The cache that was loaded, or a new one where none could be loaded
    /// or where what was loaded does not carry the format tag of this
    /// library.
    pub fn get(loaded: Result<Self, VyperError>) -> (r: Self)
        ensures
            is_load(loaded, r),
    {
        match loaded {
            Ok(cache) => {
                if same_text(cache.format.as_str(), FORMAT_VERSION) {
                    cache
                } else {
                    Self::new()
                }
            },
            Err(_) => Self::new(),
        }
    }

    /// How many entries the cache contains where each entry represents a source file
    pub fn len(&self) -> (r: usize)
        ensures
            r == self.files@.len(),
    {
        self.files.len()
    }

    /// The index of the file with the path `file`, if the cache has one.
    pub fn position(&self, file: &str) -> (r: Option<usize>)
        ensures
            match r {
                Some(i) => i < self.files@.len() && self.files@[i as int].path@ == file@ && forall|
                    k: int,
                | 0 <= k < i ==> (#[trigger] self.files@[k]).path@ != file@,
                None => !has_path(self.files@, file@),
            },
    {
        let mut i: usize = 0;
        while i < self.files.len()
            invariant
                i <= self.files.len(),
                forall|k: int| 0 <= k < i ==> (#[trigger] self.files@[k]).path@ != file@,
            decreases self.files.len() - i,
        {
            if same_text(self.files[i].path.as_str(), file) {
                return Some(i);
            }
            i = i + 1;
        }
        None
    }

    /// Returns the corresponding `CacheEntry` for the file if it exists
    pub fn entry(&self, file: &str) -> (r: Option<&CacheEntry>)
        requires
            self.wf(),
        ensures
            match r {
                Some(e) => self.entries().dom().contains(file@) && e@ == self.entries()[file@],
                None => !self.entries().dom().contains(file@),
            },
    {
        match self.position(file) {
            Some(i) => {
                assert(index_of_path(self.files@, file@) == i);
                Some(&self.files[i].entry)
            },
            None => None,
        }
    }

    /// Returns the corresponding `CacheEntry` for the file if it exists
    pub fn entry_mut(&mut self, file: &str) -> (r: Option<&mut CacheEntry>)
        requires
            old(self).wf(),
        ensures
            match r {
                Some(e) => {
                    let at = index_of_path(old(self).files@, file@);
                    &&& has_path(old(self).files@, file@)
                    &&& *e == old(self).files@[at].entry
                    &&& final(self).format == old(self).format
                    &&& final(self).files@ == old(self).files@.update(
                        at,
                        CacheFile { path: old(self).files@[at].path, entry: *final(e) },
                    )
                },
                None => !has_path(old(self).files@, file@) && *final(self) == *old(self),
            },
    {
        match self.position(file) {
            Some(i) => {
                assert(index_of_path(self.files@, file@) == i);
                Some(&mut self.files[i].entry)
            },
            None => None,
        }
    }

    /// Puts `file` into the cache, in the place of the file with the same
    /// path where there is one.
    pub fn upsert(&mut self, file: CacheFile)
        requires
            old(self).wf(),
        ensures
            final(self).wf(),
            final(self).format == old(self).format,
            final(self).files@ == upserted(old(self).files@, file),
            final(self).entries() == old(self).entries().insert(file.path@, file.entry@),
    {
        let ghost before = self.files@;
        let ghost p = file.path@;
        let ghost e = file.entry@;
        let ghost at: int;
        match self.position(file.path.as_str()) {
            Some(i) => {
                proof {
                    at = i as int;
                    assert(index_of_path(before, p) == at);
                }
                self.files.set(i, file);
            },
            None => {
                proof {
                    at = before.len() as int;
                }
                self.files.push(file);
            },
        }
        proof {
            lemma_upserted(before, file);
        }
    }

    /// The cache of a document: its format tag and its files, of which the
    /// later one stays where two have the same path.
    pub fn read(format: String, files: Vec<CacheFile>) -> (r: Self)
        ensures
            r.wf(),
            r.format == format,
            r.files@ == merged(files@),
    {
        let mut cache = Self { format, files: Vec::new() };
        let mut rest = files;
        let mut stack: Vec<CacheFile> = Vec::new();
        while rest.len() > 0
            invariant
                rest@.len() + stack@.len() == files@.len(),
                rest@ == files@.subrange(0, rest@.len() as int),
                forall|k: int|
                    0 <= k < stack@.len() ==> #[trigger] stack@[k] == files@[files@.len() - 1 - k],
            decreases rest.len(),
        {
            let last = rest.pop().unwrap();
            stack.push(last);
        }
        let ghost n: int = 0;
        assert(files@.subrange(0, 0) =~= Seq::<CacheFile>::empty());
        while stack.len() > 0
            invariant
                cache.wf(),
                cache.format == format,
                0 <= n <= files@.len(),
                stack@.len() + n == files@.len(),
                forall|k: int|
                    0 <= k < stack@.len() ==> #[trigger] stack@[k] == files@[files@.len() - 1 - k],
                cache.files@ == merged(files@.subrange(0, n)),
            decreases stack.len(),
        {
            let next = stack.pop().unwrap();
            proof {
                assert(next == files@[n]);
                assert(files@.subrange(0, n + 1).drop_last() == files@.subrange(0, n));
                assert(files@.subrange(0, n + 1).last() == next);
            }
            cache.upsert(next);
            proof {
                n = n + 1;
            }
        }
        assert(files@.subrange(0, n) == files@);
        cache
    }

    /// The document of the cache, as it is written out: the format tag and
    /// the files in their order.
    pub fn write(&self) -> (r: (String, Vec<CacheFile>))
        ensures
            r.0 == self.format,
            r.1@ == self.files@,
    {
        let mut files: Vec<CacheFile> = Vec::new();
        let mut i: usize = 0;
        while i < self.files.len()
            invariant
                i <= self.files.len(),
                files@ == self.files@.subrange(0, i as int),
            decreases self.files.len() - i,
        {
            files.push(self.files[i].clone());
            assert(self.files@.subrange(0, i + 1) == self.files@.subrange(0, i as int).push(
                self.files@[i as int],
            ));
            i = i + 1;
        }
        assert(self.files@.subrange(0, i as int) == self.files@);
        (self.format.clone(), files)
    }

    /// adds or updates an entry in cache
    ///
    /// `content` is what reading `file` gave: where it could not be read
    /// the cache stays as it is and the error is handed back.
    pub fn add_entry(&mut self, file: &str, content: Result<Vec<u8>, VyperError>, bytecode: &str) -> (r:
        Result<(), VyperError>)
        requires
            old(self).wf(),
        ensures
            final(self).wf(),
            final(self).format == old(self).format,
            match content {
                Ok(data) => {
                    let entry = CacheEntryView {
                        content_hash: content_hash_text(data@),
                        source_name: file@,
                        deployed_bytecode: bytecode@,
                    };
                    &&& r is Ok
                    &&& is_hash_text(entry.content_hash)
                    &&& final(self).entries() == old(self).entries().insert(file@, entry)
                    &&& paths(final(self).files@) == (if has_path(old(self).files@, file@) {
                        paths(old(self).files@)
                    } else {
                        paths(old(self).files@).push(file@)
                    })
                },
                Err(e) => r == Err::<(), VyperError>(e) && *final(self) == *old(self),
            },
    {
        match get_file_hash(content) {
            Ok(hash) => {
                let new_entry = CacheEntry {
                    content_hash: hash,
                    source_name: file.to_owned(),
                    deployed_bytecode: bytecode.to_owned(),
                };
                let ghost before = self.files@;
                self.upsert(CacheFile { path: file.to_owned(), entry: new_entry });
                proof {
                    if has_path(before, file@) {
                        assert(paths(self.files@) =~= paths(before));
                    } else {
                        assert(paths(self.files@) =~= paths(before).push(file@));
                    }
                }
                Ok(())
            },
            Err(e) => Err(e),
        }
    }
}

/// Files of which no two have the same path stay as they are when they are
/// put in one after the other.
pub proof fn lemma_merged_distinct(files: Seq<CacheFile>)
    requires
        paths_distinct(files),
    ensures
        merged(files) == files,
    decreases files.len(),
{
    if files.len() > 0 {
        let front = files.drop_last();
        assert(paths_distinct(front)) by {
            assert forall|i: int, j: int| 0 <= i < j < front.len() implies (#[trigger] front[i]).path@
                != (#[trigger] front[j]).path@ by {
                assert(front[i] == files[i] && front[j] == files[j]);
            }
        }
        lemma_merged_distinct(front);
        assert(!has_path(front, files.last().path@)) by {
            if has_path(front, files.last().path@) {
                let i = index_of_path(front, files.last().path@);
                assert(files[i].path@ == files[files.len() - 1].path@);
            }
        }
        assert(front.push(files.last()) == files);
    }
}

/// A cache that is written out and loaded again is the cache it was: the
/// cache that [`VyperFilesCache::read`] makes of the document that
/// [`VyperFilesCache::write`] gives, and that [`VyperFilesCache::get`] then
/// hands on, has the same format tag, the same files in the same order, and
/// the same entries. This holds of the caches that carry the format tag of
/// this library; a document with another tag is not loaded.
pub proof fn lemma_cache_round_trip(
    cache: VyperFilesCache,
    document: (String, Vec<CacheFile>),
    read: VyperFilesCache,
    loaded: VyperFilesCache,
)
    requires
        cache.wf(),
        is_compatible(cache),
        document.0 == cache.format,
        document.1@ == cache.files@,
        read.format == document.0,
        read.files@ == merged(document.1@),
        is_load(Ok(read), loaded),
    ensures
        loaded.format == cache.format,
        loaded.files@ == cache.files@,
        loaded.entries() == cache.entries(),
        loaded.wf(),
{
    lemma_merged_distinct(cache.files@);
}

/// A document with a format tag of another kind is not loaded: what comes
/// back is a new cache without entries.
pub proof fn lemma_foreign_tag_is_rejected(read: VyperFilesCache, loaded: VyperFilesCache)
    requires
        read.format@ != FORMAT_VERSION@,
        is_load(Ok(read), loaded),
    ensures
        loaded.format@ == FORMAT_VERSION@,
        loaded.files@.len() == 0,
        loaded.wf(),
{
}

/// An entry is fresh for the content whose hash it records: where the file
/// still holds the bytes that the entry was made of, the entry is not
/// stale.
pub proof fn lemma_fresh_when_unchanged(entry: CacheEntryView, data: Vec<u8>)
    requires
        entry.content_hash == content_hash_text(data@),
    ensures
        !is_stale(entry, Ok(data)),
{
}

/// An entry is stale for content with another hash, and where the file
/// cannot be read.
pub proof fn lemma_stale_when_changed(entry: CacheEntryView, content: Result<Vec<u8>, VyperError>)
    requires
        content matches Ok(data) ==> content_hash_text(data@) != entry.content_hash,
    ensures
        is_stale(entry, content),
{
}

/// Adding a file again after its content changed makes its entry fresh
/// for the new content: the entry holds the hash of that content.
pub proof fn lemma_fresh_after_add(
    before: Map<Seq<char>, CacheEntryView>,
    after: Map<Seq<char>, CacheEntryView>,
    file: Seq<char>,
    data: Vec<u8>,
    bytecode: Seq<char>,
)
    requires
        after == before.insert(
            file,
            CacheEntryView {
                content_hash: content_hash_text(data@),
                source_name: file,
                deployed_bytecode: bytecode,
            },
        ),
    ensures
        after.dom().contains(file),
        after[file].content_hash == content_hash_text(data@),
        !is_stale(after[file], Ok(data)),
{
}

/// What putting a file in does to the files and to the map of their
/// entries.
pub proof fn lemma_upserted(s: Seq<CacheFile>, file: CacheFile)
    requires
        paths_distinct(s),
    ensures
        paths_distinct(upserted(s, file)),
        entry_map(upserted(s, file)) == entry_map(s).insert(file.path@, file.entry@),
        upserted(s, file).len() == s.len() + (if has_path(s, file.path@) {
            0int
        } else {
            1int
        }),
{
    let p = file.path@;
    let after = upserted(s, file);
    let at = if has_path(s, p) {
        index_of_path(s, p)
    } else {
        s.len() as int
    };
    assert(after[at] == file);
    assert(forall|k: int| 0 <= k < s.len() && k != at ==> after[k] == s[k]);
    assert(forall|k: int| 0 <= k < s.len() && k != at ==> (#[trigger] s[k]).path@ != p);
    assert(paths_distinct(after));
    assert forall|q: Seq<char>| has_path(after, q) <==> (q == p || has_path(s, q)) by {
        if has_path(after, q) && q != p {
            let k = choose|k: int| 0 <= k < after.len() && (#[trigger] after[k]).path@ == q;
            assert(s[k].path@ == q);
        }
        if q != p && has_path(s, q) {
            let k = choose|k: int| 0 <= k < s.len() && (#[trigger] s[k]).path@ == q;
            assert(after[k].path@ == q);
        }
        if q == p {
            assert(after[at].path@ == q);
        }
    }
    assert forall|q: Seq<char>| has_path(after, q) implies #[trigger] entry_map(after)[q]
        == entry_map(s).insert(p, file.entry@)[q] by {
        let k = index_of_path(after, q);
        if q != p {
            let kb = index_of_path(s, q);
            assert(s[k].path@ == q);
            assert(kb == k);
        } else {
            assert(k == at);
        }
    }
    assert(entry_map(after) =~= entry_map(s).insert(p, file.entry@));
}

} // verus!

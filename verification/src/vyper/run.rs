//! What the wrapper decides before and after the compiler runs.

use crate::error::VyperVmError;
use crate::layout::{binary_name, binary_path, joined};
use crate::text::{occurs_at, starts_with};
use crate::version::{version_text, Version};
use crate::vyper::cache::{
    content_hash_text, is_stale, CacheEntryView, VyperFilesCache,
};
use crate::vyper::error::VyperError;
use vstd::prelude::*;
use vstd::utf8::{decode_utf8, valid_utf8};

verus! {

/// The arguments name a single file and no flag: only then the cache is
/// used.
pub open spec fn is_single_file(args: Seq<String>) -> bool {
    args.len() == 1 && !occurs_at(args[0]@, "-"@, 0)
}

/// The output of the compiler is text that looks like bytecode.
pub open spec fn is_bytecode(output: Seq<u8>) -> bool {
    valid_utf8(output) && occurs_at(decode_utf8(output), "0x"@, 0)
}

/// The cache answers for the file: it has an entry for it that still says
/// what the file holds.
pub open spec fn is_hit(
    cache: VyperFilesCache,
    args: Seq<String>,
    file: Seq<char>,
    content: Result<Vec<u8>, VyperError>,
) -> bool {
    &&& is_single_file(args)
    &&& cache.entries().dom().contains(file)
    &&& !is_stale(cache.entries()[file], content)
}

/// What the compiler made is kept in the cache.
pub open spec fn is_kept(
    args: Seq<String>,
    content: Result<Vec<u8>, VyperError>,
    success: bool,
    output: Seq<u8>,
) -> bool {
    success && is_single_file(args) && is_bytecode(output) && content is Ok
}

/// Calls `std::str::from_utf8`. The contract claims that the bytes are
/// accepted exactly when they are UTF-8, and that the text is what they
/// encode.
#[verifier::external_body]
fn utf8_text(bytes: &[u8]) -> (r: Option<String>)
    ensures
        r is Some <==> valid_utf8(bytes@),
        r matches Some(s) ==> s@ == decode_utf8(bytes@),
{
    std::str::from_utf8(bytes).ok().map(|s| s.to_string())
}

/// Whether the arguments name a single file and no flag.
pub fn uses_cache(args: &Vec<String>) -> (r: bool)
    ensures
        r == is_single_file(args@),
{
    args.len() == 1 && !starts_with(args[0].as_str(), "-")
}

/// The bytecode that the compiler printed, if what it printed is bytecode.
pub fn get_bytecode(bytecode: &[u8]) -> (r: Option<String>)
    ensures
        r is Some <==> is_bytecode(bytecode@),
        r matches Some(text) ==> text@ == decode_utf8(bytecode@),
{
    match utf8_text(bytecode) {
        Some(b) => {
            if starts_with(b.as_str(), "0x") {
                Some(b)
            } else {
                None
            }
        },
        None => None,
    }
}

/// What the cache holds for the file, where it can answer in the
/// compiler's place. `content` is what reading the file gave.
pub fn cached_output(
    cache: &VyperFilesCache,
    args: &Vec<String>,
    file_name: &str,
    content: &Result<Vec<u8>, VyperError>,
) -> (r: Option<String>)
    requires
        cache.wf(),
    ensures
        r is Some <==> is_hit(*cache, args@, file_name@, *content),
        r matches Some(out) ==> out@ == cache.entries()[file_name@].deployed_bytecode,
{
    if !uses_cache(args) {
        return None;
    }
    match cache.entry(file_name) {
        Some(entry) => {
            if entry.is_dirty(content) {
                None
            } else {
                Some(entry.deployed_bytecode.clone())
            }
        },
        None => None,
    }
}

/// The path of the compiler that the global version names.
pub fn compiler_path(home: &str, current: &Option<Version>) -> (r: Result<String, VyperVmError>)
    ensures
        match *current {
            Some(v) => r matches Ok(path) && path@ == joined(
                joined(home@, version_text(v@)),
                binary_name(version_text(v@)),
            ),
            None => r matches Err(e) && e is GlobalVersionNotSet,
        },
{
    match current {
        Some(v) => Ok(binary_path(home, v)),
        None => Err(VyperVmError::GlobalVersionNotSet),
    }
}

/// Keeps what the compiler made of a single file, where it succeeded and
/// printed bytecode and the file could be read. Returns whether the cache
/// changed and is to be written.
pub fn record_output(
    cache: &mut VyperFilesCache,
    args: &Vec<String>,
    file_name: &str,
    content: Result<Vec<u8>, VyperError>,
    success: bool,
    output: &[u8],
) -> (r: bool)
    requires
        old(cache).wf(),
    ensures
        final(cache).wf(),
        final(cache).format == old(cache).format,
        r == is_kept(args@, content, success, output@),
        r ==> (content matches Ok(data) && final(cache).entries() == old(cache).entries().insert(
            file_name@,
            CacheEntryView {
                content_hash: content_hash_text(data@),
                source_name: file_name@,
                deployed_bytecode: decode_utf8(output@),
            },
        )),
        !r ==> *final(cache) == *old(cache),
{
    if !(success && uses_cache(args)) {
        return false;
    }
    match get_bytecode(output) {
        Some(bytecode) => cache.add_entry(file_name, content, bytecode.as_str()).is_ok(),
        None => false,
    }
}

} // verus!

//! The install pipeline: what is to be done next, from what was done last.
//!
//! The pipeline itself touches neither the network nor the disk. Whoever
//! drives it performs each [`InstallAction`] and hands back what came of it
//! as an [`InstallEvent`], until the action is [`InstallAction::Return`].

use crate::error::VyperVmError;
use crate::layout::{
    binary_name, binary_path, join, joined, lemma_joined_relative, lemma_same_stem,
    lock_file_path, lock_name, stem,
};
use crate::platform::{platform_token, Platform};
use crate::registry::{lemma_version_text_ends, GLOBAL_VERSION_FILE};
use crate::releases::{
    all_tags_versions, artifact_url, download_text, listed, matching, resolve_artifact, url_parse,
    VyperReleases, GITHUB_RELEASES,
};
use crate::version::{is_valid, version_text, Version};
use vstd::prelude::*;

verus! {

/// The timeout to use for requests to the source, in seconds.
pub const REQUEST_TIMEOUT: u64 = 120;

/// The permission bits of an installed binary: everyone may read, write and
/// execute it.
pub const BINARY_MODE: u32 = 0o777;

/// What is to be installed, and where.
#[derive(Debug)]
pub struct InstallRequest {
    pub home: String,
    pub platform: Platform,
    pub version: Version,
}

/// How far an install has come.
#[derive(Debug)]
pub enum InstallState {
    /// Nothing was done yet.
    Start,
    /// The home directory is being set up.
    SettingUp,
    /// The list of releases is being fetched.
    Listing,
    /// The artifact is being downloaded from `url`.
    Fetching { url: String, artifact: String },
    /// The directory of the version is being made.
    MakingDir { bytes: Vec<u8> },
    /// The lock of the version is being acquired.
    Locking { bytes: Vec<u8> },
    /// The binary is being written; the lock is held.
    Writing,
    /// The lock is being released; the lock is held.
    Releasing { outcome: Result<String, VyperVmError> },
    /// The install has ended.
    Done,
}

/// What came of the last action.
#[derive(Debug)]
pub enum InstallEvent {
    /// The install is asked for.
    Begin,
    /// The last action was done.
    Ready,
    /// The list of releases came.
    Listed(Vec<VyperReleases>),
    /// The server answered the download.
    Response { status: u16, body: Vec<u8> },
    /// The last action failed.
    Failed(VyperVmError),
}

/// What is to be done next.
#[derive(Debug)]
pub enum InstallAction {
    /// Make the home directory and, in it, the empty file of the global
    /// version, where they are missing.
    SetupHome { home: String, global_version: String },
    /// Fetch the list of releases.
    ListReleases { url: String },
    /// Download the artifact, giving up after the timeout.
    Download { url: String, timeout_secs: u64 },
    /// Make the directory and those above it, where they are missing.
    CreateDir { path: String },
    /// Open the lock file, creating it where it is missing, and wait until
    /// it is locked for this install alone.
    Lock { path: String },
    /// Create the file anew, give it the permission bits where the platform
    /// has them, and write all the bytes into it.
    Write { path: String, bytes: Vec<u8>, mode: u32 },
    /// Remove the lock file, whether or not that succeeds.
    Unlock { path: String },
    /// Nothing: the event does not belong to the state.
    Nothing,
    /// End the install with this result.
    Return(Result<String, VyperVmError>),
}

/// A status of success.
pub open spec fn is_success(status: u16) -> bool {
    200 <= status < 300
}

/// While the pipeline is in this state the lock of the version is held.
pub open spec fn holds_lock(state: InstallState) -> bool {
    state is Writing || state is Releasing
}

/// The install ends with the error `e`.
pub open spec fn fails_with(next: InstallState, action: InstallAction, e: VyperVmError) -> bool {
    next is Done && action == InstallAction::Return(Err(e))
}

/// The event does not belong to the state: nothing happens.
pub open spec fn is_ignored(state: InstallState, next: InstallState, action: InstallAction) -> bool {
    next == state && action is Nothing
}

/// The path of the binary of the request.
pub open spec fn target_path(req: InstallRequest) -> Seq<char> {
    joined(
        joined(req.home@, version_text(req.version@)),
        binary_name(version_text(req.version@)),
    )
}

/// The path of the lock file of the request.
pub open spec fn lock_path(req: InstallRequest) -> Seq<char> {
    joined(req.home@, lock_name(version_text(req.version@)))
}

/// What follows the list of releases: the download of the artifact that
/// the list names for the version, or the end of the install where it names
/// none, where a tag is no version, or where no URL can be made.
pub open spec fn is_resolved(
    req: InstallRequest,
    listing: Seq<VyperReleases>,
    next: InstallState,
    action: InstallAction,
) -> bool {
    let m = matching(listing, platform_token(req.platform));
    let text = version_text(req.version@);
    if !all_tags_versions(m) {
        action matches InstallAction::Return(Err(e)) && e is SemverError && next is Done
    } else if !listed(m).dom().contains(text) {
        action matches InstallAction::Return(Err(e)) && e is UnknownVersion && next is Done
    } else {
        match url_parse(download_text(text, listed(m)[text])) {
            Some(target) => {
                &&& next matches InstallState::Fetching { url, artifact }
                &&& url@ == target
                &&& artifact@ == listed(m)[text]
                &&& action matches InstallAction::Download { url: from, timeout_secs }
                &&& from@ == target
                &&& timeout_secs == REQUEST_TIMEOUT
            },
            None => action matches InstallAction::Return(Err(e)) && e is UrlError && next is Done,
        }
    }
}

/// The step that the pipeline takes from `state` on `event`.
pub open spec fn is_step(
    req: InstallRequest,
    state: InstallState,
    event: InstallEvent,
    next: InstallState,
    action: InstallAction,
) -> bool {
    match state {
        InstallState::Start => match event {
            InstallEvent::Begin => {
                &&& next is SettingUp
                &&& action matches InstallAction::SetupHome { home, global_version }
                &&& home@ == req.home@
                &&& global_version@ == joined(req.home@, GLOBAL_VERSION_FILE@)
            },
            _ => is_ignored(state, next, action),
        },
        InstallState::SettingUp => match event {
            InstallEvent::Ready => {
                &&& next is Listing
                &&& action matches InstallAction::ListReleases { url }
                &&& url@ == GITHUB_RELEASES@
            },
            InstallEvent::Failed(e) => fails_with(next, action, e),
            _ => is_ignored(state, next, action),
        },
        InstallState::Listing => match event {
            InstallEvent::Listed(listing) => is_resolved(req, listing@, next, action),
            InstallEvent::Failed(e) => fails_with(next, action, e),
            _ => is_ignored(state, next, action),
        },
        InstallState::Fetching { url, artifact } => match event {
            InstallEvent::Response { status, body } => if is_success(status) {
                &&& next == (InstallState::MakingDir { bytes: body })
                &&& action matches InstallAction::CreateDir { path }
                &&& path@ == joined(req.home@, version_text(req.version@))
            } else {
                fails_with(next, action, VyperVmError::UnsuccessfulResponse(url, status))
            },
            InstallEvent::Failed(e) => fails_with(next, action, e),
            _ => is_ignored(state, next, action),
        },
        InstallState::MakingDir { bytes } => match event {
            InstallEvent::Ready => {
                &&& next == (InstallState::Locking { bytes })
                &&& action matches InstallAction::Lock { path }
                &&& path@ == lock_path(req)
            },
            InstallEvent::Failed(e) => fails_with(next, action, e),
            _ => is_ignored(state, next, action),
        },
        InstallState::Locking { bytes } => match event {
            InstallEvent::Ready => {
                &&& next is Writing
                &&& action matches InstallAction::Write { path, bytes: written, mode }
                &&& path@ == target_path(req)
                &&& written == bytes
                &&& mode == BINARY_MODE
            },
            InstallEvent::Failed(e) => fails_with(next, action, e),
            _ => is_ignored(state, next, action),
        },
        InstallState::Writing => match event {
            InstallEvent::Ready => {
                &&& next matches InstallState::Releasing { outcome: Ok(installed) }
                &&& installed@ == target_path(req)
                &&& action matches InstallAction::Unlock { path }
                &&& path@ == lock_path(req)
            },
            InstallEvent::Failed(e) => {
                &&& next == (InstallState::Releasing { outcome: Err(e) })
                &&& action matches InstallAction::Unlock { path }
                &&& path@ == lock_path(req)
            },
            _ => is_ignored(state, next, action),
        },
        InstallState::Releasing { outcome } => match event {
            InstallEvent::Ready => next is Done && action == InstallAction::Return(outcome),
            InstallEvent::Failed(_) => next is Done && action == InstallAction::Return(outcome),
            _ => is_ignored(state, next, action),
        },
        InstallState::Done => is_ignored(state, next, action),
    }
}

/// Whether the status is one of success.
pub fn status_is_success(status: u16) -> (r: bool)
    ensures
        r == is_success(status),
{
    200 <= status && status < 300
}

/// What follows the list of releases.
pub fn resolve(req: &InstallRequest, listing: &Vec<VyperReleases>) -> (r: (
    InstallState,
    InstallAction,
))
    ensures
        is_resolved(*req, listing@, r.0, r.1),
{
    match resolve_artifact(req.platform, &req.version, listing) {
        Ok(artifact) => match artifact_url(req.platform, &req.version, artifact.as_str()) {
            Ok(url) => (
                InstallState::Fetching { url: url.clone(), artifact },
                InstallAction::Download { url, timeout_secs: REQUEST_TIMEOUT },
            ),
            Err(e) => (InstallState::Done, InstallAction::Return(Err(e))),
        },
        Err(e) => (InstallState::Done, InstallAction::Return(Err(e))),
    }
}

/// Installs the version of the request, one step at a time: from the state
/// and what came of the last action to the next state and the next action.
/// The install begins in [`InstallState::Start`] with
/// [`InstallEvent::Begin`] and has ended when the action is
/// [`InstallAction::Return`], which holds the path of the installed binary.
pub fn install(req: &InstallRequest, state: InstallState, event: InstallEvent) -> (r: (
    InstallState,
    InstallAction,
))
    ensures
        is_step(*req, state, event, r.0, r.1),
{
    match (state, event) {
        (InstallState::Start, InstallEvent::Begin) => (
            InstallState::SettingUp,
            InstallAction::SetupHome {
                home: req.home.clone(),
                global_version: join(req.home.as_str(), GLOBAL_VERSION_FILE),
            },
        ),
        (InstallState::SettingUp, InstallEvent::Ready) => (
            InstallState::Listing,
            InstallAction::ListReleases { url: GITHUB_RELEASES.to_owned() },
        ),
        (InstallState::Listing, InstallEvent::Listed(listing)) => resolve(req, &listing),
        (InstallState::Fetching { url, artifact }, InstallEvent::Response { status, body }) => {
            if status_is_success(status) {
                let text = req.version.to_string();
                (
                    InstallState::MakingDir { bytes: body },
                    InstallAction::CreateDir { path: join(req.home.as_str(), text.as_str()) },
                )
            } else {
                (
                    InstallState::Done,
                    InstallAction::Return(Err(VyperVmError::UnsuccessfulResponse(url, status))),
                )
            }
        },
        (InstallState::MakingDir { bytes }, InstallEvent::Ready) => (
            InstallState::Locking { bytes },
            InstallAction::Lock { path: lock_file_path(req.home.as_str(), &req.version) },
        ),
        (InstallState::Locking { bytes }, InstallEvent::Ready) => (
            InstallState::Writing,
            InstallAction::Write {
                path: binary_path(req.home.as_str(), &req.version),
                bytes,
                mode: BINARY_MODE,
            },
        ),
        (InstallState::Writing, InstallEvent::Ready) => (
            InstallState::Releasing { outcome: Ok(binary_path(req.home.as_str(), &req.version)) },
            InstallAction::Unlock { path: lock_file_path(req.home.as_str(), &req.version) },
        ),
        (InstallState::Writing, InstallEvent::Failed(e)) => (
            InstallState::Releasing { outcome: Err(e) },
            InstallAction::Unlock { path: lock_file_path(req.home.as_str(), &req.version) },
        ),
        (InstallState::Releasing { outcome }, InstallEvent::Ready) => (
            InstallState::Done,
            InstallAction::Return(outcome),
        ),
        (InstallState::Releasing { outcome }, InstallEvent::Failed(_)) => (
            InstallState::Done,
            InstallAction::Return(outcome),
        ),
        (InstallState::SettingUp, InstallEvent::Failed(e)) => (
            InstallState::Done,
            InstallAction::Return(Err(e)),
        ),
        (InstallState::Listing, InstallEvent::Failed(e)) => (
            InstallState::Done,
            InstallAction::Return(Err(e)),
        ),
        (InstallState::Fetching { .. }, InstallEvent::Failed(e)) => (
            InstallState::Done,
            InstallAction::Return(Err(e)),
        ),
        (InstallState::MakingDir { .. }, InstallEvent::Failed(e)) => (
            InstallState::Done,
            InstallAction::Return(Err(e)),
        ),
        (InstallState::Locking { .. }, InstallEvent::Failed(e)) => (
            InstallState::Done,
            InstallAction::Return(Err(e)),
        ),
        (state, _) => (state, InstallAction::Nothing),
    }
}

/// An install in which every action succeeds goes through all its steps
/// and returns the path of the binary: it sets up the home, fetches the list
/// of releases, downloads the artifact, makes the directory of the version,
/// acquires the lock, writes the bytes that were downloaded into the binary,
/// and releases the lock.
pub proof fn lemma_install_succeeds(
    req: InstallRequest,
    listing: Vec<VyperReleases>,
    status: u16,
    body: Vec<u8>,
    states: Seq<InstallState>,
    actions: Seq<InstallAction>,
)
    requires
        states.len() == 8,
        actions.len() == 8,
        is_success(status),
        is_step(req, InstallState::Start, InstallEvent::Begin, states[0], actions[0]),
        is_step(req, states[0], InstallEvent::Ready, states[1], actions[1]),
        is_step(req, states[1], InstallEvent::Listed(listing), states[2], actions[2]),
        actions[2] is Download,
        is_step(req, states[2], InstallEvent::Response { status, body }, states[3], actions[3]),
        is_step(req, states[3], InstallEvent::Ready, states[4], actions[4]),
        is_step(req, states[4], InstallEvent::Ready, states[5], actions[5]),
        is_step(req, states[5], InstallEvent::Ready, states[6], actions[6]),
        is_step(req, states[6], InstallEvent::Ready, states[7], actions[7]),
    ensures
        actions[0] is SetupHome,
        actions[1] is ListReleases,
        actions[3] matches InstallAction::CreateDir { path } && path@ == joined(
            req.home@,
            version_text(req.version@),
        ),
        actions[4] matches InstallAction::Lock { path } && path@ == lock_path(req),
        actions[5] matches InstallAction::Write { path, bytes, mode } && path@ == target_path(req)
            && bytes == body && mode == BINARY_MODE,
        actions[6] matches InstallAction::Unlock { path } && path@ == lock_path(req),
        actions[7] matches InstallAction::Return(Ok(path)) && path@ == target_path(req),
        states[7] is Done,
{
    assert(states[2] is Fetching);
}

/// The binary is written only when the lock has just been acquired, and
/// then the pipeline holds the lock.
pub proof fn lemma_write_needs_lock(
    req: InstallRequest,
    state: InstallState,
    event: InstallEvent,
    next: InstallState,
    action: InstallAction,
)
    requires
        is_step(req, state, event, next, action),
        action is Write,
    ensures
        state is Locking,
        event is Ready,
        holds_lock(next),
{
}

/// While the lock is held the install does not end but by releasing it:
/// whether the write succeeded or failed, the next action removes the lock
/// file, and only after that the install returns, with the outcome of the
/// write.
pub proof fn lemma_lock_is_released(
    req: InstallRequest,
    state: InstallState,
    event: InstallEvent,
    next: InstallState,
    action: InstallAction,
)
    requires
        is_step(req, state, event, next, action),
        holds_lock(state),
    ensures
        state is Writing ==> !(action is Return) && !(next is Done),
        state is Writing && (event is Ready || event is Failed) ==> action is Unlock && next
            is Releasing,
        next is Done ==> (state matches InstallState::Releasing { outcome } && action
            == InstallAction::Return(outcome)),
        holds_lock(next) || next is Done,
{
}

/// The lock is taken by no step but the one that follows the making of the
/// directory, and it is held in no state before that.
pub proof fn lemma_lock_is_taken_once(
    req: InstallRequest,
    state: InstallState,
    event: InstallEvent,
    next: InstallState,
    action: InstallAction,
)
    requires
        is_step(req, state, event, next, action),
    ensures
        action is Lock ==> state is MakingDir && !holds_lock(next),
        !holds_lock(state) && holds_lock(next) ==> action is Write,
{
}

/// Installs of two versions into the same home do not meet: each has a lock
/// file, a directory and a binary of its own.
pub proof fn lemma_versions_do_not_meet(a: InstallRequest, b: InstallRequest)
    requires
        a.home@ == b.home@,
        is_valid(a.version@),
        is_valid(b.version@),
        version_text(a.version@) != version_text(b.version@),
    ensures
        lock_path(a) != lock_path(b),
        joined(a.home@, version_text(a.version@)) != joined(b.home@, version_text(b.version@)),
        target_path(a) != target_path(b),
{
    let home = a.home@;
    let ta = version_text(a.version@);
    let tb = version_text(b.version@);
    lemma_version_text_ends(a.version@);
    lemma_version_text_ends(b.version@);
    reveal_strlit(".lock-vyper-");
    reveal_strlit("vyper-");

    lemma_joined_relative(home, lock_name(ta));
    lemma_joined_relative(home, lock_name(tb));
    if lock_path(a) == lock_path(b) {
        assert(stem(home) + lock_name(ta) =~= (stem(home) + ".lock-vyper-"@) + ta);
        assert(stem(home) + lock_name(tb) =~= (stem(home) + ".lock-vyper-"@) + tb);
        lemma_same_stem(stem(home) + ".lock-vyper-"@, ta, tb);
    }
    lemma_joined_relative(home, ta);
    lemma_joined_relative(home, tb);
    let dir_a = joined(home, ta);
    let dir_b = joined(home, tb);
    if dir_a == dir_b {
        lemma_same_stem(stem(home), ta, tb);
    }
    lemma_joined_relative(dir_a, binary_name(ta));
    lemma_joined_relative(dir_b, binary_name(tb));
    if target_path(a) == target_path(b) {
        assert(dir_a.last() == ta.last());
        assert(dir_b.last() == tb.last());
        let behind_a = seq!['/'] + binary_name(ta);
        let behind_b = seq!['/'] + binary_name(tb);
        assert(target_path(a) =~= (stem(home) + ta) + behind_a);
        assert(target_path(b) =~= (stem(home) + tb) + behind_b);
        assert(target_path(a).len() == stem(home).len() + 2 * ta.len() + 7);
        assert(target_path(b).len() == stem(home).len() + 2 * tb.len() + 7);
        assert(ta.len() == tb.len());
        assert(dir_a =~= target_path(a).subrange(0, dir_a.len() as int));
        assert(dir_b =~= target_path(b).subrange(0, dir_b.len() as int));
        assert(false);
    }
}

/// Two installs of the same version into the same home write the same file,
/// and each writes the bytes that its own download gave.
pub proof fn lemma_same_target(
    a: InstallRequest,
    b: InstallRequest,
    bytes_a: Vec<u8>,
    bytes_b: Vec<u8>,
    next_a: InstallState,
    action_a: InstallAction,
    next_b: InstallState,
    action_b: InstallAction,
)
    requires
        a.home@ == b.home@,
        version_text(a.version@) == version_text(b.version@),
        is_step(a, InstallState::Locking { bytes: bytes_a }, InstallEvent::Ready, next_a, action_a),
        is_step(b, InstallState::Locking { bytes: bytes_b }, InstallEvent::Ready, next_b, action_b),
    ensures
        action_a matches InstallAction::Write { path: pa, bytes: wa, mode: ma } && action_b matches InstallAction::Write {
            path: pb,
            bytes: wb,
            mode: mb,
        } && pa@ == pb@ && wa == bytes_a && wb == bytes_b && ma == mb,
{
}

} // verus!

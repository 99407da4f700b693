use vvm_lib::error::VyperVmError;
use vvm_lib::install::{
    install, resolve, status_is_success, InstallAction, InstallEvent, InstallRequest, InstallState,
    BINARY_MODE, REQUEST_TIMEOUT,
};
use vvm_lib::platform::Platform;
use vvm_lib::releases::{VyperAsset, VyperReleases};
use vvm_lib::version::Version;

const HOME: &str = "/home/user/.vvm";

fn request(version: &str) -> InstallRequest {
    InstallRequest {
        home: HOME.to_string(),
        platform: Platform::Linux,
        version: Version::parse(version).unwrap(),
    }
}

fn listing() -> Vec<VyperReleases> {
    vec![VyperReleases {
        tag_name: "v0.3.3".to_string(),
        assets: vec![
            VyperAsset {
                name: "vyper.0.3.3+commit.48e326f0.darwin".to_string(),
                browser_download_url: String::new(),
            },
            VyperAsset {
                name: "vyper.0.3.3+commit.48e326f0.linux".to_string(),
                browser_download_url: String::new(),
            },
        ],
    }]
}

const URL: &str =
    "https://github.com/vyperlang/vyper/releases/download/v0.3.3/vyper.0.3.3%2Bcommit.48e326f0.linux";

fn io_error(text: &str) -> VyperVmError {
    VyperVmError::IoError(text.to_string())
}

/// Drives the pipeline up to the state in which the lock is being acquired.
fn until_locking(req: &InstallRequest, body: Vec<u8>) -> InstallState {
    let (state, _) = install(req, InstallState::Start, InstallEvent::Begin);
    let (state, _) = install(req, state, InstallEvent::Ready);
    let (state, _) = install(req, state, InstallEvent::Listed(listing()));
    let (state, _) = install(req, state, InstallEvent::Response { status: 200, body });
    let (state, action) = install(req, state, InstallEvent::Ready);
    assert!(matches!(action, InstallAction::Lock { .. }));
    state
}

#[test]
fn an_install_goes_through_all_its_steps() {
    let req = request("0.3.3");
    let payload = vec![0x7f, b'E', b'L', b'F', 1, 2, 3];

    let (state, action) = install(&req, InstallState::Start, InstallEvent::Begin);
    assert!(matches!(state, InstallState::SettingUp));
    assert!(matches!(
        action,
        InstallAction::SetupHome { home, global_version }
            if home == HOME && global_version == "/home/user/.vvm/.global-version"
    ));

    let (state, action) = install(&req, state, InstallEvent::Ready);
    assert!(matches!(state, InstallState::Listing));
    assert!(matches!(
        action,
        InstallAction::ListReleases { url }
            if url == "https://api.github.com/repos/vyperlang/vyper/releases?per_page=100"
    ));

    let (state, action) = install(&req, state, InstallEvent::Listed(listing()));
    assert!(matches!(
        &state,
        InstallState::Fetching { url, artifact }
            if url == URL && artifact == "vyper.0.3.3+commit.48e326f0.linux"
    ));
    assert!(matches!(
        action,
        InstallAction::Download { url, timeout_secs } if url == URL && timeout_secs == 120
    ));

    let (state, action) = install(
        &req,
        state,
        InstallEvent::Response { status: 200, body: payload.clone() },
    );
    assert!(matches!(&state, InstallState::MakingDir { bytes } if *bytes == payload));
    assert!(matches!(
        action,
        InstallAction::CreateDir { path } if path == "/home/user/.vvm/0.3.3"
    ));

    let (state, action) = install(&req, state, InstallEvent::Ready);
    assert!(matches!(&state, InstallState::Locking { bytes } if *bytes == payload));
    assert!(matches!(
        action,
        InstallAction::Lock { path } if path == "/home/user/.vvm/.lock-vyper-0.3.3"
    ));

    let (state, action) = install(&req, state, InstallEvent::Ready);
    assert!(matches!(state, InstallState::Writing));
    assert!(matches!(
        action,
        InstallAction::Write { path, bytes, mode }
            if path == "/home/user/.vvm/0.3.3/vyper-0.3.3" && bytes == payload && mode == 0o777
    ));

    let (state, action) = install(&req, state, InstallEvent::Ready);
    assert!(matches!(
        &state,
        InstallState::Releasing { outcome: Ok(path) } if path == "/home/user/.vvm/0.3.3/vyper-0.3.3"
    ));
    assert!(matches!(
        action,
        InstallAction::Unlock { path } if path == "/home/user/.vvm/.lock-vyper-0.3.3"
    ));

    let (state, action) = install(&req, state, InstallEvent::Ready);
    assert!(matches!(state, InstallState::Done));
    assert!(matches!(
        action,
        InstallAction::Return(Ok(path)) if path == "/home/user/.vvm/0.3.3/vyper-0.3.3"
    ));
}

#[test]
fn an_install_of_an_unknown_version_ends_with_unknown_version() {
    let req = request("0.3.4");
    let (state, action) = install(&req, InstallState::Listing, InstallEvent::Listed(listing()));
    assert!(matches!(state, InstallState::Done));
    assert!(matches!(
        action,
        InstallAction::Return(Err(VyperVmError::UnknownVersion))
    ));

    let other = InstallRequest {
        home: HOME.to_string(),
        platform: Platform::Windows,
        version: Version::new(0, 3, 3),
    };
    let (_, action) = resolve(&other, &listing());
    assert!(matches!(
        action,
        InstallAction::Return(Err(VyperVmError::UnknownVersion))
    ));
}

#[test]
fn an_install_ends_with_the_status_that_is_no_success() {
    let req = request("0.3.3");
    for status in [199u16, 300, 301, 404, 500] {
        let state = InstallState::Fetching { url: URL.to_string(), artifact: "a".to_string() };
        let (state, action) = install(
            &req,
            state,
            InstallEvent::Response { status, body: vec![1] },
        );
        assert!(matches!(state, InstallState::Done));
        assert!(matches!(
            action,
            InstallAction::Return(Err(VyperVmError::UnsuccessfulResponse(url, s)))
                if url == URL && s == status
        ));
    }
    for status in [200u16, 201, 204, 299] {
        let state = InstallState::Fetching { url: URL.to_string(), artifact: "a".to_string() };
        let (state, _) = install(&req, state, InstallEvent::Response { status, body: vec![1] });
        assert!(matches!(state, InstallState::MakingDir { .. }));
    }
    assert!(status_is_success(200));
    assert!(status_is_success(299));
    assert!(!status_is_success(199));
    assert!(!status_is_success(300));
}

#[test]
fn an_install_ends_with_the_failure_of_a_step_before_the_lock() {
    let req = request("0.3.3");
    let before_lock = vec![
        InstallState::SettingUp,
        InstallState::Listing,
        InstallState::Fetching { url: URL.to_string(), artifact: "a".to_string() },
        InstallState::MakingDir { bytes: vec![1] },
        InstallState::Locking { bytes: vec![1] },
    ];
    for state in before_lock {
        let (state, action) = install(&req, state, InstallEvent::Failed(io_error("failed")));
        assert!(matches!(state, InstallState::Done));
        assert!(matches!(
            action,
            InstallAction::Return(Err(VyperVmError::IoError(text))) if text == "failed"
        ));
    }
}

#[test]
fn the_lock_is_released_when_the_write_failed() {
    let req = request("0.3.3");
    let state = until_locking(&req, vec![1, 2, 3]);
    let (state, action) = install(&req, state, InstallEvent::Ready);
    assert!(matches!(action, InstallAction::Write { .. }));

    let (state, action) = install(&req, state, InstallEvent::Failed(io_error("disk full")));
    assert!(matches!(
        &state,
        InstallState::Releasing { outcome: Err(VyperVmError::IoError(text)) } if text == "disk full"
    ));
    assert!(matches!(
        action,
        InstallAction::Unlock { path } if path == "/home/user/.vvm/.lock-vyper-0.3.3"
    ));

    let (state, action) = install(&req, state, InstallEvent::Failed(io_error("no lock file")));
    assert!(matches!(state, InstallState::Done));
    assert!(matches!(
        action,
        InstallAction::Return(Err(VyperVmError::IoError(text))) if text == "disk full"
    ));
}

#[test]
fn a_failed_removal_of_the_lock_file_does_not_fail_the_install() {
    let req = request("0.3.3");
    let state = InstallState::Releasing { outcome: Ok("/p".to_string()) };
    let (state, action) = install(&req, state, InstallEvent::Failed(io_error("gone")));
    assert!(matches!(state, InstallState::Done));
    assert!(matches!(action, InstallAction::Return(Ok(path)) if path == "/p"));
}

#[test]
fn two_installs_of_one_version_write_the_same_file() {
    let req = request("0.3.3");
    let payload = vec![9u8; 1000];
    let first = install(&req, until_locking(&req, payload.clone()), InstallEvent::Ready).1;
    let second = install(&req, until_locking(&req, payload.clone()), InstallEvent::Ready).1;
    match (first, second) {
        (
            InstallAction::Write { path: a, bytes: x, mode: m },
            InstallAction::Write { path: b, bytes: y, mode: n },
        ) => {
            assert_eq!(a, b);
            assert_eq!(x, payload);
            assert_eq!(y, payload);
            assert_eq!(m, n);
        }
        _ => panic!("expected two writes"),
    }
}

#[test]
fn installs_of_two_versions_use_two_locks_and_two_files() {
    let one = request("0.3.3");
    let two = request("0.3.10");
    let lock_one = install(&one, InstallState::MakingDir { bytes: vec![] }, InstallEvent::Ready).1;
    let lock_two = install(&two, InstallState::MakingDir { bytes: vec![] }, InstallEvent::Ready).1;
    assert!(matches!(
        lock_one,
        InstallAction::Lock { path } if path == "/home/user/.vvm/.lock-vyper-0.3.3"
    ));
    assert!(matches!(
        lock_two,
        InstallAction::Lock { path } if path == "/home/user/.vvm/.lock-vyper-0.3.10"
    ));
    let write_two = install(&two, InstallState::Locking { bytes: vec![] }, InstallEvent::Ready).1;
    assert!(matches!(
        write_two,
        InstallAction::Write { path, .. } if path == "/home/user/.vvm/0.3.10/vyper-0.3.10"
    ));
}

#[test]
fn an_event_that_does_not_belong_to_the_state_changes_nothing() {
    let req = request("0.3.3");
    let (state, action) = install(&req, InstallState::Start, InstallEvent::Ready);
    assert!(matches!(state, InstallState::Start));
    assert!(matches!(action, InstallAction::Nothing));

    let (state, action) = install(&req, InstallState::Writing, InstallEvent::Begin);
    assert!(matches!(state, InstallState::Writing));
    assert!(matches!(action, InstallAction::Nothing));

    let (state, action) = install(
        &req,
        InstallState::Locking { bytes: vec![4, 5] },
        InstallEvent::Listed(listing()),
    );
    assert!(matches!(&state, InstallState::Locking { bytes } if *bytes == vec![4, 5]));
    assert!(matches!(action, InstallAction::Nothing));

    let (state, action) = install(&req, InstallState::Done, InstallEvent::Begin);
    assert!(matches!(state, InstallState::Done));
    assert!(matches!(action, InstallAction::Nothing));

    let (state, _) = install(&req, InstallState::Start, InstallEvent::Failed(io_error("x")));
    assert!(matches!(state, InstallState::Start));
}

#[test]
fn a_tag_that_is_no_version_ends_the_install() {
    let req = request("0.3.3");
    let odd = vec![VyperReleases {
        tag_name: "nightly".to_string(),
        assets: vec![VyperAsset {
            name: "vyper.nightly.linux".to_string(),
            browser_download_url: String::new(),
        }],
    }];
    let (state, action) = install(&req, InstallState::Listing, InstallEvent::Listed(odd));
    assert!(matches!(state, InstallState::Done));
    assert!(matches!(
        action,
        InstallAction::Return(Err(VyperVmError::SemverError(_)))
    ));
}

#[test]
fn the_timeout_is_two_minutes_and_the_mode_lets_everyone_execute() {
    assert_eq!(REQUEST_TIMEOUT, 120);
    assert_eq!(BINARY_MODE, 0o777);
}

#[test]
fn a_failure_of_the_transport_ends_the_install() {
    let req = request("0.3.3");
    let state = InstallState::Fetching { url: URL.to_string(), artifact: "a".to_string() };
    let failure = VyperVmError::ReqwestError("timed out".to_string());
    let (state, action) = install(&req, state, InstallEvent::Failed(failure));
    assert!(matches!(state, InstallState::Done));
    assert!(matches!(
        action,
        InstallAction::Return(Err(VyperVmError::ReqwestError(text))) if text == "timed out"
    ));
}

use vvm_lib::layout::{binary_path, get_cache_path, join, lock_file_path, vvm_home};
use vvm_lib::version::Version;
use vvm_lib::{global_version_path, version_path};

#[test]
fn join_puts_one_separator_between_the_two() {
    assert_eq!(join("/home/user", ".vvm"), "/home/user/.vvm");
    assert_eq!(join("/home/user/", ".vvm"), "/home/user/.vvm");
    assert_eq!(join("/", "a"), "/a");
    assert_eq!(join("", "a"), "a");
    assert_eq!(join("a", ""), "a/");
    assert_eq!(join("a", "b/c"), "a/b/c");
    assert_eq!(join("/home/user", "/etc"), "/etc");
}

#[test]
fn join_agrees_with_the_paths_of_the_platform() {
    if std::path::MAIN_SEPARATOR == '/' {
        for (base, name) in [("/home/user", ".vvm"), ("/home/user/", "x"), ("", "a"), ("/a", "/b")] {
            let mut path = std::path::PathBuf::from(base);
            path.push(name);
            assert_eq!(join(base, name), path.to_str().unwrap());
        }
    }
}

#[test]
fn the_home_of_the_version_manager_lies_in_the_home_of_the_user() {
    assert_eq!(vvm_home("/home/user"), "/home/user/.vvm");
}

#[test]
fn every_version_has_its_own_directory_binary_and_lock() {
    let home = "/home/user/.vvm";
    let version = Version::parse("0.3.10").unwrap();
    assert_eq!(version_path(home, "0.3.10"), "/home/user/.vvm/0.3.10");
    assert_eq!(version_path(home, &version.to_string()), "/home/user/.vvm/0.3.10");
    assert_eq!(binary_path(home, &version), "/home/user/.vvm/0.3.10/vyper-0.3.10");
    assert_eq!(lock_file_path(home, &version), "/home/user/.vvm/.lock-vyper-0.3.10");

    let other = Version::parse("1.0.0-rc.1+b").unwrap();
    assert_eq!(binary_path(home, &other), "/home/user/.vvm/1.0.0-rc.1+b/vyper-1.0.0-rc.1+b");
    assert_eq!(lock_file_path(home, &other), "/home/user/.vvm/.lock-vyper-1.0.0-rc.1+b");
}

#[test]
fn the_global_version_and_the_cache_have_fixed_places() {
    assert_eq!(global_version_path("/home/user/.vvm"), "/home/user/.vvm/.global-version");
    assert_eq!(
        get_cache_path("/home/user/.vvm/"),
        "/home/user/.vvm/cache/vvm-vyper-files-cache.json"
    );
}

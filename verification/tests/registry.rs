use vvm_lib::error::VyperVmError;
use vvm_lib::registry::{contains_version, read_versions, GLOBAL_VERSION_FILE};
use vvm_lib::version::Version;
use vvm_lib::{
    current_version, installed_versions, remove_version, unset_global_version, use_version,
};

fn names(all: &[&str]) -> Vec<String> {
    all.iter().map(|n| n.to_string()).collect()
}

fn texts(versions: &[Version]) -> Vec<String> {
    versions.iter().map(|v| v.to_string()).collect()
}

#[test]
fn installed_versions_are_sorted() {
    let found = installed_versions(&names(&["0.3.10", ".global-version", "0.3.3", "0.2.16"]));
    assert_eq!(texts(&found.unwrap()), ["0.2.16", "0.3.3", "0.3.10"]);
}

#[test]
fn installed_versions_of_an_empty_home_are_none() {
    let found = installed_versions(&names(&[".global-version"])).unwrap();
    assert!(found.is_empty());
    assert!(installed_versions(&Vec::new()).unwrap().is_empty());
}

#[test]
fn installed_versions_fail_as_a_whole_on_one_name_that_is_no_version() {
    for bad in ["cache", ".lock-vyper-0.3.3", "vyper-0.3.10", "0.3", "", "0.3.3 "] {
        let found = installed_versions(&names(&["0.3.3", bad, "0.3.10"]));
        assert!(matches!(found, Err(VyperVmError::UnknownVersion)), "{:?}", bad);
    }
}

#[test]
fn installed_versions_read_each_name_as_it_is() {
    let found = installed_versions(&names(&[".global-version", "vyper-0.3.3"]));
    assert!(matches!(found, Err(VyperVmError::UnknownVersion)));
    let found = installed_versions(&names(&["0.3.1", "vyper-0.3.3"]));
    assert!(matches!(found, Err(VyperVmError::UnknownVersion)));

    let odd = installed_versions(&names(&[".global-version", "0.3.3-vyper-1"])).unwrap();
    assert_eq!(texts(&odd), ["0.3.3-vyper-1"]);
    assert!(contains_version(&odd, &Version::parse("0.3.3-vyper-1").unwrap()));
}

#[test]
fn read_versions_keeps_the_order_of_the_entries() {
    let found = read_versions(&names(&["0.3.10", GLOBAL_VERSION_FILE, "0.3.3"])).unwrap();
    assert_eq!(texts(&found), ["0.3.10", "0.3.3"]);
}

#[test]
fn an_installed_version_is_listed() {
    for text in ["0.3.3", "1.0.0-rc.1", "2.0.0+build.7", "1.0.0-vyper-1"] {
        let v = Version::parse(text).unwrap();
        let entries = names(&["0.2.16", ".global-version", &v.to_string(), "3.0.0"]);
        let found = installed_versions(&entries).unwrap();
        assert!(contains_version(&found, &v));
        assert_eq!(found.len(), 3);
    }
}

#[test]
fn current_version_reads_the_file_of_the_global_version() {
    assert_eq!(current_version("0.3.3").unwrap().to_string(), "0.3.3");
    assert_eq!(current_version("0.3.3\n").unwrap().to_string(), "0.3.3");
    assert_eq!(current_version("0.3.3\n\n\n").unwrap().to_string(), "0.3.3");
    assert_eq!(
        current_version("1.0.0-rc.1+b\n").unwrap().to_string(),
        "1.0.0-rc.1+b"
    );
}

#[test]
fn current_version_is_none_for_what_is_no_version() {
    for content in ["", "\n", "garbage", " 0.3.3", "0.3.3 \n", "\n0.3.3", "0.3", "0.3.3\r\n"] {
        assert!(current_version(content).is_none(), "{:?}", content);
    }
}

#[test]
fn current_version_is_the_last_version_used() {
    for text in ["0.3.3", "0.3.10", "1.0.0-alpha.1", "1.0.0+build", "7.8.9-a.b+c.d"] {
        let v = Version::parse(text).unwrap();
        let read = current_version(&use_version(&v)).expect("expected a version");
        assert!(read.same_as(&v));
        assert_eq!(read.major, v.major);
        assert_eq!(read.minor, v.minor);
        assert_eq!(read.patch, v.patch);
        assert_eq!(read.pre, v.pre);
        assert_eq!(read.build, v.build);
    }
    let not_installed = Version::new(99, 0, 0);
    assert_eq!(use_version(&not_installed), "99.0.0");
    assert!(current_version(&use_version(&not_installed)).is_some());
}

#[test]
fn current_version_is_none_after_unset() {
    assert_eq!(unset_global_version(), "");
    assert!(current_version(&unset_global_version()).is_none());
}

#[test]
fn contains_version_goes_by_the_text() {
    let list = vec![Version::new(0, 3, 3), Version::parse("1.0.0-a").unwrap()];
    assert!(contains_version(&list, &Version::new(0, 3, 3)));
    assert!(contains_version(&list, &Version::parse("1.0.0-a").unwrap()));
    assert!(!contains_version(&list, &Version::new(1, 0, 0)));
    assert!(!contains_version(&Vec::new(), &Version::new(1, 0, 0)));
}

#[test]
fn removing_a_version_removes_its_directory() {
    assert_eq!(
        remove_version("/home/user/.vvm", &Version::new(0, 3, 3)),
        "/home/user/.vvm/0.3.3"
    );
    assert_eq!(
        remove_version("/home/user/.vvm/", &Version::parse("1.0.0-rc.1").unwrap()),
        "/home/user/.vvm/1.0.0-rc.1"
    );
}

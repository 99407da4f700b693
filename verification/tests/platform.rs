use vvm_lib::platform::{platform_from, Platform};

#[test]
fn platform_get_platform() {
    assert_eq!(platform_from("linux", "x86_64"), Platform::Linux);
    assert_eq!(platform_from("linux", "aarch64"), Platform::Linux);
    assert_eq!(platform_from("macos", "x86_64"), Platform::MacOs);
    assert_eq!(platform_from("macos", "aarch64"), Platform::MacOs);
    assert_eq!(platform_from("windows", "x86_64"), Platform::Windows);
}

#[test]
fn other_machines_are_unsupported() {
    assert_eq!(platform_from("windows", "aarch64"), Platform::Unsupported);
    assert_eq!(platform_from("linux", "riscv64"), Platform::Unsupported);
    assert_eq!(platform_from("freebsd", "x86_64"), Platform::Unsupported);
    assert_eq!(platform_from("", ""), Platform::Unsupported);
    assert_eq!(platform_from("Linux", "x86_64"), Platform::Unsupported);
}

#[test]
fn a_platform_is_written_as_its_token() {
    assert_eq!(Platform::Linux.to_string(), "linux");
    assert_eq!(Platform::MacOs.to_string(), "darwin");
    assert_eq!(Platform::Windows.to_string(), "windows");
    assert_eq!(Platform::Unsupported.to_string(), "Unsupported-platform");
}

#[test]
fn a_platform_is_read_from_its_name() {
    assert_eq!(Platform::from_str("linux"), Ok(Platform::Linux));
    assert_eq!(Platform::from_str("macosx"), Ok(Platform::MacOs));
    assert_eq!(Platform::from_str("darwin"), Ok(Platform::MacOs));
    assert_eq!(Platform::from_str("windows"), Ok(Platform::Windows));
    assert_eq!(
        Platform::from_str("solaris"),
        Err("unsupported platform solaris".to_string())
    );
    assert_eq!(Platform::from_str(""), Err("unsupported platform ".to_string()));
    assert_eq!(
        Platform::from_str("Unsupported-platform"),
        Err("unsupported platform Unsupported-platform".to_string())
    );
}

#[test]
fn cli_and_library_versions_match() {
    // The command line reports `bbm::VERSION`; the package is 0.2.0.
    assert_eq!("0.2.0", bbm::VERSION, "bbmctl and bbm must share the workspace version");
}

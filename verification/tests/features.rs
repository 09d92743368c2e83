/// The `[package]` table of this crate's Cargo.toml.
const CARGO_PACKAGE_TABLE: &str = "[package]
name = \"doclayout-detector\"
version = \"0.1.0\"
edition = \"2021\"
publish = false

[dependencies]
";

#[test]
fn package_name_matches_doclayout_detector_project() {
    assert_eq!(
        parse_package_name(CARGO_PACKAGE_TABLE),
        "doclayout-detector"
    );
}

fn parse_package_name(cargo_toml: &str) -> &str {
    let mut in_package = false;
    for line in cargo_toml.lines() {
        let trimmed = line.trim();
        if trimmed == "[package]" {
            in_package = true;
            continue;
        }
        if in_package && trimmed.starts_with('[') {
            break;
        }
        if in_package && trimmed.starts_with("name") {
            let (_, value) = trimmed.split_once('=').expect("package name should use =");
            return value.trim().trim_matches('"');
        }
    }
    panic!("missing package name")
}

use muse::release::{ensure, filename, formula, install_formula, percent_encode, render_formula};

const TEMPLATE: &str = "class Muse < Formula\n  url \"https://github.com/songhyun-k/muse/releases/download/v@VERSION@/muse-macos-arm64.tar.gz\"\n  sha256 \"@SHA256@\"\n  version \"@VERSION@\"\n@BOTTLE@end\n";

#[test]
fn install_uses_local_bottle_without_changing_public_formula() {
    let archive = "a".repeat(64);
    let bottle = "b".repeat(64);
    let directory = b"/tmp/muse #\xED\x95\x9C /x".to_vec();
    let formula_text = install_formula(TEMPLATE, "0.3.1", &archive, &bottle, Ok(directory)).unwrap();
    assert!(formula_text.contains("root_url \"file://"));
    assert!(formula_text.contains("%20%23%ED%95%9C%20"));
    assert!(formula_text.contains(&format!("arm64_sonoma: \"{bottle}\"")));
    assert!(formula_text.contains("url \"https://github.com/songhyun-k/muse/releases/download/v0.3.1/muse-macos-arm64.tar.gz\""));
    assert!(formula(TEMPLATE, "0.3.1", &archive, Some(&bottle))
        .unwrap()
        .contains("root_url \"https://"));
}

#[test]
fn formulas_reject_malformed_checksums() {
    let checksum = "c".repeat(64);
    assert_eq!(
        formula(TEMPLATE, "0.3.1", "xyz", None).unwrap_err(),
        "Invalid archive checksum"
    );
    assert_eq!(
        formula(TEMPLATE, "0.3.1", &checksum, Some("invalid")).unwrap_err(),
        "Invalid bottle checksum"
    );
    assert_eq!(
        formula(TEMPLATE, "0.3.1", &"C".repeat(64), None).unwrap_err(),
        "Invalid archive checksum"
    );
    let plain = formula(TEMPLATE, "0.3.1", &checksum, None).unwrap();
    assert!(!plain.contains("bottle do"));
    assert!(plain.contains(&format!("sha256 \"{checksum}\"")));
}

#[test]
fn rendering_fills_every_placeholder() {
    let text = render_formula("@VERSION@-@VERSION@ @SHA256@@BOTTLE@", "1.2", "abc", None);
    assert_eq!(text, "1.2-1.2 abc");
    let text = render_formula("@BOTTLE@", "1.2", "abc", Some("def"));
    assert_eq!(
        text,
        "  bottle do\n    root_url \"https://github.com/songhyun-k/muse/releases/download/v1.2\"\n    sha256 cellar: :any_skip_relocation, arm64_sonoma: \"def\"\n  end\n"
    );
}

#[test]
fn local_install_needs_exactly_one_public_root() {
    let archive = "a".repeat(64);
    let bottle = "b".repeat(64);
    assert_eq!(
        install_formula("@BOTTLE@@BOTTLE@", "1.0", &archive, &bottle, Ok(b"/x".to_vec())).unwrap_err(),
        "Missing public bottle root"
    );
    assert_eq!(
        install_formula("no bottle", "1.0", &archive, &bottle, Ok(b"/x".to_vec())).unwrap_err(),
        "Missing public bottle root"
    );
    assert_eq!(
        install_formula(TEMPLATE, "1.0", &archive, &bottle, Err("No such file".into())).unwrap_err(),
        "No such file"
    );
}

#[test]
fn paths_are_percent_encoded_except_unreserved_bytes() {
    let encoded: String = percent_encode(b"/a-Z._~ %").into_iter().collect();
    assert_eq!(encoded, "/a-Z._~%20%25");
}

#[test]
fn bottle_names_and_checks() {
    assert_eq!(filename("0.3.1"), "muse-0.3.1.arm64_sonoma.bottle.tar.gz");
    assert_eq!(ensure(true, "nope"), Ok(()));
    assert_eq!(ensure(false, "nope"), Err("nope".to_string()));
}

#[test]
fn publication_requires_the_exact_installed_bottle() {
    let checksum = "a".repeat(64);
    assert!(formula(TEMPLATE, "0.3.1", &checksum, Some("invalid")).is_err());
    let text = formula(TEMPLATE, "0.3.1", &checksum, Some(&checksum)).unwrap();
    assert!(text.contains("arm64_sonoma:") && !text.contains("@BOTTLE@"));
}

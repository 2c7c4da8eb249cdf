use debpack::manifest::description_default;
use debpack::manifest::ManifestFile;
use debpack::utils::captalize_str;
use debpack::utils::validate_manifest;
use debpack::utils::vec_to_string;
use debpack::control::render_control;
use debpack::PackError;

fn basic_manifest() -> ManifestFile {
    ManifestFile {
        name: String::from("hello"),
        version: String::from("1.0"),
        arch: String::from("all"),
        maintainer: None,
        description: description_default(),
        homepage: None,
        depends: Vec::new(),
        recommends: Vec::new(),
        suggests: Vec::new(),
        provides: Vec::new(),
        conflicts: Vec::new(),
        files: vec![(String::from("hello.sh"), String::from("bin/hello"))],
    }
}

#[test]
fn validate_accepts_basic_manifest() {
    assert_eq!(validate_manifest(&basic_manifest()), Ok(()));
}

#[test]
fn validate_accepts_every_known_arch() {
    for arch in ["all", "arm", "i686", "aarch64", "x86_64"] {
        let mut m = basic_manifest();
        m.arch = String::from(arch);
        assert_eq!(validate_manifest(&m), Ok(()));
    }
}

#[test]
fn validate_rejects_missing_name() {
    let mut m = basic_manifest();
    m.name = String::new();
    assert_eq!(validate_manifest(&m), Err(PackError::MissingField));
}

#[test]
fn validate_rejects_blank_version() {
    let mut m = basic_manifest();
    m.version = String::from("   ");
    assert_eq!(validate_manifest(&m), Err(PackError::MissingField));
}

#[test]
fn validate_rejects_empty_files() {
    let mut m = basic_manifest();
    m.files = Vec::new();
    assert_eq!(validate_manifest(&m), Err(PackError::MissingField));
}

#[test]
fn validate_rejects_unknown_arch() {
    let mut m = basic_manifest();
    m.arch = String::from("mips");
    assert_eq!(validate_manifest(&m), Err(PackError::InvalidArchitecture));
}

#[test]
fn captalize_str_uppercases_first_letter() {
    assert_eq!(captalize_str("depends"), "Depends");
    assert_eq!(captalize_str("recommends"), "Recommends");
    assert_eq!(captalize_str("x"), "X");
}

#[test]
fn captalize_str_uppercases_non_ascii_first_letter() {
    assert_eq!(captalize_str("\u{e9}mile"), "\u{c9}mile");
}

#[test]
fn captalize_str_expands_multi_character_uppercase() {
    assert_eq!(captalize_str("\u{df}x"), "SSx");
}

#[test]
fn captalize_str_leaves_other_strings_alone() {
    assert_eq!(captalize_str(""), "");
    assert_eq!(captalize_str("Conflicts"), "Conflicts");
    assert_eq!(captalize_str("1abc"), "1abc");
}

#[test]
fn description_default_is_fixed_placeholder() {
    assert_eq!(description_default(), "No description");
}

#[test]
fn vec_to_string_joins_with_single_commas() {
    let items = vec![String::from("a"), String::from("b")];
    assert_eq!(vec_to_string(&items, "depends"), Some(String::from("Depends: a,b\n")));
}

#[test]
fn vec_to_string_single_item_has_no_separator() {
    let items = vec![String::from("python")];
    assert_eq!(vec_to_string(&items, "depends"), Some(String::from("Depends: python\n")));
}

#[test]
fn vec_to_string_empty_list_renders_nothing() {
    let items: Vec<String> = Vec::new();
    assert_eq!(vec_to_string(&items, "depends"), None);
}

#[test]
fn render_control_basic_manifest() {
    let m = basic_manifest();
    let expected =
        "Package: hello\nVersion: 1.0\nArchitecture: all\nMaintainer: None\nDescription: No description\n";
    assert_eq!(render_control(&m), expected.as_bytes().to_vec());
}

#[test]
fn render_control_is_deterministic() {
    let m = basic_manifest();
    assert_eq!(render_control(&m), render_control(&m));
}

#[test]
fn render_control_full_manifest() {
    let mut m = basic_manifest();
    m.maintainer = Some(String::from("@someone"));
    m.homepage = Some(String::from("https://example.com"));
    m.depends = vec![String::from("python")];
    m.recommends = vec![String::from("vim"), String::from("emacs")];
    m.conflicts = vec![String::from("vi")];
    let expected = "Package: hello\nVersion: 1.0\nArchitecture: all\n\
                    Maintainer: @someone\nDescription: No description\n\
                    Homepage: https://example.com\n\
                    Depends: python\nRecommends: vim,emacs\nConflicts: vi\n";
    assert_eq!(render_control(&m), expected.as_bytes().to_vec());
}

#[test]
fn render_control_omits_empty_lists() {
    let m = basic_manifest();
    let rendered = String::from_utf8(render_control(&m)).unwrap();
    assert!(!rendered.contains("Depends"));
    assert!(!rendered.contains("Recommends"));
    assert!(!rendered.contains("Suggests"));
    assert!(!rendered.contains("Provides"));
    assert!(!rendered.contains("Conflicts"));
}

use blade_graphics::cli::{parse_u32, path_join, Args, ArgsError};

fn args(list: &[&str]) -> Vec<String> {
    list.iter().map(|s| s.to_string()).collect()
}

#[test]
fn parse_example_with_separate_value() {
    let a = Args::parse(&args(&["--example", "webgpu-triangle"])).unwrap();
    assert_eq!(a.example.as_deref(), Some("webgpu-triangle"));
    assert_eq!(a.bin, None);
    assert_eq!(a.package, None);
    assert!(!a.release);
    assert_eq!(a.profile, None);
    assert_eq!(a.port, 8000);
}

#[test]
fn parse_value_after_equals_sign_is_the_same() {
    let a = Args::parse(&args(&["--example=webgpu-triangle", "--port=9000", "--release"])).unwrap();
    let b = Args::parse(&args(&["--example", "webgpu-triangle", "--port", "9000", "--release"])).unwrap();
    assert_eq!(a.example, b.example);
    assert_eq!(a.port, 9000);
    assert_eq!(b.port, 9000);
    assert!(a.release && b.release);
}

#[test]
fn parse_last_occurrence_wins() {
    let a = Args::parse(&args(&["--bin", "first", "--bin=second"])).unwrap();
    assert_eq!(a.bin.as_deref(), Some("second"));
}

#[test]
fn parse_package_short_and_long_forms() {
    let a = Args::parse(&args(&["-p", "pkg"])).unwrap();
    assert_eq!(a.package.as_deref(), Some("pkg"));
    let b = Args::parse(&args(&["-p=pkg2"])).unwrap();
    assert_eq!(b.package.as_deref(), Some("pkg2"));
    let c = Args::parse(&args(&["--package=pkg3", "--profile", "dev"])).unwrap();
    assert_eq!(c.package.as_deref(), Some("pkg3"));
    assert_eq!(c.profile.as_deref(), Some("dev"));
}

#[test]
fn parse_unknown_arguments_are_ignored() {
    let a = Args::parse(&args(&["--verbose", "--bin", "x", "extra"])).unwrap();
    assert_eq!(a.bin.as_deref(), Some("x"));
}

#[test]
fn parse_missing_target_is_refused() {
    assert_eq!(Args::parse(&args(&[])).unwrap_err(), ArgsError::MissingTarget);
    assert_eq!(Args::parse(&args(&["--release", "--port", "80"])).unwrap_err(), ArgsError::MissingTarget);
    // A flag with no following value sets nothing.
    assert_eq!(Args::parse(&args(&["--example"])).unwrap_err(), ArgsError::MissingTarget);
}

#[test]
fn parse_invalid_port_is_refused() {
    assert_eq!(Args::parse(&args(&["--bin", "x", "--port", "abc"])).unwrap_err(), ArgsError::InvalidPort);
    assert_eq!(Args::parse(&args(&["--bin", "x", "--port=-1"])).unwrap_err(), ArgsError::InvalidPort);
    assert_eq!(Args::parse(&args(&["--bin", "x", "--port=4294967296"])).unwrap_err(), ArgsError::InvalidPort);
    // The port error comes before the missing-target check.
    assert_eq!(Args::parse(&args(&["--port", "x"])).unwrap_err(), ArgsError::InvalidPort);
}

#[test]
fn parse_port_without_value_keeps_default() {
    let a = Args::parse(&args(&["--bin", "x", "--port"])).unwrap();
    assert_eq!(a.port, 8000);
}

#[test]
fn parse_u32_matches_std_parse() {
    for s in ["0", "8000", "+42", "4294967295", "4294967296", "", "+", "-1", "12a", " 1", "00012", "99999999999999999999"] {
        assert_eq!(parse_u32(s), s.parse::<u32>().ok(), "input {:?}", s);
    }
}

#[test]
fn binary_name_prefers_example_then_bin_then_package() {
    let a = Args::parse(&args(&["-p", "pkg", "--bin", "b", "--example", "e"])).unwrap();
    assert_eq!(a.binary_name(), "e");
    let b = Args::parse(&args(&["-p", "pkg", "--bin", "b"])).unwrap();
    assert_eq!(b.binary_name(), "b");
    let c = Args::parse(&args(&["-p", "pkg"])).unwrap();
    assert_eq!(c.binary_name(), "pkg");
}

#[test]
fn profile_dir_rules() {
    let a = Args::parse(&args(&["--bin", "b", "--release", "--profile", "custom"])).unwrap();
    assert_eq!(a.profile_dir(), "release");
    let b = Args::parse(&args(&["--bin", "b", "--profile", "dev"])).unwrap();
    assert_eq!(b.profile_dir(), "debug");
    let c = Args::parse(&args(&["--bin", "b", "--profile", "custom"])).unwrap();
    assert_eq!(c.profile_dir(), "custom");
    let d = Args::parse(&args(&["--bin", "b"])).unwrap();
    assert_eq!(d.profile_dir(), "debug");
}

#[test]
fn cargo_args_layout() {
    let a = Args::parse(&args(&["--example", "tri", "-p", "blade", "--profile", "opt"])).unwrap();
    assert_eq!(
        a.cargo_args(),
        args(&["build", "--target", "wasm32-unknown-unknown", "--example", "tri", "-p", "blade", "--profile", "opt"])
    );
    let b = Args::parse(&args(&["--bin", "app", "--release", "--profile", "opt"])).unwrap();
    assert_eq!(b.cargo_args(), args(&["build", "--target", "wasm32-unknown-unknown", "--bin", "app", "--release"]));
}

#[test]
fn wasm_file_path_layout() {
    let a = Args::parse(&args(&["--example", "webgpu-triangle"])).unwrap();
    assert_eq!(a.wasm_file_path(), "target/wasm32-unknown-unknown/debug/examples/webgpu-triangle.wasm");
    let b = Args::parse(&args(&["--bin", "app", "--release"])).unwrap();
    assert_eq!(b.wasm_file_path(), "target/wasm32-unknown-unknown/release/app.wasm");
}

#[test]
fn path_join_matches_path_buf() {
    for (base, comp) in [("a", "b"), ("a/", "b"), ("", "b"), ("a", "/abs"), ("a", "")] {
        let expected = std::path::PathBuf::from(base).join(comp);
        assert_eq!(path_join(base.to_string(), comp), expected.to_str().unwrap(), "{:?} {:?}", base, comp);
    }
}

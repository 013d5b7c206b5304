//! The command line.

use echod::cli::{extract_config_flag, is_help, parse_cli_args, HELP};

fn s(args: &[&str]) -> Vec<String> {
    args.iter().map(|a| (*a).to_string()).collect()
}

#[test]
fn no_flag_returns_none_and_original_args() {
    let (p, rest) = extract_config_flag(&s(&["--target", "/path", "--include-tls"]));
    assert!(p.is_none());
    assert_eq!(rest, s(&["--target", "/path", "--include-tls"]));
}

#[test]
fn leading_config_flag_extracted() {
    let (p, rest) = extract_config_flag(&s(&["--config", "/etc/fdpass.toml", "--target", "x"]));
    assert_eq!(p, Some("/etc/fdpass.toml".to_string()));
    assert_eq!(rest, s(&["--target", "x"]));
}

#[test]
fn mid_args_config_flag_extracted() {
    let (p, rest) = extract_config_flag(&s(&["--target", "x", "--config", "c.toml"]));
    assert_eq!(p, Some("c.toml".to_string()));
    assert_eq!(rest, s(&["--target", "x"]));
}

#[test]
fn dangling_config_flag_is_left_alone() {
    let (p, rest) = extract_config_flag(&s(&["--target", "x", "--config"]));
    assert!(p.is_none());
    assert_eq!(rest, s(&["--target", "x", "--config"]));
}

#[test]
fn last_config_flag_counts() {
    let (p, rest) = extract_config_flag(&s(&["--config", "a", "--config", "b"]));
    assert_eq!(p, Some("b".to_string()));
    assert!(rest.is_empty());
}

#[test]
fn empty_args_returns_empty() {
    let (p, rest) = extract_config_flag(&vec![]);
    assert!(p.is_none());
    assert!(rest.is_empty());
}

#[test]
fn global_config_before_subcommand_is_accepted() {
    let cli = parse_cli_args(&s(&["--config", "/etc/fdpass.toml", "status"])).unwrap();
    assert_eq!(cli.role, "status");
    assert_eq!(cli.config_path, Some("/etc/fdpass.toml".to_string()));
    assert!(cli.rest.is_empty());
}

#[test]
fn config_only_defaults_to_supervisor() {
    let cli = parse_cli_args(&s(&["--config", "c.toml"])).unwrap();
    assert_eq!(cli.role, "supervisor");
    assert_eq!(cli.config_path, Some("c.toml".to_string()));
    assert!(cli.rest.is_empty());
}

#[test]
fn role_args_preserve_non_config_flags() {
    let cli = parse_cli_args(&s(&["upgrade", "--target", "bin", "--config", "c.toml"])).unwrap();
    assert_eq!(cli.role, "upgrade");
    assert_eq!(cli.config_path, Some("c.toml".to_string()));
    assert_eq!(cli.rest, s(&["--target", "bin"]));
}

#[test]
fn unknown_subcommand_errors() {
    let err = parse_cli_args(&s(&["bogus"])).unwrap_err();
    assert!(err.to_text().contains("unknown subcommand"));
    assert_eq!(err.to_text(), "unknown subcommand: bogus");
}

#[test]
fn every_subcommand_is_known() {
    for role in [
        "grandparent", "supervisor", "processor", "plain", "tls", "scanner", "upgrade", "status",
        "drain", "reload", "help", "--help", "-h",
    ] {
        assert_eq!(parse_cli_args(&s(&[role])).unwrap().role, role);
    }
    assert!(is_help("help") && is_help("--help") && is_help("-h") && !is_help("status"));
    assert!(HELP.starts_with("echod <grandparent|supervisor|"));
}

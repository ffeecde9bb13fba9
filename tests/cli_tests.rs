use eyes::cli::{check_config_path, Cli};
use std::path::PathBuf;

#[test]
fn test_cli_validation_with_missing_file() {
    let cli = Cli {
        config: Some(PathBuf::from("/nonexistent/config.toml")),
        verbose: false,
    };

    assert!(cli.validate().is_ok());
}

#[test]
fn test_cli_validation_with_directory() {
    let cli = Cli {
        config: Some(PathBuf::from("/tmp")),
        verbose: false,
    };

    assert!(cli.validate().is_err());
}

#[test]
fn test_cli_validation_no_config() {
    let cli = Cli {
        config: None,
        verbose: false,
    };

    assert!(cli.validate().is_ok());
}

#[test]
fn test_config_path_str_with_valid_path() {
    let cli = Cli {
        config: Some(PathBuf::from("config.toml")),
        verbose: false,
    };

    let result = cli.config_path_str().unwrap();
    assert_eq!(result, Some("config.toml"));
}

#[test]
fn test_config_path_str_no_config() {
    let cli = Cli {
        config: None,
        verbose: false,
    };

    let result = cli.config_path_str().unwrap();
    assert_eq!(result, None);
}

#[test]
fn config_path_decision() {
    assert!(check_config_path(false, false).is_ok());
    assert!(check_config_path(true, true).is_ok());
    assert!(check_config_path(true, false).is_err());
}

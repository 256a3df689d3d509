//! The command line.

use radxa_penta_top_hat_rs::cli::{
    usage, Args, DEFAULT_CONFIG_PATH, DEFAULT_CPU_TEMP_PATH, DEFAULT_ENV_FILE,
};

fn words(args: &[&str]) -> Vec<Option<String>> {
    args.iter().map(|arg| Some(arg.to_string())).collect()
}

#[test]
fn parses_defaults() {
    let args = Args::parse_from(&words(&["daemon"])).expect("default args should parse");
    assert_eq!(args.config_path, DEFAULT_CONFIG_PATH);
    assert_eq!(args.env_file, DEFAULT_ENV_FILE);
    assert_eq!(args.cpu_temp_path, DEFAULT_CPU_TEMP_PATH);
    assert!(!args.dry_run);
    assert!(!args.once);
}

#[test]
fn parses_flags_and_paths() {
    let args = Args::parse_from(&words(&[
        "daemon",
        "--config",
        "/tmp/config.ini",
        "--env-file=/tmp/pins.env",
        "--cpu-temp-path",
        "/tmp/temp",
        "--dry-run",
        "--once",
    ]))
    .expect("explicit args should parse");

    assert_eq!(args.config_path, "/tmp/config.ini");
    assert_eq!(args.env_file, "/tmp/pins.env");
    assert_eq!(args.cpu_temp_path, "/tmp/temp");
    assert!(args.dry_run);
    assert!(args.once);
}

#[test]
fn help_is_asked_for_by_either_name() {
    assert!(Args::parse_from(&words(&["daemon", "--help"])).unwrap().help);
    assert!(Args::parse_from(&words(&["daemon", "-h"])).unwrap().help);
    assert_eq!(Args::parse_from(&words(&[])).unwrap(), Args::default());
}

#[test]
fn wrong_arguments_are_named() {
    let error = |args: &[&str]| Args::parse_from(&words(args)).unwrap_err();

    assert_eq!(error(&["daemon", "--frobnicate"]), "unknown argument: --frobnicate");
    assert_eq!(error(&["daemon", "--config"]), "--config requires a value");
    assert_eq!(error(&["daemon", "--env-file", ""]), "--env-file value must not be empty");
    assert_eq!(
        Args::parse_from(&vec![None, None]).unwrap_err(),
        "arguments must be valid UTF-8"
    );
    assert_eq!(
        Args::parse_from(&vec![None, Some("--cpu-temp-path".to_string()), None]).unwrap_err(),
        "--cpu-temp-path value must be valid UTF-8"
    );
}

#[test]
fn later_options_replace_earlier_ones() {
    let args = Args::parse_from(&words(&[
        "daemon",
        "--config=/tmp/a",
        "--config",
        "/tmp/b",
        "--cpu-temp-path=/tmp/t",
    ]))
    .unwrap();
    assert_eq!(args.config_path, "/tmp/b");
    assert_eq!(args.cpu_temp_path, "/tmp/t");
    assert_eq!(args.env_file, DEFAULT_ENV_FILE);
}

#[test]
fn usage_names_program_and_defaults() {
    assert_eq!(
        usage("daemon"),
        "\
Usage: daemon [OPTIONS]

Options:
      --config <PATH>         Config file path [default: /etc/rockpi-penta.conf]
      --env-file <PATH>       Board pin env file path [default: /etc/rockpi-penta.env]
      --cpu-temp-path <PATH>  CPU temp path [default: /sys/class/thermal/thermal_zone0/temp]
      --dry-run               Print fan decisions without hardware output
      --once                  Take one sample and exit
  -h, --help                  Show this help
"
    );
}

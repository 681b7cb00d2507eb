use bettertouchscreen::cli::{Cli, Command};
use bettertouchscreen::config::default_hscroll_threshold;

fn cli() -> Cli {
    Cli { device: None, list: false, config: None, generate_config: None, log_file: None, debug_overlay: false }
}

#[test]
fn run_by_default() {
    assert_eq!(cli().command(), Command::Run);
}

#[test]
fn list_wins() {
    let mut c = cli();
    c.list = true;
    c.generate_config = Some(None);
    assert_eq!(c.command(), Command::ListDevices);
}

#[test]
fn generate_config_command() {
    let mut c = cli();
    c.generate_config = Some(Some("/tmp/x.toml".to_string()));
    assert_eq!(c.command(), Command::GenerateConfig);
}

#[test]
fn hscroll_threshold_default() {
    assert_eq!(default_hscroll_threshold(), 2);
}

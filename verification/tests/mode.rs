//! The reveal and dry-run modes.

use cache_warden_cli::mode::{resolve_mode, take_mode_flag, Mode, ModeFlag};

fn args(xs: &[&str]) -> Vec<String> {
    xs.iter().map(|s| s.to_string()).collect()
}

#[test]
fn take_mode_flag_picks_reveal_and_dry_run() {
    let (f, rest) = take_mode_flag(&args(&["--reveal", "X"])).unwrap();
    assert_eq!(f, Some(ModeFlag::Reveal));
    assert_eq!(rest, vec!["X".to_string()]);

    let (f, rest) = take_mode_flag(&args(&["A", "--dry-run", "B"])).unwrap();
    assert_eq!(f, Some(ModeFlag::DryRun));
    assert_eq!(rest, vec!["A".to_string(), "B".to_string()]);
}

#[test]
fn take_mode_flag_absent_is_none() {
    let (f, rest) = take_mode_flag(&args(&["A", "B"])).unwrap();
    assert_eq!(f, None);
    assert_eq!(rest, vec!["A".to_string(), "B".to_string()]);
}

#[test]
fn take_mode_flag_same_flag_twice_is_ok() {
    let (f, _) = take_mode_flag(&args(&["--dry-run", "--dry-run"])).unwrap();
    assert_eq!(f, Some(ModeFlag::DryRun));
}

#[test]
fn take_mode_flag_both_flags_is_error() {
    assert!(take_mode_flag(&args(&["--reveal", "--dry-run"])).is_err());
    assert!(take_mode_flag(&args(&["--dry-run", "--reveal"])).is_err());
}

#[test]
fn resolve_mode_flag_wins_over_env_and_config() {
    assert_eq!(
        resolve_mode(Some(ModeFlag::Reveal), Some(true), Some(Mode::DryRun)),
        Mode::Reveal
    );
    assert_eq!(
        resolve_mode(Some(ModeFlag::DryRun), Some(false), Some(Mode::Reveal)),
        Mode::DryRun
    );
}

#[test]
fn resolve_mode_env_wins_over_config() {
    assert_eq!(
        resolve_mode(None, Some(true), Some(Mode::Reveal)),
        Mode::DryRun
    );
    assert_eq!(
        resolve_mode(None, Some(false), Some(Mode::DryRun)),
        Mode::Reveal
    );
}

#[test]
fn resolve_mode_config_when_no_flag_or_env() {
    assert_eq!(resolve_mode(None, None, Some(Mode::DryRun)), Mode::DryRun);
    assert_eq!(resolve_mode(None, None, Some(Mode::Reveal)), Mode::Reveal);
}

#[test]
fn resolve_mode_builtin_default_is_reveal() {
    assert_eq!(resolve_mode(None, None, None), Mode::Reveal);
}

#[test]
fn nothing_behind_the_separator_is_a_mode_flag() {
    let given = args(&["A", "--", "cmd", "--dry-run", "--reveal"]);
    assert_eq!(take_mode_flag(&given), Ok((None, given.clone())));
    let (f, rest) = take_mode_flag(&args(&["--reveal", "--", "cmd", "--dry-run"])).unwrap();
    assert_eq!(f, Some(ModeFlag::Reveal));
    assert_eq!(rest, args(&["--", "cmd", "--dry-run"]));
}

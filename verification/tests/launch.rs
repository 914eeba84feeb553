//! How the program is started, and who sits in front of it.

use shr_rs::ui_mode::{cli_args, fallback_filter_for};
use shr_rs::{can_prompt_operator_from, detect_ui_mode, is_interactive_terminal_from, UiMode};

fn args(v: &[&str]) -> Vec<String> {
    v.iter().map(|s| s.to_string()).collect()
}

#[test]
fn tui_flag_forces_tui_regardless_of_other_args() {
    for interactive in [false, true] {
        assert_eq!(detect_ui_mode(&args(&["--tui"]), interactive), UiMode::Tui);
        assert_eq!(detect_ui_mode(&args(&["--tui", "status"]), interactive), UiMode::Tui);
    }
}

#[test]
fn no_tui_flag_forces_cli_even_with_no_other_args() {
    for interactive in [false, true] {
        assert_eq!(detect_ui_mode(&args(&["--no-tui"]), interactive), UiMode::Cli);
    }
}

#[test]
fn a_subcommand_always_means_cli_without_consulting_the_terminal() {
    for interactive in [false, true] {
        assert_eq!(detect_ui_mode(&args(&["status"]), interactive), UiMode::Cli);
        assert_eq!(detect_ui_mode(&args(&["create", "--mode", "shr"]), interactive), UiMode::Cli);
    }
}

#[test]
fn no_args_defers_to_the_terminal_check() {
    for interactive in [false, true] {
        let expected = if interactive { UiMode::Tui } else { UiMode::Cli };
        assert_eq!(detect_ui_mode(&[], interactive), expected);
    }
}

#[test]
fn no_tui_env_var_forces_non_interactive() {
    let result = is_interactive_terminal_from(true, true, false, Some((120, 40)));
    assert!(!result, "NO_TUI must force non-interactive");
}

#[test]
fn is_interactive_terminal_from_still_rejects_dumb_term_and_small_sizes() {
    // A real TTY at full size: interactive.
    assert!(is_interactive_terminal_from(false, true, false, Some((120, 40))));
    // TERM=dumb: never interactive, even at a generous size.
    assert!(!is_interactive_terminal_from(false, true, true, Some((120, 40))));
    // Below 80x24 in either dimension: not interactive.
    assert!(!is_interactive_terminal_from(false, true, false, Some((79, 23))));
    assert!(!is_interactive_terminal_from(false, true, false, Some((79, 40))));
    assert!(!is_interactive_terminal_from(false, true, false, Some((120, 23))));
    // No size available (0x0 / size query failed): not interactive.
    assert!(!is_interactive_terminal_from(false, true, false, Some((0, 0))));
    assert!(!is_interactive_terminal_from(false, true, false, None));
    // Not a TTY at all, or NO_TUI set: not interactive regardless of size.
    assert!(!is_interactive_terminal_from(false, false, false, Some((120, 40))));
    assert!(!is_interactive_terminal_from(true, true, false, Some((120, 40))));
    // The smallest that will do.
    assert!(is_interactive_terminal_from(false, true, false, Some((80, 24))));
}

#[test]
fn can_prompt_operator_from_ignores_size_and_term_entirely() {
    assert!(can_prompt_operator_from(true, true));
    // stdout not a TTY: nowhere to show the prompt.
    assert!(!can_prompt_operator_from(false, true));
    // stdin not a TTY (e.g. piped): a prompt would just hit EOF.
    assert!(!can_prompt_operator_from(true, false));
    assert!(!can_prompt_operator_from(false, false));
}

#[test]
fn can_prompt_operator_from_would_have_allowed_the_e34_repro_sizes() {
    // A small terminal is still one that somebody reads.
    assert!(can_prompt_operator_from(true, true));
}

#[test]
fn strips_the_dispatch_only_flags_but_keeps_argv0_and_everything_else() {
    let rest = vec!["--no-tui".to_string(), "status".to_string(), "--json".to_string()];
    assert_eq!(
        cli_args("shr-rs".to_string(), &rest),
        vec!["shr-rs".to_string(), "status".to_string(), "--json".to_string()]
    );
}

#[test]
fn a_subcommand_run_with_no_dispatch_flags_passes_through_unchanged() {
    let rest = vec!["expand".to_string(), "--add".to_string(), "sdb".to_string()];
    assert_eq!(
        cli_args("shr-rs".to_string(), &rest),
        vec![
            "shr-rs".to_string(),
            "expand".to_string(),
            "--add".to_string(),
            "sdb".to_string()
        ]
    );
}

#[test]
fn cli_mode_keeps_e111s_warn_fallback_and_tui_mode_does_not() {
    assert_eq!(fallback_filter_for(UiMode::Cli), "warn");
    assert_eq!(fallback_filter_for(UiMode::Tui), "off");
}

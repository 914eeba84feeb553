//! Two different questions that must not share one predicate: "can a full
//! screen interface be drawn here?" and "is a human watching who can answer a
//! prompt?". Collapsing them would let a small or plain terminal skip a
//! confirmation.

use vstd::prelude::*;
use crate::text;

verus! {

/// The columns of the least terminal that a full-screen interface is drawn on.
pub const MIN_COLUMNS: u16 = 80;

/// Its rows.
pub const MIN_ROWS: u16 = 24;

/// Whether a full screen interface can be drawn.
pub open spec fn drawable(
    no_tui_set: bool,
    stdout_is_tty: bool,
    term_is_dumb: bool,
    size: Option<(u16, u16)>,
) -> bool {
    !no_tui_set && stdout_is_tty && !term_is_dumb && (size matches Some(s) && s.0 >= MIN_COLUMNS
        && s.1 >= MIN_ROWS)
}

/// An explicit opt-out, an output that is no terminal, a dumb terminal, or one
/// smaller than 80x24 all mean "not interactive"; anything else is.
///
/// This answers "can a full screen interface be drawn here?", NOT "must a
/// destructive action be confirmed?".
pub fn is_interactive_terminal_from(
    no_tui_set: bool,
    stdout_is_tty: bool,
    term_is_dumb: bool,
    size: Option<(u16, u16)>,
) -> (r: bool)
    ensures
        r == drawable(no_tui_set, stdout_is_tty, term_is_dumb, size),
{
    if no_tui_set {
        return false;
    }
    if !stdout_is_tty {
        return false;
    }
    if term_is_dumb {
        return false;
    }
    match size {
        Some((cols, rows)) => cols >= MIN_COLUMNS && rows >= MIN_ROWS,
        None => false,
    }
}

/// The confirmation gate: "is a human at a terminal who can answer a typed
/// prompt?" A small or dumb terminal still has a human reading it. Checks the
/// input too: with a piped input nobody could answer.
pub fn can_prompt_operator_from(stdout_is_tty: bool, stdin_is_tty: bool) -> (r: bool)
    ensures
        r == (stdout_is_tty && stdin_is_tty),
{
    stdout_is_tty && stdin_is_tty
}

/// The launch mode: full screen with no arguments in an interactive terminal,
/// command line otherwise.
#[derive(Debug, Clone, Copy, PartialEq, Eq, Structural)]
pub enum UiMode {
    Tui,
    Cli,
}

/// Whether `flag` is among `args`.
pub open spec fn has_arg(args: Seq<String>, flag: Seq<char>) -> bool {
    exists|i: int| 0 <= i < args.len() && (#[trigger] args[i])@ == flag
}

/// The launch mode for a command line: `--tui` wins over everything,
/// `--no-tui` over everything else, any other argument means the command
/// line, and without arguments the terminal decides.
pub open spec fn launch_mode(args: Seq<String>, interactive: bool) -> UiMode {
    if has_arg(args, "--tui"@) {
        UiMode::Tui
    } else if args.len() > 0 {
        UiMode::Cli
    } else if interactive {
        UiMode::Tui
    } else {
        UiMode::Cli
    }
}

fn holds(args: &[String], flag: &str) -> (r: bool)
    ensures
        r == has_arg(args@, flag@),
{
    let mut i: usize = 0;
    while i < args.len()
        invariant
            i <= args.len(),
            forall|k: int| 0 <= k < i ==> (#[trigger] args@[k])@ != flag@,
        decreases args.len() - i,
    {
        if text::same(args[i].as_str(), flag) {
            return true;
        }
        i = i + 1;
    }
    false
}

/// `args` is the raw command line WITHOUT the program path; `interactive` is
/// what [`is_interactive_terminal_from`] says of the terminal. `--tui` and
/// `--no-tui` override everything else; any other argument (a subcommand)
/// forces the command line whatever the terminal is.
pub fn detect_ui_mode(args: &[String], interactive: bool) -> (r: UiMode)
    ensures
        r == launch_mode(args@, interactive),
{
    if holds(args, "--tui") {
        return UiMode::Tui;
    }
    if holds(args, "--no-tui") {
        return UiMode::Cli;
    }
    if args.len() > 0 {
        return UiMode::Cli;
    }
    if interactive {
        UiMode::Tui
    } else {
        UiMode::Cli
    }
}

/// With any argument at all the terminal is not consulted.
pub proof fn arguments_decide_without_the_terminal(args: Seq<String>, a: bool, b: bool)
    requires
        args.len() > 0,
    ensures
        launch_mode(args, a) == launch_mode(args, b),
        launch_mode(args, a) == UiMode::Tui <==> has_arg(args, "--tui"@),
{
}

// ---------------------------------------------------------------------------
// Handing on
// ---------------------------------------------------------------------------

/// Whether an argument only chooses the launch mode.
pub open spec fn is_mode_flag(arg: Seq<char>) -> bool {
    arg == "--tui"@ || arg == "--no-tui"@
}

/// The arguments that do more than choose the launch mode, in their order.
pub open spec fn other_args(args: Seq<Seq<char>>) -> Seq<Seq<char>>
    decreases args.len(),
{
    if args.len() == 0 {
        Seq::empty()
    } else if is_mode_flag(args.last()) {
        other_args(args.drop_last())
    } else {
        other_args(args.drop_last()).push(args.last())
    }
}

/// The command line that the command-line interface gets: the program path,
/// and every argument but those that only choose the launch mode.
pub fn cli_args(program: String, rest: &[String]) -> (r: Vec<String>)
    ensures
        text::views(r@) == seq![program@] + other_args(text::views(rest@)),
{
    let ghost all = text::views(rest@);
    let mut r: Vec<String> = Vec::new();
    text::add_line(&mut r, program);
    let mut i: usize = 0;
    assert(all.take(0) =~= Seq::empty());
    assert(text::views(r@) =~= seq![program@] + Seq::<Seq<char>>::empty());
    while i < rest.len()
        invariant
            i <= rest.len(),
            all == text::views(rest@),
            text::views(r@) == seq![program@] + other_args(all.take(i as int)),
        decreases rest.len() - i,
    {
        proof {
            let more = all.take(i + 1);
            assert(more.drop_last() =~= all.take(i as int));
            assert(more.last() == rest@[i as int]@);
        }
        if !(text::same(rest[i].as_str(), "--tui") || text::same(rest[i].as_str(), "--no-tui")) {
            text::add_line(&mut r, rest[i].clone());
            assert(text::views(r@) =~= seq![program@] + other_args(all.take(i + 1)));
        }
        i = i + 1;
    }
    assert(all.take(i as int) =~= all);
    r
}

/// Which log messages are shown where nothing else was asked for: on the
/// command line the warnings, for they are what reaches the journal of a
/// timer; in full screen none, for they would land in the middle of it.
pub fn fallback_filter_for(mode: UiMode) -> (r: &'static str)
    ensures
        r@ == match mode {
            UiMode::Cli => "warn"@,
            UiMode::Tui => "off"@,
        },
{
    match mode {
        UiMode::Cli => "warn",
        UiMode::Tui => "off",
    }
}

/// No argument but the two that choose the launch mode is lost, and none of
/// the two is handed on.
pub proof fn only_mode_flags_are_dropped(args: Seq<Seq<char>>, arg: Seq<char>)
    ensures
        other_args(args).contains(arg) <==> args.contains(arg) && !is_mode_flag(arg),
    decreases args.len(),
{
    if args.len() > 0 {
        let before = args.drop_last();
        only_mode_flags_are_dropped(before, arg);
        if args.contains(arg) && arg != args.last() {
            let k = choose|k: int| 0 <= k < args.len() && args[k] == arg;
            assert(before[k] == arg);
        }
        if before.contains(arg) {
            let k = choose|k: int| 0 <= k < before.len() && before[k] == arg;
            assert(args[k] == arg);
        }
        if !is_mode_flag(args.last()) {
            let kept = other_args(before);
            assert(other_args(args)[kept.len() as int] == args.last());
            if kept.contains(arg) {
                let k = choose|k: int| 0 <= k < kept.len() && kept[k] == arg;
                assert(other_args(args)[k] == arg);
            }
            if other_args(args).contains(arg) && arg != args.last() {
                let k = choose|k: int|
                    0 <= k < other_args(args).len() && other_args(args)[k] == arg;
                assert(kept[k] == arg);
            }
        }
        assert(args[args.len() - 1] == args.last());
    }
}

} // verus!

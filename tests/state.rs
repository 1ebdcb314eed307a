use chadtop::cpu::CpuUsage;
use chadtop::process::Proc;
use chadtop::ram::Ram;
use chadtop::sort::ProcessSortStrategy;
use chadtop::state::{Action, CurrentScreen, Key, State};
use std::collections::HashSet;

fn proc_named(pid: u32, name: &str) -> Proc {
    Proc {
        name: Some(name.to_string()),
        cmd: None,
        exe: None,
        pid,
        cwd: None,
        memory: 0,
        ppid: None,
        start_time: 0,
        run_time: 0,
        cpu_usage: Some(0),
        disk_usage_read: 0,
        disk_usage_written: 0,
        user: None,
        open_files: None,
        open_files_limit: None,
    }
}

fn names(state: &State) -> Vec<String> {
    state
        .processes
        .iter()
        .map(|p| p.name.clone().unwrap_or_default())
        .collect()
}

fn loaded(procs: Vec<Proc>) -> State {
    let mut state = State::new();
    state.refresh(procs, Ram::new(), Vec::<CpuUsage>::new());
    state
}

#[test]
fn test_sort_strategy_cycles_through_all_variants() {
    let mut state = State::new();
    let start = state.process_sort_strategy;

    let mut seen = HashSet::new();
    seen.insert(start.label().to_string());

    for _ in 0..10 {
        state.next_sort_strategy();
        seen.insert(state.process_sort_strategy.label().to_string());
    }

    assert_eq!(seen.len(), 6);
}

#[test]
fn test_quit_key_sets_exit_true() {
    let mut state = State::new();
    assert!(!state.exit);
    state.handle_key(&Key::Char('q'));
    assert!(state.exit, "Expected 'q' to set exit flag");
}

#[test]
fn test_handle_key_s_changes_sort_strategy() {
    let mut state = State::new();
    let before = state.process_sort_strategy.label().to_string();
    state.handle_key(&Key::Char('s'));
    let after = state.process_sort_strategy.label().to_string();
    assert_ne!(before, after, "Sort strategy should change on 's' key");
}

#[test]
fn test_sysinfo_screen() {
    let mut state = State::new();
    let before = state.current_screen.clone();
    assert!(matches!(before, CurrentScreen::Main));
    state.handle_key(&Key::Char('i'));
    let after = state.current_screen.clone();
    assert!(matches!(after, CurrentScreen::SysInfo));
}

#[test]
fn test_help_screen() {
    let mut state = State::new();
    let before = state.current_screen.clone();
    assert!(matches!(before, CurrentScreen::Main));
    state.handle_key(&Key::Char('h'));
    let after = state.current_screen.clone();
    assert!(matches!(after, CurrentScreen::Help));
}

#[test]
fn six_advances_return_to_start_through_six_labels() {
    let start = ProcessSortStrategy::User;
    let mut s = start;
    let mut seen = HashSet::new();
    for _ in 0..6 {
        seen.insert(s.label());
        s = s.next();
    }
    assert_eq!(s, start);
    assert_eq!(seen.len(), 6);
}

#[test]
fn filter_ba_keeps_bash_and_bat_then_clearing_restores_all() {
    let procs = vec![
        proc_named(4, "bash"),
        proc_named(1, "bat"),
        proc_named(3, "cat"),
        proc_named(2, "dash"),
    ];
    let mut state = loaded(procs);
    state.handle_key(&Key::Char('s'));
    state.handle_key(&Key::Char('s'));
    assert_eq!(state.process_sort_strategy, ProcessSortStrategy::Memory);
    // sort by pid so that the filtered subset keeps a non-trivial order
    for _ in 0..2 {
        state.handle_key(&Key::Char('s'));
    }
    assert_eq!(state.process_sort_strategy, ProcessSortStrategy::Pid);
    assert_eq!(names(&state), vec!["bat", "dash", "cat", "bash"]);

    state.handle_key(&Key::Char('f'));
    state.handle_key(&Key::Char('b'));
    state.handle_key(&Key::Char('a'));
    assert_eq!(names(&state), vec!["bat", "bash"]);

    state.handle_key(&Key::Enter);
    assert_eq!(state.current_screen, CurrentScreen::Main);
    assert_eq!(names(&state), vec!["bat", "bash"]);
    state.handle_key(&Key::Backspace);
    assert_eq!(state.filter, "");
    assert_eq!(names(&state), vec!["bat", "dash", "cat", "bash"]);
}

#[test]
fn filter_backspace_shortens_the_filter() {
    let procs = vec![proc_named(1, "bash"), proc_named(2, "bat"), proc_named(3, "cat")];
    let mut state = loaded(procs);
    state.handle_key(&Key::Char('f'));
    state.handle_key(&Key::Char('b'));
    state.handle_key(&Key::Char('a'));
    state.handle_key(&Key::Char('s'));
    assert_eq!(names(&state), vec!["bash"]);
    state.handle_key(&Key::Backspace);
    assert_eq!(state.filter, "ba");
    assert_eq!(names(&state).len(), 2);
    state.handle_key(&Key::Backspace);
    state.handle_key(&Key::Backspace);
    state.handle_key(&Key::Backspace);
    assert_eq!(state.filter, "");
    assert_eq!(names(&state).len(), 3);
}

#[test]
fn end_to_end_filter_sh_then_escape_restores_catalog() {
    let procs = vec![
        proc_named(10, "bash"),
        proc_named(11, "sh"),
        proc_named(12, "sshd"),
        proc_named(13, "shell"),
        proc_named(14, "zsh"),
    ];
    let mut state = loaded(procs);
    let unfiltered = names(&state);
    assert_eq!(unfiltered.len(), 5);

    state.handle_key(&Key::Char('f'));
    assert_eq!(state.current_screen, CurrentScreen::Filter);
    state.handle_key(&Key::Char('s'));
    state.handle_key(&Key::Char('h'));
    assert_eq!(names(&state), vec!["sh", "shell"]);
    assert!(names(&state).iter().all(|n| n.starts_with("sh")));

    state.handle_key(&Key::Esc);
    assert_eq!(state.current_screen, CurrentScreen::Main);
    assert_eq!(state.process_sort_strategy, ProcessSortStrategy::CpuUsage);
    assert_eq!(names(&state), unfiltered);
}

#[test]
fn kill_confirm_on_vanished_pid_returns_to_main_without_terminating() {
    let mut state = loaded(vec![proc_named(1, "init"), proc_named(2, "bash")]);
    state.current_screen = CurrentScreen::KillConfirm;
    state.current_pid_watch = Some(999);
    let action = state.handle_key(&Key::Char('y'));
    assert_eq!(action, Action::Nothing);
    assert_eq!(state.current_screen, CurrentScreen::Main);
    assert_eq!(state.current_pid_watch, None);
}

#[test]
fn refresh_closes_kill_popup_when_process_is_gone() {
    let mut state = loaded(vec![proc_named(1, "init"), proc_named(2, "bash")]);
    state.handle_key(&Key::Char('G'));
    state.handle_key(&Key::Char('K'));
    assert_eq!(state.current_screen, CurrentScreen::KillConfirm);
    let watched = state.current_pid_watch.unwrap();
    let remaining: Vec<Proc> = state
        .snapshot
        .iter()
        .filter(|p| p.pid != watched)
        .cloned()
        .collect();
    state.refresh(remaining, Ram::new(), Vec::new());
    assert_eq!(state.current_screen, CurrentScreen::Main);
    assert_eq!(state.current_pid_watch, None);
}

#[test]
fn kill_confirm_yes_terminates_selected_process() {
    let mut state = loaded(vec![proc_named(7, "init"), proc_named(8, "bash")]);
    state.handle_key(&Key::Char('j'));
    let pid = state.processes[0].pid;
    state.handle_key(&Key::Char('K'));
    assert_eq!(state.current_pid_watch, Some(pid));
    let action = state.handle_key(&Key::Char('Y'));
    assert_eq!(action, Action::Terminate(pid));
    assert_eq!(state.current_screen, CurrentScreen::Main);
    assert_eq!(state.current_pid_watch, None);
}

#[test]
fn kill_confirm_no_cancels() {
    let mut state = loaded(vec![proc_named(7, "init")]);
    state.handle_key(&Key::Char('g'));
    state.handle_key(&Key::Char('K'));
    assert_eq!(state.current_screen, CurrentScreen::KillConfirm);
    assert_eq!(state.handle_key(&Key::Char('n')), Action::Nothing);
    assert_eq!(state.current_screen, CurrentScreen::Main);
    assert_eq!(state.current_pid_watch, None);
}

#[test]
fn detail_needs_a_selection_and_toggles_back() {
    let mut state = loaded(vec![proc_named(7, "init")]);
    state.handle_key(&Key::Char('d'));
    assert_eq!(state.current_screen, CurrentScreen::Main);
    assert_eq!(state.current_pid_watch, None);
    state.handle_key(&Key::Char('j'));
    state.handle_key(&Key::Char('d'));
    assert_eq!(state.current_screen, CurrentScreen::ProcInfo);
    assert_eq!(state.current_pid_watch, Some(7));
    state.handle_key(&Key::Char('q'));
    assert!(!state.exit);
    state.handle_key(&Key::Char('d'));
    assert_eq!(state.current_screen, CurrentScreen::Main);
    assert_eq!(state.current_pid_watch, None);
}

#[test]
fn escape_clears_selection_on_main() {
    let mut state = loaded(vec![proc_named(7, "init"), proc_named(8, "sh")]);
    state.handle_key(&Key::Char('G'));
    assert_eq!(state.processes_state.selected, Some(1));
    state.handle_key(&Key::Esc);
    assert_eq!(state.processes_state.selected, None);
}

#[test]
fn popups_close_on_their_keys() {
    let mut state = State::new();
    state.handle_key(&Key::Char('i'));
    state.handle_key(&Key::Char('i'));
    assert_eq!(state.current_screen, CurrentScreen::Main);
    state.handle_key(&Key::Char('h'));
    state.handle_key(&Key::Esc);
    assert_eq!(state.current_screen, CurrentScreen::Main);
    state.handle_key(&Key::Char('f'));
    state.handle_key(&Key::Other);
    assert_eq!(state.current_screen, CurrentScreen::Filter);
    state.handle_key(&Key::Enter);
    assert_eq!(state.current_screen, CurrentScreen::Main);
}

#[test]
fn detail_popup_closes_on_escape() {
    let mut state = loaded(vec![proc_named(7, "init")]);
    state.handle_key(&Key::Char('g'));
    state.handle_key(&Key::Char('d'));
    assert_eq!(state.current_screen, CurrentScreen::ProcInfo);
    state.handle_key(&Key::Esc);
    assert_eq!(state.current_screen, CurrentScreen::Main);
    assert_eq!(state.current_pid_watch, None);
}

#[test]
fn advancing_strategy_under_a_popup_keeps_the_popup() {
    let mut state = loaded(vec![proc_named(7, "init"), proc_named(3, "bash")]);
    state.handle_key(&Key::Char('g'));
    state.handle_key(&Key::Char('d'));
    let watched = state.current_pid_watch;
    let start = state.process_sort_strategy;
    for _ in 0..6 {
        state.next_sort_strategy();
        assert_eq!(state.current_screen, CurrentScreen::ProcInfo);
        assert_eq!(state.current_pid_watch, watched);
    }
    assert_eq!(state.process_sort_strategy, start);
}

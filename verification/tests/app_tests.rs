use proc_dash::app::{next_turn, App, Turn, TICK_MS};
use proc_dash::history::{push_history, HISTORY_LEN};
use proc_dash::input::{handle_events, handle_key, toggle_sort, Action, Key, KeyCode};
use proc_dash::proc_info::{GpuProcessInfo, NpuProcessInfo, ProcCollector, ProcessInfo};
use proc_dash::types::{InputMode, Signal, SortColumn, SortDir, Tab};
use std::collections::VecDeque;

fn proc(pid: u32, ppid: u32, name: &str, uid: u32, cpu: u64) -> ProcessInfo {
    ProcessInfo {
        pid,
        ppid,
        user: "u".to_string(),
        name: name.to_string(),
        state: 'R',
        cpu_ticks: cpu,
        cpu_total_ticks: 100,
        mem_total_kb: 1000,
        rss_kb: 4,
        start_time: 0,
        utime: 0,
        stime: 0,
        runtime_secs: 0,
        uid,
        children: Vec::new(),
    }
}

fn app_with(procs: Vec<ProcessInfo>) -> App {
    let mut app = App::new(1000, ProcCollector::new(100, 0));
    app.tick(procs, Vec::new(), Vec::new());
    app
}

fn key(c: char) -> Key {
    Key { code: KeyCode::Char(c), ctrl: false }
}

fn code(k: KeyCode) -> Key {
    Key { code: k, ctrl: false }
}

fn press(app: &mut App, k: Key) -> Action {
    handle_events(app, Some(k)).1
}

fn pids(app: &App) -> Vec<u32> {
    app.processes.iter().map(|p| p.pid).collect()
}

#[test]
fn new_dashboard() {
    let app = App::new(1000, ProcCollector::new(100, 0));
    assert_eq!(app.tab, Tab::Processes);
    assert_eq!(app.sort_col, SortColumn::Cpu);
    assert_eq!(app.sort_dir, SortDir::Desc);
    assert_eq!(app.selected, 0);
    assert_eq!(app.input_mode, InputMode::Normal);
    assert!(!app.tree_view && !app.show_graphs && !app.quit);
    assert!(app.status_msg.is_none());
    assert_eq!(app.my_uid, 1000);
    assert_eq!(app.visible_len(), 0);
    assert_eq!(app.selected_pid(), None);
}

#[test]
fn tick_sorts_by_cpu_and_clamps_selection() {
    let mut app = app_with(vec![proc(1, 0, "a", 1000, 5), proc(2, 0, "b", 1000, 50), proc(3, 0, "c", 1000, 20)]);
    assert_eq!(pids(&app), vec![2, 3, 1]);
    app.selected = 2;
    app.tick(vec![proc(9, 0, "z", 1000, 1)], Vec::new(), Vec::new());
    assert_eq!(app.selected, 0);
    app.tick(Vec::new(), Vec::new(), Vec::new());
    assert_eq!(app.selected, 0);
    assert_eq!(app.selected_pid(), None);
}

#[test]
fn tick_applies_filter_and_tree() {
    let mut app = App::new(1000, ProcCollector::new(100, 0));
    app.filter_text = "FIRE".to_string();
    app.tree_view = true;
    app.tick(
        vec![proc(10, 1, "firefox", 1000, 1), proc(11, 10, "Firefox-child", 1000, 2), proc(12, 1, "bash", 1000, 3)],
        Vec::new(),
        Vec::new(),
    );
    assert_eq!(pids(&app), vec![11, 10]);
    assert_eq!(app.processes[1].children, vec![11]);
    assert!(app.processes[0].children.is_empty());
}

#[test]
fn navigation_keys() {
    let procs: Vec<ProcessInfo> = (1..=30).map(|i| proc(i, 0, "p", 1000, 100 - i as u64)).collect();
    let mut app = app_with(procs);
    press(&mut app, key('j'));
    press(&mut app, code(KeyCode::Down));
    assert_eq!(app.selected, 2);
    press(&mut app, key('k'));
    assert_eq!(app.selected, 1);
    press(&mut app, code(KeyCode::PageDown));
    assert_eq!(app.selected, 21);
    press(&mut app, code(KeyCode::PageDown));
    assert_eq!(app.selected, 29);
    press(&mut app, code(KeyCode::Down));
    assert_eq!(app.selected, 29);
    press(&mut app, code(KeyCode::PageUp));
    assert_eq!(app.selected, 9);
    press(&mut app, code(KeyCode::PageUp));
    assert_eq!(app.selected, 0);
    press(&mut app, code(KeyCode::Up));
    assert_eq!(app.selected, 0);
    press(&mut app, code(KeyCode::End));
    assert_eq!(app.selected, 29);
    press(&mut app, code(KeyCode::Home));
    assert_eq!(app.selected, 0);
    app.move_down();
    app.page_down();
    app.move_up();
    app.page_up();
    assert_eq!(app.selected, 0);
}

#[test]
fn tabs_cycle() {
    let mut app = app_with(vec![proc(1, 0, "a", 1000, 1), proc(2, 0, "b", 1000, 2)]);
    app.selected = 1;
    app.scroll_offset = 3;
    press(&mut app, code(KeyCode::Tab));
    assert_eq!(app.tab, Tab::Gpu);
    assert_eq!((app.selected, app.scroll_offset), (0, 0));
    press(&mut app, code(KeyCode::Tab));
    assert_eq!(app.tab, Tab::Npu);
    press(&mut app, code(KeyCode::Tab));
    assert_eq!(app.tab, Tab::Processes);
    press(&mut app, code(KeyCode::BackTab));
    assert_eq!(app.tab, Tab::Npu);
    app.prev_tab();
    assert_eq!(app.tab, Tab::Gpu);
    app.next_tab();
    assert_eq!(app.tab, Tab::Npu);
    press(&mut app, code(KeyCode::F(1)));
    assert_eq!(app.tab, Tab::Processes);
    press(&mut app, code(KeyCode::F(2)));
    assert_eq!(app.tab, Tab::Gpu);
    press(&mut app, code(KeyCode::F(3)));
    assert_eq!(app.tab, Tab::Npu);
    press(&mut app, code(KeyCode::F(4)));
    assert_eq!(app.tab, Tab::Npu);
}

#[test]
fn sort_keys_toggle() {
    let mut app = app_with(vec![proc(1, 0, "a", 1000, 1)]);
    press(&mut app, key('1'));
    assert_eq!((app.sort_col, app.sort_dir), (SortColumn::Pid, SortDir::Asc));
    press(&mut app, key('1'));
    assert_eq!((app.sort_col, app.sort_dir), (SortColumn::Pid, SortDir::Desc));
    press(&mut app, key('1'));
    assert_eq!((app.sort_col, app.sort_dir), (SortColumn::Pid, SortDir::Asc));
    press(&mut app, key('6'));
    assert_eq!((app.sort_col, app.sort_dir), (SortColumn::Rss, SortDir::Desc));
    press(&mut app, key('2'));
    assert_eq!((app.sort_col, app.sort_dir), (SortColumn::User, SortDir::Asc));
    press(&mut app, key('3'));
    assert_eq!((app.sort_col, app.sort_dir), (SortColumn::Name, SortDir::Asc));
    press(&mut app, key('4'));
    assert_eq!((app.sort_col, app.sort_dir), (SortColumn::Cpu, SortDir::Desc));
    press(&mut app, key('5'));
    assert_eq!((app.sort_col, app.sort_dir), (SortColumn::Mem, SortDir::Desc));
    press(&mut app, key('7'));
    assert_eq!((app.sort_col, app.sort_dir), (SortColumn::State, SortDir::Asc));
    press(&mut app, key('8'));
    assert_eq!((app.sort_col, app.sort_dir), (SortColumn::Runtime, SortDir::Desc));
    toggle_sort(&mut app, SortColumn::Runtime);
    assert_eq!(app.sort_dir, SortDir::Asc);
}

#[test]
fn filter_prompt() {
    let mut app = app_with(vec![proc(1, 0, "a", 1000, 1)]);
    app.filter_text = "old".to_string();
    press(&mut app, key('/'));
    assert_eq!(app.input_mode, InputMode::Filter);
    assert_eq!(app.filter_text, "");
    press(&mut app, key('f'));
    press(&mut app, key('x'));
    assert_eq!(app.filter_text, "fx");
    press(&mut app, code(KeyCode::Backspace));
    assert_eq!(app.filter_text, "f");
    press(&mut app, code(KeyCode::Backspace));
    press(&mut app, code(KeyCode::Backspace));
    assert_eq!(app.filter_text, "");
    press(&mut app, key('q'));
    assert!(!app.quit);
    press(&mut app, code(KeyCode::Enter));
    assert_eq!(app.input_mode, InputMode::Normal);
    assert_eq!(app.filter_text, "q");
    press(&mut app, key('/'));
    press(&mut app, key('z'));
    press(&mut app, code(KeyCode::Esc));
    assert_eq!(app.input_mode, InputMode::Normal);
    assert_eq!(app.filter_text, "");
}

#[test]
fn toggles_and_quit() {
    let mut app = app_with(vec![proc(1, 0, "a", 1000, 1)]);
    press(&mut app, key('t'));
    press(&mut app, key('g'));
    assert!(app.tree_view && app.show_graphs);
    press(&mut app, key('t'));
    assert!(!app.tree_view);
    press(&mut app, key('Q'));
    assert!(app.quit);
    let mut app = app_with(vec![]);
    press(&mut app, Key { code: KeyCode::Char('c'), ctrl: true });
    assert!(app.quit);
    let mut app = app_with(vec![]);
    press(&mut app, key('c'));
    assert!(!app.quit);
    press(&mut app, key('q'));
    assert!(app.quit);
}

#[test]
fn no_key_changes_nothing() {
    let mut app = app_with(vec![proc(1, 0, "a", 1000, 1)]);
    app.status_msg = Some("kept".to_string());
    let (had, action) = handle_events(&mut app, None);
    assert!(!had);
    assert!(matches!(action, Action::Nothing));
    assert_eq!(app.status_msg.as_deref(), Some("kept"));
    let (had, _) = handle_events(&mut app, Some(key('x')));
    assert!(had);
    assert!(app.status_msg.is_none());
}

#[test]
fn prompts_need_a_selected_row() {
    let mut app = app_with(vec![]);
    press(&mut app, key('K'));
    press(&mut app, key('s'));
    press(&mut app, key('r'));
    assert_eq!(app.input_mode, InputMode::Normal);
}

#[test]
fn kill_confirmation_asks_for_comm_check() {
    let mut app = app_with(vec![proc(42, 1, "victim", 1000, 1)]);
    press(&mut app, key('K'));
    assert_eq!(app.input_mode, InputMode::KillConfirm);
    press(&mut app, key('x'));
    assert_eq!(app.input_mode, InputMode::KillConfirm);
    match press(&mut app, key('y')) {
        Action::CheckComm { pid, expected, signal } => {
            assert_eq!(pid, 42);
            assert_eq!(expected, "victim");
            assert_eq!(signal, Signal::Kill);
        }
        _ => panic!("expected a comm check"),
    }
    assert!(app.comm_checked(42, "victim", Some("victim\n".to_string())));
    app.signal_result(42, Signal::Kill, Ok(()));
    assert_eq!(app.status_msg.as_deref(), Some("Sent SIGKILL (9) to PID 42"));
    assert_eq!(app.input_mode, InputMode::Normal);
    press(&mut app, key('K'));
    press(&mut app, key('n'));
    assert_eq!(app.input_mode, InputMode::Normal);
    press(&mut app, key('K'));
    press(&mut app, code(KeyCode::Esc));
    assert_eq!(app.input_mode, InputMode::Normal);
}

#[test]
fn comm_check_outcomes() {
    let mut app = app_with(vec![proc(42, 1, "victim", 1000, 1)]);
    app.input_mode = InputMode::KillConfirm;
    assert!(!app.comm_checked(42, "victim", Some("other\n".to_string())));
    assert_eq!(app.status_msg.as_deref(), Some("Process changed, signal not sent."));
    assert_eq!(app.input_mode, InputMode::Normal);
    app.input_mode = InputMode::SignalMenu;
    assert!(!app.comm_checked(42, "victim", None));
    assert_eq!(app.status_msg.as_deref(), Some("PID 42 no longer exists, signal not sent."));
    assert_eq!(app.input_mode, InputMode::Normal);
    app.signal_result(42, Signal::Term, Err("EPERM: Operation not permitted".to_string()));
    assert_eq!(app.status_msg.as_deref(), Some("Failed to signal PID 42: EPERM: Operation not permitted"));
}

#[test]
fn signal_menu() {
    let mut app = app_with(vec![proc(42, 1, "victim", 1000, 1)]);
    app.signal_menu_idx = 3;
    press(&mut app, key('s'));
    assert_eq!(app.input_mode, InputMode::SignalMenu);
    assert_eq!(app.signal_menu_idx, 0);
    press(&mut app, code(KeyCode::Up));
    assert_eq!(app.signal_menu_idx, 0);
    for _ in 0..7 {
        press(&mut app, key('j'));
    }
    assert_eq!(app.signal_menu_idx, 4);
    press(&mut app, key('k'));
    press(&mut app, code(KeyCode::Up));
    press(&mut app, code(KeyCode::Down));
    assert_eq!(app.signal_menu_idx, 3);
    match press(&mut app, code(KeyCode::Enter)) {
        Action::CheckComm { pid, signal, .. } => {
            assert_eq!(pid, 42);
            assert_eq!(signal, Signal::Cont);
        }
        _ => panic!("expected a comm check"),
    }
    press(&mut app, code(KeyCode::Esc));
    assert_eq!(app.input_mode, InputMode::Normal);
}

#[test]
fn signals_only_for_own_processes() {
    let mut app = app_with(vec![proc(42, 1, "other", 0, 1)]);
    press(&mut app, key('K'));
    let a = press(&mut app, key('y'));
    assert!(matches!(a, Action::Nothing));
    assert_eq!(app.status_msg.as_deref(), Some("Cannot signal PID 42 — not owned by you"));
    assert_eq!(app.input_mode, InputMode::KillConfirm);
    assert!(!app.can_signal(42));
    let mut root = App::new(0, ProcCollector::new(100, 0));
    root.tick(vec![proc(42, 1, "other", 1000, 1)], Vec::new(), Vec::new());
    assert!(root.can_signal(42));
}

#[test]
fn signals_from_other_tabs_look_up_the_process_table() {
    let mut app = App::new(1000, ProcCollector::new(100, 0));
    app.tick(
        vec![proc(7, 1, "mine", 1000, 1), proc(8, 1, "theirs", 0, 1)],
        vec![GpuProcessInfo { pid: 8, name: "theirs".to_string(), vram_kb: 1, gtt_kb: 0 }],
        vec![NpuProcessInfo { pid: 7, name: "mine".to_string(), fd_path: "/dev/accel/accel0".to_string() }],
    );
    press(&mut app, code(KeyCode::F(2)));
    assert_eq!(app.selected_pid(), Some(8));
    assert!(!app.can_signal(8));
    assert!(matches!(app.send_signal(Signal::Term), Action::Nothing));
    press(&mut app, code(KeyCode::F(3)));
    assert_eq!(app.selected_pid(), Some(7));
    assert_eq!(app.selected_name().as_deref(), Some("mine"));
    assert!(app.selected_process().is_none());
    match app.send_signal(Signal::Hup) {
        Action::CheckComm { pid, expected, signal } => {
            assert_eq!((pid, expected.as_str(), signal), (7, "mine", Signal::Hup));
        }
        _ => panic!("expected a comm check"),
    }
}

#[test]
fn renice_prompt() {
    let mut app = app_with(vec![proc(42, 1, "victim", 1000, 1)]);
    press(&mut app, key('r'));
    assert_eq!(app.input_mode, InputMode::ReniceInput);
    for c in ['-', 'a', '5', ' '] {
        press(&mut app, key(c));
    }
    assert_eq!(app.renice_text, "-5");
    match press(&mut app, code(KeyCode::Enter)) {
        Action::Renice { pid, nice } => assert_eq!((pid, nice), (42, -5)),
        _ => panic!("expected a renice"),
    }
    assert_eq!(app.renice_text, "");
    assert_eq!(app.input_mode, InputMode::Normal);
    app.renice_result(42, -5, Ok(()));
    assert_eq!(app.status_msg.as_deref(), Some("Set nice -5 for PID 42"));
    app.renice_result(42, 5, Err("13".to_string()));
    assert_eq!(app.status_msg.as_deref(), Some("Failed to renice PID 42: errno 13"));

    press(&mut app, key('r'));
    press(&mut app, key('-'));
    press(&mut app, key('-'));
    assert!(matches!(press(&mut app, code(KeyCode::Enter)), Action::Nothing));
    assert_eq!(app.status_msg.as_deref(), Some("Invalid nice value"));
    assert_eq!(app.input_mode, InputMode::Normal);

    press(&mut app, key('r'));
    press(&mut app, key('1'));
    press(&mut app, code(KeyCode::Backspace));
    press(&mut app, key('2'));
    assert_eq!(app.renice_text, "2");
    press(&mut app, code(KeyCode::Esc));
    assert_eq!(app.renice_text, "");
    assert_eq!(app.input_mode, InputMode::Normal);
}

#[test]
fn renice_refused_for_other_users() {
    let mut app = app_with(vec![proc(42, 1, "other", 0, 1)]);
    app.input_mode = InputMode::ReniceInput;
    app.renice_text = "5".to_string();
    assert!(matches!(app.do_renice(), Action::Nothing));
    assert_eq!(app.status_msg.as_deref(), Some("Cannot renice PID 42 — not owned by you"));
    assert_eq!(app.input_mode, InputMode::Normal);
    assert_eq!(app.renice_text, "5");
}

#[test]
fn handle_key_keeps_status() {
    let mut app = app_with(vec![proc(1, 0, "a", 1000, 1)]);
    app.status_msg = Some("s".to_string());
    let a = handle_key(&mut app, key('t'));
    assert!(matches!(a, Action::Nothing));
    assert_eq!(app.status_msg.as_deref(), Some("s"));
    assert!(app.tree_view);
}

#[test]
fn history_keeps_the_newest_samples() {
    let mut h: VecDeque<u64> = VecDeque::new();
    for i in 0..(HISTORY_LEN as u64 + 5) {
        push_history(&mut h, i);
        assert!(h.len() <= HISTORY_LEN);
        assert_eq!(*h.back().unwrap(), i);
    }
    assert_eq!(h.len(), HISTORY_LEN);
    assert_eq!(*h.front().unwrap(), 5);
    assert_eq!(HISTORY_LEN, 120);
}

#[test]
fn signals_and_labels() {
    let all = Signal::all();
    assert_eq!(all, &[Signal::Term, Signal::Kill, Signal::Stop, Signal::Cont, Signal::Hup]);
    let labels: Vec<&str> = all.iter().map(|s| s.label()).collect();
    assert_eq!(labels, vec!["SIGTERM (15)", "SIGKILL (9)", "SIGSTOP (19)", "SIGCONT (18)", "SIGHUP (1)"]);
}

#[test]
fn menu_index_past_the_entries_only_matters_on_enter() {
    let mut app = app_with(vec![proc(42, 1, "victim", 1000, 1)]);
    app.signal_menu_idx = 9;
    press(&mut app, key('j'));
    assert_eq!(app.signal_menu_idx, 9);
    app.input_mode = InputMode::SignalMenu;
    press(&mut app, key('j'));
    assert_eq!(app.signal_menu_idx, 9);
    press(&mut app, code(KeyCode::Up));
    assert_eq!(app.signal_menu_idx, 8);
    press(&mut app, code(KeyCode::Esc));
    assert_eq!(app.input_mode, InputMode::Normal);
}

#[test]
fn page_down_wraps_past_the_largest_index() {
    let procs: Vec<ProcessInfo> = (1..=30).map(|i| proc(i, 0, "p", 1000, 100 - i as u64)).collect();
    let mut app = app_with(procs);
    app.selected = usize::MAX - 5;
    app.page_down();
    assert_eq!(app.selected, 14);
    app.selected = usize::MAX;
    press(&mut app, code(KeyCode::PageDown));
    assert_eq!(app.selected, 19);
}

#[test]
fn turns_after_the_keyboard() {
    assert_eq!(TICK_MS, 500);
    assert_eq!(next_turn(true, 0), Turn::Stop);
    assert_eq!(next_turn(true, 900), Turn::Stop);
    assert_eq!(next_turn(false, 499), Turn::Wait);
    assert_eq!(next_turn(false, 500), Turn::Tick);
    assert_eq!(next_turn(false, u64::MAX), Turn::Tick);
}

#[test]
fn signal_numbers_match_their_labels() {
    let numbers: Vec<i32> = Signal::all().iter().map(|s| s.number()).collect();
    assert_eq!(numbers, vec![15, 9, 19, 18, 1]);
    for s in Signal::all() {
        assert!(s.label().ends_with(&format!("({})", s.number())));
    }
}

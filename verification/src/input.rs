use vstd::prelude::*;
use crate::app::{App, AppView, may_signal, selected_name, selected_pid, selection_valid, tab_after, tab_before, visible_len};
use crate::proc_info::opt_view;
use crate::text::{
    chars_of, dec, dec_signed, i32_to_string, parse_i32_chars, parse_signed32, pop_char,
    push_char, string_from, trim, trim_chars, u64_to_string,
};
use crate::types::{InputMode, Signal, SortColumn, SortDir, Tab, all_signals, signal_label};

verus! {

/// A key, as the dashboard tells keys apart.
#[derive(Clone, Copy, PartialEq, Eq, Structural, Debug)]
pub enum KeyCode {
    Char(char),
    Up,
    Down,
    PageUp,
    PageDown,
    Home,
    End,
    Tab,
    BackTab,
    F(u8),
    Esc,
    Enter,
    Backspace,
    Other,
}

/// A key press: the key, and whether Control was held.
#[derive(Clone, Copy, PartialEq, Eq, Structural, Debug)]
pub struct Key {
    pub code: KeyCode,
    pub ctrl: bool,
}

/// What the dashboard asks to be done outside it after a key.
pub enum Action {
    /// Nothing.
    Nothing,
    /// Read the `comm` text of `pid` and compare it with `expected` before
    /// sending `signal` (see `App::comm_checked`).
    CheckComm { pid: u32, expected: String, signal: Signal },
    /// Set the nice value of `pid` to `nice` (see `App::renice_result`).
    Renice { pid: u32, nice: i32 },
}

/// An action with its text as a sequence.
pub enum ActionView {
    Nothing,
    CheckComm { pid: u32, expected: Seq<char>, signal: Signal },
    Renice { pid: u32, nice: i32 },
}

impl View for Action {
    type V = ActionView;

    open spec fn view(&self) -> ActionView {
        match self {
            Action::Nothing => ActionView::Nothing,
            Action::CheckComm { pid, expected, signal } => ActionView::CheckComm {
                pid: *pid,
                expected: expected@,
                signal: *signal,
            },
            Action::Renice { pid, nice } => ActionView::Renice { pid: *pid, nice: *nice },
        }
    }
}

/// The direction a column is first sorted in: ascending for the user, the
/// name, the state and the id, descending for the others.
pub open spec fn default_dir(col: SortColumn) -> SortDir {
    match col {
        SortColumn::User | SortColumn::Name | SortColumn::State | SortColumn::Pid => SortDir::Asc,
        _ => SortDir::Desc,
    }
}

/// The other direction.
pub open spec fn flipped(d: SortDir) -> SortDir {
    match d {
        SortDir::Asc => SortDir::Desc,
        SortDir::Desc => SortDir::Asc,
    }
}

/// Asking to sort by `col`: the current column flips direction; another
/// column becomes the sort column in its default direction.
pub open spec fn toggled_sort(v: AppView, col: SortColumn) -> AppView {
    if v.sort_col == col {
        AppView { sort_dir: flipped(v.sort_dir), ..v }
    } else {
        AppView { sort_col: col, sort_dir: default_dir(col), ..v }
    }
}

/// The column that digit key `c` sorts by, if it is one of `1` to `8`.
pub open spec fn digit_column(c: char) -> Option<SortColumn> {
    if c == '1' {
        Some(SortColumn::Pid)
    } else if c == '2' {
        Some(SortColumn::User)
    } else if c == '3' {
        Some(SortColumn::Name)
    } else if c == '4' {
        Some(SortColumn::Cpu)
    } else if c == '5' {
        Some(SortColumn::Mem)
    } else if c == '6' {
        Some(SortColumn::Rss)
    } else if c == '7' {
        Some(SortColumn::State)
    } else if c == '8' {
        Some(SortColumn::Runtime)
    } else {
        None
    }
}

/// The selection one row up, unless on the first row.
pub open spec fn moved_up(v: AppView) -> AppView {
    AppView { selected: if v.selected > 0 { (v.selected - 1) as usize } else { v.selected }, ..v }
}

/// The selection one row down, unless on the last row.
pub open spec fn moved_down(v: AppView) -> AppView {
    AppView {
        selected: if visible_len(v) > 0 && v.selected < visible_len(v) - 1 {
            (v.selected + 1) as usize
        } else {
            v.selected
        },
        ..v
    }
}

/// The selection twenty rows down, stopping at the last row; the addition
/// wraps as a release build's does.
pub open spec fn paged_down(v: AppView) -> AppView {
    AppView {
        selected: if visible_len(v) > 0 {
            let next = v.selected.wrapping_add(20);
            if next <= visible_len(v) - 1 {
                next
            } else {
                (visible_len(v) - 1) as usize
            }
        } else {
            v.selected
        },
        ..v
    }
}

/// A key in the tables: quitting (`q`, `Q`, Ctrl-C), moving the selection
/// (arrows, `k`, `j`, page keys, Home, End), switching tabs (Tab, BackTab,
/// F1 to F3), sorting (`1` to `8`), opening the filter prompt (`/`, with an
/// empty filter), toggling the tree (`t`) and the graphs (`g`), and, when a
/// row is selected, opening the kill confirmation (`K`), the signal menu
/// (`s`, on its first entry) or the nice prompt (`r`, empty).
pub open spec fn normal_step(v: AppView, k: Key) -> AppView {
    if k.ctrl && k.code == KeyCode::Char('c') {
        AppView { quit: true, ..v }
    } else {
        match k.code {
            KeyCode::Char(c) => {
                if c == 'q' || c == 'Q' {
                    AppView { quit: true, ..v }
                } else if c == 'k' {
                    moved_up(v)
                } else if c == 'j' {
                    moved_down(v)
                } else if digit_column(c) is Some {
                    toggled_sort(v, digit_column(c)->0)
                } else if c == '/' {
                    AppView { input_mode: InputMode::Filter, filter_text: Seq::empty(), ..v }
                } else if c == 't' {
                    AppView { tree_view: !v.tree_view, ..v }
                } else if c == 'g' {
                    AppView { show_graphs: !v.show_graphs, ..v }
                } else if c == 'K' {
                    if selected_pid(v) is Some {
                        AppView { input_mode: InputMode::KillConfirm, ..v }
                    } else {
                        v
                    }
                } else if c == 's' {
                    if selected_pid(v) is Some {
                        AppView { input_mode: InputMode::SignalMenu, signal_menu_idx: 0, ..v }
                    } else {
                        v
                    }
                } else if c == 'r' {
                    if selected_pid(v) is Some {
                        AppView { input_mode: InputMode::ReniceInput, renice_text: Seq::empty(), ..v }
                    } else {
                        v
                    }
                } else {
                    v
                }
            },
            KeyCode::Up => moved_up(v),
            KeyCode::Down => moved_down(v),
            KeyCode::PageUp => AppView {
                selected: if v.selected >= 20 { (v.selected - 20) as usize } else { 0 },
                ..v
            },
            KeyCode::PageDown => paged_down(v),
            KeyCode::Home => AppView { selected: 0, ..v },
            KeyCode::End => if visible_len(v) > 0 {
                AppView { selected: (visible_len(v) - 1) as usize, ..v }
            } else {
                v
            },
            KeyCode::Tab => AppView {
                tab: crate::app::tab_after(v.tab),
                selected: 0,
                scroll_offset: 0,
                ..v
            },
            KeyCode::BackTab => AppView {
                tab: crate::app::tab_before(v.tab),
                selected: 0,
                scroll_offset: 0,
                ..v
            },
            KeyCode::F(n) => if n == 1 {
                AppView { tab: Tab::Processes, selected: 0, ..v }
            } else if n == 2 {
                AppView { tab: Tab::Gpu, selected: 0, ..v }
            } else if n == 3 {
                AppView { tab: Tab::Npu, selected: 0, ..v }
            } else {
                v
            },
            _ => v,
        }
    }
}

/// A key in the filter prompt: Esc leaves it and clears the filter, Enter
/// leaves it keeping the filter, Backspace removes the last character, and
/// a character is added.
pub open spec fn filter_step(v: AppView, k: Key) -> AppView {
    match k.code {
        KeyCode::Esc => AppView { input_mode: InputMode::Normal, filter_text: Seq::empty(), ..v },
        KeyCode::Enter => AppView { input_mode: InputMode::Normal, ..v },
        KeyCode::Backspace => AppView {
            filter_text: if v.filter_text.len() > 0 {
                v.filter_text.drop_last()
            } else {
                v.filter_text
            },
            ..v
        },
        KeyCode::Char(c) => AppView { filter_text: v.filter_text.push(c), ..v },
        _ => v,
    }
}

/// The status shown when the selected process is not the user's.
pub open spec fn not_owned_msg(verb: Seq<char>, pid: u32) -> Seq<char> {
    "Cannot "@ + verb + " PID "@ + dec(pid as nat) + " — not owned by you"@
}

/// Asking to send `sig` to the selected process: without a selected row the
/// prompt closes; when the process is not the user's the status says so
/// and the prompt stays; otherwise its `comm` text is to be checked against
/// the name shown (see `comm_checked`).
pub open spec fn signal_request(v: AppView, sig: Signal) -> (AppView, ActionView) {
    match selected_pid(v) {
        None => (AppView { input_mode: InputMode::Normal, ..v }, ActionView::Nothing),
        Some(pid) => if !may_signal(v, pid) {
            (AppView { status_msg: Some(not_owned_msg("signal"@, pid)), ..v }, ActionView::Nothing)
        } else {
            (v, ActionView::CheckComm { pid, expected: selected_name(v)->0, signal: sig })
        },
    }
}

/// Asking to apply the typed nice value to the selected process: when the
/// process is not the user's the status says so and the prompt closes, its
/// text kept; otherwise the trimmed text must read as an `i32`, which is to
/// be applied (or the status says it is invalid); either way the text is
/// cleared and the prompt closes.
pub open spec fn renice_request(v: AppView) -> (AppView, ActionView) {
    match selected_pid(v) {
        None => (
            AppView { renice_text: Seq::empty(), input_mode: InputMode::Normal, ..v },
            ActionView::Nothing,
        ),
        Some(pid) => if !may_signal(v, pid) {
            (
                AppView {
                    status_msg: Some(not_owned_msg("renice"@, pid)),
                    input_mode: InputMode::Normal,
                    ..v
                },
                ActionView::Nothing,
            )
        } else {
            match parse_signed32(trim(v.renice_text)) {
                Some(n) => (
                    AppView { renice_text: Seq::empty(), input_mode: InputMode::Normal, ..v },
                    ActionView::Renice { pid, nice: n as i32 },
                ),
                None => (
                    AppView {
                        status_msg: Some("Invalid nice value"@),
                        renice_text: Seq::empty(),
                        input_mode: InputMode::Normal,
                        ..v
                    },
                    ActionView::Nothing,
                ),
            }
        },
    }
}

/// A key in the kill confirmation: `y` or `Y` asks to send SIGKILL; `n`,
/// `N` or Esc closes it.
pub open spec fn kill_confirm_step(v: AppView, k: Key) -> (AppView, ActionView) {
    match k.code {
        KeyCode::Char(c) => if c == 'y' || c == 'Y' {
            signal_request(v, Signal::Kill)
        } else if c == 'n' || c == 'N' {
            (AppView { input_mode: InputMode::Normal, ..v }, ActionView::Nothing)
        } else {
            (v, ActionView::Nothing)
        },
        KeyCode::Esc => (AppView { input_mode: InputMode::Normal, ..v }, ActionView::Nothing),
        _ => (v, ActionView::Nothing),
    }
}

/// A key in the signal menu: Esc closes it, up (`k`) and down (`j`) move
/// within the five entries, Enter asks to send the chosen signal.
pub open spec fn signal_menu_step(v: AppView, k: Key) -> (AppView, ActionView) {
    match k.code {
        KeyCode::Esc => (AppView { input_mode: InputMode::Normal, ..v }, ActionView::Nothing),
        KeyCode::Up => (
            AppView {
                signal_menu_idx: if v.signal_menu_idx > 0 {
                    (v.signal_menu_idx - 1) as usize
                } else {
                    v.signal_menu_idx
                },
                ..v
            },
            ActionView::Nothing,
        ),
        KeyCode::Down => (
            AppView {
                signal_menu_idx: if v.signal_menu_idx < 4 {
                    (v.signal_menu_idx + 1) as usize
                } else {
                    v.signal_menu_idx
                },
                ..v
            },
            ActionView::Nothing,
        ),
        KeyCode::Char(c) => if c == 'k' {
            (
                AppView {
                    signal_menu_idx: if v.signal_menu_idx > 0 {
                        (v.signal_menu_idx - 1) as usize
                    } else {
                        v.signal_menu_idx
                    },
                    ..v
                },
                ActionView::Nothing,
            )
        } else if c == 'j' {
            (
                AppView {
                    signal_menu_idx: if v.signal_menu_idx < 4 {
                        (v.signal_menu_idx + 1) as usize
                    } else {
                        v.signal_menu_idx
                    },
                    ..v
                },
                ActionView::Nothing,
            )
        } else {
            (v, ActionView::Nothing)
        },
        KeyCode::Enter => signal_request(v, all_signals()[v.signal_menu_idx as int]),
        _ => (v, ActionView::Nothing),
    }
}

/// A key in the nice prompt: Esc closes it and clears the text, Enter asks
/// to apply it, Backspace removes the last character, and a digit or `-` is
/// added.
pub open spec fn renice_step(v: AppView, k: Key) -> (AppView, ActionView) {
    match k.code {
        KeyCode::Esc => (
            AppView { input_mode: InputMode::Normal, renice_text: Seq::empty(), ..v },
            ActionView::Nothing,
        ),
        KeyCode::Enter => renice_request(v),
        KeyCode::Backspace => (
            AppView {
                renice_text: if v.renice_text.len() > 0 {
                    v.renice_text.drop_last()
                } else {
                    v.renice_text
                },
                ..v
            },
            ActionView::Nothing,
        ),
        KeyCode::Char(c) => if ('0' <= c <= '9') || c == '-' {
            (AppView { renice_text: v.renice_text.push(c), ..v }, ActionView::Nothing)
        } else {
            (v, ActionView::Nothing)
        },
        _ => (v, ActionView::Nothing),
    }
}

/// Whether `k` sends the signal chosen in the signal menu.
pub open spec fn picks_signal(mode: InputMode, k: Key) -> bool {
    mode == InputMode::SignalMenu && k.code == KeyCode::Enter
}

/// A key in whichever mode the keyboard drives.
pub open spec fn mode_step(v: AppView, k: Key) -> (AppView, ActionView) {
    match v.input_mode {
        InputMode::Normal => (normal_step(v, k), ActionView::Nothing),
        InputMode::Filter => (filter_step(v, k), ActionView::Nothing),
        InputMode::KillConfirm => kill_confirm_step(v, k),
        InputMode::SignalMenu => signal_menu_step(v, k),
        InputMode::ReniceInput => renice_step(v, k),
    }
}

/// A key press: the status message is cleared, then the key is handled in
/// the current mode.
pub open spec fn key_step(v: AppView, k: Key) -> (AppView, ActionView) {
    mode_step(AppView { status_msg: None, ..v }, k)
}


fn not_owned_message(verb: &str, pid: u32) -> (res: String)
    ensures
        res@ == not_owned_msg(verb@, pid),
{
    let mut m = string_from("Cannot ");
    m.append(verb);
    m.append(" PID ");
    m.append(u64_to_string(pid as u64).as_str());
    m.append(" — not owned by you");
    m
}

/// Asks to sort by `col` (see `toggled_sort`).
pub fn toggle_sort(app: &mut App, col: SortColumn)
    ensures
        final(app)@ == toggled_sort(old(app)@, col),
{
    if app.sort_col == col {
        app.sort_dir = match app.sort_dir {
            SortDir::Asc => SortDir::Desc,
            SortDir::Desc => SortDir::Asc,
        };
    } else {
        app.sort_col = col;
        app.sort_dir = match col {
            SortColumn::User | SortColumn::Name | SortColumn::State | SortColumn::Pid => SortDir::Asc,
            _ => SortDir::Desc,
        };
    }
}

/// Handles a key in the tables (see `normal_step`).
pub fn handle_normal(app: &mut App, key: Key)
    ensures
        final(app)@ == normal_step(old(app)@, key),
{
    if key.ctrl && key.code == KeyCode::Char('c') {
        app.quit = true;
        return;
    }
    match key.code {
        KeyCode::Char(c) => {
            if c == 'q' || c == 'Q' {
                app.quit = true;
            } else if c == 'k' {
                app.move_up();
            } else if c == 'j' {
                app.move_down();
            } else if c == '1' {
                toggle_sort(app, SortColumn::Pid);
            } else if c == '2' {
                toggle_sort(app, SortColumn::User);
            } else if c == '3' {
                toggle_sort(app, SortColumn::Name);
            } else if c == '4' {
                toggle_sort(app, SortColumn::Cpu);
            } else if c == '5' {
                toggle_sort(app, SortColumn::Mem);
            } else if c == '6' {
                toggle_sort(app, SortColumn::Rss);
            } else if c == '7' {
                toggle_sort(app, SortColumn::State);
            } else if c == '8' {
                toggle_sort(app, SortColumn::Runtime);
            } else if c == '/' {
                app.input_mode = InputMode::Filter;
                app.filter_text = String::new();
            } else if c == 't' {
                app.tree_view = !app.tree_view;
            } else if c == 'g' {
                app.show_graphs = !app.show_graphs;
            } else if c == 'K' {
                if app.selected_pid().is_some() {
                    app.input_mode = InputMode::KillConfirm;
                }
            } else if c == 's' {
                if app.selected_pid().is_some() {
                    app.input_mode = InputMode::SignalMenu;
                    app.signal_menu_idx = 0;
                }
            } else if c == 'r' {
                if app.selected_pid().is_some() {
                    app.input_mode = InputMode::ReniceInput;
                    app.renice_text = String::new();
                }
            }
        },
        KeyCode::Up => app.move_up(),
        KeyCode::Down => app.move_down(),
        KeyCode::PageUp => app.page_up(),
        KeyCode::PageDown => app.page_down(),
        KeyCode::Home => {
            app.selected = 0;
        },
        KeyCode::End => {
            let len = app.visible_len();
            if len > 0 {
                app.selected = len - 1;
            }
        },
        KeyCode::Tab => app.next_tab(),
        KeyCode::BackTab => app.prev_tab(),
        KeyCode::F(n) => {
            if n == 1 {
                app.tab = Tab::Processes;
                app.selected = 0;
            } else if n == 2 {
                app.tab = Tab::Gpu;
                app.selected = 0;
            } else if n == 3 {
                app.tab = Tab::Npu;
                app.selected = 0;
            }
        },
        _ => {},
    }
}

/// Handles a key in the filter prompt (see `filter_step`).
pub fn handle_filter(app: &mut App, key: Key)
    ensures
        final(app)@ == filter_step(old(app)@, key),
{
    match key.code {
        KeyCode::Esc => {
            app.input_mode = InputMode::Normal;
            app.filter_text = String::new();
        },
        KeyCode::Enter => {
            app.input_mode = InputMode::Normal;
        },
        KeyCode::Backspace => {
            pop_char(&mut app.filter_text);
        },
        KeyCode::Char(c) => {
            push_char(&mut app.filter_text, c);
        },
        _ => {},
    }
}

/// Handles a key in the kill confirmation (see `kill_confirm_step`).
pub fn handle_kill_confirm(app: &mut App, key: Key) -> (res: Action)
    ensures
        (final(app)@, res@) == kill_confirm_step(old(app)@, key),
{
    match key.code {
        KeyCode::Char(c) => {
            if c == 'y' || c == 'Y' {
                app.send_signal(Signal::Kill)
            } else if c == 'n' || c == 'N' {
                app.input_mode = InputMode::Normal;
                Action::Nothing
            } else {
                Action::Nothing
            }
        },
        KeyCode::Esc => {
            app.input_mode = InputMode::Normal;
            Action::Nothing
        },
        _ => Action::Nothing,
    }
}

/// Handles a key in the signal menu (see `signal_menu_step`).
pub fn handle_signal_menu(app: &mut App, key: Key) -> (res: Action)
    requires
        key.code == KeyCode::Enter ==> old(app).signal_menu_idx < 5,
    ensures
        (final(app)@, res@) == signal_menu_step(old(app)@, key),
{
    let signals = Signal::all();
    let up = key.code == KeyCode::Up || key.code == KeyCode::Char('k');
    let down = key.code == KeyCode::Down || key.code == KeyCode::Char('j');
    if key.code == KeyCode::Esc {
        app.input_mode = InputMode::Normal;
        Action::Nothing
    } else if up {
        if app.signal_menu_idx > 0 {
            app.signal_menu_idx = app.signal_menu_idx - 1;
        }
        Action::Nothing
    } else if down {
        if app.signal_menu_idx < signals.len() - 1 {
            app.signal_menu_idx = app.signal_menu_idx + 1;
        }
        Action::Nothing
    } else if key.code == KeyCode::Enter {
        let sig = signals[app.signal_menu_idx];
        app.send_signal(sig)
    } else {
        Action::Nothing
    }
}

/// Handles a key in the nice prompt (see `renice_step`).
pub fn handle_renice(app: &mut App, key: Key) -> (res: Action)
    ensures
        (final(app)@, res@) == renice_step(old(app)@, key),
{
    match key.code {
        KeyCode::Esc => {
            app.input_mode = InputMode::Normal;
            app.renice_text = String::new();
            Action::Nothing
        },
        KeyCode::Enter => app.do_renice(),
        KeyCode::Backspace => {
            pop_char(&mut app.renice_text);
            Action::Nothing
        },
        KeyCode::Char(c) => {
            if ('0' <= c && c <= '9') || c == '-' {
                push_char(&mut app.renice_text, c);
            }
            Action::Nothing
        },
        _ => Action::Nothing,
    }
}

/// Handles a key in whichever mode the keyboard drives (see `mode_step`).
pub fn handle_key(app: &mut App, key: Key) -> (res: Action)
    requires
        picks_signal(old(app).input_mode, key) ==> old(app).signal_menu_idx < 5,
    ensures
        (final(app)@, res@) == mode_step(old(app)@, key),
{
    match app.input_mode {
        InputMode::Normal => {
            handle_normal(app, key);
            Action::Nothing
        },
        InputMode::Filter => {
            handle_filter(app, key);
            Action::Nothing
        },
        InputMode::KillConfirm => handle_kill_confirm(app, key),
        InputMode::SignalMenu => handle_signal_menu(app, key),
        InputMode::ReniceInput => handle_renice(app, key),
    }
}

/// Takes in what the keyboard gave, if anything: a key press clears the
/// status message and is handled (see `key_step`), and the result tells
/// whether there was one.
pub fn handle_events(app: &mut App, key: Option<Key>) -> (res: (bool, Action))
    requires
        match key {
            Some(k) => picks_signal(old(app).input_mode, k) ==> old(app).signal_menu_idx < 5,
            None => true,
        },
    ensures
        match key {
            Some(k) => res.0 && (final(app)@, res.1@) == key_step(old(app)@, k),
            None => !res.0 && res.1@ == ActionView::Nothing && final(app)@ == old(app)@,
        },
{
    match key {
        Some(k) => {
            app.status_msg = None;
            let a = handle_key(app, k);
            (true, a)
        },
        None => (false, Action::Nothing),
    }
}

/// The outcome of the `comm` check before a signal: a process whose trimmed
/// `comm` text differs from the name shown, or whose text could not be
/// read, is not signalled; the status says which, and the prompt closes.
pub open spec fn comm_check(v: AppView, pid: u32, expected: Seq<char>, comm: Option<Seq<char>>) -> (
    AppView,
    bool,
) {
    match comm {
        Some(c) => if trim(c) != expected {
            (
                AppView {
                    status_msg: Some("Process changed, signal not sent."@),
                    input_mode: InputMode::Normal,
                    ..v
                },
                false,
            )
        } else {
            (v, true)
        },
        None => (
            AppView {
                status_msg: Some("PID "@ + dec(pid as nat) + " no longer exists, signal not sent."@),
                input_mode: InputMode::Normal,
                ..v
            },
            false,
        ),
    }
}

/// The view of the outcome of an outside operation: its error text, if it failed.
pub open spec fn outcome_view(r: Result<(), String>) -> Option<Seq<char>> {
    match r {
        Ok(_) => None,
        Err(e) => Some(e@),
    }
}

/// The status after sending `sig` to `pid`, and the prompt closed.
pub open spec fn signal_outcome(v: AppView, pid: u32, sig: Signal, err: Option<Seq<char>>) -> AppView {
    AppView {
        status_msg: Some(
            match err {
                None => "Sent "@ + signal_label(sig) + " to PID "@ + dec(pid as nat),
                Some(e) => "Failed to signal PID "@ + dec(pid as nat) + ": "@ + e,
            },
        ),
        input_mode: InputMode::Normal,
        ..v
    }
}

/// The status after setting the nice value of `pid` to `nice`.
pub open spec fn renice_outcome(v: AppView, pid: u32, nice: i32, err: Option<Seq<char>>) -> AppView {
    AppView {
        status_msg: Some(
            match err {
                None => "Set nice "@ + dec_signed(nice as int) + " for PID "@ + dec(pid as nat),
                Some(e) => "Failed to renice PID "@ + dec(pid as nat) + ": errno "@ + e,
            },
        ),
        ..v
    }
}

impl App {
    /// Takes in the `comm` text of `pid` read before sending `signal` (see
    /// `comm_check`); the result tells whether the signal is to be sent.
    pub fn comm_checked(&mut self, pid: u32, expected: &str, comm: Option<String>) -> (res: bool)
        ensures
            (final(self)@, res) == comm_check(old(self)@, pid, expected@, opt_view(comm)),
    {
        match comm {
            Some(c) => {
                let t = trim_chars(&chars_of(c.as_str()));
                if !crate::text::chars_equal(&t, expected) {
                    self.status_msg = Some(string_from("Process changed, signal not sent."));
                    self.input_mode = InputMode::Normal;
                    false
                } else {
                    true
                }
            },
            None => {
                let mut m = string_from("PID ");
                m.append(u64_to_string(pid as u64).as_str());
                m.append(" no longer exists, signal not sent.");
                self.status_msg = Some(m);
                self.input_mode = InputMode::Normal;
                false
            },
        }
    }

    /// Takes in the outcome of sending `sig` to `pid` (see `signal_outcome`).
    pub fn signal_result(&mut self, pid: u32, sig: Signal, result: Result<(), String>)
        ensures
            final(self)@ == signal_outcome(old(self)@, pid, sig, outcome_view(result)),
    {
        let m = match result {
            Ok(()) => {
                let mut m = string_from("Sent ");
                m.append(sig.label());
                m.append(" to PID ");
                m.append(u64_to_string(pid as u64).as_str());
                m
            },
            Err(e) => {
                let mut m = string_from("Failed to signal PID ");
                m.append(u64_to_string(pid as u64).as_str());
                m.append(": ");
                m.append(e.as_str());
                m
            },
        };
        self.status_msg = Some(m);
        self.input_mode = InputMode::Normal;
    }

    /// Takes in the outcome of setting the nice value of `pid` to `nice` (see
    /// `renice_outcome`).
    pub fn renice_result(&mut self, pid: u32, nice: i32, result: Result<(), String>)
        ensures
            final(self)@ == renice_outcome(old(self)@, pid, nice, outcome_view(result)),
    {
        let m = match result {
            Ok(()) => {
                let mut m = string_from("Set nice ");
                m.append(i32_to_string(nice).as_str());
                m.append(" for PID ");
                m.append(u64_to_string(pid as u64).as_str());
                m
            },
            Err(e) => {
                let mut m = string_from("Failed to renice PID ");
                m.append(u64_to_string(pid as u64).as_str());
                m.append(": errno ");
                m.append(e.as_str());
                m
            },
        };
        self.status_msg = Some(m);
    }

    /// Asks to send `sig` to the selected process (see `signal_request`).
    pub fn send_signal(&mut self, sig: Signal) -> (res: Action)
        ensures
            (final(self)@, res@) == signal_request(old(self)@, sig),
    {
        match self.selected_pid() {
            None => {
                self.input_mode = InputMode::Normal;
                Action::Nothing
            },
            Some(pid) => {
                if !self.can_signal(pid) {
                    self.status_msg = Some(not_owned_message("signal", pid));
                    return Action::Nothing;
                }
                match self.selected_name() {
                    Some(expected) => Action::CheckComm { pid, expected, signal: sig },
                    None => Action::Nothing,
                }
            },
        }
    }

    /// Asks to apply the typed nice value to the selected process (see
    /// `renice_request`).
    pub fn do_renice(&mut self) -> (res: Action)
        ensures
            (final(self)@, res@) == renice_request(old(self)@),
    {
        let mut res = Action::Nothing;
        match self.selected_pid() {
            Some(pid) => {
                if !self.can_signal(pid) {
                    self.status_msg = Some(not_owned_message("renice", pid));
                    self.input_mode = InputMode::Normal;
                    return Action::Nothing;
                }
                match parse_i32_chars(&trim_chars(&chars_of(self.renice_text.as_str()))) {
                    Some(nice) => {
                        res = Action::Renice { pid, nice };
                    },
                    None => {
                        self.status_msg = Some(string_from("Invalid nice value"));
                    },
                }
            },
            None => {},
        }
        self.renice_text = String::new();
        self.input_mode = InputMode::Normal;
        res
    }
}


/// What every step keeps: the collected tables, a request to quit, the
/// selection on a row (or at the top of an empty table), and the signal
/// menu on one of its five entries.
pub open spec fn step_keeps(v: AppView, w: AppView) -> bool {
    &&& w.processes == v.processes
    &&& w.gpu_processes == v.gpu_processes
    &&& w.npu_processes == v.npu_processes
    &&& w.collector == v.collector
    &&& (v.quit ==> w.quit)
    &&& selection_valid(w)
    &&& w.signal_menu_idx < 5
}

proof fn lemma_normal_keeps(v: AppView, k: Key)
    requires
        selection_valid(v),
        v.signal_menu_idx < 5,
    ensures
        step_keeps(v, normal_step(v, k)),
{
}

proof fn lemma_filter_keeps(v: AppView, k: Key)
    requires
        selection_valid(v),
        v.signal_menu_idx < 5,
    ensures
        step_keeps(v, filter_step(v, k)),
{
}

proof fn lemma_requests_keep(v: AppView, sig: Signal)
    requires
        selection_valid(v),
        v.signal_menu_idx < 5,
    ensures
        step_keeps(v, signal_request(v, sig).0),
        step_keeps(v, renice_request(v).0),
{
}

proof fn lemma_prompts_keep(v: AppView, k: Key)
    requires
        selection_valid(v),
        v.signal_menu_idx < 5,
    ensures
        step_keeps(v, kill_confirm_step(v, k).0),
        step_keeps(v, signal_menu_step(v, k).0),
        step_keeps(v, renice_step(v, k).0),
{
    lemma_requests_keep(v, Signal::Kill);
    lemma_requests_keep(v, all_signals()[v.signal_menu_idx as int]);
}

/// A key never changes what was collected, never takes back a request to
/// quit, keeps the selection on a row (or at the top of an empty table),
/// and keeps the signal menu on one of its five entries.
pub proof fn law_key_keeps_state_sound(v: AppView, k: Key)
    requires
        selection_valid(v),
        v.signal_menu_idx < 5,
    ensures
        step_keeps(v, key_step(v, k).0),
{
    let u = AppView { status_msg: None, ..v };
    match u.input_mode {
        InputMode::Normal => lemma_normal_keeps(u, k),
        InputMode::Filter => lemma_filter_keeps(u, k),
        _ => lemma_prompts_keep(u, k),
    }
}

/// Asking twice to sort by the column the table is sorted by gives back the
/// same order; asking for another column sorts by it in its default
/// direction.
pub proof fn law_sort_toggle(v: AppView, col: SortColumn)
    ensures
        v.sort_col == col ==> toggled_sort(toggled_sort(v, col), col) == v,
        v.sort_col != col ==> toggled_sort(v, col).sort_col == col && toggled_sort(v, col).sort_dir
            == default_dir(col),
{
    if v.sort_col == col {
        assert(flipped(flipped(v.sort_dir)) == v.sort_dir);
    }
}

/// The tabs form a cycle: the previous tab of the next one is the tab
/// itself, and three steps forward come back to it.
pub proof fn law_tabs_cycle(t: Tab)
    ensures
        tab_before(tab_after(t)) == t,
        tab_after(tab_before(t)) == t,
        tab_after(tab_after(tab_after(t))) == t,
{
}

/// In the filter prompt, typing a character and then Backspace gives back
/// the filter as it was.
pub proof fn law_filter_backspace_undoes_typing(v: AppView, c: char, ctrl1: bool, ctrl2: bool)
    requires
        v.input_mode == InputMode::Filter,
    ensures
        ({
            let w1 = key_step(v, Key { code: KeyCode::Char(c), ctrl: ctrl1 }).0;
            let w2 = key_step(w1, Key { code: KeyCode::Backspace, ctrl: ctrl2 }).0;
            w2 == AppView { status_msg: None, ..v }
        }),
{
    let w1 = key_step(v, Key { code: KeyCode::Char(c), ctrl: ctrl1 }).0;
    assert(w1.filter_text.drop_last() =~= v.filter_text);
}

/// Esc closes every prompt and asks for nothing to be done; in the filter
/// and nice prompts it also clears the text being typed.
pub proof fn law_escape_closes_prompts(v: AppView, ctrl: bool)
    requires
        v.input_mode != InputMode::Normal,
    ensures
        ({
            let (w, a) = key_step(v, Key { code: KeyCode::Esc, ctrl });
            &&& w.input_mode == InputMode::Normal
            &&& a == ActionView::Nothing
            &&& (v.input_mode == InputMode::Filter ==> w.filter_text.len() == 0)
            &&& (v.input_mode == InputMode::ReniceInput ==> w.renice_text.len() == 0)
        }),
{
}

/// A key press in the tables or the filter prompt clears the status message
/// and asks for nothing outside to be done.
pub proof fn law_plain_keys_clear_status(v: AppView, k: Key)
    requires
        v.input_mode == InputMode::Normal || v.input_mode == InputMode::Filter,
    ensures
        key_step(v, k).0.status_msg is None,
        key_step(v, k).1 == ActionView::Nothing,
{
}

/// A signal is only ever asked for on the selected process, one the user may
/// signal, and against the name the table shows for it.
pub proof fn law_signal_only_owned_selected(v: AppView, k: Key)
    ensures
        key_step(v, k).1 matches ActionView::CheckComm { pid, expected, signal } ==> {
            let u = AppView { status_msg: None, ..v };
            &&& selected_pid(u) == Some(pid)
            &&& may_signal(u, pid)
            &&& selected_name(u) == Some(expected)
        },
        key_step(v, k).1 matches ActionView::Renice { pid, nice } ==> {
            let u = AppView { status_msg: None, ..v };
            &&& selected_pid(u) == Some(pid)
            &&& may_signal(u, pid)
        },
{
}

} // verus!

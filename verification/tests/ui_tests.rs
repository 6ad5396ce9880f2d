use proc_dash::app::App;
use proc_dash::proc_info::{GpuProcessInfo, NpuProcessInfo, ProcCollector, ProcessInfo};
use proc_dash::types::{InputMode, SortColumn, SortDir, Tab};
use proc_dash::ui::{
    centered_rect, compute_scroll, filter_overlay_text, format_duration, format_duration_short,
    format_kb, gpu_row_text, gpu_table_title, header_label, kill_confirm_text, npu_row_text,
    npu_table_title, process_row_text, process_table_title, renice_overlay_text,
    gpu_table_rows, npu_table_rows, process_table_rows, screen_layout, screen_plan,
    signal_menu_lines, state_color, status_text, tab_index, tree_prefix, truncate, visible_rows,
    Area, Band, Overlay, TableKind, ThemeColor,
};

fn float_kb(kb: u64) -> String {
    if kb >= 1_048_576 {
        format!("{:.1}G", kb as f64 / 1_048_576.0)
    } else if kb >= 1024 {
        format!("{:.1}M", kb as f64 / 1024.0)
    } else {
        format!("{}K", kb)
    }
}

fn proc(pid: u32, ppid: u32, name: &str, user: &str) -> ProcessInfo {
    ProcessInfo {
        pid,
        ppid,
        user: user.to_string(),
        name: name.to_string(),
        state: 'S',
        cpu_ticks: 0,
        cpu_total_ticks: 1,
        mem_total_kb: 0,
        rss_kb: 2048,
        start_time: 0,
        utime: 0,
        stime: 0,
        runtime_secs: 3723,
        uid: 0,
        children: Vec::new(),
    }
}

#[test]
fn kilobytes_match_float_formatting() {
    let mut values: Vec<u64> = vec![
        0, 1, 1023, 1024, 1025, 1075, 1076, 1126, 1127, 1536, 10189, 10240, 1048575, 1048576,
        1100000, 1101004, 1101005, 1153433, 1572864, 16318512, 104857600, 1 << 40,
        (1 << 40) + 52428, u64::MAX / 2, u64::MAX - 1, u64::MAX,
    ];
    // Every tie and near-tie around tenths of a mebibyte and a gibibyte.
    for t in 0..2000u64 {
        let m = t * 1024 / 10;
        values.extend([m.saturating_sub(1), m, m + 1, m + 51, m + 52, m + 53]);
        let g = t * 1_048_576 / 10;
        values.extend([g.saturating_sub(1), g, g + 1, g + 52428, g + 52429]);
    }
    let mut x: u64 = 0x9e37_79b9_7f4a_7c15;
    for _ in 0..20000 {
        x ^= x << 13;
        x ^= x >> 7;
        x ^= x << 17;
        values.push(x >> (x % 64));
    }
    for kb in values {
        assert_eq!(format_kb(kb), float_kb(kb), "{}", kb);
    }
}

#[test]
fn durations() {
    for secs in [0u64, 5, 59, 60, 61, 3599, 3600, 3723, 86399, 360000, 3_600_000_000] {
        let h = secs / 3600;
        let m = (secs % 3600) / 60;
        let s = secs % 60;
        let expected = if h > 0 {
            format!("{:>3}h{:02}m{:02}s", h, m, s)
        } else {
            format!("    {:02}m{:02}s", m, s)
        };
        assert_eq!(format_duration(secs), expected);
    }
    assert_eq!(format_duration(3723), "  1h02m03s");
    assert_eq!(format_duration(75), "    01m15s");
    assert_eq!(format_duration_short(0), "0h 0m");
    assert_eq!(format_duration_short(3723), "1h 2m");
    assert_eq!(format_duration_short(90061), "1d 1h");
    assert_eq!(format_duration_short(u64::MAX), format!("{}d {}h", u64::MAX / 86400, (u64::MAX % 86400) / 3600));
}

#[test]
fn truncation() {
    assert_eq!(truncate("short", 8), "short");
    assert_eq!(truncate("exactly8", 8), "exactly8");
    assert_eq!(truncate("much longer name", 8), "much lo~");
    assert_eq!(truncate("héllo wörld", 5), "héll~");
    assert_eq!(truncate("ab", 1), "a");
    assert_eq!(truncate("ab", 0), "");
    assert_eq!(truncate("", 0), "");
    for s in ["", "a", "abcdef", "äöüäöü"] {
        for max in 0..8usize {
            assert!(truncate(s, max).chars().count() <= max);
        }
    }
}

#[test]
fn scrolling() {
    assert_eq!(compute_scroll(5, 0, 0, 10), 0);
    assert_eq!(compute_scroll(2, 5, 10, 50), 2);
    assert_eq!(compute_scroll(15, 0, 10, 50), 6);
    assert_eq!(compute_scroll(7, 3, 10, 50), 3);
    // The end of the page wraps past the largest index.
    assert_eq!(compute_scroll(usize::MAX, usize::MAX - 1, 5, 0), usize::MAX - 4);
    assert_eq!(compute_scroll(usize::MAX - 1, usize::MAX - 1, 5, 0), usize::MAX - 5);
    for sel in 0..40usize {
        for cur in 0..40usize {
            let s = compute_scroll(sel, cur, 7, 40);
            assert!(s <= sel && sel < s + 7);
        }
    }
}

#[test]
fn centering() {
    let a = Area { x: 0, y: 0, width: 100, height: 40 };
    let r = centered_rect(40, 3, a);
    assert_eq!((r.x, r.y, r.width, r.height), (30, 18, 40, 3));
    let small = Area { x: 5, y: 2, width: 20, height: 2 };
    let r = centered_rect(40, 3, small);
    assert_eq!((r.x, r.y, r.width, r.height), (5, 2, 20, 2));
    let edge = Area { x: u16::MAX - 2, y: u16::MAX, width: 100, height: 10 };
    let r = centered_rect(40, 4, edge);
    assert_eq!((r.x, r.y), ((u16::MAX - 2).wrapping_add(30), u16::MAX.wrapping_add(3)));
}

#[test]
fn state_colours() {
    assert_eq!(state_color('R'), ThemeColor::Green);
    assert_eq!(state_color('S'), ThemeColor::DimGreen);
    assert_eq!(state_color('I'), ThemeColor::DimGreen);
    assert_eq!(state_color('D'), ThemeColor::Yellow);
    assert_eq!(state_color('Z'), ThemeColor::Red);
    assert_eq!(state_color('T'), ThemeColor::Cyan);
    assert_eq!(state_color('t'), ThemeColor::Cyan);
    assert_eq!(state_color('X'), ThemeColor::DimGreen);
}

#[test]
fn headers_and_titles() {
    assert_eq!(header_label(SortColumn::Cpu, SortColumn::Cpu, SortDir::Desc), ("CPU% v".to_string(), true));
    assert_eq!(header_label(SortColumn::Pid, SortColumn::Pid, SortDir::Asc), ("PID ^".to_string(), true));
    assert_eq!(header_label(SortColumn::Name, SortColumn::Cpu, SortDir::Asc), ("NAME".to_string(), false));
    assert_eq!(header_label(SortColumn::Runtime, SortColumn::Cpu, SortDir::Asc).0, "TIME");
    assert_eq!(header_label(SortColumn::State, SortColumn::Cpu, SortDir::Asc).0, "S");
    assert_eq!(process_table_title(12, &String::new()), " Processes (12)  ");
    assert_eq!(process_table_title(3, &"fire".to_string()), " Processes (3) [filter: fire] ");
    assert_eq!(
        gpu_table_title(2, 2048, 8 * 1_048_576, 0, 1000, 37),
        " GPU Processes (2) | VRAM: 2.0M/8.0G | GTT: 0K/1000K | Busy: 37% "
    );
    assert_eq!(npu_table_title(1, true), " NPU (1) | amdxdna LOADED ");
    assert_eq!(npu_table_title(0, false), " NPU (0) | amdxdna NOT LOADED ");
    assert_eq!(tab_index(Tab::Processes), 0);
    assert_eq!(tab_index(Tab::Gpu), 1);
    assert_eq!(tab_index(Tab::Npu), 2);
}

#[test]
fn process_rows() {
    let p = proc(42, 7, "a very long process name indeed", "someoneelse");
    let r = process_row_text(&p, false);
    assert_eq!(r.pid, format!("{:>7}", 42));
    assert_eq!(r.user, "someone~");
    assert_eq!(r.name, format!("{:<20}", "a very long process~"));
    assert_eq!(r.rss, format!("{:>8}", "2.0M"));
    assert_eq!(r.state, " S ");
    assert_eq!(r.time, "  1h02m03s");
    let t = process_row_text(&p, true);
    assert_eq!(t.name, format!("  {:<20}", "a very long proce~"));
    let q = proc(1, 1, "init", "root");
    let t = process_row_text(&q, true);
    assert_eq!(t.name, format!("{:<20}", "init"));
    assert_eq!(t.user, "root    ");
    assert_eq!(tree_prefix(&p, &[]), "  ");
    assert_eq!(tree_prefix(&q, &[]), "");
}

#[test]
fn gpu_and_npu_rows() {
    let g = GpuProcessInfo { pid: 5, name: "game".to_string(), vram_kb: 1_572_864, gtt_kb: 512 };
    let (pid, name, vram, gtt) = gpu_row_text(&g);
    assert_eq!(pid, "      5");
    assert_eq!(name, format!("{:<24}", "game"));
    assert_eq!(vram, format!("{:>10}", "1.5G"));
    assert_eq!(gtt, format!("{:>10}", "512K"));
    let n = NpuProcessInfo { pid: 9, name: "x".repeat(30), fd_path: "/dev/accel/accel0".to_string() };
    let (pid, name, path) = npu_row_text(&n);
    assert_eq!(pid, "      9");
    assert_eq!(name, format!("{}~", "x".repeat(23)));
    assert_eq!(path, "/dev/accel/accel0");
}

#[test]
fn status_and_overlays() {
    let mut app = App::new(1000, ProcCollector::new(100, 0));
    assert_eq!(
        status_text(&app),
        ("q:quit | Tab:switch | /:filter | K:kill | s:signal | r:renice | t:tree | g:graph | 1-8:sort".to_string(), false)
    );
    app.input_mode = InputMode::Filter;
    app.filter_text = "fo".to_string();
    assert_eq!(status_text(&app).0, "Filter: fo_ (Enter to apply, Esc to cancel)");
    assert_eq!(filter_overlay_text(&app), "fo|");
    app.input_mode = InputMode::KillConfirm;
    assert_eq!(status_text(&app).0, "Kill selected process? (y/n)");
    app.input_mode = InputMode::SignalMenu;
    assert_eq!(status_text(&app).0, "Select signal: j/k to move, Enter to send, Esc to cancel");
    app.input_mode = InputMode::ReniceInput;
    app.renice_text = "-3".to_string();
    assert_eq!(status_text(&app).0, "Nice value (-20..19): -3_ (Enter to apply)");
    assert_eq!(renice_overlay_text(&app), "Nice (-20..19): -3|");
    app.status_msg = Some("hello".to_string());
    assert_eq!(status_text(&app), ("hello".to_string(), true));

    assert_eq!(kill_confirm_text(&app), "Send SIGKILL to ?\n\nPress y to confirm, n or Esc to cancel");
    // The filter typed above still applies: a process it does not match is not shown.
    app.tick(vec![proc(42, 1, "x", "u")], Vec::new(), Vec::new());
    assert_eq!(app.processes.len(), 0);
    app.filter_text = String::new();
    app.tick(vec![proc(42, 1, "x", "u")], Vec::new(), Vec::new());
    assert_eq!(kill_confirm_text(&app), "Send SIGKILL to PID 42?\n\nPress y to confirm, n or Esc to cancel");

    app.signal_menu_idx = 1;
    let lines = signal_menu_lines(&app);
    let texts: Vec<&str> = lines.iter().map(|l| l.0.as_str()).collect();
    assert_eq!(texts, vec![" SIGTERM (15) ", " SIGKILL (9) ", " SIGSTOP (19) ", " SIGCONT (18) ", " SIGHUP (1) "]);
    let marks: Vec<bool> = lines.iter().map(|l| l.1).collect();
    assert_eq!(marks, vec![false, true, false, false, false]);
}

#[test]
fn screen_bands_and_visible_rows() {
    assert_eq!(
        screen_layout(false),
        vec![Band::Length(4), Band::Length(1), Band::Min(10), Band::Length(1)]
    );
    assert_eq!(
        screen_layout(true),
        vec![Band::Length(4), Band::Length(1), Band::Min(6), Band::Length(8), Band::Length(1)]
    );
    assert_eq!(visible_rows(15, 0, 13, 50), (6, 16));
    assert_eq!(visible_rows(0, 0, 2, 5), (0, 0));
    assert_eq!(visible_rows(3, 0, 20, 5), (0, 5));
    assert_eq!(visible_rows(2, 5, 13, 50), (2, 12));
    assert_eq!(visible_rows(9, 9, 13, 5), (9, 9));
}

#[test]
fn key_hint_names_the_kill_key() {
    let app = App::new(1000, ProcCollector::new(100, 0));
    let (hint, _) = status_text(&app);
    assert!(hint.contains("K:kill"));
    assert!(!hint.contains("k:kill"));
}

#[test]
fn process_rows_on_a_small_screen_highlight_the_selection() {
    let mut app = App::new(1000, ProcCollector::new(100, 0));
    app.processes = [10u32, 20, 30, 40, 50].iter().map(|&pid| proc(pid, 1, "p", "u")).collect();
    app.selected = 4;
    let rows = process_table_rows(&app, 6);
    let pids: Vec<String> = rows.iter().map(|r| r.0.pid.trim().to_string()).collect();
    assert_eq!(pids, vec!["30", "40", "50"]);
    let marks: Vec<bool> = rows.iter().map(|r| r.1).collect();
    assert_eq!(marks, vec![false, false, true]);
    assert_eq!(process_table_title(app.processes.len(), &app.filter_text), " Processes (5)  ");
    // Scrolled past the end: no rows.
    app.scroll_offset = 9;
    app.selected = 9;
    assert!(process_table_rows(&app, 6).is_empty());
    // No room for rows.
    app.selected = 0;
    app.scroll_offset = 0;
    assert!(process_table_rows(&app, 3).is_empty());
}

#[test]
fn gpu_and_npu_rows_highlight_the_selection() {
    let mut app = App::new(1000, ProcCollector::new(100, 0));
    app.gpu_processes = vec![
        GpuProcessInfo { pid: 1, name: "a".to_string(), vram_kb: 1, gtt_kb: 0 },
        GpuProcessInfo { pid: 2, name: "b".to_string(), vram_kb: 2048, gtt_kb: 0 },
    ];
    app.npu_processes = vec![NpuProcessInfo { pid: 3, name: "c".to_string(), fd_path: "/dev/accel/accel0".to_string() }];
    app.selected = 1;
    let g = gpu_table_rows(&app);
    assert_eq!(g.len(), 2);
    assert_eq!((g[0].1, g[1].1), (false, true));
    assert_eq!(g[1].0 .2, format!("{:>10}", "2.0M"));
    let n = npu_table_rows(&app);
    assert_eq!(n.len(), 1);
    assert!(!n[0].1);
    assert_eq!(n[0].0 .2, "/dev/accel/accel0");
}

#[test]
fn screen_plans() {
    let mut app = App::new(1000, ProcCollector::new(100, 0));
    assert_eq!(screen_plan(&app), (TableKind::Processes, false, Overlay::Nothing));
    app.tab = Tab::Gpu;
    app.show_graphs = true;
    app.input_mode = InputMode::Filter;
    assert_eq!(screen_plan(&app), (TableKind::Gpu, true, Overlay::Filter));
    app.tab = Tab::Npu;
    app.input_mode = InputMode::KillConfirm;
    assert_eq!(screen_plan(&app), (TableKind::Npu, true, Overlay::KillConfirm));
    app.input_mode = InputMode::SignalMenu;
    assert_eq!(screen_plan(&app).2, Overlay::SignalMenu);
    app.input_mode = InputMode::ReniceInput;
    assert_eq!(screen_plan(&app).2, Overlay::Renice);
}

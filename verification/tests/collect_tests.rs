use proc_dash::app::{filter_processes, sort_process_list};
use proc_dash::parse::CpuTimes;
use proc_dash::proc_info::{
    build_tree, collect_gpu_processes, collect_npu_processes, proc_name, GpuUsage, NpuScan,
    ProcCollector, ProcEntry, ProcessInfo,
};
use proc_dash::sorting::{cmp_str, cmp_val, compare_keys, SortKey};
use proc_dash::stable::sort_rows;
use proc_dash::types::{SortColumn, SortDir};
use std::cmp::Ordering;

fn stat(pid: u32, name: &str, ppid: u32, utime: u64, stime: u64, start: u64, rss: u64) -> String {
    format!(
        "{} ({}) S {} {} {} 0 -1 4194560 100 0 0 0 {} {} 0 0 20 0 1 0 {} 123456789 {} 18446744073709551615 1 1 0 0 0 0 0 4096 0 0 0 17 3 0 0 0 0 0\n",
        pid, name, ppid, pid, pid, utime, stime, start, rss
    )
}

fn status(uid: u32) -> String {
    format!("Name:\tx\nUid:\t{}\t{}\t{}\t{}\n", uid, uid, uid, uid)
}

fn entry(name: &str, stat: String, status: String) -> ProcEntry {
    ProcEntry { name: name.to_string(), stat, status }
}

const PASSWD: &str = "root:x:0:0:root:/root:/bin/bash\nalice:x:1000:1000::/home/alice:/bin/sh\n";

fn proc(pid: u32, ppid: u32, name: &str, user: &str, cpu: u64, rss: u64) -> ProcessInfo {
    ProcessInfo {
        pid,
        ppid,
        user: user.to_string(),
        name: name.to_string(),
        state: 'S',
        cpu_ticks: cpu,
        cpu_total_ticks: 100,
        mem_total_kb: 1000,
        rss_kb: rss,
        start_time: 0,
        utime: 0,
        stime: 0,
        runtime_secs: pid as u64,
        uid: 1000,
        children: Vec::new(),
    }
}

#[test]
fn first_collection_reads_processes() {
    let mut c = ProcCollector::new(100, 1000);
    assert_eq!(c.hz(), 100);
    let entries = vec![
        entry("1234", stat(1234, "my prog", 1, 250, 75, 5000, 321), status(1000)),
        entry("self", stat(1, "init", 0, 1, 1, 1, 1), status(0)),
        entry("99", String::new(), String::new()),
        entry("1", stat(1, "init", 0, 10, 5, 100, 50), status(0)),
    ];
    let ps = c.collect_processes("cpu 100 0 0 900 0 0 0 0\n", 200, 2000, &entries, PASSWD);
    assert_eq!(ps.len(), 2);
    let p = &ps[0];
    assert_eq!(p.pid, 1234);
    assert_eq!(p.ppid, 1);
    assert_eq!(p.name, "my prog");
    assert_eq!(p.user, "alice");
    assert_eq!(p.uid, 1000);
    assert_eq!(p.state, 'S');
    assert_eq!(p.cpu_ticks, 0);
    assert_eq!(p.cpu_total_ticks, 1);
    assert_eq!(p.mem_total_kb, 2000);
    assert_eq!(p.rss_kb, 321 * 4);
    assert_eq!(p.utime, 250);
    assert_eq!(p.stime, 75);
    assert_eq!(p.start_time, 5000);
    // 200 s of uptime, started 50 s after boot.
    assert_eq!(p.runtime_secs, 150);
    assert!(p.children.is_empty());
    assert_eq!(ps[1].pid, 1);
    assert_eq!(ps[1].user, "root");
}

#[test]
fn cpu_share_comes_from_time_growth() {
    let mut c = ProcCollector::new(100, 0);
    let e1 = vec![entry("7", stat(7, "a", 1, 250, 75, 0, 1), status(1000))];
    let _ = c.collect_processes("cpu 100 0 0 900 0 0 0 0\n", 10, 0, &e1, PASSWD);
    let e2 = vec![entry("7", stat(7, "a", 1, 300, 75, 0, 1), status(1000))];
    let ps = c.collect_processes("cpu 300 0 0 900 0 0 0 0\n", 10, 0, &e2, PASSWD);
    assert_eq!(ps[0].cpu_ticks, 50);
    assert_eq!(ps[0].cpu_total_ticks, 200);
    // No CPU time passed for the system: the span counts as one tick.
    let ps = c.collect_processes("cpu 300 0 0 900 0 0 0 0\n", 10, 0, &e2, PASSWD);
    assert_eq!(ps[0].cpu_ticks, 0);
    assert_eq!(ps[0].cpu_total_ticks, 1);
    // A time that went backwards counts as no growth.
    let e3 = vec![entry("7", stat(7, "a", 1, 100, 0, 0, 1), status(1000))];
    let ps = c.collect_processes("cpu 400 0 0 900 0 0 0 0\n", 10, 0, &e3, PASSWD);
    assert_eq!(ps[0].cpu_ticks, 0);
}

#[test]
fn vanished_processes_are_forgotten() {
    let mut c = ProcCollector::new(100, 0);
    let e1 = vec![entry("7", stat(7, "a", 1, 250, 75, 0, 1), status(1000))];
    let _ = c.collect_processes("cpu 100 0 0 900\n", 10, 0, &e1, PASSWD);
    let _ = c.collect_processes("cpu 100 0 0 900\n", 10, 0, &vec![], PASSWD);
    let e2 = vec![entry("7", stat(7, "a", 1, 400, 75, 0, 1), status(1000))];
    let ps = c.collect_processes("cpu 100 0 0 900\n", 10, 0, &e2, PASSWD);
    assert_eq!(ps[0].cpu_ticks, 0);
}

#[test]
fn user_names_are_remembered() {
    let mut c = ProcCollector::new(100, 0);
    assert_eq!(c.resolve_uid(1000, PASSWD), "alice");
    assert_eq!(c.resolve_uid(1000, ""), "alice");
    assert_eq!(c.resolve_uid(5, ""), "5");
    assert_eq!(c.resolve_uid(5, "five:x:5:5::/:/bin/sh\n"), "5");
    let e = vec![entry("7", stat(7, "a", 1, 1, 1, 0, 1), status(1000))];
    let ps = c.collect_processes("cpu 1 1 1 1\n", 1, 0, &e, "");
    assert_eq!(ps[0].user, "alice");
}

#[test]
fn cpu_busy_between_collections() {
    let mut c = ProcCollector::new(100, 0);
    assert!(c.cpu_busy(CpuTimes { total: 10, idle: 5 }).is_none());
    let _ = c.collect_processes("cpu 100 0 0 900 0 0 0 0\n", 1, 0, &vec![], PASSWD);
    assert_eq!(c.cpu_busy(CpuTimes { total: 1200, idle: 950 }), Some((150, 200)));
    assert_eq!(c.cpu_busy(CpuTimes { total: 1000, idle: 950 }), None);
    assert_eq!(c.cpu_busy(CpuTimes { total: 900, idle: 0 }), None);
}

#[test]
fn gpu_table_largest_first() {
    let us = vec![
        GpuUsage { pid: 10, vram_kb: 100, gtt_kb: 0, comm: Some("small\n".to_string()) },
        GpuUsage { pid: 11, vram_kb: 0, gtt_kb: 0, comm: Some("none".to_string()) },
        GpuUsage { pid: 12, vram_kb: 500, gtt_kb: 500, comm: None },
        GpuUsage { pid: 13, vram_kb: 50, gtt_kb: 50, comm: Some("  tie ".to_string()) },
    ];
    let gs = collect_gpu_processes(us);
    let pids: Vec<u32> = gs.iter().map(|g| g.pid).collect();
    assert_eq!(pids, vec![12, 10, 13]);
    assert_eq!(gs[0].name, "[12]");
    assert_eq!(gs[1].name, "small");
    assert_eq!(gs[2].name, "tie");
    assert_eq!((gs[0].vram_kb, gs[0].gtt_kb), (500, 500));
}

#[test]
fn npu_table_by_pid() {
    let scans = vec![
        NpuScan {
            pid: 30,
            links: vec!["/dev/null".to_string(), "/dev/accel/accel0".to_string()],
            comm: Some("npu-app\n".to_string()),
        },
        NpuScan { pid: 5, links: vec!["/dev/dri/card0".to_string()], comm: None },
        NpuScan {
            pid: 7,
            links: vec!["/dev/accel/accel1".to_string(), "/dev/accel/accel0".to_string()],
            comm: None,
        },
    ];
    let ns = collect_npu_processes(scans);
    assert_eq!(ns.len(), 2);
    assert_eq!(ns[0].pid, 7);
    assert_eq!(ns[0].name, "[7]");
    assert_eq!(ns[0].fd_path, "/dev/accel/accel1");
    assert_eq!(ns[1].pid, 30);
    assert_eq!(ns[1].name, "npu-app");
    assert_eq!(ns[1].fd_path, "/dev/accel/accel0");
}

#[test]
fn names_from_comm() {
    assert_eq!(proc_name(&Some("bash\n".to_string()), 1), "bash");
    assert_eq!(proc_name(&None, 42), "[42]");
}

#[test]
fn tree_lists_children_in_table_order() {
    let mut ps = vec![
        proc(1, 0, "init", "root", 0, 1),
        proc(20, 1, "b", "root", 0, 1),
        proc(10, 1, "a", "root", 0, 1),
        proc(30, 20, "c", "root", 0, 1),
    ];
    build_tree(&mut ps);
    let pids: Vec<u32> = ps.iter().map(|p| p.pid).collect();
    assert_eq!(pids, vec![1, 20, 10, 30]);
    assert_eq!(ps[0].children, vec![20, 10]);
    assert_eq!(ps[1].children, vec![30]);
    assert!(ps[2].children.is_empty());
    assert!(ps[3].children.is_empty());
}

#[test]
fn sorting_processes_is_stable() {
    let ps = vec![
        proc(3, 1, "c", "bob", 5, 30),
        proc(1, 1, "a", "alice", 9, 10),
        proc(2, 1, "b", "bob", 5, 20),
        proc(4, 1, "B", "alice", 0, 40),
    ];
    let pids = |v: &Vec<ProcessInfo>| v.iter().map(|p| p.pid).collect::<Vec<u32>>();
    let clone = |v: &Vec<ProcessInfo>| v.iter().map(|p| proc(p.pid, p.ppid, &p.name, &p.user, p.cpu_ticks, p.rss_kb)).collect::<Vec<_>>();
    assert_eq!(pids(&sort_process_list(clone(&ps), SortColumn::Pid, SortDir::Asc)), vec![1, 2, 3, 4]);
    assert_eq!(pids(&sort_process_list(clone(&ps), SortColumn::Cpu, SortDir::Desc)), vec![1, 3, 2, 4]);
    assert_eq!(pids(&sort_process_list(clone(&ps), SortColumn::Cpu, SortDir::Asc)), vec![4, 3, 2, 1]);
    assert_eq!(pids(&sort_process_list(clone(&ps), SortColumn::User, SortDir::Asc)), vec![1, 4, 3, 2]);
    assert_eq!(pids(&sort_process_list(clone(&ps), SortColumn::Name, SortDir::Asc)), vec![4, 1, 2, 3]);
    assert_eq!(pids(&sort_process_list(clone(&ps), SortColumn::Rss, SortDir::Desc)), vec![4, 3, 2, 1]);
    assert_eq!(pids(&sort_process_list(clone(&ps), SortColumn::Mem, SortDir::Desc)), vec![4, 3, 2, 1]);
    assert_eq!(pids(&sort_process_list(clone(&ps), SortColumn::Runtime, SortDir::Asc)), vec![1, 2, 3, 4]);
    assert_eq!(pids(&sort_process_list(clone(&ps), SortColumn::State, SortDir::Asc)), vec![3, 1, 2, 4]);
    assert_eq!(pids(&sort_process_list(vec![], SortColumn::Pid, SortDir::Asc)), Vec::<u32>::new());
}

#[test]
fn filtering_by_lower_case_name() {
    let ps = vec![
        proc(1, 0, "Firefox", "u", 0, 1),
        proc(2, 0, "bash", "u", 0, 1),
        proc(3, 0, "FIREFOX-bin", "u", 0, 1),
    ];
    let kept = filter_processes(ps, &"fire".to_string());
    let pids: Vec<u32> = kept.iter().map(|p| p.pid).collect();
    assert_eq!(pids, vec![1, 3]);
    let none = filter_processes(vec![proc(1, 0, "a", "u", 0, 1)], &"zz".to_string());
    assert!(none.is_empty());
}

#[test]
fn comparisons() {
    assert_eq!(cmp_val(1, 2, SortDir::Asc), Ordering::Less);
    assert_eq!(cmp_val(1, 2, SortDir::Desc), Ordering::Greater);
    assert_eq!(cmp_val(2, 2, SortDir::Desc), Ordering::Equal);
    assert_eq!(cmp_str("abc", "abd", SortDir::Asc), "abc".cmp("abd"));
    assert_eq!(cmp_str("abc", "abd", SortDir::Desc), "abd".cmp("abc"));
    assert_eq!(cmp_str("Z", "a", SortDir::Asc), Ordering::Less);
    let n = SortKey::Number(3);
    let t = SortKey::Text("x".to_string());
    assert_eq!(compare_keys(&n, &SortKey::Number(4), SortDir::Asc), Ordering::Less);
    assert_eq!(compare_keys(&n, &t, SortDir::Asc), Ordering::Less);
    assert_eq!(compare_keys(&t, &n, SortDir::Desc), Ordering::Less);
}

#[test]
fn rows_sort_stably() {
    let rows = vec![
        ("a", SortKey::Number(2)),
        ("b", SortKey::Number(1)),
        ("c", SortKey::Number(2)),
        ("d", SortKey::Number(1)),
    ];
    let sorted = sort_rows(rows, SortDir::Asc);
    let order: Vec<&str> = sorted.iter().map(|r| r.0).collect();
    assert_eq!(order, vec!["b", "d", "a", "c"]);
    let rows = vec![
        ("a", SortKey::Number(2)),
        ("b", SortKey::Number(1)),
        ("c", SortKey::Number(2)),
    ];
    let sorted = sort_rows(rows, SortDir::Desc);
    let order: Vec<&str> = sorted.iter().map(|r| r.0).collect();
    assert_eq!(order, vec!["a", "c", "b"]);
}

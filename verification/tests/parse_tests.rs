use proc_dash::parse::{
    check_module_loaded, device_memory_kb, find_accel_link, gpu_memory_kb, parse_boot_time,
    parse_cpu_times, parse_drm_memory_val, parse_mem_total_kb, parse_meminfo_usage,
    parse_meminfo_val, parse_pid, parse_stat, parse_status_uid, parse_sysfs_u64,
    read_gpu_busy_percent, resolve_uid_to_name, stat_is_malformed,
};

const STAT_LINE: &str = "1234 (my (odd) prog) S 1 1234 1234 0 -1 4194560 100 0 0 0 250 75 0 0 20 0 1 0 5000 123456789 321 18446744073709551615 1 1 0 0 0 0 0 4096 0 0 0 17 3 0 0 0 0 0\n";

#[test]
fn meminfo_values() {
    assert_eq!(parse_meminfo_val("  16318512 kB"), 16318512);
    assert_eq!(parse_meminfo_val(""), 0);
    assert_eq!(parse_meminfo_val("   kB 12"), 0);
    assert_eq!(parse_meminfo_val("12x kB"), 0);
    assert_eq!(parse_meminfo_val("\t7"), 7);
}

#[test]
fn drm_memory_values() {
    assert_eq!(parse_drm_memory_val(" 1234 KiB"), Some(1234));
    assert_eq!(parse_drm_memory_val("0 kB"), Some(0));
    assert_eq!(parse_drm_memory_val("   "), None);
    assert_eq!(parse_drm_memory_val(" abc KiB"), None);
}

#[test]
fn stat_line_fields() {
    assert!(!stat_is_malformed(STAT_LINE));
    let f = parse_stat(STAT_LINE).unwrap();
    assert_eq!(f.name, "my (odd) prog");
    assert_eq!(f.state, 'S');
    assert_eq!(f.ppid, 1);
    assert_eq!(f.utime, 250);
    assert_eq!(f.stime, 75);
    assert_eq!(f.starttime, 5000);
    assert_eq!(f.rss_pages, 321);
}

#[test]
fn stat_line_unreadable() {
    // No brackets, or too few fields: nothing, and no panic.
    assert!(!stat_is_malformed("1234 S 1 2 3"));
    assert!(parse_stat("1234 S 1 2 3").is_none());
    assert!(!stat_is_malformed("1 (a) S 1 2 3"));
    assert!(parse_stat("1 (a) S 1 2 3").is_none());
    // A field that is not a number reads as 0.
    let line = STAT_LINE.replace(" 250 75 ", " x 75 ");
    let f = parse_stat(&line).unwrap();
    assert_eq!(f.utime, 0);
}

#[test]
fn stat_line_malformed() {
    // The closing bracket before the opening one, nothing after `)`, or
    // exactly twenty fields: the reading would panic on these.
    assert!(stat_is_malformed("1 )x( S"));
    assert!(stat_is_malformed("1 (a)"));
    let twenty = "1 (a) S 1 2 3 4 5 6 7 8 9 10 11 12 13 14 15 16 17 18 19";
    assert!(stat_is_malformed(twenty));
    assert!(stat_is_malformed("1 (a)\u{e9}S 1"));
}

#[test]
fn boot_time_from_stat() {
    let stat = "cpu  1 2 3 4 5 6 7 8 9 10\nbtime 1700000000\nprocesses 5\n";
    assert_eq!(parse_boot_time(stat), 1700000000);
    assert_eq!(parse_boot_time("cpu 1 2\n"), 0);
    assert_eq!(parse_boot_time("btime x\nbtime 5\n"), 0);
    assert_eq!(parse_boot_time("btime   42  \n"), 42);
}

#[test]
fn memory_from_meminfo() {
    let meminfo = "MemTotal:       16000000 kB\nMemFree:         1000000 kB\nMemAvailable:    6000000 kB\n";
    assert_eq!(parse_mem_total_kb(meminfo), 16000000);
    assert_eq!(parse_meminfo_usage(meminfo), (16000000, 10000000));
    assert_eq!(parse_mem_total_kb("MemFree: 5 kB\n"), 0);
    // Available above the total: used memory stays at 0.
    assert_eq!(parse_meminfo_usage("MemTotal: 5 kB\nMemAvailable: 9 kB\n"), (5, 0));
    // Available before the total is computed against the total seen so far.
    assert_eq!(parse_meminfo_usage("MemAvailable: 9 kB\nMemTotal: 50 kB\n"), (50, 0));
}

#[test]
fn cpu_times_from_stat() {
    let stat = "cpu  100 20 30 400 50 6 7 8 9 10\ncpu0 1 2 3 4 5 6 7 8\n";
    let t = parse_cpu_times(stat);
    assert_eq!(t.total, 100 + 20 + 30 + 400 + 50 + 6 + 7 + 8 + 9 + 10);
    assert_eq!(t.idle, 400);
    // Too few words, or not the aggregate line.
    let t = parse_cpu_times("cpu 1 2 3\n");
    assert_eq!((t.total, t.idle), (0, 0));
    let t = parse_cpu_times("cpu0 1 2 3 4 5 6 7 8\n");
    assert_eq!((t.total, t.idle), (0, 0));
    // Words that are not numbers are skipped.
    let t = parse_cpu_times("cpu 1 x 2 y 3 4 5\n");
    assert_eq!((t.total, t.idle), (15, 4));
}

#[test]
fn uid_from_status() {
    let status = "Name:\tbash\nUmask:\t0022\nUid:\t1000\t1000\t1000\t1000\nGid:\t100\n";
    assert_eq!(parse_status_uid(status), 1000);
    assert_eq!(parse_status_uid("Name:\tx\n"), 0);
    assert_eq!(parse_status_uid("Uid:\tabc\n"), 0);
    assert_eq!(parse_status_uid(""), 0);
}

#[test]
fn user_names_from_passwd() {
    let passwd = "root:x:0:0:root:/root:/bin/bash\nbroken\nalice:x:1000:1000::/home/alice:/bin/sh\nbob:x:1000:1000::/home/bob:/bin/sh\n";
    assert_eq!(resolve_uid_to_name(passwd, 0), "root");
    assert_eq!(resolve_uid_to_name(passwd, 1000), "alice");
    assert_eq!(resolve_uid_to_name(passwd, 4242), "4242");
    assert_eq!(resolve_uid_to_name("", 7), "7");
}

#[test]
fn modules() {
    let modules = "amdxdna 126976 0 - Live 0x0\nnvme 1 2 - Live 0x0\n";
    assert!(check_module_loaded(modules, "amdxdna"));
    assert!(check_module_loaded(modules, "nvm"));
    assert!(!check_module_loaded(modules, "i915"));
    assert!(!check_module_loaded("", "amdxdna"));
}

#[test]
fn sysfs_numbers() {
    assert_eq!(parse_sysfs_u64("8573157376\n"), Some(8573157376));
    assert_eq!(parse_sysfs_u64("  12  "), Some(12));
    assert_eq!(parse_sysfs_u64(""), None);
    assert_eq!(parse_sysfs_u64("1 2"), None);
}

#[test]
fn gpu_busy_percent() {
    assert_eq!(read_gpu_busy_percent("37\n", "5\n"), 37);
    assert_eq!(read_gpu_busy_percent("", "5\n"), 5);
    assert_eq!(read_gpu_busy_percent("300\n", "12"), 12);
    assert_eq!(read_gpu_busy_percent("", ""), 0);
}

#[test]
fn device_memory_choice() {
    assert_eq!(
        device_memory_kb(Some(8 * 1024 * 1024), Some(2048), Some(4096), Some(1024)),
        (8 * 1024, 2)
    );
    assert_eq!(device_memory_kb(None, Some(2048), Some(4096), Some(1024)), (4, 1));
    assert_eq!(device_memory_kb(Some(1023), Some(2048), None, None), (0, 0));
}

#[test]
fn pids_from_entry_names() {
    assert_eq!(parse_pid("1"), Some(1));
    assert_eq!(parse_pid("4294967295"), Some(u32::MAX));
    assert_eq!(parse_pid("4294967296"), None);
    assert_eq!(parse_pid("self"), None);
    assert_eq!(parse_pid(""), None);
}

#[test]
fn gpu_memory_from_fdinfo() {
    let a = "pos:\t0\ndrm-memory-vram:\t1024 KiB\ndrm-memory-gtt:\t512 KiB\n".to_string();
    let b = "amd-memory-vram: 100 KiB\namd-memory-gtt: 10 KiB\nnothing: 5\n".to_string();
    let c = "amd-memory-visible-vram: 1 KiB\ndrm-memory-vram: x KiB\n".to_string();
    assert_eq!(gpu_memory_kb(&vec![a.clone()]), (1024, 512));
    assert_eq!(gpu_memory_kb(&vec![a, b, c]), (1024 + 100 + 1, 512 + 10));
    assert_eq!(gpu_memory_kb(&vec![]), (0, 0));
}

#[test]
fn accelerator_links() {
    let links = vec![
        "/dev/null".to_string(),
        "socket:[123]".to_string(),
        "/dev/accel/accel0".to_string(),
        "/dev/accel/accel1".to_string(),
    ];
    assert_eq!(find_accel_link(&links), Some(2));
    assert_eq!(find_accel_link(&vec!["/dev/dri/card0".to_string()]), None);
    assert_eq!(find_accel_link(&vec![]), None);
}

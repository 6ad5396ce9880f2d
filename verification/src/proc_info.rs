use std::collections::HashMap;
use vstd::prelude::*;
use crate::parse::{
    CpuTimes, StatFields, cpu_times, field_u32, field_u64, parse_cpu_times, parse_pid,
    parse_stat, parse_status_uid, resolve_uid_to_name, stat_fields, stat_malformed,
    stat_readable, status_uid, u32_max, user_name, wrap64,
};
use crate::text::{dec, find_first, find_last, parse_unsigned, trim, chars_of, trim_chars, string_of, u64_to_string, push_char};
use crate::sorting::{KeyView, SortKey};
use crate::stable::{
    keys_ordered, law_sort_ignores_rows, law_sort_keeps_rows, law_sort_orders_rows, map_rows,
    rows_view, sort_rows, stable_sort,
};
use crate::sorting::key_order;
use crate::types::SortDir;
use crate::parse::{accel_target, find_accel_link, string_views};

verus! {

broadcast use vstd::std_specs::hash::group_hash_axioms;

/// One process as the process table shows it.
///
/// CPU use is kept as two tick counts: the CPU time the process used since
/// the previous collection (`cpu_ticks`, 0 the first time it is seen) and
/// the CPU time the whole system spent over that span (`cpu_total_ticks`,
/// at least 1); their ratio is the share shown. Memory use is the resident
/// set (`rss_kb`) out of `mem_total_kb`.
#[derive(Debug)]
pub struct ProcessInfo {
    pub pid: u32,
    pub ppid: u32,
    pub user: String,
    pub name: String,
    pub state: char,
    pub cpu_ticks: u64,
    pub cpu_total_ticks: u64,
    pub mem_total_kb: u64,
    pub rss_kb: u64,
    pub start_time: u64,
    pub utime: u64,
    pub stime: u64,
    pub runtime_secs: u64,
    pub uid: u32,
    /// Children PIDs (filled in when the tree is built).
    pub children: Vec<u32>,
}

/// A process with its texts and lists as sequences.
pub struct ProcessView {
    pub pid: u32,
    pub ppid: u32,
    pub user: Seq<char>,
    pub name: Seq<char>,
    pub state: char,
    pub cpu_ticks: u64,
    pub cpu_total_ticks: u64,
    pub mem_total_kb: u64,
    pub rss_kb: u64,
    pub start_time: u64,
    pub utime: u64,
    pub stime: u64,
    pub runtime_secs: u64,
    pub uid: u32,
    pub children: Seq<u32>,
}

impl View for ProcessInfo {
    type V = ProcessView;

    open spec fn view(&self) -> ProcessView {
        ProcessView {
            pid: self.pid,
            ppid: self.ppid,
            user: self.user@,
            name: self.name@,
            state: self.state,
            cpu_ticks: self.cpu_ticks,
            cpu_total_ticks: self.cpu_total_ticks,
            mem_total_kb: self.mem_total_kb,
            rss_kb: self.rss_kb,
            start_time: self.start_time,
            utime: self.utime,
            stime: self.stime,
            runtime_secs: self.runtime_secs,
            uid: self.uid,
            children: self.children@,
        }
    }
}

/// The views of a list of processes.
pub open spec fn process_views(ps: Seq<ProcessInfo>) -> Seq<ProcessView> {
    ps.map_values(|p: ProcessInfo| p@)
}

/// A process that holds GPU memory, from its DRM fdinfo entries.
#[derive(Debug)]
pub struct GpuProcessInfo {
    pub pid: u32,
    pub name: String,
    pub vram_kb: u64,
    pub gtt_kb: u64,
}

/// A process that has an accelerator device open.
#[derive(Debug)]
pub struct NpuProcessInfo {
    pub pid: u32,
    pub name: String,
    pub fd_path: String,
}

/// What `/proc` holds for one directory entry: its name, and the texts of
/// its `stat` and `status` files (an unreadable file reads as empty, which
/// both readings treat as they treat a missing file).
pub struct ProcEntry {
    pub name: String,
    pub stat: String,
    pub status: String,
}

/// What the collector remembers between collections.
pub struct CollectorView {
    /// The aggregate CPU times of the previous collection.
    pub prev_cpu: Option<CpuTimes>,
    /// Each live process's user plus system time at the previous collection.
    pub times: Map<u32, u64>,
    /// Clock ticks per second.
    pub hz: u64,
    pub boot_time: u64,
    /// The user names resolved so far.
    pub users: Map<u32, Seq<char>>,
}

/// Collects processes from `/proc` texts, remembering what CPU shares need
/// from one collection to the next.
pub struct ProcCollector {
    prev_cpu: Option<CpuTimes>,
    prev_proc_times: HashMap<u32, u64>,
    hz: u64,
    boot_time: u64,
    uid_cache: HashMap<u32, String>,
}

impl ProcCollector {
    /// The clock rate is at least one tick per second.
    #[verifier::type_invariant]
    spec fn clock_runs(self) -> bool {
        self.hz > 0
    }
}

impl View for ProcCollector {
    type V = CollectorView;

    closed spec fn view(&self) -> CollectorView {
        CollectorView {
            prev_cpu: self.prev_cpu,
            times: self.prev_proc_times@,
            hz: self.hz,
            boot_time: self.boot_time,
            users: self.uid_cache@.map_values(|s: String| s@),
        }
    }
}

/// `a - b`, or 0 when `b` is larger, as `u64::saturating_sub` computes it.
pub open spec fn sat_sub(a: nat, b: nat) -> nat {
    if a >= b {
        (a - b) as nat
    } else {
        0
    }
}

/// A readable stat line's user plus system time, in 64 bits.
pub open spec fn stat_total_time(stat: Seq<char>) -> nat {
    let fs = stat_fields(stat);
    wrap64(field_u64(fs[11]) + field_u64(fs[12]))
}

/// The process that a readable stat line describes, given its owner and the
/// owner's name, its user plus system time at the previous collection, the
/// system's CPU time over the span, the time since boot in clock ticks, the
/// clock rate and the total memory.
pub open spec fn process_record(
    pid: u32,
    stat: Seq<char>,
    uid: u32,
    user: Seq<char>,
    prev_total: Option<u64>,
    cpu_total_ticks: u64,
    now_ticks: u64,
    hz: u64,
    mem_total_kb: u64,
) -> ProcessView {
    let fs = stat_fields(stat);
    let total = stat_total_time(stat);
    let start = field_u64(fs[19]);
    ProcessView {
        pid,
        ppid: field_u32(fs[1]) as u32,
        user,
        name: stat.subrange(find_first(stat, '(') + 1, find_last(stat, ')')),
        state: fs[0][0],
        cpu_ticks: match prev_total {
            Some(p) => sat_sub(total, p as nat) as u64,
            None => 0,
        },
        cpu_total_ticks,
        mem_total_kb,
        rss_kb: wrap64(field_u64(fs[21]) * 4) as u64,
        start_time: start as u64,
        utime: field_u64(fs[11]) as u64,
        stime: field_u64(fs[12]) as u64,
        runtime_secs: sat_sub(now_ticks as nat / hz as nat, start / hz as nat) as u64,
        uid,
        children: Seq::empty(),
    }
}

/// The running state of a collection: the processes so far, each seen
/// process's latest user plus system time, and the user names resolved.
pub struct CollectState {
    pub procs: Seq<ProcessView>,
    pub times: Map<u32, u64>,
    pub users: Map<u32, Seq<char>>,
}

/// The views of a `/proc` entry: its name, stat text and status text.
pub open spec fn entry_views(es: Seq<ProcEntry>) -> Seq<(Seq<char>, Seq<char>, Seq<char>)> {
    es.map_values(|e: ProcEntry| (e.name@, e.stat@, e.status@))
}

/// One `/proc` entry taken into a collection: an entry whose name is a
/// process id and whose stat line is readable adds its process (see
/// `process_record`), records its time, and resolves its owner's name;
/// any other entry changes nothing.
pub open spec fn collect_step(
    st: CollectState,
    e: (Seq<char>, Seq<char>, Seq<char>),
    passwd: Seq<char>,
    cpu_total_ticks: u64,
    now_ticks: u64,
    hz: u64,
    mem_total_kb: u64,
) -> CollectState {
    match parse_unsigned(e.0, u32_max()) {
        None => st,
        Some(p) => if !stat_readable(e.1) {
            st
        } else {
            let pid = p as u32;
            let uid = status_uid(e.2) as u32;
            let user = if st.users.contains_key(uid) {
                st.users[uid]
            } else {
                user_name(passwd, uid as nat)
            };
            let prev = if st.times.contains_key(pid) {
                Some(st.times[pid])
            } else {
                None
            };
            CollectState {
                procs: st.procs.push(
                    process_record(
                        pid,
                        e.1,
                        uid,
                        user,
                        prev,
                        cpu_total_ticks,
                        now_ticks,
                        hz,
                        mem_total_kb,
                    ),
                ),
                times: st.times.insert(pid, stat_total_time(e.1) as u64),
                users: st.users.insert(uid, user),
            }
        },
    }
}

/// The `/proc` entries taken into a collection in order.
pub open spec fn collect_fold(
    st: CollectState,
    es: Seq<(Seq<char>, Seq<char>, Seq<char>)>,
    passwd: Seq<char>,
    cpu_total_ticks: u64,
    now_ticks: u64,
    hz: u64,
    mem_total_kb: u64,
) -> CollectState
    decreases es.len(),
{
    if es.len() == 0 {
        st
    } else {
        collect_step(
            collect_fold(st, es.drop_last(), passwd, cpu_total_ticks, now_ticks, hz, mem_total_kb),
            es.last(),
            passwd,
            cpu_total_ticks,
            now_ticks,
            hz,
            mem_total_kb,
        )
    }
}

/// A collection from the collector's memory `c`: the entries taken in order
/// (see `collect_fold`), each process's CPU ticks measured over the span
/// since the previous collection (see `cpu_span`), the time since boot in
/// clock ticks computed in 64 bits.
pub open spec fn collection(
    c: CollectorView,
    cpu_stat: Seq<char>,
    uptime_secs: u64,
    mem_total_kb: u64,
    es: Seq<(Seq<char>, Seq<char>, Seq<char>)>,
    passwd: Seq<char>,
) -> CollectState {
    let span = cpu_span(c.prev_cpu, cpu_times(cpu_stat).0);
    let now = wrap64(uptime_secs as nat * c.hz as nat);
    collect_fold(
        CollectState { procs: Seq::empty(), times: c.times, users: c.users },
        es,
        passwd,
        span as u64,
        now as u64,
        c.hz,
        mem_total_kb,
    )
}

/// What the collector remembers after a collection: this snapshot's CPU
/// times, the times of the processes it found (and of no others), and the
/// user names resolved so far.
pub open spec fn after_collection(
    c: CollectorView,
    cpu_stat: Seq<char>,
    uptime_secs: u64,
    mem_total_kb: u64,
    es: Seq<(Seq<char>, Seq<char>, Seq<char>)>,
    passwd: Seq<char>,
) -> CollectorView {
    let st = collection(c, cpu_stat, uptime_secs, mem_total_kb, es, passwd);
    let cur = cpu_times(cpu_stat);
    CollectorView {
        prev_cpu: Some(CpuTimes { total: cur.0 as u64, idle: cur.1 as u64 }),
        times: st.times.restrict(pids_of(st.procs)),
        users: st.users,
        ..c
    }
}

/// The process ids that occur in `ps`.
pub open spec fn pids_of(ps: Seq<ProcessView>) -> Set<u32> {
    Set::new(|p: u32| exists|i: int| 0 <= i < ps.len() && (#[trigger] ps[i]).pid == p)
}

/// The system's CPU time since the previous collection: at least 1, and 1
/// when there is no previous collection.
pub open spec fn cpu_span(prev: Option<CpuTimes>, total: nat) -> nat {
    match prev {
        Some(p) => {
            let dt = sat_sub(total, p.total as nat);
            if dt == 0 {
                1
            } else {
                dt
            }
        },
        None => 1,
    }
}

/// Whether every entry whose name is a process id has a stat line that the
/// reading accepts without a panic.
pub open spec fn entries_well_formed(es: Seq<ProcEntry>) -> bool {
    forall|i: int|
        0 <= i < es.len() && parse_unsigned(#[trigger] es[i].name@, u32_max()) is Some
            ==> !stat_malformed(es[i].stat@)
}

proof fn lemma_fold_pids_recorded(
    st: CollectState,
    es: Seq<(Seq<char>, Seq<char>, Seq<char>)>,
    passwd: Seq<char>,
    c: u64,
    n: u64,
    hz: u64,
    m: u64,
)
    requires
        forall|i: int| 0 <= i < st.procs.len() ==> st.times.contains_key(#[trigger] st.procs[i].pid),
    ensures
        ({
            let r = collect_fold(st, es, passwd, c, n, hz, m);
            forall|i: int| 0 <= i < r.procs.len() ==> r.times.contains_key(#[trigger] r.procs[i].pid)
        }),
    decreases es.len(),
{
    if es.len() > 0 {
        lemma_fold_pids_recorded(st, es.drop_last(), passwd, c, n, hz, m);
        let r0 = collect_fold(st, es.drop_last(), passwd, c, n, hz, m);
        let r = collect_fold(st, es, passwd, c, n, hz, m);
        assert forall|i: int| 0 <= i < r.procs.len() implies r.times.contains_key(
            #[trigger] r.procs[i].pid,
        ) by {
            if i < r0.procs.len() && r.procs.len() > r0.procs.len() {
                assert(r.procs[i] == r0.procs[i]);
            }
        }
    }
}

/// The name of user `uid`: the one resolved before, if any, else the one
/// the `/etc/passwd` text gives (or the number).
pub open spec fn resolved_name(users: Map<u32, Seq<char>>, passwd: Seq<char>, uid: u32) -> Seq<char> {
    if users.contains_key(uid) {
        users[uid]
    } else {
        user_name(passwd, uid as nat)
    }
}

/// Once a user's name is resolved it stays: resolving it again gives the
/// same name, whatever `/etc/passwd` holds by then.
pub proof fn law_user_name_remembered(
    users: Map<u32, Seq<char>>,
    passwd1: Seq<char>,
    passwd2: Seq<char>,
    uid: u32,
)
    ensures
        ({
            let first = resolved_name(users, passwd1, uid);
            resolved_name(users.insert(uid, first), passwd2, uid) == first
        }),
{
}

/// Whether some process in `ps` has id `child` and parent `pid`.
pub open spec fn has_row_with_parent(ps: Seq<ProcessView>, child: u32, pid: u32) -> bool {
    exists|j: int| 0 <= j < ps.len() && (#[trigger] ps[j]).pid == child && ps[j].ppid == pid
}

/// The ids of the children of `pid` are exactly the ids of the processes in
/// `ps` whose parent is `pid`.
pub proof fn law_children_are_those_with_parent(ps: Seq<ProcessView>, pid: u32)
    ensures
        forall|k: int|
            0 <= k < child_pids(ps, pid).len() ==> has_row_with_parent(
                ps,
                #[trigger] child_pids(ps, pid)[k],
                pid,
            ),
        forall|j: int|
            0 <= j < ps.len() && (#[trigger] ps[j]).ppid == pid ==> child_pids(ps, pid).contains(
                ps[j].pid,
            ),
    decreases ps.len(),
{
    if ps.len() > 0 {
        let p = ps.drop_last();
        law_children_are_those_with_parent(p, pid);
        let c0 = child_pids(p, pid);
        let c = child_pids(ps, pid);
        assert forall|k: int| 0 <= k < c.len() implies has_row_with_parent(ps, #[trigger] c[k], pid) by {
            if k < c0.len() {
                assert(c[k] == c0[k]);
                assert(has_row_with_parent(p, c0[k], pid));
                let j = choose|j: int| 0 <= j < p.len() && (#[trigger] p[j]).pid == c0[k] && p[j].ppid == pid;
                assert(ps[j] == p[j]);
            } else {
                assert(ps[ps.len() - 1] == ps.last());
            }
        }
        assert forall|j: int| 0 <= j < ps.len() && (#[trigger] ps[j]).ppid == pid implies c.contains(
            ps[j].pid,
        ) by {
            if j < ps.len() - 1 {
                assert(p[j] == ps[j]);
                assert(c0.contains(p[j].pid));
                let k = choose|k: int| 0 <= k < c0.len() && c0[k] == p[j].pid;
                assert(c[k] == c0[k]);
            } else {
                assert(c[c.len() - 1] == ps[j].pid);
            }
        }
    }
}

/// Building the tree keeps every row in its place and changes only its
/// children: each process whose parent is in the table is listed among that
/// parent's children.
pub proof fn law_tree_keeps_rows(ps: Seq<ProcessView>)
    ensures
        tree_views(ps, ps).len() == ps.len(),
        forall|i: int|
            0 <= i < ps.len() ==> (ProcessView { children: ps[i].children, ..#[trigger] tree_views(
                ps,
                ps,
            )[i] }) == ps[i],
        forall|i: int, j: int|
            0 <= i < ps.len() && 0 <= j < ps.len() && #[trigger] ps[j].ppid == #[trigger] ps[i].pid
                ==> tree_views(ps, ps)[i].children.contains(ps[j].pid),
{
    law_children_are_those_with_parent(ps, 0);
    assert forall|i: int, j: int|
        0 <= i < ps.len() && 0 <= j < ps.len() && #[trigger] ps[j].ppid == #[trigger] ps[i].pid
            implies tree_views(ps, ps)[i].children.contains(ps[j].pid) by {
        law_children_are_those_with_parent(ps, ps[i].pid);
        assert(child_pids(ps, ps[i].pid).contains(ps[j].pid));
    }
}

/// The process id that an entry yields, if its name is one and its stat
/// line is readable.
pub open spec fn entry_pid(e: (Seq<char>, Seq<char>, Seq<char>)) -> Option<u32> {
    match parse_unsigned(e.0, u32_max()) {
        Some(p) => if stat_readable(e.1) {
            Some(p as u32)
        } else {
            None
        },
        None => None,
    }
}

/// Whether no two entries yield the same process id, as in a listing of
/// `/proc`.
pub open spec fn distinct_pids(es: Seq<(Seq<char>, Seq<char>, Seq<char>)>) -> bool {
    forall|j: int, k: int|
        0 <= j < k < es.len() && (#[trigger] entry_pid(es[j])) is Some ==> entry_pid(es[j])
            != #[trigger] entry_pid(es[k])
}

/// Whether some entry yields process id `p`.
pub open spec fn yields_pid(es: Seq<(Seq<char>, Seq<char>, Seq<char>)>, p: u32) -> bool {
    exists|j: int| 0 <= j < es.len() && #[trigger] entry_pid(es[j]) == Some(p)
}

/// A process's user plus system time, in 64 bits.
pub open spec fn proc_total(q: ProcessView) -> nat {
    wrap64(q.utime as nat + q.stime as nat)
}

/// The CPU ticks of process `q` measured against the times remembered in
/// `times`: the growth of its time (0 if it went back), or 0 when nothing
/// is remembered for it.
pub open spec fn ticks_against(times: Map<u32, u64>, q: ProcessView) -> nat {
    if times.contains_key(q.pid) {
        sat_sub(proc_total(q), times[q.pid] as nat)
    } else {
        0
    }
}

proof fn lemma_fold_measures(
    st: CollectState,
    es: Seq<(Seq<char>, Seq<char>, Seq<char>)>,
    passwd: Seq<char>,
    c: u64,
    n: u64,
    hz: u64,
    m: u64,
)
    requires
        distinct_pids(es),
    ensures
        ({
            let r = collect_fold(st, es, passwd, c, n, hz, m);
            &&& st.procs.len() <= r.procs.len()
            &&& r.procs.take(st.procs.len() as int) == st.procs
            &&& forall|i: int|
                st.procs.len() <= i < r.procs.len() ==> {
                    &&& yields_pid(es, (#[trigger] r.procs[i]).pid)
                    &&& r.procs[i].cpu_ticks == ticks_against(st.times, r.procs[i])
                    &&& r.times.contains_key(r.procs[i].pid)
                    &&& r.times[r.procs[i].pid] == proc_total(r.procs[i])
                }
            &&& forall|p: u32| !yields_pid(es, p) ==> (#[trigger] r.times.contains_key(p)
                == st.times.contains_key(p)) && r.times[p] == st.times[p]
        }),
    decreases es.len(),
{
    if es.len() > 0 {
        let es0 = es.drop_last();
        assert forall|j: int, k: int|
            0 <= j < k < es0.len() && (#[trigger] entry_pid(es0[j])) is Some implies entry_pid(es0[j])
                != #[trigger] entry_pid(es0[k]) by {
            assert(es0[j] == es[j] && es0[k] == es[k]);
        }
        lemma_fold_measures(st, es0, passwd, c, n, hz, m);
        let r0 = collect_fold(st, es0, passwd, c, n, hz, m);
        let r = collect_fold(st, es, passwd, c, n, hz, m);
        let e = es.last();
        assert(es[es.len() - 1] == e);
        assert forall|p: u32| #[trigger] yields_pid(es0, p) implies yields_pid(es, p) by {
            let j = choose|j: int| 0 <= j < es0.len() && #[trigger] entry_pid(es0[j]) == Some(p);
            assert(es[j] == es0[j]);
        }
        match entry_pid(e) {
            None => {
                assert forall|p: u32| !yields_pid(es, p) implies !yields_pid(es0, p) by {}
                assert(r == r0);
            },
            Some(pid) => {
                assert(yields_pid(es, pid));
                // No earlier entry yields this id.
                assert(!yields_pid(es0, pid)) by {
                    if yields_pid(es0, pid) {
                        let j = choose|j: int| 0 <= j < es0.len() && #[trigger] entry_pid(es0[j]) == Some(pid);
                        assert(es[j] == es0[j]);
                        assert(entry_pid(es[j]) != entry_pid(es[es.len() - 1]));
                    }
                }
                let q = r.procs.last();
                assert(r.procs == r0.procs.push(q));
                assert(q.pid == pid);
                assert(proc_total(q) == stat_total_time(e.1));
                assert(r.times == r0.times.insert(pid, stat_total_time(e.1) as u64));
                assert(r.procs.take(st.procs.len() as int) =~= r0.procs.take(st.procs.len() as int));
                assert forall|i: int| st.procs.len() <= i < r.procs.len() implies {
                    &&& yields_pid(es, (#[trigger] r.procs[i]).pid)
                    &&& r.procs[i].cpu_ticks == ticks_against(st.times, r.procs[i])
                    &&& r.times.contains_key(r.procs[i].pid)
                    &&& r.times[r.procs[i].pid] == proc_total(r.procs[i])
                } by {
                    if i < r0.procs.len() {
                        assert(r.procs[i] == r0.procs[i]);
                        assert(r0.procs[i].pid != pid);
                    }
                }
                assert forall|p: u32| !yields_pid(es, p) implies (#[trigger] r.times.contains_key(p)
                    == st.times.contains_key(p)) && r.times[p] == st.times[p] by {
                    assert(p != pid);
                }
            },
        }
    }
}

/// A process's CPU ticks are the growth of its user plus system time since
/// the previous collection (0 if the time went back), and 0 for a process
/// that collection did not find; a listing of `/proc` names each process
/// once.
pub proof fn law_cpu_ticks_are_growth(
    c: CollectorView,
    stat1: Seq<char>,
    up1: u64,
    mem1: u64,
    es1: Seq<(Seq<char>, Seq<char>, Seq<char>)>,
    pw1: Seq<char>,
    stat2: Seq<char>,
    up2: u64,
    mem2: u64,
    es2: Seq<(Seq<char>, Seq<char>, Seq<char>)>,
    pw2: Seq<char>,
)
    requires
        distinct_pids(es1),
        distinct_pids(es2),
    ensures
        ({
            let first = collection(c, stat1, up1, mem1, es1, pw1).procs;
            let second = collection(
                after_collection(c, stat1, up1, mem1, es1, pw1),
                stat2,
                up2,
                mem2,
                es2,
                pw2,
            ).procs;
            &&& forall|i: int, j: int|
                0 <= i < second.len() && 0 <= j < first.len() && (#[trigger] second[i]).pid == (
                #[trigger] first[j]).pid ==> second[i].cpu_ticks == sat_sub(
                    proc_total(second[i]),
                    proc_total(first[j]),
                )
            &&& forall|i: int|
                0 <= i < second.len() && !pids_of(first).contains((#[trigger] second[i]).pid)
                    ==> second[i].cpu_ticks == 0
        }),
{
    let r1 = collection(c, stat1, up1, mem1, es1, pw1);
    let c1 = after_collection(c, stat1, up1, mem1, es1, pw1);
    let r2 = collection(c1, stat2, up2, mem2, es2, pw2);
    let span1 = cpu_span(c.prev_cpu, cpu_times(stat1).0);
    let now1 = wrap64(up1 as nat * c.hz as nat);
    let span2 = cpu_span(c1.prev_cpu, cpu_times(stat2).0);
    let now2 = wrap64(up2 as nat * c1.hz as nat);
    lemma_fold_measures(
        CollectState { procs: Seq::empty(), times: c.times, users: c.users },
        es1,
        pw1,
        span1 as u64,
        now1 as u64,
        c.hz,
        mem1,
    );
    lemma_fold_measures(
        CollectState { procs: Seq::empty(), times: c1.times, users: c1.users },
        es2,
        pw2,
        span2 as u64,
        now2 as u64,
        c1.hz,
        mem2,
    );
    let first = r1.procs;
    let second = r2.procs;
    assert forall|i: int, j: int|
        0 <= i < second.len() && 0 <= j < first.len() && (#[trigger] second[i]).pid == (
        #[trigger] first[j]).pid implies second[i].cpu_ticks == sat_sub(
            proc_total(second[i]),
            proc_total(first[j]),
        ) by {
        assert(pids_of(first).contains(first[j].pid));
        assert(c1.times.contains_key(second[i].pid));
        assert(c1.times[second[i].pid] == r1.times[first[j].pid]);
    }
}

proof fn lemma_fold_span(
    st: CollectState,
    es: Seq<(Seq<char>, Seq<char>, Seq<char>)>,
    passwd: Seq<char>,
    c: u64,
    n: u64,
    hz: u64,
    m: u64,
)
    ensures
        ({
            let r = collect_fold(st, es, passwd, c, n, hz, m);
            &&& st.procs.len() <= r.procs.len()
            &&& forall|i: int| 0 <= i < st.procs.len() ==> #[trigger] r.procs[i] == st.procs[i]
            &&& forall|i: int|
                st.procs.len() <= i < r.procs.len() ==> (#[trigger] r.procs[i]).cpu_total_ticks == c
        }),
    decreases es.len(),
{
    if es.len() > 0 {
        lemma_fold_span(st, es.drop_last(), passwd, c, n, hz, m);
        let r0 = collect_fold(st, es.drop_last(), passwd, c, n, hz, m);
        let r = collect_fold(st, es, passwd, c, n, hz, m);
        assert forall|i: int| 0 <= i < r0.procs.len() implies #[trigger] r.procs[i] == r0.procs[i] by {}
    }
}

/// Every process of a collection is measured over the same span: the growth
/// of the system's total CPU time (the sum of all the fields of the `cpu`
/// line of `/proc/stat`, idle time included) since the previous collection,
/// or 1 when it did not grow or there was none.
pub proof fn law_cpu_span_is_total_growth(
    c: CollectorView,
    stat: Seq<char>,
    up: u64,
    mem: u64,
    es: Seq<(Seq<char>, Seq<char>, Seq<char>)>,
    pw: Seq<char>,
)
    ensures
        ({
            let ps = collection(c, stat, up, mem, es, pw).procs;
            let growth: int = match c.prev_cpu {
                Some(p) => cpu_times(stat).0 - p.total,
                None => 0,
            };
            forall|i: int|
                0 <= i < ps.len() ==> (#[trigger] ps[i]).cpu_total_ticks == if growth > 0 {
                    growth
                } else {
                    1
                }
        }),
{
    let span = cpu_span(c.prev_cpu, cpu_times(stat).0);
    let now = wrap64(up as nat * c.hz as nat);
    lemma_fold_span(
        CollectState { procs: Seq::empty(), times: c.times, users: c.users },
        es,
        pw,
        span as u64,
        now as u64,
        c.hz,
        mem,
    );
}

/// Between two collections the span is the growth of the total CPU time
/// between their `/proc/stat` texts (idle time included), or 1.
pub proof fn law_cpu_span_between_collections(
    c: CollectorView,
    stat1: Seq<char>,
    up1: u64,
    mem1: u64,
    es1: Seq<(Seq<char>, Seq<char>, Seq<char>)>,
    pw1: Seq<char>,
    stat2: Seq<char>,
    up2: u64,
    mem2: u64,
    es2: Seq<(Seq<char>, Seq<char>, Seq<char>)>,
    pw2: Seq<char>,
)
    ensures
        ({
            let second = collection(
                after_collection(c, stat1, up1, mem1, es1, pw1),
                stat2,
                up2,
                mem2,
                es2,
                pw2,
            ).procs;
            let growth: int = cpu_times(stat2).0 - cpu_times(stat1).0;
            forall|i: int|
                0 <= i < second.len() ==> (#[trigger] second[i]).cpu_total_ticks == if growth > 0 {
                    growth
                } else {
                    1
                }
        }),
{
    let c1 = after_collection(c, stat1, up1, mem1, es1, pw1);
    law_cpu_span_is_total_growth(c1, stat2, up2, mem2, es2, pw2);
}

impl ProcCollector {
    /// A collector for a clock of `hz` ticks per second (at least one) and a
    /// system booted at `boot_time`, with nothing remembered yet.
    pub fn new(hz: u64, boot_time: u64) -> (res: Self)
        requires
            hz > 0,
        ensures
            res@.prev_cpu is None,
            res@.times == Map::<u32, u64>::empty(),
            res@.hz == hz,
            res@.boot_time == boot_time,
            res@.users == Map::<u32, Seq<char>>::empty(),
    {
        let res = ProcCollector {
            prev_cpu: None,
            prev_proc_times: HashMap::new(),
            hz,
            boot_time,
            uid_cache: HashMap::new(),
        };
        assert(res@.users =~= Map::<u32, Seq<char>>::empty());
        res
    }

    /// The clock rate, in ticks per second.
    pub fn hz(&self) -> (res: u64)
        ensures
            res == self@.hz,
    {
        self.hz
    }

    /// The name of user `uid` (see `resolved_name`), remembered from then on.
    pub fn resolve_uid(&mut self, uid: u32, passwd: &str) -> (res: String)
        ensures
            res@ == resolved_name(old(self)@.users, passwd@, uid),
            final(self)@.users == old(self)@.users.insert(uid, res@),
            final(self)@.prev_cpu == old(self)@.prev_cpu,
            final(self)@.times == old(self)@.times,
            final(self)@.hz == old(self)@.hz,
            final(self)@.boot_time == old(self)@.boot_time,
    {
        proof {
            use_type_invariant(&*self);
        }
        match self.uid_cache.get(&uid) {
            Some(name) => {
                let n = name.clone();
                assert(self@.users.insert(uid, n@) =~= self@.users);
                return n;
            },
            None => {},
        }
        let name = resolve_uid_to_name(passwd, uid);
        let ghost before = self.uid_cache@;
        let mut cache: HashMap<u32, String> = HashMap::new();
        std::mem::swap(&mut cache, &mut self.uid_cache);
        cache.insert(uid, name.clone());
        self.uid_cache = cache;
        assert(self.uid_cache@.map_values(|s: String| s@) =~= before.map_values(|s: String| s@).insert(uid, name@));
        name
    }

    /// The process that the texts of `/proc/<pid>/stat` and `status` describe,
    /// if the stat line is readable (see `stat_readable`); its user plus
    /// system time is remembered for the next collection, and its owner's
    /// name is resolved as `resolve_uid` does.
    fn read_process(
        &mut self,
        pid: u32,
        stat: &str,
        status: &str,
        passwd: &str,
        cpu_total_ticks: u64,
        now_ticks: u64,
        mem_total_kb: u64,
    ) -> (res: Option<ProcessInfo>)
        requires
            !stat_malformed(stat@),
        ensures
            res is Some <==> stat_readable(stat@),
            !stat_readable(stat@) ==> final(self)@ == old(self)@,
            stat_readable(stat@) ==> {
                let uid = status_uid(status@) as u32;
                let user = if old(self)@.users.contains_key(uid) {
                    old(self)@.users[uid]
                } else {
                    user_name(passwd@, uid as nat)
                };
                let prev = if old(self)@.times.contains_key(pid) {
                    Some(old(self)@.times[pid])
                } else {
                    None
                };
                &&& res matches Some(p) && p@ == process_record(
                    pid,
                    stat@,
                    uid,
                    user,
                    prev,
                    cpu_total_ticks,
                    now_ticks,
                    old(self)@.hz,
                    mem_total_kb,
                )
                &&& final(self)@.times == old(self)@.times.insert(pid, stat_total_time(stat@) as u64)
                &&& final(self)@.users == old(self)@.users.insert(uid, user)
                &&& final(self)@.prev_cpu == old(self)@.prev_cpu
                &&& final(self)@.hz == old(self)@.hz
                &&& final(self)@.boot_time == old(self)@.boot_time
            },
    {
        proof {
            use_type_invariant(&*self);
        }
        let f = match parse_stat(stat) {
            Some(f) => f,
            None => {
                return None;
            },
        };
        let ghost fs = stat_fields(stat@);
        let rss_kb = f.rss_pages.wrapping_mul(4);
        let total_time = f.utime.wrapping_add(f.stime);
        assert(total_time as nat == stat_total_time(stat@));
        let cpu_ticks: u64 = match self.prev_proc_times.get(&pid) {
            Some(prev) => total_time.saturating_sub(*prev),
            None => 0,
        };
        let mut times: HashMap<u32, u64> = HashMap::new();
        std::mem::swap(&mut times, &mut self.prev_proc_times);
        times.insert(pid, total_time);
        self.prev_proc_times = times;
        let hz = self.hz;
        let start_secs = self.boot_time.wrapping_add(f.starttime / hz);
        let now_secs = now_ticks / hz;
        let runtime_secs = now_secs.saturating_sub(start_secs.wrapping_sub(self.boot_time));
        assert(start_secs.wrapping_sub(self.boot_time) == f.starttime / hz);
        let uid = parse_status_uid(status);
        let user = self.resolve_uid(uid, passwd);
        let res = ProcessInfo {
            pid,
            ppid: f.ppid,
            user,
            name: f.name,
            state: f.state,
            cpu_ticks,
            cpu_total_ticks,
            mem_total_kb,
            rss_kb,
            start_time: f.starttime,
            utime: f.utime,
            stime: f.stime,
            runtime_secs,
            uid,
            children: Vec::new(),
        };
        assert(res@.children =~= Seq::<u32>::empty());
        Some(res)
    }

    /// Collects the processes of a `/proc` snapshot: the text of `/proc/stat`,
    /// the seconds since boot, the total memory, the entries of `/proc` and
    /// the text of `/etc/passwd`. The processes are those the entries give in
    /// order (see `collect_fold`); afterwards the collector remembers this
    /// snapshot's CPU times and the times of the live processes only.
    pub fn collect_processes(
        &mut self,
        cpu_stat: &str,
        uptime_secs: u64,
        mem_total_kb: u64,
        entries: &Vec<ProcEntry>,
        passwd: &str,
    ) -> (res: Vec<ProcessInfo>)
        requires
            entries_well_formed(entries@),
        ensures
            process_views(res@) == collection(
                old(self)@,
                cpu_stat@,
                uptime_secs,
                mem_total_kb,
                entry_views(entries@),
                passwd@,
            ).procs,
            final(self)@ == after_collection(
                old(self)@,
                cpu_stat@,
                uptime_secs,
                mem_total_kb,
                entry_views(entries@),
                passwd@,
            ),
    {
        proof {
            use_type_invariant(&*self);
        }
        let cur_cpu = parse_cpu_times(cpu_stat);
        let cpu_delta_total: u64 = match self.prev_cpu {
            Some(prev) => {
                let dt = cur_cpu.total.saturating_sub(prev.total);
                if dt == 0 {
                    1
                } else {
                    dt
                }
            },
            None => 1,
        };
        let now_ticks = uptime_secs.wrapping_mul(self.hz);
        let ghost hz = self@.hz;
        let ghost es = entry_views(entries@);
        let ghost st0 = CollectState { procs: Seq::empty(), times: self@.times, users: self@.users };
        let mut procs: Vec<ProcessInfo> = Vec::new();
        for i in 0..entries.len()
            invariant
                es == entry_views(entries@),
                entries_well_formed(entries@),
                self@.hz == hz,
                hz > 0,
                self@.prev_cpu == old(self)@.prev_cpu,
                self@.boot_time == old(self)@.boot_time,
                ({
                    let st = collect_fold(
                        st0,
                        es.take(i as int),
                        passwd@,
                        cpu_delta_total,
                        now_ticks,
                        hz,
                        mem_total_kb,
                    );
                    &&& process_views(procs@) == st.procs
                    &&& self@.times == st.times
                    &&& self@.users == st.users
                }),
        {
            assert(es.take(i + 1).drop_last() == es.take(i as int));
            assert(es.take(i + 1).last() == es[i as int]);
            let e = &entries[i];
            match parse_pid(e.name.as_str()) {
                Some(pid) => {
                    match self.read_process(
                        pid,
                        e.stat.as_str(),
                        e.status.as_str(),
                        passwd,
                        cpu_delta_total,
                        now_ticks,
                        mem_total_kb,
                    ) {
                        Some(info) => {
                            procs.push(info);
                            assert(process_views(procs@) =~= collect_fold(
                                st0,
                                es.take(i + 1),
                                passwd@,
                                cpu_delta_total,
                                now_ticks,
                                hz,
                                mem_total_kb,
                            ).procs);
                        },
                        None => {},
                    }
                },
                None => {},
            }
        }
        assert(es.take(entries.len() as int) == es);
        let ghost st = collect_fold(st0, es, passwd@, cpu_delta_total, now_ticks, hz, mem_total_kb);
        proof {
            lemma_fold_pids_recorded(st0, es, passwd@, cpu_delta_total, now_ticks, hz, mem_total_kb);
        }
        let mut live: HashMap<u32, u64> = HashMap::new();
        for k in 0..procs.len()
            invariant
                process_views(procs@) == st.procs,
                self@.times == st.times,
                forall|j: int| 0 <= j < st.procs.len() ==> st.times.contains_key(#[trigger] st.procs[j].pid),
                live@ == st.times.restrict(pids_of(st.procs.take(k as int))),
        {
            assert(st.procs[k as int] == procs@[k as int]@);
            let pid = procs[k].pid;
            match self.prev_proc_times.get(&pid) {
                Some(t) => {
                    live.insert(pid, *t);
                },
                None => {},
            }
            assert(pids_of(st.procs.take(k + 1)) =~= pids_of(st.procs.take(k as int)).insert(pid)) by {
                assert(st.procs.take(k + 1)[k as int] == st.procs[k as int]);
                assert forall|p: u32| pids_of(st.procs.take(k + 1)).contains(p) implies pids_of(
                    st.procs.take(k as int),
                ).insert(pid).contains(p) by {
                    let j = choose|j: int| 0 <= j < k + 1 && (#[trigger] st.procs.take(k + 1)[j]).pid == p;
                    if j < k {
                        assert(st.procs.take(k as int)[j] == st.procs.take(k + 1)[j]);
                    }
                }
                assert forall|p: u32| pids_of(st.procs.take(k as int)).insert(pid).contains(p) implies pids_of(
                    st.procs.take(k + 1),
                ).contains(p) by {
                    if p != pid {
                        let j = choose|j: int| 0 <= j < k && (#[trigger] st.procs.take(k as int)[j]).pid == p;
                        assert(st.procs.take(k + 1)[j] == st.procs.take(k as int)[j]);
                    }
                }
            }
            assert(live@ =~= st.times.restrict(pids_of(st.procs.take(k + 1))));
        }
        assert(st.procs.take(procs.len() as int) == st.procs);
        self.prev_proc_times = live;
        self.prev_cpu = Some(cur_cpu);
        procs
    }
}


/// The process ids of the processes in `ps` whose parent is `pid`, in order.
pub open spec fn child_pids(ps: Seq<ProcessView>, pid: u32) -> Seq<u32>
    decreases ps.len(),
{
    if ps.len() == 0 {
        Seq::empty()
    } else {
        let r = child_pids(ps.drop_last(), pid);
        if ps.last().ppid == pid {
            r.push(ps.last().pid)
        } else {
            r
        }
    }
}

/// `p` with its children set from the processes in `ps`: the ones whose
/// parent it is, or its children unchanged when none is.
pub open spec fn with_children(p: ProcessView, ps: Seq<ProcessView>) -> ProcessView {
    let kids = child_pids(ps, p.pid);
    if kids.len() > 0 {
        ProcessView { children: kids, ..p }
    } else {
        p
    }
}

/// The children that map `m` records for `p`: none when it has no entry.
pub open spec fn kids_in(m: Map<u32, Vec<u32>>, p: u32) -> Seq<u32> {
    if m.contains_key(p) {
        m[p]@
    } else {
        Seq::empty()
    }
}

/// Each process's children, by the id of the parent (see `child_pids`).
fn children_by_parent(ps: &Vec<ProcessInfo>) -> (res: HashMap<u32, Vec<u32>>)
    ensures
        forall|p: u32| #[trigger] kids_in(res@, p) == child_pids(process_views(ps@), p),
{
    let ghost vs = process_views(ps@);
    let mut map: HashMap<u32, Vec<u32>> = HashMap::new();
    assert forall|p: u32| #[trigger] kids_in(map@, p) == child_pids(vs.take(0), p) by {
        assert(vs.take(0).len() == 0);
    }
    for i in 0..ps.len()
        invariant
            vs == process_views(ps@),
            forall|p: u32| #[trigger] kids_in(map@, p) == child_pids(vs.take(i as int), p),
    {
        let pp = ps[i].ppid;
        let pid = ps[i].pid;
        let ghost before = map@;
        let mut v = match map.remove(&pp) {
            Some(v) => v,
            None => Vec::new(),
        };
        assert(v@ == kids_in(before, pp));
        v.push(pid);
        map.insert(pp, v);
        assert(vs.take(i + 1).drop_last() == vs.take(i as int));
        assert(vs.take(i + 1).last() == ps@[i as int]@);
        assert forall|p: u32| #[trigger] kids_in(map@, p) == child_pids(vs.take(i + 1), p) by {
            if p != pp {
                assert(kids_in(before, p) == child_pids(vs.take(i as int), p));
            }
        }
    }
    assert(vs.take(ps.len() as int) == vs);
    map
}

/// Fills in each process's children: the processes whose parent it is, in
/// list order. A process that is no one's parent keeps its children.
pub fn build_tree(procs: &mut Vec<ProcessInfo>)
    ensures
        process_views(final(procs)@) == tree_views(process_views(old(procs)@), process_views(old(procs)@)),
{
    let ghost vs = process_views(procs@);
    let map = children_by_parent(procs);
    let mut items: Vec<ProcessInfo> = Vec::new();
    std::mem::swap(procs, &mut items);
    let ghost v = items@;
    assert(tree_views(vs.take(0), vs) =~= process_views(procs@));
    for p0 in it: items.into_iter()
        invariant
            it.seq() == v,
            vs == process_views(v),
            forall|p: u32| #[trigger] kids_in(map@, p) == child_pids(vs, p),
            process_views(procs@) == tree_views(vs.take(it.index() as int), vs),
    {
        let ghost i = it.index();
        assert(p0 == v[i as int]);
        assert(vs[i as int] == p0@);
        let mut p = p0;
        assert(kids_in(map@, p.pid) == child_pids(vs, p.pid));
        match map.get(&p.pid) {
            Some(c) => {
                if c.len() > 0 {
                    let cc = c.clone();
                    assert(cc@ =~= c@);
                    p.children = cc;
                }
            },
            None => {},
        }
        assert(p@ == with_children(vs[i as int], vs));
        let ghost old_procs = procs@;
        procs.push(p);
        assert(procs@ == old_procs.push(p));
        assert(vs.take(i + 1) == vs.take(i as int).push(vs[i as int]));
        assert(tree_views(vs.take(i + 1), vs) =~= tree_views(vs.take(i as int), vs).push(with_children(vs[i as int], vs)));
        assert(process_views(procs@) =~= tree_views(vs.take(i + 1), vs));
    }
    assert(vs.take(vs.len() as int) == vs);
}

/// Each process of `ps` with its children set from `all` (see `with_children`).
pub open spec fn tree_views(ps: Seq<ProcessView>, all: Seq<ProcessView>) -> Seq<ProcessView> {
    ps.map_values(|p: ProcessView| with_children(p, all))
}

/// The name shown for a process: its `comm` text trimmed, or its id in
/// brackets when that text could not be read.
pub open spec fn comm_or_pid(comm: Option<Seq<char>>, pid: u32) -> Seq<char> {
    match comm {
        Some(t) => trim(t),
        None => seq!['['] + dec(pid as nat) + seq![']'],
    }
}

/// The view of an optional string.
pub open spec fn opt_view(s: Option<String>) -> Option<Seq<char>> {
    match s {
        Some(t) => Some(t@),
        None => None,
    }
}

/// The name shown for process `pid`, from the text of its `comm` file, if
/// that could be read.
pub fn proc_name(comm: &Option<String>, pid: u32) -> (res: String)
    ensures
        res@ == comm_or_pid(opt_view(*comm), pid),
{
    match comm {
        Some(t) => string_of(&trim_chars(&chars_of(t.as_str()))),
        None => {
            let mut r = String::new();
            push_char(&mut r, '[');
            let d = u64_to_string(pid as u64);
            r.append(d.as_str());
            push_char(&mut r, ']');
            assert(r@ =~= seq!['['] + dec(pid as nat) + seq![']']);
            r
        },
    }
}

/// A GPU process with its name as a sequence.
pub struct GpuView {
    pub pid: u32,
    pub name: Seq<char>,
    pub vram_kb: u64,
    pub gtt_kb: u64,
}

impl View for GpuProcessInfo {
    type V = GpuView;

    open spec fn view(&self) -> GpuView {
        GpuView { pid: self.pid, name: self.name@, vram_kb: self.vram_kb, gtt_kb: self.gtt_kb }
    }
}

/// The view of a GPU process, as a function.
pub open spec fn gpu_view_fn() -> spec_fn(GpuProcessInfo) -> GpuView {
    |g: GpuProcessInfo| g@
}

/// What the DRM fdinfo entries of one process add up to, and the text of its
/// `comm` file if that was read.
pub struct GpuUsage {
    pub pid: u32,
    pub vram_kb: u64,
    pub gtt_kb: u64,
    pub comm: Option<String>,
}

/// The first components of rows.
pub open spec fn firsts<T>(s: Seq<(T, KeyView)>) -> Seq<T> {
    s.map_values(|p: (T, KeyView)| p.0)
}

/// The GPU table's rows before sorting: each process that holds VRAM or GTT,
/// keyed by the 64-bit sum of the two.
pub open spec fn gpu_rows(us: Seq<GpuUsage>) -> Seq<(GpuView, KeyView)>
    decreases us.len(),
{
    if us.len() == 0 {
        Seq::empty()
    } else {
        let r = gpu_rows(us.drop_last());
        let u = us.last();
        if u.vram_kb > 0 || u.gtt_kb > 0 {
            r.push(
                (
                    GpuView {
                        pid: u.pid,
                        name: comm_or_pid(opt_view(u.comm), u.pid),
                        vram_kb: u.vram_kb,
                        gtt_kb: u.gtt_kb,
                    },
                    KeyView::Number(((u.vram_kb as nat + u.gtt_kb as nat) % 0x1_0000_0000_0000_0000) as u64),
                ),
            )
        } else {
            r
        }
    }
}

proof fn lemma_gpu_rows_keyed(us: Seq<GpuUsage>)
    ensures
        forall|i: int|
            0 <= i < gpu_rows(us).len() ==> (#[trigger] gpu_rows(us)[i]).1 == KeyView::Number(
                ((gpu_rows(us)[i].0.vram_kb as nat + gpu_rows(us)[i].0.gtt_kb as nat)
                    % 0x1_0000_0000_0000_0000) as u64,
            ),
    decreases us.len(),
{
    if us.len() > 0 {
        lemma_gpu_rows_keyed(us.drop_last());
        let r0 = gpu_rows(us.drop_last());
        let r = gpu_rows(us);
        assert forall|i: int| 0 <= i < r.len() implies (#[trigger] r[i]).1 == KeyView::Number(
            ((r[i].0.vram_kb as nat + r[i].0.gtt_kb as nat) % 0x1_0000_0000_0000_0000) as u64,
        ) by {
            if i < r0.len() {
                assert(r[i] == r0[i]);
            }
        }
    }
}

/// Whether a GPU row is keyed by its VRAM plus GTT, in 64 bits.
spec fn gpu_keyed(r: (GpuView, KeyView)) -> bool {
    r.1 == KeyView::Number(((r.0.vram_kb as nat + r.0.gtt_kb as nat) % 0x1_0000_0000_0000_0000) as u64)
}

proof fn lemma_sorted_gpu_keyed(us: Seq<GpuUsage>)
    ensures
        forall|i: int|
            0 <= i < stable_sort(gpu_rows(us), SortDir::Desc).len() ==> gpu_keyed(
                #[trigger] stable_sort(gpu_rows(us), SortDir::Desc)[i],
            ),
{
    broadcast use vstd::seq_lib::group_to_multiset_ensures;

    let k = gpu_rows(us);
    let s = stable_sort(k, SortDir::Desc);
    lemma_gpu_rows_keyed(us);
    law_sort_keeps_rows(k, SortDir::Desc);
    assert forall|i: int| 0 <= i < s.len() implies gpu_keyed(#[trigger] s[i]) by {
        assert(s.to_multiset().count(s[i]) > 0) by {
            assert(s.contains(s[i]));
        }
        assert(k.contains(s[i]));
        let j = choose|j: int| 0 <= j < k.len() && k[j] == s[i];
        assert(gpu_keyed(k[j]));
    }
}

/// The GPU table puts the largest VRAM plus GTT first: each row's sum (in
/// 64 bits, as a release build adds) is at least the next row's, and so is
/// the plain sum when neither overflows.
pub proof fn law_gpu_table_largest_first(us: Seq<GpuUsage>)
    ensures
        ({
            let t = firsts(stable_sort(gpu_rows(us), SortDir::Desc));
            forall|i: int|
                0 <= i < t.len() - 1 ==> {
                    let a = #[trigger] t[i];
                    let b = t[i + 1];
                    &&& (a.vram_kb as nat + a.gtt_kb as nat) % 0x1_0000_0000_0000_0000 >= (
                    b.vram_kb as nat + b.gtt_kb as nat) % 0x1_0000_0000_0000_0000
                    &&& (a.vram_kb + a.gtt_kb <= u64::MAX && b.vram_kb + b.gtt_kb <= u64::MAX)
                        ==> a.vram_kb + a.gtt_kb >= b.vram_kb + b.gtt_kb
                }
        }),
{
    let k = gpu_rows(us);
    let s = stable_sort(k, SortDir::Desc);
    let t = firsts(s);
    lemma_sorted_gpu_keyed(us);
    law_sort_orders_rows(k, SortDir::Desc);
    assert forall|i: int| 0 <= i < t.len() - 1 implies {
        let a = #[trigger] t[i];
        let b = t[i + 1];
        &&& (a.vram_kb as nat + a.gtt_kb as nat) % 0x1_0000_0000_0000_0000 >= (b.vram_kb as nat
            + b.gtt_kb as nat) % 0x1_0000_0000_0000_0000
        &&& (a.vram_kb + a.gtt_kb <= u64::MAX && b.vram_kb + b.gtt_kb <= u64::MAX) ==> a.vram_kb
            + a.gtt_kb >= b.vram_kb + b.gtt_kb
    } by {
        assert(t[i] == s[i].0 && t[i + 1] == s[i + 1].0);
        assert(gpu_keyed(s[i]));
        assert(gpu_keyed(s[i + 1]));
        assert(keys_ordered(s, SortDir::Desc));
        assert(key_order(s[i].1, s[i + 1].1, SortDir::Desc) <= 0);
    }
}

/// The GPU table: the processes that hold VRAM or GTT, the largest total
/// first, processes with equal totals in the order they were scanned.
pub fn collect_gpu_processes(usages: Vec<GpuUsage>) -> (res: Vec<GpuProcessInfo>)
    ensures
        res@.map_values(gpu_view_fn()) == firsts(stable_sort(gpu_rows(usages@), SortDir::Desc)),
{
    let ghost us = usages@;
    let mut rows: Vec<(GpuProcessInfo, SortKey)> = Vec::new();
    let ghost f = gpu_view_fn();
    for i in 0..usages.len()
        invariant
            us == usages@,
            f == gpu_view_fn(),
            map_rows(rows_view(rows@), f) == gpu_rows(us.take(i as int)),
    {
        assert(us.take(i + 1).drop_last() == us.take(i as int));
        assert(us.take(i + 1).last() == us[i as int]);
        let u = &usages[i];
        if u.vram_kb > 0 || u.gtt_kb > 0 {
            let name = proc_name(&u.comm, u.pid);
            let key = u.vram_kb.wrapping_add(u.gtt_kb);
            assert(key as nat == (u.vram_kb as nat + u.gtt_kb as nat) % 0x1_0000_0000_0000_0000);
            let ghost old_rows = rows@;
            let row = (GpuProcessInfo { pid: u.pid, name, vram_kb: u.vram_kb, gtt_kb: u.gtt_kb }, SortKey::Number(key));
            rows.push(row);
            assert(rows@ == old_rows.push(row));
            assert(map_rows(rows_view(rows@), f) =~= map_rows(rows_view(old_rows), f).push((f(row.0), row.1@)));
        }
        assert(map_rows(rows_view(rows@), f) =~= gpu_rows(us.take(i + 1)));
    }
    assert(us.take(usages.len() as int) == us);
    let ghost rv = rows_view(rows@);
    let sorted = sort_rows(rows, SortDir::Desc);
    proof {
        law_sort_ignores_rows(rv, SortDir::Desc, f);
    }
    let mut res: Vec<GpuProcessInfo> = Vec::new();
    let ghost sr = sorted@;
    let ghost sv = rows_view(sorted@);
    for row in it: sorted.into_iter()
        invariant
            it.seq() == sr,
            sv == rows_view(sr),
            f == gpu_view_fn(),
            res@.map_values(f) == firsts(map_rows(sv, f)).take(it.index() as int),
    {
        let ghost i = it.index();
        assert(row == sr[i as int]);
        let (g, _k) = row;
        assert(sv[i as int].0 == g);
        let ghost old_res = res@;
        res.push(g);
        assert(res@ == old_res.push(g));
        assert(firsts(map_rows(sv, f))[i as int] == f(g));
        assert(res@.map_values(f) =~= old_res.map_values(f).push(f(g)));
        assert(firsts(map_rows(sv, f)).take(i + 1) =~= firsts(map_rows(sv, f)).take(i as int).push(f(g)));
    }
    assert(firsts(map_rows(sv, f)).take(sv.len() as int) =~= firsts(map_rows(sv, f)));
    res
}


/// An accelerator-using process with its texts as sequences.
pub struct NpuView {
    pub pid: u32,
    pub name: Seq<char>,
    pub fd_path: Seq<char>,
}

impl View for NpuProcessInfo {
    type V = NpuView;

    open spec fn view(&self) -> NpuView {
        NpuView { pid: self.pid, name: self.name@, fd_path: self.fd_path@ }
    }
}

/// The view of an accelerator-using process, as a function.
pub open spec fn npu_view_fn() -> spec_fn(NpuProcessInfo) -> NpuView {
    |p: NpuProcessInfo| p@
}

/// The targets of one process's file descriptors, and the text of its
/// `comm` file if that was read.
pub struct NpuScan {
    pub pid: u32,
    pub links: Vec<String>,
    pub comm: Option<String>,
}

/// The NPU table's rows before sorting: each process with a descriptor on
/// an accelerator device, showing the first such target, keyed by its id.
pub open spec fn npu_rows(ss: Seq<NpuScan>) -> Seq<(NpuView, KeyView)>
    decreases ss.len(),
{
    if ss.len() == 0 {
        Seq::empty()
    } else {
        let r = npu_rows(ss.drop_last());
        let sc = ss.last();
        match accel_target(string_views(sc.links@)) {
            Some(k) => r.push(
                (
                    NpuView {
                        pid: sc.pid,
                        name: comm_or_pid(opt_view(sc.comm), sc.pid),
                        fd_path: sc.links@[k]@,
                    },
                    KeyView::Number(sc.pid as u64),
                ),
            ),
            None => r,
        }
    }
}

proof fn lemma_accel_target_bound(links: Seq<Seq<char>>)
    ensures
        accel_target(links) matches Some(k) ==> 0 <= k < links.len(),
    decreases links.len(),
{
    if links.len() > 0 {
        lemma_accel_target_bound(links.drop_first());
    }
}

/// The NPU table: the processes with a descriptor on an accelerator device,
/// by ascending id, equal ids in the order they were scanned.
pub fn collect_npu_processes(scans: Vec<NpuScan>) -> (res: Vec<NpuProcessInfo>)
    ensures
        res@.map_values(npu_view_fn()) == firsts(stable_sort(npu_rows(scans@), SortDir::Asc)),
{
    let ghost ss = scans@;
    let mut rows: Vec<(NpuProcessInfo, SortKey)> = Vec::new();
    let ghost f = npu_view_fn();
    for i in 0..scans.len()
        invariant
            ss == scans@,
            f == npu_view_fn(),
            map_rows(rows_view(rows@), f) == npu_rows(ss.take(i as int)),
    {
        assert(ss.take(i + 1).drop_last() == ss.take(i as int));
        assert(ss.take(i + 1).last() == ss[i as int]);
        let sc = &scans[i];
        proof {
            lemma_accel_target_bound(string_views(sc.links@));
        }
        match find_accel_link(&sc.links) {
            Some(k) => {
                assert(string_views(sc.links@)[k as int] == sc.links@[k as int]@);
                let name = proc_name(&sc.comm, sc.pid);
                let path = sc.links[k].clone();
                let ghost old_rows = rows@;
                let row = (NpuProcessInfo { pid: sc.pid, name, fd_path: path }, SortKey::Number(sc.pid as u64));
                rows.push(row);
                assert(rows@ == old_rows.push(row));
                assert(map_rows(rows_view(rows@), f) =~= map_rows(rows_view(old_rows), f).push((f(row.0), row.1@)));
                assert(npu_rows(ss.take(i + 1)) == npu_rows(ss.take(i as int)).push((f(row.0), row.1@)));
            },
            None => {
                assert(npu_rows(ss.take(i + 1)) == npu_rows(ss.take(i as int)));
            },
        }
        assert(map_rows(rows_view(rows@), f) =~= npu_rows(ss.take(i + 1)));
    }
    assert(ss.take(scans.len() as int) == ss);
    let ghost rv = rows_view(rows@);
    let sorted = sort_rows(rows, SortDir::Asc);
    proof {
        law_sort_ignores_rows(rv, SortDir::Asc, f);
    }
    let mut res: Vec<NpuProcessInfo> = Vec::new();
    let ghost sr = sorted@;
    let ghost sv = rows_view(sorted@);
    for row in it: sorted.into_iter()
        invariant
            it.seq() == sr,
            sv == rows_view(sr),
            f == npu_view_fn(),
            res@.map_values(f) == firsts(map_rows(sv, f)).take(it.index() as int),
    {
        let ghost i = it.index();
        assert(row == sr[i as int]);
        let (p, _k) = row;
        assert(sv[i as int].0 == p);
        let ghost old_res = res@;
        res.push(p);
        assert(res@ == old_res.push(p));
        assert(firsts(map_rows(sv, f))[i as int] == f(p));
        assert(res@.map_values(f) =~= old_res.map_values(f).push(f(p)));
        assert(firsts(map_rows(sv, f)).take(i + 1) =~= firsts(map_rows(sv, f)).take(i as int).push(f(p)));
    }
    assert(firsts(map_rows(sv, f)).take(sv.len() as int) =~= firsts(map_rows(sv, f)));
    res
}

impl ProcCollector {
    /// The busy and the total CPU time between the previous collection and
    /// `cur`: nothing before the first collection or when no time passed;
    /// the busy part is the total less the idle part, in 64 bits.
    pub fn cpu_busy(&self, cur: CpuTimes) -> (res: Option<(u64, u64)>)
        ensures
            match self@.prev_cpu {
                None => res is None,
                Some(p) => {
                    let total = sat_sub(cur.total as nat, p.total as nat);
                    let idle = sat_sub(cur.idle as nat, p.idle as nat);
                    if total > 0 {
                        res == Some(
                            (
                                ((total - idle + 0x1_0000_0000_0000_0000) % 0x1_0000_0000_0000_0000) as u64,
                                total as u64,
                            ),
                        )
                    } else {
                        res is None
                    }
                },
            },
    {
        match self.prev_cpu {
            Some(prev) => {
                let total_delta = cur.total.saturating_sub(prev.total);
                let idle_delta = cur.idle.saturating_sub(prev.idle);
                if total_delta > 0 {
                    Some((total_delta.wrapping_sub(idle_delta), total_delta))
                } else {
                    None
                }
            },
            None => None,
        }
    }
}

} // verus!

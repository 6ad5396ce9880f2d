use vstd::prelude::*;
use crate::proc_info::{
    CollectorView, GpuProcessInfo, GpuView, NpuProcessInfo, NpuView, ProcCollector, ProcessInfo,
    ProcessView, build_tree, gpu_view_fn, npu_view_fn, opt_view, process_views, tree_views,
};
use crate::types::{InputMode, SortColumn, SortDir, Tab};
use crate::sorting::{KeyView, SortKey, key_order};
use crate::stable::{
    keys_ordered, law_sort_ignores_rows, law_sort_keeps_rows, law_sort_orders_rows, map_rows,
    rows_view, sort_rows, stable_sort,
};
use crate::proc_info::firsts;
use crate::text::{chars_of, contains_chars, lex_order, lowercase, occurs_in, to_lowercase};
use crate::input::paged_down;

verus! {

/// The dashboard's state: what was collected, what is shown, and what the
/// keyboard is driving.
pub struct App {
    pub collector: ProcCollector,
    pub processes: Vec<ProcessInfo>,
    pub gpu_processes: Vec<GpuProcessInfo>,
    pub npu_processes: Vec<NpuProcessInfo>,
    pub tab: Tab,
    pub sort_col: SortColumn,
    pub sort_dir: SortDir,
    pub selected: usize,
    pub scroll_offset: usize,
    pub tree_view: bool,
    pub show_graphs: bool,
    pub input_mode: InputMode,
    pub filter_text: String,
    pub renice_text: String,
    pub signal_menu_idx: usize,
    pub status_msg: Option<String>,
    pub quit: bool,
    pub my_uid: u32,
}

/// The dashboard's state with its texts and lists as sequences.
pub struct AppView {
    pub collector: CollectorView,
    pub processes: Seq<ProcessView>,
    pub gpu_processes: Seq<GpuView>,
    pub npu_processes: Seq<NpuView>,
    pub tab: Tab,
    pub sort_col: SortColumn,
    pub sort_dir: SortDir,
    pub selected: usize,
    pub scroll_offset: usize,
    pub tree_view: bool,
    pub show_graphs: bool,
    pub input_mode: InputMode,
    pub filter_text: Seq<char>,
    pub renice_text: Seq<char>,
    pub signal_menu_idx: usize,
    pub status_msg: Option<Seq<char>>,
    pub quit: bool,
    pub my_uid: u32,
}

impl View for App {
    type V = AppView;

    open spec fn view(&self) -> AppView {
        AppView {
            collector: self.collector@,
            processes: process_views(self.processes@),
            gpu_processes: self.gpu_processes@.map_values(gpu_view_fn()),
            npu_processes: self.npu_processes@.map_values(npu_view_fn()),
            tab: self.tab,
            sort_col: self.sort_col,
            sort_dir: self.sort_dir,
            selected: self.selected,
            scroll_offset: self.scroll_offset,
            tree_view: self.tree_view,
            show_graphs: self.show_graphs,
            input_mode: self.input_mode,
            filter_text: self.filter_text@,
            renice_text: self.renice_text@,
            signal_menu_idx: self.signal_menu_idx,
            status_msg: opt_view(self.status_msg),
            quit: self.quit,
            my_uid: self.my_uid,
        }
    }
}

/// The number of rows in the current tab's table.
pub open spec fn visible_len(v: AppView) -> nat {
    match v.tab {
        Tab::Processes => v.processes.len(),
        Tab::Gpu => v.gpu_processes.len(),
        Tab::Npu => v.npu_processes.len(),
    }
}

/// The id of the process on the selected row, if the row exists.
pub open spec fn selected_pid(v: AppView) -> Option<u32> {
    if v.selected < visible_len(v) {
        match v.tab {
            Tab::Processes => Some(v.processes[v.selected as int].pid),
            Tab::Gpu => Some(v.gpu_processes[v.selected as int].pid),
            Tab::Npu => Some(v.npu_processes[v.selected as int].pid),
        }
    } else {
        None
    }
}

/// The name shown on the selected row, if the row exists.
pub open spec fn selected_name(v: AppView) -> Option<Seq<char>> {
    if v.selected < visible_len(v) {
        match v.tab {
            Tab::Processes => Some(v.processes[v.selected as int].name),
            Tab::Gpu => Some(v.gpu_processes[v.selected as int].name),
            Tab::Npu => Some(v.npu_processes[v.selected as int].name),
        }
    } else {
        None
    }
}

/// Whether the user may signal process `pid`: root may signal anything;
/// otherwise the process must be the user's, as the process table records
/// it (the selected row on the process tab; any row with that id elsewhere).
pub open spec fn may_signal(v: AppView, pid: u32) -> bool {
    if v.my_uid == 0 {
        true
    } else {
        match v.tab {
            Tab::Processes => v.selected < v.processes.len() && v.processes[v.selected as int].uid
                == v.my_uid,
            _ => exists|i: int|
                0 <= i < v.processes.len() && (#[trigger] v.processes[i]).pid == pid
                    && v.processes[i].uid == v.my_uid,
        }
    }
}

/// The selection is on a row, or at the top of an empty table.
pub open spec fn selection_valid(v: AppView) -> bool {
    v.selected < visible_len(v) || v.selected == 0
}

/// The tab after `t`, wrapping around.
pub open spec fn tab_after(t: Tab) -> Tab {
    match t {
        Tab::Processes => Tab::Gpu,
        Tab::Gpu => Tab::Npu,
        Tab::Npu => Tab::Processes,
    }
}

/// The tab before `t`, wrapping around.
pub open spec fn tab_before(t: Tab) -> Tab {
    match t {
        Tab::Processes => Tab::Npu,
        Tab::Gpu => Tab::Processes,
        Tab::Npu => Tab::Gpu,
    }
}

/// What the process table is sorted by: the column's value, where CPU use
/// is the process's share of the span (its tick count, the span being the
/// same for every row), memory use is the resident set (all equal when the
/// total memory is unknown), and the state is its character's code.
pub open spec fn process_key(p: ProcessView, col: SortColumn) -> KeyView {
    match col {
        SortColumn::Pid => KeyView::Number(p.pid as u64),
        SortColumn::User => KeyView::Text(p.user),
        SortColumn::Name => KeyView::Text(p.name),
        SortColumn::Cpu => KeyView::Number(p.cpu_ticks),
        SortColumn::Mem => KeyView::Number(
            if p.mem_total_kb > 0 {
                p.rss_kb
            } else {
                0
            },
        ),
        SortColumn::Rss => KeyView::Number(p.rss_kb),
        SortColumn::State => KeyView::Number(p.state as u32 as u64),
        SortColumn::Runtime => KeyView::Number(p.runtime_secs),
    }
}

/// Each process paired with its key for `col`.
pub open spec fn keyed(ps: Seq<ProcessView>, col: SortColumn) -> Seq<(ProcessView, KeyView)> {
    ps.map_values(|p: ProcessView| (p, process_key(p, col)))
}

/// The processes sorted by `col` in direction `dir`, stably.
pub open spec fn sorted_processes(ps: Seq<ProcessView>, col: SortColumn, dir: SortDir) -> Seq<
    ProcessView,
> {
    firsts(stable_sort(keyed(ps, col), dir))
}

/// The processes whose lower-case name contains `needle`, in order.
pub open spec fn matching(ps: Seq<ProcessView>, needle: Seq<char>) -> Seq<ProcessView>
    decreases ps.len(),
{
    if ps.len() == 0 {
        ps
    } else {
        let r = matching(ps.drop_last(), needle);
        if occurs_in(lowercase(ps.last().name), needle) {
            r.push(ps.last())
        } else {
            r
        }
    }
}

/// The processes the table shows after a collection: those whose name
/// contains the filter (ignoring case) when there is one, sorted by the
/// sort column, with children filled in when the tree is shown.
pub open spec fn shown_processes(
    ps: Seq<ProcessView>,
    filter: Seq<char>,
    col: SortColumn,
    dir: SortDir,
    tree: bool,
) -> Seq<ProcessView> {
    let filtered = if filter.len() > 0 {
        matching(ps, lowercase(filter))
    } else {
        ps
    };
    let sorted = sorted_processes(filtered, col, dir);
    if tree {
        tree_views(sorted, sorted)
    } else {
        sorted
    }
}

/// The selection moved onto the last of `len` rows if it is past it, or
/// to the top of an empty table.
pub open spec fn clamped(selected: usize, len: nat) -> usize {
    if len == 0 {
        0
    } else if selected >= len {
        (len - 1) as usize
    } else {
        selected
    }
}

/// The view of a process, as a function.
pub open spec fn process_view_fn() -> spec_fn(ProcessInfo) -> ProcessView {
    |p: ProcessInfo| p@
}

fn process_sort_key(p: &ProcessInfo, col: SortColumn) -> (res: SortKey)
    ensures
        res@ == process_key(p@, col),
{
    match col {
        SortColumn::Pid => SortKey::Number(p.pid as u64),
        SortColumn::User => SortKey::Text(p.user.clone()),
        SortColumn::Name => SortKey::Text(p.name.clone()),
        SortColumn::Cpu => SortKey::Number(p.cpu_ticks),
        SortColumn::Mem => SortKey::Number(
            if p.mem_total_kb > 0 {
                p.rss_kb
            } else {
                0
            },
        ),
        SortColumn::Rss => SortKey::Number(p.rss_kb),
        SortColumn::State => SortKey::Number((p.state as u32) as u64),
        SortColumn::Runtime => SortKey::Number(p.runtime_secs),
    }
}

/// Sorts processes by `col` in direction `dir`, stably (see `sorted_processes`).
pub fn sort_process_list(ps: Vec<ProcessInfo>, col: SortColumn, dir: SortDir) -> (res: Vec<ProcessInfo>)
    ensures
        process_views(res@) == sorted_processes(process_views(ps@), col, dir),
{
    let ghost vs = process_views(ps@);
    let ghost v = ps@;
    let ghost f = process_view_fn();
    let mut rows: Vec<(ProcessInfo, SortKey)> = Vec::new();
    for p in it: ps.into_iter()
        invariant
            it.seq() == v,
            vs == process_views(v),
            f == process_view_fn(),
            map_rows(rows_view(rows@), f) == keyed(vs.take(it.index() as int), col),
    {
        let ghost i = it.index();
        assert(p == v[i as int]);
        assert(vs[i as int] == p@);
        let k = process_sort_key(&p, col);
        let ghost old_rows = rows@;
        let row = (p, k);
        rows.push(row);
        assert(rows@ == old_rows.push(row));
        assert(keyed(vs.take(i + 1), col) =~= keyed(vs.take(i as int), col).push((vs[i as int], process_key(vs[i as int], col))));
        assert(map_rows(rows_view(rows@), f) =~= map_rows(rows_view(old_rows), f).push((f(row.0), row.1@)));
    }
    assert(vs.take(vs.len() as int) == vs);
    let ghost rv = rows_view(rows@);
    let sorted = sort_rows(rows, dir);
    proof {
        law_sort_ignores_rows(rv, dir, f);
    }
    let mut res: Vec<ProcessInfo> = Vec::new();
    let ghost sr = sorted@;
    let ghost sv = rows_view(sorted@);
    for row in it2: sorted.into_iter()
        invariant
            it2.seq() == sr,
            sv == rows_view(sr),
            f == process_view_fn(),
            process_views(res@) == firsts(map_rows(sv, f)).take(it2.index() as int),
    {
        let ghost i = it2.index();
        assert(row == sr[i as int]);
        let (p, _k) = row;
        let ghost old_res = res@;
        res.push(p);
        assert(res@ == old_res.push(p));
        assert(sv[i as int].0 == p);
        assert(firsts(map_rows(sv, f))[i as int] == f(p));
        assert(process_views(res@) =~= process_views(old_res).push(f(p)));
        assert(firsts(map_rows(sv, f)).take(i + 1) =~= firsts(map_rows(sv, f)).take(i as int).push(f(p)));
    }
    assert(firsts(map_rows(sv, f)).take(sv.len() as int) =~= firsts(map_rows(sv, f)));
    res
}

/// The processes whose lower-case name contains `needle` (see `matching`).
pub fn filter_processes(ps: Vec<ProcessInfo>, needle: &String) -> (res: Vec<ProcessInfo>)
    ensures
        process_views(res@) == matching(process_views(ps@), needle@),
{
    let ghost vs = process_views(ps@);
    let ghost v = ps@;
    let nc = chars_of(needle.as_str());
    let mut res: Vec<ProcessInfo> = Vec::new();
    for p in it: ps.into_iter()
        invariant
            it.seq() == v,
            vs == process_views(v),
            nc@ == needle@,
            process_views(res@) == matching(vs.take(it.index() as int), needle@),
    {
        let ghost i = it.index();
        assert(p == v[i as int]);
        assert(vs.take(i + 1).drop_last() == vs.take(i as int));
        assert(vs.take(i + 1).last() == p@);
        let lower = to_lowercase(p.name.as_str());
        if contains_chars(&chars_of(lower.as_str()), &nc) {
            let ghost old_res = res@;
            res.push(p);
            assert(process_views(res@) =~= process_views(old_res).push(vs[i as int]));
        }
    }
    assert(vs.take(vs.len() as int) == vs);
    res
}



proof fn lemma_map_keeps_permutation<A, B>(a: Seq<A>, b: Seq<A>, f: spec_fn(A) -> B)
    requires
        a.to_multiset() == b.to_multiset(),
    ensures
        a.map_values(f).to_multiset() == b.map_values(f).to_multiset(),
    decreases a.len(),
{
    broadcast use vstd::seq_lib::group_to_multiset_ensures;

    if a.len() == 0 {
        assert(a.to_multiset().len() == 0);
        assert(b.to_multiset().len() == 0);
        assert(b.len() == 0);
        assert(a.map_values(f) =~= Seq::<B>::empty());
        assert(b.map_values(f) =~= Seq::<B>::empty());
    } else {
        let x = a.last();
        assert(a.to_multiset().count(x) > 0) by {
            assert(a.contains(x)) by {
                assert(a[a.len() - 1] == x);
            }
        }
        assert(b.contains(x));
        let j = choose|j: int| 0 <= j < b.len() && b[j] == x;
        let a2 = a.drop_last();
        let b2 = b.remove(j);
        assert(a.remove(a.len() - 1) =~= a2);
        assert(a2.to_multiset() == b2.to_multiset());
        lemma_map_keeps_permutation(a2, b2, f);
        assert(a.map_values(f) =~= a2.map_values(f).push(f(x)));
        assert(b.map_values(f) =~= b2.map_values(f).insert(j, f(x)));
    }
}

/// Sorting the process table neither loses nor adds a process, and puts
/// each row's value in the sort column at or before the next row's in the
/// chosen direction.
pub proof fn law_process_sort_permutes_and_orders(ps: Seq<ProcessView>, col: SortColumn, dir: SortDir)
    ensures
        sorted_processes(ps, col, dir).to_multiset() == ps.to_multiset(),
        forall|i: int|
            0 <= i < sorted_processes(ps, col, dir).len() - 1 ==> key_order(
                process_key(#[trigger] sorted_processes(ps, col, dir)[i], col),
                process_key(sorted_processes(ps, col, dir)[i + 1], col),
                dir,
            ) <= 0,
{
    broadcast use vstd::seq_lib::group_to_multiset_ensures;

    let k = keyed(ps, col);
    let s = stable_sort(k, dir);
    let r = sorted_processes(ps, col, dir);
    let f = |p: (ProcessView, KeyView)| p.0;
    law_sort_keeps_rows(k, dir);
    law_sort_orders_rows(k, dir);
    lemma_map_keeps_permutation(s, k, f);
    assert(r =~= s.map_values(f));
    assert(k.map_values(f) =~= ps);
    assert forall|i: int| 0 <= i < s.len() implies (#[trigger] s[i]).1 == process_key(s[i].0, col) by {
        assert(s.to_multiset().count(s[i]) > 0) by {
            assert(s.contains(s[i]));
        }
        assert(k.contains(s[i]));
        let j = choose|j: int| 0 <= j < k.len() && k[j] == s[i];
        assert(k[j] == (ps[j], process_key(ps[j], col)));
    }
    assert forall|i: int| 0 <= i < r.len() - 1 implies key_order(
        process_key(#[trigger] r[i], col),
        process_key(r[i + 1], col),
        dir,
    ) <= 0 by {
        assert(s[i].1 == process_key(s[i].0, col));
        assert(s[i + 1].1 == process_key(s[i + 1].0, col));
        assert(keys_ordered(s, dir));
        assert(key_order(s[i].1, s[i + 1].1, dir) <= 0);
    }
}

/// Filtering keeps exactly the processes whose lower-case name contains
/// the needle, in the order they came.
pub proof fn law_filter_keeps_exactly_matches(ps: Seq<ProcessView>, needle: Seq<char>)
    ensures
        forall|i: int|
            0 <= i < matching(ps, needle).len() ==> occurs_in(
                lowercase((#[trigger] matching(ps, needle)[i]).name),
                needle,
            ) && ps.contains(matching(ps, needle)[i]),
        forall|i: int|
            0 <= i < ps.len() && occurs_in(lowercase((#[trigger] ps[i]).name), needle)
                ==> matching(ps, needle).contains(ps[i]),
        matching(ps, needle).len() <= ps.len(),
    decreases ps.len(),
{
    if ps.len() > 0 {
        let p = ps.drop_last();
        law_filter_keeps_exactly_matches(p, needle);
        let r0 = matching(p, needle);
        let r = matching(ps, needle);
        assert forall|i: int| 0 <= i < r.len() implies occurs_in(
            lowercase((#[trigger] r[i]).name),
            needle,
        ) && ps.contains(r[i]) by {
            if i < r0.len() {
                assert(r[i] == r0[i]);
                let j = choose|j: int| 0 <= j < p.len() && p[j] == r0[i];
                assert(ps[j] == p[j]);
            } else {
                assert(r[i] == ps.last());
                assert(ps[ps.len() - 1] == ps.last());
            }
        }
        assert forall|i: int|
            0 <= i < ps.len() && occurs_in(lowercase((#[trigger] ps[i]).name), needle)
                implies r.contains(ps[i]) by {
            if i < ps.len() - 1 {
                assert(p[i] == ps[i]);
                assert(r0.contains(p[i]));
                let j = choose|j: int| 0 <= j < r0.len() && r0[j] == p[i];
                assert(r[j] == r0[j]);
            } else {
                assert(r[r.len() - 1] == ps[i]);
            }
        }
    }
}

/// After a collection the process table shows exactly the collected
/// processes that match the filter (all of them when there is none), each
/// once, ordered by the sort column; the tree view only fills in children.
pub proof fn law_table_shows_the_matches(
    ps: Seq<ProcessView>,
    filter: Seq<char>,
    col: SortColumn,
    dir: SortDir,
    tree: bool,
)
    ensures
        ({
            let kept = if filter.len() > 0 {
                matching(ps, lowercase(filter))
            } else {
                ps
            };
            let shown = shown_processes(ps, filter, col, dir, tree);
            &&& shown.len() == kept.len()
            &&& !tree ==> shown.to_multiset() == kept.to_multiset()
            &&& !tree ==> shown == sorted_processes(kept, col, dir)
            &&& tree ==> shown == tree_views(sorted_processes(kept, col, dir), sorted_processes(kept, col, dir))
        }),
{
    broadcast use vstd::seq_lib::group_to_multiset_ensures;

    let kept = if filter.len() > 0 {
        matching(ps, lowercase(filter))
    } else {
        ps
    };
    law_process_sort_permutes_and_orders(kept, col, dir);
    let sorted = sorted_processes(kept, col, dir);
    assert(sorted.to_multiset().len() == kept.to_multiset().len());
}

/// The process table sorted by a column is ordered by the value that column
/// shows: the id, the user and the name (by code point), the CPU ticks
/// (the share of one span), the resident set size (for the memory share,
/// among rows of the same known total memory), the state character and the
/// running time; ascending or descending as asked.
pub proof fn law_sort_follows_the_column(ps: Seq<ProcessView>, col: SortColumn, dir: SortDir)
    ensures
        ({
            let r = sorted_processes(ps, col, dir);
            forall|i: int|
                0 <= i < r.len() - 1 ==> {
                    let a = #[trigger] r[i];
                    let b = r[i + 1];
                    let (x, y) = if dir == SortDir::Asc {
                        (a, b)
                    } else {
                        (b, a)
                    };
                    &&& col == SortColumn::Pid ==> x.pid <= y.pid
                    &&& col == SortColumn::User ==> lex_order(x.user, y.user) <= 0
                    &&& col == SortColumn::Name ==> lex_order(x.name, y.name) <= 0
                    &&& col == SortColumn::Cpu ==> x.cpu_ticks <= y.cpu_ticks
                    &&& col == SortColumn::Mem && x.mem_total_kb == y.mem_total_kb
                        && x.mem_total_kb > 0 ==> x.rss_kb <= y.rss_kb
                    &&& col == SortColumn::Rss ==> x.rss_kb <= y.rss_kb
                    &&& col == SortColumn::State ==> x.state <= y.state
                    &&& col == SortColumn::Runtime ==> x.runtime_secs <= y.runtime_secs
                }
        }),
{
    law_process_sort_permutes_and_orders(ps, col, dir);
    let r = sorted_processes(ps, col, dir);
    assert forall|i: int| 0 <= i < r.len() - 1 implies {
        let a = #[trigger] r[i];
        let b = r[i + 1];
        let (x, y) = if dir == SortDir::Asc {
            (a, b)
        } else {
            (b, a)
        };
        &&& col == SortColumn::Pid ==> x.pid <= y.pid
        &&& col == SortColumn::User ==> lex_order(x.user, y.user) <= 0
        &&& col == SortColumn::Name ==> lex_order(x.name, y.name) <= 0
        &&& col == SortColumn::Cpu ==> x.cpu_ticks <= y.cpu_ticks
        &&& col == SortColumn::Mem && x.mem_total_kb == y.mem_total_kb && x.mem_total_kb > 0
            ==> x.rss_kb <= y.rss_kb
        &&& col == SortColumn::Rss ==> x.rss_kb <= y.rss_kb
        &&& col == SortColumn::State ==> x.state <= y.state
        &&& col == SortColumn::Runtime ==> x.runtime_secs <= y.runtime_secs
    } by {
        assert(key_order(process_key(r[i], col), process_key(r[i + 1], col), dir) <= 0);
    }
}

impl App {
    /// Takes in a collection: the processes (filtered, sorted and, in tree
    /// view, given their children; see `shown_processes`), the GPU and NPU
    /// tables, and the selection kept on a row.
    pub fn tick(
        &mut self,
        processes: Vec<ProcessInfo>,
        gpu_processes: Vec<GpuProcessInfo>,
        npu_processes: Vec<NpuProcessInfo>,
    )
        ensures
            ({
                let o = old(self)@;
                let shown = shown_processes(
                    process_views(processes@),
                    o.filter_text,
                    o.sort_col,
                    o.sort_dir,
                    o.tree_view,
                );
                let gv = gpu_processes@.map_values(gpu_view_fn());
                let nv = npu_processes@.map_values(npu_view_fn());
                let len = match o.tab {
                    Tab::Processes => shown.len(),
                    Tab::Gpu => gv.len(),
                    Tab::Npu => nv.len(),
                };
                final(self)@ == AppView {
                    processes: shown,
                    gpu_processes: gv,
                    npu_processes: nv,
                    selected: clamped(o.selected, len),
                    ..o
                }
            }),
            selection_valid(final(self)@),
    {
        let mut procs = processes;
        if !self.filter_text.as_str().is_empty() {
            let f = to_lowercase(self.filter_text.as_str());
            procs = filter_processes(procs, &f);
        }
        let mut procs = sort_process_list(procs, self.sort_col, self.sort_dir);
        if self.tree_view {
            build_tree(&mut procs);
        }
        self.processes = procs;
        self.gpu_processes = gpu_processes;
        self.npu_processes = npu_processes;
        let len = self.visible_len();
        if len == 0 {
            self.selected = 0;
        } else if self.selected >= len {
            self.selected = len - 1;
        }
    }

    /// A dashboard for user `my_uid` with the given collector: nothing
    /// collected yet, the process tab, sorted by CPU use, highest first.
    pub fn new(my_uid: u32, collector: ProcCollector) -> (res: App)
        ensures
            res@.collector == collector@,
            res@.processes.len() == 0,
            res@.gpu_processes.len() == 0,
            res@.npu_processes.len() == 0,
            res@.tab == Tab::Processes,
            res@.sort_col == SortColumn::Cpu,
            res@.sort_dir == SortDir::Desc,
            res@.selected == 0,
            res@.scroll_offset == 0,
            !res@.tree_view,
            !res@.show_graphs,
            res@.input_mode == InputMode::Normal,
            res@.filter_text.len() == 0,
            res@.renice_text.len() == 0,
            res@.signal_menu_idx == 0,
            res@.status_msg is None,
            !res@.quit,
            res@.my_uid == my_uid,
    {
        App {
            collector,
            processes: Vec::new(),
            gpu_processes: Vec::new(),
            npu_processes: Vec::new(),
            tab: Tab::Processes,
            sort_col: SortColumn::Cpu,
            sort_dir: SortDir::Desc,
            selected: 0,
            scroll_offset: 0,
            tree_view: false,
            show_graphs: false,
            input_mode: InputMode::Normal,
            filter_text: String::new(),
            renice_text: String::new(),
            signal_menu_idx: 0,
            status_msg: None,
            quit: false,
            my_uid,
        }
    }

    /// The number of rows in the current tab's table.
    pub fn visible_len(&self) -> (res: usize)
        ensures
            res == visible_len(self@),
    {
        match self.tab {
            Tab::Processes => self.processes.len(),
            Tab::Gpu => self.gpu_processes.len(),
            Tab::Npu => self.npu_processes.len(),
        }
    }

    /// The id of the process on the selected row, if the row exists.
    pub fn selected_pid(&self) -> (res: Option<u32>)
        ensures
            res == selected_pid(self@),
    {
        match self.tab {
            Tab::Processes => if self.selected < self.processes.len() {
                Some(self.processes[self.selected].pid)
            } else {
                None
            },
            Tab::Gpu => if self.selected < self.gpu_processes.len() {
                Some(self.gpu_processes[self.selected].pid)
            } else {
                None
            },
            Tab::Npu => if self.selected < self.npu_processes.len() {
                Some(self.npu_processes[self.selected].pid)
            } else {
                None
            },
        }
    }

    /// The selected process, when the process tab is shown and a row is selected.
    pub fn selected_process(&self) -> (res: Option<&ProcessInfo>)
        ensures
            match res {
                Some(p) => self.tab == Tab::Processes && self.selected < self.processes.len() && *p
                    == self.processes@[self.selected as int],
                None => self.tab != Tab::Processes || self.selected >= self.processes.len(),
            },
    {
        if self.tab == Tab::Processes && self.selected < self.processes.len() {
            Some(&self.processes[self.selected])
        } else {
            None
        }
    }

    /// Whether the user may signal process `pid` (see `may_signal`).
    pub fn can_signal(&self, pid: u32) -> (res: bool)
        ensures
            res == may_signal(self@, pid),
    {
        if self.my_uid == 0 {
            return true;
        }
        match self.tab {
            Tab::Processes => self.selected < self.processes.len() && self.processes[self.selected].uid
                == self.my_uid,
            _ => {
                let ghost v = self@;
                for i in 0..self.processes.len()
                    invariant
                        v == self@,
                        self.my_uid != 0,
                        self.tab != Tab::Processes,
                        forall|j: int|
                            0 <= j < i ==> !((#[trigger] v.processes[j]).pid == pid
                                && v.processes[j].uid == self.my_uid),
                {
                    assert(v.processes[i as int] == self.processes@[i as int]@);
                    if self.processes[i].pid == pid && self.processes[i].uid == self.my_uid {
                        return true;
                    }
                }
                false
            },
        }
    }

    /// The name shown on the selected row, if the row exists.
    pub fn selected_name(&self) -> (res: Option<String>)
        ensures
            opt_view(res) == selected_name(self@),
    {
        match self.tab {
            Tab::Processes => if self.selected < self.processes.len() {
                Some(self.processes[self.selected].name.clone())
            } else {
                None
            },
            Tab::Gpu => if self.selected < self.gpu_processes.len() {
                Some(self.gpu_processes[self.selected].name.clone())
            } else {
                None
            },
            Tab::Npu => if self.selected < self.npu_processes.len() {
                Some(self.npu_processes[self.selected].name.clone())
            } else {
                None
            },
        }
    }

    /// Moves the selection one row up, unless it is on the first row.
    pub fn move_up(&mut self)
        ensures
            final(self)@ == (AppView {
                selected: if old(self)@.selected > 0 {
                    (old(self)@.selected - 1) as usize
                } else {
                    old(self)@.selected
                },
                ..old(self)@
            }),
    {
        if self.selected > 0 {
            self.selected = self.selected - 1;
        }
    }

    /// Moves the selection one row down, unless it is on the last row.
    pub fn move_down(&mut self)
        ensures
            final(self)@ == (AppView {
                selected: if visible_len(old(self)@) > 0 && old(self)@.selected < visible_len(
                    old(self)@,
                ) - 1 {
                    (old(self)@.selected + 1) as usize
                } else {
                    old(self)@.selected
                },
                ..old(self)@
            }),
    {
        let len = self.visible_len();
        if len > 0 && self.selected < len - 1 {
            self.selected = self.selected + 1;
        }
    }

    /// Moves the selection twenty rows up, stopping at the first row.
    pub fn page_up(&mut self)
        ensures
            final(self)@ == (AppView {
                selected: if old(self)@.selected >= 20 {
                    (old(self)@.selected - 20) as usize
                } else {
                    0
                },
                ..old(self)@
            }),
    {
        self.selected = self.selected.saturating_sub(20);
    }

    /// Moves the selection twenty rows down, stopping at the last row (see
    /// `paged_down`).
    pub fn page_down(&mut self)
        ensures
            final(self)@ == paged_down(old(self)@),
    {
        let len = self.visible_len();
        if len > 0 {
            let next = self.selected.wrapping_add(20);
            self.selected = if next <= len - 1 {
                next
            } else {
                len - 1
            };
        }
    }

    /// Shows the next tab, with the selection and the scroll at the top.
    pub fn next_tab(&mut self)
        ensures
            final(self)@ == (AppView {
                tab: tab_after(old(self)@.tab),
                selected: 0,
                scroll_offset: 0,
                ..old(self)@
            }),
    {
        self.tab = match self.tab {
            Tab::Processes => Tab::Gpu,
            Tab::Gpu => Tab::Npu,
            Tab::Npu => Tab::Processes,
        };
        self.selected = 0;
        self.scroll_offset = 0;
    }

    /// Shows the previous tab, with the selection and the scroll at the top.
    pub fn prev_tab(&mut self)
        ensures
            final(self)@ == (AppView {
                tab: tab_before(old(self)@.tab),
                selected: 0,
                scroll_offset: 0,
                ..old(self)@
            }),
    {
        self.tab = match self.tab {
            Tab::Processes => Tab::Npu,
            Tab::Gpu => Tab::Processes,
            Tab::Npu => Tab::Gpu,
        };
        self.selected = 0;
        self.scroll_offset = 0;
    }
}


/// How long the dashboard waits between collections, in milliseconds.
pub const TICK_MS: u64 = 500;

/// What the dashboard does after handling the keyboard.
#[derive(Clone, Copy, PartialEq, Eq, Structural, Debug)]
pub enum Turn {
    /// Leave.
    Stop,
    /// Collect anew, then go on.
    Tick,
    /// Go on without collecting.
    Wait,
}

/// After the keyboard: stop when asked to quit, else collect anew once
/// `TICK_MS` have passed since the last collection.
pub open spec fn turn_of(quit: bool, since_tick_ms: u64) -> Turn {
    if quit {
        Turn::Stop
    } else if since_tick_ms >= TICK_MS {
        Turn::Tick
    } else {
        Turn::Wait
    }
}

/// What the dashboard does after handling the keyboard (see `turn_of`).
pub fn next_turn(quit: bool, since_tick_ms: u64) -> (res: Turn)
    ensures
        res == turn_of(quit, since_tick_ms),
{
    if quit {
        Turn::Stop
    } else if since_tick_ms >= TICK_MS {
        Turn::Tick
    } else {
        Turn::Wait
    }
}

} // verus!

use vstd::prelude::*;
use crate::proc_info::{GpuProcessInfo, NpuProcessInfo, ProcessInfo, opt_view};
use crate::app::{App, AppView, selected_pid};
use crate::types::{InputMode, Signal, SortColumn, SortDir, Tab, all_signals, signal_label};
use crate::text::{
    chars_of, dec, pad_left, pad_left_chars, pad_right, pad_right_chars, push_char, string_from, string_of, u64_to_string,
    dec_chars, dec_chars_wide, digit_char,
};

verus! {

/// The colours of the dashboard's phosphor-green theme.
#[derive(Clone, Copy, PartialEq, Eq, Structural, Debug)]
pub enum ThemeColor {
    Green,
    DimGreen,
    DarkGreen,
    Yellow,
    Red,
    Cyan,
    White,
}

/// The colour of a process state: running green, sleeping or idle dim,
/// in disk sleep yellow, zombie red, stopped or traced cyan, others dim.
pub open spec fn state_color_of(state: char) -> ThemeColor {
    if state == 'R' {
        ThemeColor::Green
    } else if state == 'S' || state == 'I' {
        ThemeColor::DimGreen
    } else if state == 'D' {
        ThemeColor::Yellow
    } else if state == 'Z' {
        ThemeColor::Red
    } else if state == 'T' || state == 't' {
        ThemeColor::Cyan
    } else {
        ThemeColor::DimGreen
    }
}

/// The colour of a process state (see `state_color_of`).
pub fn state_color(state: char) -> (res: ThemeColor)
    ensures
        res == state_color_of(state),
{
    match state {
        'R' => ThemeColor::Green,
        'S' | 'I' => ThemeColor::DimGreen,
        'D' => ThemeColor::Yellow,
        'Z' => ThemeColor::Red,
        'T' | 't' => ThemeColor::Cyan,
        _ => ThemeColor::DimGreen,
    }
}

/// `n` in decimal, padded on the left to `w` characters with `fill`.
fn padded_dec(n: u64, w: usize, fill: char) -> (res: Vec<char>)
    ensures
        res@ == pad_left(dec(n as nat), w as nat, fill),
{
    pad_left_chars(&dec_chars(n), w, fill)
}

/// Appends the characters of `cs` to `s`.
fn append_chars(s: &mut String, cs: &Vec<char>)
    ensures
        final(s)@ == old(s)@ + cs@,
{
    for i in 0..cs.len()
        invariant
            s@ == old(s)@ + cs@.take(i as int),
    {
        push_char(s, cs[i]);
        assert(s@ =~= old(s)@ + cs@.take(i + 1));
    }
    assert(cs@.take(cs.len() as int) == cs@);
}

/// A running time as the process table shows it: with hours, the hours
/// right-aligned in three places, then minutes and seconds in two digits
/// each (`"  1h02m03s"`); without, four spaces, minutes and seconds.
pub open spec fn duration_text(secs: nat) -> Seq<char> {
    let h = secs / 3600;
    let m = (secs % 3600) / 60;
    let s = secs % 60;
    if h > 0 {
        pad_left(dec(h), 3, ' ') + "h"@ + pad_left(dec(m), 2, '0') + "m"@ + pad_left(dec(s), 2, '0')
            + "s"@
    } else {
        "    "@ + pad_left(dec(m), 2, '0') + "m"@ + pad_left(dec(s), 2, '0') + "s"@
    }
}

/// A running time of `secs` seconds as the process table shows it (see `duration_text`).
pub fn format_duration(secs: u64) -> (res: String)
    ensures
        res@ == duration_text(secs as nat),
{
    let h = secs / 3600;
    let m = (secs % 3600) / 60;
    let s = secs % 60;
    if h > 0 {
        let mut r = string_of(&padded_dec(h, 3, ' '));
        r.append("h");
        append_chars(&mut r, &padded_dec(m, 2, '0'));
        r.append("m");
        append_chars(&mut r, &padded_dec(s, 2, '0'));
        r.append("s");
        r
    } else {
        let mut r = string_from("    ");
        append_chars(&mut r, &padded_dec(m, 2, '0'));
        r.append("m");
        append_chars(&mut r, &padded_dec(s, 2, '0'));
        r.append("s");
        r
    }
}

/// An uptime as the summary shows it: days and hours (`"3d 4h"`) when a
/// day has passed, else hours and minutes (`"4h 5m"`).
pub open spec fn duration_short_text(secs: nat) -> Seq<char> {
    let d = secs / 86400;
    let h = (secs % 86400) / 3600;
    let m = (secs % 3600) / 60;
    if d > 0 {
        dec(d) + "d "@ + dec(h) + "h"@
    } else {
        dec(h) + "h "@ + dec(m) + "m"@
    }
}

/// An uptime of `secs` seconds as the summary shows it (see `duration_short_text`).
pub fn format_duration_short(secs: u64) -> (res: String)
    ensures
        res@ == duration_short_text(secs as nat),
{
    let d = secs / 86400;
    let h = (secs % 86400) / 3600;
    let m = (secs % 3600) / 60;
    if d > 0 {
        let mut r = u64_to_string(d);
        r.append("d ");
        r.append(u64_to_string(h).as_str());
        r.append("h");
        r
    } else {
        let mut r = u64_to_string(h);
        r.append("h ");
        r.append(u64_to_string(m).as_str());
        r.append("m");
        r
    }
}

/// `s` cut to at most `max` characters: kept when it fits, else its first
/// `max - 1` characters and a `'~'`; with room for one character, its first;
/// with none, nothing.
pub open spec fn truncated(s: Seq<char>, max: nat) -> Seq<char> {
    if s.len() <= max {
        s
    } else if max > 1 {
        s.take(max - 1).push('~')
    } else if max == 1 {
        s.take(1)
    } else {
        Seq::empty()
    }
}

/// `s` cut to at most `max` characters (see `truncated`).
pub fn truncate(s: &str, max: usize) -> (res: String)
    ensures
        res@ == truncated(s@, max as nat),
{
    let cs = chars_of(s);
    if cs.len() <= max {
        string_from(s)
    } else if max > 1 {
        let mut r = string_of(&crate::text::subrange(&cs, 0, max - 1));
        push_char(&mut r, '~');
        r
    } else if max == 1 {
        string_of(&crate::text::subrange(&cs, 0, 1))
    } else {
        String::new()
    }
}

/// A cut text never runs past `max` characters, a text that fits is kept,
/// and what is kept of a longer one is its beginning.
pub proof fn law_truncated_fits(s: Seq<char>, max: nat)
    ensures
        truncated(s, max).len() <= max,
        s.len() <= max ==> truncated(s, max) == s,
        s.len() > max && max > 1 ==> truncated(s, max).take(max - 1) == s.take(max - 1)
            && truncated(s, max).last() == '~',
{
    if s.len() > max && max > 1 {
        assert(truncated(s, max).take(max - 1) =~= s.take(max - 1));
    }
}

/// The indent before a process's name in tree view: none for a process
/// whose parent is init (or none), two spaces otherwise.
pub open spec fn tree_prefix_of(ppid: u32) -> Seq<char> {
    if ppid <= 1 {
        Seq::empty()
    } else {
        "  "@
    }
}

/// The indent before a process's name in tree view (see `tree_prefix_of`).
pub fn tree_prefix(p: &ProcessInfo, _all: &[ProcessInfo]) -> (res: String)
    ensures
        res@ == tree_prefix_of(p.ppid),
{
    if p.ppid <= 1 {
        String::new()
    } else {
        string_from("  ")
    }
}

/// The first row to show so that the selected row is on a page of
/// `page_size` rows: unchanged when the selection is already on the page,
/// else the page that starts or ends at the selection. The additions and
/// subtractions wrap as a release build's do.
pub open spec fn scroll_for(selected: usize, current: usize, page_size: usize) -> usize {
    if page_size == 0 {
        0
    } else if selected < current {
        selected
    } else if selected >= current.wrapping_add(page_size) {
        selected.wrapping_sub(page_size).wrapping_add(1)
    } else {
        current
    }
}

/// With room for at least one row, the selected row is on the page that
/// the scroll gives, and a selection already on the page leaves the scroll
/// where it was (for a page that ends within the range of `usize`).
pub proof fn law_scroll_shows_selection(selected: usize, current: usize, page_size: usize)
    requires
        page_size > 0,
        current + page_size <= usize::MAX,
    ensures
        scroll_for(selected, current, page_size) <= selected < scroll_for(selected, current, page_size)
            + page_size,
        current <= selected < current + page_size ==> scroll_for(selected, current, page_size)
            == current,
{
}

/// The first row to show so that the selected row is visible (see `scroll_for`).
pub fn compute_scroll(selected: usize, current_scroll: usize, page_size: usize, _total: usize) -> (res: usize)
    ensures
        res == scroll_for(selected, current_scroll, page_size),
{
    if page_size == 0 {
        return 0;
    }
    if selected < current_scroll {
        selected
    } else if selected >= current_scroll.wrapping_add(page_size) {
        selected.wrapping_sub(page_size).wrapping_add(1)
    } else {
        current_scroll
    }
}

/// The height of a band of the screen: a fixed number of lines, or at least
/// that many.
#[derive(Clone, Copy, PartialEq, Eq, Structural, Debug)]
pub enum Band {
    Length(u16),
    Min(u16),
}

/// The screen's bands from top to bottom: the summary (four lines), the tab
/// bar (one), the table (at least ten lines, or six when the graphs are
/// shown below it in eight), and the status line (one).
pub open spec fn screen_bands(show_graphs: bool) -> Seq<Band> {
    if show_graphs {
        seq![Band::Length(4), Band::Length(1), Band::Min(6), Band::Length(8), Band::Length(1)]
    } else {
        seq![Band::Length(4), Band::Length(1), Band::Min(10), Band::Length(1)]
    }
}

/// The screen's bands (see `screen_bands`); the status line is the last.
pub fn screen_layout(show_graphs: bool) -> (res: Vec<Band>)
    ensures
        res@ == screen_bands(show_graphs),
{
    let mut bands = vec![Band::Length(4), Band::Length(1), Band::Min(10)];
    if show_graphs {
        bands.set(2, Band::Min(6));
        bands.push(Band::Length(8));
    }
    bands.push(Band::Length(1));
    assert(bands@ =~= screen_bands(show_graphs));
    bands
}

/// The rows of the process table on screen, as a range `[start, end)`:
/// the table shows the area's height less three lines (borders and header),
/// from the row that keeps the selection visible (see `scroll_for`).
pub open spec fn table_window(selected: usize, scroll: usize, area_height: u16, total: usize) -> (usize, usize) {
    let page = (if area_height >= 3 { area_height - 3 } else { 0 }) as usize;
    let start = scroll_for(selected, scroll, page);
    (start, if start + page <= total { (start + page) as usize } else if start <= total { total } else { start })
}

/// The range of process rows on screen (see `table_window`).
pub fn visible_rows(selected: usize, scroll: usize, area_height: u16, total: usize) -> (res: (
    usize,
    usize,
))
    ensures
        res == table_window(selected, scroll, area_height, total),
{
    let page = area_height.saturating_sub(3) as usize;
    let start = compute_scroll(selected, scroll, page, total);
    let end = if start <= total {
        if total - start >= page {
            start + page
        } else {
            total
        }
    } else {
        start
    };
    (start, end)
}

/// A rectangle of the terminal.
#[derive(Clone, Copy, PartialEq, Eq, Structural, Debug)]
pub struct Area {
    pub x: u16,
    pub y: u16,
    pub width: u16,
    pub height: u16,
}

/// A `width` by `height` rectangle centred in `area`, cut to fit it; the
/// offsets are added as a release build adds `u16`s, wrapping.
pub fn centered_rect(width: u16, height: u16, area: Area) -> (res: Area)
    ensures
        res.x == area.x.wrapping_add(((if area.width >= width { area.width - width } else { 0 }) / 2) as u16),
        res.y == area.y.wrapping_add(((if area.height >= height { area.height - height } else { 0 }) / 2) as u16),
        res.width == if width <= area.width { width } else { area.width },
        res.height == if height <= area.height { height } else { area.height },
{
    let x = area.x.wrapping_add(area.width.saturating_sub(width) / 2);
    let y = area.y.wrapping_add(area.height.saturating_sub(height) / 2);
    Area {
        x,
        y,
        width: if width <= area.width { width } else { area.width },
        height: if height <= area.height { height } else { area.height },
    }
}


/// Two to the power `e`.
pub open spec fn p2(e: nat) -> nat
    decreases e,
{
    if e == 0 {
        1
    } else {
        2 * p2((e - 1) as nat)
    }
}

/// The number of binary digits of `n`.
pub open spec fn bit_len(n: nat) -> nat
    decreases n,
{
    if n == 0 {
        0
    } else {
        1 + bit_len(n / 2)
    }
}

/// `n / 2^e` rounded to the nearest integer, a half going to the even one.
pub open spec fn round_shift(n: nat, e: nat) -> nat {
    let p = p2(e);
    let q = n / p;
    let r = n % p;
    if 2 * r > p || (2 * r == p && q % 2 == 1) {
        q + 1
    } else {
        q
    }
}

/// The value an `f64` takes for the integer `n`: `n` itself when it has at
/// most 53 binary digits, else `n` rounded to 53 significant binary digits,
/// a half going to the even one (as `as f64` rounds).
pub open spec fn f64_value(n: nat) -> nat {
    if bit_len(n) <= 53 {
        n
    } else {
        let e = (bit_len(n) - 53) as nat;
        round_shift(n, e) * p2(e)
    }
}

/// `n / 2^s` printed with one decimal, as `{:.1}` prints that quotient:
/// the value in tenths rounded to nearest, a half going to the even tenth.
pub open spec fn one_decimal(n: nat, s: nat) -> Seq<char> {
    let t = round_shift(10 * n, s);
    dec(t / 10) + "."@ + seq![digit_char(t % 10)]
}

/// A size in kilobytes as the tables show it: gibibytes with one decimal
/// (`"1.5G"`) from 1048576 on, mebibytes with one decimal (`"2.0M"`) from
/// 1024 on, kilobytes (`"512K"`) below; the division is the one an `f64`
/// holding the size gives.
pub open spec fn kb_text(kb: nat) -> Seq<char> {
    if kb >= 1048576 {
        one_decimal(f64_value(kb), 20) + "G"@
    } else if kb >= 1024 {
        one_decimal(kb, 10) + "M"@
    } else {
        dec(kb) + "K"@
    }
}

fn pow2_wide(e: u32) -> (res: u128)
    requires
        e <= 64,
    ensures
        res as nat == p2(e as nat),
        0 < res <= 0x1_0000_0000_0000_0000,
{
    proof {
        lemma_p2_64();
    }
    let mut p: u128 = 1;
    let mut i: u32 = 0;
    while i < e
        invariant
            i <= e <= 64,
            p as nat == p2(i as nat),
            p2(64) == 0x1_0000_0000_0000_0000,
            0 < p <= 0x1_0000_0000_0000_0000,
        decreases e - i,
    {
        proof {
            lemma_p2_le((i + 1) as nat, 64);
        }
        p = p * 2;
        i = i + 1;
    }
    proof {
        lemma_p2_le(e as nat, 64);
    }
    p
}

proof fn lemma_p2_64()
    ensures
        p2(64) == 0x1_0000_0000_0000_0000,
{
    reveal_with_fuel(p2, 65);
}

proof fn lemma_p2_le(a: nat, b: nat)
    requires
        a <= b,
    ensures
        p2(a) <= p2(b),
        p2(a) > 0,
    decreases b,
{
    if b > a {
        lemma_p2_le(a, (b - 1) as nat);
    } else if a > 0 {
        lemma_p2_le((a - 1) as nat, (a - 1) as nat);
    }
}

/// `n / 2^s` rounded to nearest, a half to the even quotient.
fn round_shift_wide(n: u128, s: u32) -> (res: u128)
    requires
        s <= 64,
        n <= 0x1_0000_0000_0000_0000_0000,
    ensures
        res as nat == round_shift(n as nat, s as nat),
{
    let p = pow2_wide(s);
    let q = n / p;
    let r = n % p;
    assert(q <= n) by (nonlinear_arith)
        requires
            p > 0,
            q == n / p,
    ;
    if (r > p - r) || (r == p - r && q % 2 == 1) {
        q + 1
    } else {
        q
    }
}


proof fn lemma_bit_len_bound(n: nat, k: nat)
    requires
        n < p2(k),
    ensures
        bit_len(n) <= k,
    decreases k,
{
    if n > 0 {
        if k == 0 {
            assert(p2(0) == 1);
        } else {
            lemma_bit_len_bound(n / 2, (k - 1) as nat);
        }
    }
}

fn bit_length(n: u64) -> (res: u32)
    ensures
        res as nat == bit_len(n as nat),
        res <= 64,
{
    proof {
        lemma_p2_64();
        lemma_bit_len_bound(n as nat, 64);
    }
    let mut v = n;
    let mut b: u32 = 0;
    while v > 0
        invariant
            bit_len(n as nat) == b + bit_len(v as nat),
            bit_len(n as nat) <= 64,
        decreases v,
    {
        v = v / 2;
        b = b + 1;
    }
    b
}

/// The integer value an `f64` takes for `kb` (see `f64_value`).
fn f64_value_wide(kb: u64) -> (res: u128)
    ensures
        res as nat == f64_value(kb as nat),
        res <= 0x1_0000_0000_0000_0800,
{
    let bl = bit_length(kb);
    if bl <= 53 {
        kb as u128
    } else {
        let e = bl - 53;
        let p = pow2_wide(e);
        let q = round_shift_wide(kb as u128, e);
        proof {
            lemma_p2_le(e as nat, 11);
            reveal_with_fuel(p2, 12);
            assert(p2(11) == 2048);
            let n = kb as int;
            let pp = p as int;
            assert(q <= n / pp + 1);
            assert((n / pp) * pp <= n) by {
                vstd::arithmetic::div_mod::lemma_fundamental_div_mod(n as int, pp);
            }
            assert(q * pp <= n + pp) by (nonlinear_arith)
                requires
                    q <= n / pp + 1,
                    (n / pp) * pp <= n,
                    pp > 0,
            ;
        }
        q * p
    }
}

/// `n / 2^s` printed with one decimal (see `one_decimal`).
fn one_decimal_text(n: u128, s: u32) -> (res: String)
    requires
        n <= 0x1_0000_0000_0000_0800,
        s <= 64,
    ensures
        res@ == one_decimal(n as nat, s as nat),
{
    let t = round_shift_wide(10 * n, s);
    let mut r = string_of(&dec_chars_wide(t / 10));
    r.append(".");
    push_char(&mut r, (((t % 10) as u8) + 48) as char);
    r
}

/// A size in kilobytes as the tables show it (see `kb_text`).
pub fn format_kb(kb: u64) -> (res: String)
    ensures
        res@ == kb_text(kb as nat),
{
    if kb >= 1_048_576 {
        let mut r = one_decimal_text(f64_value_wide(kb), 20);
        r.append("G");
        r
    } else if kb >= 1024 {
        let mut r = one_decimal_text(kb as u128, 10);
        r.append("M");
        r
    } else {
        let mut r = u64_to_string(kb);
        r.append("K");
        r
    }
}


/// The status line: the status message when there is one (shown as a
/// warning), else the keys the current mode answers to, with the text being
/// typed in a prompt.
pub open spec fn status_line(v: AppView) -> (Seq<char>, bool) {
    match v.status_msg {
        Some(m) => (m, true),
        None => (
            match v.input_mode {
                InputMode::Normal => "q:quit | Tab:switch | /:filter | K:kill | s:signal | r:renice | t:tree | g:graph | 1-8:sort"@,
                InputMode::Filter => "Filter: "@ + v.filter_text + "_ (Enter to apply, Esc to cancel)"@,
                InputMode::KillConfirm => "Kill selected process? (y/n)"@,
                InputMode::SignalMenu => "Select signal: j/k to move, Enter to send, Esc to cancel"@,
                InputMode::ReniceInput => "Nice value (-20..19): "@ + v.renice_text + "_ (Enter to apply)"@,
            },
            false,
        ),
    }
}

/// The status line's text, and whether it is a status message (see `status_line`).
pub fn status_text(app: &App) -> (res: (String, bool))
    ensures
        (res.0@, res.1) == status_line(app@),
{
    match &app.status_msg {
        Some(m) => (m.clone(), true),
        None => {
            let t = match app.input_mode {
                InputMode::Normal => string_from(
                    "q:quit | Tab:switch | /:filter | K:kill | s:signal | r:renice | t:tree | g:graph | 1-8:sort",
                ),
                InputMode::Filter => {
                    let mut r = string_from("Filter: ");
                    r.append(app.filter_text.as_str());
                    r.append("_ (Enter to apply, Esc to cancel)");
                    r
                },
                InputMode::KillConfirm => string_from("Kill selected process? (y/n)"),
                InputMode::SignalMenu => string_from("Select signal: j/k to move, Enter to send, Esc to cancel"),
                InputMode::ReniceInput => {
                    let mut r = string_from("Nice value (-20..19): ");
                    r.append(app.renice_text.as_str());
                    r.append("_ (Enter to apply)");
                    r
                },
            };
            (t, false)
        },
    }
}

/// The label of a process-table column.
pub open spec fn column_label(col: SortColumn) -> Seq<char> {
    match col {
        SortColumn::Pid => "PID"@,
        SortColumn::User => "USER"@,
        SortColumn::Name => "NAME"@,
        SortColumn::Cpu => "CPU%"@,
        SortColumn::Mem => "MEM%"@,
        SortColumn::Rss => "RSS"@,
        SortColumn::State => "S"@,
        SortColumn::Runtime => "TIME"@,
    }
}

/// A column's header: its label, with `" ^"` or `" v"` after it when the
/// table is sorted by it ascending or descending; and whether it is the
/// sort column (shown highlighted).
pub open spec fn column_header(col: SortColumn, sort_col: SortColumn, dir: SortDir) -> (Seq<char>, bool) {
    if col == sort_col {
        (column_label(col) + match dir {
            SortDir::Asc => " ^"@,
            SortDir::Desc => " v"@,
        }, true)
    } else {
        (column_label(col), false)
    }
}

/// A column's header text and whether it is highlighted (see `column_header`).
pub fn header_label(col: SortColumn, sort_col: SortColumn, dir: SortDir) -> (res: (String, bool))
    ensures
        (res.0@, res.1) == column_header(col, sort_col, dir),
{
    let mut r = string_from(match col {
        SortColumn::Pid => "PID",
        SortColumn::User => "USER",
        SortColumn::Name => "NAME",
        SortColumn::Cpu => "CPU%",
        SortColumn::Mem => "MEM%",
        SortColumn::Rss => "RSS",
        SortColumn::State => "S",
        SortColumn::Runtime => "TIME",
    });
    if col == sort_col {
        r.append(match dir {
            SortDir::Asc => " ^",
            SortDir::Desc => " v",
        });
        (r, true)
    } else {
        (r, false)
    }
}

/// The process table's title: the number of rows, and the filter when one is set.
pub open spec fn process_title(total: nat, filter: Seq<char>) -> Seq<char> {
    " Processes ("@ + dec(total) + ") "@ + (if filter.len() > 0 {
        "[filter: "@ + filter + "]"@
    } else {
        Seq::empty()
    }) + " "@
}

/// The process table's title (see `process_title`).
pub fn process_table_title(total: usize, filter: &String) -> (res: String)
    ensures
        res@ == process_title(total as nat, filter@),
{
    let mut r = string_from(" Processes (");
    r.append(u64_to_string(total as u64).as_str());
    r.append(") ");
    if !filter.as_str().is_empty() {
        r.append("[filter: ");
        r.append(filter.as_str());
        r.append("]");
    }
    r.append(" ");
    r
}

/// The text cells of a process row other than the CPU and memory shares:
/// the id right-aligned in seven places, the user cut to eight characters
/// and padded to eight, the tree indent and the name cut to fit twenty
/// places and padded to twenty, the resident set size right-aligned in
/// eight places, the state between spaces, and the running time.
pub struct ProcessRowText {
    pub pid: String,
    pub user: String,
    pub name: String,
    pub rss: String,
    pub state: String,
    pub time: String,
}

/// The text cells of a process row (see `ProcessRowText`), given its tree indent.
pub open spec fn process_row_cells(
    pid: u32,
    user: Seq<char>,
    name: Seq<char>,
    rss_kb: u64,
    state: char,
    runtime_secs: u64,
    prefix: Seq<char>,
) -> (Seq<char>, Seq<char>, Seq<char>, Seq<char>, Seq<char>, Seq<char>) {
    let room = if prefix.len() <= 20 { (20 - prefix.len()) as nat } else { 0 };
    (
        pad_left(dec(pid as nat), 7, ' '),
        pad_right(truncated(user, 8), 8),
        prefix + pad_right(truncated(name, room), 20),
        pad_left(kb_text(rss_kb as nat), 8, ' '),
        seq![' ', state, ' '],
        duration_text(runtime_secs as nat),
    )
}

/// Whether `r` holds the text cells of the row for `p` (see
/// `process_row_cells`); in tree view the name is indented (see
/// `tree_prefix_of`).
pub open spec fn shows_process(r: ProcessRowText, p: ProcessInfo, tree_view: bool) -> bool {
    (r.pid@, r.user@, r.name@, r.rss@, r.state@, r.time@) == process_row_cells(
        p.pid,
        p.user@,
        p.name@,
        p.rss_kb,
        p.state,
        p.runtime_secs,
        if tree_view {
            tree_prefix_of(p.ppid)
        } else {
            Seq::empty()
        },
    )
}

/// In tree view a row's name is indented by two spaces exactly when its
/// parent's id is 2 or more (processes whose parent is init, or none, stay
/// flush left), and the name is cut to fit the twenty places that remain;
/// outside tree view no name is indented.
pub proof fn law_tree_indents_children(r: ProcessRowText, p: ProcessInfo, tree_view: bool)
    requires
        shows_process(r, p, tree_view),
    ensures
        tree_view && p.ppid >= 2 ==> r.name@ == seq![' ', ' '] + pad_right(truncated(p.name@, 18), 20),
        !(tree_view && p.ppid >= 2) ==> r.name@ == pad_right(truncated(p.name@, 20), 20),
{
    reveal_strlit("  ");
    if tree_view && p.ppid >= 2 {
        assert(tree_prefix_of(p.ppid) =~= seq![' ', ' ']);
    } else {
        assert(Seq::<char>::empty() + pad_right(truncated(p.name@, 20), 20) =~= pad_right(
            truncated(p.name@, 20),
            20,
        ));
    }
}

/// The text cells of the row for `p` (see `shows_process`).
pub fn process_row_text(p: &ProcessInfo, tree_view: bool) -> (res: ProcessRowText)
    ensures
        shows_process(res, *p, tree_view),
{
    let prefix = if tree_view {
        tree_prefix(p, &[])
    } else {
        String::new()
    };
    let plen = prefix.as_str().unicode_len();
    let room: usize = if plen <= 20 { 20 - plen } else { 0 };
    let mut name = string_from(prefix.as_str());
    append_chars(&mut name, &pad_right_chars(&chars_of(truncate(p.name.as_str(), room).as_str()), 20));
    let mut state = String::new();
    push_char(&mut state, ' ');
    push_char(&mut state, p.state);
    push_char(&mut state, ' ');
    assert(state@ =~= seq![' ', p.state, ' ']);
    ProcessRowText {
        pid: string_of(&padded_dec(p.pid as u64, 7, ' ')),
        user: string_of(&pad_right_chars(&chars_of(truncate(p.user.as_str(), 8).as_str()), 8)),
        name,
        rss: string_of(&pad_left_chars(&chars_of(format_kb(p.rss_kb).as_str()), 8, ' ')),
        state,
        time: format_duration(p.runtime_secs),
    }
}


/// The text cells of a GPU row: the id right-aligned in seven places, the
/// name cut to twenty-four characters and padded to twenty-four, and VRAM
/// and GTT right-aligned in ten places each.
pub open spec fn gpu_row_cells(pid: u32, name: Seq<char>, vram_kb: u64, gtt_kb: u64) -> (
    Seq<char>,
    Seq<char>,
    Seq<char>,
    Seq<char>,
) {
    (
        pad_left(dec(pid as nat), 7, ' '),
        pad_right(truncated(name, 24), 24),
        pad_left(kb_text(vram_kb as nat), 10, ' '),
        pad_left(kb_text(gtt_kb as nat), 10, ' '),
    )
}

/// The text cells of the GPU row for `g` (see `gpu_row_cells`).
pub fn gpu_row_text(g: &GpuProcessInfo) -> (res: (String, String, String, String))
    ensures
        (res.0@, res.1@, res.2@, res.3@) == gpu_row_cells(g.pid, g.name@, g.vram_kb, g.gtt_kb),
{
    (
        string_of(&padded_dec(g.pid as u64, 7, ' ')),
        string_of(&pad_right_chars(&chars_of(truncate(g.name.as_str(), 24).as_str()), 24)),
        string_of(&pad_left_chars(&chars_of(format_kb(g.vram_kb).as_str()), 10, ' ')),
        string_of(&pad_left_chars(&chars_of(format_kb(g.gtt_kb).as_str()), 10, ' ')),
    )
}

/// The GPU table's title: the number of processes, VRAM and GTT used out of
/// their totals, and the busy percentage.
pub open spec fn gpu_title(
    n: nat,
    vram_used: nat,
    vram_total: nat,
    gtt_used: nat,
    gtt_total: nat,
    busy: nat,
) -> Seq<char> {
    " GPU Processes ("@ + dec(n) + ") | VRAM: "@ + kb_text(vram_used) + "/"@ + kb_text(vram_total)
        + " | GTT: "@ + kb_text(gtt_used) + "/"@ + kb_text(gtt_total) + " | Busy: "@ + dec(busy)
        + "% "@
}

/// The GPU table's title (see `gpu_title`).
pub fn gpu_table_title(
    n: usize,
    vram_used: u64,
    vram_total: u64,
    gtt_used: u64,
    gtt_total: u64,
    busy: u8,
) -> (res: String)
    ensures
        res@ == gpu_title(
            n as nat,
            vram_used as nat,
            vram_total as nat,
            gtt_used as nat,
            gtt_total as nat,
            busy as nat,
        ),
{
    let mut r = string_from(" GPU Processes (");
    r.append(u64_to_string(n as u64).as_str());
    r.append(") | VRAM: ");
    r.append(format_kb(vram_used).as_str());
    r.append("/");
    r.append(format_kb(vram_total).as_str());
    r.append(" | GTT: ");
    r.append(format_kb(gtt_used).as_str());
    r.append("/");
    r.append(format_kb(gtt_total).as_str());
    r.append(" | Busy: ");
    r.append(u64_to_string(busy as u64).as_str());
    r.append("% ");
    r
}

/// The text cells of an NPU row: the id right-aligned in seven places, the
/// name cut to twenty-four characters and padded to twenty-four, and the
/// device path.
pub open spec fn npu_row_cells(pid: u32, name: Seq<char>, fd_path: Seq<char>) -> (
    Seq<char>,
    Seq<char>,
    Seq<char>,
) {
    (pad_left(dec(pid as nat), 7, ' '), pad_right(truncated(name, 24), 24), fd_path)
}

/// The text cells of the NPU row for `p` (see `npu_row_cells`).
pub fn npu_row_text(p: &NpuProcessInfo) -> (res: (String, String, String))
    ensures
        (res.0@, res.1@, res.2@) == npu_row_cells(p.pid, p.name@, p.fd_path@),
{
    (
        string_of(&padded_dec(p.pid as u64, 7, ' ')),
        string_of(&pad_right_chars(&chars_of(truncate(p.name.as_str(), 24).as_str()), 24)),
        p.fd_path.clone(),
    )
}

/// The NPU table's title: the number of processes, and whether the
/// accelerator driver is loaded.
pub open spec fn npu_title(n: nat, loaded: bool) -> Seq<char> {
    " NPU ("@ + dec(n) + ") | "@ + (if loaded {
        "amdxdna LOADED"@
    } else {
        "amdxdna NOT LOADED"@
    }) + " "@
}

/// The NPU table's title (see `npu_title`).
pub fn npu_table_title(n: usize, loaded: bool) -> (res: String)
    ensures
        res@ == npu_title(n as nat, loaded),
{
    let mut r = string_from(" NPU (");
    r.append(u64_to_string(n as u64).as_str());
    r.append(") | ");
    r.append(if loaded {
        "amdxdna LOADED"
    } else {
        "amdxdna NOT LOADED"
    });
    r.append(" ");
    r
}

/// The kill confirmation's text, naming the selected process if there is one.
pub open spec fn kill_confirm_message(pid: Option<u32>) -> Seq<char> {
    "Send SIGKILL to "@ + (match pid {
        Some(p) => "PID "@ + dec(p as nat),
        None => Seq::empty(),
    }) + "?\n\nPress y to confirm, n or Esc to cancel"@
}

/// The kill confirmation's text (see `kill_confirm_message`).
pub fn kill_confirm_text(app: &App) -> (res: String)
    ensures
        res@ == kill_confirm_message(selected_pid(app@)),
{
    let mut r = string_from("Send SIGKILL to ");
    match app.selected_pid() {
        Some(p) => {
            r.append("PID ");
            r.append(u64_to_string(p as u64).as_str());
        },
        None => {},
    }
    r.append("?\n\nPress y to confirm, n or Esc to cancel");
    r
}

/// The signal menu's lines: each signal's label between spaces, and whether
/// it is the highlighted entry.
pub fn signal_menu_lines(app: &App) -> (res: Vec<(String, bool)>)
    ensures
        res.len() == 5,
        forall|i: int|
            0 <= i < 5 ==> (#[trigger] res@[i]).0@ == seq![' '] + signal_label(all_signals()[i]) + seq![' ']
                && res@[i].1 == (i == app.signal_menu_idx),
{
    let signals = Signal::all();
    let mut res: Vec<(String, bool)> = Vec::new();
    for i in 0..signals.len()
        invariant
            signals@ == all_signals(),
            res.len() == i,
            forall|k: int|
                0 <= k < i ==> (#[trigger] res@[k]).0@ == seq![' '] + signal_label(all_signals()[k])
                    + seq![' '] && res@[k].1 == (k == app.signal_menu_idx),
    {
        let mut line = String::new();
        push_char(&mut line, ' ');
        line.append(signals[i].label());
        push_char(&mut line, ' ');
        assert(line@ =~= seq![' '] + signal_label(all_signals()[i as int]) + seq![' ']);
        res.push((line, i == app.signal_menu_idx));
    }
    res
}

/// The filter prompt's text: the filter and a cursor.
pub fn filter_overlay_text(app: &App) -> (res: String)
    ensures
        res@ == app.filter_text@.push('|'),
{
    let mut r = string_from(app.filter_text.as_str());
    push_char(&mut r, '|');
    r
}

/// The nice prompt's text: a reminder of the range, the typed text and a cursor.
pub fn renice_overlay_text(app: &App) -> (res: String)
    ensures
        res@ == "Nice (-20..19): "@ + app.renice_text@.push('|'),
{
    let mut r = string_from("Nice (-20..19): ");
    r.append(app.renice_text.as_str());
    push_char(&mut r, '|');
    assert(r@ =~= "Nice (-20..19): "@ + app.renice_text@.push('|'));
    r
}

/// The position of a tab in the tab bar.
pub fn tab_index(tab: Tab) -> (res: usize)
    ensures
        res == match tab {
            Tab::Processes => 0usize,
            Tab::Gpu => 1usize,
            Tab::Npu => 2usize,
        },
{
    match tab {
        Tab::Processes => 0,
        Tab::Gpu => 1,
        Tab::Npu => 2,
    }
}


/// The rows of the process table on screen for an area `area_height` lines
/// high: one for each index in the window (see `table_window`), with the
/// text cells of that process (see `shows_process`) and whether it is the
/// highlighted row, the selected one.
pub fn process_table_rows(app: &App, area_height: u16) -> (res: Vec<(ProcessRowText, bool)>)
    ensures
        ({
            let (start, end) = table_window(
                app.selected,
                app.scroll_offset,
                area_height,
                app.processes.len(),
            );
            &&& start <= end
            &&& end <= app.processes.len() || start == end
            &&& res.len() == end - start
            &&& forall|k: int|
                0 <= k < res.len() ==> shows_process(
                    (#[trigger] res@[k]).0,
                    app.processes@[start + k],
                    app.tree_view,
                ) && res@[k].1 == (start + k == app.selected)
        }),
{
    let (start, end) = visible_rows(app.selected, app.scroll_offset, area_height, app.processes.len());
    let mut res: Vec<(ProcessRowText, bool)> = Vec::new();
    let mut i = start;
    while i < end
        invariant
            start <= i <= end,
            start == end || end <= app.processes.len(),
            res.len() == i - start,
            forall|k: int|
                0 <= k < res.len() ==> shows_process(
                    (#[trigger] res@[k]).0,
                    app.processes@[start + k],
                    app.tree_view,
                ) && res@[k].1 == (start + k == app.selected),
        decreases end - i,
    {
        let t = process_row_text(&app.processes[i], app.tree_view);
        res.push((t, i == app.selected));
        i = i + 1;
    }
    res
}

/// The rows of the GPU table: for each process in order, its text cells
/// (see `gpu_row_cells`) and whether it is the highlighted row, the selected
/// one.
pub fn gpu_table_rows(app: &App) -> (res: Vec<((String, String, String, String), bool)>)
    ensures
        res.len() == app.gpu_processes.len(),
        forall|i: int|
            0 <= i < res.len() ==> {
                let g = app.gpu_processes@[i];
                let r = (#[trigger] res@[i]).0;
                &&& (r.0@, r.1@, r.2@, r.3@) == gpu_row_cells(g.pid, g.name@, g.vram_kb, g.gtt_kb)
                &&& res@[i].1 == (i == app.selected)
            },
{
    let mut res: Vec<((String, String, String, String), bool)> = Vec::new();
    for i in 0..app.gpu_processes.len()
        invariant
            res.len() == i,
            forall|k: int|
                0 <= k < res.len() ==> {
                    let g = app.gpu_processes@[k];
                    let r = (#[trigger] res@[k]).0;
                    &&& (r.0@, r.1@, r.2@, r.3@) == gpu_row_cells(g.pid, g.name@, g.vram_kb, g.gtt_kb)
                    &&& res@[k].1 == (k == app.selected)
                },
    {
        let t = gpu_row_text(&app.gpu_processes[i]);
        res.push((t, i == app.selected));
    }
    res
}

/// The rows of the NPU table: for each process in order, its text cells
/// (see `npu_row_cells`) and whether it is the highlighted row, the selected
/// one.
pub fn npu_table_rows(app: &App) -> (res: Vec<((String, String, String), bool)>)
    ensures
        res.len() == app.npu_processes.len(),
        forall|i: int|
            0 <= i < res.len() ==> {
                let p = app.npu_processes@[i];
                let r = (#[trigger] res@[i]).0;
                &&& (r.0@, r.1@, r.2@) == npu_row_cells(p.pid, p.name@, p.fd_path@)
                &&& res@[i].1 == (i == app.selected)
            },
{
    let mut res: Vec<((String, String, String), bool)> = Vec::new();
    for i in 0..app.npu_processes.len()
        invariant
            res.len() == i,
            forall|k: int|
                0 <= k < res.len() ==> {
                    let p = app.npu_processes@[k];
                    let r = (#[trigger] res@[k]).0;
                    &&& (r.0@, r.1@, r.2@) == npu_row_cells(p.pid, p.name@, p.fd_path@)
                    &&& res@[k].1 == (k == app.selected)
                },
    {
        let t = npu_row_text(&app.npu_processes[i]);
        res.push((t, i == app.selected));
    }
    res
}

/// The table the screen shows.
#[derive(Clone, Copy, PartialEq, Eq, Structural, Debug)]
pub enum TableKind {
    Processes,
    Gpu,
    Npu,
}

/// The prompt drawn over the screen, if any.
#[derive(Clone, Copy, PartialEq, Eq, Structural, Debug)]
pub enum Overlay {
    Nothing,
    Filter,
    KillConfirm,
    SignalMenu,
    Renice,
}

/// What the screen is made of besides the summary, the tab bar and the
/// status line: the table of the current tab, whether the graphs are shown
/// (when they are switched on), and the prompt of the current input mode.
pub open spec fn plan_of(v: AppView) -> (TableKind, bool, Overlay) {
    (
        match v.tab {
            Tab::Processes => TableKind::Processes,
            Tab::Gpu => TableKind::Gpu,
            Tab::Npu => TableKind::Npu,
        },
        v.show_graphs,
        match v.input_mode {
            InputMode::Normal => Overlay::Nothing,
            InputMode::Filter => Overlay::Filter,
            InputMode::KillConfirm => Overlay::KillConfirm,
            InputMode::SignalMenu => Overlay::SignalMenu,
            InputMode::ReniceInput => Overlay::Renice,
        },
    )
}

/// What the screen is made of (see `plan_of`).
pub fn screen_plan(app: &App) -> (res: (TableKind, bool, Overlay))
    ensures
        res == plan_of(app@),
{
    let table = match app.tab {
        Tab::Processes => TableKind::Processes,
        Tab::Gpu => TableKind::Gpu,
        Tab::Npu => TableKind::Npu,
    };
    let overlay = match app.input_mode {
        InputMode::Normal => Overlay::Nothing,
        InputMode::Filter => Overlay::Filter,
        InputMode::KillConfirm => Overlay::KillConfirm,
        InputMode::SignalMenu => Overlay::SignalMenu,
        InputMode::ReniceInput => Overlay::Renice,
    };
    (table, app.show_graphs, overlay)
}

} // verus!

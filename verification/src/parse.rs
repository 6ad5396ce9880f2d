use vstd::prelude::*;
use crate::text::{
    chars_of, lemma_words_nonempty, find_first, find_first_char, find_last, find_last_char, parse_unsigned,
    parse_unsigned_chars, split_words, string_of, subrange, trim, trim_chars, words,
    has_prefix, lines, split_lines, split_chars, split_on, strip_prefix, starts_with, dec,
    u64_to_string, chars_equal, occurs_in, contains_chars,
};

verus! {

/// The largest `u64`, as a `nat`.
pub open spec fn u64_max() -> nat {
    0xffff_ffff_ffff_ffff
}

/// The largest `u32`, as a `nat`.
pub open spec fn u32_max() -> nat {
    0xffff_ffff
}

/// The value of a `/proc/meminfo` entry such as `"  16318512 kB"`: the first
/// word, read as a `u64`, or 0 when there is none or it is not a number.
pub open spec fn meminfo_value(s: Seq<char>) -> nat {
    let ws = words(trim(s));
    if ws.len() > 0 && parse_unsigned(ws[0], u64_max()) is Some {
        parse_unsigned(ws[0], u64_max())->0
    } else {
        0
    }
}

/// Reads a `/proc/meminfo` entry such as `"  16318512 kB"` as its number of kilobytes.
pub fn parse_meminfo_val(s: &str) -> (res: u64)
    ensures
        res as nat == meminfo_value(s@),
{
    let t = trim_chars(&chars_of(s));
    let ws = split_words(&t);
    assert(ws@.map_values(|w: Vec<char>| w@).len() == ws@.len());
    if ws.len() > 0 {
        assert(ws@.map_values(|w: Vec<char>| w@)[0] == ws@[0]@);
        match parse_unsigned_chars(&ws[0], u64::MAX) {
            Some(v) => v,
            None => 0,
        }
    } else {
        0
    }
}

/// The amount in a DRM fdinfo memory entry such as `" 1234 KiB"`: its first
/// word read as a `u64`; nothing when there is no word or it is not a number.
pub open spec fn drm_memory_value(s: Seq<char>) -> Option<nat> {
    let ws = words(trim(s));
    if ws.len() > 0 {
        parse_unsigned(ws[0], u64_max())
    } else {
        None
    }
}

/// Reads a DRM fdinfo memory entry such as `" 1234 KiB"` as its number of kibibytes.
pub fn parse_drm_memory_val(s: &str) -> (res: Option<u64>)
    ensures
        match drm_memory_value(s@) {
            Some(v) => res == Some(v as u64),
            None => res is None,
        },
{
    let t = trim_chars(&chars_of(s));
    let ws = split_words(&t);
    assert(ws@.map_values(|w: Vec<char>| w@).len() == ws@.len());
    if ws.len() == 0 {
        return None;
    }
    assert(ws@.map_values(|w: Vec<char>| w@)[0] == ws@[0]@);
    parse_unsigned_chars(&ws[0], u64::MAX)
}


/// What a `/proc/<pid>/stat` line gives: the command name, which stands between
/// the first `'('` and the last `')'`, and the fields after it.
pub struct StatFields {
    pub name: String,
    pub state: char,
    pub ppid: u32,
    pub utime: u64,
    pub stime: u64,
    pub starttime: u64,
    pub rss_pages: u64,
}

/// Whether a stat line has both a `'('` and a `')'`.
pub open spec fn stat_bracketed(s: Seq<char>) -> bool {
    find_first(s, '(') >= 0 && find_last(s, ')') >= 0
}

/// The fields of a stat line: the words after the character that follows the last `')'`.
pub open spec fn stat_fields(s: Seq<char>) -> Seq<Seq<char>> {
    words(s.skip(find_last(s, ')') + 2))
}

/// A stat line that the byte slicing of the reading would reject: the name's
/// bounds cross, no one-byte character follows the last `')'`, or there are
/// twenty or twenty-one fields (enough to pass the length test, too few to
/// hold the resident set size).
pub open spec fn stat_malformed(s: Seq<char>) -> bool {
    let open = find_first(s, '(');
    let close = find_last(s, ')');
    &&& stat_bracketed(s)
    &&& {
        ||| open + 1 > close
        ||| close + 1 >= s.len()
        ||| (s[close + 1] as u32) >= 128
        ||| 20 <= stat_fields(s).len() <= 21
    }
}

/// Whether a stat line yields a process: it is bracketed, well formed, and
/// has at least twenty fields.
pub open spec fn stat_readable(s: Seq<char>) -> bool {
    stat_bracketed(s) && !stat_malformed(s) && stat_fields(s).len() >= 20
}

/// A numeric stat field: its value, or 0 when it is not a `u64`.
pub open spec fn field_u64(f: Seq<char>) -> nat {
    match parse_unsigned(f, u64_max()) {
        Some(v) => v,
        None => 0,
    }
}

/// A stat field holding a process id: its value, or 0 when it is not a `u32`.
pub open spec fn field_u32(f: Seq<char>) -> nat {
    match parse_unsigned(f, u32_max()) {
        Some(v) => v,
        None => 0,
    }
}

/// Whether the stat line `content` is one that the reading would reject with
/// a panic (see `stat_malformed`).
pub fn stat_is_malformed(content: &str) -> (res: bool)
    ensures
        res == stat_malformed(content@),
{
    let s = chars_of(content);
    let open = find_first_char(&s, '(');
    let close = find_last_char(&s, ')');
    match (open, close) {
        (Some(o), Some(c)) => {
            if o + 1 > c || c + 1 >= s.len() || (s[c + 1] as u32) >= 128 {
                true
            } else {
                let rest = subrange(&s, c + 2, s.len());
                let fields = split_words(&rest);
                assert(fields@.map_values(|w: Vec<char>| w@).len() == fields@.len());
                20 <= fields.len() && fields.len() <= 21
            }
        },
        _ => false,
    }
}

fn field_number(f: &Vec<char>) -> (res: u64)
    ensures
        res as nat == field_u64(f@),
{
    match parse_unsigned_chars(f, u64::MAX) {
        Some(v) => v,
        None => 0,
    }
}

/// Reads a `/proc/<pid>/stat` line: the name, the state (the first character
/// of the first field), the parent id (field 1), user and system time
/// (fields 11 and 12), the start time (field 19) and the resident set size
/// in pages (field 21). A line without a `'('` or a `')'`, or with fewer than
/// twenty fields, yields nothing.
pub fn parse_stat(content: &str) -> (res: Option<StatFields>)
    requires
        !stat_malformed(content@),
    ensures
        res is Some <==> stat_readable(content@),
        res matches Some(f) ==> {
            let s = content@;
            let fs = stat_fields(s);
            &&& f.name@ == s.subrange(find_first(s, '(') + 1, find_last(s, ')'))
            &&& f.state == fs[0][0]
            &&& f.ppid as nat == field_u32(fs[1])
            &&& f.utime as nat == field_u64(fs[11])
            &&& f.stime as nat == field_u64(fs[12])
            &&& f.starttime as nat == field_u64(fs[19])
            &&& f.rss_pages as nat == field_u64(fs[21])
        },
{
    let s = chars_of(content);
    let open = match find_first_char(&s, '(') {
        Some(o) => o,
        None => {
            return None;
        },
    };
    let close = match find_last_char(&s, ')') {
        Some(c) => c,
        None => {
            return None;
        },
    };
    let name = string_of(&subrange(&s, open + 1, close));
    let rest = subrange(&s, close + 2, s.len());
    let fields = split_words(&rest);
    let ghost fv = fields@.map_values(|w: Vec<char>| w@);
    assert(fv.len() == fields@.len());
    if fields.len() < 20 {
        return None;
    }
    assert(forall|k: int| 0 <= k < fields.len() ==> fv[k] == #[trigger] fields@[k]@);
    proof {
        let ws = stat_fields(content@);
        assert(ws == fv);
        assert(ws[0].len() > 0) by {
            lemma_words_nonempty(rest@);
        }
    }
    let state = fields[0][0];
    let ppid: u32 = match parse_unsigned_chars(&fields[1], u32::MAX as u64) {
        Some(v) => v as u32,
        None => 0,
    };
    Some(StatFields {
        name,
        state,
        ppid,
        utime: field_number(&fields[11]),
        stime: field_number(&fields[12]),
        starttime: field_number(&fields[19]),
        rss_pages: field_number(&fields[21]),
    })
}


/// The views of a vector of character vectors.
pub open spec fn views(v: Seq<Vec<char>>) -> Seq<Seq<char>> {
    v.map_values(|w: Vec<char>| w@)
}

/// The rest of the first line of `ls` that begins with `p`, if a line does.
pub open spec fn first_with_prefix(ls: Seq<Seq<char>>, p: Seq<char>) -> Option<Seq<char>>
    decreases ls.len(),
{
    if ls.len() == 0 {
        None
    } else if has_prefix(ls[0], p) {
        Some(ls[0].skip(p.len() as int))
    } else {
        first_with_prefix(ls.drop_first(), p)
    }
}

/// The rest of the first line that begins with `p`, if a line does.
fn first_line_with_prefix(ls: &Vec<Vec<char>>, p: &str) -> (res: Option<Vec<char>>)
    ensures
        match first_with_prefix(views(ls@), p@) {
            Some(r) => res matches Some(v) && v@ == r,
            None => res is None,
        },
{
    let ghost vs = views(ls@);
    assert(vs.skip(0) == vs);
    let mut i: usize = 0;
    while i < ls.len()
        invariant
            i <= ls.len(),
            vs == views(ls@),
            first_with_prefix(vs, p@) == first_with_prefix(vs.skip(i as int), p@),
        decreases ls.len() - i,
    {
        assert(vs.skip(i as int).drop_first() == vs.skip(i + 1));
        assert(vs.skip(i as int)[0] == ls@[i as int]@);
        match strip_prefix(&ls[i], p) {
            Some(r) => {
                return Some(r);
            },
            None => {},
        }
        i = i + 1;
    }
    None
}

/// The boot time that `/proc/stat` records on its `btime` line: the number
/// after `"btime "` on the first such line, or 0 when that is not a number or
/// there is no such line.
pub open spec fn boot_time(s: Seq<char>) -> nat {
    match first_with_prefix(lines(s), "btime "@) {
        Some(r) => match parse_unsigned(trim(r), u64_max()) {
            Some(v) => v,
            None => 0,
        },
        None => 0,
    }
}

/// Reads the boot time from the text of `/proc/stat`.
pub fn parse_boot_time(content: &str) -> (res: u64)
    ensures
        res as nat == boot_time(content@),
{
    let ls = split_lines(&chars_of(content));
    match first_line_with_prefix(&ls, "btime ") {
        Some(r) => match parse_unsigned_chars(&trim_chars(&r), u64::MAX) {
            Some(v) => v,
            None => 0,
        },
        None => 0,
    }
}

/// The total memory that `/proc/meminfo` records on its first `MemTotal:`
/// line, or 0 when there is none.
pub open spec fn mem_total_kb(s: Seq<char>) -> nat {
    match first_with_prefix(lines(s), "MemTotal:"@) {
        Some(r) => meminfo_value(r),
        None => 0,
    }
}

/// Reads the total memory in kilobytes from the text of `/proc/meminfo`.
pub fn parse_mem_total_kb(content: &str) -> (res: u64)
    ensures
        res as nat == mem_total_kb(content@),
{
    let ls = split_lines(&chars_of(content));
    match first_line_with_prefix(&ls, "MemTotal:") {
        Some(r) => parse_meminfo_val(&string_of(&r)),
        None => 0,
    }
}

/// Reading the lines of `/proc/meminfo` in order: the last `MemTotal:` value
/// seen, and the used memory computed at the last `MemAvailable:` line as the
/// total seen so far less the available amount (never below 0).
pub open spec fn meminfo_scan(ls: Seq<Seq<char>>) -> (nat, nat)
    decreases ls.len(),
{
    if ls.len() == 0 {
        (0, 0)
    } else {
        let (total, used) = meminfo_scan(ls.drop_last());
        let l = ls.last();
        if has_prefix(l, "MemTotal:"@) {
            (meminfo_value(l.skip("MemTotal:"@.len() as int)), used)
        } else if has_prefix(l, "MemAvailable:"@) {
            let avail = meminfo_value(l.skip("MemAvailable:"@.len() as int));
            (total, if total >= avail { (total - avail) as nat } else { 0 })
        } else {
            (total, used)
        }
    }
}

/// Reads the total and the used memory, in kilobytes, from the text of
/// `/proc/meminfo` (see `meminfo_scan`).
pub fn parse_meminfo_usage(content: &str) -> (res: (u64, u64))
    ensures
        (res.0 as nat, res.1 as nat) == meminfo_scan(lines(content@)),
{
    let ls = split_lines(&chars_of(content));
    let ghost vs = views(ls@);
    let mut total: u64 = 0;
    let mut used: u64 = 0;
    for i in 0..ls.len()
        invariant
            vs == views(ls@),
            vs == lines(content@),
            (total as nat, used as nat) == meminfo_scan(vs.take(i as int)),
    {
        assert(vs.take(i + 1).drop_last() == vs.take(i as int));
        assert(vs.take(i + 1).last() == ls@[i as int]@);
        if let Some(r) = strip_prefix(&ls[i], "MemTotal:") {
            total = parse_meminfo_val(&string_of(&r));
        } else if let Some(r) = strip_prefix(&ls[i], "MemAvailable:") {
            let avail = parse_meminfo_val(&string_of(&r));
            used = total.saturating_sub(avail);
        }
    }
    assert(vs.take(ls.len() as int) == vs);
    (total, used)
}


/// `x` reduced to 64 bits, as a release build's `u64` addition wraps.
pub open spec fn wrap64(x: nat) -> nat {
    x % 0x1_0000_0000_0000_0000
}

/// The values among `ws` that read as `u64`s, in order.
pub open spec fn parsed_u64s(ws: Seq<Seq<char>>) -> Seq<nat>
    decreases ws.len(),
{
    if ws.len() == 0 {
        Seq::empty()
    } else {
        let r = parsed_u64s(ws.drop_last());
        match parse_unsigned(ws.last(), u64_max()) {
            Some(v) => r.push(v),
            None => r,
        }
    }
}

/// The sum of `v`.
pub open spec fn sum_of(v: Seq<nat>) -> nat
    decreases v.len(),
{
    if v.len() == 0 {
        0
    } else {
        sum_of(v.drop_last()) + v.last()
    }
}

/// The aggregate CPU times of `/proc/stat`: on its first line, when that line
/// has at least eight words and the first is `cpu`, the sum (in 64 bits) of
/// the words after it that are numbers, and the fourth of those numbers (the
/// idle time, or 0 when there are only three); otherwise both are 0.
pub open spec fn cpu_times(s: Seq<char>) -> (nat, nat) {
    let ls = lines(s);
    if ls.len() > 0 && words(ls[0]).len() >= 8 && words(ls[0])[0] == "cpu"@ {
        let vals = parsed_u64s(words(ls[0]).skip(1));
        (wrap64(sum_of(vals)), if vals.len() > 3 { vals[3] } else { 0 })
    } else {
        (0, 0)
    }
}

/// Total and idle CPU time, in clock ticks since boot.
#[derive(Clone, Copy, Debug)]
pub struct CpuTimes {
    pub total: u64,
    pub idle: u64,
}

/// Reads the aggregate CPU times from the text of `/proc/stat`.
pub fn parse_cpu_times(content: &str) -> (res: CpuTimes)
    ensures
        (res.total as nat, res.idle as nat) == cpu_times(content@),
{
    let ls = split_lines(&chars_of(content));
    assert(views(ls@).len() == ls@.len());
    if ls.len() == 0 {
        return CpuTimes { total: 0, idle: 0 };
    }
    assert(views(ls@)[0] == ls@[0]@);
    let parts = split_words(&ls[0]);
    assert(views(parts@).len() == parts@.len());
    if parts.len() < 8 {
        return CpuTimes { total: 0, idle: 0 };
    }
    assert(views(parts@)[0] == parts@[0]@);
    if !chars_equal(&parts[0], "cpu") {
        return CpuTimes { total: 0, idle: 0 };
    }
    let ghost ws = views(parts@).skip(1);
    let mut vals: Vec<u64> = Vec::new();
    let mut total: u64 = 0;
    let mut i: usize = 1;
    while i < parts.len()
        invariant
            1 <= i <= parts.len(),
            ws == views(parts@).skip(1),
            vals@.map_values(|v: u64| v as nat) == parsed_u64s(ws.take(i - 1)),
            total as nat == wrap64(sum_of(parsed_u64s(ws.take(i - 1)))),
        decreases parts.len() - i,
    {
        assert(ws.take(i as int).drop_last() == ws.take(i - 1));
        assert(ws.take(i as int).last() == parts@[i as int]@);
        let ghost before = parsed_u64s(ws.take(i - 1));
        match parse_unsigned_chars(&parts[i], u64::MAX) {
            Some(v) => {
                vals.push(v);
                total = total.wrapping_add(v);
                assert(vals@.map_values(|v: u64| v as nat) =~= before.push(v as nat));
                assert(before.push(v as nat).drop_last() == before);
                assert(sum_of(before.push(v as nat)) == sum_of(before) + v);
            },
            None => {},
        }
        i = i + 1;
    }
    assert(ws.take(i - 1) == ws);
    let idle = if vals.len() > 3 {
        vals[3]
    } else {
        0
    };
    CpuTimes { total, idle }
}

/// The real user id on the first `Uid:` line of a `/proc/<pid>/status` text
/// that has a word after the label: that word read as a `u32`, or 0 when it
/// is not one; `None` when there is no such line.
pub open spec fn uid_scan(ls: Seq<Seq<char>>) -> Option<nat>
    decreases ls.len(),
{
    if ls.len() == 0 {
        None
    } else if has_prefix(ls[0], "Uid:"@) && words(ls[0].skip("Uid:"@.len() as int)).len() > 0 {
        Some(field_u32(words(ls[0].skip("Uid:"@.len() as int))[0]))
    } else {
        uid_scan(ls.drop_first())
    }
}

/// The owner's user id that a `/proc/<pid>/status` text records, or 0.
pub open spec fn status_uid(s: Seq<char>) -> nat {
    match uid_scan(lines(s)) {
        Some(u) => u,
        None => 0,
    }
}

/// Reads the owner's user id from the text of `/proc/<pid>/status`.
pub fn parse_status_uid(content: &str) -> (res: u32)
    ensures
        res as nat == status_uid(content@),
{
    let ls = split_lines(&chars_of(content));
    let ghost vs = views(ls@);
    assert(vs.skip(0) == vs);
    let mut i: usize = 0;
    while i < ls.len()
        invariant
            i <= ls.len(),
            vs == views(ls@),
            vs == lines(content@),
            uid_scan(vs) == uid_scan(vs.skip(i as int)),
        decreases ls.len() - i,
    {
        assert(vs.skip(i as int).drop_first() == vs.skip(i + 1));
        assert(vs.skip(i as int)[0] == ls@[i as int]@);
        if let Some(rest) = strip_prefix(&ls[i], "Uid:") {
            let ws = split_words(&rest);
            assert(views(ws@).len() == ws@.len());
            if ws.len() > 0 {
                assert(views(ws@)[0] == ws@[0]@);
                return match parse_unsigned_chars(&ws[0], u32::MAX as u64) {
                    Some(v) => v as u32,
                    None => 0,
                };
            }
        }
        i = i + 1;
    }
    0
}

/// The user name that the first `/etc/passwd` line with at least three
/// `':'`-separated fields and `uid` in the third gives: its first field.
pub open spec fn passwd_lookup(ls: Seq<Seq<char>>, uid: nat) -> Option<Seq<char>>
    decreases ls.len(),
{
    if ls.len() == 0 {
        None
    } else if split_on(ls[0], ':').len() >= 3 && parse_unsigned(split_on(ls[0], ':')[2], u32_max())
        == Some(uid) {
        Some(split_on(ls[0], ':')[0])
    } else {
        passwd_lookup(ls.drop_first(), uid)
    }
}

/// The name shown for user `uid`: the one `/etc/passwd` gives, or else the
/// number in decimal.
pub open spec fn user_name(passwd: Seq<char>, uid: nat) -> Seq<char> {
    match passwd_lookup(lines(passwd), uid) {
        Some(n) => n,
        None => dec(uid),
    }
}

proof fn lemma_lookup_first(ls: Seq<Seq<char>>, uid: nat, j: int)
    requires
        0 <= j <= ls.len(),
        forall|k: int|
            0 <= k < j ==> !(split_on(#[trigger] ls[k], ':').len() >= 3 && parse_unsigned(
                split_on(ls[k], ':')[2],
                u32_max(),
            ) == Some(uid)),
    ensures
        j < ls.len() && split_on(ls[j], ':').len() >= 3 && parse_unsigned(split_on(ls[j], ':')[2], u32_max())
            == Some(uid) ==> passwd_lookup(ls, uid) == Some(split_on(ls[j], ':')[0]),
        j == ls.len() ==> passwd_lookup(ls, uid) is None,
    decreases j,
{
    if j > 0 {
        let t = ls.drop_first();
        assert forall|k: int|
            0 <= k < j - 1 implies !(split_on(#[trigger] t[k], ':').len() >= 3 && parse_unsigned(
            split_on(t[k], ':')[2],
            u32_max(),
        ) == Some(uid)) by {
            assert(t[k] == ls[k + 1]);
        }
        lemma_lookup_first(t, uid, j - 1);
        assert(!(split_on(ls[0], ':').len() >= 3 && parse_unsigned(split_on(ls[0], ':')[2], u32_max())
            == Some(uid)));
        if j < ls.len() {
            assert(t[j - 1] == ls[j]);
        }
    }
}

/// A user's name is the first `':'`-separated field of the first
/// `/etc/passwd` line whose third field is the user id, whatever its other
/// fields hold; with no such line it is the id in decimal.
pub proof fn law_user_named_by_third_field(passwd: Seq<char>, uid: u32, j: int)
    requires
        0 <= j <= lines(passwd).len(),
        forall|k: int|
            0 <= k < j ==> !(split_on(#[trigger] lines(passwd)[k], ':').len() >= 3 && parse_unsigned(
                split_on(lines(passwd)[k], ':')[2],
                u32_max(),
            ) == Some(uid as nat)),
    ensures
        j < lines(passwd).len() && split_on(lines(passwd)[j], ':').len() >= 3 && parse_unsigned(
            split_on(lines(passwd)[j], ':')[2],
            u32_max(),
        ) == Some(uid as nat) ==> user_name(passwd, uid as nat) == split_on(lines(passwd)[j], ':')[0],
        j == lines(passwd).len() ==> user_name(passwd, uid as nat) == dec(uid as nat),
{
    lemma_lookup_first(lines(passwd), uid as nat, j);
}

/// The name of user `uid`, from the text of `/etc/passwd` (see `user_name`).
pub fn resolve_uid_to_name(passwd: &str, uid: u32) -> (res: String)
    ensures
        res@ == user_name(passwd@, uid as nat),
{
    let ls = split_lines(&chars_of(passwd));
    let ghost vs = views(ls@);
    assert(vs.skip(0) == vs);
    let mut i: usize = 0;
    while i < ls.len()
        invariant
            i <= ls.len(),
            vs == views(ls@),
            vs == lines(passwd@),
            passwd_lookup(vs, uid as nat) == passwd_lookup(vs.skip(i as int), uid as nat),
        decreases ls.len() - i,
    {
        assert(vs.skip(i as int).drop_first() == vs.skip(i + 1));
        assert(vs.skip(i as int)[0] == ls@[i as int]@);
        let parts = split_chars(&ls[i], ':');
        assert(views(parts@).len() == parts@.len());
        if parts.len() >= 3 {
            assert(views(parts@)[2] == parts@[2]@);
            assert(views(parts@)[0] == parts@[0]@);
            match parse_unsigned_chars(&parts[2], u32::MAX as u64) {
                Some(v) => {
                    if v == uid as u64 {
                        return string_of(&parts[0]);
                    }
                },
                None => {},
            }
        }
        i = i + 1;
    }
    u64_to_string(uid as u64)
}

/// Whether a line of `/proc/modules` begins with `module`.
pub open spec fn module_listed(s: Seq<char>, module: Seq<char>) -> bool {
    exists|i: int| 0 <= i < lines(s).len() && has_prefix(#[trigger] lines(s)[i], module)
}

/// Whether the text of `/proc/modules` lists `module` (a line begins with it).
pub fn check_module_loaded(content: &str, module: &str) -> (res: bool)
    ensures
        res == module_listed(content@, module@),
{
    let ls = split_lines(&chars_of(content));
    let ghost vs = views(ls@);
    for i in 0..ls.len()
        invariant
            vs == views(ls@),
            vs == lines(content@),
            forall|j: int| 0 <= j < i ==> !has_prefix(#[trigger] vs[j], module@),
    {
        assert(vs[i as int] == ls@[i as int]@);
        if starts_with(&ls[i], module) {
            return true;
        }
    }
    false
}

/// A sysfs number such as `"8573157376\n"`: the trimmed text read as a `u64`.
pub open spec fn sysfs_value(s: Seq<char>) -> Option<nat> {
    parse_unsigned(trim(s), u64_max())
}

/// Reads a number from the text of a sysfs file.
pub fn parse_sysfs_u64(content: &str) -> (res: Option<u64>)
    ensures
        match sysfs_value(content@) {
            Some(v) => res == Some(v as u64),
            None => res is None,
        },
{
    parse_unsigned_chars(&trim_chars(&chars_of(content)), u64::MAX)
}

/// The GPU busy percentage from the `gpu_busy_percent` texts of card 1 and
/// card 0: the first that reads as a `u8`, else 0.
pub open spec fn gpu_busy(card1: Seq<char>, card0: Seq<char>) -> nat {
    match parse_unsigned(trim(card1), 255) {
        Some(v) => v,
        None => match parse_unsigned(trim(card0), 255) {
            Some(v) => v,
            None => 0,
        },
    }
}

/// Reads the GPU busy percentage, trying card 1 before card 0.
pub fn read_gpu_busy_percent(card1: &str, card0: &str) -> (res: u8)
    ensures
        res as nat == gpu_busy(card1@, card0@),
{
    match parse_unsigned_chars(&trim_chars(&chars_of(card1)), 255) {
        Some(v) => v as u8,
        None => match parse_unsigned_chars(&trim_chars(&chars_of(card0)), 255) {
            Some(v) => v as u8,
            None => 0,
        },
    }
}

/// Device memory in kilobytes, from the byte counts that card 1 and card 0
/// report (`None` where a file is missing or unreadable as a number): card
/// 1's total and used amounts, or card 0's when card 1's total is under a
/// kilobyte.
pub open spec fn device_memory(
    c1_total: Option<u64>,
    c1_used: Option<u64>,
    c0_total: Option<u64>,
    c0_used: Option<u64>,
) -> (nat, nat) {
    let t1 = match c1_total { Some(v) => v as nat, None => 0 } / 1024;
    let u1 = match c1_used { Some(v) => v as nat, None => 0 } / 1024;
    if t1 == 0 {
        (
            match c0_total { Some(v) => v as nat, None => 0 } / 1024,
            match c0_used { Some(v) => v as nat, None => 0 } / 1024,
        )
    } else {
        (t1, u1)
    }
}

/// Picks the total and used device memory in kilobytes (see `device_memory`).
pub fn device_memory_kb(
    c1_total: Option<u64>,
    c1_used: Option<u64>,
    c0_total: Option<u64>,
    c0_used: Option<u64>,
) -> (res: (u64, u64))
    ensures
        (res.0 as nat, res.1 as nat) == device_memory(c1_total, c1_used, c0_total, c0_used),
{
    let t1 = match c1_total { Some(v) => v, None => 0 } / 1024;
    let u1 = match c1_used { Some(v) => v, None => 0 } / 1024;
    if t1 == 0 {
        (
            match c0_total { Some(v) => v, None => 0 } / 1024,
            match c0_used { Some(v) => v, None => 0 } / 1024,
        )
    } else {
        (t1, u1)
    }
}

/// The process id that a `/proc` entry name stands for, if it is one.
pub fn parse_pid(name: &str) -> (res: Option<u32>)
    ensures
        match parse_unsigned(name@, u32_max()) {
            Some(v) => res == Some(v as u32),
            None => res is None,
        },
{
    match parse_unsigned_chars(&chars_of(name), u32::MAX as u64) {
        Some(v) => Some(v as u32),
        None => None,
    }
}


/// Adds `kb` to `acc` when there is an amount, as a release build's `u64`
/// addition does.
pub open spec fn add_amount(acc: nat, kb: Option<nat>) -> nat {
    match kb {
        Some(v) => wrap64(acc + v),
        None => acc,
    }
}

/// The second `':'`-separated piece of `l`, if there is one.
pub open spec fn second_piece(l: Seq<char>) -> Option<Seq<char>> {
    if split_on(l, ':').len() > 1 {
        Some(split_on(l, ':')[1])
    } else {
        None
    }
}

/// The amount in the second `':'`-separated piece of `l`, if any.
pub open spec fn second_piece_amount(l: Seq<char>) -> Option<nat> {
    match second_piece(l) {
        Some(p) => drm_memory_value(p),
        None => None,
    }
}

/// One DRM fdinfo line added to the running (VRAM, GTT) totals: a
/// `drm-memory-vram:` or `drm-memory-gtt:` entry adds its amount to VRAM or
/// GTT; independently of that, a line beginning with
/// `amd-memory-visible-vram:` or `amd-memory-vram:` adds the amount in its
/// second `':'`-separated piece to VRAM, and one beginning with
/// `amd-memory-gtt:` adds it to GTT.
pub open spec fn fdinfo_line(acc: (nat, nat), l: Seq<char>) -> (nat, nat) {
    let a1 = if has_prefix(l, "drm-memory-vram:"@) {
        (add_amount(acc.0, drm_memory_value(l.skip("drm-memory-vram:"@.len() as int))), acc.1)
    } else if has_prefix(l, "drm-memory-gtt:"@) {
        (acc.0, add_amount(acc.1, drm_memory_value(l.skip("drm-memory-gtt:"@.len() as int))))
    } else {
        acc
    };
    let a2 = if has_prefix(l, "amd-memory-visible-vram:"@) || has_prefix(l, "amd-memory-vram:"@) {
        (add_amount(a1.0, second_piece_amount(l)), a1.1)
    } else {
        a1
    };
    if has_prefix(l, "amd-memory-gtt:"@) {
        (a2.0, add_amount(a2.1, second_piece_amount(l)))
    } else {
        a2
    }
}

/// The lines of an fdinfo text added in order to the running totals.
pub open spec fn fdinfo_lines(acc: (nat, nat), ls: Seq<Seq<char>>) -> (nat, nat)
    decreases ls.len(),
{
    if ls.len() == 0 {
        acc
    } else {
        fdinfo_line(fdinfo_lines(acc, ls.drop_last()), ls.last())
    }
}

/// The fdinfo texts of one process added in order to the running totals.
pub open spec fn fdinfo_texts(acc: (nat, nat), texts: Seq<Seq<char>>) -> (nat, nat)
    decreases texts.len(),
{
    if texts.len() == 0 {
        acc
    } else {
        fdinfo_lines(fdinfo_texts(acc, texts.drop_last()), lines(texts.last()))
    }
}

/// The views of a vector of strings.
pub open spec fn string_views(v: Seq<String>) -> Seq<Seq<char>> {
    v.map_values(|s: String| s@)
}

fn amount_of(l: &Vec<char>) -> (res: Option<u64>)
    ensures
        match second_piece_amount(l@) {
            Some(v) => res == Some(v as u64),
            None => res is None,
        },
{
    let ps = split_chars(l, ':');
    assert(views(ps@).len() == ps@.len());
    if ps.len() > 1 {
        assert(views(ps@)[1] == ps@[1]@);
        parse_drm_memory_val(&string_of(&ps[1]))
    } else {
        None
    }
}

fn add_kb(acc: u64, kb: Option<u64>) -> (res: u64)
    ensures
        res as nat == add_amount(
            acc as nat,
            match kb {
                Some(v) => Some(v as nat),
                None => None,
            },
        ),
{
    match kb {
        Some(v) => acc.wrapping_add(v),
        None => acc,
    }
}

/// The VRAM and GTT, in kibibytes, that the fdinfo texts of one process
/// report (see `fdinfo_line`), summed in 64 bits.
pub fn gpu_memory_kb(fdinfos: &Vec<String>) -> (res: (u64, u64))
    ensures
        (res.0 as nat, res.1 as nat) == fdinfo_texts((0, 0), string_views(fdinfos@)),
{
    let ghost ts = string_views(fdinfos@);
    let mut vram: u64 = 0;
    let mut gtt: u64 = 0;
    for f in 0..fdinfos.len()
        invariant
            ts == string_views(fdinfos@),
            (vram as nat, gtt as nat) == fdinfo_texts((0, 0), ts.take(f as int)),
    {
        assert(ts.take(f + 1).drop_last() == ts.take(f as int));
        assert(ts.take(f + 1).last() == fdinfos@[f as int]@);
        let ghost start = (vram as nat, gtt as nat);
        let ls = split_lines(&chars_of(fdinfos[f].as_str()));
        let ghost vs = views(ls@);
        for i in 0..ls.len()
            invariant
                vs == views(ls@),
                (vram as nat, gtt as nat) == fdinfo_lines(start, vs.take(i as int)),
        {
            assert(vs.take(i + 1).drop_last() == vs.take(i as int));
            assert(vs.take(i + 1).last() == ls@[i as int]@);
            let l = &ls[i];
            if let Some(r) = strip_prefix(l, "drm-memory-vram:") {
                vram = add_kb(vram, parse_drm_memory_val(&string_of(&r)));
            } else if let Some(r) = strip_prefix(l, "drm-memory-gtt:") {
                gtt = add_kb(gtt, parse_drm_memory_val(&string_of(&r)));
            }
            if starts_with(l, "amd-memory-visible-vram:") || starts_with(l, "amd-memory-vram:") {
                vram = add_kb(vram, amount_of(l));
            }
            if starts_with(l, "amd-memory-gtt:") {
                gtt = add_kb(gtt, amount_of(l));
            }
        }
        assert(vs.take(ls.len() as int) == vs);
    }
    assert(ts.take(fdinfos.len() as int) == ts);
    (vram, gtt)
}

/// The first of a process's descriptor targets that names an accelerator
/// device (contains `/dev/accel`).
pub open spec fn accel_target(links: Seq<Seq<char>>) -> Option<int>
    decreases links.len(),
{
    if links.len() == 0 {
        None
    } else if occurs_in(links[0], "/dev/accel"@) {
        Some(0)
    } else {
        match accel_target(links.drop_first()) {
            Some(i) => Some(i + 1),
            None => None,
        }
    }
}

/// Which of a process's descriptor targets is the first that names an
/// accelerator device, if one does.
pub fn find_accel_link(links: &Vec<String>) -> (res: Option<usize>)
    ensures
        match accel_target(string_views(links@)) {
            Some(i) => res == Some(i as usize),
            None => res is None,
        },
{
    let ghost vs = string_views(links@);
    let needle = chars_of("/dev/accel");
    assert(vs.skip(0) == vs);
    let mut i: usize = 0;
    while i < links.len()
        invariant
            i <= links.len(),
            needle@ == "/dev/accel"@,
            vs == string_views(links@),
            accel_target(vs) == match accel_target(vs.skip(i as int)) {
                Some(k) => Some(k + i),
                None => None,
            },
        decreases links.len() - i,
    {
        assert(vs.skip(i as int).drop_first() == vs.skip(i + 1));
        assert(vs.skip(i as int)[0] == links@[i as int]@);
        if contains_chars(&chars_of(links[i].as_str()), &needle) {
            return Some(i);
        }
        i = i + 1;
    }
    None
}

} // verus!

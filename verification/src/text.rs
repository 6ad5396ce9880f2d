use vstd::prelude::*;

verus! {

broadcast use vstd::string::group_string_axioms;

/// Appends one character to a string.
/// Calls `String::push`, which appends `c` at the end of `s`.
#[verifier::external_body]
pub(crate) fn push_char(s: &mut String, c: char)
    ensures
        final(s)@ == old(s)@.push(c),
{
    s.push(c);
}

/// Removes the last character of `s`, if it has one.
/// Calls `String::pop`, which removes the last character, if any.
#[verifier::external_body]
pub(crate) fn pop_char(s: &mut String)
    ensures
        final(s)@ == if old(s)@.len() > 0 {
            old(s)@.drop_last()
        } else {
            old(s)@
        },
{
    s.pop();
}

/// A string holding the characters of `s`.
pub fn string_from(s: &str) -> (res: String)
    ensures
        res@ == s@,
{
    s.to_owned()
}

/// The characters of `s`, in order.
pub fn chars_of(s: &str) -> (res: Vec<char>)
    ensures
        res@ == s@,
{
    let mut res: Vec<char> = Vec::new();
    for c in it: s.chars()
        invariant
            res@ == it.seq().take(it.index() as int),
            it.seq() == s@,
    {
        res.push(c);
    }
    res
}

/// The string made of the characters of `cs`, in order.
pub fn string_of(cs: &Vec<char>) -> (res: String)
    ensures
        res@ == cs@,
{
    let mut res = String::new();
    for i in 0..cs.len()
        invariant
            res@ == cs@.take(i as int),
    {
        push_char(&mut res, cs[i]);
        assert(cs@.take(i + 1) == cs@.take(i as int).push(cs@[i as int]));
    }
    assert(cs@.take(cs.len() as int) == cs@);
    res
}


/// Unicode White_Space, the set that `char::is_whitespace` tests.
pub open spec fn is_ws(c: char) -> bool {
    let n = c as u32;
    ||| 9 <= n <= 13
    ||| n == 32
    ||| n == 0x85
    ||| n == 0xA0
    ||| n == 0x1680
    ||| 0x2000 <= n <= 0x200A
    ||| n == 0x2028
    ||| n == 0x2029
    ||| n == 0x202F
    ||| n == 0x205F
    ||| n == 0x3000
}

/// Whether `c` is white space in the sense of `char::is_whitespace`.
pub fn is_whitespace(c: char) -> (res: bool)
    ensures
        res == is_ws(c),
{
    let n = c as u32;
    (9 <= n && n <= 13) || n == 32 || n == 0x85 || n == 0xA0 || n == 0x1680 || (0x2000 <= n && n
        <= 0x200A) || n == 0x2028 || n == 0x2029 || n == 0x202F || n == 0x205F || n == 0x3000
}

/// `s` without its leading white space.
pub open spec fn trim_start(s: Seq<char>) -> Seq<char>
    decreases s.len(),
{
    if s.len() > 0 && is_ws(s[0]) {
        trim_start(s.drop_first())
    } else {
        s
    }
}

/// `s` without its trailing white space.
pub open spec fn trim_end(s: Seq<char>) -> Seq<char>
    decreases s.len(),
{
    if s.len() > 0 && is_ws(s.last()) {
        trim_end(s.drop_last())
    } else {
        s
    }
}

/// `s` without leading or trailing white space, as `str::trim` gives it.
pub open spec fn trim(s: Seq<char>) -> Seq<char> {
    trim_end(trim_start(s))
}

proof fn lemma_trim_start_skip(s: Seq<char>, i: int)
    requires
        0 <= i <= s.len(),
        forall|j: int| 0 <= j < i ==> is_ws(#[trigger] s[j]),
    ensures
        trim_start(s) == trim_start(s.skip(i)),
    decreases i,
{
    if i > 0 {
        assert(s.skip(1) == s.drop_first());
        assert forall|j: int| 0 <= j < i - 1 implies is_ws(#[trigger] s.skip(1)[j]) by {
            assert(s.skip(1)[j] == s[j + 1]);
        }
        lemma_trim_start_skip(s.skip(1), i - 1);
        assert(s.skip(1).skip(i - 1) == s.skip(i));
    } else {
        assert(s.skip(0) == s);
    }
}

proof fn lemma_trim_end_take(s: Seq<char>, k: int)
    requires
        0 <= k <= s.len(),
        forall|j: int| k <= j < s.len() ==> is_ws(#[trigger] s[j]),
    ensures
        trim_end(s) == trim_end(s.take(k)),
    decreases s.len() - k,
{
    if k < s.len() {
        assert(is_ws(s[s.len() - 1]));
        let t = s.drop_last();
        assert forall|j: int| k <= j < t.len() implies is_ws(#[trigger] t[j]) by {
            assert(t[j] == s[j]);
        }
        lemma_trim_end_take(t, k);
        assert(t.take(k) == s.take(k));
    } else {
        assert(s.take(k) == s);
    }
}

/// `s` without leading or trailing white space, as `str::trim` gives it.
pub fn trim_chars(s: &Vec<char>) -> (res: Vec<char>)
    ensures
        res@ == trim(s@),
{
    let n = s.len();
    let mut start: usize = 0;
    while start < n && is_whitespace(s[start])
        invariant
            n == s.len(),
            start <= n,
            forall|j: int| 0 <= j < start ==> is_ws(#[trigger] s@[j]),
        decreases n - start,
    {
        start = start + 1;
    }
    let mut end: usize = n;
    while end > start && is_whitespace(s[end - 1])
        invariant
            n == s.len(),
            start <= end <= n,
            forall|j: int| end <= j < n ==> is_ws(#[trigger] s@[j]),
        decreases end - start,
    {
        end = end - 1;
    }
    let mut res: Vec<char> = Vec::new();
    let mut i: usize = start;
    while i < end
        invariant
            n == s.len(),
            start <= i <= end <= n,
            res@ == s@.subrange(start as int, i as int),
        decreases end - i,
    {
        res.push(s[i]);
        i = i + 1;
    }
    proof {
        lemma_trim_start_skip(s@, start as int);
        let u = s@.skip(start as int);
        if start < n {
            assert(!is_ws(u[0]));
        }
        assert(trim_start(u) == u);
        assert forall|j: int| end - start <= j < u.len() implies is_ws(#[trigger] u[j]) by {
            assert(u[j] == s@[j + start]);
        }
        lemma_trim_end_take(u, end - start);
        let w = u.take(end - start);
        if end > start {
            assert(w.last() == s@[end - 1]);
        }
        assert(trim_end(w) == w);
        assert(w == s@.subrange(start as int, end as int));
    }
    res
}


/// Reading `s` from the left: the white-space separated words that are
/// complete, and the word still being read.
pub open spec fn words_scan(s: Seq<char>) -> (Seq<Seq<char>>, Seq<char>)
    decreases s.len(),
{
    if s.len() == 0 {
        (Seq::empty(), Seq::empty())
    } else {
        let (done, cur) = words_scan(s.drop_last());
        if is_ws(s.last()) {
            if cur.len() > 0 {
                (done.push(cur), Seq::empty())
            } else {
                (done, Seq::empty())
            }
        } else {
            (done, cur.push(s.last()))
        }
    }
}

/// The words of `s`, as `str::split_whitespace` yields them.
pub open spec fn words(s: Seq<char>) -> Seq<Seq<char>> {
    let (done, cur) = words_scan(s);
    if cur.len() > 0 {
        done.push(cur)
    } else {
        done
    }
}

proof fn lemma_words_scan_nonempty(s: Seq<char>)
    ensures
        forall|i: int|
            0 <= i < words_scan(s).0.len() ==> #[trigger] words_scan(s).0[i].len() > 0,
    decreases s.len(),
{
    if s.len() > 0 {
        lemma_words_scan_nonempty(s.drop_last());
        let (done, cur) = words_scan(s.drop_last());
        assert forall|i: int| 0 <= i < words_scan(s).0.len() implies #[trigger] words_scan(
            s,
        ).0[i].len() > 0 by {
            if i < done.len() {
                assert(words_scan(s).0[i] == done[i]);
            }
        }
    }
}

/// Every word has at least one character.
pub proof fn lemma_words_nonempty(s: Seq<char>)
    ensures
        forall|i: int| 0 <= i < words(s).len() ==> #[trigger] words(s)[i].len() > 0,
{
    lemma_words_scan_nonempty(s);
}

/// The words of `s`, as `str::split_whitespace` yields them.
pub fn split_words(s: &Vec<char>) -> (res: Vec<Vec<char>>)
    ensures
        res@.map_values(|w: Vec<char>| w@) == words(s@),
{
    let mut done: Vec<Vec<char>> = Vec::new();
    let mut cur: Vec<char> = Vec::new();
    for i in 0..s.len()
        invariant
            (done@.map_values(|w: Vec<char>| w@), cur@) == words_scan(s@.take(i as int)),
    {
        assert(s@.take(i + 1).drop_last() == s@.take(i as int));
        let c = s[i];
        if is_whitespace(c) {
            if cur.len() > 0 {
                let w = cur;
                cur = Vec::new();
                done.push(w);
            }
        } else {
            cur.push(c);
        }
        assert(done@.map_values(|w: Vec<char>| w@) =~= words_scan(s@.take(i + 1)).0);
    }
    assert(s@.take(s.len() as int) == s@);
    if cur.len() > 0 {
        done.push(cur);
    }
    assert(done@.map_values(|w: Vec<char>| w@) =~= words(s@));
    done
}

/// Reading `s` from the left: the pieces between the separators `sep`
/// that are complete, and the piece still being read.
pub open spec fn split_scan(s: Seq<char>, sep: char) -> (Seq<Seq<char>>, Seq<char>)
    decreases s.len(),
{
    if s.len() == 0 {
        (Seq::empty(), Seq::empty())
    } else {
        let (done, cur) = split_scan(s.drop_last(), sep);
        if s.last() == sep {
            (done.push(cur), Seq::empty())
        } else {
            (done, cur.push(s.last()))
        }
    }
}

/// The pieces of `s` between the separators `sep`, as `str::split` yields them.
pub open spec fn split_on(s: Seq<char>, sep: char) -> Seq<Seq<char>> {
    let (done, cur) = split_scan(s, sep);
    done.push(cur)
}

/// The pieces of `s` between the separators `sep`, as `str::split` yields them.
pub fn split_chars(s: &Vec<char>, sep: char) -> (res: Vec<Vec<char>>)
    ensures
        res@.map_values(|w: Vec<char>| w@) == split_on(s@, sep),
{
    let mut done: Vec<Vec<char>> = Vec::new();
    let mut cur: Vec<char> = Vec::new();
    for i in 0..s.len()
        invariant
            (done@.map_values(|w: Vec<char>| w@), cur@) == split_scan(s@.take(i as int), sep),
    {
        assert(s@.take(i + 1).drop_last() == s@.take(i as int));
        let c = s[i];
        if c == sep {
            let w = cur;
            cur = Vec::new();
            done.push(w);
        } else {
            cur.push(c);
        }
        assert(done@.map_values(|w: Vec<char>| w@) =~= split_scan(s@.take(i + 1), sep).0);
    }
    assert(s@.take(s.len() as int) == s@);
    done.push(cur);
    assert(done@.map_values(|w: Vec<char>| w@) =~= split_on(s@, sep));
    done
}

/// A line as `str::lines` yields it: without the `'\r'` that ends it, if any.
pub open spec fn strip_cr(line: Seq<char>) -> Seq<char> {
    if line.len() > 0 && line.last() == '\r' {
        line.drop_last()
    } else {
        line
    }
}

/// Reading `s` from the left: the lines that are complete, and the line
/// still being read.
pub open spec fn lines_scan(s: Seq<char>) -> (Seq<Seq<char>>, Seq<char>)
    decreases s.len(),
{
    if s.len() == 0 {
        (Seq::empty(), Seq::empty())
    } else {
        let (done, cur) = lines_scan(s.drop_last());
        if s.last() == '\n' {
            (done.push(strip_cr(cur)), Seq::empty())
        } else {
            (done, cur.push(s.last()))
        }
    }
}

/// The lines of `s`, as `str::lines` yields them: split at `'\n'`, each
/// without a `'\r'` that stood before its `'\n'`, and no empty last line
/// after a final `'\n'`.
pub open spec fn lines(s: Seq<char>) -> Seq<Seq<char>> {
    let (done, cur) = lines_scan(s);
    if cur.len() > 0 {
        done.push(cur)
    } else {
        done
    }
}

/// The lines of `s`, as `str::lines` yields them.
pub fn split_lines(s: &Vec<char>) -> (res: Vec<Vec<char>>)
    ensures
        res@.map_values(|w: Vec<char>| w@) == lines(s@),
{
    let mut done: Vec<Vec<char>> = Vec::new();
    let mut cur: Vec<char> = Vec::new();
    for i in 0..s.len()
        invariant
            (done@.map_values(|w: Vec<char>| w@), cur@) == lines_scan(s@.take(i as int)),
    {
        assert(s@.take(i + 1).drop_last() == s@.take(i as int));
        let c = s[i];
        if c == '\n' {
            let mut w = cur;
            cur = Vec::new();
            if w.len() > 0 && w[w.len() - 1] == '\r' {
                w.pop();
            }
            done.push(w);
        } else {
            cur.push(c);
        }
        assert(done@.map_values(|w: Vec<char>| w@) =~= lines_scan(s@.take(i + 1)).0);
    }
    assert(s@.take(s.len() as int) == s@);
    if cur.len() > 0 {
        done.push(cur);
    }
    assert(done@.map_values(|w: Vec<char>| w@) =~= lines(s@));
    done
}


/// Whether `s` begins with `p`.
pub open spec fn has_prefix(s: Seq<char>, p: Seq<char>) -> bool {
    p.len() <= s.len() && s.take(p.len() as int) == p
}

/// Whether `s` begins with `p`, as `str::starts_with` tests it.
pub fn starts_with(s: &Vec<char>, p: &str) -> (res: bool)
    ensures
        res == has_prefix(s@, p@),
{
    let pc = chars_of(p);
    if pc.len() > s.len() {
        return false;
    }
    let mut i: usize = 0;
    while i < pc.len()
        invariant
            pc@ == p@,
            pc.len() <= s.len(),
            i <= pc.len(),
            forall|j: int| 0 <= j < i ==> s@[j] == pc@[j],
        decreases pc.len() - i,
    {
        if s[i] != pc[i] {
            assert(s@.take(pc.len() as int)[i as int] != pc@[i as int]);
            return false;
        }
        i = i + 1;
    }
    assert(s@.take(pc.len() as int) =~= pc@);
    true
}

/// `s` after the prefix `p`, as `str::strip_prefix` gives it.
pub fn strip_prefix(s: &Vec<char>, p: &str) -> (res: Option<Vec<char>>)
    ensures
        res is Some <==> has_prefix(s@, p@),
        res matches Some(r) ==> r@ == s@.skip(p@.len() as int),
{
    if starts_with(s, p) {
        let k = p.unicode_len();
        Some(subrange(s, k, s.len()))
    } else {
        None
    }
}

/// The characters of `s` from index `start` up to, not including, `end`.
pub fn subrange(s: &Vec<char>, start: usize, end: usize) -> (res: Vec<char>)
    requires
        start <= end <= s.len(),
    ensures
        res@ == s@.subrange(start as int, end as int),
{
    let mut res: Vec<char> = Vec::new();
    let mut i: usize = start;
    while i < end
        invariant
            start <= i <= end <= s.len(),
            res@ == s@.subrange(start as int, i as int),
        decreases end - i,
    {
        res.push(s[i]);
        i = i + 1;
    }
    res
}

/// Whether `needle` occurs in `hay` as a contiguous run.
pub open spec fn occurs_in(hay: Seq<char>, needle: Seq<char>) -> bool {
    exists|i: int|
        0 <= i <= hay.len() - needle.len() && #[trigger] hay.subrange(i, i + needle.len())
            == needle
}

/// Whether `needle` occurs in `hay`, as `str::contains` tests it.
pub fn contains_chars(hay: &Vec<char>, needle: &Vec<char>) -> (res: bool)
    ensures
        res == occurs_in(hay@, needle@),
{
    if needle.len() > hay.len() {
        return false;
    }
    let last = hay.len() - needle.len();
    let mut i: usize = 0;
    loop
        invariant
            last == hay.len() - needle.len(),
            needle.len() <= hay.len(),
            i <= last,
            forall|k: int| 0 <= k < i ==> #[trigger] hay@.subrange(k, k + needle.len()) != needle@,
        decreases last - i,
    {
        let mut j: usize = 0;
        let mut same = true;
        while j < needle.len()
            invariant
                i <= last,
                last == hay.len() - needle.len(),
                j <= needle.len(),
                same ==> forall|m: int| 0 <= m < j ==> hay@[i + m] == needle@[m],
                !same ==> hay@.subrange(i as int, i + needle.len()) != needle@,
            decreases needle.len() - j,
        {
            if hay[i + j] != needle[j] {
                assert(hay@.subrange(i as int, i + needle.len())[j as int] != needle@[j as int]);
                same = false;
            }
            j = j + 1;
        }
        if same {
            assert(hay@.subrange(i as int, i + needle.len()) =~= needle@);
            return true;
        }
        if i == last {
            return false;
        }
        i = i + 1;
    }
}

/// The lower-case form of `s`, as `str::to_lowercase` computes it.
pub uninterp spec fn lowercase(s: Seq<char>) -> Seq<char>;

/// Calls `str::to_lowercase`: the result is the lower-case form of `s`, which
/// depends on `s` alone (std's Unicode case tables).
#[verifier::external_body]
pub(crate) fn to_lowercase(s: &str) -> (res: String)
    ensures
        res@ == lowercase(s@),
{
    s.to_lowercase()
}

/// The character that stands for the decimal digit `d`.
pub open spec fn digit_char(d: nat) -> char {
    (d + 48) as char
}

/// Whether `c` is one of the ASCII digits.
pub open spec fn is_digit(c: char) -> bool {
    '0' <= c <= '9'
}

/// The value of the decimal digits `s`.
pub open spec fn digits_value(s: Seq<char>) -> nat
    decreases s.len(),
{
    if s.len() == 0 {
        0
    } else {
        digits_value(s.drop_last()) * 10 + ((s.last() as nat) - 48) as nat
    }
}

/// `s` without one leading `'+'`, if it has one.
pub open spec fn unsigned_digits(s: Seq<char>) -> Seq<char> {
    if s.len() > 0 && s[0] == '+' {
        s.drop_first()
    } else {
        s
    }
}

/// The value of `d` when it is at least one ASCII digit and nothing else,
/// and the value does not exceed `max`.
pub open spec fn parse_digits(d: Seq<char>, max: nat) -> Option<nat> {
    if d.len() > 0 && (forall|i: int| 0 <= i < d.len() ==> is_digit(#[trigger] d[i]))
        && digits_value(d) <= max {
        Some(digits_value(d))
    } else {
        None
    }
}

/// What `str::parse` gives for an unsigned integer type whose largest value
/// is `max`: a `'+'` may lead, then at least one ASCII digit and nothing else,
/// and the value must not exceed `max`.
pub open spec fn parse_unsigned(s: Seq<char>, max: nat) -> Option<nat> {
    parse_digits(unsigned_digits(s), max)
}

/// What `str::parse::<i32>` gives: a `'+'` or a `'-'` may lead, then at least
/// one ASCII digit and nothing else, and the value must fit in an `i32`.
pub open spec fn parse_signed32(s: Seq<char>) -> Option<int> {
    if s.len() > 0 && s[0] == '-' {
        match parse_digits(s.drop_first(), 0x8000_0000) {
            Some(v) => Some(-v),
            None => None,
        }
    } else {
        match parse_digits(unsigned_digits(s), 0x7fff_ffff) {
            Some(v) => Some(v as int),
            None => None,
        }
    }
}

proof fn lemma_digits_value_grows(s: Seq<char>, k: int)
    requires
        0 <= k <= s.len(),
        forall|i: int| 0 <= i < s.len() ==> is_digit(#[trigger] s[i]),
    ensures
        digits_value(s.take(k)) <= digits_value(s),
    decreases s.len() - k,
{
    if k < s.len() {
        let t = s.drop_last();
        assert forall|i: int| 0 <= i < t.len() implies is_digit(#[trigger] t[i]) by {
            assert(t[i] == s[i]);
        }
        lemma_digits_value_grows(t, k);
        assert(t.take(k) == s.take(k));
    } else {
        assert(s.take(k) == s);
    }
}

/// Parses the characters of `s` from index `start` on as decimal digits whose
/// value may not exceed `max`.
fn parse_digits_from(s: &Vec<char>, start: usize, max: u64) -> (res: Option<u64>)
    requires
        start <= s.len(),
    ensures
        match parse_digits(s@.skip(start as int), max as nat) {
            Some(v) => res == Some(v as u64),
            None => res is None,
        },
{
    let ghost d = s@.skip(start as int);
    if start >= s.len() {
        return None;
    }
    let mut v: u64 = 0;
    let mut i: usize = start;
    while i < s.len()
        invariant
            d == s@.skip(start as int),
            start < s.len(),
            start <= i <= s.len(),
            v <= max,
            forall|j: int| 0 <= j < i - start ==> is_digit(#[trigger] d[j]),
            v as nat == digits_value(d.take(i - start)),
        decreases s.len() - i,
    {
        let c = s[i];
        assert(c == d[i - start]);
        if !('0' <= c && c <= '9') {
            assert(!is_digit(d[i - start]));
            return None;
        }
        let dv = (c as u32 - 48) as u64;
        assert(d.take(i - start + 1).drop_last() == d.take(i - start));
        assert(digits_value(d.take(i - start + 1)) == v * 10 + dv);
        if v > max / 10 || dv > max - v * 10 {
            proof {
                assert(v * 10 + dv > max) by (nonlinear_arith)
                    requires
                        v > max / 10 || dv > max - v * 10,
                        v <= max,
                ;
                if forall|j: int| 0 <= j < d.len() ==> is_digit(#[trigger] d[j]) {
                    lemma_digits_value_grows(d, i - start + 1);
                }
            }
            return None;
        }
        v = v * 10 + dv;
        i = i + 1;
    }
    assert(d.take(i - start) == d);
    Some(v)
}

/// Parses `s` as `str::parse` parses an unsigned integer whose largest value is `max`.
pub fn parse_unsigned_chars(s: &Vec<char>, max: u64) -> (res: Option<u64>)
    ensures
        match parse_unsigned(s@, max as nat) {
            Some(v) => res == Some(v as u64),
            None => res is None,
        },
{
    let start: usize = if s.len() > 0 && s[0] == '+' {
        1
    } else {
        0
    };
    assert(unsigned_digits(s@) == s@.skip(start as int));
    parse_digits_from(s, start, max)
}

/// Parses `s` as `str::parse::<i32>` does.
pub fn parse_i32_chars(s: &Vec<char>) -> (res: Option<i32>)
    ensures
        match parse_signed32(s@) {
            Some(v) => res == Some(v as i32),
            None => res is None,
        },
{
    if s.len() > 0 && s[0] == '-' {
        assert(s@.drop_first() == s@.skip(1));
        match parse_digits_from(s, 1, 0x8000_0000) {
            Some(v) => {
                let r: i64 = 0i64 - (v as i64);
                Some(r as i32)
            },
            None => None,
        }
    } else {
        let start: usize = if s.len() > 0 && s[0] == '+' {
            1
        } else {
            0
        };
        assert(unsigned_digits(s@) == s@.skip(start as int));
        match parse_digits_from(s, start, 0x7fff_ffff) {
            Some(v) => Some(v as i32),
            None => None,
        }
    }
}

/// The decimal digits of `n`, as `{}` formats an unsigned integer.
pub open spec fn dec(n: nat) -> Seq<char>
    decreases n,
{
    if n < 10 {
        seq![digit_char(n)]
    } else {
        dec(n / 10).push(digit_char(n % 10))
    }
}

/// `n` in decimal with a leading `'-'` when negative, as `{}` formats a signed integer.
pub open spec fn dec_signed(n: int) -> Seq<char> {
    if n < 0 {
        seq!['-'] + dec((-n) as nat)
    } else {
        dec(n as nat)
    }
}

/// The decimal digits of `n`.
pub fn dec_chars_wide(n: u128) -> (res: Vec<char>)
    ensures
        res@ == dec(n as nat),
    decreases n,
{
    if n < 10 {
        let mut v: Vec<char> = Vec::new();
        v.push(((n as u8) + 48) as char);
        assert(v@ =~= seq![digit_char(n as nat)]);
        v
    } else {
        let mut v = dec_chars_wide(n / 10);
        v.push((((n % 10) as u8) + 48) as char);
        v
    }
}

/// The decimal digits of `n`.
pub fn dec_chars(n: u64) -> (res: Vec<char>)
    ensures
        res@ == dec(n as nat),
    decreases n,
{
    if n < 10 {
        let mut v: Vec<char> = Vec::new();
        v.push(((n as u8) + 48) as char);
        assert(v@ =~= seq![digit_char(n as nat)]);
        v
    } else {
        let mut v = dec_chars(n / 10);
        v.push((((n % 10) as u8) + 48) as char);
        v
    }
}

/// `n` in decimal, as `{}` formats it.
pub fn u64_to_string(n: u64) -> (res: String)
    ensures
        res@ == dec(n as nat),
{
    string_of(&dec_chars(n))
}

/// `n` in decimal, as `{}` formats it.
pub fn i32_to_string(n: i32) -> (res: String)
    ensures
        res@ == dec_signed(n as int),
{
    if n < 0 {
        let m: u64 = (0i64 - (n as i64)) as u64;
        let mut v: Vec<char> = Vec::new();
        v.push('-');
        let d = dec_chars(m);
        let mut i: usize = 0;
        while i < d.len()
            invariant
                v@ == seq!['-'] + d@.take(i as int),
                i <= d.len(),
            decreases d.len() - i,
        {
            v.push(d[i]);
            i = i + 1;
            assert(v@ =~= seq!['-'] + d@.take(i as int));
        }
        assert(d@.take(d.len() as int) == d@);
        string_of(&v)
    } else {
        u64_to_string(n as u64)
    }
}

proof fn lemma_dec_digits(n: nat)
    ensures
        dec(n).len() > 0,
        forall|i: int| 0 <= i < dec(n).len() ==> is_digit(#[trigger] dec(n)[i]),
        digits_value(dec(n)) == n,
    decreases n,
{
    assert((digit_char(n % 10) as nat) == n % 10 + 48);
    let s = dec(n);
    if n >= 10 {
        lemma_dec_digits(n / 10);
        assert(s.last() == digit_char(n % 10));
        assert((n / 10) * 10 + n % 10 == n);
        assert(s.drop_last() == dec(n / 10));
        assert forall|i: int| 0 <= i < s.len() implies is_digit(#[trigger] s[i]) by {
            if i < s.len() - 1 {
                assert(s[i] == dec(n / 10)[i]);
            }
        }
    } else {
        assert(s.drop_last() =~= Seq::<char>::empty());
        assert(digits_value(Seq::<char>::empty()) == 0);
    }
}

/// Reading back what `{}` wrote: the decimal form of any `n` that fits parses
/// as `n`.
pub proof fn law_parse_reads_back_decimal(n: nat, max: nat)
    requires
        n <= max,
    ensures
        parse_unsigned(dec(n), max) == Some(n),
{
    lemma_dec_digits(n);
    assert(dec(n)[0] != '+');
}

/// `s` followed by `w - |s|` spaces when it is shorter than `w`, as `{:<w}` pads.
pub open spec fn pad_right(s: Seq<char>, w: nat) -> Seq<char> {
    if s.len() < w {
        s + Seq::new((w - s.len()) as nat, |i: int| ' ')
    } else {
        s
    }
}

/// `s` after `w - |s|` copies of `fill` when it is shorter than `w`, as
/// `{:>w}` (with a space) and `{:0w}` (with a `'0'`) pad.
pub open spec fn pad_left(s: Seq<char>, w: nat, fill: char) -> Seq<char> {
    if s.len() < w {
        Seq::new((w - s.len()) as nat, |i: int| fill) + s
    } else {
        s
    }
}

/// `s` padded on the right with spaces to `w` characters.
pub fn pad_right_chars(s: &Vec<char>, w: usize) -> (res: Vec<char>)
    ensures
        res@ == pad_right(s@, w as nat),
{
    let mut res = subrange(s, 0, s.len());
    assert(s@.subrange(0, s.len() as int) == s@);
    if s.len() < w {
        let k = w - s.len();
        let mut i: usize = 0;
        while i < k
            invariant
                k == w - s.len(),
                i <= k,
                res@ == s@ + Seq::new(i as nat, |j: int| ' '),
            decreases k - i,
        {
            res.push(' ');
            i = i + 1;
            assert(res@ =~= s@ + Seq::new(i as nat, |j: int| ' '));
        }
    }
    res
}

/// `s` padded on the left with `fill` to `w` characters.
pub fn pad_left_chars(s: &Vec<char>, w: usize, fill: char) -> (res: Vec<char>)
    ensures
        res@ == pad_left(s@, w as nat, fill),
{
    let mut res: Vec<char> = Vec::new();
    if s.len() < w {
        let k = w - s.len();
        let mut i: usize = 0;
        while i < k
            invariant
                k == w - s.len(),
                i <= k,
                res@ == Seq::new(i as nat, |j: int| fill),
            decreases k - i,
        {
            res.push(fill);
            i = i + 1;
            assert(res@ =~= Seq::new(i as nat, |j: int| fill));
        }
    }
    let ghost pre = res@;
    let mut i: usize = 0;
    while i < s.len()
        invariant
            i <= s.len(),
            res@ == pre + s@.take(i as int),
        decreases s.len() - i,
    {
        res.push(s[i]);
        i = i + 1;
        assert(res@ =~= pre + s@.take(i as int));
    }
    assert(s@.take(s.len() as int) == s@);
    assert(res@ =~= pad_left(s@, w as nat, fill));
    res
}


/// The index of the first `c` in `s`, or -1 when `c` does not occur.
pub open spec fn find_first(s: Seq<char>, c: char) -> int
    decreases s.len(),
{
    if s.len() == 0 {
        -1
    } else if s[0] == c {
        0
    } else {
        let r = find_first(s.drop_first(), c);
        if r < 0 {
            -1
        } else {
            r + 1
        }
    }
}

/// The index of the last `c` in `s`, or -1 when `c` does not occur.
pub open spec fn find_last(s: Seq<char>, c: char) -> int
    decreases s.len(),
{
    if s.len() == 0 {
        -1
    } else if s.last() == c {
        s.len() - 1
    } else {
        find_last(s.drop_last(), c)
    }
}

proof fn lemma_find_first(s: Seq<char>, c: char, i: int)
    requires
        0 <= i <= s.len(),
        forall|j: int| 0 <= j < i ==> #[trigger] s[j] != c,
    ensures
        i < s.len() && s[i] == c ==> find_first(s, c) == i,
        i == s.len() ==> find_first(s, c) == -1,
    decreases i,
{
    if i > 0 {
        let t = s.drop_first();
        assert forall|j: int| 0 <= j < i - 1 implies #[trigger] t[j] != c by {
            assert(t[j] == s[j + 1]);
        }
        lemma_find_first(t, c, i - 1);
        if i < s.len() && s[i] == c {
            assert(t[i - 1] == s[i]);
        }
    }
}

proof fn lemma_find_last(s: Seq<char>, c: char, k: int)
    requires
        0 <= k <= s.len(),
        forall|j: int| k <= j < s.len() ==> #[trigger] s[j] != c,
    ensures
        k > 0 && s[k - 1] == c ==> find_last(s, c) == k - 1,
        k == 0 ==> find_last(s, c) == -1,
    decreases s.len(),
{
    if s.len() > 0 && k < s.len() {
        let t = s.drop_last();
        assert forall|j: int| k <= j < t.len() implies #[trigger] t[j] != c by {
            assert(t[j] == s[j]);
        }
        assert(s[s.len() - 1] != c);
        lemma_find_last(t, c, k);
        if k > 0 {
            assert(t[k - 1] == s[k - 1]);
        }
    }
}

/// Where the first `c` stands in `s`, as `str::find` finds it (by character).
pub fn find_first_char(s: &Vec<char>, c: char) -> (res: Option<usize>)
    ensures
        match res {
            Some(i) => find_first(s@, c) == i as int && i < s.len() && s@[i as int] == c,
            None => find_first(s@, c) == -1,
        },
{
    let mut i: usize = 0;
    while i < s.len()
        invariant
            i <= s.len(),
            forall|j: int| 0 <= j < i ==> #[trigger] s@[j] != c,
        decreases s.len() - i,
    {
        if s[i] == c {
            proof {
                lemma_find_first(s@, c, i as int);
            }
            return Some(i);
        }
        i = i + 1;
    }
    proof {
        lemma_find_first(s@, c, i as int);
    }
    None
}

/// Where the last `c` stands in `s`, as `str::rfind` finds it (by character).
pub fn find_last_char(s: &Vec<char>, c: char) -> (res: Option<usize>)
    ensures
        match res {
            Some(i) => find_last(s@, c) == i as int && i < s.len() && s@[i as int] == c,
            None => find_last(s@, c) == -1,
        },
{
    let mut k: usize = s.len();
    while k > 0
        invariant
            k <= s.len(),
            forall|j: int| k <= j < s.len() ==> #[trigger] s@[j] != c,
        decreases k,
    {
        if s[k - 1] == c {
            proof {
                lemma_find_last(s@, c, k as int);
            }
            return Some(k - 1);
        }
        k = k - 1;
    }
    proof {
        lemma_find_last(s@, c, 0);
    }
    None
}


/// Whether the characters of `a` are those of `b`.
pub fn chars_equal(a: &Vec<char>, b: &str) -> (res: bool)
    ensures
        res == (a@ == b@),
{
    let bc = chars_of(b);
    if a.len() != bc.len() {
        return false;
    }
    let mut i: usize = 0;
    while i < a.len()
        invariant
            bc@ == b@,
            a.len() == bc.len(),
            i <= a.len(),
            forall|j: int| 0 <= j < i ==> a@[j] == bc@[j],
        decreases a.len() - i,
    {
        if a[i] != bc[i] {
            return false;
        }
        i = i + 1;
    }
    assert(a@ =~= bc@);
    true
}


/// The lexicographic order of `a` and `b` by code point, which is the order
/// `str`'s `Ord` gives (UTF-8 keeps code point order): -1 when `a` comes
/// first, 0 when they are equal, 1 when `b` comes first.
pub open spec fn lex_order(a: Seq<char>, b: Seq<char>) -> int
    decreases a.len(),
{
    if a.len() == 0 {
        if b.len() == 0 {
            0
        } else {
            -1
        }
    } else if b.len() == 0 {
        1
    } else if a[0] < b[0] {
        -1
    } else if a[0] > b[0] {
        1
    } else {
        lex_order(a.drop_first(), b.drop_first())
    }
}

proof fn lemma_lex_order_skip(a: Seq<char>, b: Seq<char>, i: int)
    requires
        0 <= i <= a.len(),
        i <= b.len(),
        forall|j: int| 0 <= j < i ==> a[j] == b[j],
    ensures
        lex_order(a, b) == lex_order(a.skip(i), b.skip(i)),
    decreases i,
{
    if i > 0 {
        assert(a[0] == b[0]);
        lemma_lex_order_skip(a.drop_first(), b.drop_first(), i - 1);
        assert(a.drop_first().skip(i - 1) == a.skip(i));
        assert(b.drop_first().skip(i - 1) == b.skip(i));
    } else {
        assert(a.skip(0) == a);
        assert(b.skip(0) == b);
    }
}

/// Swapping the two texts turns the comparison around.
pub proof fn lemma_lex_order_antisymmetric(a: Seq<char>, b: Seq<char>)
    ensures
        lex_order(a, b) == -lex_order(b, a),
    decreases a.len(),
{
    if a.len() > 0 && b.len() > 0 && a[0] == b[0] {
        lemma_lex_order_antisymmetric(a.drop_first(), b.drop_first());
    }
}

/// Two texts compare equal exactly when they are the same text.
pub proof fn lemma_lex_order_zero(a: Seq<char>, b: Seq<char>)
    ensures
        lex_order(a, b) == 0 <==> a == b,
    decreases a.len(),
{
    if a.len() > 0 && b.len() > 0 && a[0] == b[0] {
        lemma_lex_order_zero(a.drop_first(), b.drop_first());
        if a.drop_first() == b.drop_first() {
            assert(a =~= seq![a[0]] + a.drop_first());
            assert(b =~= seq![b[0]] + b.drop_first());
        }
        if a == b {
            assert(a.drop_first() == b.drop_first());
        }
    } else if a.len() > 0 && b.len() > 0 {
        assert(a[0] != b[0]);
    } else if a.len() == 0 && b.len() > 0 {
        assert(a != b);
    } else if a.len() > 0 {
        assert(a != b);
    } else {
        assert(a =~= b);
    }
}

/// The order of texts is transitive.
pub proof fn lemma_lex_order_transitive(a: Seq<char>, b: Seq<char>, c: Seq<char>)
    requires
        lex_order(a, b) <= 0,
        lex_order(b, c) <= 0,
    ensures
        lex_order(a, c) <= 0,
    decreases a.len(),
{
    if a.len() > 0 && b.len() > 0 && c.len() > 0 && a[0] == b[0] && b[0] == c[0] {
        lemma_lex_order_transitive(a.drop_first(), b.drop_first(), c.drop_first());
    }
}

/// Compares `a` and `b` lexicographically by code point (see `lex_order`).
pub fn lex_compare_chars(a: &Vec<char>, b: &Vec<char>) -> (res: i8)
    ensures
        res as int == lex_order(a@, b@),
{
    let mut i: usize = 0;
    while i < a.len() && i < b.len()
        invariant
            i <= a.len(),
            i <= b.len(),
            forall|j: int| 0 <= j < i ==> a@[j] == b@[j],
        decreases a.len() - i,
    {
        if a[i] == b[i] {
            i = i + 1;
            continue;
        }
        proof {
            lemma_lex_order_skip(a@, b@, i as int);
            assert(a@.skip(i as int)[0] == a@[i as int]);
            assert(b@.skip(i as int)[0] == b@[i as int]);
        }
        if a[i] < b[i] {
            return -1;
        } else {
            return 1;
        }
    }
    proof {
        lemma_lex_order_skip(a@, b@, i as int);
    }
    if i < b.len() {
        -1
    } else if i < a.len() {
        1
    } else {
        0
    }
}

} // verus!

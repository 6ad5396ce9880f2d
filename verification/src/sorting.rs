use std::cmp::Ordering;
use vstd::prelude::*;
use crate::text::{chars_of, lex_compare_chars, lex_order};
use crate::types::SortDir;

verus! {

/// The `Ordering` that a three-way comparison result stands for.
pub open spec fn ordering_of(c: int) -> Ordering {
    if c < 0 {
        Ordering::Less
    } else if c == 0 {
        Ordering::Equal
    } else {
        Ordering::Greater
    }
}

/// The three-way comparison of two numbers.
pub open spec fn num_order(a: u64, b: u64) -> int {
    if a < b {
        -1
    } else if a == b {
        0
    } else {
        1
    }
}

/// Compares two numbers in the given direction: ascending compares `a` with
/// `b`, descending compares `b` with `a`.
pub fn cmp_val(a: u64, b: u64, dir: SortDir) -> (res: Ordering)
    ensures
        res == ordering_of(
            match dir {
                SortDir::Asc => num_order(a, b),
                SortDir::Desc => num_order(b, a),
            },
        ),
{
    let (x, y) = match dir {
        SortDir::Asc => (a, b),
        SortDir::Desc => (b, a),
    };
    if x < y {
        Ordering::Less
    } else if x == y {
        Ordering::Equal
    } else {
        Ordering::Greater
    }
}

/// Compares two strings, by code point, in the given direction: ascending
/// compares `a` with `b`, descending compares `b` with `a`.
pub fn cmp_str(a: &str, b: &str, dir: SortDir) -> (res: Ordering)
    ensures
        res == ordering_of(
            match dir {
                SortDir::Asc => lex_order(a@, b@),
                SortDir::Desc => lex_order(b@, a@),
            },
        ),
{
    let (x, y) = match dir {
        SortDir::Asc => (chars_of(a), chars_of(b)),
        SortDir::Desc => (chars_of(b), chars_of(a)),
    };
    let c = lex_compare_chars(&x, &y);
    if c < 0 {
        Ordering::Less
    } else if c == 0 {
        Ordering::Equal
    } else {
        Ordering::Greater
    }
}


/// What a row is sorted by: a number, or a text compared by code point.
pub enum SortKey {
    Number(u64),
    Text(String),
}

/// A sort key with its text as a sequence.
pub enum KeyView {
    Number(u64),
    Text(Seq<char>),
}

impl View for SortKey {
    type V = KeyView;

    open spec fn view(&self) -> KeyView {
        match self {
            SortKey::Number(n) => KeyView::Number(*n),
            SortKey::Text(t) => KeyView::Text(t@),
        }
    }
}

/// The three-way comparison of two sort keys in ascending order (a number
/// sorts before a text; a table never mixes them).
pub open spec fn key_order_asc(a: KeyView, b: KeyView) -> int {
    match (a, b) {
        (KeyView::Number(x), KeyView::Number(y)) => num_order(x, y),
        (KeyView::Text(x), KeyView::Text(y)) => lex_order(x, y),
        (KeyView::Number(_), KeyView::Text(_)) => -1,
        (KeyView::Text(_), KeyView::Number(_)) => 1,
    }
}

/// The three-way comparison of two sort keys in the given direction.
pub open spec fn key_order(a: KeyView, b: KeyView, dir: SortDir) -> int {
    match dir {
        SortDir::Asc => key_order_asc(a, b),
        SortDir::Desc => key_order_asc(b, a),
    }
}

/// Compares two sort keys in the given direction.
pub fn compare_keys(a: &SortKey, b: &SortKey, dir: SortDir) -> (res: Ordering)
    ensures
        res == ordering_of(key_order(a@, b@, dir)),
{
    match (a, b) {
        (SortKey::Number(x), SortKey::Number(y)) => cmp_val(*x, *y, dir),
        (SortKey::Text(x), SortKey::Text(y)) => cmp_str(x.as_str(), y.as_str(), dir),
        (SortKey::Number(_), SortKey::Text(_)) => match dir {
            SortDir::Asc => Ordering::Less,
            SortDir::Desc => Ordering::Greater,
        },
        (SortKey::Text(_), SortKey::Number(_)) => match dir {
            SortDir::Asc => Ordering::Greater,
            SortDir::Desc => Ordering::Less,
        },
    }
}

/// Whether a row with key `a` goes after one with key `b`.
pub(crate) fn goes_after(a: &SortKey, b: &SortKey, dir: SortDir) -> (res: bool)
    ensures
        res == (key_order(a@, b@, dir) > 0),
{
    match compare_keys(a, b, dir) {
        Ordering::Greater => true,
        _ => false,
    }
}

} // verus!

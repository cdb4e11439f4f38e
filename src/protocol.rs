//! Reading fields out of the loosely-JSON replies of the completion service.
//!
//! A reply is scanned, not decoded: a field is found by its quoted key, and
//! the first well-formed occurrence wins. Numbers are decimals read into
//! millionths, so `0.85` reads as `850000`.

use vstd::prelude::*;
use crate::text::{
    all_digits, chars_of, digits_value, is_first, is_space, is_space_char, lemma_digits_value_grows,
    matches_at, occurs_at, slice_string,
};

verus! {

/// One whole, in millionths.
pub const ONE: u64 = 1_000_000;

/// `"key":`
pub open spec fn key_pattern(key: Seq<char>) -> Seq<char> {
    seq!['"'] + key + seq!['"', ':']
}

/// The number of white-space characters from position `from` on.
pub open spec fn spaces_from(s: Seq<char>, from: int) -> nat
    decreases s.len() - from,
{
    if 0 <= from < s.len() && is_space(s[from]) {
        1 + spaces_from(s, from + 1)
    } else {
        0
    }
}

/// `c` may stand in a number.
pub open spec fn is_number_char(c: char) -> bool {
    ('0' <= c <= '9') || c == '.'
}

/// The number of number characters from position `from` on.
pub open spec fn number_run(s: Seq<char>, from: int) -> nat
    decreases s.len() - from,
{
    if 0 <= from < s.len() && is_number_char(s[from]) {
        1 + number_run(s, from + 1)
    } else {
        0
    }
}

/// `e` is the first position at or after `from` that holds `c`.
pub open spec fn is_next(s: Seq<char>, c: char, from: int, e: int) -> bool {
    from <= e < s.len() && s[e] == c && forall|m: int| from <= m < e ==> s[m] != c
}

/// Where the value of a field whose key pattern ends at `at` begins.
pub open spec fn value_start(s: Seq<char>, at: int) -> int {
    at + spaces_from(s, at)
}

/// The text of a string field whose key stands at `i`: the characters between
/// the quote that follows the key (after white space) and the next quote.
pub open spec fn string_field_at(s: Seq<char>, key: Seq<char>, i: int) -> Option<Seq<char>> {
    let p = key_pattern(key);
    let q = value_start(s, i + p.len());
    if occurs_at(s, p, i) && q < s.len() && s[q] == '"' && exists|e: int| #[trigger] is_next(s, '"', q + 1, e) {
        Some(s.subrange(q + 1, choose|e: int| #[trigger] is_next(s, '"', q + 1, e)))
    } else {
        None
    }
}

/// The text of a number field whose key stands at `i`: the number characters
/// that follow the key (after white space), at least one.
pub open spec fn number_field_at(s: Seq<char>, key: Seq<char>, i: int) -> Option<Seq<char>> {
    let p = key_pattern(key);
    let q = value_start(s, i + p.len());
    if occurs_at(s, p, i) && number_run(s, q) > 0 {
        Some(s.subrange(q, q + number_run(s, q)))
    } else {
        None
    }
}

/// `i` is the first position where a string field `key` stands.
pub open spec fn first_string_at(s: Seq<char>, key: Seq<char>, i: int) -> bool {
    string_field_at(s, key, i) is Some && forall|j: int| 0 <= j < i ==> string_field_at(s, key, j) is None
}

/// `i` is the first position where a number field `key` stands.
pub open spec fn first_number_at(s: Seq<char>, key: Seq<char>, i: int) -> bool {
    number_field_at(s, key, i) is Some && forall|j: int| 0 <= j < i ==> number_field_at(s, key, j) is None
}

/// The first string field `key` of `s`.
pub open spec fn string_field(s: Seq<char>, key: Seq<char>) -> Option<Seq<char>> {
    if exists|i: int| first_string_at(s, key, i) {
        string_field_at(s, key, choose|i: int| first_string_at(s, key, i))
    } else {
        None
    }
}

/// The text of the first number field `key` of `s`.
pub open spec fn number_field(s: Seq<char>, key: Seq<char>) -> Option<Seq<char>> {
    if exists|i: int| first_number_at(s, key, i) {
        number_field_at(s, key, choose|i: int| first_number_at(s, key, i))
    } else {
        None
    }
}

/// The position after the white space that starts at `from`.
fn skip_spaces(s: &[char], from: usize) -> (r: usize)
    requires
        from <= s.len(),
    ensures
        r == value_start(s@, from as int),
        r <= s.len(),
{
    let mut j = from;
    while j < s.len() && is_space_char(s[j])
        invariant
            from <= j <= s.len(),
            from + spaces_from(s@, from as int) == j + spaces_from(s@, j as int),
        decreases s.len() - j,
    {
        j += 1;
    }
    j
}

/// The position after the number characters that start at `from`.
fn skip_number(s: &[char], from: usize) -> (r: usize)
    requires
        from <= s.len(),
    ensures
        r == from + number_run(s@, from as int),
        r <= s.len(),
{
    let mut j = from;
    while j < s.len() && (('0' <= s[j] && s[j] <= '9') || s[j] == '.')
        invariant
            from <= j <= s.len(),
            from + number_run(s@, from as int) == j + number_run(s@, j as int),
        decreases s.len() - j,
    {
        j += 1;
    }
    j
}

/// The first position at or after `from` that holds `c`.
pub fn find_next(s: &[char], c: char, from: usize) -> (r: Option<usize>)
    ensures
        match r {
            Some(e) => is_next(s@, c, from as int, e as int),
            None => forall|e: int| !is_next(s@, c, from as int, e),
        },
{
    let mut e = from;
    while e < s.len()
        invariant
            from <= e,
            forall|m: int| from <= m < e ==> s@[m] != c,
        decreases s.len() - e,
    {
        if s[e] == c {
            return Some(e);
        }
        e += 1;
    }
    None
}

fn key_chars(key: &str) -> (r: Vec<char>)
    ensures
        r@ == key_pattern(key@),
{
    let mut r: Vec<char> = Vec::new();
    r.push('"');
    let k = chars_of(key);
    let mut i: usize = 0;
    while i < k.len()
        invariant
            i <= k.len(),
            r@ == seq!['"'] + k@.take(i as int),
        decreases k.len() - i,
    {
        r.push(k[i]);
        assert(r@ =~= seq!['"'] + k@.take(i + 1));
        i += 1;
    }
    r.push('"');
    r.push(':');
    assert(r@ =~= key_pattern(key@));
    r
}

fn string_field_here(s: &[char], p: &[char], key: Ghost<Seq<char>>, i: usize) -> (r: Option<String>)
    requires
        p@ == key_pattern(key@),
        i <= s.len(),
    ensures
        match string_field_at(s@, key@, i as int) {
            Some(t) => r is Some && r->0@ == t,
            None => r is None,
        },
{
    if !matches_at(s, p, i) {
        return None;
    }
    let q = skip_spaces(s, i + p.len());
    if q < s.len() && s[q] == '"' {
        match find_next(s, '"', q + 1) {
            Some(e) => {
                proof {
                    let c = choose|e: int| #[trigger] is_next(s@, '"', q + 1, e);
                    assert(c == e as int);
                }
                Some(slice_string(s, q + 1, e))
            },
            None => None,
        }
    } else {
        None
    }
}

/// The first string field `key` of a reply (see [`string_field`]).
pub fn extract_json_string(json: &str, key: &str) -> (r: Option<String>)
    ensures
        match string_field(json@, key@) {
            Some(t) => r is Some && r->0@ == t,
            None => r is None,
        },
{
    let s = chars_of(json);
    let p = key_chars(key);
    let mut i: usize = 0;
    loop
        invariant
            s@ == json@,
            p@ == key_pattern(key@),
            i <= s.len(),
            forall|j: int| 0 <= j < i ==> string_field_at(s@, key@, j) is None,
        decreases s.len() - i,
    {
        let found = string_field_here(s.as_slice(), p.as_slice(), Ghost(key@), i);
        if found.is_some() {
            proof {
                assert(first_string_at(s@, key@, i as int));
                let c = choose|c: int| first_string_at(s@, key@, c);
                if c < i {
                    assert(string_field_at(s@, key@, c) is None);
                } else if c > i {
                    assert(string_field_at(s@, key@, i as int) is None);
                }
            }
            return found;
        }
        if i == s.len() {
            proof {
                if exists|c: int| first_string_at(s@, key@, c) {
                    let c = choose|c: int| first_string_at(s@, key@, c);
                    assert(key_pattern(key@).len() == key@.len() + 3);
                    if c > s.len() {
                        assert(!occurs_at(s@, key_pattern(key@), c));
                    }
                }
            }
            return None;
        }
        i += 1;
    }
}

/// The fraction digits that count: the first six, padded with zeros.
pub open spec fn six_digits(f: Seq<char>) -> Seq<char> {
    Seq::new(6, |j: int| if j < f.len() { f[j] } else { '0' })
}

/// The value in millionths of a decimal numeral: digits with at most one
/// point and at least one digit; digits past the sixth after the point do not
/// count.
pub open spec fn micros_of(t: Seq<char>) -> Option<nat> {
    if exists|k: int| is_first(t, '.', k) {
        let k = choose|k: int| is_first(t, '.', k);
        let whole = t.take(k);
        let frac = t.skip(k + 1);
        if all_digits(whole) && all_digits(frac) && whole.len() + frac.len() > 0 {
            Some(digits_value(whole) * 1_000_000 + digits_value(six_digits(frac)))
        } else {
            None
        }
    } else if t.len() > 0 && all_digits(t) {
        Some(digits_value(t) * 1_000_000)
    } else {
        None
    }
}

/// A numeral read into millionths, where the value fits in a `u64`.
pub open spec fn decimal_micros(t: Seq<char>) -> Option<u64> {
    match micros_of(t) {
        Some(v) => if v <= u64::MAX { Some(v as u64) } else { None },
        None => None,
    }
}

/// The value of `t[from..to]` as digits, where it is at most `u64::MAX`.
fn digits_upto(t: &[char], from: usize, to: usize) -> (r: Option<u64>)
    requires
        from <= to <= t.len(),
    ensures
        match r {
            Some(v) => all_digits(t@.subrange(from as int, to as int))
                && v as nat == digits_value(t@.subrange(from as int, to as int)),
            None => !all_digits(t@.subrange(from as int, to as int))
                || digits_value(t@.subrange(from as int, to as int)) > u64::MAX,
        },
{
    let ghost d = t@.subrange(from as int, to as int);
    let mut acc: u64 = 0;
    let mut k = from;
    assert(d.take(0) =~= Seq::<char>::empty());
    while k < to
        invariant
            from <= k <= to <= t.len(),
            d == t@.subrange(from as int, to as int),
            acc as nat == digits_value(d.take(k - from)),
            all_digits(d.take(k - from)),
        decreases to - k,
    {
        let c = t[k];
        assert(d[k - from] == c);
        if !('0' <= c && c <= '9') {
            assert(!all_digits(d));
            return None;
        }
        let next: u128 = (acc as u128) * 10 + (((c as u32) - 48u32) as u128);
        assert(d.take(k - from + 1).drop_last() =~= d.take(k - from));
        assert(next == digits_value(d.take(k - from + 1)));
        if next > u64::MAX as u128 {
            proof {
                if all_digits(d) {
                    lemma_digits_value_grows(d, k - from + 1);
                }
            }
            return None;
        }
        acc = next as u64;
        k += 1;
        assert(all_digits(d.take(k - from)));
    }
    assert(d.take(k - from) =~= d);
    Some(acc)
}

/// The six fraction digits that count, of `t[from..to]`, as a number.
fn six_digits_value(t: &[char], from: usize, to: usize) -> (r: u64)
    requires
        from <= to <= t.len(),
        all_digits(t@.subrange(from as int, to as int)),
    ensures
        r as nat == digits_value(six_digits(t@.subrange(from as int, to as int))),
        r < 1_000_000,
{
    let ghost f = t@.subrange(from as int, to as int);
    let ghost six = six_digits(f);
    let mut v: u64 = 0;
    let mut j: usize = 0;
    assert(six.take(0) =~= Seq::<char>::empty());
    while j < 6
        invariant
            from <= to <= t.len(),
            f == t@.subrange(from as int, to as int),
            all_digits(f),
            six == six_digits(f),
            j <= 6,
            v as nat == digits_value(six.take(j as int)),
            j == 0 ==> v == 0,
            j <= 1 ==> v < 10,
            j <= 2 ==> v < 100,
            j <= 3 ==> v < 1000,
            j <= 4 ==> v < 10_000,
            j <= 5 ==> v < 100_000,
            v < 1_000_000,
        decreases 6 - j,
    {
        let c = if j < to - from { t[from + j] } else { '0' };
        assert(six[j as int] == c);
        assert(six.take(j + 1).drop_last() =~= six.take(j as int));
        assert(is_digit_char(c));
        v = v * 10 + ((c as u32) - 48u32) as u64;
        j += 1;
    }
    assert(six.take(6) =~= six);
    v
}

spec fn is_digit_char(c: char) -> bool {
    '0' <= c <= '9'
}

/// A numeral read into millionths (see [`decimal_micros`]).
pub fn parse_micros(t: &[char]) -> (r: Option<u64>)
    ensures
        r == decimal_micros(t@),
{
    match crate::text::find_char(t, '.') {
        Some(k) => {
            proof {
                let c = choose|c: int| is_first(t@, '.', c);
                assert(c == k as int);
                assert(t@.take(k as int) =~= t@.subrange(0, k as int));
                assert(t@.skip(k + 1) =~= t@.subrange(k + 1, t@.len() as int));
            }
            if k == 0 && t.len() == 1 {
                return None;
            }
            assert(k < t.len());
            let whole = digits_upto(t, 0, k);
            let frac_ok = digits_upto_ok(t, k + 1, t.len());
            match whole {
                Some(w) => {
                    if !frac_ok {
                        return None;
                    }
                    let f = six_digits_value(t, k + 1, t.len());
                    let total: u128 = (w as u128) * 1_000_000 + (f as u128);
                    if total > u64::MAX as u128 {
                        None
                    } else {
                        Some(total as u64)
                    }
                },
                None => {
                    proof {
                        let whole_s = t@.subrange(0, k as int);
                        let frac_s = t@.subrange(k + 1, t@.len() as int);
                        if all_digits(whole_s) && all_digits(frac_s) {
                            assert(digits_value(whole_s) * 1_000_000 >= digits_value(whole_s)) by (nonlinear_arith);
                        }
                    }
                    None
                },
            }
        },
        None => {
            if t.len() == 0 {
                return None;
            }
            match digits_upto(t, 0, t.len()) {
                Some(w) => {
                    assert(t@.subrange(0, t@.len() as int) =~= t@);
                    let total: u128 = (w as u128) * 1_000_000;
                    if total > u64::MAX as u128 {
                        None
                    } else {
                        Some(total as u64)
                    }
                },
                None => {
                    assert(t@.subrange(0, t@.len() as int) =~= t@);
                    proof {
                        if all_digits(t@) {
                            assert(digits_value(t@) * 1_000_000 >= digits_value(t@)) by (nonlinear_arith);
                        }
                    }
                    None
                },
            }
        },
    }
}

/// Whether every character of `t[from..to]` is a digit.
fn digits_upto_ok(t: &[char], from: usize, to: usize) -> (r: bool)
    requires
        from <= to <= t.len(),
    ensures
        r == all_digits(t@.subrange(from as int, to as int)),
{
    let mut k = from;
    while k < to
        invariant
            from <= k <= to <= t.len(),
            forall|j: int| from <= j < k ==> '0' <= #[trigger] t@[j] <= '9',
        decreases to - k,
    {
        if !('0' <= t[k] && t[k] <= '9') {
            assert(t@.subrange(from as int, to as int)[k - from] == t@[k as int]);
            return false;
        }
        k += 1;
    }
    assert forall|j: int| 0 <= j < to - from implies crate::text::is_digit(#[trigger] t@.subrange(from as int, to as int)[j]) by {
        assert(t@.subrange(from as int, to as int)[j] == t@[from + j]);
    }
    true
}

fn number_field_here(s: &[char], p: &[char], key: Ghost<Seq<char>>, i: usize) -> (r: Option<(usize, usize)>)
    requires
        p@ == key_pattern(key@),
        i <= s.len(),
    ensures
        match number_field_at(s@, key@, i as int) {
            Some(t) => match r {
                Some((q, e)) => q <= e <= s.len() && s@.subrange(q as int, e as int) == t,
                None => false,
            },
            None => r is None,
        },
{
    if !matches_at(s, p, i) {
        return None;
    }
    let q = skip_spaces(s, i + p.len());
    let e = skip_number(s, q);
    if e > q {
        Some((q, e))
    } else {
        None
    }
}

/// The first number field `key` of a reply, in millionths; `None` where there
/// is none or its text is no numeral (see [`number_field`], [`decimal_micros`]).
pub fn extract_json_number(json: &str, key: &str) -> (r: Option<u64>)
    ensures
        r == match number_field(json@, key@) {
            Some(t) => decimal_micros(t),
            None => None,
        },
{
    let s = chars_of(json);
    let p = key_chars(key);
    let mut i: usize = 0;
    loop
        invariant
            s@ == json@,
            p@ == key_pattern(key@),
            i <= s.len(),
            forall|j: int| 0 <= j < i ==> number_field_at(s@, key@, j) is None,
        decreases s.len() - i,
    {
        let found = number_field_here(s.as_slice(), p.as_slice(), Ghost(key@), i);
        match found {
            Some((q, e)) => {
                proof {
                    assert(first_number_at(s@, key@, i as int));
                    let c = choose|c: int| first_number_at(s@, key@, c);
                    if c < i {
                        assert(number_field_at(s@, key@, c) is None);
                    } else if c > i {
                        assert(number_field_at(s@, key@, i as int) is None);
                    }
                }
                return parse_micros(&s.as_slice()[q..e]);
            },
            None => {},
        }
        if i == s.len() {
            proof {
                if exists|c: int| first_number_at(s@, key@, c) {
                    let c = choose|c: int| first_number_at(s@, key@, c);
                    assert(key_pattern(key@).len() == key@.len() + 3);
                    if c > s.len() {
                        assert(!occurs_at(s@, key_pattern(key@), c));
                    }
                }
            }
            return None;
        }
        i += 1;
    }
}

/// The body of the list field `"key"`: after the quoted key, white space, a
/// colon, white space and an opening bracket, the text up to the next closing
/// bracket.
pub open spec fn list_body_at(s: Seq<char>, key: Seq<char>, i: int) -> Option<(int, int)> {
    let quoted = seq!['"'] + key + seq!['"'];
    let colon = value_start(s, i + quoted.len());
    let open = value_start(s, colon + 1);
    if occurs_at(s, quoted, i) && colon < s.len() && s[colon] == ':' && open < s.len() && s[open] == '['
        && exists|e: int| #[trigger] is_next(s, ']', open + 1, e) {
        Some((open + 1, choose|e: int| #[trigger] is_next(s, ']', open + 1, e)))
    } else {
        None
    }
}

/// `i` is the first position where the list field `key` stands.
pub open spec fn first_list_at(s: Seq<char>, key: Seq<char>, i: int) -> bool {
    list_body_at(s, key, i) is Some && forall|j: int| 0 <= j < i ==> list_body_at(s, key, j) is None
}

/// The non-empty quoted items of `s[from..to]`, taking quotes in pairs.
pub open spec fn quoted_items(s: Seq<char>, from: int, to: int) -> Seq<Seq<char>>
    decreases to - from,
{
    if from >= to || to > s.len() || from < 0 {
        Seq::empty()
    } else if exists|o: int| #[trigger] is_next(s.take(to), '"', from, o) {
        let o = choose|o: int| #[trigger] is_next(s.take(to), '"', from, o);
        if exists|c: int| #[trigger] is_next(s.take(to), '"', o + 1, c) {
            let c = choose|c: int| #[trigger] is_next(s.take(to), '"', o + 1, c);
            let item = s.subrange(o + 1, c);
            (if item.len() > 0 { seq![item] } else { Seq::empty() }) + quoted_items(s, c + 1, to)
        } else {
            Seq::empty()
        }
    } else {
        Seq::empty()
    }
}

/// The items of the first list field `key` of `s`; empty where there is none.
pub open spec fn list_field(s: Seq<char>, key: Seq<char>) -> Seq<Seq<char>> {
    if exists|i: int| first_list_at(s, key, i) {
        let body = list_body_at(s, key, choose|i: int| first_list_at(s, key, i))->0;
        quoted_items(s, body.0, body.1)
    } else {
        Seq::empty()
    }
}

fn list_body_here(s: &[char], quoted: &[char], key: Ghost<Seq<char>>, i: usize) -> (r: Option<(usize, usize)>)
    requires
        quoted@ == seq!['"'] + key@ + seq!['"'],
        i <= s.len(),
    ensures
        match list_body_at(s@, key@, i as int) {
            Some(body) => match r {
                Some((a, e)) => a == body.0 && e == body.1 && a <= e <= s.len(),
                None => false,
            },
            None => r is None,
        },
{
    if !matches_at(s, quoted, i) {
        return None;
    }
    let colon = skip_spaces(s, i + quoted.len());
    if colon >= s.len() || s[colon] != ':' {
        return None;
    }
    let open = skip_spaces(s, colon + 1);
    if open >= s.len() || s[open] != '[' {
        return None;
    }
    match find_next(s, ']', open + 1) {
        Some(e) => {
            proof {
                let c = choose|e: int| #[trigger] is_next(s@, ']', open + 1, e);
                assert(c == e as int);
            }
            Some((open + 1, e))
        },
        None => None,
    }
}

fn items_between(s: &[char], from: usize, to: usize) -> (r: Vec<String>)
    requires
        from <= to <= s.len(),
    ensures
        crate::text::views(r@) == quoted_items(s@, from as int, to as int),
{
    let window = &s[0..to];
    assert(window@ == s@.take(to as int));
    let mut r: Vec<String> = Vec::new();
    let mut pos = from;
    while pos < to
        invariant
            from <= pos <= to <= s.len(),
            window@ == s@.take(to as int),
            quoted_items(s@, from as int, to as int) == crate::text::views(r@) + quoted_items(s@, pos as int, to as int),
        decreases to - pos,
    {
        match find_next(window, '"', pos) {
            Some(o) => {
                proof {
                    let c = choose|c: int| #[trigger] is_next(s@.take(to as int), '"', pos as int, c);
                    assert(c == o as int);
                }
                match find_next(window, '"', o + 1) {
                    Some(c) => {
                        proof {
                            let d = choose|d: int| #[trigger] is_next(s@.take(to as int), '"', o + 1, d);
                            assert(d == c as int);
                        }
                        let ghost before = r@;
                        if c > o + 1 {
                            r.push(slice_string(s, o + 1, c));
                            assert(crate::text::views(r@) =~= crate::text::views(before) + seq![s@.subrange(o + 1, c as int)]);
                        } else {
                            assert(s@.subrange(o + 1, c as int).len() == 0);
                        }
                        proof {
                            let item = s@.subrange(o + 1, c as int);
                            let head: Seq<Seq<char>> = if item.len() > 0 { seq![item] } else { Seq::empty() };
                            assert(crate::text::views(r@) =~= crate::text::views(before) + head);
                            assert(crate::text::views(before) + (head + quoted_items(s@, c + 1, to as int))
                                =~= crate::text::views(r@) + quoted_items(s@, c + 1, to as int));
                        }
                        pos = c + 1;
                    },
                    None => {
                        assert(crate::text::views(r@) + Seq::<Seq<char>>::empty() =~= crate::text::views(r@));
                        return r;
                    },
                }
            },
            None => {
                assert(crate::text::views(r@) + Seq::<Seq<char>>::empty() =~= crate::text::views(r@));
                return r;
            },
        }
    }
    assert(crate::text::views(r@) + Seq::<Seq<char>>::empty() =~= crate::text::views(r@));
    r
}

/// The items of the first list field `key` of a reply (see [`list_field`]).
pub fn extract_json_list(json: &str, key: &str) -> (r: Vec<String>)
    ensures
        crate::text::views(r@) == list_field(json@, key@),
{
    let s = chars_of(json);
    let mut quoted: Vec<char> = Vec::new();
    quoted.push('"');
    let k = chars_of(key);
    let mut j: usize = 0;
    while j < k.len()
        invariant
            j <= k.len(),
            quoted@ == seq!['"'] + k@.take(j as int),
        decreases k.len() - j,
    {
        quoted.push(k[j]);
        assert(quoted@ =~= seq!['"'] + k@.take(j + 1));
        j += 1;
    }
    quoted.push('"');
    assert(quoted@ =~= seq!['"'] + key@ + seq!['"']);
    let mut i: usize = 0;
    loop
        invariant
            s@ == json@,
            quoted@ == seq!['"'] + key@ + seq!['"'],
            i <= s.len(),
            forall|j: int| 0 <= j < i ==> list_body_at(s@, key@, j) is None,
        decreases s.len() - i,
    {
        match list_body_here(s.as_slice(), quoted.as_slice(), Ghost(key@), i) {
            Some((a, e)) => {
                proof {
                    assert(first_list_at(s@, key@, i as int));
                    let c = choose|c: int| first_list_at(s@, key@, c);
                    if c < i {
                        assert(list_body_at(s@, key@, c) is None);
                    } else if c > i {
                        assert(list_body_at(s@, key@, i as int) is None);
                    }
                }
                return items_between(s.as_slice(), a, e);
            },
            None => {},
        }
        if i == s.len() {
            proof {
                if exists|c: int| first_list_at(s@, key@, c) {
                    let c = choose|c: int| first_list_at(s@, key@, c);
                    if c > s.len() {
                        assert(!occurs_at(s@, seq!['"'] + key@ + seq!['"'], c));
                    }
                }
            }
            return Vec::new();
        }
        i += 1;
    }
}

/// The marker of a confidence line, in capitals.
pub const CONFIDENCE_MARK: &'static str = "CONFIDENCE:";

/// `c` is the character `u`, or its lower-case form where `u` is a capital
/// letter.
pub open spec fn same_ignoring_case(c: char, u: char) -> bool {
    c == u || ('A' <= u <= 'Z' && c as u32 == u as u32 + 32)
}

/// `CONFIDENCE:`, in any mix of cases, stands at `i`.
pub open spec fn marker_at(s: Seq<char>, i: int) -> bool {
    &&& 0 <= i
    &&& i + CONFIDENCE_MARK@.len() <= s.len()
    &&& forall|k: int| 0 <= k < CONFIDENCE_MARK@.len() ==> same_ignoring_case(#[trigger] s[i + k], CONFIDENCE_MARK@[k])
}

/// Where the number of a confidence marker at `i` starts, and how long it is.
pub open spec fn marked_number(s: Seq<char>, i: int) -> (int, nat) {
    let q = value_start(s, i + CONFIDENCE_MARK@.len());
    (q, number_run(s, q))
}

/// `i` is the first position of a marker that a number follows.
pub open spec fn first_marked_at(s: Seq<char>, i: int) -> bool {
    &&& marker_at(s, i) && marked_number(s, i).1 > 0
    &&& forall|j: int| 0 <= j < i ==> !(marker_at(s, j) && #[trigger] marked_number(s, j).1 > 0)
}

/// The confidence a reply states, in millionths: the number after the first
/// marker that a number follows, capped at one; one half where there is no
/// such number or it is no numeral.
pub open spec fn stated_confidence(s: Seq<char>) -> u64 {
    if exists|i: int| first_marked_at(s, i) {
        let i = choose|i: int| first_marked_at(s, i);
        let (q, n) = marked_number(s, i);
        match decimal_micros(s.subrange(q, q + n)) {
            Some(v) => if v > ONE { ONE } else { v },
            None => 500_000,
        }
    } else {
        500_000
    }
}

/// The length of a confidence line starting at `i`: a line break, the
/// marker, white space and a number.
pub open spec fn confidence_line(s: Seq<char>, i: int) -> nat {
    if 0 <= i < s.len() && s[i] == '\n' && marker_at(s, i + 1) && marked_number(s, i + 1).1 > 0 {
        let (q, n) = marked_number(s, i + 1);
        (q + n - i) as nat
    } else {
        0
    }
}

/// `s[from..]` with every confidence line removed.
pub open spec fn without_confidence(s: Seq<char>, from: int) -> Seq<char>
    decreases s.len() - from,
{
    if from < 0 || from >= s.len() {
        Seq::empty()
    } else if confidence_line(s, from) > 0 && from + confidence_line(s, from) <= s.len() {
        without_confidence(s, from + confidence_line(s, from))
    } else {
        seq![s[from]] + without_confidence(s, from + 1)
    }
}

fn is_marker_at(s: &[char], mark: &[char], i: usize) -> (r: bool)
    requires
        mark@ == CONFIDENCE_MARK@,
    ensures
        r == marker_at(s@, i as int),
{
    if i > s.len() || mark.len() > s.len() - i {
        return false;
    }
    let mut k: usize = 0;
    while k < mark.len()
        invariant
            mark@ == CONFIDENCE_MARK@,
            i + mark.len() <= s.len(),
            k <= mark.len(),
            forall|j: int| 0 <= j < k ==> same_ignoring_case(#[trigger] s@[i + j], CONFIDENCE_MARK@[j]),
        decreases mark.len() - k,
    {
        let c = s[i + k];
        let u = mark[k];
        if !(c == u || ('A' <= u && u <= 'Z' && (c as u32) == (u as u32) + 32)) {
            return false;
        }
        k += 1;
    }
    true
}

/// Where the number after a marker at `i` starts and ends.
fn marked_span(s: &[char], mark: &[char], i: usize) -> (r: (usize, usize))
    requires
        mark@ == CONFIDENCE_MARK@,
        marker_at(s@, i as int),
    ensures
        r.0 as int == marked_number(s@, i as int).0,
        r.1 as int == r.0 + marked_number(s@, i as int).1,
        r.0 <= r.1 <= s.len(),
{
    assert(mark@.len() == CONFIDENCE_MARK@.len());
    assert(i + mark@.len() <= s@.len());
    assert(mark@.len() == mark.len());
    assert(s@.len() == s.len());
    let q = skip_spaces(s, i + mark.len());
    let e = skip_number(s, q);
    (q, e)
}

/// The confidence a reply states (see [`stated_confidence`]).
pub fn confidence_of(text: &str) -> (r: u64)
    ensures
        r == stated_confidence(text@),
{
    let s = chars_of(text);
    let mark = chars_of(CONFIDENCE_MARK);
    let mut i: usize = 0;
    while i < s.len()
        invariant
            s@ == text@,
            mark@ == CONFIDENCE_MARK@,
            i <= s.len(),
            forall|j: int| 0 <= j < i ==> !(marker_at(s@, j) && #[trigger] marked_number(s@, j).1 > 0),
        decreases s.len() - i,
    {
        if is_marker_at(s.as_slice(), mark.as_slice(), i) {
            let (q, e) = marked_span(s.as_slice(), mark.as_slice(), i);
            if e > q {
                proof {
                    assert(first_marked_at(s@, i as int));
                    let c = choose|c: int| first_marked_at(s@, c);
                    if c < i {
                        assert(!(marker_at(s@, c) && marked_number(s@, c).1 > 0));
                    } else if c > i {
                        assert(!(marker_at(s@, i as int) && marked_number(s@, i as int).1 > 0));
                    }
                }
                return match parse_micros(&s.as_slice()[q..e]) {
                    Some(v) => if v > ONE { ONE } else { v },
                    None => 500_000,
                };
            }
        }
        i += 1;
    }
    proof {
        if exists|c: int| first_marked_at(s@, c) {
            let c = choose|c: int| first_marked_at(s@, c);
            assert(!marker_at(s@, c));
        }
    }
    500_000
}

/// The reply with every confidence line removed (see [`without_confidence`]).
pub fn strip_confidence(text: &str) -> (r: Vec<char>)
    ensures
        r@ == without_confidence(text@, 0),
{
    let s = chars_of(text);
    let mark = chars_of(CONFIDENCE_MARK);
    let mut out: Vec<char> = Vec::new();
    let mut i: usize = 0;
    while i < s.len()
        invariant
            s@ == text@,
            mark@ == CONFIDENCE_MARK@,
            i <= s.len(),
            without_confidence(s@, 0) == out@ + without_confidence(s@, i as int),
        decreases s.len() - i,
    {
        let mut line: usize = 0;
        if s[i] == '\n' && is_marker_at(s.as_slice(), mark.as_slice(), i + 1) {
            let (q, e) = marked_span(s.as_slice(), mark.as_slice(), i + 1);
            if e > q {
                line = e - i;
            }
        }
        assert(line as nat == confidence_line(s@, i as int));
        if line > 0 {
            i = i + line;
        } else {
            let ghost before = out@;
            out.push(s[i]);
            assert(before + (seq![s@[i as int]] + without_confidence(s@, i + 1))
                =~= out@ + without_confidence(s@, i + 1));
            i += 1;
        }
    }
    assert(out@ + without_confidence(s@, i as int) =~= out@);
    out
}

} // verus!

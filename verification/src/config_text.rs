//! The simple `key = value` configuration text format: one setting per line,
//! `#` starts a comment, blank lines and unknown keys are ignored, values may
//! be wrapped in double quotes, and a value that does not parse leaves the
//! setting as it was. Later lines override earlier ones.
use vstd::prelude::*;

verus! {

/// Unicode White_Space, which `str::trim` removes.
pub open spec fn is_ws_spec(c: char) -> bool {
    ||| ('\u{9}' <= c && c <= '\u{d}')
    ||| c == ' '
    ||| c == '\u{85}'
    ||| c == '\u{a0}'
    ||| c == '\u{1680}'
    ||| ('\u{2000}' <= c && c <= '\u{200a}')
    ||| c == '\u{2028}'
    ||| c == '\u{2029}'
    ||| c == '\u{202f}'
    ||| c == '\u{205f}'
    ||| c == '\u{3000}'
}

/// Whether `c` is white space in the sense of `char::is_whitespace`.
pub fn is_ws(c: char) -> (r: bool)
    ensures
        r == is_ws_spec(c),
{
    ('\u{9}' <= c && c <= '\u{d}') || c == ' ' || c == '\u{85}' || c == '\u{a0}' || c == '\u{1680}' || ('\u{2000}'
        <= c && c <= '\u{200a}') || c == '\u{2028}' || c == '\u{2029}' || c == '\u{202f}' || c == '\u{205f}' || c
        == '\u{3000}'
}

/// Drops leading white space.
pub open spec fn trim_start_ws(s: Seq<char>) -> Seq<char>
    decreases s.len(),
{
    if s.len() > 0 && is_ws_spec(s[0]) { trim_start_ws(s.drop_first()) } else { s }
}

/// Drops trailing white space.
pub open spec fn trim_end_ws(s: Seq<char>) -> Seq<char>
    decreases s.len(),
{
    if s.len() > 0 && is_ws_spec(s.last()) { trim_end_ws(s.drop_last()) } else { s }
}

/// Drops leading double quotes.
pub open spec fn trim_start_quote(s: Seq<char>) -> Seq<char>
    decreases s.len(),
{
    if s.len() > 0 && s[0] == '"' { trim_start_quote(s.drop_first()) } else { s }
}

/// Drops trailing double quotes.
pub open spec fn trim_end_quote(s: Seq<char>) -> Seq<char>
    decreases s.len(),
{
    if s.len() > 0 && s.last() == '"' { trim_end_quote(s.drop_last()) } else { s }
}

/// `str::trim`: white space removed at both ends.
pub open spec fn trim(s: Seq<char>) -> Seq<char> {
    trim_end_ws(trim_start_ws(s))
}

/// `str::trim_matches('"')`: double quotes removed at both ends.
pub open spec fn trim_quotes(s: Seq<char>) -> Seq<char> {
    trim_end_quote(trim_start_quote(s))
}

/// Index of the first `c` in `s`, or `s.len()` when there is none.
pub open spec fn first_index(s: Seq<char>, c: char) -> nat
    decreases s.len(),
{
    if s.len() == 0 {
        0
    } else if s[0] == c {
        0
    } else {
        1 + first_index(s.drop_first(), c)
    }
}

pub open spec fn is_digit(c: char) -> bool {
    '0' <= c && c <= '9'
}

/// The number a string of decimal digits denotes.
pub open spec fn digits_value(d: Seq<char>) -> nat
    decreases d.len(),
{
    if d.len() == 0 {
        0
    } else {
        digits_value(d.drop_last()) * 10 + ((d.last() as int) - ('0' as int)) as nat
    }
}

/// The text after an optional leading `+`.
pub open spec fn digits_part(s: Seq<char>) -> Seq<char> {
    if s.len() > 0 && s[0] == '+' { s.drop_first() } else { s }
}

pub open spec fn all_digits(d: Seq<char>) -> bool {
    forall|i: int| 0 <= i < d.len() ==> is_digit(#[trigger] d[i])
}

/// What parsing an unsigned integer of at most `max` gives: an optional
/// `+`, then one or more ASCII digits, and a value that fits.
pub open spec fn parse_uint(s: Seq<char>, max: nat) -> Option<nat> {
    let d = digits_part(s);
    if d.len() > 0 && all_digits(d) && digits_value(d) <= max {
        Some(digits_value(d))
    } else {
        None
    }
}

/// The integer settings of the scheduler.
#[derive(Debug, Clone, Copy, PartialEq, Eq, Structural)]
pub struct IntSettings {
    pub total_tasks: usize,
    pub arrival_interval_ms: u64,
    pub num_workers: usize,
    pub task_duration_ms: u64,
    pub io_cpu_pct: u32,
    pub cpu_cpu_pct: u32,
    pub cpu_cap_pct: u32,
    pub monitor_interval_ms: u64,
    pub rng_seed: u64,
}

/// What a configuration text sets: the integer settings, every value given
/// for `io_fraction` in order (the caller parses them as numbers, and the
/// last that parses wins), and the last `csv_path` given.
pub struct ConfigText {
    pub ints: IntSettings,
    pub io_fraction_values: Vec<Vec<char>>,
    pub csv_path: Option<Vec<char>>,
}

/// The model of `ConfigText`.
pub struct ConfigModel {
    pub ints: IntSettings,
    pub io_fraction_values: Seq<Seq<char>>,
    pub csv_path: Option<Seq<char>>,
}

impl ConfigText {
    pub open spec fn model(&self) -> ConfigModel {
        ConfigModel {
            ints: self.ints,
            io_fraction_values: self.io_fraction_values@.map_values(|v: Vec<char>| v@),
            csv_path: match self.csv_path {
                Some(v) => Some(v@),
                None => None,
            },
        }
    }
}

/// `parse_uint(value, max)`, or `current` when it does not parse.
pub open spec fn parsed_or(value: Seq<char>, max: nat, current: nat) -> nat {
    match parse_uint(value, max) {
        Some(v) => v,
        None => current,
    }
}

/// The effect of one `key = value` pair.
pub open spec fn apply_setting(m: ConfigModel, key: Seq<char>, value: Seq<char>) -> ConfigModel {
    let i = m.ints;
    if key == "total_tasks"@ {
        ConfigModel { ints: IntSettings { total_tasks: parsed_or(value, usize::MAX as nat, i.total_tasks as nat) as usize, ..i }, ..m }
    } else if key == "io_fraction"@ {
        ConfigModel { io_fraction_values: m.io_fraction_values.push(value), ..m }
    } else if key == "arrival_interval_ms"@ {
        ConfigModel { ints: IntSettings { arrival_interval_ms: parsed_or(value, u64::MAX as nat, i.arrival_interval_ms as nat) as u64, ..i }, ..m }
    } else if key == "num_workers"@ {
        ConfigModel { ints: IntSettings { num_workers: parsed_or(value, usize::MAX as nat, i.num_workers as nat) as usize, ..i }, ..m }
    } else if key == "task_duration_ms"@ {
        ConfigModel { ints: IntSettings { task_duration_ms: parsed_or(value, u64::MAX as nat, i.task_duration_ms as nat) as u64, ..i }, ..m }
    } else if key == "io_cpu_pct"@ {
        ConfigModel { ints: IntSettings { io_cpu_pct: parsed_or(value, u32::MAX as nat, i.io_cpu_pct as nat) as u32, ..i }, ..m }
    } else if key == "cpu_cpu_pct"@ {
        ConfigModel { ints: IntSettings { cpu_cpu_pct: parsed_or(value, u32::MAX as nat, i.cpu_cpu_pct as nat) as u32, ..i }, ..m }
    } else if key == "cpu_cap_pct"@ {
        ConfigModel { ints: IntSettings { cpu_cap_pct: parsed_or(value, u32::MAX as nat, i.cpu_cap_pct as nat) as u32, ..i }, ..m }
    } else if key == "monitor_interval_ms"@ {
        ConfigModel { ints: IntSettings { monitor_interval_ms: parsed_or(value, u64::MAX as nat, i.monitor_interval_ms as nat) as u64, ..i }, ..m }
    } else if key == "rng_seed"@ {
        ConfigModel { ints: IntSettings { rng_seed: parsed_or(value, u64::MAX as nat, i.rng_seed as nat) as u64, ..i }, ..m }
    } else if key == "csv_path"@ {
        ConfigModel { csv_path: Some(value), ..m }
    } else {
        m
    }
}

/// The effect of one line: the comment is cut off, the rest trimmed; blank
/// lines and lines without `=` change nothing; otherwise the key (trimmed)
/// and the value (trimmed, then stripped of surrounding quotes) are applied.
pub open spec fn apply_line(m: ConfigModel, line: Seq<char>) -> ConfigModel {
    let l = trim(line.take(first_index(line, '#') as int));
    let e = first_index(l, '=');
    if l.len() == 0 || e == l.len() {
        m
    } else {
        apply_setting(m, trim(l.take(e as int)), trim_quotes(trim(l.skip(e as int + 1))))
    }
}

/// The effect of a whole text, line by line (lines end at `\n`).
pub open spec fn apply_text(m: ConfigModel, t: Seq<char>) -> ConfigModel
    decreases t.len(),
{
    if t.len() == 0 {
        m
    } else {
        let i = first_index(t, '\n');
        let m2 = apply_line(m, t.take(i as int));
        if i >= t.len() { m2 } else { apply_text(m2, t.skip(i as int + 1)) }
    }
}

proof fn lemma_first_index_bound(s: Seq<char>, c: char)
    ensures
        first_index(s, c) <= s.len(),
        first_index(s, c) < s.len() ==> s[first_index(s, c) as int] == c,
        forall|k: int| 0 <= k < first_index(s, c) ==> s[k] != c,
    decreases s.len(),
{
    if s.len() > 0 && s[0] != c {
        lemma_first_index_bound(s.drop_first(), c);
        assert forall|k: int| 0 <= k < first_index(s, c) implies s[k] != c by {
            if k > 0 {
                assert(s[k] == s.drop_first()[k - 1]);
            }
        }
    }
}

proof fn lemma_first_index_found(s: Seq<char>, c: char, k: int)
    requires
        0 <= k <= s.len(),
        forall|j: int| 0 <= j < k ==> s[j] != c,
        k < s.len() ==> s[k] == c,
    ensures
        first_index(s, c) == k,
    decreases s.len(),
{
    if s.len() > 0 && k > 0 {
        assert forall|j: int| 0 <= j < k - 1 implies s.drop_first()[j] != c by {
            assert(s.drop_first()[j] == s[j + 1]);
        }
        lemma_first_index_found(s.drop_first(), c, k - 1);
    }
}

/// Position of the first `c` in `t[lo..hi]`, or `hi`.
fn find_in(t: &Vec<char>, lo: usize, hi: usize, c: char) -> (r: usize)
    requires
        lo <= hi <= t@.len(),
    ensures
        r == lo + first_index(t@.subrange(lo as int, hi as int), c),
        lo <= r <= hi,
{
    let mut i = lo;
    while i < hi && t[i] != c
        invariant
            lo <= i <= hi <= t@.len(),
            forall|j: int| lo <= j < i ==> t@[j] != c,
        decreases hi - i,
    {
        i = i + 1;
    }
    proof {
        let s = t@.subrange(lo as int, hi as int);
        lemma_first_index_found(s, c, i - lo);
    }
    i
}

/// The window of `t[lo..hi]` left after trimming white space at both ends.
fn trim_window(t: &Vec<char>, lo: usize, hi: usize) -> (r: (usize, usize))
    requires
        lo <= hi <= t@.len(),
    ensures
        lo <= r.0 <= r.1 <= hi,
        t@.subrange(r.0 as int, r.1 as int) == trim(t@.subrange(lo as int, hi as int)),
{
    let mut i = lo;
    while i < hi && is_ws(t[i])
        invariant
            lo <= i <= hi <= t@.len(),
            trim_start_ws(t@.subrange(lo as int, hi as int)) == trim_start_ws(t@.subrange(i as int, hi as int)),
        decreases hi - i,
    {
        assert(t@.subrange(i as int, hi as int).drop_first() =~= t@.subrange(i + 1, hi as int));
        i = i + 1;
    }
    assert(trim_start_ws(t@.subrange(i as int, hi as int)) == t@.subrange(i as int, hi as int));
    let mut j = hi;
    while j > i && is_ws(t[j - 1])
        invariant
            lo <= i <= j <= hi <= t@.len(),
            trim_end_ws(t@.subrange(i as int, hi as int)) == trim_end_ws(t@.subrange(i as int, j as int)),
        decreases j,
    {
        assert(t@.subrange(i as int, j as int).drop_last() =~= t@.subrange(i as int, j - 1));
        j = j - 1;
    }
    assert(trim_end_ws(t@.subrange(i as int, j as int)) == t@.subrange(i as int, j as int));
    (i, j)
}

/// The window of `t[lo..hi]` left after removing double quotes at both ends.
fn trim_quotes_window(t: &Vec<char>, lo: usize, hi: usize) -> (r: (usize, usize))
    requires
        lo <= hi <= t@.len(),
    ensures
        lo <= r.0 <= r.1 <= hi,
        t@.subrange(r.0 as int, r.1 as int) == trim_quotes(t@.subrange(lo as int, hi as int)),
{
    let mut i = lo;
    while i < hi && t[i] == '"'
        invariant
            lo <= i <= hi <= t@.len(),
            trim_start_quote(t@.subrange(lo as int, hi as int)) == trim_start_quote(t@.subrange(i as int, hi as int)),
        decreases hi - i,
    {
        assert(t@.subrange(i as int, hi as int).drop_first() =~= t@.subrange(i + 1, hi as int));
        i = i + 1;
    }
    assert(trim_start_quote(t@.subrange(i as int, hi as int)) == t@.subrange(i as int, hi as int));
    let mut j = hi;
    while j > i && t[j - 1] == '"'
        invariant
            lo <= i <= j <= hi <= t@.len(),
            trim_end_quote(t@.subrange(i as int, hi as int)) == trim_end_quote(t@.subrange(i as int, j as int)),
        decreases j,
    {
        assert(t@.subrange(i as int, j as int).drop_last() =~= t@.subrange(i as int, j - 1));
        j = j - 1;
    }
    assert(trim_end_quote(t@.subrange(i as int, j as int)) == t@.subrange(i as int, j as int));
    (i, j)
}

/// Whether `t[lo..hi]` is exactly the text `s`.
fn window_is(t: &Vec<char>, lo: usize, hi: usize, s: &str) -> (r: bool)
    requires
        lo <= hi <= t@.len(),
    ensures
        r == (t@.subrange(lo as int, hi as int) == s@),
{
    let n = s.unicode_len();
    if hi - lo != n {
        return false;
    }
    let mut k: usize = 0;
    while k < n
        invariant
            k <= n,
            n == s@.len(),
            hi - lo == n,
            lo <= hi <= t@.len(),
            forall|j: int| 0 <= j < k ==> t@[lo + j] == s@[j],
        decreases n - k,
    {
        if t[lo + k] != s.get_char(k) {
            assert(t@.subrange(lo as int, hi as int)[k as int] != s@[k as int]);
            return false;
        }
        k = k + 1;
    }
    assert(t@.subrange(lo as int, hi as int) =~= s@);
    true
}

proof fn lemma_digits_value_prefix(d: Seq<char>, k: int)
    requires
        0 <= k <= d.len(),
        forall|i: int| 0 <= i < d.len() ==> is_digit(#[trigger] d[i]),
    ensures
        digits_value(d.take(k)) <= digits_value(d),
    decreases d.len(),
{
    if k < d.len() {
        lemma_digits_value_prefix(d.drop_last(), k);
        assert(d.drop_last().take(k) =~= d.take(k));
    } else {
        assert(d.take(k) =~= d);
    }
}

/// Parses `t[lo..hi]` as an unsigned integer of at most `max`.
fn parse_window(t: &Vec<char>, lo: usize, hi: usize, max: u64) -> (r: Option<u64>)
    requires
        lo <= hi <= t@.len(),
    ensures
        match parse_uint(t@.subrange(lo as int, hi as int), max as nat) {
            Some(v) => r == Some(v as u64),
            None => r is None,
        },
{
    let ghost s = t@.subrange(lo as int, hi as int);
    let start = if lo < hi && t[lo] == '+' { lo + 1 } else { lo };
    assert(lo < hi ==> s[0] == t@[lo as int]);
    let ghost d = t@.subrange(start as int, hi as int);
    assert(d =~= digits_part(s));
    if start == hi {
        return None;
    }
    let mut acc: u128 = 0;
    let mut i = start;
    while i < hi
        invariant
            start <= i <= hi <= t@.len(),
            d == t@.subrange(start as int, hi as int),
            s == t@.subrange(lo as int, hi as int),
            d == digits_part(s),
            d.len() > 0,
            forall|j: int| start <= j < i ==> is_digit(#[trigger] t@[j]),
            acc == digits_value(t@.subrange(start as int, i as int)),
            acc <= max,
        decreases hi - i,
    {
        let c = t[i];
        if !('0' <= c && c <= '9') {
            assert(!is_digit(d[i - start]));
            assert(!all_digits(d));
            return None;
        }
        let digit = (c as u32 - '0' as u32) as u128;
        proof {
            assert(t@.subrange(start as int, i + 1).drop_last() =~= t@.subrange(start as int, i as int));
            assert(t@.subrange(start as int, i + 1).last() == c);
            assert(digits_value(t@.subrange(start as int, i + 1)) == acc * 10 + digit);
        }
        acc = acc * 10 + digit;
        if acc > max as u128 {
            proof {
                if all_digits(d) {
                    lemma_digits_value_prefix(d, i + 1 - start);
                    assert(d.take(i + 1 - start) =~= t@.subrange(start as int, i + 1));
                    assert(digits_value(d) > max);
                }
            }
            return None;
        }
        i = i + 1;
    }
    assert(t@.subrange(start as int, i as int) =~= d);
    Some(acc as u64)
}

/// Reads a configuration text over `defaults`: see `apply_text`.
pub fn apply_config_text(text: &Vec<char>, defaults: IntSettings) -> (r: ConfigText)
    ensures
        r.model() == apply_text(
            ConfigModel { ints: defaults, io_fraction_values: Seq::empty(), csv_path: None },
            text@,
        ),
{
    let mut r = ConfigText { ints: defaults, io_fraction_values: Vec::new(), csv_path: None };
    assert(r.io_fraction_values@.map_values(|v: Vec<char>| v@) =~= Seq::<Seq<char>>::empty());
    assert(r.model() == ConfigModel { ints: defaults, io_fraction_values: Seq::empty(), csv_path: None });
    assert(text@.skip(0) =~= text@);
    let mut pos: usize = 0;
    let n = text.len();
    while pos < n
        invariant
            pos <= n == text@.len(),
            apply_text(r.model(), text@.skip(pos as int)) == apply_text(
                ConfigModel { ints: defaults, io_fraction_values: Seq::empty(), csv_path: None },
                text@,
            ),
        decreases n - pos,
    {
        let nl = find_in(text, pos, n, '\n');
        let ghost rest = text@.skip(pos as int);
        let ghost m0 = r.model();
        proof {
            assert(text@.subrange(pos as int, n as int) =~= rest);
            assert(rest.take((nl - pos) as int) =~= text@.subrange(pos as int, nl as int));
            if nl < n {
                assert(rest.skip((nl - pos) + 1) =~= text@.skip(nl + 1));
            }
        }
        apply_line_window(&mut r, text, pos, nl);
        if nl >= n {
            pos = n;
        } else {
            pos = nl + 1;
        }
        proof {
            if pos == n {
                assert(text@.skip(pos as int) =~= Seq::<char>::empty());
            }
        }
    }
    r
}

/// Applies the line `t[lo..hi]` (see `apply_line`).
fn apply_line_window(r: &mut ConfigText, t: &Vec<char>, lo: usize, hi: usize)
    requires
        lo <= hi <= t@.len(),
    ensures
        final(r).model() == apply_line(old(r).model(), t@.subrange(lo as int, hi as int)),
{
    let ghost line = t@.subrange(lo as int, hi as int);
    let hash = find_in(t, lo, hi, '#');
    assert(line.take(first_index(line, '#') as int) =~= t@.subrange(lo as int, hash as int));
    let (a, b) = trim_window(t, lo, hash);
    let ghost l = t@.subrange(a as int, b as int);
    if a == b {
        return;
    }
    let eq = find_in(t, a, b, '=');
    if eq == b {
        return;
    }
    assert(l.take(first_index(l, '=') as int) =~= t@.subrange(a as int, eq as int));
    assert(l.skip(first_index(l, '=') as int + 1) =~= t@.subrange(eq + 1, b as int));
    let (ka, kb) = trim_window(t, a, eq);
    let (va0, vb0) = trim_window(t, eq + 1, b);
    let (va, vb) = trim_quotes_window(t, va0, vb0);
    apply_setting_window(r, t, ka, kb, va, vb);
}

fn copy_window(t: &Vec<char>, lo: usize, hi: usize) -> (v: Vec<char>)
    requires
        lo <= hi <= t@.len(),
    ensures
        v@ == t@.subrange(lo as int, hi as int),
{
    let mut v: Vec<char> = Vec::new();
    let mut i = lo;
    while i < hi
        invariant
            lo <= i <= hi <= t@.len(),
            v@ == t@.subrange(lo as int, i as int),
        decreases hi - i,
    {
        v.push(t[i]);
        i = i + 1;
        assert(v@ =~= t@.subrange(lo as int, i as int));
    }
    v
}

/// Applies the setting with key `t[ka..kb]` and value `t[va..vb]`.
fn apply_setting_window(r: &mut ConfigText, t: &Vec<char>, ka: usize, kb: usize, va: usize, vb: usize)
    requires
        ka <= kb <= t@.len(),
        va <= vb <= t@.len(),
    ensures
        final(r).model() == apply_setting(
            old(r).model(),
            t@.subrange(ka as int, kb as int),
            t@.subrange(va as int, vb as int),
        ),
{
    if window_is(t, ka, kb, "total_tasks") {
        if let Some(v) = parse_window(t, va, vb, usize::MAX as u64) {
            r.ints.total_tasks = v as usize;
        }
    } else if window_is(t, ka, kb, "io_fraction") {
        let v = copy_window(t, va, vb);
        let ghost before = r.io_fraction_values@;
        r.io_fraction_values.push(v);
        assert(r.io_fraction_values@.map_values(|x: Vec<char>| x@) =~= before.map_values(|x: Vec<char>| x@).push(
            t@.subrange(va as int, vb as int),
        ));
    } else if window_is(t, ka, kb, "arrival_interval_ms") {
        if let Some(v) = parse_window(t, va, vb, u64::MAX) {
            r.ints.arrival_interval_ms = v;
        }
    } else if window_is(t, ka, kb, "num_workers") {
        if let Some(v) = parse_window(t, va, vb, usize::MAX as u64) {
            r.ints.num_workers = v as usize;
        }
    } else if window_is(t, ka, kb, "task_duration_ms") {
        if let Some(v) = parse_window(t, va, vb, u64::MAX) {
            r.ints.task_duration_ms = v;
        }
    } else if window_is(t, ka, kb, "io_cpu_pct") {
        if let Some(v) = parse_window(t, va, vb, u32::MAX as u64) {
            r.ints.io_cpu_pct = v as u32;
        }
    } else if window_is(t, ka, kb, "cpu_cpu_pct") {
        if let Some(v) = parse_window(t, va, vb, u32::MAX as u64) {
            r.ints.cpu_cpu_pct = v as u32;
        }
    } else if window_is(t, ka, kb, "cpu_cap_pct") {
        if let Some(v) = parse_window(t, va, vb, u32::MAX as u64) {
            r.ints.cpu_cap_pct = v as u32;
        }
    } else if window_is(t, ka, kb, "monitor_interval_ms") {
        if let Some(v) = parse_window(t, va, vb, u64::MAX) {
            r.ints.monitor_interval_ms = v;
        }
    } else if window_is(t, ka, kb, "rng_seed") {
        if let Some(v) = parse_window(t, va, vb, u64::MAX) {
            r.ints.rng_seed = v;
        }
    } else if window_is(t, ka, kb, "csv_path") {
        let v = copy_window(t, va, vb);
        r.csv_path = Some(v);
    }
}

} // verus!

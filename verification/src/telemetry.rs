//! Reading hardware samples: which part of the text that `top`, `ioreg`,
//! `/proc` and `nvidia-smi` print holds each value. Only the last step, reading
//! a decimal fraction as a floating-point number, is left to the caller.
use crate::text::{
    chars_of, ends_with_at, is_whitespace_exec, line_ranges, lines, ranges_within, parse_u64_range, parse_u64_spec,
    range_texts, starts_with_at, string_of_range, token_ranges, tokens, trim, trim_range,
};
use vstd::prelude::*;

verus! {

/// Whether `s` starts with `p`.
pub open spec fn starts(s: Seq<char>, p: Seq<char>) -> bool {
    p.len() <= s.len() && s.subrange(0, p.len() as int) == p
}

/// `s` without prefix `p`, if it has it.
pub open spec fn strip_prefix(s: Seq<char>, p: Seq<char>) -> Option<Seq<char>> {
    if starts(s, p) {
        Some(s.subrange(p.len() as int, s.len() as int))
    } else {
        None
    }
}

/// `s` without suffix `p`, if it has it.
pub open spec fn strip_suffix(s: Seq<char>, p: Seq<char>) -> Option<Seq<char>> {
    if p.len() <= s.len() && s.subrange(s.len() - p.len(), s.len() as int) == p {
        Some(s.subrange(0, s.len() - p.len()))
    } else {
        None
    }
}

/// The index of the last line of `ls` that starts with `p`.
pub open spec fn last_starting(ls: Seq<Seq<char>>, p: Seq<char>) -> Option<int>
    decreases ls.len(),
{
    if ls.len() == 0 {
        None
    } else if starts(ls.last(), p) {
        Some(ls.len() - 1)
    } else {
        last_starting(ls.drop_last(), p)
    }
}

proof fn lemma_last_starting(ls: Seq<Seq<char>>, p: Seq<char>)
    ensures
        last_starting(ls, p) matches Some(i) ==> 0 <= i < ls.len() && starts(ls[i], p),
    decreases ls.len(),
{
    if ls.len() > 0 && !starts(ls.last(), p) {
        lemma_last_starting(ls.drop_last(), p);
    }
}

/// The part of `s` after its last `c`; all of `s` when it has none.
pub open spec fn after_last(s: Seq<char>, c: char) -> Seq<char>
    decreases s.len(),
{
    if s.len() == 0 {
        s
    } else if s.last() == c {
        Seq::empty()
    } else {
        after_last(s.drop_last(), c).push(s.last())
    }
}

/// The text of the idle share in the last `CPU usage:` line of `top`:
/// the last comma-separated field, trimmed, without `% idle`.
pub open spec fn mac_cpu_idle_spec(text: Seq<char>) -> Option<Seq<char>> {
    let ls = lines(text);
    match last_starting(ls, "CPU usage:"@) {
        None => None,
        Some(i) => strip_suffix(trim(after_last(ls[i], ',')), "% idle"@),
    }
}

fn last_starting_range(c: &[char], ls: &Vec<(usize, usize)>, p: &[char]) -> (r: Option<usize>)
    requires
        ranges_within(ls@, 0, c@.len() as int),
    ensures
        r is None ==> last_starting(range_texts(c@, ls@), p@) is None,
        r matches Some(i) ==> i < ls@.len() && last_starting(range_texts(c@, ls@), p@) == Some(
            i as int,
        ),
{
    let ghost texts = range_texts(c@, ls@);
    let mut k = ls.len();
    assert(texts.take(k as int) =~= texts);
    while k > 0
        invariant
            k <= ls@.len(),
            ranges_within(ls@, 0, c@.len() as int),
            texts == range_texts(c@, ls@),
            last_starting(texts, p@) == last_starting(texts.take(k as int), p@),
        decreases k,
    {
        let (lo, hi) = ls[k - 1];
        let ghost t = texts.take(k as int);
        assert(t.last() == c@.subrange(lo as int, hi as int));
        assert(t.drop_last() =~= texts.take(k - 1));
        if starts_with_at(c, lo, hi, p) {
            assert(starts(t.last(), p@)) by {
                assert(c@.subrange(lo as int, hi as int).subrange(0, p@.len() as int) =~= c@.subrange(
                    lo as int,
                    lo + p@.len(),
                ));
            }
            return Some(k - 1);
        }
        assert(!starts(t.last(), p@)) by {
            if p@.len() <= hi - lo {
                assert(c@.subrange(lo as int, hi as int).subrange(0, p@.len() as int) =~= c@.subrange(
                    lo as int,
                    lo + p@.len(),
                ));
            }
        }
        k = k - 1;
    }
    assert(texts.take(0) =~= Seq::<Seq<char>>::empty());
    None
}

/// The start of the part of `c[lo..hi]` after its last `ch`.
fn after_last_start(c: &[char], lo: usize, hi: usize, ch: char) -> (a: usize)
    requires
        lo <= hi <= c@.len(),
    ensures
        lo <= a <= hi,
        c@.subrange(a as int, hi as int) == after_last(c@.subrange(lo as int, hi as int), ch),
{
    let mut a = hi;
    while a > lo && c[a - 1] != ch
        invariant
            lo <= a <= hi <= c@.len(),
            after_last(c@.subrange(lo as int, hi as int), ch) == after_last(
                c@.subrange(lo as int, a as int),
                ch,
            ) + c@.subrange(a as int, hi as int),
        decreases a - lo,
    {
        let ghost s = c@.subrange(lo as int, a as int);
        assert(s.drop_last() =~= c@.subrange(lo as int, a - 1));
        assert(c@.subrange(a - 1, hi as int) =~= seq![s.last()] + c@.subrange(a as int, hi as int));
        assert(after_last(s.drop_last(), ch).push(s.last()) + c@.subrange(a as int, hi as int)
            =~= after_last(s.drop_last(), ch) + c@.subrange(a - 1, hi as int));
        a = a - 1;
    }
    let ghost s = c@.subrange(lo as int, a as int);
    if a == lo {
        assert(s =~= Seq::<char>::empty());
    } else {
        assert(s.last() == ch);
    }
    assert(after_last(s, ch) =~= Seq::<char>::empty());
    assert(Seq::<char>::empty() + c@.subrange(a as int, hi as int) =~= c@.subrange(a as int, hi as int));
    a
}

/// The text of the idle share in the last `CPU usage:` line of `top` output.
pub fn mac_cpu_idle(text: &str) -> (r: Option<String>)
    ensures
        match mac_cpu_idle_spec(text@) {
            None => r is None,
            Some(v) => r matches Some(s) && s@ == v,
        },
{
    let c = chars_of(text);
    let ls = line_ranges(c.as_slice(), 0, c.len());
    assert(c@.subrange(0, c@.len() as int) =~= c@);
    let prefix = chars_of("CPU usage:");
    let i = match last_starting_range(c.as_slice(), &ls, prefix.as_slice()) {
        None => return None,
        Some(i) => i,
    };
    let (lo, hi) = ls[i];
    let ghost ltexts = lines(text@);
    assert(range_texts(c@, ls@) == ltexts);
    assert(last_starting(ltexts, "CPU usage:"@) == Some(i as int));
    assert(ltexts[i as int] == c@.subrange(lo as int, hi as int));
    let a = after_last_start(c.as_slice(), lo, hi, ',');
    let (x, y) = trim_range(c.as_slice(), a, hi);
    assert(c@.subrange(x as int, y as int) == trim(after_last(ltexts[i as int], ',')));
    let suffix = chars_of("% idle");
    if !ends_with_at(c.as_slice(), x, y, suffix.as_slice()) {
        proof {
            let t = c@.subrange(x as int, y as int);
            if suffix@.len() <= t.len() {
                assert(t.subrange(t.len() - suffix@.len(), t.len() as int) =~= c@.subrange(
                    y - suffix@.len(),
                    y as int,
                ));
            }
        }
        return None;
    }
    let end = y - suffix.len();
    assert(c@.subrange(x as int, y as int).subrange(0, end - x) =~= c@.subrange(x as int, end as int));
    assert(c@.subrange(x as int, y as int).subrange(end - x, y - x) =~= c@.subrange(
        end as int,
        y as int,
    ));
    Some(string_of_range(c.as_slice(), x, end))
}


/// Whether `p` occurs in `s` at index `i`.
pub open spec fn occurs_at(s: Seq<char>, p: Seq<char>, i: int) -> bool {
    0 <= i && i + p.len() <= s.len() && s.subrange(i, i + p.len()) == p
}

/// Whether `i` is the first index at which `p` occurs in `s`.
pub open spec fn first_at(s: Seq<char>, p: Seq<char>, i: int) -> bool {
    occurs_at(s, p, i) && forall|j: int| 0 <= j < i ==> !occurs_at(s, p, j)
}

/// The first index at which `p` occurs in `s`.
pub open spec fn first_occurrence(s: Seq<char>, p: Seq<char>) -> Option<int> {
    if exists|i: int| first_at(s, p, i) {
        Some(choose|i: int| first_at(s, p, i))
    } else {
        None
    }
}

proof fn lemma_first_unique(s: Seq<char>, p: Seq<char>, i: int)
    requires
        first_at(s, p, i),
    ensures
        first_occurrence(s, p) == Some(i),
{
    let k = choose|k: int| first_at(s, p, k);
    if k < i {
        assert(!occurs_at(s, p, k));
    }
    if i < k {
        assert(!occurs_at(s, p, i));
    }
}

proof fn lemma_no_first(s: Seq<char>, p: Seq<char>)
    requires
        forall|j: int| 0 <= j ==> !occurs_at(s, p, j),
    ensures
        first_occurrence(s, p) is None,
{
}

/// The first index in `c[lo..]` at which `p` occurs in `c[lo..hi]`, relative to `lo`.
fn find_range(c: &[char], lo: usize, hi: usize, p: &[char]) -> (r: Option<usize>)
    requires
        lo <= hi <= c@.len(),
    ensures
        match first_occurrence(c@.subrange(lo as int, hi as int), p@) {
            None => r is None,
            Some(i) => r matches Some(k) && k as int == i && lo + k + p@.len() <= hi,
        },
{
    let ghost s = c@.subrange(lo as int, hi as int);
    if p.len() > hi - lo {
        proof {
            lemma_no_first(s, p@);
        }
        return None;
    }
    if p.len() == 0 {
        proof {
            assert(s.subrange(0, 0) =~= p@);
            lemma_first_unique(s, p@, 0);
        }
        return Some(0);
    }
    let last = hi - lo - p.len();
    let mut i: usize = 0;
    while i <= last
        invariant
            lo <= hi <= c@.len(),
            s == c@.subrange(lo as int, hi as int),
            p@.len() > 0,
            last == hi - lo - p@.len(),
            i <= last + 1,
            forall|j: int| 0 <= j < i ==> !occurs_at(s, p@, j),
        decreases last + 1 - i,
    {
        let hit = starts_with_at(c, lo + i, hi, p);
        assert(hit <==> occurs_at(s, p@, i as int)) by {
            if p@.len() <= hi - (lo + i) {
                assert(s.subrange(i as int, i + p@.len()) =~= c@.subrange(lo + i, lo + i + p@.len()));
            }
        }
        if hit {
            proof {
                lemma_first_unique(s, p@, i as int);
            }
            return Some(i);
        }
        i = i + 1;
    }
    proof {
        assert forall|j: int| 0 <= j implies !occurs_at(s, p@, j) by {
            if j >= i {
                assert(j + p@.len() > s.len());
            }
        }
        lemma_no_first(s, p@);
    }
    None
}

/// The part of `s` before its first `a` or `b`.
pub open spec fn before_any(s: Seq<char>, a: char, b: char) -> Seq<char>
    decreases s.len(),
{
    if s.len() == 0 {
        s
    } else if s[0] == a || s[0] == b {
        Seq::empty()
    } else {
        seq![s[0]] + before_any(s.drop_first(), a, b)
    }
}

/// The text of the GPU utilization in `ioreg` output: what follows the first
/// `"Device Utilization %"=`, up to a comma or closing brace.
pub open spec fn mac_gpu_value_spec(text: Seq<char>) -> Option<Seq<char>> {
    let p = "\"Device Utilization %\"="@;
    match first_occurrence(text, p) {
        None => None,
        Some(i) => Some(before_any(text.subrange(i + p.len(), text.len() as int), ',', '}')),
    }
}

fn before_any_end(c: &[char], lo: usize, hi: usize, a: char, b: char) -> (e: usize)
    requires
        lo <= hi <= c@.len(),
    ensures
        lo <= e <= hi,
        c@.subrange(lo as int, e as int) == before_any(c@.subrange(lo as int, hi as int), a, b),
{
    let mut e = lo;
    while e < hi && c[e] != a && c[e] != b
        invariant
            lo <= e <= hi <= c@.len(),
            before_any(c@.subrange(lo as int, hi as int), a, b) == c@.subrange(lo as int, e as int)
                + before_any(c@.subrange(e as int, hi as int), a, b),
        decreases hi - e,
    {
        let ghost t = c@.subrange(e as int, hi as int);
        assert(t.drop_first() =~= c@.subrange(e + 1, hi as int));
        assert(c@.subrange(lo as int, e + 1) =~= c@.subrange(lo as int, e as int) + seq![t[0]]);
        e = e + 1;
    }
    let ghost t = c@.subrange(e as int, hi as int);
    assert(before_any(t, a, b) =~= Seq::<char>::empty());
    assert(c@.subrange(lo as int, e as int) + Seq::<char>::empty() =~= c@.subrange(lo as int, e as int));
    e
}

/// The text of the GPU utilization in `ioreg` output.
pub fn mac_gpu_value(text: &str) -> (r: Option<String>)
    ensures
        match mac_gpu_value_spec(text@) {
            None => r is None,
            Some(v) => r matches Some(s) && s@ == v,
        },
{
    let c = chars_of(text);
    let p = chars_of("\"Device Utilization %\"=");
    assert(c@.subrange(0, c@.len() as int) =~= c@);
    let i = match find_range(c.as_slice(), 0, c.len(), p.as_slice()) {
        None => return None,
        Some(i) => i,
    };
    let start = i + p.len();
    let e = before_any_end(c.as_slice(), start, c.len(), ',', '}');
    Some(string_of_range(c.as_slice(), start, e))
}

/// The memory token of the last `PhysMem: ` line of `top` output: its first
/// whitespace-separated word.
pub open spec fn phys_mem_token_spec(text: Seq<char>) -> Option<Seq<char>> {
    let ls = lines(text);
    let p = "PhysMem: "@;
    match last_starting(ls, p) {
        None => None,
        Some(i) => {
            let ts = tokens(ls[i].subrange(p.len() as int, ls[i].len() as int));
            if ts.len() == 0 {
                None
            } else {
                Some(ts[0])
            }
        },
    }
}

/// The memory token of the last `PhysMem: ` line of `top` output.
pub fn phys_mem_token(text: &str) -> (r: Option<String>)
    ensures
        match phys_mem_token_spec(text@) {
            None => r is None,
            Some(v) => r matches Some(s) && s@ == v,
        },
{
    let c = chars_of(text);
    let ls = line_ranges(c.as_slice(), 0, c.len());
    assert(c@.subrange(0, c@.len() as int) =~= c@);
    let prefix = chars_of("PhysMem: ");
    let i = match last_starting_range(c.as_slice(), &ls, prefix.as_slice()) {
        None => return None,
        Some(i) => i,
    };
    let (lo, hi) = ls[i];
    let ghost ltexts = lines(text@);
    assert(range_texts(c@, ls@) == ltexts);
    assert(ltexts[i as int] == c@.subrange(lo as int, hi as int));
    proof {
        lemma_last_starting(ltexts, prefix@);
    }
    assert(starts(ltexts[i as int], prefix@));
    let start = lo + prefix.len();
    assert(ltexts[i as int].subrange(prefix@.len() as int, ltexts[i as int].len() as int)
        =~= c@.subrange(start as int, hi as int));
    let ts = token_ranges(c.as_slice(), start, hi);
    if ts.len() == 0 {
        return None;
    }
    let (a, b) = ts[0];
    assert(range_texts(c@, ts@)[0] == c@.subrange(a as int, b as int));
    Some(string_of_range(c.as_slice(), a, b))
}

/// The model named by one `ioreg` line: the trimmed line without
/// `"model" = "` before it and `"` after it.
pub open spec fn model_value(line: Seq<char>) -> Option<Seq<char>> {
    match strip_prefix(trim(line), "\"model\" = \""@) {
        None => None,
        Some(rest) => strip_suffix(rest, "\""@),
    }
}

/// The first model named by the lines `ls`.
pub open spec fn first_model(ls: Seq<Seq<char>>) -> Option<Seq<char>>
    decreases ls.len(),
{
    if ls.len() == 0 {
        None
    } else {
        match model_value(ls[0]) {
            Some(v) => Some(v),
            None => first_model(ls.drop_first()),
        }
    }
}

/// The GPU name in `ioreg` output, or `Apple GPU` when it names none.
pub open spec fn gpu_model_name_spec(text: Seq<char>) -> Seq<char> {
    match first_model(lines(text)) {
        Some(v) => v,
        None => "Apple GPU"@,
    }
}

fn model_value_range(c: &[char], lo: usize, hi: usize) -> (r: Option<(usize, usize)>)
    requires
        lo <= hi <= c@.len(),
    ensures
        match model_value(c@.subrange(lo as int, hi as int)) {
            None => r is None,
            Some(v) => r matches Some((a, b)) && a <= b <= c@.len() && c@.subrange(a as int, b as int)
                == v,
        },
{
    let (x, y) = trim_range(c, lo, hi);
    let p = chars_of("\"model\" = \"");
    let q = chars_of("\"");
    let ghost t = c@.subrange(x as int, y as int);
    if !starts_with_at(c, x, y, p.as_slice()) {
        proof {
            if p@.len() <= t.len() {
                assert(t.subrange(0, p@.len() as int) =~= c@.subrange(x as int, x + p@.len()));
            }
        }
        return None;
    }
    let a = x + p.len();
    assert(t.subrange(0, p@.len() as int) =~= c@.subrange(x as int, a as int));
    assert(t.subrange(p@.len() as int, t.len() as int) =~= c@.subrange(a as int, y as int));
    let ghost rest = c@.subrange(a as int, y as int);
    if !ends_with_at(c, a, y, q.as_slice()) {
        proof {
            if q@.len() <= rest.len() {
                assert(rest.subrange(rest.len() - q@.len(), rest.len() as int) =~= c@.subrange(
                    y - q@.len(),
                    y as int,
                ));
            }
        }
        return None;
    }
    let b = y - q.len();
    assert(rest.subrange(rest.len() - q@.len(), rest.len() as int) =~= c@.subrange(
        b as int,
        y as int,
    ));
    assert(rest.subrange(0, rest.len() - q@.len()) =~= c@.subrange(a as int, b as int));
    Some((a, b))
}

/// The GPU name in `ioreg` output.
pub fn gpu_model_name(text: &str) -> (r: String)
    ensures
        r@ == gpu_model_name_spec(text@),
{
    let c = chars_of(text);
    let ls = line_ranges(c.as_slice(), 0, c.len());
    assert(c@.subrange(0, c@.len() as int) =~= c@);
    let ghost texts = range_texts(c@, ls@);
    assert(texts.subrange(0, texts.len() as int) =~= texts);
    let mut k: usize = 0;
    while k < ls.len()
        invariant
            k <= ls@.len(),
            ranges_within(ls@, 0, c@.len() as int),
            texts == range_texts(c@, ls@),
            texts == lines(text@),
            first_model(texts) == first_model(texts.subrange(k as int, texts.len() as int)),
        decreases ls@.len() - k,
    {
        let (lo, hi) = ls[k];
        let ghost rest = texts.subrange(k as int, texts.len() as int);
        assert(rest[0] == c@.subrange(lo as int, hi as int));
        assert(rest.drop_first() =~= texts.subrange(k + 1, texts.len() as int));
        match model_value_range(c.as_slice(), lo, hi) {
            Some((a, b)) => {
                return string_of_range(c.as_slice(), a, b);
            },
            None => {},
        }
        k = k + 1;
    }
    "Apple GPU".to_owned()
}


/// The values among `ts` that read as `u64`, in order.
pub open spec fn parsed_values(ts: Seq<Seq<char>>) -> Seq<u64>
    decreases ts.len(),
{
    if ts.len() == 0 {
        Seq::empty()
    } else {
        match parse_u64_spec(ts.last()) {
            Some(v) => parsed_values(ts.drop_last()).push(v),
            None => parsed_values(ts.drop_last()),
        }
    }
}

/// The sum of `v`.
pub open spec fn total(v: Seq<u64>) -> nat
    decreases v.len(),
{
    if v.len() == 0 {
        0
    } else {
        total(v.drop_last()) + v.last() as nat
    }
}

/// The tick counters of the first line of `/proc/stat`: the values among the
/// eight words after the first.
pub open spec fn cpu_ticks(text: Seq<char>) -> Seq<u64> {
    let ls = lines(text);
    let first = if ls.len() == 0 {
        Seq::empty()
    } else {
        ls[0]
    };
    let ts = tokens(first);
    let words = if ts.len() <= 1 {
        Seq::empty()
    } else if ts.len() <= 9 {
        ts.subrange(1, ts.len() as int)
    } else {
        ts.subrange(1, 9)
    };
    parsed_values(words)
}

/// The total and idle ticks of a `/proc/stat` sample: all counters, and the
/// idle and iowait ones; nothing when fewer than four counters read.
pub open spec fn cpu_sample_spec(text: Seq<char>) -> Option<(u128, u128)> {
    let v = cpu_ticks(text);
    if v.len() < 4 {
        None
    } else {
        Some(
            (
                total(v) as u128,
                (v[3] + if v.len() > 4 {
                    v[4] as int
                } else {
                    0
                }) as u128,
            ),
        )
    }
}

/// The words of the first line of `text`.
pub open spec fn first_line_tokens(text: Seq<char>) -> Seq<Seq<char>> {
    let ls = lines(text);
    tokens(
        if ls.len() == 0 {
            Seq::empty()
        } else {
            ls[0]
        },
    )
}

proof fn lemma_parsed_values_len(ws: Seq<Seq<char>>)
    ensures
        parsed_values(ws).len() <= ws.len(),
    decreases ws.len(),
{
    if ws.len() > 0 {
        lemma_parsed_values_len(ws.drop_last());
    }
}

proof fn lemma_parsed_values_all(ws: Seq<Seq<char>>)
    requires
        forall|i: int| 0 <= i < ws.len() ==> #[trigger] parse_u64_spec(ws[i]) is Some,
    ensures
        parsed_values(ws) == Seq::new(ws.len(), |i: int| parse_u64_spec(ws[i]).unwrap()),
    decreases ws.len(),
{
    if ws.len() > 0 {
        let d = ws.drop_last();
        assert forall|i: int| 0 <= i < d.len() implies #[trigger] parse_u64_spec(d[i]) is Some by {
            assert(d[i] == ws[i]);
            assert(parse_u64_spec(ws[i]) is Some);
        }
        lemma_parsed_values_all(d);
        assert(parse_u64_spec(ws[ws.len() - 1]) is Some);
        assert(parsed_values(ws) =~= Seq::new(ws.len(), |i: int| parse_u64_spec(ws[i]).unwrap()));
    }
}

/// A `/proc/stat` sample counts at most the eight counters after the `cpu`
/// label (user to steal); the guest counters after them, which are already
/// part of user time, are never added. When those eight all read, they are
/// exactly the counters summed, and idle is the fourth plus the fifth.
pub proof fn lemma_cpu_sample_reads_eight_counters(text: Seq<char>)
    ensures
        cpu_ticks(text).len() <= 8,
        ({
            let ts = first_line_tokens(text);
            let eight = Seq::new(8, |i: int| parse_u64_spec(ts[i + 1]).unwrap());
            ts.len() >= 9 && (forall|i: int| 1 <= i < 9 ==> #[trigger] parse_u64_spec(ts[i]) is Some)
                ==> cpu_ticks(text) == eight && cpu_sample_spec(text) == Some(
                (total(eight) as u128, (eight[3] + eight[4]) as u128),
            )
        }),
{
    let ts = first_line_tokens(text);
    if ts.len() > 1 {
        let words = if ts.len() <= 9 {
            ts.subrange(1, ts.len() as int)
        } else {
            ts.subrange(1, 9)
        };
        lemma_parsed_values_len(words);
        if ts.len() >= 9 && (forall|i: int| 1 <= i < 9 ==> #[trigger] parse_u64_spec(ts[i]) is Some) {
            let w = ts.subrange(1, 9);
            assert forall|i: int| 0 <= i < w.len() implies #[trigger] parse_u64_spec(w[i]) is Some by {
                assert(w[i] == ts[i + 1]);
                assert(parse_u64_spec(ts[i + 1]) is Some);
            }
            lemma_parsed_values_all(w);
            let eight = Seq::new(8, |i: int| parse_u64_spec(ts[i + 1]).unwrap());
            assert(parsed_values(w) =~= eight);
        }
    } else {
        assert(parsed_values(Seq::<Seq<char>>::empty()) =~= Seq::<u64>::empty());
    }
}

proof fn lemma_total_bound(v: Seq<u64>)
    ensures
        total(v) <= v.len() * u64::MAX,
    decreases v.len(),
{
    if v.len() > 0 {
        lemma_total_bound(v.drop_last());
    }
}

/// The total and idle ticks of a `/proc/stat` sample.
pub fn cpu_sample(text: &str) -> (r: Option<(u128, u128)>)
    ensures
        r == cpu_sample_spec(text@),
{
    let c = chars_of(text);
    let ls = line_ranges(c.as_slice(), 0, c.len());
    assert(c@.subrange(0, c@.len() as int) =~= c@);
    let ghost ltexts = lines(text@);
    let (lo, hi) = if ls.len() == 0 {
        (0, 0)
    } else {
        ls[0]
    };
    assert(c@.subrange(lo as int, hi as int) == (if ltexts.len() == 0 {
        Seq::<char>::empty()
    } else {
        ltexts[0]
    })) by {
        if ls@.len() > 0 {
            assert(range_texts(c@, ls@)[0] == c@.subrange(lo as int, hi as int));
        } else {
            assert(c@.subrange(0, 0) =~= Seq::<char>::empty());
        }
    }
    let ts = token_ranges(c.as_slice(), lo, hi);
    let ghost tt = range_texts(c@, ts@);
    if ts.len() <= 1 {
        assert(parsed_values(Seq::<Seq<char>>::empty()) =~= Seq::<u64>::empty());
        return None;
    }
    assert(tt.subrange(1, 1) =~= Seq::<Seq<char>>::empty());
    let end = if ts.len() <= 9 {
        ts.len()
    } else {
        9
    };
    let ghost words = if tt.len() <= 1 {
        Seq::<Seq<char>>::empty()
    } else {
        tt.subrange(1, end as int)
    };
    let mut values: Vec<u64> = Vec::new();
    let mut k: usize = 1;
    while k < end
        invariant
            1 <= k <= end,
            end <= ts@.len(),
            end <= 9,
            ranges_within(ts@, lo as int, hi as int),
            hi <= c@.len(),
            tt == range_texts(c@, ts@),
            values@ == parsed_values(tt.subrange(1, k as int)),
            values@.len() <= k - 1,
        decreases end - k,
    {
        let (a, b) = ts[k];
        assert(tt[k as int] == c@.subrange(a as int, b as int));
        assert(tt.subrange(1, k + 1).drop_last() =~= tt.subrange(1, k as int));
        match parse_u64_range(c.as_slice(), a, b) {
            Some(v) => values.push(v),
            None => {},
        }
        k = k + 1;
    }
    assert(k == end);
    assert(tt == tokens(if ltexts.len() == 0 {
        Seq::<char>::empty()
    } else {
        ltexts[0]
    }));
    assert(values@ == cpu_ticks(text@));
    if values.len() < 4 {
        return None;
    }
    let mut sum: u128 = 0;
    let mut j: usize = 0;
    while j < values.len()
        invariant
            j <= values@.len(),
            values@.len() <= 8,
            sum == total(values@.take(j as int)),
        decreases values@.len() - j,
    {
        proof {
            assert(values@.take(j + 1).drop_last() =~= values@.take(j as int));
            lemma_total_bound(values@.take(j as int));
        }
        sum = sum + values[j] as u128;
        j = j + 1;
    }
    assert(values@.take(values@.len() as int) =~= values@);
    let idle = values[3] as u128 + if values.len() > 4 {
        values[4] as u128
    } else {
        0
    };
    Some((sum, idle))
}

/// The busy and elapsed ticks between two samples, as `saturating_sub` gives
/// them; nothing when no tick elapsed.
pub open spec fn cpu_busy_spec(previous: (u128, u128), current: (u128, u128)) -> Option<(u128, u128)> {
    let elapsed = if current.0 >= previous.0 {
        (current.0 - previous.0) as u128
    } else {
        0
    };
    let idle = if current.1 >= previous.1 {
        (current.1 - previous.1) as u128
    } else {
        0
    };
    if elapsed == 0 {
        None
    } else {
        Some(
            (
                if elapsed >= idle {
                    (elapsed - idle) as u128
                } else {
                    0
                },
                elapsed,
            ),
        )
    }
}

/// Between two samples, the elapsed ticks are the growth of the total; the
/// busy ticks are the elapsed ones less the growth of idle time, never more
/// than elapsed; no load is reported when no tick elapsed.
pub proof fn lemma_cpu_busy_within_elapsed(previous: (u128, u128), current: (u128, u128))
    ensures
        cpu_busy_spec(previous, current) is Some <==> current.0 > previous.0,
        cpu_busy_spec(previous, current) matches Some((busy, elapsed)) ==> elapsed == current.0
            - previous.0 && busy <= elapsed && (current.1 >= previous.1 && current.1 - previous.1
            <= elapsed ==> busy + (current.1 - previous.1) == elapsed),
{
}

/// The CPU load sampler of `/proc/stat`: the last sample taken.
pub struct CpuSampler {
    pub previous: Option<(u128, u128)>,
}

impl CpuSampler {
    pub fn new() -> (s: Self)
        ensures
            s.previous is None,
    {
        CpuSampler { previous: None }
    }

    /// Takes a `/proc/stat` text and returns the busy and elapsed ticks since
    /// the previous sample, whose share the caller shows as a percentage.
    pub fn sample(&mut self, text: &str) -> (r: Option<(u128, u128)>)
        ensures
            match cpu_sample_spec(text@) {
                None => final(self).previous == old(self).previous && r is None,
                Some(cur) => final(self).previous == Some(cur) && r == match old(self).previous {
                    None => None,
                    Some(prev) => cpu_busy_spec(prev, cur),
                },
            },
    {
        let cur = match cpu_sample(text) {
            None => return None,
            Some(cur) => cur,
        };
        let prev = self.previous;
        self.previous = Some(cur);
        match prev {
            None => None,
            Some((old_total, old_idle)) => {
                let elapsed = cur.0.saturating_sub(old_total);
                if elapsed == 0 {
                    None
                } else {
                    Some((elapsed.saturating_sub(cur.1.saturating_sub(old_idle)), elapsed))
                }
            },
        }
    }
}


/// The CPU name of one `/proc/cpuinfo` line: after `model name` and the
/// first colon, trimmed.
pub open spec fn cpu_model_of(line: Seq<char>) -> Option<Seq<char>> {
    match strip_prefix(line, "model name"@) {
        None => None,
        Some(rest) => match first_occurrence(rest, ":"@) {
            None => None,
            Some(k) => Some(trim(rest.subrange(k + 1, rest.len() as int))),
        },
    }
}

/// The first CPU name of the lines `ls`.
pub open spec fn first_cpu_model(ls: Seq<Seq<char>>) -> Option<Seq<char>>
    decreases ls.len(),
{
    if ls.len() == 0 {
        None
    } else {
        match cpu_model_of(ls[0]) {
            Some(v) => Some(v),
            None => first_cpu_model(ls.drop_first()),
        }
    }
}

/// The CPU name in `/proc/cpuinfo`, or `CPU` when it names none.
pub open spec fn cpuinfo_name_spec(text: Seq<char>) -> Seq<char> {
    match first_cpu_model(lines(text)) {
        Some(v) => v,
        None => "CPU"@,
    }
}

/// The CPU name in `/proc/cpuinfo`.
pub fn cpuinfo_name(text: &str) -> (r: String)
    ensures
        r@ == cpuinfo_name_spec(text@),
{
    let c = chars_of(text);
    let ls = line_ranges(c.as_slice(), 0, c.len());
    assert(c@.subrange(0, c@.len() as int) =~= c@);
    let ghost texts = range_texts(c@, ls@);
    assert(texts.subrange(0, texts.len() as int) =~= texts);
    let p = chars_of("model name");
    let colon = chars_of(":");
    proof {
        reveal_strlit(":");
    }
    let mut k: usize = 0;
    while k < ls.len()
        invariant
            k <= ls@.len(),
            ranges_within(ls@, 0, c@.len() as int),
            texts == range_texts(c@, ls@),
            texts == lines(text@),
            p@ == "model name"@,
            colon@ == ":"@,
            colon@.len() == 1,
            first_cpu_model(texts) == first_cpu_model(texts.subrange(k as int, texts.len() as int)),
        decreases ls@.len() - k,
    {
        let (lo, hi) = ls[k];
        let ghost line = c@.subrange(lo as int, hi as int);
        let ghost rest = texts.subrange(k as int, texts.len() as int);
        assert(rest[0] == line);
        assert(rest.drop_first() =~= texts.subrange(k + 1, texts.len() as int));
        if starts_with_at(c.as_slice(), lo, hi, p.as_slice()) {
            let a = lo + p.len();
            assert(line.subrange(0, p@.len() as int) =~= c@.subrange(lo as int, a as int));
            assert(line.subrange(p@.len() as int, line.len() as int) =~= c@.subrange(
                a as int,
                hi as int,
            ));
            match find_range(c.as_slice(), a, hi, colon.as_slice()) {
                Some(i) => {
                    let ghost r = c@.subrange(a as int, hi as int);
                    assert(r.subrange(i + 1, r.len() as int) =~= c@.subrange(a + i + 1, hi as int));
                    let (x, y) = trim_range(c.as_slice(), a + i + 1, hi);
                    return string_of_range(c.as_slice(), x, y);
                },
                None => {},
            }
        } else {
            proof {
                if p@.len() <= line.len() {
                    assert(line.subrange(0, p@.len() as int) =~= c@.subrange(lo as int, lo + p@.len()));
                }
            }
        }
        k = k + 1;
    }
    "CPU".to_owned()
}

/// The kibibyte count of the first `/proc/meminfo` line that starts with
/// `key`, in bytes: its first word read as `u64`, times 1024 when that fits.
pub open spec fn meminfo_bytes_spec(text: Seq<char>, key: Seq<char>) -> Option<u64> {
    let ls = lines(text);
    match first_starting(ls, key) {
        None => None,
        Some(i) => {
            let ts = tokens(ls[i].subrange(key.len() as int, ls[i].len() as int));
            if ts.len() == 0 {
                None
            } else {
                match parse_u64_spec(ts[0]) {
                    None => None,
                    Some(n) => if n * 1024 <= u64::MAX {
                        Some((n * 1024) as u64)
                    } else {
                        None
                    },
                }
            }
        },
    }
}

/// The index of the first line of `ls` that starts with `p`.
pub open spec fn first_starting(ls: Seq<Seq<char>>, p: Seq<char>) -> Option<int>
    decreases ls.len(),
{
    if ls.len() == 0 {
        None
    } else if starts(ls[0], p) {
        Some(0)
    } else {
        match first_starting(ls.drop_first(), p) {
            Some(i) => Some(i + 1),
            None => None,
        }
    }
}

proof fn lemma_first_starting_skip(ls: Seq<Seq<char>>, p: Seq<char>, k: int)
    requires
        0 <= k < ls.len(),
        forall|j: int| 0 <= j < k ==> !starts(#[trigger] ls[j], p),
    ensures
        first_starting(ls, p) == (match first_starting(ls.subrange(k, ls.len() as int), p) {
            Some(i) => Some(i + k),
            None => None,
        }),
        starts(ls[k], p) ==> first_starting(ls, p) == Some(k),
    decreases k,
{
    if k > 0 {
        let d = ls.drop_first();
        assert(d.subrange(k - 1, ls.len() - 1) =~= ls.subrange(k, ls.len() as int));
        assert(!starts(ls[0], p));
        assert forall|j: int| 0 <= j < k - 1 implies !starts(#[trigger] d[j], p) by {
            assert(d[j] == ls[j + 1]);
        }
        lemma_first_starting_skip(d, p, k - 1);
    } else {
        assert(ls.subrange(0, ls.len() as int) =~= ls);
    }
}

proof fn lemma_first_starting_none(ls: Seq<Seq<char>>, p: Seq<char>)
    requires
        forall|j: int| 0 <= j < ls.len() ==> !starts(#[trigger] ls[j], p),
    ensures
        first_starting(ls, p) is None,
    decreases ls.len(),
{
    if ls.len() > 0 {
        lemma_first_starting_none(ls.drop_first(), p);
    }
}

/// The bytes that the first `/proc/meminfo` line starting with `key` counts.
pub fn meminfo_bytes(text: &str, key: &str) -> (r: Option<u64>)
    ensures
        r == meminfo_bytes_spec(text@, key@),
{
    let c = chars_of(text);
    let ls = line_ranges(c.as_slice(), 0, c.len());
    assert(c@.subrange(0, c@.len() as int) =~= c@);
    let ghost texts = range_texts(c@, ls@);
    let p = chars_of(key);
    let mut k: usize = 0;
    while k < ls.len()
        invariant
            k <= ls@.len(),
            ranges_within(ls@, 0, c@.len() as int),
            texts == range_texts(c@, ls@),
            texts == lines(text@),
            p@ == key@,
            forall|j: int| 0 <= j < k ==> !starts(#[trigger] texts[j], p@),
        decreases ls@.len() - k,
    {
        let (lo, hi) = ls[k];
        let ghost line = c@.subrange(lo as int, hi as int);
        assert(texts[k as int] == line);
        if starts_with_at(c.as_slice(), lo, hi, p.as_slice()) {
            assert(line.subrange(0, p@.len() as int) =~= c@.subrange(lo as int, lo + p@.len()));
            proof {
                lemma_first_starting_skip(texts, p@, k as int);
            }
            let a = lo + p.len();
            assert(line.subrange(p@.len() as int, line.len() as int) =~= c@.subrange(
                a as int,
                hi as int,
            ));
            let ts = token_ranges(c.as_slice(), a, hi);
            if ts.len() == 0 {
                return None;
            }
            let (x, y) = ts[0];
            assert(range_texts(c@, ts@)[0] == c@.subrange(x as int, y as int));
            return match parse_u64_range(c.as_slice(), x, y) {
                None => None,
                Some(n) => n.checked_mul(1024),
            };
        }
        proof {
            if p@.len() <= line.len() {
                assert(line.subrange(0, p@.len() as int) =~= c@.subrange(lo as int, lo + p@.len()));
            }
        }
        k = k + 1;
    }
    proof {
        lemma_first_starting_none(texts, p@);
    }
    None
}

/// Used and total memory from `/proc/meminfo`: total less available, and total.
pub fn meminfo_ram(text: &str) -> (r: Option<(u64, u64)>)
    ensures
        r == match (
            meminfo_bytes_spec(text@, "MemTotal:"@),
            meminfo_bytes_spec(text@, "MemAvailable:"@),
        ) {
            (Some(t), Some(a)) => Some(
                (
                    if t >= a {
                        (t - a) as u64
                    } else {
                        0
                    },
                    t,
                ),
            ),
            _ => None,
        },
{
    let total = meminfo_bytes(text, "MemTotal:");
    let available = meminfo_bytes(text, "MemAvailable:");
    match (total, available) {
        (Some(t), Some(a)) => Some((t.saturating_sub(a), t)),
        _ => None,
    }
}


/// The indices of the commas of `t`, in order.
pub open spec fn commas(t: Seq<char>) -> Seq<int>
    decreases t.len(),
{
    if t.len() == 0 {
        Seq::empty()
    } else if t.last() == ',' {
        commas(t.drop_last()).push(t.len() - 1)
    } else {
        commas(t.drop_last())
    }
}

/// The three comma-separated fields of an `nvidia-smi` line, for name,
/// utilization and temperature; name and temperature trimmed. Nothing unless
/// the trimmed text has exactly three fields.
pub open spec fn nvidia_fields_spec(text: Seq<char>) -> Option<(Seq<char>, Seq<char>, Seq<char>)> {
    let t = trim(text);
    let cs = commas(t);
    if cs.len() != 2 {
        None
    } else {
        Some(
            (
                trim(t.subrange(0, cs[0])),
                t.subrange(cs[0] + 1, cs[1]),
                trim(t.subrange(cs[1] + 1, t.len() as int)),
            ),
        )
    }
}

proof fn lemma_commas_bounds(t: Seq<char>)
    ensures
        forall|i: int| 0 <= i < commas(t).len() ==> 0 <= #[trigger] commas(t)[i] < t.len(),
        forall|i: int, j: int| 0 <= i < j < commas(t).len() ==> #[trigger] commas(t)[i] < #[trigger] commas(
            t,
        )[j],
    decreases t.len(),
{
    if t.len() > 0 {
        let d = t.drop_last();
        lemma_commas_bounds(d);
        let cd = commas(d);
        let ct = commas(t);
        assert forall|i: int| 0 <= i < ct.len() implies 0 <= #[trigger] ct[i] < t.len() by {
            if i < cd.len() {
                assert(ct[i] == cd[i]);
            }
        }
        assert forall|i: int, j: int| 0 <= i < j < ct.len() implies #[trigger] ct[i] < #[trigger] ct[j] by {
            assert(ct[i] == cd[i]);
            if j < cd.len() {
                assert(ct[j] == cd[j]);
            } else {
                assert(cd[i] < d.len());
            }
        }
    }
}

/// The fields of an `nvidia-smi` line.
pub fn nvidia_fields(text: &str) -> (r: Option<(String, String, String)>)
    ensures
        match nvidia_fields_spec(text@) {
            None => r is None,
            Some((a, b, c)) => r matches Some((x, y, z)) && x@ == a && y@ == b && z@ == c,
        },
{
    let c = chars_of(text);
    assert(c@.subrange(0, c@.len() as int) =~= c@);
    let (lo, hi) = trim_range(c.as_slice(), 0, c.len());
    let ghost t = c@.subrange(lo as int, hi as int);
    let mut found: Vec<usize> = Vec::new();
    let mut k = lo;
    assert(t.take(0) =~= Seq::<char>::empty());
    while k < hi
        invariant
            lo <= k <= hi <= c@.len(),
            t == c@.subrange(lo as int, hi as int),
            found@.len() == commas(t.take(k - lo)).len(),
            forall|i: int| 0 <= i < found@.len() ==> found@[i] as int == lo + #[trigger] commas(
                t.take(k - lo),
            )[i],
        decreases hi - k,
    {
        assert(t.take(k - lo + 1).drop_last() =~= t.take(k - lo));
        assert(t.take(k - lo + 1).last() == c@[k as int]);
        if c[k] == ',' {
            found.push(k);
        }
        k = k + 1;
    }
    assert(t.take(hi - lo) =~= t);
    if found.len() != 2 {
        return None;
    }
    proof {
        lemma_commas_bounds(t);
    }
    let i = found[0];
    let j = found[1];
    let (a0, a1) = trim_range(c.as_slice(), lo, i);
    let (b0, b1) = trim_range(c.as_slice(), j + 1, hi);
    assert(t.subrange(0, i - lo) =~= c@.subrange(lo as int, i as int));
    assert(t.subrange(i - lo + 1, j - lo) =~= c@.subrange(i + 1, j as int));
    assert(t.subrange(j - lo + 1, t.len() as int) =~= c@.subrange(j + 1, hi as int));
    Some(
        (
            string_of_range(c.as_slice(), a0, a1),
            string_of_range(c.as_slice(), i + 1, j),
            string_of_range(c.as_slice(), b0, b1),
        ),
    )
}

/// Whether a thermal zone of this type measures the CPU package.
pub open spec fn cpu_thermal_zone_spec(kind: Seq<char>) -> bool {
    trim(kind) == "x86_pkg_temp"@ || trim(kind) == "cpu-thermal"@
}

/// Whether a thermal zone of type `kind` measures the CPU package.
pub fn is_cpu_thermal_zone(kind: &str) -> (b: bool)
    ensures
        b == cpu_thermal_zone_spec(kind@),
{
    let c = chars_of(kind);
    assert(c@.subrange(0, c@.len() as int) =~= c@);
    let (lo, hi) = trim_range(c.as_slice(), 0, c.len());
    let t = string_of_range(c.as_slice(), lo, hi);
    let a = "x86_pkg_temp".to_owned();
    let b = "cpu-thermal".to_owned();
    t == a || t == b
}

/// The CPU name `sysctl` printed, trimmed, or `CPU` when it printed none.
pub fn mac_cpu_name(name: Option<String>) -> (r: String)
    ensures
        r@ == trim(
            match name {
                Some(n) => n@,
                None => "CPU"@,
            },
        ),
{
    let n = match name {
        Some(n) => n,
        None => "CPU".to_owned(),
    };
    let c = chars_of(n.as_str());
    assert(c@.subrange(0, c@.len() as int) =~= c@);
    let (lo, hi) = trim_range(c.as_slice(), 0, c.len());
    string_of_range(c.as_slice(), lo, hi)
}


/// The number `sysctl -n` printed, such as the installed memory in bytes:
/// the trimmed text read as a `u64`.
pub fn sysctl_number(text: &str) -> (r: Option<u64>)
    ensures
        r == parse_u64_spec(trim(text@)),
{
    let c = chars_of(text);
    assert(c@.subrange(0, c@.len() as int) =~= c@);
    let (lo, hi) = trim_range(c.as_slice(), 0, c.len());
    parse_u64_range(c.as_slice(), lo, hi)
}

} // verus!

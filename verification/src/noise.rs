//! Recognises the end-of-run summaries of the compiler, which name no file.

use vstd::prelude::*;

use crate::text::chars_of;

verus! {

/// Whether `c` is one of the ten digits `0` to `9`.
pub open spec fn is_digit(c: char) -> bool {
    '0' <= c && c <= '9'
}

/// Whether `s` is a count: one digit or more, and nothing else.
pub open spec fn is_count(s: Seq<char>) -> bool {
    s.len() > 0 && forall|i: int| 0 <= i < s.len() ==> is_digit(#[trigger] s[i])
}

/// The plural ending: `s` or nothing.
pub open spec fn plural(many: bool) -> Seq<char> {
    if many {
        "s"@
    } else {
        Seq::empty()
    }
}

/// The line `<count> warning emitted`, or with `warnings`.
pub open spec fn warnings_line(count: Seq<char>, many: bool) -> Seq<char> {
    count + " warning"@ + plural(many) + " emitted"@
}

/// The line `aborting due to <count> previous error`, or with `errors`.
pub open spec fn abort_line(count: Seq<char>, many: bool) -> Seq<char> {
    "aborting due to "@ + count + " previous error"@ + plural(many)
}

/// Whether `m` is a count of warnings and nothing more.
pub open spec fn is_warnings_line(m: Seq<char>) -> bool {
    exists|count: Seq<char>, many: bool| is_count(count) && m == warnings_line(count, many)
}

/// Whether `m` is a count of errors and nothing more.
pub open spec fn is_abort_line(m: Seq<char>) -> bool {
    exists|count: Seq<char>, many: bool| is_count(count) && m == abort_line(count, many)
}

/// Whether the whole of `m` is a summary: a count of errors, a count of
/// warnings, or the first followed by `; ` and the second.
pub open spec fn is_summary(m: Seq<char>) -> bool {
    ||| is_warnings_line(m)
    ||| is_abort_line(m)
    ||| exists|head: Seq<char>, tail: Seq<char>|
        is_abort_line(head) && is_warnings_line(tail) && m == head + "; "@ + tail
}

/// Whether `lit` stands in `s` at `pos`.
pub open spec fn stands_at(s: Seq<char>, pos: int, lit: Seq<char>) -> bool {
    0 <= pos && pos + lit.len() <= s.len() && s.subrange(pos, pos + lit.len()) == lit
}

/// The end of the digits that start at `from`.
fn scan_digits(v: &Vec<char>, from: usize) -> (end: usize)
    requires
        from <= v@.len(),
    ensures
        from <= end <= v@.len(),
        forall|i: int| from <= i < end ==> is_digit(#[trigger] v@[i]),
        end < v@.len() ==> !is_digit(v@[end as int]),
{
    let mut end: usize = from;
    while end < v.len() && v[end] >= '0' && v[end] <= '9'
        invariant
            from <= end <= v@.len(),
            forall|i: int| from <= i < end ==> is_digit(#[trigger] v@[i]),
        decreases v@.len() - end,
    {
        end += 1;
    }
    end
}

/// The place after `lit`, where `lit` stands at `from`.
fn scan_literal(v: &Vec<char>, from: usize, lit: &str) -> (r: Option<usize>)
    requires
        from <= v@.len(),
    ensures
        match r {
            Some(end) => end == from + lit@.len() && stands_at(v@, from as int, lit@),
            None => !stands_at(v@, from as int, lit@),
        },
{
    let mut i: usize = from;
    let it0 = lit.chars();
    for c in it: it0
        invariant
            it.seq() == lit@,
            i == from + it.index(),
            i <= v@.len(),
            v@.subrange(from as int, i as int) == lit@.take(it.index()),
    {
        if i >= v.len() || v[i] != c {
            proof {
                let k = it.index();
                if stands_at(v@, from as int, lit@) {
                    assert(v@.subrange(from as int, from + lit@.len())[k] == lit@[k]);
                }
            }
            return None;
        }
        proof {
            let k = it.index();
            assert(v@.subrange(from as int, i + 1) =~= v@.subrange(from as int, i as int).push(
                v@[i as int],
            ));
            assert(lit@.take(k + 1) =~= lit@.take(k).push(lit@[k]));
        }
        i += 1;
    }
    assert(lit@.take(lit@.len() as int) =~= lit@);
    Some(i)
}

/// `lit` stands at `pos` of what follows `from` where it stands at
/// `from + pos` of the whole.
proof fn lemma_stands_at_skip(s: Seq<char>, from: int, pos: int, lit: Seq<char>)
    requires
        0 <= from <= s.len(),
        0 <= pos,
    ensures
        stands_at(s.skip(from), pos, lit) == stands_at(s, from + pos, lit),
{
    if pos + lit.len() <= s.len() - from {
        assert(s.skip(from).subrange(pos, pos + lit.len()) =~= s.subrange(
            from + pos,
            from + pos + lit.len(),
        ));
    }
}

/// Where a count stands at `from` and no digit follows it, the digits that
/// start at `from` end with the count.
proof fn lemma_count_ends(s: Seq<char>, from: int, count: Seq<char>, end: int)
    requires
        0 <= from <= end <= s.len(),
        is_count(count),
        stands_at(s, from, count),
        from + count.len() < s.len() ==> !is_digit(s[from + count.len()]),
        forall|i: int| from <= i < end ==> is_digit(#[trigger] s[i]),
        end < s.len() ==> !is_digit(s[end]),
    ensures
        end == from + count.len(),
{
    let k = from + count.len();
    if end < k {
        assert(s[end] == s.subrange(from, k)[end - from]);
        assert(is_digit(count[end - from]));
    }
    if end > k {
        assert(is_digit(s[k]));
    }
}

/// Whether a count of warnings fills `s` from `from` on, with its digits
/// ending at `digits_end`.
spec fn warnings_shape(s: Seq<char>, from: int, digits_end: int, many: bool) -> bool {
    let noun_end = digits_end + " warning"@.len();
    let plural_end = noun_end + plural(many).len();
    &&& 0 <= from < digits_end
    &&& forall|i: int| from <= i < digits_end ==> is_digit(#[trigger] s[i])
    &&& stands_at(s, digits_end, " warning"@)
    &&& stands_at(s, noun_end, plural(many))
    &&& stands_at(s, plural_end, " emitted"@)
    &&& s.len() == plural_end + " emitted"@.len()
}

/// What has the shape of a count of warnings is one.
proof fn lemma_shape_is_warnings_line(s: Seq<char>, from: int, digits_end: int, many: bool)
    requires
        warnings_shape(s, from, digits_end, many),
    ensures
        is_warnings_line(s.skip(from)),
{
    let noun_end = digits_end + " warning"@.len();
    let plural_end = noun_end + plural(many).len();
    let count = s.subrange(from, digits_end);
    assert(is_count(count));
    assert(s.skip(from) =~= count + s.subrange(digits_end, noun_end) + s.subrange(
        noun_end,
        plural_end,
    ) + s.subrange(plural_end, s.len() as int));
    assert(s.skip(from) == warnings_line(count, many));
}

/// A count of warnings has the shape of one, with its digits ending where
/// the digits at its start end.
proof fn lemma_warnings_line_shape(s: Seq<char>, from: int, digits_end: int) -> (many: bool)
    requires
        0 <= from <= digits_end <= s.len(),
        is_warnings_line(s.skip(from)),
        forall|i: int| from <= i < digits_end ==> is_digit(#[trigger] s[i]),
        digits_end < s.len() ==> !is_digit(s[digits_end]),
    ensures
        warnings_shape(s, from, digits_end, many),
{
    let t = s.skip(from);
    let (count, many) = choose|count: Seq<char>, many: bool|
        is_count(count) && t == warnings_line(count, many);
    let c = count.len() as int;
    let w = " warning"@;
    let e = " emitted"@;
    assert(w.len() == 8 && w[0] == ' ') by {
        reveal_strlit(" warning");
    }
    assert(t.subrange(0, c) =~= count);
    assert(t.subrange(c, c + w.len()) =~= w);
    assert(t.subrange(c + w.len(), c + w.len() + plural(many).len()) =~= plural(many));
    assert(t.subrange(c + w.len() + plural(many).len(), t.len() as int) =~= e);
    assert(t[c] == w[0]);
    lemma_stands_at_skip(s, from, 0, count);
    lemma_stands_at_skip(s, from, c, w);
    lemma_stands_at_skip(s, from, c + w.len(), plural(many));
    lemma_stands_at_skip(s, from, c + w.len() + plural(many).len(), e);
    assert(s[from + c] == t[c]);
    lemma_count_ends(s, from, count, digits_end);
    many
}

/// The plural of a count of warnings shows in the letter after the noun.
proof fn lemma_warnings_plural(s: Seq<char>, from: int, digits_end: int, many: bool)
    requires
        warnings_shape(s, from, digits_end, many),
    ensures
        many == (s[digits_end + " warning"@.len()] == 's'),
{
    reveal_strlit("s");
    reveal_strlit(" emitted");
    let q = digits_end + " warning"@.len();
    if many {
        assert(s.subrange(q, q + 1)[0] == 's');
    } else {
        assert(s.subrange(q, q + 8)[0] == ' ');
    }
}

/// Whether a count of warnings, and nothing more, starts at `from`.
fn warnings_from(v: &Vec<char>, from: usize) -> (b: bool)
    requires
        from <= v@.len(),
    ensures
        b == is_warnings_line(v@.skip(from as int)),
{
    let digits_end = scan_digits(v, from);
    if digits_end == from {
        proof {
            if is_warnings_line(v@.skip(from as int)) {
                lemma_warnings_line_shape(v@, from as int, digits_end as int);
            }
        }
        return false;
    }
    let noun_end = match scan_literal(v, digits_end, " warning") {
        Some(end) => end,
        None => {
            proof {
                if is_warnings_line(v@.skip(from as int)) {
                    lemma_warnings_line_shape(v@, from as int, digits_end as int);
                }
            }
            return false;
        },
    };
    let many = noun_end < v.len() && v[noun_end] == 's';
    let plural_end = if many {
        noun_end + 1
    } else {
        noun_end
    };
    let b = match scan_literal(v, plural_end, " emitted") {
        Some(end) => end == v.len(),
        None => false,
    };
    proof {
        reveal_strlit("s");
        if many {
            assert(v@.subrange(noun_end as int, noun_end + 1) =~= "s"@);
        } else {
            assert(v@.subrange(noun_end as int, noun_end as int) =~= Seq::<char>::empty());
        }
        assert(b == warnings_shape(v@, from as int, digits_end as int, many));
        if b {
            lemma_shape_is_warnings_line(v@, from as int, digits_end as int, many);
        }
        if is_warnings_line(v@.skip(from as int)) {
            let m = lemma_warnings_line_shape(v@, from as int, digits_end as int);
            lemma_warnings_plural(v@, from as int, digits_end as int, m);
        }
    }
    b
}

/// Whether a count of errors fills `s` up to `end`, with its digits ending
/// at `digits_end`.
spec fn abort_shape(s: Seq<char>, digits_end: int, many: bool, end: int) -> bool {
    let from = "aborting due to "@.len() as int;
    let noun_end = digits_end + " previous error"@.len();
    &&& stands_at(s, 0, "aborting due to "@)
    &&& from < digits_end
    &&& forall|i: int| from <= i < digits_end ==> is_digit(#[trigger] s[i])
    &&& stands_at(s, digits_end, " previous error"@)
    &&& stands_at(s, noun_end, plural(many))
    &&& end == noun_end + plural(many).len()
    &&& end <= s.len()
}

/// What has the shape of a count of errors is one.
proof fn lemma_shape_is_abort_line(s: Seq<char>, digits_end: int, many: bool, end: int)
    requires
        abort_shape(s, digits_end, many, end),
    ensures
        is_abort_line(s.take(end)),
{
    let from = "aborting due to "@.len() as int;
    let noun_end = digits_end + " previous error"@.len();
    let count = s.subrange(from, digits_end);
    assert(is_count(count));
    assert(s.take(end) =~= s.subrange(0, from) + count + s.subrange(digits_end, noun_end)
        + s.subrange(noun_end, end));
    assert(s.take(end) == abort_line(count, many));
}

/// A count of errors at the start of `s` has the shape of one, with its
/// digits ending where the digits after `aborting due to ` end.
proof fn lemma_abort_line_shape(s: Seq<char>, digits_end: int, end: int) -> (many: bool)
    requires
        0 <= end <= s.len(),
        is_abort_line(s.take(end)),
        "aborting due to "@.len() <= digits_end <= s.len(),
        forall|i: int| "aborting due to "@.len() <= i < digits_end ==> is_digit(#[trigger] s[i]),
        digits_end < s.len() ==> !is_digit(s[digits_end]),
    ensures
        abort_shape(s, digits_end, many, end),
{
    let t = s.take(end);
    let (count, many) = choose|count: Seq<char>, many: bool|
        is_count(count) && t == abort_line(count, many);
    let c = count.len() as int;
    let a = "aborting due to "@;
    let from = a.len() as int;
    let n = " previous error"@;
    assert(n.len() == 15 && n[0] == ' ') by {
        reveal_strlit(" previous error");
    }
    assert(t.subrange(0, from) =~= a);
    assert(t.subrange(from, from + c) =~= count);
    assert(t.subrange(from + c, from + c + n.len()) =~= n);
    assert(t.subrange(from + c + n.len(), t.len() as int) =~= plural(many));
    assert(t[from + c] == n[0]);
    assert(s.subrange(0, from) =~= t.subrange(0, from));
    assert(s.subrange(from, from + c) =~= t.subrange(from, from + c));
    assert(s.subrange(from + c, from + c + n.len()) =~= t.subrange(from + c, from + c + n.len()));
    assert(s.subrange(from + c + n.len(), end) =~= t.subrange(
        from + c + n.len(),
        t.len() as int,
    ));
    assert(s[from + c] == t[from + c]);
    lemma_count_ends(s, from, count, digits_end);
    many
}

/// The plural of a count of errors shows in the letter after the noun, where
/// the count ends the text or `;` follows it.
proof fn lemma_abort_plural(s: Seq<char>, digits_end: int, many: bool, end: int)
    requires
        abort_shape(s, digits_end, many, end),
        end == s.len() || s[end] == ';',
    ensures
        ({
            let noun_end = digits_end + " previous error"@.len();
            many == (noun_end < s.len() && s[noun_end] == 's')
        }),
{
    reveal_strlit("s");
    let noun_end = digits_end + " previous error"@.len();
    if many {
        assert(s.subrange(noun_end, noun_end + 1)[0] == 's');
    }
}

/// A summary is at least as long as `1 warning emitted`, and starts with a
/// digit or with the `a` of `aborting`.
pub proof fn lemma_summary_start(m: Seq<char>)
    requires
        is_summary(m),
    ensures
        m.len() >= 17,
        is_digit(m[0]) || m[0] == 'a',
{
    reveal_strlit(" warning");
    reveal_strlit(" emitted");
    reveal_strlit("aborting due to ");
    reveal_strlit(" previous error");
    if is_warnings_line(m) {
        let (count, many) = choose|count: Seq<char>, many: bool|
            is_count(count) && m == warnings_line(count, many);
        assert(m[0] == count[0]);
    } else {
        let head = if is_abort_line(m) {
            m
        } else {
            let (head, tail) = choose|head: Seq<char>, tail: Seq<char>|
                is_abort_line(head) && is_warnings_line(tail) && m == head + "; "@ + tail;
            head
        };
        let (count, many) = choose|count: Seq<char>, many: bool|
            is_count(count) && head == abort_line(count, many);
        assert(head[0] == "aborting due to "@[0]);
        assert(m[0] == head[0]);
    }
}

/// Whether what follows `end` lets a count of errors that ends there make a
/// summary: nothing, or `; ` and a count of warnings.
spec fn summary_tail(m: Seq<char>, end: int) -> bool {
    end == m.len() || (stands_at(m, end, "; "@) && is_warnings_line(m.skip(end + "; "@.len())))
}

/// What a summary that is no count of warnings alone looks like: a count of
/// errors stands at its start, and either ends it or is followed by `; ` and a
/// count of warnings. `digits_end` is where the digits after `aborting due
/// to ` end.
proof fn lemma_is_summary_cases(m: Seq<char>, digits_end: int)
    requires
        is_summary(m),
        !is_warnings_line(m),
        stands_at(m, 0, "aborting due to "@) ==> {
            &&& "aborting due to "@.len() <= digits_end <= m.len()
            &&& forall|i: int|
                "aborting due to "@.len() <= i < digits_end ==> is_digit(#[trigger] m[i])
            &&& digits_end < m.len() ==> !is_digit(m[digits_end])
        },
    ensures
        ({
            let noun_end = digits_end + " previous error"@.len();
            let many = noun_end < m.len() && m[noun_end] == 's';
            let end = noun_end + plural(many).len();
            &&& abort_shape(m, digits_end, many, end)
            &&& summary_tail(m, end)
        }),
{
    let sep = "; "@;
    assert(sep.len() == 2 && sep[0] == ';') by {
        reveal_strlit("; ");
    }
    let (head, tail) = if is_abort_line(m) {
        (m, Seq::<char>::empty())
    } else {
        let (head, tail) = choose|head: Seq<char>, tail: Seq<char>|
            is_abort_line(head) && is_warnings_line(tail) && m == head + "; "@ + tail;
        (head, tail)
    };
    let h = head.len() as int;
    assert(m.take(h) =~= head);
    let a = "aborting due to "@;
    let (count, some) = choose|count: Seq<char>, many: bool|
        is_count(count) && head == abort_line(count, many);
    assert(head.subrange(0, a.len() as int) =~= a);
    assert(m.subrange(0, a.len() as int) =~= head.subrange(0, a.len() as int));
    let many = lemma_abort_line_shape(m, digits_end, h);
    if !is_abort_line(m) {
        assert(m[h] == sep[0]);
        assert(m.subrange(h, h + 2) =~= sep);
        assert(m.skip(h + 2) =~= tail);
    }
    lemma_abort_plural(m, digits_end, many, h);
}

/// The end of the count of errors that stands at the start of `v`, if one
/// does. A summary that is more than a count of warnings starts with one.
fn abort_end(v: &Vec<char>) -> (r: Option<usize>)
    ensures
        r matches Some(end) ==> end <= v@.len() && is_abort_line(v@.take(end as int)),
        is_summary(v@) && !is_warnings_line(v@) ==> (r matches Some(end) && summary_tail(
            v@,
            end as int,
        )),
{
    let ghost m = v@;
    let from = match scan_literal(v, 0, "aborting due to ") {
        Some(end) => end,
        None => {
            proof {
                if is_summary(m) && !is_warnings_line(m) {
                    lemma_is_summary_cases(m, m.len() as int);
                }
            }
            return None;
        },
    };
    let digits_end = scan_digits(v, from);
    proof {
        if is_summary(m) && !is_warnings_line(m) {
            lemma_is_summary_cases(m, digits_end as int);
        }
    }
    if digits_end == from {
        return None;
    }
    let noun_end = match scan_literal(v, digits_end, " previous error") {
        Some(end) => end,
        None => {
            return None;
        },
    };
    let many = noun_end < v.len() && v[noun_end] == 's';
    let end = if many {
        noun_end + 1
    } else {
        noun_end
    };
    proof {
        reveal_strlit("s");
        if many {
            assert(m.subrange(noun_end as int, noun_end + 1) =~= "s"@);
        } else {
            assert(m.subrange(noun_end as int, noun_end as int) =~= Seq::<char>::empty());
        }
        assert(abort_shape(m, digits_end as int, many, end as int));
        lemma_shape_is_abort_line(m, digits_end as int, many, end as int);
    }
    Some(end)
}

/// Tells whether the whole message is an end-of-run summary: `aborting due
/// to <N> previous error`, `<M> warning emitted`, or the first, `; ` and the
/// second, each noun with or without its plural `s`, each count made of one
/// or more of the digits `0` to `9`.
pub fn is_summary_line(message: &str) -> (b: bool)
    ensures
        b == is_summary(message@),
{
    let v = chars_of(message);
    let ghost m = v@;
    assert(m.skip(0) =~= m);
    if warnings_from(&v, 0) {
        return true;
    }
    let end = match abort_end(&v) {
        Some(end) => end,
        None => {
            return false;
        },
    };
    if end == v.len() {
        assert(m.take(end as int) =~= m);
        return true;
    }
    let tail_from = match scan_literal(&v, end, "; ") {
        Some(tail_from) => tail_from,
        None => {
            return false;
        },
    };
    let b = warnings_from(&v, tail_from);
    proof {
        if b {
            assert(m =~= m.take(end as int) + "; "@ + m.skip(tail_from as int));
        }
    }
    b
}

} // verus!

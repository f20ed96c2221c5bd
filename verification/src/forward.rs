//! Forwarding of upstream metric lines: the cached text is split at
//! newlines; each line is trimmed; lines that are then empty or start with
//! `#` are dropped; the rest are forwarded in their original order, each
//! terminated by one newline.

use vstd::prelude::*;
use vstd::string::{StrSliceExecFns, StringExecFns};
use crate::text::{is_ws, is_whitespace_char};

verus! {

/// Index of the first non-whitespace character, or the length if none.
pub open spec fn first_non_ws(t: Seq<char>) -> int
    decreases t.len(),
{
    if t.len() == 0 {
        0
    } else if !is_ws(t[0]) {
        0
    } else {
        1 + first_non_ws(t.drop_first())
    }
}

/// One past the index of the last non-whitespace character, or zero if none.
pub open spec fn last_non_ws_end(t: Seq<char>) -> int
    decreases t.len(),
{
    if t.len() == 0 {
        0
    } else if !is_ws(t.last()) {
        t.len() as int
    } else {
        last_non_ws_end(t.drop_last())
    }
}

/// The line with surrounding whitespace stripped.
pub open spec fn trim_spec(t: Seq<char>) -> Seq<char> {
    if first_non_ws(t) < last_non_ws_end(t) {
        t.subrange(first_non_ws(t), last_non_ws_end(t))
    } else {
        Seq::empty()
    }
}

/// A trimmed line is forwarded when it is non-empty and is not a comment.
pub open spec fn keep_line(t: Seq<char>) -> bool {
    t.len() > 0 && t[0] != '#'
}

/// What one source line contributes to the output: its trimmed form and a
/// newline if it is kept, nothing otherwise.
pub open spec fn emit_line(line: Seq<char>) -> Seq<char> {
    if keep_line(trim_spec(line)) {
        trim_spec(line) + "\n"@
    } else {
        Seq::empty()
    }
}

/// The forwarded text of `s`, with `cur` the part of the current line read
/// so far: lines are closed at `'\n'` and each contributes `emit_line`.
pub open spec fn forward_from(s: Seq<char>, cur: Seq<char>) -> Seq<char>
    decreases s.len(),
{
    if s.len() == 0 {
        emit_line(cur)
    } else if s[0] == '\n' {
        emit_line(cur) + forward_from(s.drop_first(), Seq::empty())
    } else {
        forward_from(s.drop_first(), cur.push(s[0]))
    }
}

/// The forwarded section produced from the cached upstream text.
pub open spec fn forward_spec(s: Seq<char>) -> Seq<char> {
    forward_from(s, Seq::empty())
}

proof fn lemma_first_non_ws_bounds(t: Seq<char>)
    ensures
        0 <= first_non_ws(t) <= t.len(),
        forall|m: int| 0 <= m < first_non_ws(t) ==> is_ws(t[m]),
        first_non_ws(t) < t.len() ==> !is_ws(t[first_non_ws(t)]),
    decreases t.len(),
{
    if t.len() == 0 || !is_ws(t[0]) {
    } else {
        lemma_first_non_ws_bounds(t.drop_first());
        assert forall|m: int| 0 <= m < first_non_ws(t) implies is_ws(t[m]) by {
            if m > 0 {
                assert(t.drop_first()[m - 1] == t[m]);
            }
        }
        if first_non_ws(t) < t.len() {
            assert(t.drop_first()[first_non_ws(t) - 1] == t[first_non_ws(t)]);
        }
    }
}

proof fn lemma_first_non_ws_is(t: Seq<char>, k: int)
    requires
        0 <= k <= t.len(),
        forall|m: int| 0 <= m < k ==> is_ws(t[m]),
        k < t.len() ==> !is_ws(t[k]),
    ensures
        first_non_ws(t) == k,
    decreases t.len(),
{
    if t.len() == 0 {
    } else if !is_ws(t[0]) {
        assert(k == 0);
    } else {
        assert(k != 0);
        let d = t.drop_first();
        assert forall|m: int| 0 <= m < k - 1 implies is_ws(d[m]) by {
            assert(d[m] == t[m + 1]);
        }
        if k - 1 < d.len() {
            assert(d[k - 1] == t[k]);
        }
        lemma_first_non_ws_is(d, k - 1);
    }
}

proof fn lemma_last_non_ws_end_bounds(t: Seq<char>)
    ensures
        0 <= last_non_ws_end(t) <= t.len(),
        forall|m: int| last_non_ws_end(t) <= m < t.len() ==> is_ws(t[m]),
        last_non_ws_end(t) > 0 ==> !is_ws(t[last_non_ws_end(t) - 1]),
    decreases t.len(),
{
    if t.len() == 0 || !is_ws(t.last()) {
    } else {
        lemma_last_non_ws_end_bounds(t.drop_last());
        assert forall|m: int| last_non_ws_end(t) <= m < t.len() implies is_ws(t[m]) by {
            if m < t.len() - 1 {
                assert(t.drop_last()[m] == t[m]);
            }
        }
        if last_non_ws_end(t) > 0 {
            assert(t.drop_last()[last_non_ws_end(t) - 1] == t[last_non_ws_end(t) - 1]);
        }
    }
}

proof fn lemma_last_non_ws_end_is(t: Seq<char>, k: int)
    requires
        0 <= k <= t.len(),
        forall|m: int| k <= m < t.len() ==> is_ws(t[m]),
        k > 0 ==> !is_ws(t[k - 1]),
    ensures
        last_non_ws_end(t) == k,
    decreases t.len(),
{
    if t.len() == 0 {
    } else if !is_ws(t.last()) {
        assert(k == t.len());
    } else {
        assert(k != t.len());
        let d = t.drop_last();
        assert forall|m: int| k <= m < d.len() implies is_ws(d[m]) by {
            assert(d[m] == t[m]);
        }
        if k > 0 {
            assert(d[k - 1] == t[k - 1]);
        }
        lemma_last_non_ws_end_is(d, k);
    }
}

/// Trimming is idempotent.
proof fn lemma_trim_idempotent(t: Seq<char>)
    ensures
        trim_spec(trim_spec(t)) == trim_spec(t),
{
    lemma_first_non_ws_bounds(t);
    lemma_last_non_ws_end_bounds(t);
    let a = first_non_ws(t);
    let b = last_non_ws_end(t);
    if a < b {
        let u = t.subrange(a, b);
        assert(u[0] == t[a]);
        assert(u.last() == t[b - 1]);
        assert(!is_ws(u[0]));
        assert(!is_ws(u.last()));
        lemma_first_non_ws_is(u, 0);
        lemma_last_non_ws_end_is(u, u.len() as int);
        assert(trim_spec(u) =~= u);
    } else {
        lemma_first_non_ws_is(Seq::empty(), 0);
        lemma_last_non_ws_end_is(Seq::empty(), 0);
        assert(trim_spec(Seq::<char>::empty()) =~= Seq::<char>::empty());
    }
}

/// If the rest of the input holds no newline, it all belongs to the current
/// line, and that line is the last one.
proof fn lemma_forward_from_whole(s: Seq<char>, cur: Seq<char>)
    requires
        forall|m: int| 0 <= m < s.len() ==> s[m] != '\n',
    ensures
        forward_from(s, cur) == emit_line(cur + s),
    decreases s.len(),
{
    if s.len() == 0 {
        assert(cur + s =~= cur);
    } else {
        let d = s.drop_first();
        assert forall|m: int| 0 <= m < d.len() implies d[m] != '\n' by {
            assert(d[m] == s[m + 1]);
        }
        lemma_forward_from_whole(d, cur.push(s[0]));
        assert(cur.push(s[0]) + d =~= cur + s);
    }
}

/// Splitting at the first newline: the text before it closes the current
/// line, and the rest starts fresh.
proof fn lemma_forward_from_split(s: Seq<char>, cur: Seq<char>, k: int)
    requires
        0 <= k < s.len(),
        s[k] == '\n',
        forall|m: int| 0 <= m < k ==> s[m] != '\n',
    ensures
        forward_from(s, cur) == emit_line(cur + s.subrange(0, k)) + forward_from(
            s.subrange(k + 1, s.len() as int),
            Seq::empty(),
        ),
    decreases k,
{
    if k == 0 {
        assert(cur + s.subrange(0, 0) =~= cur);
        assert(s.subrange(1, s.len() as int) =~= s.drop_first());
    } else {
        let d = s.drop_first();
        assert forall|m: int| 0 <= m < k - 1 implies d[m] != '\n' by {
            assert(d[m] == s[m + 1]);
        }
        assert(d[k - 1] == s[k]);
        lemma_forward_from_split(d, cur.push(s[0]), k - 1);
        assert(cur.push(s[0]) + d.subrange(0, k - 1) =~= cur + s.subrange(0, k));
        assert(d.subrange(k, d.len() as int) =~= s.subrange(k + 1, s.len() as int));
    }
}

/// The input split at newlines, one entry per line, with `cur` the part of
/// the current line read so far.
pub open spec fn lines_from(s: Seq<char>, cur: Seq<char>) -> Seq<Seq<char>>
    decreases s.len(),
{
    if s.len() == 0 {
        seq![cur]
    } else if s[0] == '\n' {
        seq![cur] + lines_from(s.drop_first(), Seq::empty())
    } else {
        lines_from(s.drop_first(), cur.push(s[0]))
    }
}

/// The input split at newlines.
pub open spec fn spec_lines(s: Seq<char>) -> Seq<Seq<char>> {
    lines_from(s, Seq::empty())
}

/// Trimming, as a function value.
pub open spec fn trim_fn() -> spec_fn(Seq<char>) -> Seq<char> {
    |l: Seq<char>| trim_spec(l)
}

/// The keep test, as a function value.
pub open spec fn keep_fn() -> spec_fn(Seq<char>) -> bool {
    |t: Seq<char>| keep_line(t)
}

/// The lines of `s` that are forwarded: each line trimmed, and the lines
/// that are then empty or comments dropped. Filtering keeps the original
/// order.
pub open spec fn kept_lines(s: Seq<char>) -> Seq<Seq<char>> {
    spec_lines(s).map_values(trim_fn()).filter(keep_fn())
}

/// The given lines, each terminated by one newline.
pub open spec fn join_lines(ls: Seq<Seq<char>>) -> Seq<char>
    decreases ls.len(),
{
    if ls.len() == 0 {
        Seq::empty()
    } else {
        (ls[0] + "\n"@) + join_lines(ls.drop_first())
    }
}

proof fn lemma_join_single(l: Seq<char>)
    ensures
        join_lines(seq![trim_spec(l)].filter(keep_fn())) == emit_line(l),
{
    reveal_with_fuel(Seq::<_>::filter, 3);
    let m = seq![trim_spec(l)];
    assert(m.drop_last() =~= Seq::<Seq<char>>::empty());
    assert(m.last() == trim_spec(l));
    if keep_line(trim_spec(l)) {
        assert(m.filter(keep_fn()) =~= seq![trim_spec(l)]);
        assert(seq![trim_spec(l)].drop_first() =~= Seq::<Seq<char>>::empty());
        assert(join_lines(Seq::<Seq<char>>::empty()) =~= Seq::<char>::empty());
        assert(join_lines(seq![trim_spec(l)]) =~= (trim_spec(l) + "\n"@) + join_lines(
            seq![trim_spec(l)].drop_first(),
        ));
        assert(join_lines(m.filter(keep_fn())) =~= trim_spec(l) + "\n"@);
    } else {
        assert(m.filter(keep_fn()) =~= Seq::<Seq<char>>::empty());
    }
}

proof fn lemma_join_lines_add(x: Seq<Seq<char>>, y: Seq<Seq<char>>)
    ensures
        join_lines(x + y) == join_lines(x) + join_lines(y),
    decreases x.len(),
{
    if x.len() == 0 {
        assert(x + y =~= y);
        assert(Seq::<char>::empty() + join_lines(y) =~= join_lines(y));
    } else {
        assert((x + y)[0] == x[0]);
        assert((x + y).drop_first() =~= x.drop_first() + y);
        lemma_join_lines_add(x.drop_first(), y);
        assert((x[0] + "\n"@) + (join_lines(x.drop_first()) + join_lines(y)) =~= ((x[0] + "\n"@)
            + join_lines(x.drop_first())) + join_lines(y));
    }
}

proof fn lemma_forward_from_join(s: Seq<char>, cur: Seq<char>)
    ensures
        forward_from(s, cur) == join_lines(
            lines_from(s, cur).map_values(trim_fn()).filter(keep_fn()),
        ),
    decreases s.len(),
{
    if s.len() == 0 {
        assert(seq![cur].map_values(trim_fn()) =~= seq![trim_spec(cur)]);
        lemma_join_single(cur);
    } else if s[0] == '\n' {
        lemma_forward_from_join(s.drop_first(), Seq::empty());
        let rest = lines_from(s.drop_first(), Seq::empty());
        assert((seq![cur] + rest).map_values(trim_fn()) =~= seq![trim_spec(cur)]
            + rest.map_values(trim_fn()));
        Seq::filter_distributes_over_add(
            seq![trim_spec(cur)],
            rest.map_values(trim_fn()),
            keep_fn(),
        );
        lemma_join_lines_add(
            seq![trim_spec(cur)].filter(keep_fn()),
            rest.map_values(trim_fn()).filter(keep_fn()),
        );
        lemma_join_single(cur);
    } else {
        lemma_forward_from_join(s.drop_first(), cur.push(s[0]));
    }
}

proof fn lemma_trimmed_kept_elts(ls: Seq<Seq<char>>)
    ensures
        forall|i: int|
            0 <= i < ls.map_values(trim_fn()).filter(keep_fn()).len() ==> keep_line(
                #[trigger] ls.map_values(trim_fn()).filter(keep_fn())[i],
            ) && trim_spec(ls.map_values(trim_fn()).filter(keep_fn())[i]) == ls.map_values(
                trim_fn(),
            ).filter(keep_fn())[i],
    decreases ls.len(),
{
    reveal_with_fuel(Seq::<_>::filter, 2);
    let m = ls.map_values(trim_fn());
    if ls.len() == 0 {
        assert(m.len() == 0);
    } else {
        lemma_trimmed_kept_elts(ls.drop_last());
        assert(m.drop_last() =~= ls.drop_last().map_values(trim_fn()));
        assert(m.last() == trim_spec(ls.last()));
        lemma_trim_idempotent(ls.last());
        let f = m.filter(keep_fn());
        let fd = m.drop_last().filter(keep_fn());
        if keep_line(m.last()) {
            assert(f == fd.push(m.last()));
        } else {
            assert(f == fd);
        }
    }
}

/// What the forwarded section is, line by line: exactly the source lines
/// that remain after trimming and after dropping empty and comment lines,
/// in their original order, each terminated by one newline — and every
/// forwarded line is non-empty, does not start with `#`, and carries no
/// surrounding whitespace.
pub proof fn lemma_forward_is_kept_lines(s: Seq<char>)
    ensures
        forward_spec(s) == join_lines(kept_lines(s)),
        forall|i: int|
            0 <= i < kept_lines(s).len() ==> keep_line(#[trigger] kept_lines(s)[i]) && trim_spec(
                kept_lines(s)[i],
            ) == kept_lines(s)[i],
{
    lemma_forward_from_join(s, Seq::empty());
    lemma_trimmed_kept_elts(spec_lines(s));
}

/// Append the forwarded section of `s` to `out`: every line of `s`, trimmed,
/// skipped when empty or a comment, otherwise followed by one newline.
#[verifier::rlimit(60)]
pub fn append_forwarded_lines(out: &mut String, s: &str)
    ensures
        final(out)@ == old(out)@ + forward_spec(s@),
{
    let ghost orig = out@;
    let n = s.unicode_len();
    let mut i: usize = 0;
    proof {
        assert(s@.subrange(0, n as int) =~= s@);
    }
    while i < n
        invariant
            n == s@.len(),
            0 <= i <= n,
            out@ + forward_spec(s@.subrange(i as int, n as int)) == orig + forward_spec(s@),
        decreases n - i,
    {
        let ghost out0 = out@;
        let ghost rem = s@.subrange(i as int, n as int);
        let ghost line_start = i;

        // Find the end of the line that starts at `i`.
        let mut j: usize = i;
        while j < n && s.get_char(j) != '\n'
            invariant
                n == s@.len(),
                i <= j <= n,
                forall|m: int| i <= m < j ==> s@[m] != '\n',
            decreases n - j,
        {
            j = j + 1;
        }
        let ghost line = s@.subrange(i as int, j as int);

        // Trim bounds of that line.
        let mut a: usize = i;
        while a < j && is_whitespace_char(s.get_char(a))
            invariant
                n == s@.len(),
                j <= n,
                i <= a <= j,
                forall|m: int| i <= m < a ==> is_ws(s@[m]),
            decreases j - a,
        {
            a = a + 1;
        }
        let mut b: usize = j;
        while b > a && is_whitespace_char(s.get_char(b - 1))
            invariant
                n == s@.len(),
                j <= n,
                a <= b <= j,
                forall|m: int| b <= m < j ==> is_ws(s@[m]),
            decreases b,
        {
            b = b - 1;
        }

        proof {
            // Peel the first line off the remaining text.
            if j < n {
                assert(rem[(j - i) as int] == s@[j as int]);
                assert forall|m: int| 0 <= m < j - i implies rem[m] != '\n' by {
                    assert(rem[m] == s@[i + m]);
                }
                lemma_forward_from_split(rem, Seq::empty(), (j - i) as int);
                assert(Seq::empty() + rem.subrange(0, (j - i) as int) =~= line);
                assert(rem.subrange((j - i + 1) as int, rem.len() as int) =~= s@.subrange(
                    (j + 1) as int,
                    n as int,
                ));
            } else {
                assert forall|m: int| 0 <= m < rem.len() implies rem[m] != '\n' by {
                    assert(rem[m] == s@[i + m]);
                }
                lemma_forward_from_whole(rem, Seq::empty());
                assert(Seq::empty() + rem =~= line);
            }
            // Identify the trim bounds of the line.
            assert forall|m: int| 0 <= m < a - i implies is_ws(line[m]) by {
                assert(line[m] == s@[i + m]);
            }
            if a < j {
                assert(line[(a - i) as int] == s@[a as int]);
            }
            lemma_first_non_ws_is(line, a - i);
            lemma_last_non_ws_end_bounds(line);
            if a < b {
                assert forall|m: int| b - i <= m < line.len() implies is_ws(line[m]) by {
                    assert(line[m] == s@[i + m]);
                }
                assert(line[(b - i - 1) as int] == s@[(b - 1) as int]);
                lemma_last_non_ws_end_is(line, b - i);
                assert(trim_spec(line) =~= s@.subrange(a as int, b as int));
            } else {
                // The whole line is whitespace (or empty): nothing is kept.
                assert(a == j);
                assert(first_non_ws(line) == line.len());
                assert(emit_line(line) =~= Seq::<char>::empty());
            }
        }

        if b > a {
            let c0 = s.get_char(a);
            if c0 != '#' {
                let piece = s.substring_char(a, b);
                out.append(piece);
                out.append("\n");
                proof {
                    assert(trim_spec(line)[0] == s@[a as int]);
                    assert(keep_line(trim_spec(line)));
                    assert(out@ =~= out0 + emit_line(line));
                }
            } else {
                proof {
                    assert(trim_spec(line)[0] == '#');
                    assert(emit_line(line) =~= Seq::<char>::empty());
                    assert(out@ =~= out0 + emit_line(line));
                }
            }
        } else {
            proof {
                assert(out@ =~= out0 + emit_line(line));
            }
        }

        proof {
            if j < n {
                let rest = s@.subrange((j + 1) as int, n as int);
                assert(forward_spec(rem) == emit_line(line) + forward_spec(rest));
                assert(out@ + forward_spec(rest) =~= out0 + forward_spec(rem));
            } else {
                assert(forward_spec(rem) == emit_line(line));
                assert(s@.subrange(n as int, n as int) =~= Seq::<char>::empty());
                assert(forward_spec(Seq::<char>::empty()) =~= Seq::<char>::empty());
                assert(out@ + forward_spec(s@.subrange(n as int, n as int)) =~= out0
                    + forward_spec(rem));
            }
        }
        i = if j < n {
            j + 1
        } else {
            n
        };
    }
    proof {
        assert(s@.subrange(n as int, n as int) =~= Seq::<char>::empty());
        assert(forward_spec(Seq::<char>::empty()) =~= Seq::<char>::empty());
        assert(out@ =~= out@ + forward_spec(s@.subrange(n as int, n as int)));
    }
}

} // verus!

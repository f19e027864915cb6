//! Text as a sequence of lines.
//!
//! A text is cut at each line feed. What stands between two cuts is a line; the line
//! feeds themselves belong to no line.

use vstd::prelude::*;

verus! {

/// The lines of `t`, in order, without their line feeds.
///
/// A line feed ends the line before it, so a text that ends in a line feed has no empty
/// line after it, and the empty text has no line at all.
pub open spec fn lines(t: Seq<char>) -> Seq<Seq<char>>
    decreases t.len(),
{
    if t.len() == 0 {
        Seq::empty()
    } else {
        let rest = lines(t.drop_first());
        if t[0] == '\n' {
            seq![Seq::empty()] + rest
        } else if rest.len() == 0 {
            seq![seq![t[0]]]
        } else {
            seq![seq![t[0]] + rest[0]] + rest.drop_first()
        }
    }
}

/// Whether `v` holds no line feed.
pub open spec fn single_line(v: Seq<char>) -> bool {
    forall|i: int| 0 <= i < v.len() ==> v[i] != '\n'
}

/// Whether `t` is empty or ends in a line feed, so that text put after it starts a new
/// line.
pub open spec fn terminated(t: Seq<char>) -> bool {
    t.len() == 0 || t.last() == '\n'
}

/// Whether line `k` of `t` exists and starts with `p`.
pub open spec fn line_starts(t: Seq<char>, p: Seq<char>, k: int) -> bool {
    0 <= k < lines(t).len() && p.is_prefix_of(lines(t)[k])
}

/// Whether some line of `t` starts with `p`.
pub open spec fn has_line_starting(t: Seq<char>, p: Seq<char>) -> bool {
    exists|k: int| line_starts(t, p, k)
}

/// Whether `v` holds a line feed at `i` with `p` directly after it.
pub open spec fn breaks_at(v: Seq<char>, p: Seq<char>, i: int) -> bool {
    0 <= i < v.len() && v[i] == '\n' && p.is_prefix_of(v.skip(i + 1))
}

/// Whether `v` holds a line feed with `p` directly after it.
pub open spec fn breaks_into(v: Seq<char>, p: Seq<char>) -> bool {
    exists|i: int| breaks_at(v, p, i)
}

/// A text that is not empty has a line.
pub proof fn lemma_lines_nonempty(t: Seq<char>)
    requires
        t.len() > 0,
    ensures
        lines(t).len() > 0,
{
}

/// The lines of two texts put together are the lines of the first and then those of the
/// second, provided the first ends its last line.
pub proof fn lemma_lines_concat(x: Seq<char>, y: Seq<char>)
    requires
        terminated(x),
    ensures
        lines(x + y) == lines(x) + lines(y),
    decreases x.len(),
{
    if x.len() == 0 {
        assert(x + y =~= y);
        assert(lines(x) + lines(y) =~= lines(y));
    } else {
        let x1 = x.drop_first();
        assert((x + y).drop_first() =~= x1 + y);
        assert(x1.len() > 0 ==> x1.last() == x.last());
        lemma_lines_concat(x1, y);
        if x[0] == '\n' {
            assert(lines(x + y) =~= lines(x) + lines(y));
        } else {
            lemma_lines_nonempty(x1);
            assert(lines(x + y) =~= lines(x) + lines(y));
        }
    }
}

/// A text without a line feed, followed by one, is a single line.
pub proof fn lemma_lines_of_line(l: Seq<char>)
    requires
        single_line(l),
    ensures
        lines(l + seq!['\n']) == seq![l],
    decreases l.len(),
{
    let t = l + seq!['\n'];
    if l.len() == 0 {
        assert(t.drop_first() =~= Seq::<char>::empty());
        assert(l =~= Seq::<char>::empty());
        assert(lines(t.drop_first()).len() == 0);
        assert(lines(t) =~= seq![l]);
    } else {
        let l1 = l.drop_first();
        assert(t.drop_first() =~= l1 + seq!['\n']);
        lemma_lines_of_line(l1);
        assert(t[0] == l[0]);
        assert(seq![l[0]] + l1 =~= l);
        assert(lines(t) =~= seq![l]);
    }
}

/// A text starts `c` and then `s` exactly if its first character is `c` and the rest of it
/// starts `s`.
proof fn lemma_prefix_of_cons(p: Seq<char>, c: char, s: Seq<char>)
    requires
        p.len() > 0,
    ensures
        p.is_prefix_of(seq![c] + s) <==> (p[0] == c && p.drop_first().is_prefix_of(s)),
{
    let t = seq![c] + s;
    let p1 = p.drop_first();
    if p.is_prefix_of(t) {
        assert(p[0] == t.subrange(0, p.len() as int)[0]);
        assert forall|i: int| 0 <= i < p1.len() implies p1[i] == s.subrange(
            0,
            p1.len() as int,
        )[i] by {
            assert(p[i + 1] == t.subrange(0, p.len() as int)[i + 1]);
        }
        assert(p1 =~= s.subrange(0, p1.len() as int));
    }
    if p[0] == c && p1.is_prefix_of(s) {
        assert forall|i: int| 0 <= i < p.len() implies p[i] == t.subrange(0, p.len() as int)[i] by {
            if i > 0 {
                assert(p1[i - 1] == s.subrange(0, p1.len() as int)[i - 1]);
            }
        }
        assert(p =~= t.subrange(0, p.len() as int));
    }
}

/// The first line of a text starts with `p` exactly if the text does, for a `p` without a
/// line feed.
proof fn lemma_first_line_starts(t: Seq<char>, p: Seq<char>)
    requires
        t.len() > 0,
        single_line(p),
    ensures
        line_starts(t, p, 0) <==> p.is_prefix_of(t),
    decreases t.len(),
{
    let t1 = t.drop_first();
    let rest = lines(t1);
    lemma_lines_nonempty(t);
    assert(seq![t[0]] + t1 =~= t);
    if p.len() == 0 {
    } else if t[0] == '\n' {
        assert(lines(t)[0].len() == 0);
        if p.is_prefix_of(t) {
            assert(p[0] == t.subrange(0, p.len() as int)[0]);
        }
    } else if t1.len() == 0 {
        assert(lines(t)[0] =~= t);
    } else {
        lemma_lines_nonempty(t1);
        lemma_first_line_starts(t1, p.drop_first());
        lemma_prefix_of_cons(p, t[0], rest[0]);
        lemma_prefix_of_cons(p, t[0], t1);
    }
}

/// A line of a text after its first starts with `p` exactly if the text holds a line feed
/// with `p` directly after it, for a `p` that is not empty and holds no line feed.
proof fn lemma_later_line_starts(t: Seq<char>, p: Seq<char>)
    requires
        single_line(p),
        p.len() > 0,
    ensures
        (exists|k: int| 1 <= k && line_starts(t, p, k)) <==> breaks_into(t, p),
    decreases t.len(),
{
    if t.len() > 0 {
        let t1 = t.drop_first();
        let rest = lines(t1);
        lemma_later_line_starts(t1, p);
        assert forall|i: int| 1 <= i implies (breaks_at(t, p, i) <==> breaks_at(t1, p, i - 1)) by {
            if i < t.len() {
                assert(t.skip(i + 1) =~= t1.skip(i));
            }
        }
        assert(t.skip(1) =~= t1);
        if t[0] == '\n' {
            assert(lines(t) =~= seq![Seq::<char>::empty()] + rest);
            assert forall|k: int| 1 <= k implies (line_starts(t, p, k) <==> line_starts(
                t1,
                p,
                k - 1,
            )) by {}
            if t1.len() > 0 {
                lemma_first_line_starts(t1, p);
            }
            if exists|k: int| 1 <= k && line_starts(t, p, k) {
                let k = choose|k: int| 1 <= k && line_starts(t, p, k);
                assert(line_starts(t1, p, k - 1));
                if k == 1 {
                    assert(breaks_at(t, p, 0));
                } else {
                    let i = choose|i: int| breaks_at(t1, p, i);
                    assert(breaks_at(t, p, i + 1));
                }
            }
            if breaks_into(t, p) {
                let i = choose|i: int| breaks_at(t, p, i);
                if i == 0 {
                    assert(line_starts(t, p, 1));
                } else {
                    assert(breaks_at(t1, p, i - 1));
                    let k = choose|k: int| 1 <= k && line_starts(t1, p, k);
                    assert(line_starts(t, p, k + 1));
                }
            }
        } else if t1.len() == 0 {
            assert(lines(t).len() == 1);
            if breaks_into(t, p) {
                let i = choose|i: int| breaks_at(t, p, i);
                assert(i == 0);
            }
        } else {
            lemma_lines_nonempty(t1);
            assert(lines(t) =~= seq![seq![t[0]] + rest[0]] + rest.drop_first());
            assert forall|k: int| 1 <= k implies (line_starts(t, p, k) <==> line_starts(
                t1,
                p,
                k,
            )) by {}
            if exists|k: int| 1 <= k && line_starts(t, p, k) {
                let k = choose|k: int| 1 <= k && line_starts(t, p, k);
                assert(line_starts(t1, p, k));
                let i = choose|i: int| breaks_at(t1, p, i);
                assert(breaks_at(t, p, i + 1));
            }
            if breaks_into(t, p) {
                let i = choose|i: int| breaks_at(t, p, i);
                assert(breaks_at(t1, p, i - 1));
                let k = choose|k: int| 1 <= k && line_starts(t1, p, k);
                assert(line_starts(t, p, k));
            }
        }
    } else {
        assert(lines(t).len() == 0);
    }
}

/// Some line of a text starts with `p` exactly if the text itself does, or holds a line
/// feed with `p` directly after it; for a `p` that is not empty and holds no line feed.
pub proof fn lemma_line_starting(t: Seq<char>, p: Seq<char>)
    requires
        single_line(p),
        p.len() > 0,
    ensures
        has_line_starting(t, p) <==> p.is_prefix_of(t) || breaks_into(t, p),
{
    lemma_later_line_starts(t, p);
    if t.len() > 0 {
        lemma_first_line_starts(t, p);
    }
    if has_line_starting(t, p) {
        let k = choose|k: int| line_starts(t, p, k);
        if k != 0 {
            assert(1 <= k && line_starts(t, p, k));
        }
    }
    if p.is_prefix_of(t) {
        assert(line_starts(t, p, 0));
    }
    if breaks_into(t, p) {
        let k = choose|k: int| 1 <= k && line_starts(t, p, k);
        assert(line_starts(t, p, k));
    }
}

/// Where the first of two texts ends its last line, a line of the two put together is a
/// line of the one or of the other.
pub proof fn lemma_line_starting_concat(x: Seq<char>, y: Seq<char>, p: Seq<char>)
    requires
        terminated(x),
    ensures
        has_line_starting(x + y, p) <==> has_line_starting(x, p) || has_line_starting(y, p),
{
    lemma_lines_concat(x, y);
    let n = lines(x).len() as int;
    if has_line_starting(x + y, p) {
        let k = choose|k: int| line_starts(x + y, p, k);
        if k < n {
            assert(line_starts(x, p, k));
        } else {
            assert(line_starts(y, p, k - n));
        }
    }
    if has_line_starting(x, p) {
        let k = choose|k: int| line_starts(x, p, k);
        assert(line_starts(x + y, p, k));
    }
    if has_line_starting(y, p) {
        let k = choose|k: int| line_starts(y, p, k);
        assert(line_starts(x + y, p, k + n));
    }
}

/// A line feed inside `key`, `value` and a closing line feed put together, with `p`
/// directly after it, lies inside `value`: the key holds no line feed, and after the
/// closing one nothing follows.
pub proof fn lemma_breaks_into_value(key: Seq<char>, value: Seq<char>, p: Seq<char>)
    requires
        single_line(key),
        single_line(p),
        p.len() > 0,
    ensures
        breaks_into(key + value + seq!['\n'], p) <==> breaks_into(value, p),
{
    let w = key + value + seq!['\n'];
    let n = key.len() as int;
    if breaks_into(w, p) {
        let j = choose|j: int| breaks_at(w, p, j);
        assert(j >= n) by {
            if j < n {
                assert(w[j] == key[j]);
            }
        }
        let i = j - n;
        if i == value.len() {
            assert(w.skip(j + 1).len() == 0);
        } else {
            assert(w[j] == value[i]);
            let tail = w.skip(j + 1);
            assert(tail =~= value.skip(i + 1) + seq!['\n']);
            if p.len() > value.skip(i + 1).len() {
                let m = value.skip(i + 1).len() as int;
                assert(p[m] == tail.subrange(0, p.len() as int)[m]);
            }
            assert(p =~= value.skip(i + 1).subrange(0, p.len() as int)) by {
                assert forall|m: int| 0 <= m < p.len() implies p[m] == value.skip(i + 1)[m] by {
                    assert(p[m] == tail.subrange(0, p.len() as int)[m]);
                }
            }
            assert(breaks_at(value, p, i));
        }
    }
    if breaks_into(value, p) {
        let i = choose|i: int| breaks_at(value, p, i);
        let j = i + n;
        assert(w[j] == value[i]);
        assert(w.skip(j + 1) =~= value.skip(i + 1) + seq!['\n']);
        assert(p =~= w.skip(j + 1).subrange(0, p.len() as int)) by {
            assert forall|m: int| 0 <= m < p.len() implies p[m] == w.skip(j + 1)[m] by {
                assert(p[m] == value.skip(i + 1).subrange(0, p.len() as int)[m]);
            }
        }
        assert(breaks_at(w, p, j));
    }
}

} // verus!

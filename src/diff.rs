//! A line diff of two texts: the lines between the longest common head and
//! the longest common tail are the change, shown with up to three lines of
//! context on each side.
use vstd::prelude::*;
use crate::text::{find, find_char};

verus! {

/// A line without the `\r` that ended it, if any.
pub open spec fn strip_cr(l: Seq<char>) -> Seq<char> {
    if l.len() > 0 && l.last() == '\r' {
        l.drop_last()
    } else {
        l
    }
}

/// The lines of a text as `str::lines` cuts them: at each `\n`, a `\r`
/// before it dropped; a final line ending gives no empty line after it.
pub open spec fn lines_of(s: Seq<char>) -> Seq<Seq<char>>
    decreases s.len(),
{
    if s.len() == 0 {
        Seq::empty()
    } else {
        let i = find_char(s, '\n');
        if i >= s.len() {
            seq![s]
        } else {
            seq![strip_cr(s.take(i as int))] + lines_of(s.skip(i + 1 as int))
        }
    }
}

fn strip_cr_text(l: &str) -> (r: String)
    ensures
        r@ == strip_cr(l@),
{
    let n = l.unicode_len();
    if n > 0 && l.get_char(n - 1) == '\r' {
        assert(l@.subrange(0, n - 1) =~= l@.drop_last());
        String::from_str(l.substring_char(0, n - 1))
    } else {
        String::from_str(l)
    }
}

/// Cuts a text into lines as `str::lines` does.
pub fn split_lines(s: &str) -> (r: Vec<String>)
    ensures
        lines_view(r@) == lines_of(s@),
{
    let n = s.unicode_len();
    let mut r: Vec<String> = Vec::new();
    let mut start: usize = 0;
    assert(s@.skip(0) =~= s@);
    while start < n
        invariant
            n == s@.len(),
            start <= n,
            lines_view(r@) + lines_of(s@.skip(start as int)) == lines_of(s@),
        decreases n - start,
    {
        let rest = s.substring_char(start, n);
        assert(rest@ =~= s@.skip(start as int));
        let ghost before = r@;
        match find(rest, '\n') {
            None => {
                proof {
                    crate::text::lemma_find_char_bound(rest@, '\n');
                }
                let line = String::from_str(rest);
                r.push(line);
                assert(lines_view(r@) =~= lines_view(before).push(rest@));
                assert(lines_view(r@) + lines_of(s@.skip(n as int)) =~= lines_view(before) + lines_of(rest@));
                start = n;
            },
            Some(i) => {
                let line = strip_cr_text(rest.substring_char(0, i));
                assert(rest@.subrange(0, i as int) =~= rest@.take(i as int));
                r.push(line);
                assert(rest@.skip(i + 1 as int) =~= s@.skip(start + i + 1));
                assert(lines_view(r@) =~= lines_view(before).push(strip_cr(rest@.take(i as int))));
                assert(lines_view(r@) + lines_of(s@.skip(start + i + 1)) =~= lines_view(before) + lines_of(rest@));
                start = start + i + 1;
            },
        }
    }
    assert(s@.skip(n as int) =~= Seq::<char>::empty());
    assert(lines_view(r@) + lines_of(s@.skip(n as int)) =~= lines_view(r@));
    r
}

/// How many lines of context are shown on each side of a change.
pub const CONTEXT: usize = 3;

pub open spec fn lines_view(s: Seq<String>) -> Seq<Seq<char>> {
    s.map_values(|l: String| l@)
}

/// From index `i` on, how far `a` and `b` agree.
pub open spec fn head_from(a: Seq<Seq<char>>, b: Seq<Seq<char>>, i: nat) -> nat
    decreases a.len() - i,
{
    if i < a.len() && i < b.len() && a[i as int] == b[i as int] {
        head_from(a, b, i + 1)
    } else {
        i
    }
}

/// How many lines at the end `a` and `b` share beyond the first `p`, from `j` on.
pub open spec fn tail_from(a: Seq<Seq<char>>, b: Seq<Seq<char>>, p: nat, j: nat) -> nat
    decreases a.len() - j,
{
    if p + j < a.len() && p + j < b.len() && a[a.len() - 1 - j] == b[b.len() - 1 - j] {
        tail_from(a, b, p, j + 1)
    } else {
        j
    }
}

pub open spec fn min(x: nat, y: nat) -> nat {
    if x < y {
        x
    } else {
        y
    }
}

/// The parts of a change: context before, lines taken out of `a`, lines put
/// in from `b`, context after.
pub open spec fn hunk(a: Seq<Seq<char>>, b: Seq<Seq<char>>) -> (Seq<Seq<char>>, Seq<Seq<char>>, Seq<Seq<char>>, Seq<Seq<char>>) {
    let p = head_from(a, b, 0);
    let s = tail_from(a, b, p, 0);
    (
        a.subrange(p - min(CONTEXT as nat, p), p as int),
        a.subrange(p as int, a.len() - s),
        b.subrange(p as int, b.len() - s),
        a.subrange(a.len() - s, a.len() - s + min(CONTEXT as nat, s)),
    )
}

/// Each line with `mark` before it and a line ending after it.
pub open spec fn marked(mark: Seq<char>, lines: Seq<Seq<char>>) -> Seq<char>
    decreases lines.len(),
{
    if lines.len() == 0 {
        Seq::empty()
    } else {
        marked(mark, lines.drop_last()) + mark + lines.last() + "\n"@
    }
}

/// The diff of two lists of lines: empty where they are the same.
pub open spec fn diff_of(a: Seq<Seq<char>>, b: Seq<Seq<char>>) -> Seq<char> {
    if a == b {
        Seq::empty()
    } else {
        let (before, removed, added, after) = hunk(a, b);
        marked(" "@, before) + marked("-"@, removed) + marked("+"@, added) + marked(" "@, after)
    }
}

proof fn lemma_head_bound(a: Seq<Seq<char>>, b: Seq<Seq<char>>, i: nat)
    requires
        i <= a.len(),
        i <= b.len(),
    ensures
        i <= head_from(a, b, i) <= a.len(),
        head_from(a, b, i) <= b.len(),
        forall|k: int| i <= k < head_from(a, b, i) ==> a[k] == b[k],
        head_from(a, b, i) == a.len() && head_from(a, b, i) == b.len() ==> a.subrange(i as int, a.len() as int)
            == b.subrange(i as int, b.len() as int),
    decreases a.len() - i,
{
    if i < a.len() && i < b.len() && a[i as int] == b[i as int] {
        lemma_head_bound(a, b, i + 1);
        if head_from(a, b, i) == a.len() && head_from(a, b, i) == b.len() {
            assert(a.subrange(i as int, a.len() as int) =~= b.subrange(i as int, b.len() as int));
        }
    } else if i == a.len() && i == b.len() {
        assert(a.subrange(i as int, a.len() as int) =~= b.subrange(i as int, b.len() as int));
    }
}

/// Appends each line of `lines[from..to]` with `mark` before it and a line ending.
fn append_marked(out: &mut String, mark: &str, lines: &Vec<String>, from: usize, to: usize)
    requires
        from <= to <= lines@.len(),
    ensures
        final(out)@ == old(out)@ + marked(mark@, lines_view(lines@).subrange(from as int, to as int)),
{
    let mut i = from;
    assert(lines_view(lines@).subrange(from as int, from as int) =~= Seq::<Seq<char>>::empty());
    while i < to
        invariant
            from <= i <= to <= lines@.len(),
            out@ == old(out)@ + marked(mark@, lines_view(lines@).subrange(from as int, i as int)),
        decreases to - i,
    {
        let ghost before = out@;
        let ghost sub = lines_view(lines@).subrange(from as int, i + 1);
        assert(sub.drop_last() =~= lines_view(lines@).subrange(from as int, i as int));
        assert(sub.last() == lines@[i as int]@);
        out.append(mark);
        out.append(lines[i].as_str());
        out.append("\n");
        assert(out@ =~= old(out)@ + marked(mark@, sub));
        i = i + 1;
    }
}

/// The diff of two lists of lines.
pub fn diff_lines(a: &Vec<String>, b: &Vec<String>) -> (r: String)
    ensures
        r@ == diff_of(lines_view(a@), lines_view(b@)),
{
    let ghost av = lines_view(a@);
    let ghost bv = lines_view(b@);
    let mut p: usize = 0;
    while p < a.len() && p < b.len() && a[p] == b[p]
        invariant
            p <= a@.len(),
            p <= b@.len(),
            av == lines_view(a@),
            bv == lines_view(b@),
            head_from(av, bv, 0) == head_from(av, bv, p as nat),
        decreases a.len() - p,
    {
        assert(av[p as int] == a@[p as int]@ && bv[p as int] == b@[p as int]@);
        p = p + 1;
    }
    let mut s: usize = 0;
    while p + s < a.len() && p + s < b.len() && a[a.len() - 1 - s] == b[b.len() - 1 - s]
        invariant
            p + s <= a@.len(),
            p + s <= b@.len(),
            av == lines_view(a@),
            bv == lines_view(b@),
            p == head_from(av, bv, 0),
            tail_from(av, bv, p as nat, 0) == tail_from(av, bv, p as nat, s as nat),
        decreases a.len() - s,
    {
        assert(av[av.len() - 1 - s] == a@[a.len() - 1 - s]@);
        assert(bv[bv.len() - 1 - s] == b@[b.len() - 1 - s]@);
        s = s + 1;
    }
    proof {
        lemma_head_bound(av, bv, 0);
        assert(av.subrange(0, av.len() as int) =~= av);
        assert(bv.subrange(0, bv.len() as int) =~= bv);
    }
    let mut out = String::new();
    if p == a.len() && p == b.len() {
        return out;
    }
    assert(av != bv) by {
        if av == bv {
            lemma_head_bound(av, av, 0);
            lemma_same_head(av, 0);
        }
    }
    let c1 = if p < CONTEXT { p } else { CONTEXT };
    let c2 = if s < CONTEXT { s } else { CONTEXT };
    append_marked(&mut out, " ", a, p - c1, p);
    append_marked(&mut out, "-", a, p, a.len() - s);
    append_marked(&mut out, "+", b, p, b.len() - s);
    append_marked(&mut out, " ", a, a.len() - s, a.len() - s + c2);
    out
}

proof fn lemma_same_head(a: Seq<Seq<char>>, i: nat)
    requires
        i <= a.len(),
    ensures
        head_from(a, a, i) == a.len(),
    decreases a.len() - i,
{
    if i < a.len() {
        lemma_same_head(a, i + 1);
    }
}

/// The diff of two texts, line by line: empty where their lines are the same.
pub fn diff_text(t1: &str, t2: &str) -> (r: String)
    ensures
        r@ == diff_of(lines_of(t1@), lines_of(t2@)),
{
    let a = split_lines(t1);
    let b = split_lines(t2);
    diff_lines(&a, &b)
}

/// A text compared with itself has an empty diff.
pub proof fn law_diff_identical(t: Seq<char>)
    ensures
        diff_of(lines_of(t), lines_of(t)) == Seq::<char>::empty(),
{
}

proof fn lemma_head_at(a: Seq<Seq<char>>, b: Seq<Seq<char>>, i: nat, k: nat)
    requires
        k <= i < a.len(),
        i < b.len(),
        a[i as int] != b[i as int],
        forall|j: int| 0 <= j < i ==> a[j] == b[j],
    ensures
        head_from(a, b, k) == i,
    decreases i - k,
{
    if k < i {
        lemma_head_at(a, b, i, k + 1);
    }
}

proof fn lemma_tail_at(a: Seq<Seq<char>>, b: Seq<Seq<char>>, i: nat, j: nat)
    requires
        a.len() == b.len(),
        i < a.len(),
        j <= a.len() - 1 - i,
        a[i as int] != b[i as int],
        forall|k: int| i < k < a.len() ==> a[k] == b[k],
    ensures
        tail_from(a, b, i, j) == a.len() - 1 - i,
    decreases a.len() - 1 - i - j,
{
    if j < a.len() - 1 - i {
        lemma_tail_at(a, b, i, j + 1);
    }
}

/// Where two lists of lines of one length differ in line `i` alone, the
/// change takes out just that line of `a` and puts in just that line of `b`.
pub proof fn law_diff_one_line(a: Seq<Seq<char>>, b: Seq<Seq<char>>, i: int)
    requires
        a.len() == b.len(),
        0 <= i < a.len(),
        a[i] != b[i],
        forall|j: int| 0 <= j < a.len() && j != i ==> a[j] == b[j],
    ensures
        a != b,
        hunk(a, b).1 == seq![a[i]],
        hunk(a, b).2 == seq![b[i]],
{
    lemma_head_at(a, b, i as nat, 0);
    lemma_tail_at(a, b, i as nat, 0);
    assert(hunk(a, b).1 =~= seq![a[i]]);
    assert(hunk(a, b).2 =~= seq![b[i]]);
}

proof fn lemma_tail_bound(a: Seq<Seq<char>>, b: Seq<Seq<char>>, p: nat, j: nat)
    requires
        p + j <= a.len(),
        p + j <= b.len(),
    ensures
        j <= tail_from(a, b, p, j),
        p + tail_from(a, b, p, j) <= a.len(),
        p + tail_from(a, b, p, j) <= b.len(),
    decreases a.len() - j,
{
    if p + j < a.len() && p + j < b.len() && a[a.len() - 1 - j] == b[b.len() - 1 - j] {
        lemma_tail_bound(a, b, p, j + 1);
    }
}

proof fn lemma_head_at_least(a: Seq<Seq<char>>, b: Seq<Seq<char>>, n: nat, k: nat)
    requires
        k <= n <= a.len(),
        n <= b.len(),
        forall|j: int| 0 <= j < n ==> a[j] == b[j],
    ensures
        head_from(a, b, k) >= n,
    decreases n - k,
{
    if k < n {
        lemma_head_at_least(a, b, n, k + 1);
    } else {
        lemma_head_bound(a, b, k);
    }
}

proof fn lemma_tail_at_least(a: Seq<Seq<char>>, b: Seq<Seq<char>>, p: nat, m: nat, j: nat)
    requires
        a.len() == b.len(),
        p + j <= a.len(),
        j <= m,
        forall|i: int| a.len() - m <= i < a.len() && 0 <= i ==> #[trigger] a[i] == b[i],
    ensures
        tail_from(a, b, p, j) >= m || p + tail_from(a, b, p, j) >= a.len(),
    decreases m - j,
{
    lemma_tail_bound(a, b, p, j);
    if j < m && p + j < a.len() {
        assert(a[a.len() - 1 - j] == b[a.len() - 1 - j]);
        lemma_tail_at_least(a, b, p, m, j + 1);
    }
}

/// Where two lists of lines differ only in one block of lines, of the same
/// length in both, the change takes out lines of that block of `a` alone and
/// puts in the lines at the same places of that block of `b` alone: the
/// lines before and after the block are never shown as changed.
pub proof fn law_diff_block(pre: Seq<Seq<char>>, x: Seq<Seq<char>>, y: Seq<Seq<char>>, suf: Seq<Seq<char>>)
    requires
        x.len() == y.len(),
    ensures
        exists|lo: int, hi: int|
            0 <= lo <= hi <= x.len() && #[trigger] hunk(pre + x + suf, pre + y + suf).1 == x.subrange(lo, hi)
                && hunk(pre + x + suf, pre + y + suf).2 == y.subrange(lo, hi),
{
    let a = pre + x + suf;
    let b = pre + y + suf;
    let n = a.len();
    assert forall|j: int| 0 <= j < pre.len() implies a[j] == b[j] by {
        assert(a[j] == pre[j] && b[j] == pre[j]);
    }
    lemma_head_at_least(a, b, pre.len(), 0);
    lemma_head_bound(a, b, 0);
    let p = head_from(a, b, 0);
    assert forall|i: int| a.len() - suf.len() <= i < a.len() && 0 <= i implies #[trigger] a[i] == b[i] by {
        assert(a[i] == suf[i - (a.len() - suf.len())]);
        assert(b[i] == suf[i - (a.len() - suf.len())]);
    }
    lemma_tail_at_least(a, b, p, suf.len(), 0);
    lemma_tail_bound(a, b, p, 0);
    let s = tail_from(a, b, p, 0);
    if s >= suf.len() {
        let lo = p - pre.len();
        let hi = n - s - pre.len();
        assert(hunk(a, b).1 =~= x.subrange(lo, hi)) by {
            assert forall|i: int| 0 <= i < hi - lo implies a.subrange(p as int, n - s)[i] == x.subrange(lo, hi)[i] by {
                assert(a[p + i] == x[lo + i]);
            }
        }
        assert(hunk(a, b).2 =~= y.subrange(lo, hi)) by {
            assert forall|i: int| 0 <= i < hi - lo implies b.subrange(p as int, n - s)[i] == y.subrange(lo, hi)[i] by {
                assert(b[p + i] == y[lo + i]);
            }
        }
    } else {
        assert(hunk(a, b).1 =~= x.subrange(0, 0));
        assert(hunk(a, b).2 =~= y.subrange(0, 0));
    }
}

} // verus!

//! The summary of status labels: each label with its count, the most
//! frequent first, and labels of one count in ascending order of their
//! bytes.

use crate::counters::sum_counts;
use crate::metrics::BenchRunMetricsItem;
use vstd::prelude::*;

verus! {

/// `a` is `b` or comes before it, byte by byte; a text comes after each of
/// its beginnings.
pub open spec fn bytes_le(a: Seq<u8>, b: Seq<u8>) -> bool
    decreases a.len(),
{
    if a.len() == 0 {
        true
    } else if b.len() == 0 {
        false
    } else if a[0] != b[0] {
        a[0] < b[0]
    } else {
        bytes_le(a.drop_first(), b.drop_first())
    }
}

/// The order of labels: that of the bytes of their UTF-8 form.
pub open spec fn label_le(a: Seq<char>, b: Seq<char>) -> bool {
    bytes_le(vstd::utf8::encode_utf8(a), vstd::utf8::encode_utf8(b))
}

/// One line of the summary.
pub struct StatusLine {
    pub label: Seq<char>,
    pub count: usize,
}

/// The line `x` may stand before the line `y`: it has the higher count, or
/// the same count and a label that does not come after that of `y`.
pub open spec fn may_precede(x: StatusLine, y: StatusLine) -> bool {
    x.count > y.count || (x.count == y.count && label_le(x.label, y.label))
}

/// The lines of a summary.
pub open spec fn lines_of(pairs: Seq<(String, usize)>) -> Seq<StatusLine> {
    Seq::new(pairs.len(), |i: int| StatusLine { label: pairs[i].0@, count: pairs[i].1 })
}

/// The label at place `i` with its count.
pub open spec fn line_at(labels: Seq<Seq<char>>, counts: Seq<usize>, i: int) -> StatusLine {
    StatusLine { label: labels[i], count: counts[i] }
}

/// The line is one of the first `n` labels with its count.
pub open spec fn is_line_of(
    line: StatusLine,
    labels: Seq<Seq<char>>,
    counts: Seq<usize>,
    n: int,
) -> bool {
    exists|i: int| 0 <= i < n && #[trigger] line_at(labels, counts, i) == line
}

/// The lines are the first `n` labels with their counts, in some order.
pub open spec fn lines_hold(
    lines: Seq<StatusLine>,
    labels: Seq<Seq<char>>,
    counts: Seq<usize>,
    n: int,
) -> bool {
    &&& lines.len() == n
    &&& forall|i: int| 0 <= i < n ==> lines.contains(#[trigger] line_at(labels, counts, i))
    &&& forall|k: int| 0 <= k < lines.len() ==> is_line_of(#[trigger] lines[k], labels, counts, n)
}

/// Sum of the counts of the first `n` lines.
pub open spec fn line_total(lines: Seq<StatusLine>, n: int) -> nat
    decreases n,
{
    if n <= 0 || n > lines.len() {
        0
    } else {
        line_total(lines, n - 1) + lines[n - 1].count as nat
    }
}

/// Every line may stand before each line after it.
pub open spec fn in_order(lines: Seq<StatusLine>) -> bool {
    forall|i: int, j: int| 0 <= i < j < lines.len() ==> may_precede(lines[i], lines[j])
}

/// Every line may stand before each line after it, and none after it
/// before it: the lines could stand in no other order.
pub open spec fn strictly_in_order(lines: Seq<StatusLine>) -> bool {
    forall|i: int, j: int|
        0 <= i < j < lines.len() ==> may_precede(lines[i], lines[j]) && !may_precede(
            lines[j],
            lines[i],
        )
}

/// No two lines have the same label.
pub open spec fn labels_differ(lines: Seq<StatusLine>) -> bool {
    forall|i: int, j: int|
        0 <= i < j < lines.len() ==> (#[trigger] lines[i]).label != (#[trigger] lines[j]).label
}

/// Every text is itself or comes before itself.
pub proof fn lemma_bytes_le_reflexive(a: Seq<u8>)
    ensures
        bytes_le(a, a),
    decreases a.len(),
{
    if a.len() > 0 {
        lemma_bytes_le_reflexive(a.drop_first());
    }
}

/// The order of bytes leaves no two texts uncompared.
pub proof fn lemma_bytes_le_total(a: Seq<u8>, b: Seq<u8>)
    ensures
        bytes_le(a, b) || bytes_le(b, a),
    decreases a.len(),
{
    if a.len() > 0 && b.len() > 0 && a[0] == b[0] {
        lemma_bytes_le_total(a.drop_first(), b.drop_first());
    }
}

/// The order of bytes carries over from one text by a second to a third.
pub proof fn lemma_bytes_le_transitive(a: Seq<u8>, b: Seq<u8>, c: Seq<u8>)
    requires
        bytes_le(a, b),
        bytes_le(b, c),
    ensures
        bytes_le(a, c),
    decreases a.len(),
{
    if a.len() > 0 && b.len() > 0 && c.len() > 0 && a[0] == b[0] && b[0] == c[0] {
        lemma_bytes_le_transitive(a.drop_first(), b.drop_first(), c.drop_first());
    }
}

/// Texts of which each is the other or comes before it are one text.
pub proof fn lemma_bytes_le_antisymmetric(a: Seq<u8>, b: Seq<u8>)
    requires
        bytes_le(a, b),
        bytes_le(b, a),
    ensures
        a == b,
    decreases a.len(),
{
    if a.len() > 0 && b.len() > 0 {
        lemma_bytes_le_antisymmetric(a.drop_first(), b.drop_first());
        assert(a =~= seq![a[0]] + a.drop_first());
        assert(b =~= seq![b[0]] + b.drop_first());
    } else {
        assert(a =~= b);
    }
}

/// Labels of which each is the other or comes before it are one label.
pub proof fn lemma_label_le_antisymmetric(a: Seq<char>, b: Seq<char>)
    requires
        label_le(a, b),
        label_le(b, a),
    ensures
        a == b,
{
    lemma_bytes_le_antisymmetric(vstd::utf8::encode_utf8(a), vstd::utf8::encode_utf8(b));
    vstd::utf8::encode_utf8_decode_utf8(a);
    vstd::utf8::encode_utf8_decode_utf8(b);
}

/// Of two lines one may stand before the other.
pub proof fn lemma_may_precede_total(x: StatusLine, y: StatusLine)
    ensures
        may_precede(x, y) || may_precede(y, x),
{
    lemma_bytes_le_total(vstd::utf8::encode_utf8(x.label), vstd::utf8::encode_utf8(y.label));
}

/// Where `x` may stand before `y` and `y` before `z`, `x` may stand before
/// `z`.
pub proof fn lemma_may_precede_transitive(x: StatusLine, y: StatusLine, z: StatusLine)
    requires
        may_precede(x, y),
        may_precede(y, z),
    ensures
        may_precede(x, z),
{
    if x.count == y.count && y.count == z.count {
        lemma_bytes_le_transitive(
            vstd::utf8::encode_utf8(x.label),
            vstd::utf8::encode_utf8(y.label),
            vstd::utf8::encode_utf8(z.label),
        );
    }
}

/// Lines in order whose labels differ could stand in no other order.
pub proof fn lemma_strictly_in_order(lines: Seq<StatusLine>)
    requires
        in_order(lines),
        labels_differ(lines),
    ensures
        strictly_in_order(lines),
{
    assert forall|i: int, j: int| 0 <= i < j < lines.len() implies may_precede(lines[i], lines[j])
        && !may_precede(lines[j], lines[i]) by {
        assert(may_precede(lines[i], lines[j]));
        if may_precede(lines[j], lines[i]) {
            lemma_label_le_antisymmetric(lines[i].label, lines[j].label);
        }
    }
}

/// Two summaries of the same labels and counts agree in their first `k`
/// lines.
pub proof fn lemma_summaries_agree(
    x: Seq<StatusLine>,
    y: Seq<StatusLine>,
    labels: Seq<Seq<char>>,
    counts: Seq<usize>,
    k: int,
)
    requires
        lines_hold(x, labels, counts, labels.len() as int),
        lines_hold(y, labels, counts, labels.len() as int),
        strictly_in_order(x),
        strictly_in_order(y),
        0 <= k <= x.len(),
    ensures
        forall|j: int| 0 <= j < k ==> x[j] == y[j],
    decreases k,
{
    if k > 0 {
        lemma_summaries_agree(x, y, labels, counts, k - 1);
        let at = k - 1;
        if x[at] != y[at] {
            let n = labels.len() as int;
            assert(is_line_of(x[at], labels, counts, n));
            let i = choose|i: int| 0 <= i < n && #[trigger] line_at(labels, counts, i) == x[at];
            assert(y.contains(line_at(labels, counts, i)));
            let q = choose|q: int| 0 <= q < y.len() && y[q] == x[at];
            assert(is_line_of(y[at], labels, counts, n));
            let h = choose|h: int| 0 <= h < n && #[trigger] line_at(labels, counts, h) == y[at];
            assert(x.contains(line_at(labels, counts, h)));
            let p = choose|p: int| 0 <= p < x.len() && x[p] == y[at];
            lemma_bytes_le_reflexive(vstd::utf8::encode_utf8(x[at].label));
            lemma_bytes_le_reflexive(vstd::utf8::encode_utf8(y[at].label));
            if q < at {
                assert(x[q] == y[q]);
                assert(may_precede(x[q], x[at]) && !may_precede(x[at], x[q]));
            }
            if p < at {
                assert(x[p] == y[p]);
                assert(may_precede(y[p], y[at]) && !may_precede(y[at], y[p]));
            }
            assert(q > at && p > at);
            assert(may_precede(x[at], x[p]) && !may_precede(x[p], x[at]));
            assert(may_precede(y[at], y[q]) && !may_precede(y[q], y[at]));
        }
    }
}

/// Labels with their counts have one summary only.
pub proof fn lemma_summary_is_unique(
    x: Seq<StatusLine>,
    y: Seq<StatusLine>,
    labels: Seq<Seq<char>>,
    counts: Seq<usize>,
)
    requires
        lines_hold(x, labels, counts, labels.len() as int),
        lines_hold(y, labels, counts, labels.len() as int),
        strictly_in_order(x),
        strictly_in_order(y),
    ensures
        x == y,
{
    lemma_summaries_agree(x, y, labels, counts, x.len() as int);
    assert(x =~= y);
}

/// A line put among others adds its count to the sum of theirs.
pub proof fn lemma_line_total_insert(lines: Seq<StatusLine>, place: int, line: StatusLine, n: int)
    requires
        0 <= place <= lines.len(),
        0 <= n <= lines.len() + 1,
    ensures
        line_total(lines.insert(place, line), n) == if n <= place {
            line_total(lines, n)
        } else {
            line_total(lines, n - 1) + line.count as nat
        },
    decreases n,
{
    let more = lines.insert(place, line);
    if n > 0 {
        lemma_line_total_insert(lines, place, line, n - 1);
        if n - 1 < place {
            assert(more[n - 1] == lines[n - 1]);
        } else if n - 1 == place {
            assert(more[n - 1] == line);
        } else {
            assert(more[n - 1] == lines[n - 2]);
        }
    }
}

/// A line put where every line before it may precede it, and no line
/// before which it may not stand comes after it, leaves the lines in order.
pub proof fn lemma_insert_in_order(lines: Seq<StatusLine>, place: int, line: StatusLine)
    requires
        in_order(lines),
        0 <= place <= lines.len(),
        forall|k: int| 0 <= k < place ==> may_precede(#[trigger] lines[k], line),
        place < lines.len() ==> !may_precede(lines[place], line),
    ensures
        in_order(lines.insert(place, line)),
{
    let more = lines.insert(place, line);
    assert forall|i: int, j: int| 0 <= i < j < more.len() implies may_precede(more[i], more[j]) by {
        if j == place {
            assert(more[i] == lines[i]);
        } else if i == place {
            assert(more[j] == lines[j - 1]);
            lemma_may_precede_total(lines[place], line);
            if j - 1 > place {
                lemma_may_precede_transitive(line, lines[place], lines[j - 1]);
            }
        } else {
            let a = if i < place {
                i
            } else {
                i - 1
            };
            let b = if j < place {
                j
            } else {
                j - 1
            };
            assert(more[i] == lines[a]);
            assert(more[j] == lines[b]);
        }
    }
}

/// A line for the label at place `n`, put anywhere among lines of the
/// labels before it, gives lines of the labels up to it.
pub proof fn lemma_insert_holds(
    lines: Seq<StatusLine>,
    labels: Seq<Seq<char>>,
    counts: Seq<usize>,
    n: int,
    place: int,
)
    requires
        lines_hold(lines, labels, counts, n),
        0 <= place <= lines.len(),
    ensures
        lines_hold(lines.insert(place, line_at(labels, counts, n)), labels, counts, n + 1),
{
    let line = line_at(labels, counts, n);
    let more = lines.insert(place, line);
    assert(more[place] == line);
    assert forall|i: int| 0 <= i < n + 1 implies more.contains(
        #[trigger] line_at(labels, counts, i),
    ) by {
        if i < n {
            let k = choose|k: int| 0 <= k < lines.len() && lines[k] == line_at(labels, counts, i);
            if k < place {
                assert(more[k] == lines[k]);
            } else {
                assert(more[k + 1] == lines[k]);
            }
        }
    }
    assert forall|k: int| 0 <= k < more.len() implies is_line_of(
        #[trigger] more[k],
        labels,
        counts,
        n + 1,
    ) by {
        if k == place {
            assert(line_at(labels, counts, n) == more[k]);
        } else {
            let from = if k < place {
                k
            } else {
                k - 1
            };
            assert(more[k] == lines[from]);
            assert(is_line_of(lines[from], labels, counts, n));
            let i = choose|i: int|
                0 <= i < n && #[trigger] line_at(labels, counts, i) == lines[from];
            assert(line_at(labels, counts, i) == more[k]);
        }
    }
}

/// A line for the label at place `n`, put anywhere among lines of the
/// labels before it whose labels differ, leaves the labels different.
pub proof fn lemma_insert_differs(
    lines: Seq<StatusLine>,
    labels: Seq<Seq<char>>,
    counts: Seq<usize>,
    n: int,
    place: int,
)
    requires
        lines_hold(lines, labels, counts, n),
        labels_differ(lines),
        crate::names::distinct(labels),
        0 <= n < labels.len(),
        0 <= place <= lines.len(),
    ensures
        labels_differ(lines.insert(place, line_at(labels, counts, n))),
{
    let line = line_at(labels, counts, n);
    let more = lines.insert(place, line);
    assert forall|i: int, j: int| 0 <= i < j < more.len() implies (#[trigger] more[i]).label != (
    #[trigger] more[j]).label by {
        let a = if i < place {
            i
        } else {
            i - 1
        };
        let b = if j < place {
            j
        } else {
            j - 1
        };
        if i != place && j != place {
            assert(more[i] == lines[a]);
            assert(more[j] == lines[b]);
        } else {
            let other = if i == place {
                b
            } else {
                a
            };
            assert(more[if i == place {
                j
            } else {
                i
            }] == lines[other]);
            assert(is_line_of(lines[other], labels, counts, n));
            let k = choose|k: int|
                0 <= k < n && #[trigger] line_at(labels, counts, k) == lines[other];
            assert(labels[k] != labels[n]);
        }
    }
}

/// Whether the bytes `a` are the bytes `b` or come before them.
pub fn bytes_in_order(a: &[u8], b: &[u8]) -> (le: bool)
    ensures
        le == bytes_le(a@, b@),
{
    let mut i: usize = 0;
    proof {
        assert(a@.skip(0) =~= a@);
        assert(b@.skip(0) =~= b@);
    }
    while i < a.len() && i < b.len()
        invariant
            0 <= i <= a.len(),
            i <= b.len(),
            bytes_le(a@, b@) == bytes_le(a@.skip(i as int), b@.skip(i as int)),
        decreases a.len() - i,
    {
        let x = a[i];
        let y = b[i];
        proof {
            let ra = a@.skip(i as int);
            let rb = b@.skip(i as int);
            assert(ra[0] == x && rb[0] == y);
            assert(ra.drop_first() =~= a@.skip(i + 1));
            assert(rb.drop_first() =~= b@.skip(i + 1));
        }
        if x != y {
            return x < y;
        }
        i = i + 1;
    }
    proof {
        assert(a@.skip(i as int).len() == a.len() - i);
        assert(b@.skip(i as int).len() == b.len() - i);
    }
    i == a.len()
}

/// Whether a line with `label` and `count` may stand before one with
/// `other_label` and `other_count`.
pub fn line_may_precede(label: &str, count: usize, other_label: &str, other_count: usize) -> (le:
    bool)
    ensures
        le == may_precede(
            StatusLine { label: label@, count },
            StatusLine { label: other_label@, count: other_count },
        ),
{
    if count != other_count {
        count > other_count
    } else {
        bytes_in_order(label.as_bytes(), other_label.as_bytes())
    }
}

/// The status labels of `metrics` with their counts: the most frequent
/// first, and labels of one count in ascending order.
pub fn sorted_summary(metrics: &BenchRunMetricsItem) -> (pairs: Vec<(String, usize)>)
    requires
        metrics.wf(),
    ensures
        strictly_in_order(lines_of(pairs@)),
        lines_hold(
            lines_of(pairs@),
            metrics@.labels,
            metrics@.counts,
            metrics@.labels.len() as int,
        ),
        line_total(lines_of(pairs@), pairs@.len() as int) == metrics@.total_requests,
{
    proof {
        metrics.lemma_consistent();
    }
    let n = metrics.status_count();
    let ghost labels = metrics@.labels;
    let ghost counts = metrics@.counts;
    let mut pairs: Vec<(String, usize)> = Vec::new();
    let mut i: usize = 0;
    while i < n
        invariant
            metrics.wf(),
            labels == metrics@.labels,
            counts == metrics@.counts,
            n == labels.len(),
            n == counts.len(),
            0 <= i <= n,
            crate::names::distinct(labels),
            in_order(lines_of(pairs@)),
            labels_differ(lines_of(pairs@)),
            lines_hold(lines_of(pairs@), labels, counts, i as int),
            line_total(lines_of(pairs@), i as int) == sum_counts(counts, i as int),
        decreases n - i,
    {
        let label = metrics.status_label(i).clone();
        let count = metrics.status_occurrences(i);
        let ghost line = line_at(labels, counts, i as int);
        let ghost before = lines_of(pairs@);
        let mut place: usize = 0;
        while place < pairs.len() && line_may_precede(
            pairs[place].0.as_str(),
            pairs[place].1,
            label.as_str(),
            count,
        )
            invariant
                0 <= place <= pairs.len(),
                before == lines_of(pairs@),
                line == (StatusLine { label: label@, count }),
                forall|k: int| 0 <= k < place ==> may_precede(#[trigger] before[k], line),
            decreases pairs.len() - place,
        {
            place = place + 1;
        }
        proof {
            lemma_insert_in_order(before, place as int, line);
            lemma_insert_holds(before, labels, counts, i as int, place as int);
            lemma_insert_differs(before, labels, counts, i as int, place as int);
            lemma_line_total_insert(before, place as int, line, i + 1);
        }
        pairs.insert(place, (label, count));
        assert(lines_of(pairs@) =~= before.insert(place as int, line));
        i = i + 1;
    }
    proof {
        lemma_strictly_in_order(lines_of(pairs@));
    }
    pairs
}

} // verus!

//! A single named, labeled, timestamped gauge measurement, and its
//! exposition-format rendering.
//!
//! A metric's `name` and `kind` never change after construction; only its
//! value, its labels (append-only) and its observation tick do. The value is
//! held as its rendered decimal text, so the registry and the exposition
//! path stay exact.

use vstd::prelude::*;

verus! {

/// The supported metric kinds. Only gauges exist today; the enum leaves
/// room for future kinds without touching existing metrics.
#[derive(Debug, Clone, Copy, PartialEq, Eq, Structural)]
pub enum MetricType {
    Gauge,
}

/// The mathematical model of a [`Metric`]: every field as a plain
/// mathematical value.
pub ghost struct MetricModel {
    /// The metric's name.
    pub name: Seq<char>,
    /// The metric's kind.
    pub kind: MetricType,
    /// The rendered decimal text of the current value.
    pub value: Seq<char>,
    /// The label pairs, in insertion order, duplicates kept.
    pub labels: Seq<(Seq<char>, Seq<char>)>,
    /// The logical tick of the last value update (0 before any update).
    pub observed_at: nat,
}

/// A single metric.
pub struct Metric {
    /// The metric's name, fixed at construction.
    pub name: String,
    /// The metric's kind, fixed at construction.
    pub metric_type: MetricType,
    /// The rendered decimal text of the current value.
    pub value: String,
    /// The label pairs, in insertion order.
    pub labels: Vec<(String, String)>,
    /// The logical tick of the last value update.
    pub observed_at: u64,
}

/// The label pairs of `l`, each string replaced by its view.
pub open spec fn labels_view(l: Seq<(String, String)>) -> Seq<(Seq<char>, Seq<char>)> {
    l.map_values(|p: (String, String)| (p.0@, p.1@))
}

impl View for Metric {
    type V = MetricModel;

    open spec fn view(&self) -> MetricModel {
        MetricModel {
            name: self.name@,
            kind: self.metric_type,
            value: self.value@,
            labels: labels_view(self.labels@),
            observed_at: self.observed_at as nat,
        }
    }
}

/// One rendered label pair: `key="value"`.
pub open spec fn spec_label_text(p: (Seq<char>, Seq<char>)) -> Seq<char> {
    p.0 + seq!['=', '"'] + p.1 + seq!['"']
}

/// The rendered label pairs in order, separated by commas.
pub open spec fn spec_labels_text(ls: Seq<(Seq<char>, Seq<char>)>) -> Seq<char>
    decreases ls.len(),
{
    if ls.len() == 0 {
        Seq::<char>::empty()
    } else if ls.len() == 1 {
        spec_label_text(ls[0])
    } else {
        spec_labels_text(ls.drop_last()) + seq![','] + spec_label_text(ls.last())
    }
}

/// One exposition line (without its newline): the name, then a
/// `{key="value",...}` block only when there is at least one label, then a
/// space and the value text.
pub open spec fn spec_render_metric(m: MetricModel) -> Seq<char> {
    m.name + (if m.labels.len() == 0 {
        Seq::<char>::empty()
    } else {
        seq!['{'] + spec_labels_text(m.labels) + seq!['}']
    }) + seq![' '] + m.value
}

/// The model of a freshly created metric: value text `0`, no labels,
/// tick 0.
pub open spec fn spec_new_metric(name: Seq<char>, kind: MetricType) -> MetricModel {
    MetricModel {
        name: name,
        kind: kind,
        value: seq!['0'],
        labels: Seq::empty(),
        observed_at: 0,
    }
}

/// The model of `m` after a label append.
pub open spec fn spec_with_label(m: MetricModel, key: Seq<char>, value: Seq<char>) -> MetricModel {
    MetricModel { labels: m.labels.push((key, value)), ..m }
}

/// The model of `m` after a gauge overwrite at tick `now`.
pub open spec fn spec_with_value(m: MetricModel, value: Seq<char>, now: nat) -> MetricModel {
    MetricModel { value: value, observed_at: now, ..m }
}

/// Appending a pair extends the rendered label text by a comma-separated
/// rendering of that pair (with no comma when it is the first).
pub proof fn lemma_labels_text_push(ls: Seq<(Seq<char>, Seq<char>)>, p: (Seq<char>, Seq<char>))
    ensures
        spec_labels_text(ls.push(p)) == if ls.len() == 0 {
            spec_label_text(p)
        } else {
            spec_labels_text(ls) + seq![','] + spec_label_text(p)
        },
{
    let pushed = ls.push(p);
    assert(pushed.last() == p);
    assert(pushed.drop_last() =~= ls);
}

/// The number of occurrences of `c` in `s`.
pub open spec fn count_char(s: Seq<char>, c: char) -> nat
    decreases s.len(),
{
    if s.len() == 0 {
        0
    } else {
        count_char(s.drop_last(), c) + if s.last() == c {
            1nat
        } else {
            0nat
        }
    }
}

/// The character `c` occurs nowhere in `s`.
pub open spec fn char_free(s: Seq<char>, c: char) -> bool {
    forall|i: int| 0 <= i < s.len() ==> s[i] != c
}

/// Counting distributes over concatenation.
pub proof fn lemma_count_char_concat(a: Seq<char>, b: Seq<char>, c: char)
    ensures
        count_char(a + b, c) == count_char(a, c) + count_char(b, c),
    decreases b.len(),
{
    if b.len() == 0 {
        assert(a + b =~= a);
    } else {
        assert((a + b).drop_last() =~= a + b.drop_last());
        lemma_count_char_concat(a, b.drop_last(), c);
    }
}

/// A sequence without `c` counts zero occurrences of it.
pub proof fn lemma_char_free_count(s: Seq<char>, c: char)
    requires
        char_free(s, c),
    ensures
        count_char(s, c) == 0,
    decreases s.len(),
{
    if s.len() > 0 {
        lemma_char_free_count(s.drop_last(), c);
    }
}

/// Every field of the metric is free of newlines.
pub open spec fn newline_free(m: MetricModel) -> bool {
    &&& char_free(m.name, '\n')
    &&& char_free(m.value, '\n')
    &&& forall|i: int|
        0 <= i < m.labels.len() ==> char_free(#[trigger] m.labels[i].0, '\n') && char_free(
            m.labels[i].1,
            '\n',
        )
}

/// The rendered label text of newline-free pairs is newline-free.
pub proof fn lemma_labels_text_newline_free(ls: Seq<(Seq<char>, Seq<char>)>)
    requires
        forall|i: int|
            0 <= i < ls.len() ==> char_free(#[trigger] ls[i].0, '\n') && char_free(ls[i].1, '\n'),
    ensures
        char_free(spec_labels_text(ls), '\n'),
    decreases ls.len(),
{
    if ls.len() == 0 {
    } else if ls.len() == 1 {
        assert(char_free(spec_label_text(ls[0]), '\n'));
    } else {
        lemma_labels_text_newline_free(ls.drop_last());
        assert(char_free(spec_label_text(ls.last()), '\n'));
    }
}

/// A newline-free metric renders as a newline-free line.
pub proof fn lemma_render_metric_newline_free(m: MetricModel)
    requires
        newline_free(m),
    ensures
        char_free(spec_render_metric(m), '\n'),
        count_char(spec_render_metric(m), '\n') == 0,
{
    lemma_labels_text_newline_free(m.labels);
    assert(char_free(spec_render_metric(m), '\n'));
    lemma_char_free_count(spec_render_metric(m), '\n');
}

/// A metric with zero labels renders with no label block at all: the name,
/// one space, and the value text.
pub proof fn lemma_render_no_labels(m: MetricModel)
    requires
        m.labels.len() == 0,
    ensures
        spec_render_metric(m) == m.name + seq![' '] + m.value,
{
    assert(spec_render_metric(m) =~= m.name + seq![' '] + m.value);
}

/// Labels are append-only and render in insertion order: a metric without
/// labels, given `key1`/`value1` and then `key2`/`value2`, renders with both
/// pairs in exactly that order.
pub proof fn lemma_two_labels_render_in_order(
    m: MetricModel,
    key1: Seq<char>,
    value1: Seq<char>,
    key2: Seq<char>,
    value2: Seq<char>,
)
    requires
        m.labels.len() == 0,
    ensures
        spec_render_metric(spec_with_label(spec_with_label(m, key1, value1), key2, value2))
            == m.name + seq!['{'] + spec_label_text((key1, value1)) + seq![','] + spec_label_text(
            (key2, value2),
        ) + seq!['}'] + seq![' '] + m.value,
{
    let m1 = spec_with_label(m, key1, value1);
    let m2 = spec_with_label(m1, key2, value2);
    lemma_labels_text_push(m.labels, (key1, value1));
    lemma_labels_text_push(m1.labels, (key2, value2));
    assert(spec_render_metric(m2) =~= m.name + seq!['{'] + spec_label_text((key1, value1))
        + seq![','] + spec_label_text((key2, value2)) + seq!['}'] + seq![' '] + m.value);
}

impl Metric {
    /// Creates a metric with value text `0`, no labels, and tick 0.
    pub fn new(name: &str, metric_type: MetricType) -> (m: Metric)
        ensures
            m@ == spec_new_metric(name@, metric_type),
    {
        proof {
            reveal_strlit("0");
        }
        let m = Metric {
            name: name.to_owned(),
            metric_type,
            value: String::from_str("0"),
            labels: Vec::new(),
            observed_at: 0,
        };
        proof {
            assert(m@.value =~= seq!['0']);
            assert(m@.labels =~= Seq::<(Seq<char>, Seq<char>)>::empty());
            assert(m@ == spec_new_metric(name@, metric_type));
        }
        m
    }

    /// Overwrites the gauge value with `value` and records tick `now`;
    /// name, kind and labels are untouched.
    pub fn set_value(&mut self, value: String, now: u64)
        ensures
            final(self)@ == spec_with_value(old(self)@, value@, now as nat),
    {
        self.value = value;
        self.observed_at = now;
    }

    /// Appends one label pair; existing labels, the value and the tick are
    /// untouched, and a duplicate key is kept as-is.
    pub fn add_label(&mut self, key: &str, value: &str)
        ensures
            final(self)@ == spec_with_label(old(self)@, key@, value@),
    {
        self.labels.push((key.to_owned(), value.to_owned()));
        proof {
            assert(labels_view(self.labels@) =~= labels_view(old(self).labels@).push(
                (key@, value@),
            ));
        }
    }

    /// Returns a copy with the same model.
    pub fn snapshot(&self) -> (m: Metric)
        ensures
            m@ == self@,
    {
        let mut labels: Vec<(String, String)> = Vec::new();
        let mut i: usize = 0;
        while i < self.labels.len()
            invariant
                i <= self.labels.len(),
                labels@ =~= self.labels@.take(i as int),
            decreases self.labels.len() - i,
        {
            let pair = &self.labels[i];
            labels.push((pair.0.clone(), pair.1.clone()));
            proof {
                assert(labels@ =~= self.labels@.take(i + 1 as int));
            }
            i = i + 1;
        }
        proof {
            assert(self.labels@.take(self.labels@.len() as int) =~= self.labels@);
        }
        Metric {
            name: self.name.clone(),
            metric_type: self.metric_type,
            value: self.value.clone(),
            labels,
            observed_at: self.observed_at,
        }
    }

    /// Renders the metric as one exposition line, without a newline.
    pub fn to_prometheus_format(&self) -> (s: String)
        ensures
            s@ == spec_render_metric(self@),
    {
        proof {
            reveal_strlit("{");
            reveal_strlit("}");
            reveal_strlit(",");
            reveal_strlit("=\"");
            reveal_strlit("\"");
            reveal_strlit(" ");
        }
        let mut s = self.name.clone();
        if self.labels.len() > 0 {
            s.append("{");
            let ghost all = labels_view(self.labels@);
            let mut i: usize = 0;
            while i < self.labels.len()
                invariant
                    0 < self.labels.len(),
                    i <= self.labels.len(),
                    all == labels_view(self.labels@),
                    s@ == self.name@ + seq!['{'] + spec_labels_text(all.take(i as int)),
                decreases self.labels.len() - i,
            {
                proof {
                    reveal_strlit(",");
                    reveal_strlit("=\"");
                    reveal_strlit("\"");
                }
                if i > 0 {
                    s.append(",");
                }
                let pair = &self.labels[i];
                s.append(pair.0.as_str());
                s.append("=\"");
                s.append(pair.1.as_str());
                s.append("\"");
                proof {
                    assert(all.take(i + 1 as int) =~= all.take(i as int).push(all[i as int]));
                    lemma_labels_text_push(all.take(i as int), all[i as int]);
                    assert(spec_label_text(all[i as int]) =~= pair.0@ + seq!['=', '"'] + pair.1@
                        + seq!['"']);
                    assert(s@ =~= self.name@ + seq!['{'] + spec_labels_text(
                        all.take(i + 1 as int),
                    ));
                }
                i = i + 1;
            }
            proof {
                assert(all.take(self.labels.len() as int) =~= all);
            }
            s.append("}");
        }
        s.append(" ");
        s.append(self.value.as_str());
        proof {
            assert(s@ =~= spec_render_metric(self@));
        }
        s
    }
}

} // verus!

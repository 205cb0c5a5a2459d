//! The metric registry: storage, registration, update and textual export of
//! the metric set.
//!
//! [`MetricTable`] is the sequential core: a name-keyed table of metrics
//! with exact contracts over its mathematical view. [`MetricRegistry`] wraps
//! one table in a verified reader-writer lock, so a sampling task and any
//! number of scrape handlers can share it across threads.
//!
//! Export order is the registration order, which is stable: a metric keeps
//! its position for the life of the registry.

use vstd::prelude::*;
use vstd::rwlock::{RwLock, RwLockPredicate};

use crate::error::AppError;
use crate::metric::{
    count_char, lemma_count_char_concat, lemma_render_metric_newline_free, newline_free,
    spec_new_metric, spec_render_metric, spec_with_label, spec_with_value, Metric, MetricModel,
    MetricType,
};

verus! {

/// Every metric name occurs at most once in `s`.
pub open spec fn unique_names(s: Seq<MetricModel>) -> bool {
    forall|i: int, j: int| 0 <= i < j < s.len() ==> s[i].name != s[j].name
}

/// Some metric in `s` is named `name`.
pub open spec fn contains_name(s: Seq<MetricModel>, name: Seq<char>) -> bool {
    exists|i: int| 0 <= i < s.len() && s[i].name == name
}

/// The table after a registration: unchanged when the name is present,
/// extended by a fresh metric otherwise.
pub open spec fn spec_register(s: Seq<MetricModel>, name: Seq<char>, kind: MetricType) -> Seq<
    MetricModel,
> {
    if contains_name(s, name) {
        s
    } else {
        s.push(spec_new_metric(name, kind))
    }
}

/// The table after a gauge overwrite at tick `now`: the entry named `name`
/// (if any) carries the new value text, every other entry is untouched.
pub open spec fn spec_update(
    s: Seq<MetricModel>,
    name: Seq<char>,
    value: Seq<char>,
    now: nat,
) -> Seq<MetricModel> {
    Seq::new(
        s.len(),
        |i: int|
            if s[i].name == name {
                spec_with_value(s[i], value, now)
            } else {
                s[i]
            },
    )
}

/// The table after a label append on the entry named `name` (if any).
pub open spec fn spec_add_label(
    s: Seq<MetricModel>,
    name: Seq<char>,
    key: Seq<char>,
    value: Seq<char>,
) -> Seq<MetricModel> {
    Seq::new(
        s.len(),
        |i: int|
            if s[i].name == name {
                spec_with_label(s[i], key, value)
            } else {
                s[i]
            },
    )
}

/// The rendered lines of `s` in order, separated by newlines, with no
/// trailing newline (and empty for an empty table).
pub open spec fn spec_render_lines(s: Seq<MetricModel>) -> Seq<char>
    decreases s.len(),
{
    if s.len() == 0 {
        Seq::<char>::empty()
    } else if s.len() == 1 {
        spec_render_metric(s[0])
    } else {
        spec_render_lines(s.drop_last()) + seq!['\n'] + spec_render_metric(s.last())
    }
}

/// The full exposition text of `s`: its lines joined by newlines, then one
/// trailing newline.
pub open spec fn spec_render_table(s: Seq<MetricModel>) -> Seq<char> {
    spec_render_lines(s) + seq!['\n']
}

/// Appending a metric extends the rendered lines by a newline-separated
/// rendering of that metric (with no separator when it is the first).
pub proof fn lemma_render_lines_push(s: Seq<MetricModel>, m: MetricModel)
    ensures
        spec_render_lines(s.push(m)) == if s.len() == 0 {
            spec_render_metric(m)
        } else {
            spec_render_lines(s) + seq!['\n'] + spec_render_metric(m)
        },
{
    let pushed = s.push(m);
    assert(pushed.last() == m);
    assert(pushed.drop_last() =~= s);
}

/// The sequential core of the registry: metrics in registration order,
/// names unique, plus a logical clock that stamps value updates.
pub struct MetricTable {
    /// The metrics, in registration order.
    pub metrics: Vec<Metric>,
    /// The logical clock: the tick handed to the most recent update.
    pub ticks: u64,
}

impl View for MetricTable {
    type V = Seq<MetricModel>;

    open spec fn view(&self) -> Seq<MetricModel> {
        self.metrics@.map_values(|m: Metric| m@)
    }
}

impl MetricTable {
    /// Well-formedness: names are unique and no metric was stamped after
    /// the current tick.
    pub open spec fn wf(&self) -> bool {
        &&& unique_names(self@)
        &&& forall|i: int| 0 <= i < self@.len() ==> self@[i].observed_at <= self.ticks as nat
    }

    /// Creates an empty table.
    pub fn new() -> (t: MetricTable)
        ensures
            t.wf(),
            t@ == Seq::<MetricModel>::empty(),
            t.ticks == 0,
    {
        let t = MetricTable { metrics: Vec::new(), ticks: 0 };
        proof {
            assert(t@ =~= Seq::<MetricModel>::empty());
        }
        t
    }

    /// Finds the position of the metric named `name`, if any.
    fn find_index(&self, name: &str) -> (r: Option<usize>)
        ensures
            match r {
                Some(i) => i < self@.len() && self@[i as int].name == name@,
                None => !contains_name(self@, name@),
            },
    {
        let key: String = name.to_owned();
        let n = self.metrics.len();
        let mut i: usize = 0;
        while i < n
            invariant
                n == self@.len(),
                key@ == name@,
                i <= n,
                forall|j: int| 0 <= j < i ==> self@[j].name != name@,
            decreases n - i,
        {
            if self.metrics[i].name == key {
                return Some(i);
            }
            i = i + 1;
        }
        None
    }

    /// Registers a metric: a fresh gauge with value text `0` and no labels
    /// when the name is absent, a no-op when it is already present, and a
    /// rejection of the empty name.
    pub fn register_metric(&mut self, name: &str, metric_type: MetricType) -> (r: Result<
        (),
        AppError,
    >)
        requires
            old(self).wf(),
        ensures
            final(self).wf(),
            final(self).ticks == old(self).ticks,
            name@.len() == 0 ==> r == Err::<(), AppError>(AppError::InvalidInput) && *final(self)
                == *old(self),
            name@.len() > 0 ==> r == Ok::<(), AppError>(()) && final(self)@ == spec_register(
                old(self)@,
                name@,
                metric_type,
            ),
            name@.len() > 0 ==> contains_name(final(self)@, name@),
    {
        if name.is_empty() {
            return Err(AppError::InvalidInput);
        }
        match self.find_index(name) {
            Some(i) => {
                proof {
                    assert(contains_name(self@, name@));
                    assert(spec_register(self@, name@, metric_type) =~= self@);
                }
                Ok(())
            },
            None => {
                let m = Metric::new(name, metric_type);
                self.metrics.push(m);
                proof {
                    assert(self@ =~= old(self)@.push(spec_new_metric(name@, metric_type)));
                    assert(contains_name(self@, name@)) by {
                        assert(self@[self@.len() - 1].name == name@);
                    }
                }
                Ok(())
            },
        }
    }

    /// Overwrites the value of the gauge named `name` and stamps it with a
    /// fresh tick; an unregistered name is reported as `NotFound` and
    /// creates nothing.
    pub fn update_metric(&mut self, name: &str, value: String) -> (r: Result<(), AppError>)
        requires
            old(self).wf(),
        ensures
            final(self).wf(),
            r is Ok <==> contains_name(old(self)@, name@),
            !contains_name(old(self)@, name@) ==> r == Err::<(), AppError>(AppError::NotFound)
                && *final(self) == *old(self),
            contains_name(old(self)@, name@) ==> final(self)@ == spec_update(
                old(self)@,
                name@,
                value@,
                final(self).ticks as nat,
            ) && old(self).ticks <= final(self).ticks,
    {
        match self.find_index(name) {
            Some(i) => {
                let now = if self.ticks < u64::MAX {
                    self.ticks + 1
                } else {
                    self.ticks
                };
                self.ticks = now;
                match self.metrics[i].metric_type {
                    MetricType::Gauge => self.metrics[i].set_value(value, now),
                }
                proof {
                    assert(contains_name(old(self)@, name@)) by {
                        assert(old(self)@[i as int].name == name@);
                    }
                    assert forall|k: int|
                        0 <= k < old(self)@.len() && k != i implies old(self)@[k].name
                        != name@ by {
                        assert(old(self)@[i as int].name == name@);
                    }
                    assert(self@ =~= spec_update(old(self)@, name@, value@, now as nat));
                }
                Ok(())
            },
            None => Err(AppError::NotFound),
        }
    }

    /// Appends a label pair to the metric named `name`; an unregistered
    /// name is reported as `NotFound`.
    pub fn add_label(&mut self, name: &str, key: &str, value: &str) -> (r: Result<(), AppError>)
        requires
            old(self).wf(),
        ensures
            final(self).wf(),
            final(self).ticks == old(self).ticks,
            r is Ok <==> contains_name(old(self)@, name@),
            !contains_name(old(self)@, name@) ==> r == Err::<(), AppError>(AppError::NotFound)
                && *final(self) == *old(self),
            contains_name(old(self)@, name@) ==> final(self)@ == spec_add_label(
                old(self)@,
                name@,
                key@,
                value@,
            ),
    {
        match self.find_index(name) {
            Some(i) => {
                self.metrics[i].add_label(key, value);
                proof {
                    assert(contains_name(old(self)@, name@)) by {
                        assert(old(self)@[i as int].name == name@);
                    }
                    assert forall|k: int|
                        0 <= k < old(self)@.len() && k != i implies old(self)@[k].name
                        != name@ by {
                        assert(old(self)@[i as int].name == name@);
                    }
                    assert(self@ =~= spec_add_label(old(self)@, name@, key@, value@));
                }
                Ok(())
            },
            None => Err(AppError::NotFound),
        }
    }

    /// Looks up the metric named `name` and returns a snapshot of it.
    pub fn get_metric(&self, name: &str) -> (r: Option<Metric>)
        ensures
            match r {
                Some(m) => contains_name(self@, name@) && m@.name == name@ && exists|i: int|
                    0 <= i < self@.len() && self@[i] == m@,
                None => !contains_name(self@, name@),
            },
    {
        match self.find_index(name) {
            Some(i) => {
                let m = self.metrics[i].snapshot();
                proof {
                    assert(contains_name(self@, name@)) by {
                        assert(self@[i as int].name == name@);
                    }
                }
                Some(m)
            },
            None => None,
        }
    }

    /// Renders the whole table as exposition text: one line per metric in
    /// registration order, separated by newlines, with a trailing newline.
    pub fn render(&self) -> (s: String)
        ensures
            s@ == spec_render_table(self@),
    {
        proof {
            reveal_strlit("\n");
        }
        let mut s = String::new();
        let n = self.metrics.len();
        let mut i: usize = 0;
        while i < n
            invariant
                n == self@.len(),
                i <= n,
                s@ == spec_render_lines(self@.take(i as int)),
            decreases n - i,
        {
            proof {
                reveal_strlit("\n");
            }
            if i > 0 {
                s.append("\n");
            }
            let line = self.metrics[i].to_prometheus_format();
            s.append(line.as_str());
            proof {
                assert(self@.take(i + 1 as int) =~= self@.take(i as int).push(self@[i as int]));
                lemma_render_lines_push(self@.take(i as int), self@[i as int]);
                assert(s@ =~= spec_render_lines(self@.take(i + 1 as int)));
            }
            i = i + 1;
        }
        proof {
            assert(self@.take(n as int) =~= self@);
        }
        s.append("\n");
        s
    }
}

/// Registration is idempotent: registering a name a second time leaves the
/// table — values, labels and identity of every metric — unchanged.
pub proof fn lemma_register_idempotent(s: Seq<MetricModel>, name: Seq<char>, kind: MetricType)
    ensures
        spec_register(spec_register(s, name, kind), name, kind) == spec_register(s, name, kind),
{
    let s1 = spec_register(s, name, kind);
    if !contains_name(s, name) {
        assert(s1[s.len() as int].name == name);
        assert(contains_name(s1, name));
    }
}

proof fn lemma_render_lines_newline_count(s: Seq<MetricModel>)
    requires
        forall|i: int| 0 <= i < s.len() ==> newline_free(#[trigger] s[i]),
    ensures
        count_char(spec_render_lines(s), '\n') == if s.len() == 0 {
            0nat
        } else {
            (s.len() - 1) as nat
        },
    decreases s.len(),
{
    if s.len() == 0 {
    } else if s.len() == 1 {
        lemma_render_metric_newline_free(s[0]);
    } else {
        lemma_render_lines_newline_count(s.drop_last());
        lemma_render_metric_newline_free(s.last());
        lemma_count_char_concat(spec_render_lines(s.drop_last()), seq!['\n'], '\n');
        lemma_count_char_concat(
            spec_render_lines(s.drop_last()) + seq!['\n'],
            spec_render_metric(s.last()),
            '\n',
        );
        assert(count_char(seq!['\n'], '\n') == 1) by {
            assert(count_char(Seq::<char>::empty(), '\n') == 0);
            assert(seq!['\n'].drop_last() =~= Seq::<char>::empty());
        }
    }
}

/// Every export parses as one line per metric: when no metric's content
/// holds a newline, the exposition text holds exactly one newline per
/// metric — each closing that metric's line — and the empty table renders
/// as a single newline.
pub proof fn lemma_export_line_count(s: Seq<MetricModel>)
    requires
        forall|i: int| 0 <= i < s.len() ==> newline_free(#[trigger] s[i]),
    ensures
        count_char(spec_render_table(s), '\n') == if s.len() == 0 {
            1nat
        } else {
            s.len()
        },
{
    lemma_render_lines_newline_count(s);
    lemma_count_char_concat(spec_render_lines(s), seq!['\n'], '\n');
    assert(count_char(seq!['\n'], '\n') == 1) by {
        assert(count_char(Seq::<char>::empty(), '\n') == 0);
        assert(seq!['\n'].drop_last() =~= Seq::<char>::empty());
    }
}

/// The invariant a [`MetricRegistry`] maintains on its shared table: the
/// table is well-formed at every lock hand-over.
pub struct RegistryInv {}

impl RwLockPredicate<MetricTable> for RegistryInv {
    open spec fn inv(self, t: MetricTable) -> bool {
        t.wf()
    }
}

/// A thread-safe registry: one [`MetricTable`] behind a verified
/// reader-writer lock. A single sampling task and any number of concurrent
/// scrape handlers may share a registry by reference; every mutation holds
/// the write half, every export the read half, so a reader always sees each
/// metric whole — the pre- or the post-update value, never a torn one.
pub struct MetricRegistry {
    pub(crate) lock: RwLock<MetricTable, RegistryInv>,
}

impl MetricRegistry {
    /// Creates an empty registry.
    pub fn new() -> MetricRegistry {
        MetricRegistry { lock: RwLock::new(MetricTable::new(), Ghost(RegistryInv {})) }
    }

    /// Registers a metric under `name`: a no-op when the name is present,
    /// a rejection of the empty name, and a fresh zero-valued gauge
    /// otherwise.
    pub fn register_metric(&self, name: &str, metric_type: MetricType) -> (r: Result<(), AppError>)
        ensures
            name@.len() == 0 ==> r == Err::<(), AppError>(AppError::InvalidInput),
            name@.len() > 0 ==> r == Ok::<(), AppError>(()),
    {
        let (mut t, handle) = self.lock.acquire_write();
        let r = t.register_metric(name, metric_type);
        handle.release_write(t);
        r
    }

    /// Overwrites the value of the gauge named `name` with the decimal text
    /// `value`; an unregistered name is reported as `NotFound` and creates
    /// nothing. The outcome reflects one well-formed table state: `Ok`
    /// exactly when that state held the name.
    pub fn update_metric(&self, name: &str, value: String) -> (r: Result<(), AppError>)
        ensures
            r is Err ==> r == Err::<(), AppError>(AppError::NotFound),
            exists|v: Seq<MetricModel>|
                #[trigger] unique_names(v) && (r is Ok <==> contains_name(v, name@)),
    {
        let (mut t, handle) = self.lock.acquire_write();
        let ghost v = t@;
        let r = t.update_metric(name, value);
        handle.release_write(t);
        proof {
            assert(unique_names(v) && (r is Ok <==> contains_name(v, name@)));
        }
        r
    }

    /// Appends a label pair to the metric named `name`; an unregistered
    /// name is reported as `NotFound`. The outcome reflects one well-formed
    /// table state: `Ok` exactly when that state held the name.
    pub fn add_label(&self, name: &str, key: &str, value: &str) -> (r: Result<(), AppError>)
        ensures
            r is Err ==> r == Err::<(), AppError>(AppError::NotFound),
            exists|v: Seq<MetricModel>|
                #[trigger] unique_names(v) && (r is Ok <==> contains_name(v, name@)),
    {
        let (mut t, handle) = self.lock.acquire_write();
        let ghost v = t@;
        let r = t.add_label(name, key, value);
        handle.release_write(t);
        proof {
            assert(unique_names(v) && (r is Ok <==> contains_name(v, name@)));
        }
        r
    }

    /// Returns a snapshot of the metric named `name`, if it is registered:
    /// a metric of that name drawn whole from one well-formed table state,
    /// or `None` when that state did not hold the name.
    pub fn get_metric(&self, name: &str) -> (r: Option<Metric>)
        ensures
            r matches Some(m) ==> m@.name == name@,
            exists|v: Seq<MetricModel>|
                #[trigger] unique_names(v) && (r is Some <==> contains_name(v, name@)) && (
                r matches Some(m) ==> contains_name(v, m@.name) && v.contains(m@)),
    {
        let handle = self.lock.acquire_read();
        let r = handle.borrow().get_metric(name);
        proof {
            let t = handle.view();
            assert(unique_names(t@) && (r is Some <==> contains_name(t@, name@)));
            if r is Some {
                assert(t@.contains(r->0@));
            }
        }
        handle.release_read();
        r
    }

    /// Renders the current metric set as exposition text: one line per
    /// metric in registration order, with a trailing newline. The text is a
    /// complete rendering of one well-formed table state; concurrent
    /// updates are either wholly in it or wholly absent.
    pub fn get_prometheus_metrics(&self) -> (r: Result<String, AppError>)
        ensures
            r is Ok,
            exists|v: Seq<MetricModel>|
                #[trigger] unique_names(v) && (r->Ok_0)@ == spec_render_table(v),
    {
        let handle = self.lock.acquire_read();
        let s = handle.borrow().render();
        proof {
            let t = handle.view();
            assert(unique_names(t@) && s@ == spec_render_table(t@));
        }
        handle.release_read();
        Ok(s)
    }
}

} // verus!

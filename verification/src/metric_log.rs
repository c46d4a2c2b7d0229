//! Updates of metrics, in the order in which they are made.
//!
//! The log holds what a metrics registry has to apply: which family, with which labels, and how
//! the value changes.
use vstd::prelude::*;
use vstd::string::*;

use crate::time::Duration;

verus! {

/// How an update changes a metric.
#[derive(Clone, Copy, Debug, PartialEq, Eq, Structural)]
pub enum MetricOperation {
    IncrementCounter,
    SetGauge,
    AddToGauge,
    SubtractFromGauge,
    RecordDistribution,
}

/// The value of an update.
#[derive(Clone, Copy, Debug, PartialEq, Eq, Structural)]
pub enum MetricValue {
    Integer(i128),
    Seconds(Duration),
    Milliseconds(Duration),
}

/// A label of a metric.
#[derive(Debug)]
pub struct MetricLabel {
    pub name: &'static str,
    pub value: String,
}

/// One update of one metric.
#[derive(Debug)]
pub struct MetricUpdate {
    pub operation: MetricOperation,
    pub family: &'static str,
    pub value: MetricValue,
    pub labels: Vec<MetricLabel>,
}

/// What an update says.
pub struct UpdateView {
    pub operation: MetricOperation,
    pub family: Seq<char>,
    pub value: MetricValue,
    pub labels: Seq<(Seq<char>, Seq<char>)>,
}

/// The names and values of a list of labels.
pub open spec fn label_texts(labels: Seq<MetricLabel>) -> Seq<(Seq<char>, Seq<char>)> {
    labels.map_values(|label: MetricLabel| (label.name@, label.value@))
}

impl View for MetricUpdate {
    type V = UpdateView;

    open spec fn view(&self) -> UpdateView {
        UpdateView {
            operation: self.operation,
            family: self.family@,
            value: self.value,
            labels: label_texts(self.labels@),
        }
    }
}

/// The updates that were made, oldest first.
pub struct MetricLog {
    updates: Vec<MetricUpdate>,
}

impl View for MetricLog {
    type V = Seq<UpdateView>;

    closed spec fn view(&self) -> Seq<UpdateView> {
        self.updates@.map_values(|update: MetricUpdate| update@)
    }
}

impl MetricLog {
    pub fn new() -> (log: MetricLog)
        ensures
            log@ == Seq::<UpdateView>::empty(),
    {
        let log = MetricLog { updates: Vec::new() };
        assert(log@ =~= Seq::<UpdateView>::empty());
        log
    }

    /// Adds an update at the end.
    pub fn record(&mut self, update: MetricUpdate)
        ensures
            final(self)@ == old(self)@.push(update@),
    {
        self.updates.push(update);
        assert(self@ =~= old(self)@.push(update@));
    }

    /// Takes out all updates.
    pub fn take(&mut self) -> (updates: Vec<MetricUpdate>)
        ensures
            final(self)@ == Seq::<UpdateView>::empty(),
            updates@.map_values(|update: MetricUpdate| update@) == old(self)@,
    {
        let mut updates: Vec<MetricUpdate> = Vec::new();
        std::mem::swap(&mut updates, &mut self.updates);
        assert(self@ =~= Seq::<UpdateView>::empty());
        updates
    }
}

/// The update that adds to a counter.
pub open spec fn counter(
    family: Seq<char>,
    increment: int,
    labels: Seq<(Seq<char>, Seq<char>)>,
) -> UpdateView {
    UpdateView {
        operation: MetricOperation::IncrementCounter,
        family,
        value: MetricValue::Integer(increment as i128),
        labels,
    }
}

/// The update that sets a gauge.
pub open spec fn gauge(
    family: Seq<char>,
    value: int,
    labels: Seq<(Seq<char>, Seq<char>)>,
) -> UpdateView {
    UpdateView {
        operation: MetricOperation::SetGauge,
        family,
        value: MetricValue::Integer(value as i128),
        labels,
    }
}

/// A truth value as a gauge shows it.
pub open spec fn flag(value: bool) -> int {
    if value {
        1
    } else {
        0
    }
}

pub fn flag_value(value: bool) -> (number: u64)
    ensures
        number == flag(value),
{
    if value {
        1
    } else {
        0
    }
}

pub(crate) fn no_labels() -> (labels: Vec<MetricLabel>)
    ensures
        label_texts(labels@) == Seq::<(Seq<char>, Seq<char>)>::empty(),
{
    let labels = Vec::new();
    assert(label_texts(labels@) =~= Seq::<(Seq<char>, Seq<char>)>::empty());
    labels
}

pub(crate) fn one_label(name: &'static str, value: &str) -> (labels: Vec<MetricLabel>)
    ensures
        label_texts(labels@) == seq![(name@, value@)],
{
    let mut labels: Vec<MetricLabel> = Vec::new();
    labels.push(MetricLabel { name, value: value.to_owned() });
    assert(label_texts(labels@) =~= seq![(name@, value@)]);
    labels
}

/// Adds a label to a list of labels.
pub(crate) fn with_label(labels: Vec<MetricLabel>, name: &'static str, value: &str) -> (more: Vec<
    MetricLabel,
>)
    ensures
        label_texts(more@) == label_texts(labels@).push((name@, value@)),
{
    let mut more = labels;
    more.push(MetricLabel { name, value: value.to_owned() });
    assert(label_texts(more@) =~= label_texts(labels@).push((name@, value@)));
    more
}

pub(crate) fn two_labels(
    name0: &'static str,
    value0: &str,
    name1: &'static str,
    value1: &str,
) -> (labels: Vec<MetricLabel>)
    ensures
        label_texts(labels@) == seq![(name0@, value0@), (name1@, value1@)],
{
    let labels = with_label(one_label(name0, value0), name1, value1);
    assert(label_texts(labels@) =~= seq![(name0@, value0@), (name1@, value1@)]);
    labels
}

pub(crate) fn three_labels(
    name0: &'static str,
    value0: &str,
    name1: &'static str,
    value1: &str,
    name2: &'static str,
    value2: &str,
) -> (labels: Vec<MetricLabel>)
    ensures
        label_texts(labels@) == seq![(name0@, value0@), (name1@, value1@), (name2@, value2@)],
{
    let labels = with_label(two_labels(name0, value0, name1, value1), name2, value2);
    assert(label_texts(labels@) =~= seq![
        (name0@, value0@),
        (name1@, value1@),
        (name2@, value2@),
    ]);
    labels
}

/// Records an addition to a counter.
pub(crate) fn log_counter_with_labels(
    log: &mut MetricLog,
    family: &'static str,
    increment: u64,
    labels: Vec<MetricLabel>,
)
    ensures
        final(log)@ == old(log)@.push(counter(family@, increment as int, label_texts(labels@))),
{
    log.record(
        MetricUpdate {
            operation: MetricOperation::IncrementCounter,
            family,
            value: MetricValue::Integer(increment as i128),
            labels,
        },
    );
}

pub(crate) fn log_counter(log: &mut MetricLog, family: &'static str, increment: u64)
    ensures
        final(log)@ == old(log)@.push(counter(family@, increment as int, Seq::empty())),
{
    log_counter_with_labels(log, family, increment, no_labels());
}

/// Records the value of a gauge.
pub(crate) fn log_gauge_with_labels(
    log: &mut MetricLog,
    family: &'static str,
    value: u64,
    labels: Vec<MetricLabel>,
)
    ensures
        final(log)@ == old(log)@.push(gauge(family@, value as int, label_texts(labels@))),
{
    log.record(
        MetricUpdate {
            operation: MetricOperation::SetGauge,
            family,
            value: MetricValue::Integer(value as i128),
            labels,
        },
    );
}

pub(crate) fn log_gauge(log: &mut MetricLog, family: &'static str, value: u64)
    ensures
        final(log)@ == old(log)@.push(gauge(family@, value as int, Seq::empty())),
{
    log_gauge_with_labels(log, family, value, no_labels());
}

pub(crate) fn four_labels(
    name0: &'static str,
    value0: &str,
    name1: &'static str,
    value1: &str,
    name2: &'static str,
    value2: &str,
    name3: &'static str,
    value3: &str,
) -> (labels: Vec<MetricLabel>)
    ensures
        label_texts(labels@) == seq![
            (name0@, value0@),
            (name1@, value1@),
            (name2@, value2@),
            (name3@, value3@),
        ],
{
    let labels = with_label(
        three_labels(name0, value0, name1, value1, name2, value2),
        name3,
        value3,
    );
    assert(label_texts(labels@) =~= seq![
        (name0@, value0@),
        (name1@, value1@),
        (name2@, value2@),
        (name3@, value3@),
    ]);
    labels
}

/// The update that makes any change to a metric.
pub open spec fn update(
    operation: MetricOperation,
    family: Seq<char>,
    value: MetricValue,
    labels: Seq<(Seq<char>, Seq<char>)>,
) -> UpdateView {
    UpdateView { operation, family, value, labels }
}

/// Records any change to a metric.
pub(crate) fn log_update(
    log: &mut MetricLog,
    operation: MetricOperation,
    family: &'static str,
    value: MetricValue,
    labels: Vec<MetricLabel>,
)
    ensures
        final(log)@ == old(log)@.push(update(operation, family@, value, label_texts(labels@))),
{
    log.record(MetricUpdate { operation, family, value, labels });
}

/// How a timer treats the operation that it times.
#[derive(Clone, Copy, Debug, PartialEq, Eq, Structural)]
pub enum TimerKind {
    /// Records how long the operation took.
    Plain,
    /// Records also how the operation ended: a timer that is not finished counts as an error.
    Status,
    /// As `Status`, but a timer that is not finished counts as canceled.
    Cancelable,
}

/// A timer of a family, with the labels that are known when it starts.
#[derive(Debug)]
pub struct MetricTimer {
    pub kind: TimerKind,
    pub family: &'static str,
    pub labels: Vec<MetricLabel>,
}

/// What a timer measures.
pub struct TimerView {
    pub kind: TimerKind,
    pub family: Seq<char>,
    pub labels: Seq<(Seq<char>, Seq<char>)>,
}

impl View for MetricTimer {
    type V = TimerView;

    open spec fn view(&self) -> TimerView {
        TimerView { kind: self.kind, family: self.family@, labels: label_texts(self.labels@) }
    }
}

/// How a timer ends.
#[derive(Clone, Copy, Debug, PartialEq, Eq, Structural)]
pub enum TimerEnd {
    Finished,
    FinishedWithDeveloperError,
    /// The timer is not finished.
    Dropped,
}

} // verus!

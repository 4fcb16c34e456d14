//! From fetched text to measurement points: what one poll of the source
//! computes once the text is there.

use crate::json::{parsed_json, Json, JsonValue};
use crate::kwollect::{batch_of, parse_measurements, BatchError, MeasureKwollect, NumericValue, Record};
use crate::label::{lookup_label, Label, LabelValue};
use crate::window::Config;
use vstd::prelude::*;
use vstd::string::StringExecFns;

verus! {

/// Who a point is about, or on whose behalf it was measured: a kind and an
/// identifier.
#[derive(Debug, PartialEq, Eq)]
pub struct Identity {
    pub kind: String,
    pub id: String,
}

/// On whose behalf a point was measured.
#[derive(Debug, PartialEq, Eq)]
pub enum Consumer {
    LocalMachine,
    Custom(Identity),
}

/// A measurement point, ready for the pipeline. `metric` is the handle under
/// which the pipeline registered the metric.
#[derive(Debug, PartialEq, Eq)]
pub struct Point {
    pub metric: usize,
    pub resource: Identity,
    pub consumer: Consumer,
    pub value: NumericValue,
    pub attributes: Vec<(String, LabelValue)>,
}

/// The mathematical value of a [`Point`]: identities as pairs of kind and
/// identifier, and no pair for the local machine.
pub struct PointModel {
    pub metric: usize,
    pub resource: (Seq<char>, Seq<char>),
    pub consumer: Option<(Seq<char>, Seq<char>)>,
    pub value: NumericValue,
    pub attributes: Seq<(Seq<char>, Label)>,
}

impl View for Point {
    type V = PointModel;

    open spec fn view(&self) -> PointModel {
        PointModel {
            metric: self.metric,
            resource: (self.resource.kind@, self.resource.id@),
            consumer: match self.consumer {
                Consumer::LocalMachine => None,
                Consumer::Custom(who) => Some((who.kind@, who.id@)),
            },
            value: self.value,
            attributes: Seq::new(
                self.attributes@.len(),
                |i: int| (self.attributes@[i].0@, self.attributes@[i].1@),
            ),
        }
    }
}

/// The point that a record gives under a metric handle. The resource is the
/// device; the consumer is the device named by the label `_device_orig` where
/// that label is a string, else the local machine; the record's `metric_id`
/// goes along as an attribute.
pub open spec fn point_of(record: Record, metric: usize) -> PointModel {
    PointModel {
        metric,
        resource: ("device_id"@, record.device_id),
        consumer: match lookup_label(record.labels, "_device_orig"@) {
            Some(Label::Text(origin)) => Some(("device_origin"@, origin)),
            _ => None,
        },
        value: record.value,
        attributes: seq![("metric_id"@, Label::Text(record.metric_id))],
    }
}

/// Creates a measurement point from a measure and the handle of its metric.
pub fn create_measurement_point(measure: &MeasureKwollect, metric: usize) -> (r: Point)
    ensures
        r@ == point_of(measure@, metric),
{
    let resource = Identity { kind: String::from_str("device_id"), id: measure.device_id.clone() };
    let consumer = match measure.labels.get("_device_orig") {
        Some(LabelValue::String(origin)) => Consumer::Custom(
            Identity { kind: String::from_str("device_origin"), id: origin.clone() },
        ),
        _ => Consumer::LocalMachine,
    };
    let mut attributes: Vec<(String, LabelValue)> = Vec::new();
    attributes.push((String::from_str("metric_id"), LabelValue::String(measure.metric_id.clone())));
    let point = Point { metric, resource, consumer, value: measure.value, attributes };
    proof {
        assert(point@.attributes =~= point_of(measure@, metric).attributes);
    }
    point
}

/// Why a record gives no point.
#[derive(Clone, Copy, Debug, PartialEq, Eq, Structural)]
pub enum MapError {
    /// The record's `metric_id` is none of the metrics that were registered.
    UnknownMetric,
}

/// Why a fetch gives no JSON value.
#[derive(Clone, Copy, Debug, PartialEq, Eq, Structural)]
pub enum FetchError {
    /// The request failed before a body was read: no connection, a timeout,
    /// a refused status.
    Transport,
    /// The body is not JSON.
    InvalidPayload,
}

/// Why a poll gives no points.
#[derive(Clone, Copy, Debug, PartialEq, Eq, Structural)]
pub enum PollError {
    /// The fetch gave no JSON value.
    Fetch(FetchError),
    /// The fetched JSON is not a batch of records.
    Batch(BatchError),
}

/// The JSON value of a fetch: `None` stands for a request that failed.
pub open spec fn payload_of(fetched: Option<Seq<char>>) -> Result<Json, FetchError> {
    match fetched {
        None => Err(FetchError::Transport),
        Some(text) => match parsed_json(text) {
            None => Err(FetchError::InvalidPayload),
            Some(payload) => Ok(payload),
        },
    }
}

/// The text of a fetch as a mathematical value.
pub open spec fn fetched_text(fetched: Option<&str>) -> Option<Seq<char>> {
    match fetched {
        Some(text) => Some(text@),
        None => None,
    }
}

/// Reads what a fetch brought: the JSON value of the body, where the request
/// gave one and it is JSON.
pub fn read_payload(fetched: Option<&str>) -> (r: Result<JsonValue, FetchError>)
    ensures
        match r {
            Ok(payload) => payload_of(fetched_text(fetched)) == Ok::<Json, FetchError>(payload@),
            Err(e) => payload_of(fetched_text(fetched)) == Err::<Json, FetchError>(e),
        },
{
    match fetched {
        None => Err(FetchError::Transport),
        Some(text) => match JsonValue::parse(text) {
            Some(payload) => Ok(payload),
            None => Err(FetchError::InvalidPayload),
        },
    }
}

/// The handle of the first registered metric with the given name: names and
/// handles stand in two lists, position by position.
pub open spec fn metric_handle(names: Seq<Seq<char>>, handles: Seq<usize>, metric_id: Seq<char>) -> Option<usize>
    decreases names.len(),
{
    if names.len() == 0 || handles.len() == 0 {
        None
    } else if names[0] == metric_id {
        Some(handles[0])
    } else {
        metric_handle(names.skip(1), handles.skip(1), metric_id)
    }
}

/// The point of a record, or why it has none.
pub open spec fn mapped(record: Record, names: Seq<Seq<char>>, handles: Seq<usize>) -> Result<PointModel, MapError> {
    match metric_handle(names, handles, record.metric_id) {
        Some(metric) => Ok(point_of(record, metric)),
        None => Err(MapError::UnknownMetric),
    }
}

/// The points of the records that have one, in the order of the records.
pub open spec fn points_of(records: Seq<Record>, names: Seq<Seq<char>>, handles: Seq<usize>) -> Seq<PointModel>
    decreases records.len(),
{
    if records.len() == 0 {
        Seq::empty()
    } else {
        let before = points_of(records.drop_last(), names, handles);
        match mapped(records.last(), names, handles) {
            Ok(point) => before.push(point),
            Err(_) => before,
        }
    }
}

/// How many of the records have no point.
pub open spec fn dropped_of(records: Seq<Record>, names: Seq<Seq<char>>, handles: Seq<usize>) -> nat
    decreases records.len(),
{
    if records.len() == 0 {
        0
    } else {
        let before = dropped_of(records.drop_last(), names, handles);
        match mapped(records.last(), names, handles) {
            Ok(_) => before,
            Err(_) => before + 1,
        }
    }
}

/// What a poll gives to the pipeline.
#[derive(Debug, PartialEq, Eq)]
pub struct Emission {
    /// The points, in the order of their records.
    pub points: Vec<Point>,
    /// How many records were dropped because they had no point.
    pub dropped: usize,
}

/// The mathematical value of an [`Emission`].
pub struct EmissionModel {
    pub points: Seq<PointModel>,
    pub dropped: nat,
}

/// The points of a list, each as its mathematical value.
pub open spec fn points_view(points: Seq<Point>) -> Seq<PointModel> {
    points.map_values(|p: Point| p@)
}

impl View for Emission {
    type V = EmissionModel;

    open spec fn view(&self) -> EmissionModel {
        EmissionModel { points: points_view(self.points@), dropped: self.dropped as nat }
    }
}

/// What a JSON payload gives: the points of its records and the number of
/// records without one, or the reason why it is no batch.
pub open spec fn payload_outcome(payload: Json, names: Seq<Seq<char>>, handles: Seq<usize>) -> Result<
    EmissionModel,
    PollError,
> {
    match batch_of(payload) {
        Ok(records) => Ok(
            EmissionModel {
                points: points_of(records, names, handles),
                dropped: dropped_of(records, names, handles),
            },
        ),
        Err(e) => Err(PollError::Batch(e)),
    }
}

/// What a fetch gives: `None` stands for a request that failed.
pub open spec fn fetch_outcome(fetched: Option<Seq<char>>, names: Seq<Seq<char>>, handles: Seq<usize>) -> Result<
    EmissionModel,
    PollError,
> {
    match payload_of(fetched) {
        Err(e) => Err(PollError::Fetch(e)),
        Ok(payload) => payload_outcome(payload, names, handles),
    }
}

/// The outcome of a poll as a mathematical value.
pub open spec fn poll_view(r: Result<Emission, PollError>) -> Result<EmissionModel, PollError> {
    match r {
        Ok(emission) => Ok(emission@),
        Err(e) => Err(e),
    }
}

/// The source of one fetch cycle: the settings, the handles of the metrics
/// (position by position with the settings' metric names) and the URL to
/// fetch.
#[derive(Debug, PartialEq, Eq)]
pub struct KwollectSource {
    pub config: Config,
    pub metric: Vec<usize>,
    pub url: String,
}

impl KwollectSource {
    pub fn new(config: Config, metric: Vec<usize>, url: String) -> (r: KwollectSource)
        ensures
            r.config == config,
            r.metric == metric,
            r.url == url,
    {
        KwollectSource { config, metric, url }
    }

    /// The handle under which the metric of the given name was registered.
    pub fn select_metric(&self, metric_id: &str) -> (r: Option<usize>)
        ensures
            r == metric_handle(self.config@.metrics, self.metric@, metric_id@),
    {
        let ghost names = self.config@.metrics;
        let ghost handles = self.metric@;
        let wanted = String::from_str(metric_id);
        let mut i: usize = 0;
        proof {
            assert(names.skip(0) =~= names);
            assert(handles.skip(0) =~= handles);
        }
        while i < self.config.metrics.len() && i < self.metric.len()
            invariant
                i <= self.config.metrics@.len(),
                i <= self.metric@.len(),
                names == self.config@.metrics,
                handles == self.metric@,
                wanted@ == metric_id@,
                metric_handle(names, handles, metric_id@) == metric_handle(
                    names.skip(i as int),
                    handles.skip(i as int),
                    metric_id@,
                ),
            decreases self.config.metrics@.len() - i,
        {
            proof {
                assert(names.skip(i as int).skip(1) =~= names.skip(i as int + 1));
                assert(handles.skip(i as int).skip(1) =~= handles.skip(i as int + 1));
                assert(names.skip(i as int)[0] == self.config.metrics@[i as int]@);
            }
            if self.config.metrics[i] == wanted {
                return Some(self.metric[i]);
            }
            i += 1;
        }
        None
    }

    /// Maps one record to its point: the metric is the registered one whose
    /// name is the record's `metric_id`, and a record of no registered metric
    /// has no point.
    pub fn map_record(&self, measure: &MeasureKwollect) -> (r: Result<Point, MapError>)
        ensures
            match r {
                Ok(point) => mapped(measure@, self.config@.metrics, self.metric@) == Ok::<
                    PointModel,
                    MapError,
                >(point@),
                Err(e) => mapped(measure@, self.config@.metrics, self.metric@) == Err::<
                    PointModel,
                    MapError,
                >(e),
            },
    {
        match self.select_metric(measure.metric_id.as_str()) {
            Some(metric) => Ok(create_measurement_point(measure, metric)),
            None => Err(MapError::UnknownMetric),
        }
    }

    /// Turns a fetched JSON payload into points. The payload must be a batch
    /// of records; a record of no registered metric is dropped and counted,
    /// the others give one point each, in their order.
    pub fn points_from_payload(&self, payload: &JsonValue) -> (r: Result<Emission, PollError>)
        ensures
            poll_view(r) == payload_outcome(payload@, self.config@.metrics, self.metric@),
    {
        let records = match parse_measurements(payload) {
            Ok(records) => records,
            Err(e) => { return Err(PollError::Batch(e)); },
        };
        let ghost all = batch_of(payload@)->Ok_0;
        let ghost names = self.config@.metrics;
        let mut points: Vec<Point> = Vec::new();
        let mut dropped: usize = 0;
        let mut i: usize = 0;
        proof {
            assert(all.take(0) =~= Seq::<Record>::empty());
            assert(points_view(points@) =~= Seq::<PointModel>::empty());
        }
        while i < records.len()
            invariant
                i <= records.len(),
                names == self.config@.metrics,
                all.len() == records@.len(),
                forall|k: int| 0 <= k < all.len() ==> all[k] == (#[trigger] records@[k])@,
                points_view(points@) == points_of(all.take(i as int), names, self.metric@),
                dropped == dropped_of(all.take(i as int), names, self.metric@),
                dropped <= i,
            decreases records.len() - i,
        {
            proof {
                assert(all.take(i as int + 1).drop_last() =~= all.take(i as int));
                assert(all.take(i as int + 1).last() == records@[i as int]@);
            }
            let ghost before = points_view(points@);
            match self.map_record(&records[i]) {
                Ok(point) => {
                    points.push(point);
                    proof {
                        assert(points_view(points@) =~= before.push(point@));
                    }
                },
                Err(_) => {
                    dropped += 1;
                },
            }
            i += 1;
        }
        proof {
            assert(all.take(records@.len() as int) =~= all);
        }
        Ok(Emission { points, dropped })
    }

    /// What one poll computes from what the fetch brought: `None` stands for
    /// a request that failed. A body that is not JSON, or not a batch of
    /// records, ends the poll with an error and no point.
    pub fn interpret(&self, fetched: Option<&str>) -> (r: Result<Emission, PollError>)
        ensures
            poll_view(r) == fetch_outcome(fetched_text(fetched), self.config@.metrics, self.metric@),
    {
        match read_payload(fetched) {
            Ok(payload) => self.points_from_payload(&payload),
            Err(e) => Err(PollError::Fetch(e)),
        }
    }
}

} // verus!

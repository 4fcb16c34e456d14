//! The measurement codec: one Kwollect record between JSON and a typed
//! value, and a batch of them.

use crate::json::{find_member, items_of, json_of, lookup, members_of, Json, JsonNumber, JsonValue};
use crate::label::{
    decode_label, has_key, insert_label, label_of, unique_keys, Label, LabelValue, Labels,
};
use vstd::prelude::*;
use vstd::string::StringExecFns;

verus! {

/// The five members of a record.
#[derive(Clone, Copy, Debug, PartialEq, Eq, Structural)]
pub enum Field {
    DeviceId,
    MetricId,
    Timestamp,
    Value,
    Labels,
}

/// The name under which a field stands in a record.
pub open spec fn field_name(field: Field) -> Seq<char> {
    match field {
        Field::DeviceId => "device_id"@,
        Field::MetricId => "metric_id"@,
        Field::Timestamp => "timestamp"@,
        Field::Value => "value"@,
        Field::Labels => "labels"@,
    }
}

impl Field {
    /// The name under which the field stands in a record.
    pub fn name(self) -> (r: &'static str)
        ensures
            r@ == field_name(self),
    {
        match self {
            Field::DeviceId => "device_id",
            Field::MetricId => "metric_id",
            Field::Timestamp => "timestamp",
            Field::Value => "value",
            Field::Labels => "labels",
        }
    }
}

/// Why a JSON value is not a record or a label.
#[derive(Clone, Copy, Debug, PartialEq, Eq, Structural)]
pub enum DecodeError {
    /// The value that should be a record is not a JSON object.
    NotAnObject,
    /// The record has no member of this name.
    MissingField(Field),
    /// The member of this name has a shape that the field does not take.
    BadValue(Field),
    /// The timestamp is neither a number nor an RFC 3339 string.
    BadTimestamp,
    /// A label is `null` or an object.
    UnsupportedShape,
}

/// The measured value: a floating number, held by its IEEE-754 bit pattern,
/// or an unsigned integer.
#[derive(Clone, Copy, Debug, PartialEq, Eq, Structural)]
pub enum NumericValue {
    Float64(u64),
    UInt64(u64),
}

/// Whether `chrono` reads a text as an RFC 3339 date and time.
pub uninterp spec fn is_rfc3339(text: Seq<char>) -> bool;

/// Asks `chrono::DateTime::parse_from_rfc3339` whether it accepts the text.
/// The contract names the answer [`is_rfc3339`]: the parser reads nothing but
/// the text.
#[verifier::external_body]
fn parses_as_rfc3339(text: &str) -> (r: bool)
    ensures
        r == is_rfc3339(text@),
{
    chrono::DateTime::parse_from_rfc3339(text).is_ok()
}

/// When a sample was taken: the mathematical value of a [`Timestamp`].
pub enum Stamp {
    EpochFloat(u64),
    EpochSeconds(u64),
    Rfc3339(Seq<char>),
}

/// When a sample was taken, in the encoding in which it came: seconds since
/// the epoch as a floating number (held by its IEEE-754 bit pattern) or as an
/// unsigned integer, or an RFC 3339 string.
#[derive(Debug, PartialEq, Eq)]
pub enum Timestamp {
    EpochFloat(u64),
    EpochSeconds(u64),
    Rfc3339(String),
}

impl View for Timestamp {
    type V = Stamp;

    open spec fn view(&self) -> Stamp {
        match self {
            Timestamp::EpochFloat(bits) => Stamp::EpochFloat(*bits),
            Timestamp::EpochSeconds(n) => Stamp::EpochSeconds(*n),
            Timestamp::Rfc3339(s) => Stamp::Rfc3339(s@),
        }
    }
}

impl Clone for Timestamp {
    fn clone(&self) -> (r: Self)
        ensures
            r@ == self@,
    {
        match self {
            Timestamp::EpochFloat(bits) => Timestamp::EpochFloat(*bits),
            Timestamp::EpochSeconds(n) => Timestamp::EpochSeconds(*n),
            Timestamp::Rfc3339(s) => Timestamp::Rfc3339(s.clone()),
        }
    }
}

/// One sample: the mathematical value of a [`MeasureKwollect`].
pub struct Record {
    pub device_id: Seq<char>,
    pub labels: Seq<(Seq<char>, Label)>,
    pub metric_id: Seq<char>,
    pub timestamp: Stamp,
    pub value: NumericValue,
}

/// A measure collected by Kwollect.
#[derive(Debug, PartialEq, Eq)]
pub struct MeasureKwollect {
    pub device_id: String,
    pub labels: Labels,
    pub metric_id: String,
    pub timestamp: Timestamp,
    pub value: NumericValue,
}

impl View for MeasureKwollect {
    type V = Record;

    open spec fn view(&self) -> Record {
        Record {
            device_id: self.device_id@,
            labels: self.labels@,
            metric_id: self.metric_id@,
            timestamp: self.timestamp@,
            value: self.value,
        }
    }
}

/// Whether a record can stand as it is: no label name twice, and a timestamp
/// string that reads as RFC 3339.
pub open spec fn valid_record(record: Record) -> bool {
    &&& unique_keys(record.labels)
    &&& record.timestamp matches Stamp::Rfc3339(s) ==> is_rfc3339(s)
}

/// A text field of a record: the string under the field's name.
pub open spec fn text_field(members: Seq<(Seq<char>, Json)>, field: Field) -> Result<
    Seq<char>,
    DecodeError,
> {
    match lookup(members, field_name(field)) {
        None => Err(DecodeError::MissingField(field)),
        Some(Json::Text(s)) => Ok(s),
        Some(_) => Err(DecodeError::BadValue(field)),
    }
}

/// The timestamp of a record, given whether its text reads as RFC 3339: a
/// floating number or a non-negative integer of seconds, or a string that was
/// accepted.
pub open spec fn timestamp_given(members: Seq<(Seq<char>, Json)>, accepted: bool) -> Result<
    Stamp,
    DecodeError,
> {
    match lookup(members, field_name(Field::Timestamp)) {
        None => Err(DecodeError::MissingField(Field::Timestamp)),
        Some(Json::Number(JsonNumber::Float(bits))) => Ok(Stamp::EpochFloat(bits)),
        Some(Json::Number(JsonNumber::PosInt(n))) => Ok(Stamp::EpochSeconds(n)),
        Some(Json::Number(JsonNumber::NegInt(_))) => Err(DecodeError::BadValue(Field::Timestamp)),
        Some(Json::Text(s)) => if accepted {
            Ok(Stamp::Rfc3339(s))
        } else {
            Err(DecodeError::BadTimestamp)
        },
        Some(_) => Err(DecodeError::BadTimestamp),
    }
}

/// Whether a JSON value is an object whose `timestamp` is a string that reads
/// as RFC 3339.
pub open spec fn timestamp_accepted(value: Json) -> bool {
    match value {
        Json::Object(members) => match lookup(members, field_name(Field::Timestamp)) {
            Some(Json::Text(s)) => is_rfc3339(s),
            _ => false,
        },
        _ => false,
    }
}

/// The measured value of a record: a floating number stays one, a
/// non-negative integer is an unsigned one, anything else is refused.
pub open spec fn value_field(members: Seq<(Seq<char>, Json)>) -> Result<NumericValue, DecodeError> {
    match lookup(members, field_name(Field::Value)) {
        None => Err(DecodeError::MissingField(Field::Value)),
        Some(Json::Number(JsonNumber::Float(bits))) => Ok(NumericValue::Float64(bits)),
        Some(Json::Number(JsonNumber::PosInt(n))) => Ok(NumericValue::UInt64(n)),
        Some(_) => Err(DecodeError::BadValue(Field::Value)),
    }
}

/// The labels that the members of a JSON object decode to, taken in their
/// order: the first member that is no label gives the error, and a name that
/// comes again replaces the value it had.
pub open spec fn labels_of(entries: Seq<(Seq<char>, Json)>) -> Result<
    Seq<(Seq<char>, Label)>,
    DecodeError,
>
    decreases entries.len(),
{
    if entries.len() == 0 {
        Ok(Seq::empty())
    } else {
        match labels_of(entries.drop_last()) {
            Err(e) => Err(e),
            Ok(before) => match label_of(entries.last().1) {
                Err(e) => Err(e),
                Ok(label) => Ok(insert_label(before, entries.last().0, label)),
            },
        }
    }
}

/// The labels of a record: the JSON object under `labels`, decoded.
pub open spec fn labels_field(members: Seq<(Seq<char>, Json)>) -> Result<
    Seq<(Seq<char>, Label)>,
    DecodeError,
> {
    match lookup(members, field_name(Field::Labels)) {
        None => Err(DecodeError::MissingField(Field::Labels)),
        Some(Json::Object(entries)) => labels_of(entries),
        Some(_) => Err(DecodeError::BadValue(Field::Labels)),
    }
}

/// The record that a JSON value decodes to, or why it decodes to none, given
/// whether the text of its timestamp reads as RFC 3339. The fields are taken
/// in the order `device_id`, `metric_id`, `timestamp`, `value`, `labels`, and
/// the first that fails gives the error.
pub open spec fn record_given(value: Json, accepted: bool) -> Result<Record, DecodeError> {
    match value {
        Json::Object(members) => match text_field(members, Field::DeviceId) {
            Err(e) => Err(e),
            Ok(device_id) => match text_field(members, Field::MetricId) {
                Err(e) => Err(e),
                Ok(metric_id) => match timestamp_given(members, accepted) {
                    Err(e) => Err(e),
                    Ok(timestamp) => match value_field(members) {
                        Err(e) => Err(e),
                        Ok(value) => match labels_field(members) {
                            Err(e) => Err(e),
                            Ok(labels) => Ok(
                                Record { device_id, labels, metric_id, timestamp, value },
                            ),
                        },
                    },
                },
            },
        },
        _ => Err(DecodeError::NotAnObject),
    }
}

/// The record that a JSON value decodes to, or why it decodes to none.
pub open spec fn record_of(value: Json) -> Result<Record, DecodeError> {
    record_given(value, timestamp_accepted(value))
}

/// A decoded record seen as its mathematical value.
pub open spec fn record_outcome(r: Result<MeasureKwollect, DecodeError>) -> Result<
    Record,
    DecodeError,
> {
    match r {
        Ok(m) => Ok(m@),
        Err(e) => Err(e),
    }
}

/// Once a member fails to decode, the labels fail with its error, whatever
/// follows.
proof fn lemma_label_error_stays(entries: Seq<(Seq<char>, Json)>, k: int)
    requires
        0 <= k <= entries.len(),
        labels_of(entries.take(k)) is Err,
    ensures
        labels_of(entries) == labels_of(entries.take(k)),
    decreases entries.len() - k,
{
    if k == entries.len() {
        assert(entries.take(k) =~= entries);
    } else {
        assert(entries.take(k + 1).drop_last() =~= entries.take(k));
        lemma_label_error_stays(entries, k + 1);
    }
}

/// Decodes the members of the `labels` object.
fn decode_labels(entries: &Vec<(String, JsonValue)>) -> (r: Result<Labels, DecodeError>)
    ensures
        match r {
            Ok(labels) => labels_of(members_of(*entries)) == Ok::<Seq<(Seq<char>, Label)>, DecodeError>(
                labels@,
            ) && labels.wf(),
            Err(e) => labels_of(members_of(*entries)) == Err::<Seq<(Seq<char>, Label)>, DecodeError>(
                e,
            ),
        },
{
    let ghost all = members_of(*entries);
    let mut labels = Labels::new();
    let mut i: usize = 0;
    proof {
        assert(all.take(0) =~= Seq::<(Seq<char>, Json)>::empty());
    }
    while i < entries.len()
        invariant
            i <= entries.len(),
            all == members_of(*entries),
            all.len() == entries@.len(),
            labels.wf(),
            labels_of(all.take(i as int)) == Ok::<Seq<(Seq<char>, Label)>, DecodeError>(labels@),
        decreases entries.len() - i,
    {
        proof {
            assert(all.take(i as int + 1).drop_last() =~= all.take(i as int));
            assert(all.take(i as int + 1).last() == all[i as int]);
            assert(all[i as int] == (entries@[i as int].0@, json_of(entries@[i as int].1)));
        }
        match decode_label(&entries[i].1) {
            Ok(label) => {
                labels.insert(entries[i].0.clone(), label);
            },
            Err(e) => {
                proof {
                    lemma_label_error_stays(all, i as int + 1);
                }
                return Err(e);
            },
        }
        i += 1;
    }
    proof {
        assert(all.take(entries@.len() as int) =~= all);
    }
    Ok(labels)
}

/// Decodes one record from a JSON object, given whether the text of its
/// timestamp reads as RFC 3339. The five members `device_id`, `metric_id`,
/// `timestamp`, `value` and `labels` are each looked up by name and decoded;
/// other members are passed over. The first of the five, in that order, that
/// is missing or has a shape its field does not take gives the error, and no
/// record is made.
pub fn assemble_record(value: &JsonValue, accepted: bool) -> (r: Result<MeasureKwollect, DecodeError>)
    ensures
        record_outcome(r) == record_given(value@, accepted),
        r matches Ok(m) ==> unique_keys(m@.labels) && (m@.timestamp is Rfc3339 ==> accepted),
{
    let members = match value {
        JsonValue::Object(members) => members,
        _ => { return Err(DecodeError::NotAnObject); },
    };
    let device_id = match find_member(members, Field::DeviceId.name()) {
        None => { return Err(DecodeError::MissingField(Field::DeviceId)); },
        Some(JsonValue::String(s)) => s.clone(),
        Some(_) => { return Err(DecodeError::BadValue(Field::DeviceId)); },
    };
    let metric_id = match find_member(members, Field::MetricId.name()) {
        None => { return Err(DecodeError::MissingField(Field::MetricId)); },
        Some(JsonValue::String(s)) => s.clone(),
        Some(_) => { return Err(DecodeError::BadValue(Field::MetricId)); },
    };
    let timestamp = match find_member(members, Field::Timestamp.name()) {
        None => { return Err(DecodeError::MissingField(Field::Timestamp)); },
        Some(JsonValue::Number(JsonNumber::Float(bits))) => Timestamp::EpochFloat(*bits),
        Some(JsonValue::Number(JsonNumber::PosInt(n))) => Timestamp::EpochSeconds(*n),
        Some(JsonValue::Number(JsonNumber::NegInt(_))) => {
            return Err(DecodeError::BadValue(Field::Timestamp));
        },
        Some(JsonValue::String(s)) => {
            if accepted {
                Timestamp::Rfc3339(s.clone())
            } else {
                return Err(DecodeError::BadTimestamp);
            }
        },
        Some(_) => { return Err(DecodeError::BadTimestamp); },
    };
    let measured = match find_member(members, Field::Value.name()) {
        None => { return Err(DecodeError::MissingField(Field::Value)); },
        Some(JsonValue::Number(JsonNumber::Float(bits))) => NumericValue::Float64(*bits),
        Some(JsonValue::Number(JsonNumber::PosInt(n))) => NumericValue::UInt64(*n),
        Some(_) => { return Err(DecodeError::BadValue(Field::Value)); },
    };
    let labels = match find_member(members, Field::Labels.name()) {
        None => { return Err(DecodeError::MissingField(Field::Labels)); },
        Some(JsonValue::Object(entries)) => match decode_labels(entries) {
            Ok(labels) => labels,
            Err(e) => { return Err(e); },
        },
        Some(_) => { return Err(DecodeError::BadValue(Field::Labels)); },
    };
    Ok(MeasureKwollect { device_id, labels, metric_id, timestamp, value: measured })
}

/// Decodes one record from a JSON object: asks whether the text of the
/// timestamp, where it is one, reads as RFC 3339, and assembles the record
/// with the answer.
pub fn decode_record(value: &JsonValue) -> (r: Result<MeasureKwollect, DecodeError>)
    ensures
        record_outcome(r) == record_of(value@),
        r matches Ok(m) ==> valid_record(m@),
{
    let accepted = match value {
        JsonValue::Object(members) => match find_member(members, Field::Timestamp.name()) {
            Some(JsonValue::String(s)) => parses_as_rfc3339(s.as_str()),
            _ => false,
        },
        _ => false,
    };
    assemble_record(value, accepted)
}

/// The JSON value that a label is written as.
pub open spec fn json_of_label(label: Label) -> Json {
    match label {
        Label::Bool(b) => Json::Bool(b),
        Label::Float64(bits) => Json::Number(JsonNumber::Float(bits)),
        Label::UInt64(n) => Json::Number(JsonNumber::PosInt(n)),
        Label::Text(s) => Json::Text(s),
    }
}

/// The members that labels are written as, in their order.
pub open spec fn json_of_labels(labels: Seq<(Seq<char>, Label)>) -> Seq<(Seq<char>, Json)> {
    labels.map_values(|e: (Seq<char>, Label)| (e.0, json_of_label(e.1)))
}

/// The JSON value that a timestamp is written as.
pub open spec fn json_of_stamp(stamp: Stamp) -> Json {
    match stamp {
        Stamp::EpochFloat(bits) => Json::Number(JsonNumber::Float(bits)),
        Stamp::EpochSeconds(n) => Json::Number(JsonNumber::PosInt(n)),
        Stamp::Rfc3339(s) => Json::Text(s),
    }
}

/// The JSON value that a measured value is written as.
pub open spec fn json_of_value(value: NumericValue) -> Json {
    match value {
        NumericValue::Float64(bits) => Json::Number(JsonNumber::Float(bits)),
        NumericValue::UInt64(n) => Json::Number(JsonNumber::PosInt(n)),
    }
}

/// The JSON object that a record is written as: its members in the order
/// `timestamp`, `metric_id`, `device_id`, `value`, `labels`.
pub open spec fn json_of_record(record: Record) -> Json {
    Json::Object(
        seq![
            (field_name(Field::Timestamp), json_of_stamp(record.timestamp)),
            (field_name(Field::MetricId), Json::Text(record.metric_id)),
            (field_name(Field::DeviceId), Json::Text(record.device_id)),
            (field_name(Field::Value), json_of_value(record.value)),
            (field_name(Field::Labels), Json::Object(json_of_labels(record.labels))),
        ],
    )
}

/// Writes a label as a JSON value.
fn encode_label(label: &LabelValue) -> (r: JsonValue)
    ensures
        r@ == json_of_label(label@),
{
    match label {
        LabelValue::Bool(b) => JsonValue::Bool(*b),
        LabelValue::Float64(bits) => JsonValue::Number(JsonNumber::Float(*bits)),
        LabelValue::UInt64(n) => JsonValue::Number(JsonNumber::PosInt(*n)),
        LabelValue::String(s) => JsonValue::String(s.clone()),
    }
}

/// Writes a record as a JSON object, its members in the order `timestamp`,
/// `metric_id`, `device_id`, `value`, `labels`.
pub fn encode_record(record: &MeasureKwollect) -> (r: JsonValue)
    ensures
        r@ == json_of_record(record@),
{
    let mut entries: Vec<(String, JsonValue)> = Vec::new();
    let mut i: usize = 0;
    while i < record.labels.len()
        invariant
            i <= record.labels@.len(),
            entries@.len() == i,
            forall|k: int|
                0 <= k < i ==> (#[trigger] entries@[k]).0@ == record.labels@[k].0 && json_of(
                    entries@[k].1,
                ) == json_of_label(record.labels@[k].1),
        decreases record.labels@.len() - i,
    {
        let key = record.labels.key_at(i).clone();
        let value = encode_label(record.labels.value_at(i));
        entries.push((key, value));
        i += 1;
    }
    let labels = JsonValue::Object(entries);
    proof {
        assert(members_of(entries) =~= json_of_labels(record.labels@));
        assert(labels@ == Json::Object(json_of_labels(record.labels@)));
    }
    let timestamp = match &record.timestamp {
        Timestamp::EpochFloat(bits) => JsonValue::Number(JsonNumber::Float(*bits)),
        Timestamp::EpochSeconds(n) => JsonValue::Number(JsonNumber::PosInt(*n)),
        Timestamp::Rfc3339(s) => JsonValue::String(s.clone()),
    };
    let measured = match record.value {
        NumericValue::Float64(bits) => JsonValue::Number(JsonNumber::Float(bits)),
        NumericValue::UInt64(n) => JsonValue::Number(JsonNumber::PosInt(n)),
    };
    let mut members: Vec<(String, JsonValue)> = Vec::new();
    members.push((String::from_str(Field::Timestamp.name()), timestamp));
    let ghost m0 = members@[0];
    members.push((String::from_str(Field::MetricId.name()), JsonValue::String(record.metric_id.clone())));
    let ghost m1 = members@[1];
    members.push((String::from_str(Field::DeviceId.name()), JsonValue::String(record.device_id.clone())));
    let ghost m2 = members@[2];
    proof {
        assert(members@[0] == m0 && members@[1] == m1);
    }
    members.push((String::from_str(Field::Value.name()), measured));
    let ghost m3 = members@[3];
    proof {
        assert(members@[0] == m0 && members@[1] == m1 && members@[2] == m2);
    }
    members.push((String::from_str(Field::Labels.name()), labels));
    let ghost m4 = members@[4];
    proof {
        assert(members@[0] == m0 && members@[1] == m1 && members@[2] == m2 && members@[3] == m3);
        let wanted = json_of_record(record@)->Object_0;
        let got = members_of(members);
        assert(got.len() == 5);
        assert(got[0] == (m0.0@, json_of(m0.1)));
        assert(got[1] == (m1.0@, json_of(m1.1)));
        assert(got[2] == (m2.0@, json_of(m2.1)));
        assert(got[3] == (m3.0@, json_of(m3.1)));
        assert(got[4] == (m4.0@, json_of(m4.1)));
        assert(wanted[0] == (field_name(Field::Timestamp), json_of_stamp(record.timestamp@)));
        assert(wanted[1] == (field_name(Field::MetricId), Json::Text(record.metric_id@)));
        assert(wanted[2] == (field_name(Field::DeviceId), Json::Text(record.device_id@)));
        assert(wanted[3] == (field_name(Field::Value), json_of_value(record.value)));
        assert(wanted[4] == (field_name(Field::Labels), Json::Object(json_of_labels(record.labels@))));
        assert(got =~= wanted);
    }
    JsonValue::Object(members)
}

/// The five names of a record's members differ from each other.
pub proof fn lemma_field_names_differ()
    ensures
        forall|a: Field, b: Field| a != b ==> field_name(a) != field_name(b),
{
    reveal_strlit("device_id");
    reveal_strlit("metric_id");
    reveal_strlit("timestamp");
    reveal_strlit("value");
    reveal_strlit("labels");
    assert("device_id"@[0] == 'd');
    assert("metric_id"@[0] == 'm');
    assert("timestamp"@[0] == 't');
    assert("value"@.len() == 5);
    assert("labels"@.len() == 6);
    assert("device_id"@.len() == 9);
    assert("metric_id"@.len() == 9);
    assert("timestamp"@.len() == 9);
}

/// A name that stands at a position, and nowhere before it, is found there.
pub proof fn lemma_lookup_at<V>(members: Seq<(Seq<char>, V)>, name: Seq<char>, i: int)
    requires
        0 <= i < members.len(),
        members[i].0 == name,
        forall|k: int| 0 <= k < i ==> (#[trigger] members[k]).0 != name,
    ensures
        lookup(members, name) == Some(members[i].1),
    decreases i,
{
    if i > 0 {
        assert(members[0].0 != name);
        let rest = members.skip(1);
        assert forall|k: int| 0 <= k < i - 1 implies (#[trigger] rest[k]).0 != name by {
            assert(members[k + 1].0 != name);
        }
        lemma_lookup_at(rest, name, i - 1);
    }
}

/// Labels whose names differ decode, from what they are written as, to
/// themselves.
proof fn lemma_labels_round_trip(labels: Seq<(Seq<char>, Label)>)
    requires
        unique_keys(labels),
    ensures
        labels_of(json_of_labels(labels)) == Ok::<Seq<(Seq<char>, Label)>, DecodeError>(labels),
    decreases labels.len(),
{
    let entries = json_of_labels(labels);
    if labels.len() == 0 {
        assert(labels =~= Seq::empty());
    } else {
        let before = labels.drop_last();
        assert(entries.drop_last() =~= json_of_labels(before));
        lemma_labels_round_trip(before);
        let last = labels.last();
        assert(entries.last() == (last.0, json_of_label(last.1)));
        assert(label_of(json_of_label(last.1)) == Ok::<Label, DecodeError>(last.1));
        assert(!has_key(before, last.0)) by {
            if has_key(before, last.0) {
                let c = choose|i: int| 0 <= i < before.len() && (#[trigger] before[i]).0 == last.0;
                assert(labels[c].0 != labels[labels.len() - 1].0);
            }
        }
        assert(before.push(last) =~= labels);
    }
}

/// Decoding what a record was written as gives the record back, for every
/// record with no label name twice and a timestamp that reads as RFC 3339
/// where it is a string.
pub proof fn lemma_decode_inverts_encode(record: Record)
    requires
        valid_record(record),
    ensures
        record_of(json_of_record(record)) == Ok::<Record, DecodeError>(record),
{
    let members = json_of_record(record)->Object_0;
    lemma_field_names_differ();
    lemma_lookup_at(members, field_name(Field::Timestamp), 0);
    lemma_lookup_at(members, field_name(Field::MetricId), 1);
    lemma_lookup_at(members, field_name(Field::DeviceId), 2);
    lemma_lookup_at(members, field_name(Field::Value), 3);
    lemma_lookup_at(members, field_name(Field::Labels), 4);
    lemma_labels_round_trip(record.labels);
}

/// A floating `value` decodes to a floating value with the same bits, and a
/// non-negative integer `value` to that unsigned integer; no other `value`
/// decodes.
pub proof fn lemma_value_keeps_its_class(members: Seq<(Seq<char>, Json)>)
    requires
        record_of(Json::Object(members)) is Ok,
    ensures
        match lookup(members, field_name(Field::Value)) {
            Some(Json::Number(JsonNumber::Float(bits))) => record_of(Json::Object(members))->Ok_0.value
                == NumericValue::Float64(bits),
            Some(Json::Number(JsonNumber::PosInt(n))) => record_of(Json::Object(members))->Ok_0.value
                == NumericValue::UInt64(n),
            _ => false,
        },
{
}

/// Why a JSON value is not a batch of records.
#[derive(Clone, Copy, Debug, PartialEq, Eq, Structural)]
pub enum BatchError {
    /// The value is not a JSON array.
    NotAnArray,
    /// The element at `index` is the first that is no record.
    BadRecord { index: usize, error: DecodeError },
}

/// The records that the elements of a JSON array decode to, or the first
/// element that is no record.
pub open spec fn records_of(items: Seq<(Json, Seq<char>)>) -> Result<Seq<Record>, BatchError>
    decreases items.len(),
{
    if items.len() == 0 {
        Ok(Seq::empty())
    } else {
        match records_of(items.drop_last()) {
            Err(e) => Err(e),
            Ok(before) => match record_of(items.last().0) {
                Err(error) => Err(BatchError::BadRecord { index: (items.len() - 1) as usize, error }),
                Ok(record) => Ok(before.push(record)),
            },
        }
    }
}

/// The batch that a JSON value decodes to, or why it decodes to none.
pub open spec fn batch_of(value: Json) -> Result<Seq<Record>, BatchError> {
    match value {
        Json::Array(items) => records_of(items),
        _ => Err(BatchError::NotAnArray),
    }
}

/// A parsed batch seen as its mathematical value.
pub open spec fn batch_outcome(r: Result<Vec<MeasureKwollect>, BatchError>) -> Result<
    Seq<Record>,
    BatchError,
> {
    match r {
        Ok(records) => Ok(records@.map_values(|m: MeasureKwollect| m@)),
        Err(e) => Err(e),
    }
}

/// Once an element fails to decode, the batch fails with its error, whatever
/// follows.
proof fn lemma_batch_error_stays(items: Seq<(Json, Seq<char>)>, k: int)
    requires
        0 <= k <= items.len(),
        records_of(items.take(k)) is Err,
    ensures
        records_of(items) == records_of(items.take(k)),
    decreases items.len() - k,
{
    if k == items.len() {
        assert(items.take(k) =~= items);
    } else {
        assert(items.take(k + 1).drop_last() =~= items.take(k));
        lemma_batch_error_stays(items, k + 1);
    }
}

/// Parses a JSON array of measurements. Every element must be a record: the
/// first that is not ends the batch with its position and its error, and no
/// record is returned.
pub fn parse_measurements(data: &JsonValue) -> (r: Result<Vec<MeasureKwollect>, BatchError>)
    ensures
        batch_outcome(r) == batch_of(data@),
        !(data@ is Array) <==> r == Err::<Vec<MeasureKwollect>, BatchError>(BatchError::NotAnArray),
        r matches Ok(records) ==> {
            &&& data@ is Array
            &&& records@.len() == data@->Array_0.len()
            &&& forall|i: int|
                0 <= i < records@.len() ==> record_of(data@->Array_0[i].0) == Ok::<
                    Record,
                    DecodeError,
                >((#[trigger] records@[i])@) && valid_record(records@[i]@)
        },
        r matches Err(BatchError::BadRecord { index, error }) ==> {
            &&& data@ is Array
            &&& index < data@->Array_0.len()
            &&& record_of(data@->Array_0[index as int].0) == Err::<Record, DecodeError>(error)
            &&& forall|k: int| 0 <= k < index ==> record_of(#[trigger] data@->Array_0[k].0) is Ok
        },
{
    let items = match data {
        JsonValue::Array(items) => items,
        _ => { return Err(BatchError::NotAnArray); },
    };
    let ghost all = items_of(*items);
    let mut records: Vec<MeasureKwollect> = Vec::new();
    let mut i: usize = 0;
    proof {
        assert(all.take(0) =~= Seq::<(Json, Seq<char>)>::empty());
        assert(records@.map_values(|m: MeasureKwollect| m@) =~= Seq::<Record>::empty());
    }
    while i < items.len()
        invariant
            i <= items.len(),
            all == items_of(*items),
            data@ is Array,
            all == data@->Array_0,
            records@.len() == i,
            records_of(all.take(i as int)) == Ok::<Seq<Record>, BatchError>(
                records@.map_values(|m: MeasureKwollect| m@),
            ),
            forall|k: int|
                0 <= k < i ==> record_of(all[k].0) == Ok::<Record, DecodeError>(
                    (#[trigger] records@[k])@,
                ) && valid_record(records@[k]@),
        decreases items.len() - i,
    {
        proof {
            assert(all[i as int].0 == json_of(items@[i as int].0));
            assert(all.take(i as int + 1).drop_last() =~= all.take(i as int));
            assert(all.take(i as int + 1).last() == all[i as int]);
        }
        let ghost before = records@.map_values(|m: MeasureKwollect| m@);
        match decode_record(&items[i].0) {
            Ok(record) => {
                records.push(record);
                proof {
                    assert(records@.map_values(|m: MeasureKwollect| m@) =~= before.push(record@));
                }
            },
            Err(error) => {
                proof {
                    lemma_batch_error_stays(all, i as int + 1);
                    assert forall|k: int| 0 <= k < i implies record_of(
                        #[trigger] data@->Array_0[k].0,
                    ) is Ok by {
                        assert(record_of(all[k].0) == Ok::<Record, DecodeError>(records@[k]@));
                    }
                }
                return Err(BatchError::BadRecord { index: i, error });
            },
        }
        i += 1;
    }
    proof {
        assert(all.take(items@.len() as int) =~= all);
    }
    Ok(records)
}

} // verus!

//! Labels: the values that a label takes, how a JSON value becomes one, and
//! the labels of a record as a list with no name twice.

use crate::json::{items_of, json_of, lookup, Json, JsonNumber, JsonValue};
use crate::kwollect::DecodeError;
use vstd::prelude::*;

verus! {

/// The value of a label: the mathematical value of a [`LabelValue`].
pub enum Label {
    Bool(bool),
    Float64(u64),
    UInt64(u64),
    Text(Seq<char>),
}

/// The value of a label. A floating number is held by its IEEE-754 bit
/// pattern.
#[derive(Debug, PartialEq, Eq)]
pub enum LabelValue {
    Bool(bool),
    Float64(u64),
    UInt64(u64),
    String(String),
}

impl View for LabelValue {
    type V = Label;

    open spec fn view(&self) -> Label {
        match self {
            LabelValue::Bool(b) => Label::Bool(*b),
            LabelValue::Float64(bits) => Label::Float64(*bits),
            LabelValue::UInt64(n) => Label::UInt64(*n),
            LabelValue::String(s) => Label::Text(s@),
        }
    }
}

impl Clone for LabelValue {
    fn clone(&self) -> (r: Self)
        ensures
            r@ == self@,
    {
        match self {
            LabelValue::Bool(b) => LabelValue::Bool(*b),
            LabelValue::Float64(bits) => LabelValue::Float64(*bits),
            LabelValue::UInt64(n) => LabelValue::UInt64(*n),
            LabelValue::String(s) => LabelValue::String(s.clone()),
        }
    }
}

/// The separator between the elements of an array folded into one string.
pub open spec fn label_separator() -> Seq<char> {
    seq![',', ' ']
}

/// The texts joined in their order, with the separator between neighbours.
pub open spec fn join_texts(parts: Seq<Seq<char>>, separator: Seq<char>) -> Seq<char>
    decreases parts.len(),
{
    if parts.len() == 0 {
        Seq::empty()
    } else if parts.len() == 1 {
        parts[0]
    } else {
        join_texts(parts.drop_last(), separator) + separator + parts.last()
    }
}

/// The views of a list of strings.
pub open spec fn texts_of(parts: Seq<String>) -> Seq<Seq<char>> {
    parts.map_values(|s: String| s@)
}

/// Joins strings in their order, with the separator between neighbours.
pub fn join(parts: &Vec<String>, separator: &str) -> (r: String)
    ensures
        r@ == join_texts(texts_of(parts@), separator@),
{
    let ghost texts = texts_of(parts@);
    let mut joined = String::new();
    let mut i: usize = 0;
    while i < parts.len()
        invariant
            i <= parts.len(),
            texts == texts_of(parts@),
            joined@ == join_texts(texts.take(i as int), separator@),
        decreases parts.len() - i,
    {
        proof {
            assert(texts.take(i as int + 1).drop_last() =~= texts.take(i as int));
            assert(texts.take(i as int + 1).last() == parts@[i as int]@);
        }
        if i > 0 {
            joined.append(separator);
        } else {
            proof {
                assert(joined@ + parts@[0]@ =~= parts@[0]@);
            }
        }
        joined.append(parts[i].as_str());
        i += 1;
    }
    proof {
        assert(texts.take(parts@.len() as int) =~= texts);
    }
    joined
}

/// The label that a JSON number stands for: a floating number stays one, a
/// non-negative integer is taken as it is, and a negative integer is
/// reinterpreted as the unsigned integer with the same 64 bits.
pub open spec fn label_of_number(n: JsonNumber) -> Label {
    match n {
        JsonNumber::Float(bits) => Label::Float64(bits),
        JsonNumber::PosInt(u) => Label::UInt64(u),
        JsonNumber::NegInt(i) => Label::UInt64(i as u64),
    }
}

/// What an array element contributes to the folded string: a string its own
/// characters, any other element its JSON text.
pub open spec fn element_text(item: (Json, Seq<char>)) -> Seq<char> {
    match item.0 {
        Json::Text(s) => s,
        _ => item.1,
    }
}

/// The label that a JSON value decodes to, or why it decodes to none.
pub open spec fn label_of(value: Json) -> Result<Label, DecodeError> {
    match value {
        Json::Bool(b) => Ok(Label::Bool(b)),
        Json::Number(n) => Ok(label_of_number(n)),
        Json::Text(s) => Ok(Label::Text(s)),
        Json::Array(items) => Ok(
            Label::Text(join_texts(items.map_values(|e| element_text(e)), label_separator())),
        ),
        _ => Err(DecodeError::UnsupportedShape),
    }
}

/// A decoded label seen as its mathematical value.
pub open spec fn label_outcome(r: Result<LabelValue, DecodeError>) -> Result<Label, DecodeError> {
    match r {
        Ok(l) => Ok(l@),
        Err(e) => Err(e),
    }
}

/// Decodes one label value. A boolean, a number and a string are taken as
/// they are; an array is folded into one string, its elements joined by a
/// comma and a space; `null` and an object are refused.
pub fn decode_label(value: &JsonValue) -> (r: Result<LabelValue, DecodeError>)
    ensures
        label_outcome(r) == label_of(value@),
{
    match value {
        JsonValue::Bool(b) => Ok(LabelValue::Bool(*b)),
        JsonValue::Number(n) => match n {
            JsonNumber::Float(bits) => Ok(LabelValue::Float64(*bits)),
            JsonNumber::PosInt(u) => Ok(LabelValue::UInt64(*u)),
            JsonNumber::NegInt(i) => Ok(LabelValue::UInt64(*i as u64)),
        },
        JsonValue::String(s) => Ok(LabelValue::String(s.clone())),
        JsonValue::Array(items) => {
            let ghost all = items_of(*items);
            let mut parts: Vec<String> = Vec::new();
            let mut i: usize = 0;
            while i < items.len()
                invariant
                    i <= items.len(),
                    all == items_of(*items),
                    parts@.len() == i,
                    forall|k: int| 0 <= k < i ==> (#[trigger] parts@[k])@ == element_text(all[k]),
                decreases items.len() - i,
            {
                proof {
                    assert(all[i as int] == (json_of(items@[i as int].0), items@[i as int].1@));
                }
                let part = match &items[i].0 {
                    JsonValue::String(s) => s.clone(),
                    _ => items[i].1.clone(),
                };
                parts.push(part);
                i += 1;
            }
            proof {
                reveal_strlit(", ");
                assert(", "@ =~= label_separator());
                assert(texts_of(parts@) =~= all.map_values(|e| element_text(e)));
            }
            Ok(LabelValue::String(join(&parts, ", ")))
        },
        _ => Err(DecodeError::UnsupportedShape),
    }
}

/// Whether a list of labels has one of the given name.
pub open spec fn has_key(labels: Seq<(Seq<char>, Label)>, key: Seq<char>) -> bool {
    exists|i: int| 0 <= i < labels.len() && (#[trigger] labels[i]).0 == key
}

/// Whether no two labels of a list have the same name.
pub open spec fn unique_keys(labels: Seq<(Seq<char>, Label)>) -> bool {
    forall|i: int, j: int| 0 <= i < j < labels.len() ==> labels[i].0 != labels[j].0
}

/// The list with the label set: in the place of the label of that name where
/// there is one, else at the end.
pub open spec fn insert_label(labels: Seq<(Seq<char>, Label)>, key: Seq<char>, value: Label) -> Seq<
    (Seq<char>, Label),
> {
    if has_key(labels, key) {
        let i = choose|i: int| 0 <= i < labels.len() && (#[trigger] labels[i]).0 == key;
        labels.update(i, (key, value))
    } else {
        labels.push((key, value))
    }
}

/// The labels of a record: named values, no name twice, in the order in which
/// the names first came.
#[derive(Debug, PartialEq, Eq)]
pub struct Labels {
    entries: Vec<(String, LabelValue)>,
}

impl View for Labels {
    type V = Seq<(Seq<char>, Label)>;

    closed spec fn view(&self) -> Seq<(Seq<char>, Label)> {
        Seq::new(self.entries@.len(), |i: int| (self.entries@[i].0@, self.entries@[i].1@))
    }
}

impl Labels {
    #[verifier::type_invariant]
    spec fn names_differ(&self) -> bool {
        unique_keys(self@)
    }

    /// No name occurs twice: this holds of every value of the type.
    pub open spec fn wf(&self) -> bool {
        unique_keys(self@)
    }

    /// No labels.
    pub fn new() -> (r: Labels)
        ensures
            r@ == Seq::<(Seq<char>, Label)>::empty(),
            r.wf(),
    {
        let r = Labels { entries: Vec::new() };
        proof {
            assert(r@ =~= Seq::<(Seq<char>, Label)>::empty());
        }
        r
    }

    /// The number of labels.
    pub fn len(&self) -> (r: usize)
        ensures
            r == self@.len(),
            self.wf(),
    {
        proof {
            use_type_invariant(self);
        }
        self.entries.len()
    }

    /// The name of the label at a position.
    pub fn key_at(&self, i: usize) -> (r: &String)
        requires
            i < self@.len(),
        ensures
            r@ == self@[i as int].0,
    {
        &self.entries[i].0
    }

    /// The value of the label at a position.
    pub fn value_at(&self, i: usize) -> (r: &LabelValue)
        requires
            i < self@.len(),
        ensures
            r@ == self@[i as int].1,
    {
        &self.entries[i].1
    }

    /// The value of the label of the given name, if there is one.
    pub fn get(&self, key: &str) -> (r: Option<&LabelValue>)
        ensures
            match r {
                Some(v) => lookup(self@, key@) == Some(v@),
                None => lookup(self@, key@) is None,
            },
            r.is_some() == has_key(self@, key@),
    {
        let ghost all = self@;
        let wanted = String::from_str(key);
        let mut i: usize = 0;
        proof {
            assert(all.skip(0) =~= all);
        }
        while i < self.entries.len()
            invariant
                i <= self.entries@.len(),
                all == self@,
                wanted@ == key@,
                lookup(all, key@) == lookup(all.skip(i as int), key@),
                forall|k: int| 0 <= k < i ==> (#[trigger] all[k]).0 != key@,
            decreases self.entries.len() - i,
        {
            proof {
                assert(all.skip(i as int).skip(1) =~= all.skip(i as int + 1));
                assert(all.skip(i as int)[0] == all[i as int]);
            }
            if self.entries[i].0 == wanted {
                return Some(&self.entries[i].1);
            }
            i += 1;
        }
        None
    }

    /// Whether there is a label of the given name.
    pub fn contains_key(&self, key: &str) -> (r: bool)
        ensures
            r == has_key(self@, key@),
    {
        self.get(key).is_some()
    }

    /// Sets the label of the given name: it replaces the value where the name
    /// is there already, and comes last where it is not.
    pub fn insert(&mut self, key: String, value: LabelValue)
        ensures
            final(self)@ == insert_label(old(self)@, key@, value@),
            final(self).wf(),
    {
        proof {
            use_type_invariant(&*self);
        }
        let ghost before = self@;
        let mut next: Vec<(String, LabelValue)> = Vec::new();
        let mut found = false;
        let mut i: usize = 0;
        while i < self.entries.len()
            invariant
                i <= self.entries@.len(),
                before == self@,
                before == old(self)@,
                unique_keys(before),
                next@.len() == i,
                found == (exists|k: int| 0 <= k < i && (#[trigger] before[k]).0 == key@),
                forall|k: int|
                    0 <= k < i ==> ((#[trigger] next@[k]).0@, next@[k].1@) == (if before[k].0
                        == key@ {
                        (key@, value@)
                    } else {
                        before[k]
                    }),
            decreases self.entries.len() - i,
        {
            if self.entries[i].0 == key {
                proof {
                    assert(before[i as int].0 == key@);
                }
                next.push((key.clone(), value.clone()));
                found = true;
            } else {
                next.push((self.entries[i].0.clone(), self.entries[i].1.clone()));
            }
            i += 1;
        }
        if !found {
            next.push((key, value));
        }
        proof {
            let after = Seq::new(next@.len(), |k: int| (next@[k].0@, next@[k].1@));
            if found {
                let c = choose|c: int| 0 <= c < before.len() && (#[trigger] before[c]).0 == key@;
                assert forall|k: int| 0 <= k < before.len() && k != c implies before[k].0 != key@ by {
                    if k < c {
                        assert(before[k].0 != before[c].0);
                    } else {
                        assert(before[c].0 != before[k].0);
                    }
                }
                assert(has_key(before, key@));
                assert(after =~= before.update(c, (key@, value@)));
            } else {
                assert(!has_key(before, key@));
                assert(after =~= before.push((key@, value@)));
            }
            assert(after == insert_label(before, key@, value@));
            assert(unique_keys(after)) by {
                assert forall|a: int, b: int| 0 <= a < b < after.len() implies after[a].0
                    != after[b].0 by {
                    if b < before.len() {
                        assert(before[a].0 != before[b].0);
                    } else {
                        assert(before[a].0 != key@);
                    }
                }
            }
        }
        self.entries = next;
    }
}

/// A negative integer becomes the unsigned integer that lies 2^64 above it.
pub proof fn lemma_negative_label_wraps(i: i64)
    requires
        i < 0,
    ensures
        label_of_number(JsonNumber::NegInt(i)) == Label::UInt64(
            (i + 0x1_0000_0000_0000_0000) as u64,
        ),
{
    let wrapped: u64 = i as u64;
    let below: i64 = (-1 - i) as i64;
    let flipped: u64 = below as u64;
    assert(wrapped == !flipped) by (bit_vector)
        requires
            i < 0,
            wrapped == i as u64,
            below == (-1i64 - i) as i64,
            flipped == below as u64,
    ;
    assert(!flipped == 0xffff_ffff_ffff_ffffu64 - flipped) by (bit_vector);
}

/// A floating label decodes to a floating label with the same bits, and a
/// non-negative integer label to that unsigned integer.
pub proof fn lemma_label_keeps_its_class(n: JsonNumber)
    ensures
        n matches JsonNumber::Float(bits) ==> label_of(Json::Number(n)) == Ok::<Label, DecodeError>(
            Label::Float64(bits),
        ),
        n matches JsonNumber::PosInt(u) ==> label_of(Json::Number(n)) == Ok::<Label, DecodeError>(
            Label::UInt64(u),
        ),
{
}

/// An array of strings decodes to one string: the elements in their order,
/// with a comma and a space between neighbours.
pub proof fn lemma_array_label_joins(items: Seq<(Json, Seq<char>)>)
    requires
        forall|i: int| 0 <= i < items.len() ==> (#[trigger] items[i]).0 is Text,
    ensures
        label_of(Json::Array(items)) == Ok::<Label, DecodeError>(
            Label::Text(
                join_texts(Seq::new(items.len(), |i: int| items[i].0->Text_0), label_separator()),
            ),
        ),
{
    assert(items.map_values(|e| element_text(e)) =~= Seq::new(
        items.len(),
        |i: int| items[i].0->Text_0,
    ));
}

/// Two texts joined are the first, the separator and the second.
pub proof fn lemma_join_two(first: Seq<char>, second: Seq<char>, separator: Seq<char>)
    ensures
        join_texts(seq![first, second], separator) == first + separator + second,
{
    assert(seq![first, second].drop_last() =~= seq![first]);
    reveal_with_fuel(join_texts, 3);
}

/// The value of the label of the given name, if there is one.
pub open spec fn lookup_label(labels: Seq<(Seq<char>, Label)>, key: Seq<char>) -> Option<Label> {
    lookup(labels, key)
}

} // verus!

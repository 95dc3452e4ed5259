//! Core data model: quantity values, grouped-quantity keys, and the
//! value-level merge.
//!
//! A quantity magnitude is a fixed-point integer: the caller picks one
//! scale for the whole list (for instance thousandths of a unit) and every
//! magnitude is a count at that scale.  Merging two number or range
//! buckets adds the counts, saturating at `u64::MAX`.

use vstd::prelude::*;

verus! {

/// The kind tag of a quantity value: a number, a numeric range, free
/// text, or no quantity at all.
#[derive(Clone, Copy, PartialEq, Eq, Structural, Debug)]
pub enum QuantityType {
    Number,
    Range,
    Text,
    Empty,
}

/// One observed quantity value.
#[derive(Clone, PartialEq, Debug)]
pub enum Value {
    Number { value: u64 },
    Range { start: u64, end: u64 },
    Text { value: String },
    Empty,
}

/// The mathematical form of a [`Value`]: text is abstracted to its
/// character sequence.
#[verifier::ext_equal]
pub enum ValueSpec {
    Number { value: u64 },
    Range { start: u64, end: u64 },
    Text { value: Seq<char> },
    Empty,
}

impl View for Value {
    type V = ValueSpec;

    open spec fn view(&self) -> ValueSpec {
        match self {
            Value::Number { value } => ValueSpec::Number { value: *value },
            Value::Range { start, end } => ValueSpec::Range { start: *start, end: *end },
            Value::Text { value } => ValueSpec::Text { value: value@ },
            Value::Empty => ValueSpec::Empty,
        }
    }
}

/// The kind tag of a value.
pub open spec fn kind_of(v: ValueSpec) -> QuantityType {
    match v {
        ValueSpec::Number { .. } => QuantityType::Number,
        ValueSpec::Range { .. } => QuantityType::Range,
        ValueSpec::Text { .. } => QuantityType::Text,
        ValueSpec::Empty => QuantityType::Empty,
    }
}

impl Value {
    /// The kind tag of this value.
    pub fn kind(&self) -> (k: QuantityType)
        ensures
            k == kind_of(self@),
    {
        match self {
            Value::Number { .. } => QuantityType::Number,
            Value::Range { .. } => QuantityType::Range,
            Value::Text { .. } => QuantityType::Text,
            Value::Empty => QuantityType::Empty,
        }
    }

    /// An equal copy of this value.
    pub fn dup(&self) -> (r: Value)
        ensures
            r == *self,
    {
        match self {
            Value::Number { value } => Value::Number { value: *value },
            Value::Range { start, end } => Value::Range { start: *start, end: *end },
            Value::Text { value } => Value::Text { value: value.clone() },
            Value::Empty => Value::Empty,
        }
    }
}

/// The bucket key of a grouped quantity: the literal unit label as
/// written in the source (no normalization, so `"G"` and `"g"` differ)
/// and the kind of the value stored under it.
#[derive(Clone, PartialEq, Debug)]
pub struct GroupedQuantityKey {
    pub name: String,
    pub unit_type: QuantityType,
}

/// The mathematical form of a [`GroupedQuantityKey`].
#[verifier::ext_equal]
pub struct KeySpec {
    pub name: Seq<char>,
    pub unit_type: QuantityType,
}

impl View for GroupedQuantityKey {
    type V = KeySpec;

    open spec fn view(&self) -> KeySpec {
        KeySpec { name: self.name@, unit_type: self.unit_type }
    }
}

impl GroupedQuantityKey {
    /// An equal copy of this key.
    pub fn dup(&self) -> (r: GroupedQuantityKey)
        ensures
            r == *self,
    {
        GroupedQuantityKey { name: self.name.clone(), unit_type: self.unit_type }
    }

    /// Whether two keys denote the same bucket.
    pub fn same_key(&self, other: &GroupedQuantityKey) -> (b: bool)
        ensures
            b == (self@ == other@),
    {
        self.name == other.name && self.unit_type == other.unit_type
    }
}

/// One amount as it was written for an ingredient occurrence: a value in
/// an optional unit.
#[derive(Clone, PartialEq, Debug)]
pub struct Amount {
    pub quantity: Value,
    pub units: Option<String>,
}

/// The unit label of an optional unit: absence stands for the empty
/// label.
pub open spec fn unit_view(u: Option<String>) -> Seq<char> {
    match u {
        Some(s) => s@,
        None => Seq::empty(),
    }
}

/// Sum of two fixed-point magnitudes, saturating at `u64::MAX`.
pub open spec fn sat_sum(a: u64, b: u64) -> u64 {
    if a + b <= u64::MAX {
        (a + b) as u64
    } else {
        u64::MAX
    }
}

/// Executable saturating sum of two fixed-point magnitudes.
pub fn sat_sum_exec(a: u64, b: u64) -> (r: u64)
    ensures
        r == sat_sum(a, b),
{
    if a <= u64::MAX - b {
        a + b
    } else {
        u64::MAX
    }
}

/// The merge of two values of the same kind: numbers and range endpoints
/// add (saturating), text concatenates, absence stays absence.  On
/// mismatched kinds — which well-formed data never holds — the first
/// value stands.
pub open spec fn merge_value(a: ValueSpec, b: ValueSpec) -> ValueSpec {
    match (a, b) {
        (ValueSpec::Number { value: x }, ValueSpec::Number { value: y }) => ValueSpec::Number {
            value: sat_sum(x, y),
        },
        (
            ValueSpec::Range { start: s1, end: e1 },
            ValueSpec::Range { start: s2, end: e2 },
        ) => ValueSpec::Range { start: sat_sum(s1, s2), end: sat_sum(e1, e2) },
        (ValueSpec::Text { value: x }, ValueSpec::Text { value: y }) => ValueSpec::Text {
            value: x + y,
        },
        (ValueSpec::Empty, ValueSpec::Empty) => ValueSpec::Empty,
        _ => a,
    }
}

/// Merging values of one kind yields that kind again.
pub proof fn lemma_merge_value_kind(a: ValueSpec, b: ValueSpec)
    requires
        kind_of(a) == kind_of(b),
    ensures
        kind_of(merge_value(a, b)) == kind_of(a),
{
}

/// Whether two values, where both are free text, concatenate the same
/// way in either order.  Any other pair commutes trivially.
pub open spec fn text_commutes(x: ValueSpec, y: ValueSpec) -> bool {
    match (x, y) {
        (ValueSpec::Text { value: s }, ValueSpec::Text { value: t }) => s + t == t + s,
        _ => true,
    }
}

/// Merging two values of one kind is commutative wherever text
/// concatenation is; numbers, ranges and absence commute always.
pub proof fn lemma_merge_value_comm(a: ValueSpec, b: ValueSpec)
    requires
        kind_of(a) == kind_of(b),
        text_commutes(a, b),
    ensures
        merge_value(a, b) == merge_value(b, a),
{
}

/// Merging values of one kind is associative.
pub proof fn lemma_merge_value_assoc(a: ValueSpec, b: ValueSpec, c: ValueSpec)
    requires
        kind_of(a) == kind_of(b),
        kind_of(b) == kind_of(c),
    ensures
        merge_value(merge_value(a, b), c) == merge_value(a, merge_value(b, c)),
{
    match (a, b, c) {
        (
            ValueSpec::Text { value: x },
            ValueSpec::Text { value: y },
            ValueSpec::Text { value: z },
        ) => {
            assert((x + y) + z =~= x + (y + z));
        },
        _ => {},
    }
}

/// Combine two values known to share a bucket key, and so a kind.
pub fn merge_values(stored: &Value, incoming: &Value) -> (r: Value)
    requires
        kind_of(stored@) == kind_of(incoming@),
    ensures
        r@ == merge_value(stored@, incoming@),
{
    match stored {
        Value::Number { value: x } => match incoming {
            Value::Number { value: y } => Value::Number { value: sat_sum_exec(*x, *y) },
            _ => unreached(),
        },
        Value::Range { start: s1, end: e1 } => match incoming {
            Value::Range { start: s2, end: e2 } => Value::Range {
                start: sat_sum_exec(*s1, *s2),
                end: sat_sum_exec(*e1, *e2),
            },
            _ => unreached(),
        },
        Value::Text { value: x } => match incoming {
            Value::Text { value: y } => Value::Text { value: x.clone().concat(y.as_str()) },
            _ => unreached(),
        },
        Value::Empty => match incoming {
            Value::Empty => Value::Empty,
            _ => unreached(),
        },
    }
}

} // verus!

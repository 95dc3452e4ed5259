//! The per-ingredient quantity breakdown: a map from bucket key to value,
//! the classifier that builds one from a single observed amount, and the
//! key-by-key merge of two breakdowns.

use vstd::prelude::*;

use crate::assoc::{
    assoc_map, lemma_assoc_map_absent, lemma_assoc_map_index, lemma_assoc_map_push,
    lemma_assoc_map_update, unique_keys, views_of,
};
use crate::model::{
    kind_of, lemma_merge_value_assoc, lemma_merge_value_comm, lemma_merge_value_kind,
    merge_value, merge_values, text_commutes, unit_view, Amount, GroupedQuantityKey, KeySpec,
    QuantityType, Value, ValueSpec,
};

verus! {

/// All the distinct unit-and-kind buckets observed for one ingredient.
#[derive(Clone, Debug)]
pub struct GroupedQuantity {
    entries: Vec<(GroupedQuantityKey, Value)>,
}

impl View for GroupedQuantity {
    type V = Map<KeySpec, ValueSpec>;

    closed spec fn view(&self) -> Map<KeySpec, ValueSpec> {
        assoc_map(views_of(self.entries@))
    }
}

/// The central invariant of a breakdown: every bucket holds a value of
/// the bucket key's kind.
pub open spec fn gq_wf(m: Map<KeySpec, ValueSpec>) -> bool {
    forall|k: KeySpec| #[trigger] m.contains_key(k) ==> kind_of(m[k]) == k.unit_type
}

impl GroupedQuantity {
    /// The entry sequence holds each bucket key once.
    pub closed spec fn inv(&self) -> bool {
        unique_keys(views_of(self.entries@))
    }

    /// A valid breakdown: unique buckets, each of its key's kind.
    pub open spec fn wf(&self) -> bool {
        self.inv() && gq_wf(self@)
    }

    /// An empty breakdown.
    pub fn new() -> (r: GroupedQuantity)
        ensures
            r@ == Map::<KeySpec, ValueSpec>::empty(),
            r.wf(),
    {
        let r = GroupedQuantity { entries: Vec::new() };
        proof {
            assert(views_of(r.entries@) =~= Seq::<(KeySpec, ValueSpec)>::empty());
        }
        r
    }

    /// The position of a bucket key, if it is present.
    fn index_of(&self, key: &GroupedQuantityKey) -> (r: Option<usize>)
        ensures
            match r {
                Some(i) => i < self.entries@.len() && self.entries@[i as int].0@ == key@,
                None => forall|i: int|
                    0 <= i < self.entries@.len() ==> self.entries@[i].0@ != key@,
            },
    {
        let n = self.entries.len();
        for i in 0..n
            invariant
                n == self.entries@.len(),
                forall|j: int| 0 <= j < i ==> self.entries@[j].0@ != key@,
        {
            if self.entries[i].0.same_key(key) {
                return Some(i);
            }
        }
        None
    }

    /// Look a bucket up; absence is an expected result, not an error.
    pub fn get(&self, key: &GroupedQuantityKey) -> (r: Option<Value>)
        requires
            self.inv(),
        ensures
            match r {
                Some(v) => self@.contains_key(key@) && v@ == self@[key@],
                None => !self@.contains_key(key@),
            },
    {
        match self.index_of(key) {
            Some(i) => {
                proof {
                    lemma_assoc_map_index(views_of(self.entries@), i as int);
                }
                Some(self.entries[i].1.dup())
            },
            None => {
                proof {
                    lemma_assoc_map_absent(views_of(self.entries@), key@);
                }
                None
            },
        }
    }

    /// Put a value into its bucket, replacing what the bucket held.
    pub fn insert(&mut self, key: GroupedQuantityKey, value: Value)
        requires
            old(self).wf(),
            kind_of(value@) == key@.unit_type,
        ensures
            final(self)@ == old(self)@.insert(key@, value@),
            final(self).wf(),
    {
        let ghost s = views_of(self.entries@);
        match self.index_of(&key) {
            Some(i) => {
                self.entries.set(i, (key, value));
                proof {
                    assert(views_of(self.entries@) =~= s.update(i as int, (s[i as int].0, value@)));
                    lemma_assoc_map_update(s, i as int, value@);
                }
            },
            None => {
                self.entries.push((key, value));
                proof {
                    assert(views_of(self.entries@) =~= s.push((key@, value@)));
                    lemma_assoc_map_push(s, (key@, value@));
                    assert(unique_keys(s.push((key@, value@)))) by {
                        assert(forall|i: int|
                            0 <= i < s.len() ==> s[i].0 == views_of(old(self).entries@)[i].0);
                    }
                }
            },
        }
    }

    /// The breakdown holding a single bucket.
    pub fn from_entry(key: GroupedQuantityKey, value: Value) -> (r: GroupedQuantity)
        requires
            kind_of(value@) == key@.unit_type,
        ensures
            r@ == Map::<KeySpec, ValueSpec>::empty().insert(key@, value@),
            r.wf(),
    {
        let mut r = GroupedQuantity::new();
        r.insert(key, value);
        r
    }

    /// An equal copy of this breakdown.
    pub fn dup(&self) -> (r: GroupedQuantity)
        ensures
            r@ == self@,
            self.inv() ==> r.inv(),
            self.wf() ==> r.wf(),
    {
        let mut entries: Vec<(GroupedQuantityKey, Value)> = Vec::new();
        let n = self.entries.len();
        for i in 0..n
            invariant
                n == self.entries@.len(),
                entries@ =~= self.entries@.take(i as int),
        {
            let k = self.entries[i].0.dup();
            let v = self.entries[i].1.dup();
            entries.push((k, v));
            proof {
                assert(entries@ =~= self.entries@.take(i + 1));
            }
        }
        let r = GroupedQuantity { entries };
        proof {
            assert(r.entries@ =~= self.entries@);
        }
        r
    }
}

impl Default for GroupedQuantity {
    /// The empty breakdown.
    fn default() -> (r: GroupedQuantity)
        ensures
            r@ == Map::<KeySpec, ValueSpec>::empty(),
            r.wf(),
    {
        GroupedQuantity::new()
    }
}

/// The breakdown of one observed amount: exactly one bucket.  A missing
/// amount classifies to the empty unit label and the `Empty` kind; a
/// missing unit defaults to the empty label.
pub open spec fn classify_view(a: Option<(ValueSpec, Seq<char>)>) -> Map<KeySpec, ValueSpec> {
    match a {
        None => Map::<KeySpec, ValueSpec>::empty().insert(
            KeySpec { name: Seq::empty(), unit_type: QuantityType::Empty },
            ValueSpec::Empty,
        ),
        Some((v, u)) => Map::<KeySpec, ValueSpec>::empty().insert(
            KeySpec { name: u, unit_type: kind_of(v) },
            v,
        ),
    }
}

/// [`classify_view`] applied to an optional amount as observed.
pub open spec fn classify_spec(amount: Option<Amount>) -> Map<KeySpec, ValueSpec> {
    match amount {
        None => classify_view(None),
        Some(a) => classify_view(Some((a.quantity@, unit_view(a.units)))),
    }
}

/// Build the breakdown of a single observed amount.  Total: every
/// optional amount classifies to exactly one bucket.
pub fn into_group_quantity(amount: &Option<Amount>) -> (r: GroupedQuantity)
    ensures
        r@ == classify_spec(*amount),
        r.wf(),
        amount is None ==> r@ == classify_view(None),
{
    match amount {
        None => GroupedQuantity::from_entry(
            GroupedQuantityKey { name: String::new(), unit_type: QuantityType::Empty },
            Value::Empty,
        ),
        Some(a) => {
            let units = match &a.units {
                Some(u) => u.clone(),
                None => String::new(),
            };
            let kind = a.quantity.kind();
            GroupedQuantity::from_entry(
                GroupedQuantityKey { name: units, unit_type: kind },
                a.quantity.dup(),
            )
        },
    }
}

/// The key-by-key merge of two breakdowns: buckets present in both merge
/// their values; a bucket present in one side alone is taken as it is.
pub open spec fn merge_gq(a: Map<KeySpec, ValueSpec>, b: Map<KeySpec, ValueSpec>) -> Map<
    KeySpec,
    ValueSpec,
> {
    Map::new(
        |k: KeySpec| a.contains_key(k) || b.contains_key(k),
        |k: KeySpec|
            if a.contains_key(k) && b.contains_key(k) {
                merge_value(a[k], b[k])
            } else if b.contains_key(k) {
                b[k]
            } else {
                a[k]
            },
    )
}

/// The merge of two valid breakdowns is valid.
pub proof fn lemma_merge_gq_wf(a: Map<KeySpec, ValueSpec>, b: Map<KeySpec, ValueSpec>)
    requires
        gq_wf(a),
        gq_wf(b),
    ensures
        gq_wf(merge_gq(a, b)),
{
    assert forall|k: KeySpec| #[trigger]
        merge_gq(a, b).contains_key(k) implies kind_of(merge_gq(a, b)[k]) == k.unit_type by {
        if a.contains_key(k) && b.contains_key(k) {
            crate::model::lemma_merge_value_kind(a[k], b[k]);
        }
    }
}

/// Extending the right-hand side by a fresh bucket extends the merge at
/// that bucket alone.
proof fn lemma_merge_gq_step(
    a: Map<KeySpec, ValueSpec>,
    b: Map<KeySpec, ValueSpec>,
    k: KeySpec,
    v: ValueSpec,
)
    requires
        !b.contains_key(k),
    ensures
        a.contains_key(k) ==> merge_gq(a, b.insert(k, v)) =~= merge_gq(a, b).insert(
            k,
            merge_value(a[k], v),
        ),
        !a.contains_key(k) ==> merge_gq(a, b.insert(k, v)) =~= merge_gq(a, b).insert(k, v),
{
}

/// Merging grouped quantities is commutative, compared key by key: as
/// long as the free-text buckets the two sides share commute under
/// concatenation, `merge(A, B)` equals `merge(B, A)`.
pub proof fn lemma_merge_gq_commutative(a: Map<KeySpec, ValueSpec>, b: Map<KeySpec, ValueSpec>)
    requires
        gq_wf(a),
        gq_wf(b),
        forall|k: KeySpec|
            #![auto]
            a.contains_key(k) && b.contains_key(k) ==> text_commutes(a[k], b[k]),
    ensures
        merge_gq(a, b) =~= merge_gq(b, a),
{
    assert forall|k: KeySpec| #[trigger]
        merge_gq(a, b).contains_key(k) implies merge_gq(a, b)[k] == merge_gq(b, a)[k] by {
        if a.contains_key(k) && b.contains_key(k) {
            lemma_merge_value_comm(a[k], b[k]);
        }
    }
}

/// Merging grouped quantities is associative: `merge(merge(A, B), C)`
/// equals `merge(A, merge(B, C))`, compared key by key.
pub proof fn lemma_merge_gq_associative(
    a: Map<KeySpec, ValueSpec>,
    b: Map<KeySpec, ValueSpec>,
    c: Map<KeySpec, ValueSpec>,
)
    requires
        gq_wf(a),
        gq_wf(b),
        gq_wf(c),
    ensures
        merge_gq(merge_gq(a, b), c) =~= merge_gq(a, merge_gq(b, c)),
{
    assert forall|k: KeySpec| #[trigger]
        merge_gq(merge_gq(a, b), c).contains_key(k) implies merge_gq(merge_gq(a, b), c)[k]
        == merge_gq(a, merge_gq(b, c))[k] by {
        if a.contains_key(k) && b.contains_key(k) && c.contains_key(k) {
            lemma_merge_value_assoc(a[k], b[k], c[k]);
        }
    }
}

/// Fold a source breakdown into a destination breakdown, key by key.
pub fn merge_grouped_quantities(left: &mut GroupedQuantity, right: &GroupedQuantity)
    requires
        old(left).wf(),
        right.wf(),
    ensures
        final(left)@ == merge_gq(old(left)@, right@),
        final(left).wf(),
{
    let ghost a = old(left)@;
    let ghost rs = views_of(right.entries@);
    proof {
        assert(rs.take(0) =~= Seq::<(KeySpec, ValueSpec)>::empty());
        assert(merge_gq(a, assoc_map(rs.take(0))) =~= a);
    }
    let n = right.entries.len();
    for j in 0..n
        invariant
            n == right.entries@.len(),
            rs == views_of(right.entries@),
            right.wf(),
            a == old(left)@,
            gq_wf(a),
            left.wf(),
            left@ == merge_gq(a, assoc_map(rs.take(j as int))),
    {
        let ghost b = assoc_map(rs.take(j as int));
        let ghost prev = left@;
        let key = &right.entries[j].0;
        let incoming = &right.entries[j].1;
        proof {
            lemma_assoc_map_index(rs, j as int);
            assert(rs[j as int] == (key@, incoming@));
            assert(kind_of(incoming@) == key@.unit_type);
            assert(forall|i: int| 0 <= i < j ==> rs.take(j as int)[i] == rs[i]);
            lemma_assoc_map_absent(rs.take(j as int), key@);
            lemma_merge_gq_step(a, b, key@, incoming@);
            assert(rs.take(j + 1).drop_last() =~= rs.take(j as int));
            assert(rs.take(j + 1).last() == rs[j as int]);
            assert(assoc_map(rs.take(j + 1)) == b.insert(key@, incoming@));
        }
        match left.index_of(key) {
            Some(i) => {
                let ghost ls = views_of(left.entries@);
                proof {
                    lemma_assoc_map_index(ls, i as int);
                    assert(prev.contains_key(key@));
                    assert(a.contains_key(key@) && prev[key@] == a[key@]);
                    assert(kind_of(left.entries@[i as int].1@) == key@.unit_type);
                }
                let kd = left.entries[i].0.dup();
                let merged = merge_values(&left.entries[i].1, incoming);
                left.entries.set(i, (kd, merged));
                proof {
                    assert(views_of(left.entries@) =~= ls.update(
                        i as int,
                        (ls[i as int].0, merged@),
                    ));
                    lemma_assoc_map_update(ls, i as int, merged@);
                    assert(ls[i as int].0 == key@);
                    assert(left@ == prev.insert(key@, merge_value(a[key@], incoming@)));
                    lemma_merge_value_kind(a[key@], incoming@);
                }
            },
            None => {
                let ghost ls = views_of(left.entries@);
                proof {
                    lemma_assoc_map_absent(ls, key@);
                    assert(!a.contains_key(key@));
                }
                left.entries.push((key.dup(), incoming.dup()));
                proof {
                    assert(views_of(left.entries@) =~= ls.push((key@, incoming@)));
                    lemma_assoc_map_push(ls, (key@, incoming@));
                    assert(unique_keys(ls.push((key@, incoming@)))) by {
                        let t = ls.push((key@, incoming@));
                        assert(forall|i: int| 0 <= i < ls.len() ==> t[i] == ls[i]);
                        assert(t[ls.len() as int].0 == key@);
                    }
                    assert(left@ == prev.insert(key@, incoming@));
                }
            },
        }
        proof {
            assert(left@ == merge_gq(a, assoc_map(rs.take(j + 1))));
            assert forall|k: KeySpec| #[trigger] left@.contains_key(k) implies kind_of(left@[k])
                == k.unit_type by {
                if k != key@ {
                    assert(prev.contains_key(k) && left@[k] == prev[k]);
                }
            }
        }
    }
    proof {
        assert(rs.take(n as int) =~= rs);
    }
}

} // verus!

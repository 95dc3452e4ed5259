//! The ingredient list: a map from ingredient name to its grouped
//! quantity, the accumulation primitive, the merge of two lists, and the
//! fold that combines any number of lists into one shopping list.

use vstd::prelude::*;

use crate::assoc::{
    assoc_map, lemma_assoc_map_absent, lemma_assoc_map_index, lemma_assoc_map_key_has_index,
    lemma_assoc_map_push, lemma_assoc_map_update, unique_keys, views_of,
};
use crate::model::{KeySpec, QuantityType, ValueSpec};
use crate::quantity::{
    gq_wf, lemma_merge_gq_associative, lemma_merge_gq_commutative, merge_gq,
    merge_grouped_quantities, GroupedQuantity,
};
use crate::model::text_commutes;

verus! {

/// The shopping-relevant state of a recipe or of a combined set of
/// recipes: each ingredient name, as written, with its breakdown.
#[derive(Clone, Debug)]
pub struct IngredientList {
    entries: Vec<(String, GroupedQuantity)>,
}

impl View for IngredientList {
    type V = Map<Seq<char>, Map<KeySpec, ValueSpec>>;

    closed spec fn view(&self) -> Map<Seq<char>, Map<KeySpec, ValueSpec>> {
        assoc_map(views_of(self.entries@))
    }
}

/// Every breakdown of the list upholds the bucket-kind invariant.
pub open spec fn il_wf(m: Map<Seq<char>, Map<KeySpec, ValueSpec>>) -> bool {
    forall|nm: Seq<char>| #[trigger] m.contains_key(nm) ==> gq_wf(m[nm])
}

impl IngredientList {
    /// Each name stands in one entry, and each entry is valid.
    pub closed spec fn inv(&self) -> bool {
        &&& unique_keys(views_of(self.entries@))
        &&& forall|i: int| 0 <= i < self.entries@.len() ==> (#[trigger] self.entries@[i].1).wf()
    }

    /// A valid list: unique names, valid breakdowns.
    pub open spec fn wf(&self) -> bool {
        self.inv() && il_wf(self@)
    }

    /// An empty list.
    pub fn new() -> (r: IngredientList)
        ensures
            r@ == Map::<Seq<char>, Map<KeySpec, ValueSpec>>::empty(),
            r.wf(),
    {
        let r = IngredientList { entries: Vec::new() };
        proof {
            assert(views_of(r.entries@) =~= Seq::<(Seq<char>, Map<KeySpec, ValueSpec>)>::empty());
        }
        r
    }

    /// The position of an ingredient name, if it is present.
    fn index_of(&self, key: &str) -> (r: Option<usize>)
        ensures
            match r {
                Some(i) => i < self.entries@.len() && self.entries@[i as int].0@ == key@,
                None => forall|i: int|
                    0 <= i < self.entries@.len() ==> self.entries@[i].0@ != key@,
            },
    {
        let owned: String = key.to_owned();
        let n = self.entries.len();
        for i in 0..n
            invariant
                owned@ == key@,
                n == self.entries@.len(),
                forall|j: int| 0 <= j < i ==> self.entries@[j].0@ != key@,
        {
            if self.entries[i].0 == owned {
                return Some(i);
            }
        }
        None
    }

    /// Look an ingredient up; absence is an expected result, not an
    /// error.
    pub fn get(&self, key: &str) -> (r: Option<GroupedQuantity>)
        requires
            self.inv(),
        ensures
            match r {
                Some(q) => self@.contains_key(key@) && q@ == self@[key@] && q.wf(),
                None => !self@.contains_key(key@),
            },
    {
        match self.index_of(key) {
            Some(i) => {
                proof {
                    lemma_assoc_map_index(views_of(self.entries@), i as int);
                }
                Some(self.entries[i].1.dup())
            },
            None => {
                proof {
                    lemma_assoc_map_absent(views_of(self.entries@), key@);
                }
                None
            },
        }
    }

    /// Bind a name to a breakdown, replacing what the name held.
    pub fn insert(&mut self, key: String, value: GroupedQuantity)
        requires
            old(self).wf(),
            value.wf(),
        ensures
            final(self)@ == old(self)@.insert(key@, value@),
            final(self).wf(),
    {
        let ghost s = views_of(self.entries@);
        match self.index_of(key.as_str()) {
            Some(i) => {
                self.entries.set(i, (key, value));
                proof {
                    assert(views_of(self.entries@) =~= s.update(i as int, (s[i as int].0, value@)));
                    lemma_assoc_map_update(s, i as int, value@);
                    assert(forall|j: int|
                        0 <= j < self.entries@.len() && j != i ==> self.entries@[j]
                            == old(self).entries@[j]);
                }
            },
            None => {
                self.entries.push((key, value));
                proof {
                    assert(views_of(self.entries@) =~= s.push((key@, value@)));
                    lemma_assoc_map_push(s, (key@, value@));
                    assert(unique_keys(s.push((key@, value@)))) by {
                        let t = s.push((key@, value@));
                        assert(forall|j: int| 0 <= j < s.len() ==> t[j] == s[j]);
                        assert(t[s.len() as int].0 == key@);
                    }
                    assert(forall|j: int|
                        0 <= j < s.len() ==> self.entries@[j] == old(self).entries@[j]);
                }
            },
        }
        proof {
            lemma_wf_from_inv(self);
        }
    }

    /// An equal copy of this list.
    pub fn dup(&self) -> (r: IngredientList)
        ensures
            r@ == self@,
            self.inv() ==> r.inv(),
            self.wf() ==> r.wf(),
    {
        let mut entries: Vec<(String, GroupedQuantity)> = Vec::new();
        let n = self.entries.len();
        for i in 0..n
            invariant
                n == self.entries@.len(),
                entries@.len() == i,
                forall|j: int| 0 <= j < i ==> entries@[j].0 == self.entries@[j].0,
                forall|j: int| 0 <= j < i ==> (#[trigger] entries@[j].1)@ == self.entries@[j].1@,
                forall|j: int| 0 <= j < i ==> self.entries@[j].1.wf() ==> entries@[j].1.wf(),
        {
            let k = self.entries[i].0.clone();
            let v = self.entries[i].1.dup();
            entries.push((k, v));
        }
        let r = IngredientList { entries };
        proof {
            assert(views_of(r.entries@) =~= views_of(self.entries@));
        }
        r
    }
}

impl Default for IngredientList {
    /// The empty list.
    fn default() -> (r: IngredientList)
        ensures
            r@ == Map::<Seq<char>, Map<KeySpec, ValueSpec>>::empty(),
            r.wf(),
    {
        IngredientList::new()
    }
}

/// Well-formedness of the denoted map follows from entry validity.
proof fn lemma_wf_from_inv(list: &IngredientList)
    requires
        list.inv(),
    ensures
        list.wf(),
{
    let s = views_of(list.entries@);
    assert forall|nm: Seq<char>| #[trigger] list@.contains_key(nm) implies gq_wf(list@[nm]) by {
        lemma_assoc_map_key_has_index(s, nm);
        let i = choose|i: int| 0 <= i < s.len() && s[i].0 == nm;
        lemma_assoc_map_index(s, i);
        assert(s[i].1 == list.entries@[i].1@);
        assert(list.entries@[i].1.wf());
    }
}

/// The list after one ingredient's breakdown is folded in at a name: an
/// existing entry merges key by key, a new name takes the breakdown as
/// it is.
pub open spec fn il_insert(
    m: Map<Seq<char>, Map<KeySpec, ValueSpec>>,
    nm: Seq<char>,
    q: Map<KeySpec, ValueSpec>,
) -> Map<Seq<char>, Map<KeySpec, ValueSpec>> {
    if m.contains_key(nm) {
        m.insert(nm, merge_gq(m[nm], q))
    } else {
        m.insert(nm, q)
    }
}

/// Fold one ingredient's breakdown into a list under its name.
pub fn add_to_ingredient_list(
    list: &mut IngredientList,
    name: &String,
    quantity_to_add: &GroupedQuantity,
)
    requires
        old(list).wf(),
        quantity_to_add.wf(),
    ensures
        final(list)@ == il_insert(old(list)@, name@, quantity_to_add@),
        final(list).wf(),
{
    let ghost s = views_of(list.entries@);
    match list.index_of(name.as_str()) {
        Some(i) => {
            proof {
                lemma_assoc_map_index(s, i as int);
                assert(list.entries@[i as int].1.wf());
            }
            let kd = list.entries[i].0.clone();
            let mut dst = list.entries[i].1.dup();
            merge_grouped_quantities(&mut dst, quantity_to_add);
            let ghost merged = dst@;
            list.entries.set(i, (kd, dst));
            proof {
                assert(views_of(list.entries@) =~= s.update(i as int, (s[i as int].0, merged)));
                lemma_assoc_map_update(s, i as int, merged);
                assert(forall|j: int|
                    0 <= j < list.entries@.len() && j != i ==> list.entries@[j]
                        == old(list).entries@[j]);
            }
        },
        None => {
            proof {
                lemma_assoc_map_absent(s, name@);
            }
            list.entries.push((name.clone(), quantity_to_add.dup()));
            proof {
                assert(views_of(list.entries@) =~= s.push((name@, quantity_to_add@)));
                lemma_assoc_map_push(s, (name@, quantity_to_add@));
                assert(unique_keys(s.push((name@, quantity_to_add@)))) by {
                    let t = s.push((name@, quantity_to_add@));
                    assert(forall|j: int| 0 <= j < s.len() ==> t[j] == s[j]);
                    assert(t[s.len() as int].0 == name@);
                }
                assert(forall|j: int|
                    0 <= j < s.len() ==> list.entries@[j] == old(list).entries@[j]);
            }
        },
    }
    proof {
        lemma_wf_from_inv(list);
    }
}

/// The key-by-key merge of two ingredient lists: shared names merge
/// their breakdowns, a name on one side alone is taken as it is.
pub open spec fn merge_il(
    a: Map<Seq<char>, Map<KeySpec, ValueSpec>>,
    b: Map<Seq<char>, Map<KeySpec, ValueSpec>>,
) -> Map<Seq<char>, Map<KeySpec, ValueSpec>> {
    Map::new(
        |nm: Seq<char>| a.contains_key(nm) || b.contains_key(nm),
        |nm: Seq<char>|
            if a.contains_key(nm) && b.contains_key(nm) {
                merge_gq(a[nm], b[nm])
            } else if b.contains_key(nm) {
                b[nm]
            } else {
                a[nm]
            },
    )
}

/// Extending the right-hand list by a fresh name extends the merge at
/// that name alone.
proof fn lemma_merge_il_step(
    a: Map<Seq<char>, Map<KeySpec, ValueSpec>>,
    b: Map<Seq<char>, Map<KeySpec, ValueSpec>>,
    nm: Seq<char>,
    q: Map<KeySpec, ValueSpec>,
)
    requires
        !b.contains_key(nm),
    ensures
        a.contains_key(nm) ==> merge_il(a, b.insert(nm, q)) =~= merge_il(a, b).insert(
            nm,
            merge_gq(a[nm], q),
        ),
        !a.contains_key(nm) ==> merge_il(a, b.insert(nm, q)) =~= merge_il(a, b).insert(nm, q),
{
}

/// Fold every entry of the right-hand list into the left-hand one.
pub fn merge_ingredient_lists(left: &mut IngredientList, right: &IngredientList)
    requires
        old(left).wf(),
        right.wf(),
    ensures
        final(left)@ == merge_il(old(left)@, right@),
        final(left).wf(),
{
    let ghost a = old(left)@;
    let ghost rs = views_of(right.entries@);
    proof {
        assert(rs.take(0) =~= Seq::<(Seq<char>, Map<KeySpec, ValueSpec>)>::empty());
        assert(merge_il(a, assoc_map(rs.take(0))) =~= a);
    }
    let n = right.entries.len();
    for j in 0..n
        invariant
            n == right.entries@.len(),
            rs == views_of(right.entries@),
            right.wf(),
            a == old(left)@,
            left.wf(),
            left@ == merge_il(a, assoc_map(rs.take(j as int))),
    {
        let ghost b = assoc_map(rs.take(j as int));
        let ghost prev = left@;
        let name = &right.entries[j].0;
        let quantity = &right.entries[j].1;
        proof {
            lemma_assoc_map_index(rs, j as int);
            assert(rs[j as int] == (name@, quantity@));
            assert(right.entries@[j as int].1.wf());
            assert(forall|i: int| 0 <= i < j ==> rs.take(j as int)[i] == rs[i]);
            lemma_assoc_map_absent(rs.take(j as int), name@);
            lemma_merge_il_step(a, b, name@, quantity@);
            assert(rs.take(j + 1).drop_last() =~= rs.take(j as int));
            assert(rs.take(j + 1).last() == rs[j as int]);
            assert(assoc_map(rs.take(j + 1)) == b.insert(name@, quantity@));
            if prev.contains_key(name@) {
                assert(a.contains_key(name@) && prev[name@] == a[name@]);
            } else {
                assert(!a.contains_key(name@));
            }
        }
        add_to_ingredient_list(left, name, quantity);
    }
    proof {
        assert(rs.take(n as int) =~= rs);
    }
}

/// Merging ingredient lists is commutative, compared name by name and
/// key by key: as long as the free-text buckets the two sides share
/// commute under concatenation, `merge(A, B)` equals `merge(B, A)`.
pub proof fn lemma_merge_il_commutative(
    a: Map<Seq<char>, Map<KeySpec, ValueSpec>>,
    b: Map<Seq<char>, Map<KeySpec, ValueSpec>>,
)
    requires
        il_wf(a),
        il_wf(b),
        forall|nm: Seq<char>, k: KeySpec|
            #![auto]
            a.contains_key(nm) && b.contains_key(nm) && a[nm].contains_key(k)
                && b[nm].contains_key(k) ==> text_commutes(a[nm][k], b[nm][k]),
    ensures
        merge_il(a, b) =~~= merge_il(b, a),
{
    assert forall|nm: Seq<char>| #[trigger]
        merge_il(a, b).contains_key(nm) implies merge_il(a, b)[nm] =~= merge_il(b, a)[nm] by {
        if a.contains_key(nm) && b.contains_key(nm) {
            lemma_merge_gq_commutative(a[nm], b[nm]);
        }
    }
}

/// Merging ingredient lists is associative.
pub proof fn lemma_merge_il_associative(
    a: Map<Seq<char>, Map<KeySpec, ValueSpec>>,
    b: Map<Seq<char>, Map<KeySpec, ValueSpec>>,
    c: Map<Seq<char>, Map<KeySpec, ValueSpec>>,
)
    requires
        il_wf(a),
        il_wf(b),
        il_wf(c),
    ensures
        merge_il(merge_il(a, b), c) =~~= merge_il(a, merge_il(b, c)),
{
    assert forall|nm: Seq<char>| #[trigger]
        merge_il(merge_il(a, b), c).contains_key(nm) implies merge_il(merge_il(a, b), c)[nm]
        =~= merge_il(a, merge_il(b, c))[nm] by {
        if a.contains_key(nm) && b.contains_key(nm) && c.contains_key(nm) {
            lemma_merge_gq_associative(a[nm], b[nm], c[nm]);
        }
    }
}

/// The view of each list of a sequence of lists.
pub open spec fn il_views(ls: Seq<IngredientList>) -> Seq<Map<Seq<char>, Map<KeySpec, ValueSpec>>> {
    Seq::new(ls.len(), |i: int| ls[i]@)
}

/// The combination of a sequence of ingredient lists, folded in order
/// into an empty accumulator.
pub open spec fn combine_il(ms: Seq<Map<Seq<char>, Map<KeySpec, ValueSpec>>>) -> Map<
    Seq<char>,
    Map<KeySpec, ValueSpec>,
>
    decreases ms.len(),
{
    if ms.len() == 0 {
        Map::empty()
    } else {
        merge_il(combine_il(ms.drop_last()), ms.last())
    }
}

/// Combine the ingredient lists of any number of recipes into one
/// shopping list.  Combining no lists yields the empty list.
pub fn combine_ingredient_lists(lists: Vec<IngredientList>) -> (r: IngredientList)
    requires
        forall|i: int| 0 <= i < lists@.len() ==> (#[trigger] lists@[i]).wf(),
    ensures
        r@ == combine_il(il_views(lists@)),
        r.wf(),
        lists@.len() == 0 ==> r@ == Map::<Seq<char>, Map<KeySpec, ValueSpec>>::empty(),
{
    let mut combined = IngredientList::new();
    let ghost ms = il_views(lists@);
    proof {
        assert(ms.take(0) =~= Seq::<Map<Seq<char>, Map<KeySpec, ValueSpec>>>::empty());
    }
    let n = lists.len();
    for i in 0..n
        invariant
            n == lists@.len(),
            ms == il_views(lists@),
            forall|j: int| 0 <= j < lists@.len() ==> (#[trigger] lists@[j]).wf(),
            combined.wf(),
            combined@ == combine_il(ms.take(i as int)),
    {
        proof {
            assert(ms.take(i + 1).drop_last() =~= ms.take(i as int));
            assert(ms.take(i + 1).last() == ms[i as int]);
        }
        merge_ingredient_lists(&mut combined, &lists[i]);
    }
    proof {
        assert(ms.take(n as int) =~= ms);
    }
    combined
}

/// The list holding one ingredient with a single number bucket.
pub open spec fn single_number_list(nm: Seq<char>, k: KeySpec, v: u64) -> Map<
    Seq<char>,
    Map<KeySpec, ValueSpec>,
> {
    map![nm => map![k => (ValueSpec::Number { value: v })]]
}

/// Combining n copies of a list that holds one ingredient with a single
/// number bucket of magnitude v yields that bucket scaled to n times v,
/// as long as the total fits the fixed-point range.
pub proof fn lemma_combine_copies_number(
    ms: Seq<Map<Seq<char>, Map<KeySpec, ValueSpec>>>,
    nm: Seq<char>,
    k: KeySpec,
    v: u64,
)
    requires
        ms.len() >= 1,
        ms.len() * v <= u64::MAX,
        k.unit_type == QuantityType::Number,
        forall|i: int| 0 <= i < ms.len() ==> ms[i] == single_number_list(nm, k, v),
    ensures
        combine_il(ms) =~= single_number_list(nm, k, (ms.len() * v) as u64),
    decreases ms.len(),
{
    let last = ms.last();
    if ms.len() == 1 {
        assert(ms.drop_last().len() == 0);
        assert(combine_il(ms.drop_last()) == Map::<Seq<char>, Map<KeySpec, ValueSpec>>::empty());
        assert(merge_il(Map::empty(), last) =~= last);
        assert(1 * v == v);
        assert(combine_il(ms) =~= single_number_list(nm, k, (ms.len() * v) as u64));
    } else {
        let rest = ms.drop_last();
        assert((ms.len() - 1) * v + v == ms.len() * v) by (nonlinear_arith);
        assert(0 <= (ms.len() - 1) * v) by (nonlinear_arith)
            requires
                ms.len() >= 1,
        ;
        lemma_combine_copies_number(rest, nm, k, v);
        let w = ((ms.len() - 1) * v) as u64;
        let m1 = single_number_list(nm, k, w);
        assert(combine_il(ms) == merge_il(m1, last)) by {
            assert(combine_il(rest) =~= m1);
        }
        assert(merge_il(m1, last) =~= single_number_list(nm, k, (ms.len() * v) as u64)) by {
            assert(m1.contains_key(nm) && last.contains_key(nm));
            assert(merge_gq(m1[nm], last[nm]) =~= map![k => (ValueSpec::Number {
                value: (ms.len() * v) as u64,
            })]) by {
                assert(m1[nm].contains_key(k) && last[nm].contains_key(k));
                assert(m1[nm][k] == (ValueSpec::Number { value: w }));
                assert(last[nm][k] == (ValueSpec::Number { value: v }));
            }
        }
    }
}

} // verus!

//! Aisle configuration: store categories, their ingredients, and the
//! reverse lookup from an ingredient name to its category name.

use vstd::prelude::*;

use crate::assoc::{
    assoc_map, lemma_assoc_map_absent, lemma_assoc_map_index, lemma_assoc_map_push,
    lemma_assoc_map_update, unique_keys, views_of,
};

verus! {

/// One ingredient of an aisle category: its common name and the other
/// names it is known by.
#[derive(Clone, Debug)]
pub struct AisleIngredient {
    pub name: String,
    pub aliases: Vec<String>,
}

/// The reverse lookup from an ingredient or alias name to the name of
/// the category it belongs to.
#[derive(Clone, Debug)]
pub struct AisleReverseCategory {
    map: Vec<(String, String)>,
}

impl View for AisleReverseCategory {
    type V = Map<Seq<char>, Seq<char>>;

    closed spec fn view(&self) -> Map<Seq<char>, Seq<char>> {
        assoc_map(views_of(self.map@))
    }
}

impl Default for AisleReverseCategory {
    /// The empty lookup.
    fn default() -> (r: AisleReverseCategory)
        ensures
            r@ == Map::<Seq<char>, Seq<char>>::empty(),
            r.inv(),
    {
        AisleReverseCategory::new()
    }
}

impl AisleReverseCategory {
    /// Each name stands in one entry.
    pub closed spec fn inv(&self) -> bool {
        unique_keys(views_of(self.map@))
    }

    /// An empty lookup.
    pub fn new() -> (r: AisleReverseCategory)
        ensures
            r@ == Map::<Seq<char>, Seq<char>>::empty(),
            r.inv(),
    {
        let r = AisleReverseCategory { map: Vec::new() };
        proof {
            assert(views_of(r.map@) =~= Seq::<(Seq<char>, Seq<char>)>::empty());
        }
        r
    }

    /// The position of a name, if it is present.
    fn index_of(&self, key: &str) -> (r: Option<usize>)
        ensures
            match r {
                Some(i) => i < self.map@.len() && self.map@[i as int].0@ == key@,
                None => forall|i: int| 0 <= i < self.map@.len() ==> self.map@[i].0@ != key@,
            },
    {
        let owned: String = key.to_owned();
        let n = self.map.len();
        for i in 0..n
            invariant
                owned@ == key@,
                n == self.map@.len(),
                forall|j: int| 0 <= j < i ==> self.map@[j].0@ != key@,
        {
            if self.map[i].0 == owned {
                return Some(i);
            }
        }
        None
    }

    /// Look a name up.  A name no category mentions gives an absent
    /// result, never some default category.
    pub fn get(&self, key: &str) -> (r: Option<String>)
        requires
            self.inv(),
        ensures
            match r {
                Some(v) => self@.contains_key(key@) && v@ == self@[key@],
                None => !self@.contains_key(key@),
            },
    {
        match self.index_of(key) {
            Some(i) => {
                proof {
                    lemma_assoc_map_index(views_of(self.map@), i as int);
                }
                Some(self.map[i].1.clone())
            },
            None => {
                proof {
                    lemma_assoc_map_absent(views_of(self.map@), key@);
                }
                None
            },
        }
    }

    /// Bind a name to a category name, replacing what the name held.
    pub fn insert(&mut self, key: String, value: String)
        requires
            old(self).inv(),
        ensures
            final(self)@ == old(self)@.insert(key@, value@),
            final(self).inv(),
    {
        let ghost s = views_of(self.map@);
        match self.index_of(key.as_str()) {
            Some(i) => {
                self.map.set(i, (key, value));
                proof {
                    assert(views_of(self.map@) =~= s.update(i as int, (s[i as int].0, value@)));
                    lemma_assoc_map_update(s, i as int, value@);
                }
            },
            None => {
                self.map.push((key, value));
                proof {
                    assert(views_of(self.map@) =~= s.push((key@, value@)));
                    lemma_assoc_map_push(s, (key@, value@));
                    assert(unique_keys(s.push((key@, value@)))) by {
                        let t = s.push((key@, value@));
                        assert(forall|j: int| 0 <= j < s.len() ==> t[j] == s[j]);
                        assert(t[s.len() as int].0 == key@);
                    }
                }
            },
        }
    }
}

/// One named category with the ingredients filed under it.
#[derive(Clone, Debug)]
pub struct AisleCategory {
    pub name: String,
    pub ingredients: Vec<AisleIngredient>,
}

/// A parsed aisle configuration: the categories in order, and the
/// reverse lookup built from them.
#[derive(Clone, Debug)]
pub struct AisleConf {
    pub categories: Vec<AisleCategory>,
    pub cache: AisleReverseCategory,
}

impl AisleConf {
    /// The category filed for an ingredient name, if any.
    pub fn category_for(&self, ingredient_name: String) -> (r: Option<String>)
        requires
            self.cache.inv(),
        ensures
            match r {
                Some(c) => self.cache@.contains_key(ingredient_name@) && c@
                    == self.cache@[ingredient_name@],
                None => !self.cache@.contains_key(ingredient_name@),
            },
    {
        self.cache.get(ingredient_name.as_str())
    }
}

/// One category of an aisle configuration as parsed: the category name
/// and, for each ingredient, its list of names, the first of which is
/// the common name.
#[derive(Clone, Debug)]
pub struct RawAisleCategory {
    pub name: String,
    pub ingredients: Vec<Vec<String>>,
}

/// A parsed category is well-formed when every ingredient has at least
/// one name.
pub open spec fn raw_category_wf(raw: RawAisleCategory) -> bool {
    forall|i: int| 0 <= i < raw.ingredients@.len() ==> (#[trigger] raw.ingredients@[i])@.len() > 0
}

/// How a converted category relates to its parsed form: same name, and
/// each ingredient's first name split from its aliases.
pub open spec fn category_matches(raw: RawAisleCategory, c: AisleCategory) -> bool {
    &&& c.name@ == raw.name@
    &&& c.ingredients@.len() == raw.ingredients@.len()
    &&& forall|i: int|
        0 <= i < raw.ingredients@.len() ==> (#[trigger] c.ingredients@[i]).name@
            == raw.ingredients@[i]@[0]@
    &&& forall|i: int|
        0 <= i < raw.ingredients@.len() ==> (#[trigger] c.ingredients@[i]).aliases@.len()
            == raw.ingredients@[i]@.len() - 1
    &&& forall|i: int, j: int|
        0 <= i < raw.ingredients@.len() && 0 <= j < raw.ingredients@[i]@.len() - 1
            ==> (#[trigger] c.ingredients@[i].aliases@[j])@ == raw.ingredients@[i]@[j + 1]@
}

/// Split each parsed ingredient's name list into a common name and its
/// aliases.
pub fn into_category(original: &RawAisleCategory) -> (r: AisleCategory)
    requires
        raw_category_wf(*original),
    ensures
        category_matches(*original, r),
{
    let mut ingredients: Vec<AisleIngredient> = Vec::new();
    let n = original.ingredients.len();
    for i in 0..n
        invariant
            raw_category_wf(*original),
            n == original.ingredients@.len(),
            ingredients@.len() == i,
            forall|j: int|
                0 <= j < i ==> (#[trigger] ingredients@[j]).name@ == original.ingredients@[j]@[0]@,
            forall|j: int|
                0 <= j < i ==> (#[trigger] ingredients@[j]).aliases@.len()
                    == original.ingredients@[j]@.len() - 1,
            forall|j: int, l: int|
                0 <= j < i && 0 <= l < original.ingredients@[j]@.len() - 1
                    ==> (#[trigger] ingredients@[j].aliases@[l])@ == original.ingredients@[j]@[l
                    + 1]@,
    {
        let names = &original.ingredients[i];
        let name = names[0].clone();
        let mut aliases: Vec<String> = Vec::new();
        let m = names.len();
        for j in 1..m
            invariant
                m == names@.len(),
                m >= 1,
                aliases@.len() == j - 1,
                forall|l: int| 0 <= l < j - 1 ==> (#[trigger] aliases@[l])@ == names@[l + 1]@,
        {
            aliases.push(names[j].clone());
        }
        ingredients.push(AisleIngredient { name, aliases });
    }
    AisleCategory { name: original.name.clone(), ingredients }
}

/// The reverse lookup after one ingredient's names are filed under a
/// category, in order.
pub open spec fn cache_after_names(
    m: Map<Seq<char>, Seq<char>>,
    names: Seq<String>,
    cat: Seq<char>,
) -> Map<Seq<char>, Seq<char>>
    decreases names.len(),
{
    if names.len() == 0 {
        m
    } else {
        cache_after_names(m, names.drop_last(), cat).insert(names.last()@, cat)
    }
}

/// The reverse lookup after a whole category's ingredients are filed.
pub open spec fn cache_after_category(
    m: Map<Seq<char>, Seq<char>>,
    ingredients: Seq<Vec<String>>,
    cat: Seq<char>,
) -> Map<Seq<char>, Seq<char>>
    decreases ingredients.len(),
{
    if ingredients.len() == 0 {
        m
    } else {
        cache_after_names(
            cache_after_category(m, ingredients.drop_last(), cat),
            ingredients.last()@,
            cat,
        )
    }
}

/// The reverse lookup built from a parsed configuration, category by
/// category.  A later category overrides an earlier one that mentions
/// the same name.
pub open spec fn cache_of(cats: Seq<RawAisleCategory>) -> Map<Seq<char>, Seq<char>>
    decreases cats.len(),
{
    if cats.len() == 0 {
        Map::empty()
    } else {
        cache_after_category(cache_of(cats.drop_last()), cats.last().ingredients@, cats.last().name@)
    }
}

/// Build an aisle configuration from its parsed categories: convert
/// each, and file every name and alias in the reverse lookup.
pub fn build_aisle_conf(raw: Vec<RawAisleCategory>) -> (r: AisleConf)
    requires
        forall|c: int| 0 <= c < raw@.len() ==> raw_category_wf(#[trigger] raw@[c]),
    ensures
        r.cache@ == cache_of(raw@),
        r.cache.inv(),
        r.categories@.len() == raw@.len(),
        forall|c: int| 0 <= c < raw@.len() ==> category_matches(raw@[c], #[trigger] r.categories@[c]),
{
    let mut categories: Vec<AisleCategory> = Vec::new();
    let mut cache = AisleReverseCategory::new();
    let n = raw.len();
    for c in 0..n
        invariant
            n == raw@.len(),
            forall|k: int| 0 <= k < raw@.len() ==> raw_category_wf(#[trigger] raw@[k]),
            categories@.len() == c,
            forall|k: int|
                0 <= k < c ==> category_matches(raw@[k], #[trigger] categories@[k]),
            cache.inv(),
            cache@ == cache_of(raw@.take(c as int)),
    {
        proof {
            assert(raw@.take(c + 1).drop_last() =~= raw@.take(c as int));
            assert(raw@.take(c + 1).last() == raw@[c as int]);
        }
        let category = into_category(&raw[c]);
        let cat_raw = &raw[c];
        let m = cat_raw.ingredients.len();
        for g in 0..m
            invariant
                n == raw@.len(),
                0 <= c < raw@.len(),
                *cat_raw == raw@[c as int],
                raw_category_wf(raw@[c as int]),
                m == cat_raw.ingredients@.len(),
                cache.inv(),
                cache@ == cache_after_category(
                    cache_of(raw@.take(c as int)),
                    cat_raw.ingredients@.take(g as int),
                    cat_raw.name@,
                ),
        {
            proof {
                assert(cat_raw.ingredients@.take(g + 1).drop_last() =~= cat_raw.ingredients@.take(
                    g as int,
                ));
                assert(cat_raw.ingredients@.take(g + 1).last() == cat_raw.ingredients@[g as int]);
            }
            let names = &cat_raw.ingredients[g];
            let ghost base = cache@;
            let k = names.len();
            for j in 0..k
                invariant
                    n == raw@.len(),
                    0 <= c < raw@.len(),
                    0 <= g < cat_raw.ingredients@.len(),
                    *cat_raw == raw@[c as int],
                    *names == cat_raw.ingredients@[g as int],
                    k == names@.len(),
                    cache.inv(),
                    cache@ == cache_after_names(base, names@.take(j as int), cat_raw.name@),
            {
                proof {
                    assert(names@.take(j + 1).drop_last() =~= names@.take(j as int));
                    assert(names@.take(j + 1).last() == names@[j as int]);
                }
                cache.insert(names[j].clone(), cat_raw.name.clone());
            }
            proof {
                assert(names@.take(k as int) =~= names@);
            }
        }
        proof {
            assert(cat_raw.ingredients@.take(m as int) =~= cat_raw.ingredients@);
        }
        categories.push(category);
    }
    proof {
        assert(raw@.take(n as int) =~= raw@);
    }
    AisleConf { categories, cache }
}

} // verus!

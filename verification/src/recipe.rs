//! The recipe projector: walk a parsed recipe's sections and steps,
//! resolve each item reference, classify every ingredient occurrence and
//! accumulate the recipe's ingredient list.
//!
//! The parsed recipe arrives as plain values: sections of content
//! blocks, items referencing the ingredient, cookware and timer tables
//! by index, and amounts carrying a scalable value.

use vstd::prelude::*;

use crate::assoc::{assoc_map, lemma_assoc_map_push, views_of};
use crate::list::{add_to_ingredient_list, il_insert, IngredientList};
use crate::metadata::CooklangMetadata;
use crate::model::{unit_view, Amount, KeySpec, Value, ValueSpec};
use crate::quantity::{classify_view, into_group_quantity, GroupedQuantity};

verus! {

/// One item of a parsed step: literal text, a reference into one of the
/// recipe-level tables, or an inline-quantity marker.
#[derive(Clone, Debug)]
pub enum RawItem {
    Text { value: String },
    IngredientRef { index: usize },
    CookwareRef { index: usize },
    TimerRef { index: usize },
    InlineQuantity { index: usize },
}

/// A quantity value whose concrete number depends on a chosen serving
/// count: fixed, linearly scaled, or an explicit per-serving-count
/// table.
#[derive(Clone, Debug)]
pub enum ScalableValue {
    Fixed { value: Value },
    Linear { value: Value },
    ByServings { values: Vec<Value> },
}

/// A scalable value in an optional unit.
#[derive(Clone, Debug)]
pub struct RawQuantity {
    pub value: ScalableValue,
    pub unit: Option<String>,
}

/// One entry of the recipe-level ingredient table.
#[derive(Clone, Debug)]
pub struct RawIngredient {
    pub name: String,
    pub quantity: Option<RawQuantity>,
}

/// One entry of the recipe-level cookware table; cookware carries no
/// unit.
#[derive(Clone, Debug)]
pub struct RawCookware {
    pub name: String,
    pub quantity: Option<ScalableValue>,
}

/// One entry of the recipe-level timer table.
#[derive(Clone, Debug)]
pub struct RawTimer {
    pub name: Option<String>,
    pub quantity: Option<RawQuantity>,
}

/// One content block of a section: a step of items, or a text block.
#[derive(Clone, Debug)]
pub enum RawContent {
    Step { items: Vec<RawItem> },
    Text { value: String },
}

/// One section of a parsed recipe.
#[derive(Clone, Debug)]
pub struct RawSection {
    pub content: Vec<RawContent>,
}

/// A parsed recipe: sections in order, the three reference tables, and
/// the metadata pairs in order.
#[derive(Clone, Debug)]
pub struct RawRecipe {
    pub sections: Vec<RawSection>,
    pub ingredients: Vec<RawIngredient>,
    pub cookware: Vec<RawCookware>,
    pub timers: Vec<RawTimer>,
    pub metadata: Vec<(String, String)>,
}

/// One resolved item of a converted step.
#[derive(Clone, PartialEq, Debug)]
pub enum Item {
    Text { value: String },
    Ingredient { name: String, amount: Option<Amount> },
    Cookware { name: String, amount: Option<Amount> },
    Timer { name: Option<String>, amount: Option<Amount> },
}

/// One converted step.
#[derive(Clone, Debug)]
pub struct Step {
    pub items: Vec<Item>,
}

/// The converted recipe: metadata, resolved steps, the aggregated
/// ingredient list, and the cookware encountered in the steps.
#[derive(Clone, Debug)]
pub struct CooklangRecipe {
    pub metadata: CooklangMetadata,
    pub steps: Vec<Step>,
    pub ingredients: IngredientList,
    pub cookware: Vec<Item>,
}

/// The one concrete value a scalable value resolves to: a fixed or
/// linearly-scaled value stands as written; of a per-serving table the
/// first entry is taken.
pub open spec fn resolved_value(sv: ScalableValue) -> ValueSpec {
    match sv {
        ScalableValue::Fixed { value } => value@,
        ScalableValue::Linear { value } => value@,
        ScalableValue::ByServings { values } => values@[0]@,
    }
}

/// A scalable value resolves only when a per-serving table is not
/// empty.
pub open spec fn sv_wf(sv: ScalableValue) -> bool {
    match sv {
        ScalableValue::ByServings { values } => values@.len() > 0,
        _ => true,
    }
}

/// Resolve a scalable value to one concrete value.
pub fn extract_quantity(value: &ScalableValue) -> (r: Value)
    requires
        sv_wf(*value),
    ensures
        r@ == resolved_value(*value),
{
    match value {
        ScalableValue::Fixed { value: v } => v.dup(),
        ScalableValue::Linear { value: v } => v.dup(),
        ScalableValue::ByServings { values } => values[0].dup(),
    }
}

/// An equal copy of an optional string.
fn dup_opt_string(s: &Option<String>) -> (r: Option<String>)
    ensures
        r == *s,
{
    match s {
        Some(x) => Some(x.clone()),
        None => None,
    }
}

impl RawQuantity {
    /// The amount this quantity stands for: its resolved value in its
    /// unit.
    pub fn extract_amount(&self) -> (r: Amount)
        requires
            sv_wf(self.value),
        ensures
            r.quantity@ == resolved_value(self.value),
            r.units == self.unit,
    {
        let quantity = extract_quantity(&self.value);
        let units = dup_opt_string(&self.unit);
        Amount { quantity, units }
    }
}

impl ScalableValue {
    /// The amount a bare scalable value stands for: its resolved value,
    /// with no unit.
    pub fn extract_amount(&self) -> (r: Amount)
        requires
            sv_wf(*self),
        ensures
            r.quantity@ == resolved_value(*self),
            r.units is None,
    {
        let quantity = extract_quantity(self);
        Amount { quantity, units: None }
    }
}

/// How a converted amount relates to a table entry's quantity.
pub open spec fn amount_matches(q: Option<RawQuantity>, a: Option<Amount>) -> bool {
    match (q, a) {
        (Option::None, Option::None) => true,
        (Option::Some(rq), Option::Some(am)) => {
            &&& am.quantity@ == resolved_value(rq.value)
            &&& am.units == rq.unit
        },
        _ => false,
    }
}

/// How a converted amount relates to a unitless scalable quantity.
pub open spec fn amount_matches_sv(q: Option<ScalableValue>, a: Option<Amount>) -> bool {
    match (q, a) {
        (Option::None, Option::None) => true,
        (Option::Some(sv), Option::Some(am)) => am.quantity@ == resolved_value(sv) && am.units
            is None,
        _ => false,
    }
}

/// The items of a content block; a text block holds none.
pub open spec fn content_items(ct: RawContent) -> Seq<RawItem> {
    match ct {
        RawContent::Step { items } => items@,
        RawContent::Text { .. } => Seq::empty(),
    }
}

/// An item's references point into the recipe's tables.
pub open spec fn item_ok(item: RawItem, r: RawRecipe) -> bool {
    match item {
        RawItem::IngredientRef { index } => index < r.ingredients@.len(),
        RawItem::CookwareRef { index } => index < r.cookware@.len(),
        RawItem::TimerRef { index } => index < r.timers@.len(),
        _ => true,
    }
}

/// A well-formed parsed recipe: every reference resolves, and every
/// table quantity can be resolved to one value.
pub open spec fn raw_recipe_wf(r: RawRecipe) -> bool {
    &&& forall|s: int, c: int, i: int|
        0 <= s < r.sections@.len() && 0 <= c < r.sections@[s].content@.len() && 0 <= i
            < content_items(r.sections@[s].content@[c]).len() ==> item_ok(
            #[trigger] content_items(r.sections@[s].content@[c])[i],
            r,
        )
    &&& forall|i: int|
        0 <= i < r.ingredients@.len() ==> ((#[trigger] r.ingredients@[i]).quantity matches Some(rq)
            ==> sv_wf(rq.value))
    &&& forall|i: int|
        0 <= i < r.cookware@.len() ==> ((#[trigger] r.cookware@[i]).quantity matches Some(sv)
            ==> sv_wf(sv))
    &&& forall|i: int|
        0 <= i < r.timers@.len() ==> ((#[trigger] r.timers@[i]).quantity matches Some(rq)
            ==> sv_wf(rq.value))
}

/// How a converted item relates to the raw item it came from: text
/// carries over, references resolve to the named table entry with its
/// amount, and an inline-quantity marker becomes empty text.
pub open spec fn item_matches(raw: RawItem, r: RawRecipe, it: Item) -> bool {
    match raw {
        RawItem::Text { value } => it == (Item::Text { value }),
        RawItem::IngredientRef { index } => {
            &&& it matches Item::Ingredient { name, amount }
            &&& name == r.ingredients@[index as int].name
            &&& amount_matches(r.ingredients@[index as int].quantity, amount)
        },
        RawItem::CookwareRef { index } => {
            &&& it matches Item::Cookware { name, amount }
            &&& name == r.cookware@[index as int].name
            &&& amount_matches_sv(r.cookware@[index as int].quantity, amount)
        },
        RawItem::TimerRef { index } => {
            &&& it matches Item::Timer { name, amount }
            &&& name == r.timers@[index as int].name
            &&& amount_matches(r.timers@[index as int].quantity, amount)
        },
        RawItem::InlineQuantity { .. } => {
            &&& it matches Item::Text { value }
            &&& value@ == Seq::<char>::empty()
        },
    }
}

/// An equal copy of an optional amount.
fn dup_opt_amount(a: &Option<Amount>) -> (r: Option<Amount>)
    ensures
        r == *a,
{
    match a {
        Some(am) => Some(Amount { quantity: am.quantity.dup(), units: dup_opt_string(&am.units) }),
        None => None,
    }
}

impl Item {
    /// An equal copy of this item.
    pub fn dup(&self) -> (r: Item)
        ensures
            r == *self,
    {
        match self {
            Item::Text { value } => Item::Text { value: value.clone() },
            Item::Ingredient { name, amount } => Item::Ingredient {
                name: name.clone(),
                amount: dup_opt_amount(amount),
            },
            Item::Cookware { name, amount } => Item::Cookware {
                name: name.clone(),
                amount: dup_opt_amount(amount),
            },
            Item::Timer { name, amount } => Item::Timer {
                name: dup_opt_string(name),
                amount: dup_opt_amount(amount),
            },
        }
    }
}

/// Resolve one raw item against the recipe's tables.
pub fn into_item(item: &RawItem, recipe: &RawRecipe) -> (r: Item)
    requires
        raw_recipe_wf(*recipe),
        item_ok(*item, *recipe),
    ensures
        item_matches(*item, *recipe, r),
{
    match item {
        RawItem::Text { value } => Item::Text { value: value.clone() },
        RawItem::IngredientRef { index } => {
            let ingredient = &recipe.ingredients[*index];
            let amount = match &ingredient.quantity {
                Some(q) => Some(q.extract_amount()),
                None => None,
            };
            Item::Ingredient { name: ingredient.name.clone(), amount }
        },
        RawItem::CookwareRef { index } => {
            let cookware = &recipe.cookware[*index];
            let amount = match &cookware.quantity {
                Some(sv) => Some(sv.extract_amount()),
                None => None,
            };
            Item::Cookware { name: cookware.name.clone(), amount }
        },
        RawItem::TimerRef { index } => {
            let timer = &recipe.timers[*index];
            let amount = match &timer.quantity {
                Some(q) => Some(q.extract_amount()),
                None => None,
            };
            Item::Timer { name: dup_opt_string(&timer.name), amount }
        },
        RawItem::InlineQuantity { .. } => Item::Text { value: String::new() },
    }
}

/// The steps a content sequence contributes, in order: one item
/// sequence per step block; text blocks contribute none.
pub open spec fn content_steps(content: Seq<RawContent>) -> Seq<Seq<RawItem>>
    decreases content.len(),
{
    if content.len() == 0 {
        Seq::empty()
    } else {
        let rest = content_steps(content.drop_last());
        match content.last() {
            RawContent::Step { items } => rest.push(items@),
            RawContent::Text { .. } => rest,
        }
    }
}

/// The steps of a whole recipe, section by section.
pub open spec fn recipe_steps(sections: Seq<RawSection>) -> Seq<Seq<RawItem>>
    decreases sections.len(),
{
    if sections.len() == 0 {
        Seq::empty()
    } else {
        recipe_steps(sections.drop_last()) + content_steps(sections.last().content@)
    }
}

/// The breakdown classified for one ingredient-table entry.
pub open spec fn ingredient_class(e: RawIngredient) -> Map<KeySpec, ValueSpec> {
    match e.quantity {
        None => classify_view(None),
        Some(rq) => classify_view(Some((resolved_value(rq.value), unit_view(rq.unit)))),
    }
}

/// The ingredient list after the occurrences of one item sequence are
/// folded in, in order.
pub open spec fn il_after_items(
    m0: Map<Seq<char>, Map<KeySpec, ValueSpec>>,
    items: Seq<RawItem>,
    r: RawRecipe,
) -> Map<Seq<char>, Map<KeySpec, ValueSpec>>
    decreases items.len(),
{
    if items.len() == 0 {
        m0
    } else {
        let m = il_after_items(m0, items.drop_last(), r);
        match items.last() {
            RawItem::IngredientRef { index } => il_insert(
                m,
                r.ingredients@[index as int].name@,
                ingredient_class(r.ingredients@[index as int]),
            ),
            _ => m,
        }
    }
}

/// The ingredient list after every step's occurrences are folded in.
pub open spec fn il_after_steps(
    m0: Map<Seq<char>, Map<KeySpec, ValueSpec>>,
    steps: Seq<Seq<RawItem>>,
    r: RawRecipe,
) -> Map<Seq<char>, Map<KeySpec, ValueSpec>>
    decreases steps.len(),
{
    if steps.len() == 0 {
        m0
    } else {
        il_after_items(il_after_steps(m0, steps.drop_last(), r), steps.last(), r)
    }
}

/// The cookware references of one item sequence, appended in order.
pub open spec fn cw_after_items(s0: Seq<RawItem>, items: Seq<RawItem>) -> Seq<RawItem>
    decreases items.len(),
{
    if items.len() == 0 {
        s0
    } else {
        let s = cw_after_items(s0, items.drop_last());
        match items.last() {
            RawItem::CookwareRef { .. } => s.push(items.last()),
            _ => s,
        }
    }
}

/// The cookware references of every step, appended in order.
pub open spec fn cw_after_steps(s0: Seq<RawItem>, steps: Seq<Seq<RawItem>>) -> Seq<RawItem>
    decreases steps.len(),
{
    if steps.len() == 0 {
        s0
    } else {
        cw_after_items(cw_after_steps(s0, steps.drop_last()), steps.last())
    }
}

/// Each converted item matches its raw item, position by position.
pub open spec fn items_match_seq(raws: Seq<RawItem>, r: RawRecipe, its: Seq<Item>) -> bool {
    &&& its.len() == raws.len()
    &&& forall|i: int| 0 <= i < raws.len() ==> item_matches(raws[i], r, #[trigger] its[i])
}

/// Each converted step matches its raw step, position by position.
pub open spec fn steps_match(raw_steps: Seq<Seq<RawItem>>, r: RawRecipe, steps: Seq<Step>) -> bool {
    &&& steps.len() == raw_steps.len()
    &&& forall|s: int|
        0 <= s < raw_steps.len() ==> items_match_seq(raw_steps[s], r, (#[trigger] steps[s]).items@)
}

/// Convert a parsed recipe: resolve every step item, classify and
/// accumulate every ingredient occurrence, collect the cookware
/// encountered, and carry the metadata over.
pub fn into_simple_recipe(recipe: &RawRecipe) -> (r: CooklangRecipe)
    requires
        raw_recipe_wf(*recipe),
    ensures
        r.metadata@ == assoc_map(views_of(recipe.metadata@)),
        r.metadata.inv(),
        r.ingredients@ == il_after_steps(
            Map::<Seq<char>, Map<KeySpec, ValueSpec>>::empty(),
            recipe_steps(recipe.sections@),
            *recipe,
        ),
        r.ingredients.wf(),
        steps_match(recipe_steps(recipe.sections@), *recipe, r.steps@),
        items_match_seq(
            cw_after_steps(Seq::empty(), recipe_steps(recipe.sections@)),
            *recipe,
            r.cookware@,
        ),
{
    let mut metadata = CooklangMetadata::new();
    let mut steps: Vec<Step> = Vec::new();
    let mut ingredients = IngredientList::new();
    let mut cookware: Vec<Item> = Vec::new();
    let ghost m0 = Map::<Seq<char>, Map<KeySpec, ValueSpec>>::empty();
    let ns = recipe.sections.len();
    for s in 0..ns
        invariant
            ns == recipe.sections@.len(),
            raw_recipe_wf(*recipe),
            ingredients.wf(),
            m0 == Map::<Seq<char>, Map<KeySpec, ValueSpec>>::empty(),
            steps_match(recipe_steps(recipe.sections@.take(s as int)), *recipe, steps@),
            ingredients@ == il_after_steps(
                m0,
                recipe_steps(recipe.sections@.take(s as int)),
                *recipe,
            ),
            items_match_seq(
                cw_after_steps(Seq::empty(), recipe_steps(recipe.sections@.take(s as int))),
                *recipe,
                cookware@,
            ),
    {
        let section = &recipe.sections[s];
        let ghost sec_base = recipe_steps(recipe.sections@.take(s as int));
        proof {
            assert(recipe.sections@.take(s + 1).drop_last() =~= recipe.sections@.take(s as int));
            assert(recipe.sections@.take(s + 1).last() == recipe.sections@[s as int]);
        }
        let nc = section.content.len();
        for c in 0..nc
            invariant
                ns == recipe.sections@.len(),
                0 <= s < recipe.sections@.len(),
                *section == recipe.sections@[s as int],
                sec_base == recipe_steps(recipe.sections@.take(s as int)),
                nc == section.content@.len(),
                raw_recipe_wf(*recipe),
                ingredients.wf(),
                m0 == Map::<Seq<char>, Map<KeySpec, ValueSpec>>::empty(),
                steps_match(sec_base + content_steps(section.content@.take(c as int)), *recipe, steps@),
                ingredients@ == il_after_steps(
                    m0,
                    sec_base + content_steps(section.content@.take(c as int)),
                    *recipe,
                ),
                items_match_seq(
                    cw_after_steps(
                        Seq::empty(),
                        sec_base + content_steps(section.content@.take(c as int)),
                    ),
                    *recipe,
                    cookware@,
                ),
        {
            let ghost done = sec_base + content_steps(section.content@.take(c as int));
            proof {
                assert(section.content@.take(c + 1).drop_last() =~= section.content@.take(c as int));
                assert(section.content@.take(c + 1).last() == section.content@[c as int]);
            }
            match &section.content[c] {
                RawContent::Step { items } => {
                    let ghost il_base = ingredients@;
                    let ghost cw_base = cw_after_steps(Seq::empty(), done);
                    let mut step_items: Vec<Item> = Vec::new();
                    let ni = items.len();
                    for i in 0..ni
                        invariant
                            ns == recipe.sections@.len(),
                            0 <= s < recipe.sections@.len(),
                            0 <= c < recipe.sections@[s as int].content@.len(),
                            *section == recipe.sections@[s as int],
                            content_items(section.content@[c as int]) == items@,
                            ni == items@.len(),
                            raw_recipe_wf(*recipe),
                            ingredients.wf(),
                            items_match_seq(items@.take(i as int), *recipe, step_items@),
                            ingredients@ == il_after_items(il_base, items@.take(i as int), *recipe),
                            items_match_seq(
                                cw_after_items(cw_base, items@.take(i as int)),
                                *recipe,
                                cookware@,
                            ),
                    {
                        proof {
                            assert(content_items(recipe.sections@[s as int].content@[c as int])[
                                i as int] == items@[i as int]);
                            assert(item_ok(items@[i as int], *recipe));
                            assert(items@.take(i + 1).drop_last() =~= items@.take(i as int));
                            assert(items@.take(i + 1).last() == items@[i as int]);
                        }
                        let item = into_item(&items[i], recipe);
                        match &item {
                            Item::Ingredient { name, amount } => {
                                let quantity = into_group_quantity(amount);
                                proof {
                                    let raw = items@[i as int];
                                    let idx = raw->IngredientRef_index as int;
                                    let entry = recipe.ingredients@[idx];
                                    assert(quantity@ == ingredient_class(entry)) by {
                                        match entry.quantity {
                                            Option::None => {},
                                            Option::Some(rq) => {},
                                        }
                                    }
                                }
                                add_to_ingredient_list(&mut ingredients, name, &quantity);
                            },
                            Item::Cookware { .. } => {
                                cookware.push(item.dup());
                            },
                            _ => {},
                        }
                        step_items.push(item);
                    }
                    proof {
                        assert(items@.take(ni as int) =~= items@);
                    }
                    steps.push(Step { items: step_items });
                    proof {
                        assert(content_steps(section.content@.take(c + 1)) =~= content_steps(
                            section.content@.take(c as int),
                        ).push(items@));
                        assert(sec_base + content_steps(section.content@.take(c + 1)) =~= done.push(
                            items@,
                        ));
                        assert(done.push(items@).drop_last() =~= done);
                        assert(il_after_steps(m0, done.push(items@), *recipe) == il_after_items(
                            il_base,
                            items@,
                            *recipe,
                        ));
                        assert(cw_after_steps(Seq::empty(), done.push(items@)) == cw_after_items(
                            cw_base,
                            items@,
                        ));
                    }
                },
                RawContent::Text { .. } => {
                    proof {
                        assert(content_steps(section.content@.take(c + 1)) =~= content_steps(
                            section.content@.take(c as int),
                        ));
                        assert(sec_base + content_steps(section.content@.take(c + 1)) =~= done);
                    }
                },
            }
        }
        proof {
            assert(section.content@.take(nc as int) =~= section.content@);
            assert(recipe_steps(recipe.sections@.take(s + 1)) =~= sec_base + content_steps(
                section.content@,
            ));
        }
    }
    proof {
        assert(recipe.sections@.take(ns as int) =~= recipe.sections@);
    }
    let nm = recipe.metadata.len();
    for m in 0..nm
        invariant
            nm == recipe.metadata@.len(),
            metadata.inv(),
            metadata@ == assoc_map(views_of(recipe.metadata@.take(m as int))),
    {
        let ghost mviews = views_of(recipe.metadata@.take(m as int));
        proof {
            assert(views_of(recipe.metadata@.take(m + 1)) =~= mviews.push(
                (recipe.metadata@[m as int].0@, recipe.metadata@[m as int].1@),
            ));
            lemma_assoc_map_push(
                mviews,
                (recipe.metadata@[m as int].0@, recipe.metadata@[m as int].1@),
            );
        }
        metadata.insert(recipe.metadata[m].0.clone(), recipe.metadata[m].1.clone());
    }
    proof {
        assert(views_of(recipe.metadata@.take(nm as int)) =~= views_of(recipe.metadata@));
    }
    CooklangRecipe { metadata, steps, ingredients, cookware }
}

} // verus!

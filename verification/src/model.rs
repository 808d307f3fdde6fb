//! The document model: the value a successful reduction produces.

use vstd::prelude::*;

use indexmap::IndexMap;

use crate::amount::{Amount, AmountModel, view_opt_amount};
use crate::imap::entries;

verus! {

/// A timer mention: how long, in which unit.
#[derive(Debug)]
pub struct Timer {
    /// The number of units, as scanned from the document.
    pub amount: u64,
    /// The unit of the duration.
    pub unit: String,
}

/// The mathematical shadow of [`Timer`].
pub struct TimerModel {
    pub amount: u64,
    pub unit: Seq<char>,
}

impl View for Timer {
    type V = TimerModel;

    open spec fn view(&self) -> TimerModel {
        TimerModel { amount: self.amount, unit: self.unit@ }
    }
}

/// One `@`-mention: which ingredient, and how much of it in that step.
#[derive(Debug)]
pub struct IngredientSpecifier {
    /// The normalized name referencing an [`Ingredient`] by key.
    pub ingredient: String,
    /// The amount this one mention declares.
    pub amount_in_step: Amount,
}

/// The mathematical shadow of [`IngredientSpecifier`].
pub struct SpecifierModel {
    pub ingredient: Seq<char>,
    pub amount_in_step: AmountModel,
}

impl View for IngredientSpecifier {
    type V = SpecifierModel;

    open spec fn view(&self) -> SpecifierModel {
        SpecifierModel { ingredient: self.ingredient@, amount_in_step: self.amount_in_step@ }
    }
}

/// One entry of the deduplicated ingredient table.
#[derive(Debug)]
pub struct Ingredient {
    /// The normalized display name.
    pub name: String,
    /// An identifier unique within one recipe, issued in creation order.
    pub id: u64,
    /// The merged amount over all mentions, where any mention declared one.
    pub amount: Option<Amount>,
    /// The declared unit, shared by every mention of this ingredient.
    pub unit: Option<String>,
}

/// The mathematical shadow of [`Ingredient`].
pub struct IngredientModel {
    pub name: Seq<char>,
    pub id: u64,
    pub amount: Option<AmountModel>,
    pub unit: Option<Seq<char>>,
}

/// The model of an optional text.
pub open spec fn view_opt_string(o: Option<String>) -> Option<Seq<char>> {
    match o {
        None => None,
        Some(s) => Some(s@),
    }
}

/// The model of an optional servings list.
pub open spec fn view_opt_servings(o: Option<Vec<u64>>) -> Option<Seq<u64>> {
    match o {
        None => None,
        Some(v) => Some(v@),
    }
}

impl View for Ingredient {
    type V = IngredientModel;

    open spec fn view(&self) -> IngredientModel {
        IngredientModel {
            name: self.name@,
            id: self.id,
            amount: view_opt_amount(self.amount),
            unit: view_opt_string(self.unit),
        }
    }
}

/// Whether some pair of a keyed sequence carries the key.
pub open spec fn has_pair_key<T>(s: Seq<(Seq<char>, T)>, k: Seq<char>) -> bool {
    exists|i: int| 0 <= i < s.len() && s[i].0 == k
}

/// The first index carrying the key; meaningful under [`has_pair_key`].
pub open spec fn pair_key_index<T>(s: Seq<(Seq<char>, T)>, k: Seq<char>) -> int
    decreases s.len(),
{
    if s.len() == 0 {
        0
    } else if s[0].0 == k {
        0
    } else {
        1 + pair_key_index(s.drop_first(), k)
    }
}

/// Where a key occurs, its first index lies in range, carries the key, and
/// nothing before it does.
pub proof fn lemma_pair_key_index<T>(s: Seq<(Seq<char>, T)>, k: Seq<char>)
    requires
        has_pair_key(s, k),
    ensures
        0 <= pair_key_index(s, k) < s.len(),
        s[pair_key_index(s, k)].0 == k,
        forall|j: int| 0 <= j < pair_key_index(s, k) ==> s[j].0 != k,
    decreases s.len(),
{
    if s.len() > 0 && s[0].0 != k {
        let t = s.drop_first();
        assert forall|i: int| 0 <= i < s.len() && s[i].0 == k implies i >= 1 by {}
        let w = choose|i: int| 0 <= i < s.len() && s[i].0 == k;
        assert(t[w - 1].0 == k);
        lemma_pair_key_index(t, k);
        assert forall|j: int| 0 <= j < pair_key_index(s, k) implies s[j].0 != k by {
            if j >= 1 {
                assert(t[j - 1].0 != k);
            }
        }
    }
}

/// No pair is keyed like another.
pub open spec fn pair_keys_unique<T>(s: Seq<(Seq<char>, T)>) -> bool {
    forall|i: int, j: int| 0 <= i < j < s.len() ==> s[i].0 != s[j].0
}

/// The free-form key-value metadata table.  A repeated key keeps its first
/// position and takes the last written value; no further ordering is
/// promised.
#[derive(Debug)]
pub struct StrMap {
    pairs: Vec<(String, String)>,
}

/// What writing one pair into the table yields.
pub open spec fn spec_kv_set(
    s: Seq<(Seq<char>, Seq<char>)>,
    k: Seq<char>,
    v: Seq<char>,
) -> Seq<(Seq<char>, Seq<char>)> {
    if has_pair_key(s, k) {
        s.update(pair_key_index(s, k), (k, v))
    } else {
        s.push((k, v))
    }
}

impl StrMap {
    /// The pairs the table holds.
    pub closed spec fn entries_view(self) -> Seq<(Seq<char>, Seq<char>)> {
        self.pairs@.map_values(|p: (String, String)| (p.0@, p.1@))
    }

    pub fn new() -> (r: StrMap)
        ensures
            r.entries_view() == Seq::<(Seq<char>, Seq<char>)>::empty(),
    {
        let r = StrMap { pairs: Vec::new() };
        proof {
            assert(r.entries_view() =~= Seq::<(Seq<char>, Seq<char>)>::empty());
        }
        r
    }

    /// Write one pair; the last write to a key wins.
    #[verifier::loop_isolation(false)]
    pub fn set(&mut self, k: String, v: String)
        ensures
            final(self).entries_view() == spec_kv_set(old(self).entries_view(), k@, v@),
    {
        let ghost s0 = self.entries_view();
        let ghost gk = k@;
        let ghost gv = v@;
        let mut j: usize = 0;
        while j < self.pairs.len()
            invariant
                self.entries_view() == s0,
                s0.len() == self.pairs@.len(),
                forall|j2: int|
                    0 <= j2 < s0.len() ==> s0[j2] == (self.pairs@[j2].0@, self.pairs@[j2].1@),
                0 <= j <= self.pairs.len(),
                k@ == gk,
                v@ == gv,
                forall|j2: int| 0 <= j2 < j ==> s0[j2].0 != gk,
            decreases self.pairs.len() - j,
        {
            if self.pairs[j].0.eq(&k) {
                proof {
                    assert(s0[j as int] == (self.pairs@[j as int].0@, self.pairs@[j as int].1@));
                    assert(has_pair_key(s0, gk));
                    lemma_pair_key_index(s0, gk);
                    assert(pair_key_index(s0, gk) == j as int);
                }
                self.pairs[j] = (k, v);
                proof {
                    assert(self.entries_view() =~= s0.update(j as int, (gk, gv)));
                    assert(self.entries_view() == spec_kv_set(s0, gk, gv));
                }
                return ;
            }
            j += 1;
        }
        proof {
            assert(!has_pair_key(s0, gk));
        }
        self.pairs.push((k, v));
        proof {
            assert(self.entries_view() =~= s0.push((gk, gv)));
            assert(self.entries_view() == spec_kv_set(s0, gk, gv));
        }
    }

    /// Read the value last written for a key.
    pub fn get<'a>(&'a self, k: &String) -> (r: Option<&'a String>)
        ensures
            match r {
                Some(v) => has_pair_key(self.entries_view(), k@) && v@ == self.entries_view()[
                    pair_key_index(self.entries_view(), k@)
                ].1,
                None => !has_pair_key(self.entries_view(), k@),
            },
    {
        let ghost s0 = self.entries_view();
        let mut j: usize = 0;
        while j < self.pairs.len()
            invariant
                self.entries_view() == s0,
                s0.len() == self.pairs@.len(),
                forall|j2: int|
                    0 <= j2 < s0.len() ==> s0[j2] == (self.pairs@[j2].0@, self.pairs@[j2].1@),
                0 <= j <= self.pairs.len(),
                forall|j2: int| 0 <= j2 < j ==> s0[j2].0 != k@,
            decreases self.pairs.len() - j,
        {
            if self.pairs[j].0.eq(k) {
                proof {
                    assert(s0[j as int] == (self.pairs@[j as int].0@, self.pairs@[j as int].1@));
                    assert(has_pair_key(s0, k@));
                    lemma_pair_key_index(s0, k@);
                    assert(pair_key_index(s0, k@) == j as int);
                }
                return Some(&self.pairs[j].1);
            }
            j += 1;
        }
        proof {
            assert(!has_pair_key(s0, k@));
        }
        None
    }

    /// How many keys the table holds.
    pub fn len(&self) -> (n: usize)
        ensures
            n as nat == self.entries_view().len(),
    {
        self.pairs.len()
    }

    /// The pairs the table holds, for callers that render them.
    pub fn pairs_list(&self) -> (r: &Vec<(String, String)>)
        ensures
            r@.map_values(|p: (String, String)| (p.0@, p.1@)) == self.entries_view(),
    {
        &self.pairs
    }
}

/// The normalized metadata of one recipe.
#[derive(Debug)]
pub struct Metadata {
    /// The declared serving brackets, where the document declares any.
    pub servings: Option<Vec<u64>>,
    /// Free-form metadata lines other than the servings declaration.
    pub ominous: StrMap,
    /// The deduplicated ingredient table, keyed by normalized name, in
    /// insertion order.
    pub ingredients: IndexMap<String, Ingredient>,
    /// One entry per `@`-mention, in mention order.
    pub ingredients_specifiers: Vec<IngredientSpecifier>,
    /// One entry per `#`-mention, in mention order, not deduplicated.
    pub cookware: Vec<String>,
    /// One entry per `~`-mention, in mention order.
    pub timer: Vec<Timer>,
}

/// The mathematical shadow of [`Metadata`].
pub struct MetadataModel {
    pub servings: Option<Seq<u64>>,
    pub ominous: Seq<(Seq<char>, Seq<char>)>,
    pub ingredients: Seq<(Seq<char>, IngredientModel)>,
    pub ingredients_specifiers: Seq<SpecifierModel>,
    pub cookware: Seq<Seq<char>>,
    pub timer: Seq<TimerModel>,
}

impl View for Metadata {
    type V = MetadataModel;

    open spec fn view(&self) -> MetadataModel {
        MetadataModel {
            servings: view_opt_servings(self.servings),
            ominous: self.ominous.entries_view(),
            ingredients: entries(self.ingredients).map_values(
                |p: (Seq<char>, Ingredient)| (p.0, p.1@),
            ),
            ingredients_specifiers: self.ingredients_specifiers@.map_values(
                |x: IngredientSpecifier| x@,
            ),
            cookware: self.cookware@.map_values(|x: String| x@),
            timer: self.timer@.map_values(|x: Timer| x@),
        }
    }
}

impl Metadata {
    /// Record one free-form metadata line; the last write to a key wins.
    pub fn add_key_value(&mut self, key: String, value: String)
        ensures
            final(self)@ == (MetadataModel {
                ominous: spec_kv_set(old(self)@.ominous, key@, value@),
                ..old(self)@
            }),
    {
        self.ominous.set(key, value);
    }
}

/// An exact copy of an optional text.
pub fn clone_opt_string(o: &Option<String>) -> (r: Option<String>)
    ensures
        view_opt_string(r) == view_opt_string(*o),
{
    match o {
        None => None,
        Some(s) => Some(s.clone()),
    }
}

/// Whether two declared units agree; an absent unit counts as its own
/// value.
pub fn opt_unit_eq(a: &Option<String>, b: &Option<String>) -> (r: bool)
    ensures
        r == (view_opt_string(*a) == view_opt_string(*b)),
{
    match (a, b) {
        (None, None) => true,
        (Some(x), Some(y)) => x.eq(y),
        _ => false,
    }
}

/// The structured result of one reduction.
#[derive(Debug)]
pub struct Recipe {
    /// The document the recipe was reduced from, unchanged.
    pub source: String,
    /// The normalized metadata and the positional mention tables.
    pub metadata: Metadata,
    /// The document with every mention replaced by its marker character and
    /// every comment span removed.
    pub instruction: String,
}

/// The mathematical shadow of [`Recipe`].
pub struct RecipeModel {
    pub source: Seq<char>,
    pub metadata: MetadataModel,
    pub instruction: Seq<char>,
}

impl View for Recipe {
    type V = RecipeModel;

    open spec fn view(&self) -> RecipeModel {
        RecipeModel {
            source: self.source@,
            metadata: self.metadata@,
            instruction: self.instruction@,
        }
    }
}

} // verus!

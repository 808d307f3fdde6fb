//! The semantic reducer: one pass over the typed parse tree that builds the
//! metadata tables, merges repeated ingredient mentions, evaluates the
//! amount algebra and rewrites the instruction text with markers.
//!
//! Every executable step is proved against the functional model
//! [`reduce_doc`]; [`parse`]'s contract says that the recipe it returns is
//! exactly what the model yields, and that it fails exactly where the model
//! fails, with the same error.

use vstd::prelude::*;
use vstd::pervasive::unreached;
use vstd::string::StrSliceExecFns;
use vstd::string::StringExecFns;

use indexmap::IndexMap;

use crate::amount::{
    Amount, AmountModel, amount_extended, amount_promoted, amount_sum, amount_applied,
    apply_next_number, clone_amount, clone_opt_amount, view_opt_amount,
};
use crate::error::{CookError, CookErrorModel};
use crate::imap::{entries, imap_contains_key, imap_get, imap_insert, imap_len, imap_new};
use crate::model::{
    clone_opt_string, has_pair_key, lemma_pair_key_index, opt_unit_eq, pair_key_index,
    pair_keys_unique, spec_kv_set, view_opt_string, Ingredient, IngredientModel,
    IngredientSpecifier, Metadata, MetadataModel, Recipe, SpecifierModel, StrMap, Timer,
    TimerModel,
};
use crate::qty::Qty;
use crate::text::{
    parse_u64, space_join, spec_parse_u64, spec_space_join, spec_split_pipe, split_on_pipe,
};
use crate::tree::{Block, BlockModel, IngredientToken, IngredientTokenModel, StepItem,
    StepItemModel};

verus! {

/// The reducer's whole state: the metadata under construction and the
/// instruction text written so far.
pub struct DocState {
    pub meta: MetadataModel,
    pub instruction: Seq<char>,
}

/// The state a reduction starts from: everything empty.
pub open spec fn init_doc() -> DocState {
    DocState {
        meta: MetadataModel {
            servings: None,
            ominous: Seq::empty(),
            ingredients: Seq::empty(),
            ingredients_specifiers: Seq::empty(),
            cookware: Seq::empty(),
            timer: Seq::empty(),
        },
        instruction: Seq::empty(),
    }
}

/// The in-progress reading of one ingredient mention.
pub struct MentionState {
    pub has_piece: bool,
    pub name: Seq<char>,
    pub amount: Option<AmountModel>,
    pub unit: Option<Seq<char>>,
}

/// An unread mention: no name piece, no amount, no unit.
pub open spec fn init_mention() -> MentionState {
    MentionState { has_piece: false, name: Seq::empty(), amount: None, unit: None }
}

/// One more name piece, space-separated from what is there.
pub open spec fn mention_piece(ms: MentionState, p: Seq<char>) -> MentionState {
    MentionState {
        has_piece: true,
        name: if ms.has_piece {
            ms.name + " "@ + p
        } else {
            p
        },
        ..ms
    }
}

/// What one ingredient sub-token does to the mention under construction.
pub open spec fn fold_token(ms: MentionState, t: IngredientTokenModel) -> Result<
    MentionState,
    CookErrorModel,
> {
    match t {
        IngredientTokenModel::Name(p) => Ok(mention_piece(ms, p)),
        IngredientTokenModel::Text(p) => Ok(mention_piece(ms, p)),
        IngredientTokenModel::Number(tok) => match spec_parse_u64(tok) {
            None => Err(CookErrorModel::NumericParse(tok)),
            Some(n) => match amount_applied(ms.amount, n) {
                Ok(a) => Ok(MentionState { amount: Some(a), ..ms }),
                Err(e) => Err(e),
            },
        },
        IngredientTokenModel::Separator => match ms.amount {
            None => Err(CookErrorModel::AmountAlgebra),
            Some(a) => match amount_extended(a) {
                Ok(x) => Ok(MentionState { amount: Some(x), ..ms }),
                Err(e) => Err(e),
            },
        },
        IngredientTokenModel::Modified(_) => Ok(ms),
        IngredientTokenModel::Unit(u) => Ok(MentionState { unit: Some(u), ..ms }),
        IngredientTokenModel::Scaling => match ms.amount {
            None => Err(CookErrorModel::AmountAlgebra),
            Some(a) => match amount_promoted(a) {
                Ok(x) => Ok(MentionState { amount: Some(x), ..ms }),
                Err(e) => Err(e),
            },
        },
    }
}

/// Fold the mention's sub-tokens left to right, from position `i` on.
pub open spec fn fold_tokens_from(
    ms: MentionState,
    ts: Seq<IngredientTokenModel>,
    i: int,
) -> Result<MentionState, CookErrorModel>
    decreases ts.len() - i,
{
    if 0 <= i < ts.len() {
        match fold_token(ms, ts[i]) {
            Ok(n) => fold_tokens_from(n, ts, i + 1),
            Err(e) => Err(e),
        }
    } else {
        Ok(ms)
    }
}

/// What one resolved mention does to the document: a specifier and a marker
/// always; then either a fresh table entry, or a merge into the entry of
/// the same normalized name, which must agree in amount variant and unit.
pub open spec fn apply_mention(st: DocState, ms: MentionState) -> Result<
    DocState,
    CookErrorModel,
> {
    let amt = match ms.amount {
        None => AmountModel::Single(Qty::spec_from_count(0)),
        Some(a) => a,
    };
    let specs = st.meta.ingredients_specifiers.push(
        SpecifierModel { ingredient: ms.name, amount_in_step: amt },
    );
    let instr = st.instruction + "@"@;
    if has_pair_key(st.meta.ingredients, ms.name) {
        let i = pair_key_index(st.meta.ingredients, ms.name);
        let ex = st.meta.ingredients[i].1;
        let merged: Result<Option<AmountModel>, CookErrorModel> = match ms.amount {
            None => Ok(ex.amount),
            Some(a) => match ex.amount {
                None => Err(CookErrorModel::AmountAlgebra),
                Some(ea) => match amount_sum(ea, a) {
                    Ok(s) => Ok(Some(s)),
                    Err(e) => Err(e),
                },
            },
        };
        match merged {
            Err(e) => Err(e),
            Ok(ma) => {
                if ex.unit != ms.unit {
                    Err(CookErrorModel::UnitMismatch(ms.name))
                } else {
                    Ok(
                        DocState {
                            meta: MetadataModel {
                                ingredients: st.meta.ingredients.update(
                                    i,
                                    (
                                        ms.name,
                                        IngredientModel {
                                            name: ex.name,
                                            id: ex.id,
                                            amount: ma,
                                            unit: ms.unit,
                                        },
                                    ),
                                ),
                                ingredients_specifiers: specs,
                                ..st.meta
                            },
                            instruction: instr,
                        },
                    )
                }
            },
        }
    } else {
        let ing = IngredientModel {
            name: ms.name,
            id: st.meta.ingredients.len() as u64,
            amount: ms.amount,
            unit: ms.unit,
        };
        Ok(
            DocState {
                meta: MetadataModel {
                    ingredients: st.meta.ingredients.push((ms.name, ing)),
                    ingredients_specifiers: specs,
                    ..st.meta
                },
                instruction: instr,
            },
        )
    }
}

/// What one step span does to the document.
pub open spec fn apply_item(st: DocState, it: StepItemModel) -> Result<DocState, CookErrorModel> {
    match it {
        StepItemModel::Text(t) => Ok(DocState { instruction: st.instruction + t, ..st }),
        StepItemModel::Comment(_) => Ok(st),
        StepItemModel::Cookware(names) => Ok(
            DocState {
                meta: MetadataModel {
                    cookware: st.meta.cookware.push(spec_space_join(names)),
                    ..st.meta
                },
                instruction: st.instruction + "#"@,
            },
        ),
        StepItemModel::Timer { number, unit } => {
            let read: Result<u64, CookErrorModel> = match number {
                None => Ok(0u64),
                Some(tok) => match spec_parse_u64(tok) {
                    None => Err(CookErrorModel::NumericParse(tok)),
                    Some(n) => Ok(n),
                },
            };
            match read {
                Err(e) => Err(e),
                Ok(n) => Ok(
                    DocState {
                        meta: MetadataModel {
                            timer: st.meta.timer.push(
                                TimerModel {
                                    amount: n,
                                    unit: match unit {
                                        None => Seq::empty(),
                                        Some(u) => u,
                                    },
                                },
                            ),
                            ..st.meta
                        },
                        instruction: st.instruction + "~"@,
                    },
                ),
            }
        },
        StepItemModel::Ingredient(ts) => match fold_tokens_from(init_mention(), ts, 0) {
            Ok(ms) => apply_mention(st, ms),
            Err(e) => Err(e),
        },
    }
}

/// Fold a step's spans left to right, from position `i` on.
pub open spec fn fold_items_from(st: DocState, items: Seq<StepItemModel>, i: int) -> Result<
    DocState,
    CookErrorModel,
>
    decreases items.len() - i,
{
    if 0 <= i < items.len() {
        match apply_item(st, items[i]) {
            Ok(n) => fold_items_from(n, items, i + 1),
            Err(e) => Err(e),
        }
    } else {
        Ok(st)
    }
}

/// Read the serving brackets, one unsigned integer per piece, from piece
/// `i` on, onto what is already read.
pub open spec fn parse_servings_from(parts: Seq<Seq<char>>, i: int, acc: Seq<u64>) -> Result<
    Seq<u64>,
    CookErrorModel,
>
    decreases parts.len() - i,
{
    if 0 <= i < parts.len() {
        match spec_parse_u64(parts[i]) {
            None => Err(CookErrorModel::NumericParse(parts[i])),
            Some(n) => parse_servings_from(parts, i + 1, acc.push(n)),
        }
    } else {
        Ok(acc)
    }
}

/// What one document node does to the document.
pub open spec fn apply_block(st: DocState, b: BlockModel) -> Result<DocState, CookErrorModel> {
    match b {
        BlockModel::Text(t) => Ok(DocState { instruction: st.instruction + t, ..st }),
        BlockModel::Comment(_) => Ok(st),
        BlockModel::MetadataLine { key, value, text } => {
            let instr = st.instruction + text;
            if key == "servings"@ {
                match parse_servings_from(spec_split_pipe(value), 0, Seq::empty()) {
                    Err(e) => Err(e),
                    Ok(list) => Ok(
                        DocState {
                            meta: MetadataModel { servings: Some(list), ..st.meta },
                            instruction: instr,
                        },
                    ),
                }
            } else {
                Ok(
                    DocState {
                        meta: MetadataModel {
                            ominous: spec_kv_set(st.meta.ominous, key, value),
                            ..st.meta
                        },
                        instruction: instr,
                    },
                )
            }
        },
        BlockModel::Step(items) => fold_items_from(st, items, 0),
    }
}

/// Fold the document's nodes left to right, from position `i` on.
pub open spec fn fold_blocks_from(st: DocState, blocks: Seq<BlockModel>, i: int) -> Result<
    DocState,
    CookErrorModel,
>
    decreases blocks.len() - i,
{
    if 0 <= i < blocks.len() {
        match apply_block(st, blocks[i]) {
            Ok(n) => fold_blocks_from(n, blocks, i + 1),
            Err(e) => Err(e),
        }
    } else {
        Ok(st)
    }
}

/// The functional model of the whole reduction.
pub open spec fn reduce_doc(blocks: Seq<BlockModel>) -> Result<DocState, CookErrorModel> {
    fold_blocks_from(init_doc(), blocks, 0)
}

/// The models of a parsed document's nodes.
pub open spec fn blocks_view(blocks: Seq<Block>) -> Seq<BlockModel> {
    blocks.map_values(|b: Block| b@)
}

/// A reachable document state: no two ingredient entries share a key.
pub open spec fn meta_wf(m: MetadataModel) -> bool {
    pair_keys_unique(m.ingredients)
}

/// The model pairs of the raw ingredient table.
pub open spec fn ing_views(s: Seq<(Seq<char>, Ingredient)>) -> Seq<(Seq<char>, IngredientModel)> {
    s.map_values(|p: (Seq<char>, Ingredient)| (p.0, p.1@))
}

/// Taking models keeps keys, their positions and their first index.
proof fn lemma_ing_views_keys(s: Seq<(Seq<char>, Ingredient)>, k: Seq<char>)
    ensures
        has_pair_key(ing_views(s), k) == has_pair_key(s, k),
        has_pair_key(s, k) ==> pair_key_index(ing_views(s), k) == pair_key_index(s, k),
    decreases s.len(),
{
    if s.len() > 0 {
        lemma_ing_views_keys(s.drop_first(), k);
        assert(ing_views(s).drop_first() =~= ing_views(s.drop_first()));
        assert(ing_views(s)[0].0 == s[0].0);
        if has_pair_key(s, k) && s[0].0 != k {
            lemma_pair_key_index(s, k);
            assert(has_pair_key(s.drop_first(), k)) by {
                let w = choose|i: int| 0 <= i < s.len() && s[i].0 == k;
                assert(s.drop_first()[w - 1].0 == k);
            }
        }
        if has_pair_key(ing_views(s), k) && ing_views(s)[0].0 != k {
            let w = choose|i: int| 0 <= i < ing_views(s).len() && ing_views(s)[i].0 == k;
            assert(s[w].0 == k);
        }
    }
}

/// The exec shadow of [`MentionState`].
struct Mention {
    has_piece: bool,
    name: String,
    amount: Option<Amount>,
    unit: Option<String>,
}

impl View for Mention {
    type V = MentionState;

    closed spec fn view(&self) -> MentionState {
        MentionState {
            has_piece: self.has_piece,
            name: self.name@,
            amount: view_opt_amount(self.amount),
            unit: view_opt_string(self.unit),
        }
    }
}

/// Read one ingredient mention's sub-tokens.
#[verifier::loop_isolation(false)]
fn fold_tokens_exec(tokens: &Vec<IngredientToken>) -> (r: Result<Mention, CookError>)
    ensures
        match r {
            Ok(m) => fold_tokens_from(
                init_mention(),
                tokens@.map_values(|t: IngredientToken| t@),
                0,
            ) == Ok::<MentionState, CookErrorModel>(m@),
            Err(e) => fold_tokens_from(
                init_mention(),
                tokens@.map_values(|t: IngredientToken| t@),
                0,
            ) == Err::<MentionState, CookErrorModel>(e@),
        },
{
    let ghost ts = tokens@.map_values(|t: IngredientToken| t@);
    let mut has_piece: bool = false;
    let mut name: String = String::new();
    let mut amount: Option<Amount> = None;
    let mut unit: Option<String> = None;
    let mut ti: usize = 0;
    while ti < tokens.len()
        invariant
            0 <= ti <= tokens@.len(),
            !has_piece ==> name@ == Seq::<char>::empty(),
            fold_tokens_from(init_mention(), ts, 0) == fold_tokens_from(
                MentionState {
                    has_piece: has_piece,
                    name: name@,
                    amount: view_opt_amount(amount),
                    unit: view_opt_string(unit),
                },
                ts,
                ti as int,
            ),
        decreases tokens@.len() - ti,
    {
        let ghost cur = MentionState {
            has_piece: has_piece,
            name: name@,
            amount: view_opt_amount(amount),
            unit: view_opt_string(unit),
        };
        proof {
            assert(ts[ti as int] == tokens@[ti as int]@);
        }
        match &tokens[ti] {
            IngredientToken::Name(p) => {
                if has_piece {
                    name.append(" ");
                } else {
                    proof {
                        assert(name@ + p@ =~= p@);
                    }
                }
                name.append(p.as_str());
                has_piece = true;
                proof {
                    assert(name@ == mention_piece(cur, p@).name);
                }
            },
            IngredientToken::Text(p) => {
                if has_piece {
                    name.append(" ");
                } else {
                    proof {
                        assert(name@ + p@ =~= p@);
                    }
                }
                name.append(p.as_str());
                has_piece = true;
                proof {
                    assert(name@ == mention_piece(cur, p@).name);
                }
            },
            IngredientToken::Number(tok) => {
                match parse_u64(tok.as_str()) {
                    None => {
                        return Err(CookError::NumericParse(tok.clone()));
                    },
                    Some(n) => {
                        let a = amount;
                        match apply_next_number(a, n) {
                            Ok(x) => {
                                amount = Some(x);
                            },
                            Err(e) => {
                                return Err(e);
                            },
                        }
                    },
                }
            },
            IngredientToken::Separator => {
                let a = amount;
                match a {
                    None => {
                        return Err(CookError::AmountAlgebra);
                    },
                    Some(x) => match x.extend_with_separator() {
                        Ok(y) => {
                            amount = Some(y);
                        },
                        Err(e) => {
                            return Err(e);
                        },
                    },
                }
            },
            IngredientToken::Modified(_) => {},
            IngredientToken::Unit(u) => {
                unit = Some(u.clone());
            },
            IngredientToken::Scaling => {
                let a = amount;
                match a {
                    None => {
                        return Err(CookError::AmountAlgebra);
                    },
                    Some(x) => match x.promote_to_scalable() {
                        Ok(y) => {
                            amount = Some(y);
                        },
                        Err(e) => {
                            return Err(e);
                        },
                    },
                }
            },
        }
        ti += 1;
    }
    Ok(Mention { has_piece, name, amount, unit })
}

/// Record one resolved ingredient mention into the document.
#[verifier::loop_isolation(false)]
fn apply_mention_exec(meta: &mut Metadata, instruction: &mut String, m: Mention) -> (r: Result<
    (),
    CookError,
>)
    requires
        meta_wf(old(meta)@),
    ensures
        match r {
            Ok(_) => {
                &&& apply_mention(
                    DocState { meta: old(meta)@, instruction: old(instruction)@ },
                    m@,
                ) == Ok::<DocState, CookErrorModel>(
                    DocState { meta: final(meta)@, instruction: final(instruction)@ },
                )
                &&& meta_wf(final(meta)@)
            },
            Err(e) => apply_mention(
                DocState { meta: old(meta)@, instruction: old(instruction)@ },
                m@,
            ) == Err::<DocState, CookErrorModel>(e@),
        },
{
    let ghost st0 = DocState { meta: meta@, instruction: instruction@ };
    let ghost ms = m@;
    let amt_in_step = match &m.amount {
        None => Amount::Single(Qty::from_count(0)),
        Some(a) => clone_amount(a),
    };
    meta.ingredients_specifiers.push(
        IngredientSpecifier { ingredient: m.name.clone(), amount_in_step: amt_in_step },
    );
    instruction.append("@");
    proof {
        assert(meta@.ingredients_specifiers =~= st0.meta.ingredients_specifiers.push(
            SpecifierModel {
                ingredient: ms.name,
                amount_in_step: match ms.amount {
                    None => AmountModel::Single(Qty::spec_from_count(0)),
                    Some(a) => a,
                },
            },
        ));
        lemma_ing_views_keys(entries(meta.ingredients), ms.name);
    }
    if imap_contains_key(&meta.ingredients, &m.name) {
        let ghost raw0 = entries(meta.ingredients);
        proof {
            lemma_pair_key_index(raw0, ms.name);
            lemma_pair_key_index(st0.meta.ingredients, ms.name);
            assert(st0.meta.ingredients =~= ing_views(raw0));
            assert forall|i: int| 0 <= i < raw0.len() implies #[trigger] raw0[i].0 == ing_views(
                raw0,
            )[i].0 by {}
            assert(pair_keys_unique(raw0));
        }
        let ghost idx = pair_key_index(raw0, ms.name);
        match imap_get(&meta.ingredients, &m.name) {
            None => unreached(),
            Some(ex) => {
                proof {
                    let w = choose|i: int|
                        0 <= i < raw0.len() && raw0[i].0 == ms.name && raw0[i].1 == *ex;
                    if w < idx {
                        assert(false);
                    }
                    if idx < w {
                        assert(raw0[idx].0 != raw0[w].0);
                        assert(false);
                    }
                    assert(w == idx);
                }
                let new_amount: Option<Amount> = match &m.amount {
                    None => clone_opt_amount(&ex.amount),
                    Some(a) => match &ex.amount {
                        None => {
                            return Err(CookError::AmountAlgebra);
                        },
                        Some(ea) => match clone_amount(ea).add(clone_amount(a)) {
                            Ok(s) => Some(s),
                            Err(e) => {
                                return Err(e);
                            },
                        },
                    },
                };
                if !opt_unit_eq(&ex.unit, &m.unit) {
                    return Err(CookError::UnitMismatch(m.name));
                }
                let new_ing = Ingredient {
                    name: ex.name.clone(),
                    id: ex.id,
                    amount: new_amount,
                    unit: clone_opt_string(&m.unit),
                };
                imap_insert(&mut meta.ingredients, m.name, new_ing);
                proof {
                    let raw1 = entries(meta.ingredients);
                    let w2 = choose|i: int|
                        0 <= i < raw0.len() && raw0[i].0 == ms.name && raw1 == raw0.update(
                            i,
                            (ms.name, new_ing),
                        );
                    if w2 < idx {
                        assert(false);
                    }
                    if idx < w2 {
                        assert(raw0[idx].0 != raw0[w2].0);
                        assert(false);
                    }
                    assert(w2 == idx);
                    assert(meta@.ingredients =~= st0.meta.ingredients.update(
                        idx,
                        (ms.name, new_ing@),
                    ));
                    assert(meta_wf(meta@));
                }
                Ok(())
            },
        }
    } else {
        let n = imap_len(&meta.ingredients);
        let id = n as u64;
        let ghost raw0 = entries(meta.ingredients);
        let new_ing = Ingredient {
            name: m.name.clone(),
            id,
            amount: m.amount,
            unit: m.unit,
        };
        imap_insert(&mut meta.ingredients, m.name, new_ing);
        proof {
            assert(meta@.ingredients =~= st0.meta.ingredients.push((ms.name, new_ing@)));
            assert(meta_wf(meta@)) by {
                assert(forall|i: int|
                    0 <= i < st0.meta.ingredients.len() ==> st0.meta.ingredients[i].0
                        != ms.name);
            }
        }
        Ok(())
    }
}

/// Record one step span into the document.
#[verifier::loop_isolation(false)]
fn apply_item_exec(meta: &mut Metadata, instruction: &mut String, it: &StepItem) -> (r: Result<
    (),
    CookError,
>)
    requires
        meta_wf(old(meta)@),
    ensures
        match r {
            Ok(_) => {
                &&& apply_item(
                    DocState { meta: old(meta)@, instruction: old(instruction)@ },
                    it@,
                ) == Ok::<DocState, CookErrorModel>(
                    DocState { meta: final(meta)@, instruction: final(instruction)@ },
                )
                &&& meta_wf(final(meta)@)
            },
            Err(e) => apply_item(
                DocState { meta: old(meta)@, instruction: old(instruction)@ },
                it@,
            ) == Err::<DocState, CookErrorModel>(e@),
        },
{
    let ghost st0 = DocState { meta: meta@, instruction: instruction@ };
    match it {
        StepItem::Text(t) => {
            instruction.append(t.as_str());
            Ok(())
        },
        StepItem::Comment(_) => Ok(()),
        StepItem::Cookware(names) => {
            let joined = space_join(names);
            meta.cookware.push(joined);
            instruction.append("#");
            proof {
                assert(meta@.cookware =~= st0.meta.cookware.push(
                    spec_space_join(names@.map_values(|n: String| n@)),
                ));
            }
            Ok(())
        },
        StepItem::Timer { number, unit } => {
            let n: u64 = match number {
                None => 0,
                Some(tok) => match parse_u64(tok.as_str()) {
                    None => {
                        return Err(CookError::NumericParse(tok.clone()));
                    },
                    Some(v) => v,
                },
            };
            let unit_text = match unit {
                None => String::new(),
                Some(u) => u.clone(),
            };
            meta.timer.push(Timer { amount: n, unit: unit_text });
            instruction.append("~");
            proof {
                assert(meta@.timer =~= st0.meta.timer.push(
                    TimerModel {
                        amount: n,
                        unit: match view_opt_string(*unit) {
                            None => Seq::empty(),
                            Some(u) => u,
                        },
                    },
                ));
            }
            Ok(())
        },
        StepItem::Ingredient(tokens) => {
            match fold_tokens_exec(tokens) {
                Ok(m) => apply_mention_exec(meta, instruction, m),
                Err(e) => Err(e),
            }
        },
    }
}

/// Record one document node into the document.
#[verifier::loop_isolation(false)]
fn apply_block_exec(meta: &mut Metadata, instruction: &mut String, b: &Block) -> (r: Result<
    (),
    CookError,
>)
    requires
        meta_wf(old(meta)@),
    ensures
        match r {
            Ok(_) => {
                &&& apply_block(
                    DocState { meta: old(meta)@, instruction: old(instruction)@ },
                    b@,
                ) == Ok::<DocState, CookErrorModel>(
                    DocState { meta: final(meta)@, instruction: final(instruction)@ },
                )
                &&& meta_wf(final(meta)@)
            },
            Err(e) => apply_block(
                DocState { meta: old(meta)@, instruction: old(instruction)@ },
                b@,
            ) == Err::<DocState, CookErrorModel>(e@),
        },
{
    let ghost st0 = DocState { meta: meta@, instruction: instruction@ };
    match b {
        Block::Text(t) => {
            instruction.append(t.as_str());
            Ok(())
        },
        Block::Comment(_) => Ok(()),
        Block::MetadataLine { key, value, text } => {
            instruction.append(text.as_str());
            let servings_key = String::from_str("servings");
            if key.eq(&servings_key) {
                let parts = split_on_pipe(value.as_str());
                let ghost pv = parts@.map_values(|t: String| t@);
                let mut list: Vec<u64> = Vec::new();
                let mut pi: usize = 0;
                while pi < parts.len()
                    invariant
                        0 <= pi <= parts@.len(),
                        parse_servings_from(pv, 0, Seq::empty()) == parse_servings_from(
                            pv,
                            pi as int,
                            list@,
                        ),
                    decreases parts@.len() - pi,
                {
                    proof {
                        assert(pv[pi as int] == parts@[pi as int]@);
                    }
                    match parse_u64(parts[pi].as_str()) {
                        None => {
                            return Err(CookError::NumericParse(parts[pi].clone()));
                        },
                        Some(v) => {
                            list.push(v);
                        },
                    }
                    pi += 1;
                }
                meta.servings = Some(list);
                Ok(())
            } else {
                meta.add_key_value(key.clone(), value.clone());
                Ok(())
            }
        },
        Block::Step(items) => {
            let ghost iv = items@.map_values(|x: StepItem| x@);
            let mut ii: usize = 0;
            while ii < items.len()
                invariant
                    0 <= ii <= items@.len(),
                    meta_wf(meta@),
                    fold_items_from(st0, iv, 0) == fold_items_from(
                        DocState { meta: meta@, instruction: instruction@ },
                        iv,
                        ii as int,
                    ),
                decreases items@.len() - ii,
            {
                proof {
                    assert(iv[ii as int] == items@[ii as int]@);
                }
                match apply_item_exec(meta, instruction, &items[ii]) {
                    Ok(_) => {},
                    Err(e) => {
                        return Err(e);
                    },
                }
                ii += 1;
            }
            Ok(())
        },
    }
}

/// Reduce a tokenized document to a recipe.
///
/// On success the returned recipe is exactly what the functional model
/// [`reduce_doc`] yields for the given nodes, with the source kept
/// verbatim; the reduction fails exactly where the model fails, with the
/// same error, and then no recipe is produced.
#[verifier::loop_isolation(false)]
pub fn parse(source: String, blocks: Vec<Block>) -> (r: Result<Recipe, CookError>)
    ensures
        match r {
            Ok(rec) => {
                &&& reduce_doc(blocks_view(blocks@)) == Ok::<DocState, CookErrorModel>(
                    DocState { meta: rec.metadata@, instruction: rec.instruction@ },
                )
                &&& meta_wf(rec.metadata@)
                &&& rec.source@ == source@
            },
            Err(e) => reduce_doc(blocks_view(blocks@)) == Err::<DocState, CookErrorModel>(e@),
        },
{
    let ghost bv = blocks_view(blocks@);
    let mut meta = Metadata {
        servings: None,
        ominous: StrMap::new(),
        ingredients: imap_new(),
        ingredients_specifiers: Vec::new(),
        cookware: Vec::new(),
        timer: Vec::new(),
    };
    let mut instruction = String::new();
    proof {
        assert(meta@.ingredients =~= init_doc().meta.ingredients);
        assert(meta@.ingredients_specifiers =~= init_doc().meta.ingredients_specifiers);
        assert(meta@.cookware =~= init_doc().meta.cookware);
        assert(meta@.timer =~= init_doc().meta.timer);
        assert(DocState { meta: meta@, instruction: instruction@ } == init_doc());
    }
    let mut bi: usize = 0;
    while bi < blocks.len()
        invariant
            0 <= bi <= blocks@.len(),
            meta_wf(meta@),
            reduce_doc(bv) == fold_blocks_from(
                DocState { meta: meta@, instruction: instruction@ },
                bv,
                bi as int,
            ),
        decreases blocks@.len() - bi,
    {
        proof {
            assert(bv[bi as int] == blocks@[bi as int]@);
        }
        match apply_block_exec(&mut meta, &mut instruction, &blocks[bi]) {
            Ok(_) => {},
            Err(e) => {
                return Err(e);
            },
        }
        bi += 1;
    }
    Ok(Recipe { source, metadata: meta, instruction })
}

} // verus!

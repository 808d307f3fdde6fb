//! Cross-cutting guarantees of the reduction, proved once over the
//! functional model: the instruction text is exactly the ordered rewrite of
//! the document's nodes, the positional tables align with the marker
//! counts, and repeated mentions merge or fail exactly as the algebra says.

use vstd::prelude::*;

use crate::amount::{amount_sum, AmountModel};
use crate::error::CookErrorModel;
use crate::model::{has_pair_key, pair_key_index, pair_keys_unique, lemma_pair_key_index};
use crate::reduce::{
    apply_block, apply_item, apply_mention, fold_blocks_from, fold_items_from, init_doc,
    reduce_doc, DocState, MentionState,
};
use crate::text::spec_parse_u64;
use crate::tree::{BlockModel, StepItemModel};

verus! {

/// How often a character occurs.
pub open spec fn count_char(s: Seq<char>, c: char) -> nat
    decreases s.len(),
{
    if s.len() == 0 {
        0
    } else {
        count_char(s.drop_last(), c) + if s.last() == c {
            1nat
        } else {
            0nat
        }
    }
}

/// Counting distributes over concatenation.
pub proof fn lemma_count_concat(a: Seq<char>, b: Seq<char>, c: char)
    ensures
        count_char(a + b, c) == count_char(a, c) + count_char(b, c),
    decreases b.len(),
{
    if b.len() == 0 {
        assert(a + b =~= a);
    } else {
        lemma_count_concat(a, b.drop_last(), c);
        assert((a + b).drop_last() =~= a + b.drop_last());
    }
}

/// Free of the three marker characters.
pub open spec fn marker_free(s: Seq<char>) -> bool {
    count_char(s, '@') == 0 && count_char(s, '#') == 0 && count_char(s, '~') == 0
}

/// Whatever a step span leaves in the instruction carries no marker unless
/// it is a mention's own marker.
pub open spec fn item_marker_free(it: StepItemModel) -> bool {
    match it {
        StepItemModel::Text(t) => marker_free(t),
        _ => true,
    }
}

/// The same, for a whole document node.
pub open spec fn block_marker_free(b: BlockModel) -> bool {
    match b {
        BlockModel::Text(t) => marker_free(t),
        BlockModel::MetadataLine { text, .. } => marker_free(text),
        BlockModel::Comment(_) => true,
        BlockModel::Step(items) => forall|j: int|
            0 <= j < items.len() ==> item_marker_free(items[j]),
    }
}

/// The same, for the whole document.
pub open spec fn blocks_marker_free(blocks: Seq<BlockModel>) -> bool {
    forall|j: int| 0 <= j < blocks.len() ==> block_marker_free(blocks[j])
}

/// What one step span leaves in the instruction text: its text verbatim,
/// its marker, or nothing for a comment.
pub open spec fn item_instr(it: StepItemModel) -> Seq<char> {
    match it {
        StepItemModel::Text(t) => t,
        StepItemModel::Ingredient(_) => "@"@,
        StepItemModel::Cookware(_) => "#"@,
        StepItemModel::Timer { .. } => "~"@,
        StepItemModel::Comment(_) => Seq::empty(),
    }
}

/// What a step's spans leave in the instruction text, from span `i` on.
pub open spec fn items_instr_from(items: Seq<StepItemModel>, i: int) -> Seq<char>
    decreases items.len() - i,
{
    if 0 <= i < items.len() {
        item_instr(items[i]) + items_instr_from(items, i + 1)
    } else {
        Seq::empty()
    }
}

/// What one document node leaves in the instruction text.
pub open spec fn block_instr(b: BlockModel) -> Seq<char> {
    match b {
        BlockModel::Text(t) => t,
        BlockModel::MetadataLine { text, .. } => text,
        BlockModel::Comment(_) => Seq::empty(),
        BlockModel::Step(items) => items_instr_from(items, 0),
    }
}

/// What the document's nodes leave in the instruction text, from node `i`
/// on.
pub open spec fn blocks_instr_from(blocks: Seq<BlockModel>, i: int) -> Seq<char>
    decreases blocks.len() - i,
{
    if 0 <= i < blocks.len() {
        block_instr(blocks[i]) + blocks_instr_from(blocks, i + 1)
    } else {
        Seq::empty()
    }
}

/// How many ingredient, cookware and timer mentions a step's spans hold,
/// from span `i` on.
pub open spec fn items_nums_from(items: Seq<StepItemModel>, i: int) -> (nat, nat, nat)
    decreases items.len() - i,
{
    if 0 <= i < items.len() {
        let rest = items_nums_from(items, i + 1);
        match items[i] {
            StepItemModel::Ingredient(_) => (rest.0 + 1, rest.1, rest.2),
            StepItemModel::Cookware(_) => (rest.0, rest.1 + 1, rest.2),
            StepItemModel::Timer { .. } => (rest.0, rest.1, rest.2 + 1),
            _ => rest,
        }
    } else {
        (0, 0, 0)
    }
}

/// The same, over the document's nodes.
pub open spec fn blocks_nums_from(blocks: Seq<BlockModel>, i: int) -> (nat, nat, nat)
    decreases blocks.len() - i,
{
    if 0 <= i < blocks.len() {
        let rest = blocks_nums_from(blocks, i + 1);
        match blocks[i] {
            BlockModel::Step(items) => {
                let own = items_nums_from(items, 0);
                (own.0 + rest.0, own.1 + rest.1, own.2 + rest.2)
            },
            _ => rest,
        }
    } else {
        (0, 0, 0)
    }
}

/// A successful fold of a step's spans appends exactly the spans' rewrite
/// to the instruction and exactly one table entry per mention, and never
/// touches the servings declaration.
proof fn lemma_items_shape(st: DocState, items: Seq<StepItemModel>, i: int)
    requires
        fold_items_from(st, items, i) is Ok,
    ensures
        ({
            let fin = fold_items_from(st, items, i)->Ok_0;
            &&& fin.meta.servings == st.meta.servings
            &&& fin.instruction == st.instruction + items_instr_from(items, i)
            &&& fin.meta.ingredients_specifiers.len()
                == st.meta.ingredients_specifiers.len() + items_nums_from(items, i).0
            &&& fin.meta.cookware.len() == st.meta.cookware.len() + items_nums_from(items, i).1
            &&& fin.meta.timer.len() == st.meta.timer.len() + items_nums_from(items, i).2
        }),
    decreases items.len() - i,
{
    if 0 <= i < items.len() {
        let n = apply_item(st, items[i])->Ok_0;
        lemma_items_shape(n, items, i + 1);
        assert(n.instruction == st.instruction + item_instr(items[i])) by {
            if items[i] is Comment {
                assert(st.instruction + Seq::<char>::empty() =~= st.instruction);
            }
        }
        assert(st.instruction + item_instr(items[i]) + items_instr_from(items, i + 1)
            =~= st.instruction + items_instr_from(items, i));
    } else {
        assert(st.instruction + items_instr_from(items, i) =~= st.instruction);
    }
}

/// The same, over the document's nodes.
proof fn lemma_blocks_shape(st: DocState, blocks: Seq<BlockModel>, i: int)
    requires
        fold_blocks_from(st, blocks, i) is Ok,
    ensures
        ({
            let fin = fold_blocks_from(st, blocks, i)->Ok_0;
            &&& fin.instruction == st.instruction + blocks_instr_from(blocks, i)
            &&& fin.meta.ingredients_specifiers.len()
                == st.meta.ingredients_specifiers.len() + blocks_nums_from(blocks, i).0
            &&& fin.meta.cookware.len() == st.meta.cookware.len() + blocks_nums_from(blocks, i).1
            &&& fin.meta.timer.len() == st.meta.timer.len() + blocks_nums_from(blocks, i).2
        }),
    decreases blocks.len() - i,
{
    if 0 <= i < blocks.len() {
        let n = apply_block(st, blocks[i])->Ok_0;
        lemma_blocks_shape(n, blocks, i + 1);
        assert(n.instruction == st.instruction + block_instr(blocks[i])) by {
            match blocks[i] {
                BlockModel::Comment(_) => {
                    assert(st.instruction + Seq::<char>::empty() =~= st.instruction);
                },
                BlockModel::Step(items) => {
                    lemma_items_shape(st, items, 0);
                },
                _ => {},
            }
        }
        assert(n.meta.ingredients_specifiers.len() == st.meta.ingredients_specifiers.len()
            + blocks_nums_from(blocks, i).0 - blocks_nums_from(blocks, i + 1).0) by {
            if blocks[i] is Step {
                lemma_items_shape(st, blocks[i]->Step_0, 0);
            }
        }
        assert(n.meta.cookware.len() == st.meta.cookware.len() + blocks_nums_from(blocks, i).1
            - blocks_nums_from(blocks, i + 1).1) by {
            if blocks[i] is Step {
                lemma_items_shape(st, blocks[i]->Step_0, 0);
            }
        }
        assert(n.meta.timer.len() == st.meta.timer.len() + blocks_nums_from(blocks, i).2
            - blocks_nums_from(blocks, i + 1).2) by {
            if blocks[i] is Step {
                lemma_items_shape(st, blocks[i]->Step_0, 0);
            }
        }
        assert(st.instruction + block_instr(blocks[i]) + blocks_instr_from(blocks, i + 1)
            =~= st.instruction + blocks_instr_from(blocks, i));
    } else {
        assert(st.instruction + blocks_instr_from(blocks, i) =~= st.instruction);
    }
}

/// How often each marker occurs in each marker string and in nothing.
proof fn lemma_marker_counts()
    ensures
        count_char("@"@, '@') == 1,
        count_char("@"@, '#') == 0,
        count_char("@"@, '~') == 0,
        count_char("#"@, '#') == 1,
        count_char("#"@, '@') == 0,
        count_char("#"@, '~') == 0,
        count_char("~"@, '~') == 1,
        count_char("~"@, '@') == 0,
        count_char("~"@, '#') == 0,
        count_char(Seq::<char>::empty(), '@') == 0,
        count_char(Seq::<char>::empty(), '#') == 0,
        count_char(Seq::<char>::empty(), '~') == 0,
{
    reveal_strlit("@");
    reveal_strlit("#");
    reveal_strlit("~");
    assert(count_char(Seq::<char>::empty(), '@') == 0);
    assert(count_char(Seq::<char>::empty(), '#') == 0);
    assert(count_char(Seq::<char>::empty(), '~') == 0);
    assert("@"@.drop_last() =~= Seq::<char>::empty());
    assert("#"@.drop_last() =~= Seq::<char>::empty());
    assert("~"@.drop_last() =~= Seq::<char>::empty());
    assert("@"@.last() == '@');
    assert("#"@.last() == '#');
    assert("~"@.last() == '~');
}

/// In a marker-free step, the rewrite holds one marker character per
/// mention and no other.
proof fn lemma_items_counts(items: Seq<StepItemModel>, i: int)
    requires
        forall|j: int| 0 <= j < items.len() ==> item_marker_free(items[j]),
    ensures
        count_char(items_instr_from(items, i), '@') == items_nums_from(items, i).0,
        count_char(items_instr_from(items, i), '#') == items_nums_from(items, i).1,
        count_char(items_instr_from(items, i), '~') == items_nums_from(items, i).2,
    decreases items.len() - i,
{
    lemma_marker_counts();
    if 0 <= i < items.len() {
        assert(item_marker_free(items[i]));
        lemma_items_counts(items, i + 1);
        lemma_count_concat(item_instr(items[i]), items_instr_from(items, i + 1), '@');
        lemma_count_concat(item_instr(items[i]), items_instr_from(items, i + 1), '#');
        lemma_count_concat(item_instr(items[i]), items_instr_from(items, i + 1), '~');
    }
}

/// The same, over the document's nodes.
proof fn lemma_blocks_counts(blocks: Seq<BlockModel>, i: int)
    requires
        blocks_marker_free(blocks),
    ensures
        count_char(blocks_instr_from(blocks, i), '@') == blocks_nums_from(blocks, i).0,
        count_char(blocks_instr_from(blocks, i), '#') == blocks_nums_from(blocks, i).1,
        count_char(blocks_instr_from(blocks, i), '~') == blocks_nums_from(blocks, i).2,
    decreases blocks.len() - i,
{
    if 0 <= i < blocks.len() {
        lemma_blocks_counts(blocks, i + 1);
        lemma_count_concat(block_instr(blocks[i]), blocks_instr_from(blocks, i + 1), '@');
        lemma_count_concat(block_instr(blocks[i]), blocks_instr_from(blocks, i + 1), '#');
        lemma_count_concat(block_instr(blocks[i]), blocks_instr_from(blocks, i + 1), '~');
        if blocks[i] is Step {
            lemma_items_counts(blocks[i]->Step_0, 0);
        }
    }
}

/// The instruction text of a successful reduction is the ordered rewrite of
/// the document's nodes: plain text and metadata lines verbatim, one marker
/// character per ingredient, cookware or timer mention, nothing for a
/// comment span.
pub proof fn lemma_instruction_is_rewrite(blocks: Seq<BlockModel>)
    requires
        reduce_doc(blocks) is Ok,
    ensures
        (reduce_doc(blocks)->Ok_0).instruction == blocks_instr_from(blocks, 0),
{
    lemma_blocks_shape(init_doc(), blocks, 0);
    assert(Seq::<char>::empty() + blocks_instr_from(blocks, 0) =~= blocks_instr_from(blocks, 0));
}

/// Wherever the document's own text carries no marker character, each
/// positional table of a successful reduction is exactly as long as its
/// marker count in the instruction text: the tables zip with the markers.
pub proof fn lemma_marker_alignment(blocks: Seq<BlockModel>)
    requires
        reduce_doc(blocks) is Ok,
        blocks_marker_free(blocks),
    ensures
        ({
            let fin = reduce_doc(blocks)->Ok_0;
            &&& count_char(fin.instruction, '@') == fin.meta.ingredients_specifiers.len()
            &&& count_char(fin.instruction, '#') == fin.meta.cookware.len()
            &&& count_char(fin.instruction, '~') == fin.meta.timer.len()
        }),
{
    lemma_blocks_shape(init_doc(), blocks, 0);
    lemma_blocks_counts(blocks, 0);
    lemma_instruction_is_rewrite(blocks);
}

/// A repeated mention of one ingredient with an agreeing unit and an
/// addable amount merges into the existing entry: the table keeps its
/// length and the entry's amount becomes the variant-wise sum.
pub proof fn lemma_mention_merges(st: DocState, ms: MentionState)
    requires
        has_pair_key(st.meta.ingredients, ms.name),
        ms.amount is Some,
        st.meta.ingredients[pair_key_index(st.meta.ingredients, ms.name)].1.amount is Some,
        amount_sum(
            st.meta.ingredients[pair_key_index(st.meta.ingredients, ms.name)].1.amount->Some_0,
            ms.amount->Some_0,
        ) is Ok,
        st.meta.ingredients[pair_key_index(st.meta.ingredients, ms.name)].1.unit == ms.unit,
    ensures
        apply_mention(st, ms) is Ok,
        ({
            let fin = apply_mention(st, ms)->Ok_0;
            let i = pair_key_index(st.meta.ingredients, ms.name);
            &&& fin.meta.ingredients.len() == st.meta.ingredients.len()
            &&& fin.meta.ingredients[i].0 == ms.name
            &&& fin.meta.ingredients[i].1.amount == Some(
                amount_sum(
                    st.meta.ingredients[i].1.amount->Some_0,
                    ms.amount->Some_0,
                )->Ok_0,
            )
        }),
{
    lemma_pair_key_index(st.meta.ingredients, ms.name);
}

/// Merging two mentions whose amounts carry different variant tags always
/// fails with the algebra error, never coercing one into the other.
pub proof fn lemma_merge_variant_mismatch(st: DocState, ms: MentionState)
    requires
        has_pair_key(st.meta.ingredients, ms.name),
        ms.amount is Some,
        st.meta.ingredients[pair_key_index(st.meta.ingredients, ms.name)].1.amount is Some,
        !crate::amount::same_variant(
            st.meta.ingredients[pair_key_index(st.meta.ingredients, ms.name)].1.amount->Some_0,
            ms.amount->Some_0,
        ),
    ensures
        apply_mention(st, ms) == Err::<DocState, CookErrorModel>(CookErrorModel::AmountAlgebra),
{
    lemma_pair_key_index(st.meta.ingredients, ms.name);
    crate::amount::lemma_sum_variant_mismatch(
        st.meta.ingredients[pair_key_index(st.meta.ingredients, ms.name)].1.amount->Some_0,
        ms.amount->Some_0,
    );
}

/// Recording a mention never makes two entries share a key: a merge keeps
/// the key set, a fresh entry brings an absent key.
proof fn lemma_mention_keeps_keys_unique(st: DocState, ms: MentionState)
    requires
        pair_keys_unique(st.meta.ingredients),
        apply_mention(st, ms) is Ok,
    ensures
        pair_keys_unique((apply_mention(st, ms)->Ok_0).meta.ingredients),
{
    let s0 = st.meta.ingredients;
    let s1 = (apply_mention(st, ms)->Ok_0).meta.ingredients;
    if has_pair_key(s0, ms.name) {
        lemma_pair_key_index(s0, ms.name);
        assert forall|i: int, j: int| 0 <= i < j < s1.len() implies s1[i].0 != s1[j].0 by {
            assert(s0[i].0 != s0[j].0);
        }
    } else {
        assert forall|i: int, j: int| 0 <= i < j < s1.len() implies s1[i].0 != s1[j].0 by {
            if j == s1.len() - 1 {
                assert(s0[i].0 != ms.name);
            } else {
                assert(s0[i].0 != s0[j].0);
            }
        }
    }
}

/// The same, for any step span.
proof fn lemma_item_keeps_keys_unique(st: DocState, it: StepItemModel)
    requires
        pair_keys_unique(st.meta.ingredients),
        apply_item(st, it) is Ok,
    ensures
        pair_keys_unique((apply_item(st, it)->Ok_0).meta.ingredients),
{
    match it {
        StepItemModel::Ingredient(ts) => {
            let ms = crate::reduce::fold_tokens_from(
                crate::reduce::init_mention(),
                ts,
                0,
            )->Ok_0;
            lemma_mention_keeps_keys_unique(st, ms);
        },
        _ => {},
    }
}

/// The same, over the rest of a step's spans.
proof fn lemma_items_keep_keys_unique(st: DocState, items: Seq<StepItemModel>, i: int)
    requires
        pair_keys_unique(st.meta.ingredients),
        fold_items_from(st, items, i) is Ok,
    ensures
        pair_keys_unique((fold_items_from(st, items, i)->Ok_0).meta.ingredients),
    decreases items.len() - i,
{
    if 0 <= i < items.len() {
        lemma_item_keeps_keys_unique(st, items[i]);
        lemma_items_keep_keys_unique(apply_item(st, items[i])->Ok_0, items, i + 1);
    }
}

/// The same, over the rest of the document's nodes.
proof fn lemma_blocks_keep_keys_unique(st: DocState, blocks: Seq<BlockModel>, i: int)
    requires
        pair_keys_unique(st.meta.ingredients),
        fold_blocks_from(st, blocks, i) is Ok,
    ensures
        pair_keys_unique((fold_blocks_from(st, blocks, i)->Ok_0).meta.ingredients),
    decreases blocks.len() - i,
{
    if 0 <= i < blocks.len() {
        if blocks[i] is Step {
            lemma_items_keep_keys_unique(st, blocks[i]->Step_0, 0);
        }
        lemma_blocks_keep_keys_unique(apply_block(st, blocks[i])->Ok_0, blocks, i + 1);
    }
}

/// The ingredient table of a successful reduction is keyed uniquely: the
/// first mention of a name creates its entry, every later one merges into
/// it.
pub proof fn lemma_ingredient_keys_unique(blocks: Seq<BlockModel>)
    requires
        reduce_doc(blocks) is Ok,
    ensures
        pair_keys_unique((reduce_doc(blocks)->Ok_0).meta.ingredients),
{
    lemma_blocks_keep_keys_unique(init_doc(), blocks, 0);
}

/// Reading serving brackets yields one value per piece.
proof fn lemma_parse_servings_len(parts: Seq<Seq<char>>, i: int, acc: Seq<u64>)
    requires
        crate::reduce::parse_servings_from(parts, i, acc) is Ok,
        0 <= i <= parts.len(),
    ensures
        (crate::reduce::parse_servings_from(parts, i, acc)->Ok_0).len() == acc.len()
            + parts.len() - i,
    decreases parts.len() - i,
{
    if i < parts.len() {
        lemma_parse_servings_len(parts, i + 1, acc.push(spec_parse_u64(parts[i])->Some_0));
    }
}

/// A declared servings list holds at least one value, carried through the
/// rest of the fold.
proof fn lemma_servings_nonempty_from(st: DocState, blocks: Seq<BlockModel>, i: int)
    requires
        fold_blocks_from(st, blocks, i) is Ok,
        match st.meta.servings {
            None => true,
            Some(l) => l.len() >= 1,
        },
    ensures
        ({
            let fin = fold_blocks_from(st, blocks, i)->Ok_0;
            match fin.meta.servings {
                None => true,
                Some(l) => l.len() >= 1,
            }
        }),
    decreases blocks.len() - i,
{
    if 0 <= i < blocks.len() {
        let n = apply_block(st, blocks[i])->Ok_0;
        match blocks[i] {
            BlockModel::MetadataLine { key, value, .. } => {
                if key == "servings"@ {
                    crate::text::lemma_split_pipe_len(value);
                    lemma_parse_servings_len(
                        crate::text::spec_split_pipe(value),
                        0,
                        Seq::empty(),
                    );
                }
            },
            BlockModel::Step(items) => {
                lemma_items_shape(st, items, 0);
            },
            _ => {},
        }
        lemma_servings_nonempty_from(n, blocks, i + 1);
    }
}

/// The servings declaration of a successful reduction, where the document
/// holds one, is an ordered list of at least one value.
pub proof fn lemma_servings_nonempty(blocks: Seq<BlockModel>)
    requires
        reduce_doc(blocks) is Ok,
    ensures
        match (reduce_doc(blocks)->Ok_0).meta.servings {
            None => true,
            Some(l) => l.len() >= 1,
        },
{
    lemma_servings_nonempty_from(init_doc(), blocks, 0);
}

/// Merging two mentions that declare different units always fails with the
/// unit-mismatch error carrying the ingredient's name.
pub proof fn lemma_merge_unit_mismatch(st: DocState, ms: MentionState)
    requires
        has_pair_key(st.meta.ingredients, ms.name),
        st.meta.ingredients[pair_key_index(st.meta.ingredients, ms.name)].1.unit != ms.unit,
        ({
            let ex = st.meta.ingredients[pair_key_index(st.meta.ingredients, ms.name)].1;
            match ms.amount {
                None => true,
                Some(a) => ex.amount is Some && amount_sum(ex.amount->Some_0, a) is Ok,
            }
        }),
    ensures
        apply_mention(st, ms) == Err::<DocState, CookErrorModel>(
            CookErrorModel::UnitMismatch(ms.name),
        ),
{
    lemma_pair_key_index(st.meta.ingredients, ms.name);
}

} // verus!

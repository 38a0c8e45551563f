//! The text blocks of a context pack: the requested parts, each cut to what is left of a
//! byte budget.
use vstd::prelude::*;
use vstd::string::*;

use crate::shared::{BlockView, ContextBlock, blocks_view, zero_range};
use crate::text::{TextBudget, budget_spend, budget_remaining, capped_bytes, string_bytes, truncate_text};

verus! {

/// A part a context pack may hold.
#[derive(Debug, Clone, Copy, PartialEq, Eq, Structural)]
pub enum ContextPackPart {
    Imports,
    Exports,
    EnclosingScope,
    EnclosingNode,
    TopLevelOutline,
    NearbyFunctions,
    NearbyClasses,
}

/// The block a serialized part `text` gives under `label` with budget `b`: none when the
/// budget is used up or the text is empty; else the text cut to what is left.
pub open spec fn part_block(b: TextBudget, label: Seq<char>, path: Seq<char>, text: Seq<char>) -> Option<BlockView> {
    if budget_remaining(b) > 0 && text.len() > 0 {
        let cut = capped_bytes(string_bytes(text), budget_remaining(b));
        Some((label, label, path, zero_range_spec(), vstd::utf8::decode_utf8(cut), string_bytes(text).len() > budget_remaining(b)))
    } else {
        None
    }
}

/// The all-zero range.
pub open spec fn zero_range_spec() -> crate::shared::Range {
    crate::shared::Range {
        start: crate::shared::Position { line: 0, character: 0 },
        end: crate::shared::Position { line: 0, character: 0 },
    }
}

/// The budget and blocks after the first `k` parts: imports and exports give a block of
/// their serialized text cut to the budget left, and spend its bytes; the other parts give
/// none; once the budget is marked exceeded the rest is skipped.
pub open spec fn pack_upto(parts: Seq<ContextPackPart>, k: int, path: Seq<char>, imports: Seq<char>, exports: Seq<char>, max_bytes: usize) -> (TextBudget, Seq<BlockView>)
    decreases k,
{
    if k <= 0 || k > parts.len() {
        (TextBudget { limit: max_bytes, used: 0, exceeded: false }, Seq::empty())
    } else {
        let (b, blocks) = pack_upto(parts, k - 1, path, imports, exports, max_bytes);
        if b.exceeded {
            (b, blocks)
        } else {
            let block = match parts[k - 1] {
                ContextPackPart::Imports => part_block(b, "imports"@, path, imports),
                ContextPackPart::Exports => part_block(b, "exports"@, path, exports),
                _ => None,
            };
            match block {
                Some(x) => (budget_spend(b, string_bytes(x.4).len() as int), blocks.push(x)),
                None => (b, blocks),
            }
        }
    }
}

proof fn lemma_pack_stops(parts: Seq<ContextPackPart>, k: int, m: int, path: Seq<char>, imports: Seq<char>, exports: Seq<char>, max_bytes: usize)
    requires
        0 <= k <= m <= parts.len(),
        pack_upto(parts, k, path, imports, exports, max_bytes).0.exceeded,
    ensures
        pack_upto(parts, m, path, imports, exports, max_bytes) == pack_upto(parts, k, path, imports, exports, max_bytes),
    decreases m - k,
{
    if k < m {
        lemma_pack_stops(parts, k, m - 1, path, imports, exports, max_bytes);
    }
}

fn part_block_exec(b: &mut TextBudget, label: &str, path: &str, text: &str) -> (r: Option<ContextBlock>)
    ensures
        match r {
            Some(x) => part_block(*old(b), label@, path@, text@) == Some(crate::shared::block_view(x))
                && *final(b) == budget_spend(*old(b), string_bytes(x.text@).len() as int),
            None => part_block(*old(b), label@, path@, text@) is None && *final(b) == *old(b),
        },
{
    let rem = b.remaining();
    if rem > 0 && text.unicode_len() > 0 {
        let (cut, truncated) = truncate_text(text, rem);
        proof { vstd::utf8::encode_utf8_decode_utf8(cut@); }
        let n = cut.as_str().as_bytes().len();
        b.try_spend(n);
        let z = zero_range();
        Some(ContextBlock {
            label: label.to_owned(),
            kind: label.to_owned(),
            file_path: path.to_owned(),
            range: z,
            text: cut,
            truncated,
        })
    } else {
        None
    }
}

/// Whether a part is given as a summary rather than a text block.
pub open spec fn is_summary_part(p: ContextPackPart) -> bool {
    p == ContextPackPart::EnclosingScope || p == ContextPackPart::EnclosingNode || p == ContextPackPart::TopLevelOutline
}

/// The summary parts among the first `k` parts that are reached: a part is reached when
/// the budget is not yet marked exceeded before it.
pub open spec fn summaries_upto(parts: Seq<ContextPackPart>, k: int, path: Seq<char>, imports: Seq<char>, exports: Seq<char>, max_bytes: usize) -> Seq<ContextPackPart>
    decreases k,
{
    if k <= 0 || k > parts.len() {
        Seq::empty()
    } else {
        let prev = summaries_upto(parts, k - 1, path, imports, exports, max_bytes);
        if !pack_upto(parts, k - 1, path, imports, exports, max_bytes).0.exceeded && is_summary_part(parts[k - 1]) {
            prev.push(parts[k - 1])
        } else {
            prev
        }
    }
}

proof fn lemma_summaries_stop(parts: Seq<ContextPackPart>, k: int, m: int, path: Seq<char>, imports: Seq<char>, exports: Seq<char>, max_bytes: usize)
    requires
        0 <= k <= m <= parts.len(),
        pack_upto(parts, k, path, imports, exports, max_bytes).0.exceeded,
    ensures
        summaries_upto(parts, m, path, imports, exports, max_bytes) == summaries_upto(parts, k, path, imports, exports, max_bytes),
    decreases m - k,
{
    if k < m {
        lemma_summaries_stop(parts, k, m - 1, path, imports, exports, max_bytes);
        lemma_pack_stops(parts, k, m - 1, path, imports, exports, max_bytes);
    }
}

/// The plan of a context pack for the requested parts: the text blocks, in order; whether
/// the budget of `max_bytes` was exceeded; and the summary parts (enclosing scope,
/// enclosing node, top-level outline) to add, in order. Parts are taken in turn until
/// the budget is exceeded; the rest are skipped. `imports_text` and `exports_text` are
/// the serialized imports and exports of the file.
pub fn pack_plan(parts: &[ContextPackPart], path: &str, imports_text: &str, exports_text: &str, max_bytes: usize) -> (r: (Vec<ContextBlock>, bool, Vec<ContextPackPart>))
    ensures
        blocks_view(r.0@) == pack_upto(parts@, parts@.len() as int, path@, imports_text@, exports_text@, max_bytes).1,
        r.1 == pack_upto(parts@, parts@.len() as int, path@, imports_text@, exports_text@, max_bytes).0.exceeded,
        r.2@ == summaries_upto(parts@, parts@.len() as int, path@, imports_text@, exports_text@, max_bytes),
{
    let mut budget = TextBudget::new(max_bytes);
    let mut blocks: Vec<ContextBlock> = Vec::new();
    let mut summaries: Vec<ContextPackPart> = Vec::new();
    let mut k: usize = 0;
    assert(blocks_view(blocks@) =~= Seq::<BlockView>::empty());
    while k < parts.len()
        invariant
            k <= parts@.len(),
            (budget, blocks_view(blocks@)) == pack_upto(parts@, k as int, path@, imports_text@, exports_text@, max_bytes),
            summaries@ == summaries_upto(parts@, k as int, path@, imports_text@, exports_text@, max_bytes),
        decreases parts@.len() - k,
    {
        if budget.exceeded {
            proof {
                lemma_pack_stops(parts@, k as int, parts@.len() as int, path@, imports_text@, exports_text@, max_bytes);
                lemma_summaries_stop(parts@, k as int, parts@.len() as int, path@, imports_text@, exports_text@, max_bytes);
            }
            return (blocks, true, summaries);
        }
        let ghost before = blocks_view(blocks@);
        let part = parts[k];
        let block = match part {
            ContextPackPart::Imports => part_block_exec(&mut budget, "imports", path, imports_text),
            ContextPackPart::Exports => part_block_exec(&mut budget, "exports", path, exports_text),
            _ => None,
        };
        proof { reveal_strlit("imports"); reveal_strlit("exports"); }
        if let Some(x) = block {
            blocks.push(x);
            assert(blocks_view(blocks@) =~= before.push(crate::shared::block_view(blocks@.last())));
        }
        match part {
            ContextPackPart::EnclosingScope | ContextPackPart::EnclosingNode | ContextPackPart::TopLevelOutline => {
                summaries.push(part);
            },
            _ => {},
        }
        k = k + 1;
    }
    (blocks, budget.exceeded, summaries)
}

/// The bytes of the texts of a list of blocks, added up.
pub open spec fn total_bytes(blocks: Seq<BlockView>) -> int
    decreases blocks.len(),
{
    if blocks.len() == 0 { 0 } else { total_bytes(blocks.drop_last()) + string_bytes(blocks.last().4).len() }
}

proof fn lemma_block_fits(b: TextBudget, label: Seq<char>, path: Seq<char>, text: Seq<char>)
    requires
        part_block(b, label, path, text) is Some,
    ensures
        string_bytes(part_block(b, label, path, text).unwrap().4).len() <= budget_remaining(b),
{
    let bytes = string_bytes(text);
    let rem = budget_remaining(b);
    let cut = capped_bytes(bytes, rem);
    vstd::utf8::encode_utf8_valid_utf8(text);
    if bytes.len() > rem {
        let k = crate::text::floor_char_boundary(bytes, rem);
        crate::text::lemma_floor_char_boundary(bytes, rem);
        vstd::utf8::valid_utf8_split(bytes, k);
        assert(cut =~= bytes.subrange(0, k));
    }
    vstd::utf8::decode_utf8_encode_utf8(cut);
    crate::text::lemma_capped_len(bytes, rem);
}

proof fn lemma_pack_accounting(parts: Seq<ContextPackPart>, k: int, path: Seq<char>, imports: Seq<char>, exports: Seq<char>, max_bytes: usize)
    requires
        0 <= k <= parts.len(),
    ensures
        pack_upto(parts, k, path, imports, exports, max_bytes).0.limit == max_bytes,
        pack_upto(parts, k, path, imports, exports, max_bytes).0.used == total_bytes(pack_upto(parts, k, path, imports, exports, max_bytes).1),
        pack_upto(parts, k, path, imports, exports, max_bytes).0.used <= max_bytes,
    decreases k,
{
    if k > 0 {
        lemma_pack_accounting(parts, k - 1, path, imports, exports, max_bytes);
        let (b, blocks) = pack_upto(parts, k - 1, path, imports, exports, max_bytes);
        if !b.exceeded {
            match parts[k - 1] {
                ContextPackPart::Imports => {
                    if part_block(b, "imports"@, path, imports) is Some {
                        lemma_block_fits(b, "imports"@, path, imports);
                    }
                },
                ContextPackPart::Exports => {
                    if part_block(b, "exports"@, path, exports) is Some {
                        lemma_block_fits(b, "exports"@, path, exports);
                    }
                },
                _ => {},
            }
            let st = pack_upto(parts, k, path, imports, exports, max_bytes);
            if st.1.len() > blocks.len() {
                assert(st.1.drop_last() =~= blocks);
            }
        }
    }
}

/// The texts of the blocks of a context pack add up to at most its byte budget.
pub proof fn law_pack_within_budget(parts: Seq<ContextPackPart>, path: Seq<char>, imports: Seq<char>, exports: Seq<char>, max_bytes: usize)
    ensures
        total_bytes(pack_upto(parts, parts.len() as int, path, imports, exports, max_bytes).1) <= max_bytes,
{
    lemma_pack_accounting(parts, parts.len() as int, path, imports, exports, max_bytes);
}

} // verus!

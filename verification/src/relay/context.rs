//! The context guard: a request that would not fit a target's context window
//! is refused before anything is sent, and nothing is cut off to make it fit.

use crate::canonical::{
    BlockView, CanonicalInputItem, CanonicalResponseRequest, ContentBlock, InputView, RequestView,
    ToolView, WireApi,
};
use crate::error::{error_of, Error, ErrorKind, ErrorView};
use crate::json::{render_json, rendered_json};
use crate::relay::target::{SnapshotView, TargetSnapshot};
use crate::text::{contains_text, decimal, decimal_of, join5, occurs_at, same};
use vstd::prelude::*;
use vstd::string::StringExecFns;
use vstd::utf8::encode_utf8;

verus! {

/// The number of bytes of a text in UTF-8.
pub open spec fn byte_len(text: Seq<char>) -> usize {
    encode_utf8(text).len() as usize
}

/// `n`, or the greatest `usize` where it is greater.
pub open spec fn clamped(n: nat) -> usize {
    if n > usize::MAX {
        usize::MAX
    } else {
        n as usize
    }
}

/// The bytes of the texts of a reasoning summary.
pub open spec fn summary_bytes(summary: Seq<Option<Seq<char>>>) -> nat
    decreases summary.len(),
{
    if summary.len() == 0 {
        0
    } else {
        summary_bytes(summary.drop_last()) + match summary.last() {
            Some(text) => byte_len(text) as nat,
            None => 0,
        }
    }
}

/// The bytes that a block of content counts for.
pub open spec fn block_bytes(block: BlockView) -> nat {
    match block {
        BlockView::Text { text } => byte_len(text) as nat,
        BlockView::InputJson { json } => byte_len(json) as nat,
        BlockView::Reasoning { summary } => summary_bytes(summary),
        BlockView::Image { data } => byte_len(data) as nat,
    }
}

/// The bytes that the blocks of a message count for.
pub open spec fn blocks_bytes(blocks: Seq<BlockView>) -> nat
    decreases blocks.len(),
{
    if blocks.len() == 0 {
        0
    } else {
        blocks_bytes(blocks.drop_last()) + block_bytes(blocks.last())
    }
}

/// The bytes that an item of the input counts for.
pub open spec fn item_bytes(item: InputView) -> nat {
    match item {
        InputView::Text { content } => byte_len(content) as nat,
        InputView::Message { content, .. } => blocks_bytes(content),
        InputView::FunctionCallOutput { output, .. } => byte_len(output) as nat,
    }
}

/// The bytes that the input counts for.
pub open spec fn input_bytes(items: Seq<InputView>) -> nat
    decreases items.len(),
{
    if items.len() == 0 {
        0
    } else {
        input_bytes(items.drop_last()) + item_bytes(items.last())
    }
}

/// The bytes that a tool counts for: its name, description and schema.
pub open spec fn tool_bytes(tool: ToolView) -> nat {
    byte_len(tool.name) as nat + byte_len(tool.description) as nat + byte_len(
        rendered_json(tool.parameters),
    ) as nat
}

/// The bytes that the tools count for.
pub open spec fn tools_bytes(tools: Seq<ToolView>) -> nat
    decreases tools.len(),
{
    if tools.len() == 0 {
        0
    } else {
        tools_bytes(tools.drop_last()) + tool_bytes(tools.last())
    }
}

/// The bytes that a request counts for.
pub open spec fn request_bytes(request: RequestView) -> nat {
    let instructions: nat = match request.instructions {
        Some(instructions) => byte_len(instructions.content) as nat,
        None => 0,
    };
    instructions + input_bytes(request.input) + tools_bytes(request.tools)
}

/// The estimate of a request's tokens: one for every four bytes begun, and at
/// least one.
pub open spec fn estimated_tokens(request: RequestView) -> u64 {
    let quarter = (clamped(request_bytes(request)) as u64).saturating_add(3) / 4;
    if quarter < 1 {
        1
    } else {
        quarter
    }
}

/// The tokens that a request may take up on a target: the window less the
/// safety margin.
pub open spec fn safe_budget(window: u64, margin: Option<u64>) -> u64 {
    window.saturating_sub(
        match margin {
            Some(margin) => margin,
            None => 2048,
        },
    )
}

/// The output that a request reserves: its own limit, or else the target's,
/// cut to 32 bits.
pub open spec fn reserved_output(request: RequestView, target: SnapshotView) -> u64 {
    match request.max_output_tokens {
        Some(limit) => limit as u64,
        None => match target.max_output_tokens {
            Some(limit) => (limit as u32) as u64,
            None => 0,
        },
    }
}

/// The tokens that a request is taken to need on a target.
pub open spec fn needed_tokens(request: RequestView, target: SnapshotView) -> u64 {
    estimated_tokens(request).saturating_add(reserved_output(request, target))
}

/// Whether a request fits a target. One without a known window takes any.
pub open spec fn fits(request: RequestView, target: SnapshotView) -> bool {
    target.context_window_tokens matches Some(window) ==> needed_tokens(request, target)
        <= safe_budget(window, target.context_safety_margin_tokens)
}

/// The refusal of a request that does not fit.
pub open spec fn overflow_error(request: RequestView, target: SnapshotView) -> ErrorView {
    error_of(
        ErrorKind::ContextLengthExceeded,
        "Estimated token budget "@ + decimal(needed_tokens(request, target) as nat)
            + " exceeds safe context budget "@ + decimal(
            safe_budget(
                target.context_window_tokens->Some_0,
                target.context_safety_margin_tokens,
            ) as nat,
        ) + " for target '"@ + target.target_id + "'"@,
    )
}

fn len_of(text: &String) -> (r: usize)
    ensures
        r == byte_len(text@),
{
    text.as_str().len()
}

fn add_clamped(sum: usize, more: usize, Ghost(total): Ghost<nat>) -> (r: usize)
    requires
        sum == clamped(total),
    ensures
        r == clamped(total + more as nat),
{
    sum.saturating_add(more)
}

fn add_block(sum: usize, block: &ContentBlock, Ghost(total): Ghost<nat>) -> (r: usize)
    requires
        sum == clamped(total),
    ensures
        r == clamped(total + block_bytes(block.deep_view())),
{
    match block {
        ContentBlock::Text { text } => add_clamped(sum, len_of(text), Ghost(total)),
        ContentBlock::InputJson { json } => add_clamped(sum, len_of(json), Ghost(total)),
        ContentBlock::Image { data } => add_clamped(sum, len_of(data), Ghost(total)),
        ContentBlock::Reasoning { summary } => {
            let ghost views = summary.deep_view();
            let mut r: usize = sum;
            let mut i: usize = 0;
            assert(views.take(0) =~= Seq::empty());
            while i < summary.len()
                invariant
                    i <= summary.len(),
                    views == summary.deep_view(),
                    r == clamped(total + summary_bytes(views.take(i as int))),
                decreases summary.len() - i,
            {
                assert(views.take(i + 1).drop_last() =~= views.take(i as int));
                if let Some(text) = &summary[i].text {
                    r = add_clamped(
                        r,
                        len_of(text),
                        Ghost(total + summary_bytes(views.take(i as int))),
                    );
                }
                i = i + 1;
            }
            assert(views.take(views.len() as int) =~= views);
            r
        },
    }
}

fn add_item(sum: usize, item: &CanonicalInputItem, Ghost(total): Ghost<nat>) -> (r: usize)
    requires
        sum == clamped(total),
    ensures
        r == clamped(total + item_bytes(item.deep_view())),
{
    match item {
        CanonicalInputItem::Text { content } => add_clamped(sum, len_of(content), Ghost(total)),
        CanonicalInputItem::FunctionCallOutput { call_id: _, output } => add_clamped(
            sum,
            len_of(output),
            Ghost(total),
        ),
        CanonicalInputItem::Message { role: _, content } => {
            let ghost views = content.deep_view();
            let mut r: usize = sum;
            let mut i: usize = 0;
            assert(views.take(0) =~= Seq::empty());
            while i < content.len()
                invariant
                    i <= content.len(),
                    views == content.deep_view(),
                    r == clamped(total + blocks_bytes(views.take(i as int))),
                decreases content.len() - i,
            {
                assert(views.take(i + 1).drop_last() =~= views.take(i as int));
                r = add_block(
                    r,
                    &content[i],
                    Ghost(total + blocks_bytes(views.take(i as int))),
                );
                i = i + 1;
            }
            assert(views.take(views.len() as int) =~= views);
            r
        },
    }
}

/// The estimate of a request's tokens.
pub fn estimate_request_tokens(canonical: &CanonicalResponseRequest) -> (r: u64)
    ensures
        r == estimated_tokens(canonical.deep_view()),
{
    let ghost request = canonical.deep_view();
    let ghost mut total: nat = 0;
    let mut sum: usize = 0;
    if let Some(instructions) = &canonical.instructions {
        sum = add_clamped(sum, len_of(&instructions.content), Ghost(total));
        proof {
            total = total + byte_len(instructions.content@) as nat;
        }
    }
    let ghost items = canonical.input.deep_view();
    let mut i: usize = 0;
    assert(items.take(0) =~= Seq::empty());
    while i < canonical.input.len()
        invariant
            i <= canonical.input.len(),
            items == canonical.input.deep_view(),
            sum == clamped(total + input_bytes(items.take(i as int))),
        decreases canonical.input.len() - i,
    {
        assert(items.take(i + 1).drop_last() =~= items.take(i as int));
        sum = add_item(
            sum,
            &canonical.input[i],
            Ghost(total + input_bytes(items.take(i as int))),
        );
        i = i + 1;
    }
    assert(items.take(items.len() as int) =~= items);
    proof {
        total = total + input_bytes(items);
    }
    let ghost tools = canonical.tools.deep_view();
    let mut k: usize = 0;
    assert(tools.take(0) =~= Seq::empty());
    while k < canonical.tools.len()
        invariant
            k <= canonical.tools.len(),
            tools == canonical.tools.deep_view(),
            sum == clamped(total + tools_bytes(tools.take(k as int))),
        decreases canonical.tools.len() - k,
    {
        assert(tools.take(k + 1).drop_last() =~= tools.take(k as int));
        let tool = &canonical.tools[k];
        let schema = render_json(&tool.parameters);
        let ghost before = total + tools_bytes(tools.take(k as int));
        sum = add_clamped(sum, len_of(&tool.name), Ghost(before));
        sum = add_clamped(
            sum,
            len_of(&tool.description),
            Ghost(before + byte_len(tool.name@) as nat),
        );
        sum = add_clamped(
            sum,
            len_of(&schema),
            Ghost(before + byte_len(tool.name@) as nat + byte_len(tool.description@) as nat),
        );
        k = k + 1;
    }
    assert(tools.take(tools.len() as int) =~= tools);
    let quarter: u64 = (sum as u64).saturating_add(3) / 4;
    if quarter < 1 {
        1
    } else {
        quarter
    }
}

/// Refuses a request that does not fit a target.
pub fn context_guard_check(
    target: &TargetSnapshot,
    canonical: &CanonicalResponseRequest,
) -> (r: Result<(), Error>)
    ensures
        match r {
            Ok(_) => fits(canonical.deep_view(), target.deep_view()),
            Err(error) => {
                &&& !fits(canonical.deep_view(), target.deep_view())
                &&& error.deep_view() == overflow_error(canonical.deep_view(), target.deep_view())
            },
        },
{
    let window: u64 = match target.context_window_tokens {
        Some(window) => window,
        None => {
            return Ok(());
        },
    };
    let margin: u64 = match target.context_safety_margin_tokens {
        Some(margin) => margin,
        None => 2048,
    };
    let budget: u64 = window.saturating_sub(margin);
    let estimated: u64 = estimate_request_tokens(canonical);
    let output: u64 = match canonical.max_output_tokens {
        Some(limit) => limit as u64,
        None => match target.max_output_tokens {
            Some(limit) => {
                #[verifier::truncate]
                let cut: u32 = limit as u32;
                cut as u64
            },
            None => 0,
        },
    };
    let total: u64 = estimated.saturating_add(output);
    if total > budget {
        let needed = decimal_of(total);
        let allowed = decimal_of(budget);
        let mut message = join5(
            "Estimated token budget ",
            needed.as_str(),
            " exceeds safe context budget ",
            allowed.as_str(),
            " for target '",
        );
        message.append(target.target_id.as_str());
        message.append("'");
        return Err(Error { kind: ErrorKind::ContextLengthExceeded, message });
    }
    Ok(())
}

/// Whether a target that a request does not fit makes way for the next one.
pub fn should_fallback_on_context_guard(target: &TargetSnapshot) -> (r: bool)
    ensures
        r == (target.context_overflow_policy@ == "fallback"@),
{
    same(target.context_overflow_policy.as_str(), "fallback")
}

/// The protocol that a target turned out to speak.
#[derive(Debug)]
pub struct ResolvedTargetProtocol {
    pub wire_api: WireApi,
    pub credential_hash: String,
    pub tool_support_known: bool,
    pub supports_tools: bool,
}

/// The mathematical value of a [`ResolvedTargetProtocol`].
#[verifier::ext_equal]
pub struct ResolvedView {
    pub wire_api: WireApi,
    pub credential_hash: Seq<char>,
    pub tool_support_known: bool,
    pub supports_tools: bool,
}

impl DeepView for ResolvedTargetProtocol {
    type V = ResolvedView;

    open spec fn deep_view(&self) -> ResolvedView {
        ResolvedView {
            wire_api: self.wire_api,
            credential_hash: self.credential_hash@,
            tool_support_known: self.tool_support_known,
            supports_tools: self.supports_tools,
        }
    }
}

/// Whether a request with tools passes a target over: one whose protocol was
/// probed and that is not known to support tools.
pub open spec fn skipped_for_tools(
    target: SnapshotView,
    request: RequestView,
    resolved: ResolvedView,
) -> bool {
    &&& request.tools.len() > 0
    &&& target.configured_wire_api == WireApi::Auto
    &&& !(resolved.tool_support_known && resolved.supports_tools)
}

/// Whether a request with tools passes a target over.
pub fn should_skip_target_for_tool_support(
    target: &TargetSnapshot,
    canonical: &CanonicalResponseRequest,
    resolved: &ResolvedTargetProtocol,
) -> (r: bool)
    ensures
        r == skipped_for_tools(target.deep_view(), canonical.deep_view(), resolved.deep_view()),
{
    assert(canonical.tools.deep_view().len() == canonical.tools@.len());
    if canonical.tools.len() == 0 {
        return false;
    }
    if target.configured_wire_api != WireApi::Auto {
        return false;
    }
    if !resolved.tool_support_known {
        return true;
    }
    !resolved.supports_tools
}

/// The estimate grows with what is put in front of the input, so a replayed
/// history counts against the window.
pub proof fn history_counts_against_window(request: RequestView, history: Seq<InputView>)
    ensures
        estimated_tokens(request) <= estimated_tokens(
            RequestView { input: history + request.input, ..request },
        ),
{
    lemma_input_bytes_add(history, request.input);
}

proof fn lemma_input_bytes_add(a: Seq<InputView>, b: Seq<InputView>)
    ensures
        input_bytes(a + b) == input_bytes(a) + input_bytes(b),
    decreases b.len(),
{
    if b.len() == 0 {
        assert(a + b =~= a);
    } else {
        assert((a + b).drop_last() =~= a + b.drop_last());
        lemma_input_bytes_add(a, b.drop_last());
    }
}

/// A request that fits a target also fits one that differs in a larger window.
pub proof fn larger_window_fits(request: RequestView, target: SnapshotView, window: u64)
    requires
        fits(request, target),
        target.context_window_tokens matches Some(known) && known <= window,
    ensures
        fits(request, SnapshotView { context_window_tokens: Some(window), ..target }),
{
}

/// What passes the guard needs no more than the window less the margin, all of
/// the reserved output included.
pub proof fn guarded_request_fits_window(request: RequestView, target: SnapshotView, window: u64)
    requires
        fits(request, target),
        target.context_window_tokens == Some(window),
    ensures
        estimated_tokens(request) as int + reserved_output(request, target) as int <= window,
{
}

/// The texts that the parts of a reasoning summary hold.
pub open spec fn summary_texts(summary: Seq<Option<Seq<char>>>) -> Seq<Seq<char>> {
    summary.filter(|part: Option<Seq<char>>| part is Some).map_values(
        |part: Option<Seq<char>>| part->0,
    )
}

/// The texts that a block of content holds.
pub open spec fn carried_by_block(block: BlockView) -> Seq<Seq<char>> {
    match block {
        BlockView::Text { text } => seq![text],
        BlockView::InputJson { json } => seq![json],
        BlockView::Image { data } => seq![data],
        BlockView::Reasoning { summary } => summary_texts(summary),
    }
}

/// The texts that an item of the input holds: all that it says.
pub open spec fn carried_by_item(item: InputView) -> Seq<Seq<char>> {
    match item {
        InputView::Text { content } => seq![content],
        InputView::FunctionCallOutput { output, .. } => seq![output],
        InputView::Message { content, .. } => content.map_values(
            |block: BlockView| carried_by_block(block),
        ).flatten(),
    }
}

/// The texts that a tool holds: its name, its description and its schema.
pub open spec fn carried_by_tool(tool: ToolView) -> Seq<Seq<char>> {
    seq![tool.name, tool.description, rendered_json(tool.parameters)]
}

/// Every text that a request carries: the instructions, what each item of the input
/// says, and what each tool is described by.
pub open spec fn carried_texts(request: RequestView) -> Seq<Seq<char>> {
    let instructions = match request.instructions {
        Some(instructions) => seq![instructions.content],
        None => Seq::empty(),
    };
    instructions + request.input.map_values(|item: InputView| carried_by_item(item)).flatten()
        + request.tools.map_values(|tool: ToolView| carried_by_tool(tool)).flatten()
}

/// How many bytes texts have in all.
pub open spec fn total_bytes(texts: Seq<Seq<char>>) -> nat {
    texts.map_values(|text: Seq<char>| encode_utf8(text).len() as int).fold_left(
        0,
        |sum: int, length: int| sum + length,
    ) as nat
}

/// Whether each of the texts is short enough for a string to hold it.
pub open spec fn all_storable(texts: Seq<Seq<char>>) -> bool {
    forall|i: int| 0 <= i < texts.len() ==> encode_utf8(#[trigger] texts[i]).len() <= usize::MAX
}

proof fn lemma_total_push(texts: Seq<Seq<char>>, text: Seq<char>)
    ensures
        total_bytes(texts.push(text)) == total_bytes(texts) + encode_utf8(text).len(),
        total_bytes(Seq::empty()) == 0,
{
    let length_of = |text: Seq<char>| encode_utf8(text).len() as int;
    let plus = |sum: int, length: int| sum + length;
    lemma_total_is_positive(texts);
    assert(texts.push(text).map_values(length_of) =~= texts.map_values(length_of).push(
        length_of(text),
    ));
    assert(texts.map_values(length_of).push(length_of(text)).drop_last() =~= texts.map_values(
        length_of,
    ));
    reveal_with_fuel(Seq::fold_left, 2);
    assert(Seq::<Seq<char>>::empty().map_values(length_of) =~= Seq::empty());
}

proof fn lemma_total_is_positive(texts: Seq<Seq<char>>)
    ensures
        texts.map_values(|text: Seq<char>| encode_utf8(text).len() as int).fold_left(
            0,
            |sum: int, length: int| sum + length,
        ) >= 0,
    decreases texts.len(),
{
    let length_of = |text: Seq<char>| encode_utf8(text).len() as int;
    if texts.len() > 0 {
        lemma_total_is_positive(texts.drop_last());
        assert(texts.map_values(length_of).drop_last() =~= texts.drop_last().map_values(
            length_of,
        ));
    }
}

proof fn lemma_total_add(a: Seq<Seq<char>>, b: Seq<Seq<char>>)
    ensures
        total_bytes(a + b) == total_bytes(a) + total_bytes(b),
    decreases b.len(),
{
    if b.len() == 0 {
        lemma_total_push(a, Seq::empty());
        assert(a + b =~= a);
        assert(b =~= Seq::empty());
    } else {
        let front = b.drop_last();
        lemma_total_add(a, front);
        lemma_total_push(a + front, b.last());
        lemma_total_push(front, b.last());
        assert((a + front).push(b.last()) =~= a + b);
        assert(front.push(b.last()) =~= b);
    }
}

proof fn lemma_one_total(text: Seq<char>)
    ensures
        total_bytes(seq![text]) == encode_utf8(text).len(),
{
    lemma_total_push(Seq::empty(), text);
    assert(Seq::<Seq<char>>::empty().push(text) =~= seq![text]);
}

proof fn lemma_storable_parts(a: Seq<Seq<char>>, b: Seq<Seq<char>>)
    requires
        all_storable(a + b),
    ensures
        all_storable(a),
        all_storable(b),
{
    assert forall|i: int| 0 <= i < a.len() implies encode_utf8(#[trigger] a[i]).len()
        <= usize::MAX by {
        assert((a + b)[i] == a[i]);
    }
    assert forall|i: int| 0 <= i < b.len() implies encode_utf8(#[trigger] b[i]).len()
        <= usize::MAX by {
        assert((a + b)[a.len() + i] == b[i]);
    }
}

proof fn lemma_summary_total(summary: Seq<Option<Seq<char>>>)
    requires
        all_storable(summary_texts(summary)),
    ensures
        summary_bytes(summary) == total_bytes(summary_texts(summary)),
    decreases summary.len(),
{
    reveal(Seq::filter);
    let is_there = |part: Option<Seq<char>>| part is Some;
    let inner = |part: Option<Seq<char>>| part->0;
    if summary.len() == 0 {
        lemma_total_push(Seq::empty(), Seq::empty());
        assert(summary_texts(summary) =~= Seq::empty());
    } else {
        let front = summary_texts(summary.drop_last());
        if let Some(text) = summary.last() {
            assert(summary_texts(summary) =~= front.push(text));
            assert(front.push(text) =~= front + seq![text]);
            lemma_storable_parts(front, seq![text]);
            assert(encode_utf8(seq![text][0]).len() <= usize::MAX);
            lemma_total_push(front, text);
        } else {
            assert(summary_texts(summary) =~= front);
        }
        lemma_summary_total(summary.drop_last());
    }
}

proof fn lemma_block_total(block: BlockView)
    requires
        all_storable(carried_by_block(block)),
    ensures
        block_bytes(block) == total_bytes(carried_by_block(block)),
{
    match block {
        BlockView::Reasoning { summary } => lemma_summary_total(summary),
        _ => {
            let texts = carried_by_block(block);
            assert(encode_utf8(texts[0]).len() <= usize::MAX);
            lemma_one_total(texts[0]);
            assert(texts =~= seq![texts[0]]);
        },
    }
}

proof fn lemma_blocks_total(blocks: Seq<BlockView>)
    requires
        all_storable(blocks.map_values(|block: BlockView| carried_by_block(block)).flatten()),
    ensures
        blocks_bytes(blocks) == total_bytes(
            blocks.map_values(|block: BlockView| carried_by_block(block)).flatten(),
        ),
    decreases blocks.len(),
{
    let texts = blocks.map_values(|block: BlockView| carried_by_block(block));
    if blocks.len() == 0 {
        lemma_total_push(Seq::empty(), Seq::empty());
        assert(texts.flatten() =~= Seq::empty());
    } else {
        let front = blocks.drop_last().map_values(|block: BlockView| carried_by_block(block));
        assert(texts =~= front.push(carried_by_block(blocks.last())));
        lemma_flatten_push(front, carried_by_block(blocks.last()));
        lemma_storable_parts(front.flatten(), carried_by_block(blocks.last()));
        lemma_total_add(front.flatten(), carried_by_block(blocks.last()));
        lemma_blocks_total(blocks.drop_last());
        lemma_block_total(blocks.last());
    }
}

proof fn lemma_flatten_push(front: Seq<Seq<Seq<char>>>, last: Seq<Seq<char>>)
    ensures
        front.push(last).flatten() == front.flatten() + last,
{
    front.push(last).lemma_flatten_and_flatten_alt_are_equivalent();
    front.lemma_flatten_and_flatten_alt_are_equivalent();
    assert(front.push(last).drop_last() =~= front);
}

proof fn lemma_item_total(item: InputView)
    requires
        all_storable(carried_by_item(item)),
    ensures
        item_bytes(item) == total_bytes(carried_by_item(item)),
{
    match item {
        InputView::Message { content, .. } => lemma_blocks_total(content),
        _ => {
            let texts = carried_by_item(item);
            assert(encode_utf8(texts[0]).len() <= usize::MAX);
            lemma_one_total(texts[0]);
            assert(texts =~= seq![texts[0]]);
        },
    }
}

proof fn lemma_input_total(items: Seq<InputView>)
    requires
        all_storable(items.map_values(|item: InputView| carried_by_item(item)).flatten()),
    ensures
        input_bytes(items) == total_bytes(
            items.map_values(|item: InputView| carried_by_item(item)).flatten(),
        ),
    decreases items.len(),
{
    let texts = items.map_values(|item: InputView| carried_by_item(item));
    if items.len() == 0 {
        lemma_total_push(Seq::empty(), Seq::empty());
        assert(texts.flatten() =~= Seq::empty());
    } else {
        let front = items.drop_last().map_values(|item: InputView| carried_by_item(item));
        assert(texts =~= front.push(carried_by_item(items.last())));
        lemma_flatten_push(front, carried_by_item(items.last()));
        lemma_storable_parts(front.flatten(), carried_by_item(items.last()));
        lemma_total_add(front.flatten(), carried_by_item(items.last()));
        lemma_input_total(items.drop_last());
        lemma_item_total(items.last());
    }
}

proof fn lemma_tools_total(tools: Seq<ToolView>)
    requires
        all_storable(tools.map_values(|tool: ToolView| carried_by_tool(tool)).flatten()),
    ensures
        tools_bytes(tools) == total_bytes(
            tools.map_values(|tool: ToolView| carried_by_tool(tool)).flatten(),
        ),
    decreases tools.len(),
{
    let texts = tools.map_values(|tool: ToolView| carried_by_tool(tool));
    if tools.len() == 0 {
        lemma_total_push(Seq::empty(), Seq::empty());
        assert(texts.flatten() =~= Seq::empty());
    } else {
        let tool = tools.last();
        let front = tools.drop_last().map_values(|tool: ToolView| carried_by_tool(tool));
        let carried = carried_by_tool(tool);
        assert(texts =~= front.push(carried));
        lemma_flatten_push(front, carried);
        lemma_storable_parts(front.flatten(), carried);
        lemma_total_add(front.flatten(), carried);
        lemma_tools_total(tools.drop_last());
        assert(encode_utf8(carried[0]).len() <= usize::MAX && encode_utf8(carried[1]).len()
            <= usize::MAX && encode_utf8(carried[2]).len() <= usize::MAX);
        lemma_one_total(tool.name);
        lemma_total_push(seq![tool.name], tool.description);
        lemma_total_push(
            seq![tool.name].push(tool.description),
            rendered_json(tool.parameters),
        );
        assert(carried =~= seq![tool.name].push(tool.description).push(
            rendered_json(tool.parameters),
        ));
    }
}

/// The estimate covers every text that a request carries: four times as many bytes
/// as tokens are enough for all of them, and no four bytes are counted for nothing.
/// What is more than a machine counts is taken as the most that it does.
pub proof fn estimate_covers_all_text(request: RequestView)
    requires
        all_storable(carried_texts(request)),
    ensures
        estimated_tokens(request) >= 1,
        total_bytes(carried_texts(request)) <= usize::MAX - 3 ==> {
            &&& total_bytes(carried_texts(request)) <= 4 * estimated_tokens(request)
            &&& 4 * estimated_tokens(request) <= total_bytes(carried_texts(request)) + 3
                || estimated_tokens(request) == 1
        },
        total_bytes(carried_texts(request)) > usize::MAX - 3 ==> 4 * estimated_tokens(request)
            >= usize::MAX - 3,
{
    let instructions = match request.instructions {
        Some(instructions) => seq![instructions.content],
        None => Seq::empty(),
    };
    let input = request.input.map_values(|item: InputView| carried_by_item(item)).flatten();
    let tools = request.tools.map_values(|tool: ToolView| carried_by_tool(tool)).flatten();
    lemma_storable_parts(instructions + input, tools);
    lemma_storable_parts(instructions, input);
    lemma_total_add(instructions + input, tools);
    lemma_total_add(instructions, input);
    lemma_input_total(request.input);
    lemma_tools_total(request.tools);
    if let Some(found) = request.instructions {
        assert(encode_utf8(instructions[0]).len() <= usize::MAX);
        lemma_one_total(found.content);
    } else {
        lemma_total_push(Seq::empty(), Seq::empty());
    }
    assert(request_bytes(request) == total_bytes(carried_texts(request)));
}

/// A request passes the guard of a target just where the target has no known window,
/// or where the estimate, the output that is asked for and the margin together are
/// no more than it. The output is the request's own limit, or else the target's, cut
/// to 32 bits; the margin is 2048 where none is configured.
pub proof fn guard_holds_the_window(request: RequestView, target: SnapshotView)
    ensures
        fits(request, target) <==> {
            let margin: int = match target.context_safety_margin_tokens {
                Some(margin) => margin as int,
                None => 2048,
            };
            target.context_window_tokens is Some ==> estimated_tokens(request) + reserved_output(
                request,
                target,
            ) + margin <= target.context_window_tokens->0
        },
        request.max_output_tokens is Some ==> reserved_output(request, target)
            == request.max_output_tokens->0,
        request.max_output_tokens is None && target.max_output_tokens is None ==> reserved_output(
            request,
            target,
        ) == 0,
        request.max_output_tokens is None && target.max_output_tokens is Some
            && target.max_output_tokens->0 <= u32::MAX ==> reserved_output(request, target)
            == target.max_output_tokens->0,
{
}

/// A request that does not fit is refused as too long, in the name of the target.
pub proof fn overflow_names_the_target(request: RequestView, target: SnapshotView)
    ensures
        overflow_error(request, target).kind == ErrorKind::ContextLengthExceeded,
        contains_text(overflow_error(request, target).message, target.target_id),
        contains_text(
            overflow_error(request, target).message,
            decimal(needed_tokens(request, target) as nat),
        ),
        needed_tokens(request, target) == estimated_tokens(request) + reserved_output(
            request,
            target,
        ),
{
    let message = overflow_error(request, target).message;
    let needed = decimal(needed_tokens(request, target) as nat);
    let start = "Estimated token budget "@;
    assert(message.subrange(start.len() as int, (start.len() + needed.len()) as int) =~= needed);
    assert(occurs_at(message, needed, start.len() as int));
    let end = "'"@;
    let place = message.len() - end.len() - target.target_id.len();
    assert(message.subrange(place, place + target.target_id.len()) =~= target.target_id);
    assert(occurs_at(message, target.target_id, place));
}

/// A target is passed over for its tools only where the request has some and the
/// protocol was probed; a target that is known to support them never is, nor is one
/// whose protocol is configured.
pub proof fn tool_support_is_asked_for_where_it_matters(
    target: SnapshotView,
    request: RequestView,
    resolved: ResolvedView,
)
    ensures
        request.tools.len() == 0 ==> !skipped_for_tools(target, request, resolved),
        !(target.configured_wire_api is Auto) ==> !skipped_for_tools(target, request, resolved),
        resolved.tool_support_known && resolved.supports_tools ==> !skipped_for_tools(
            target,
            request,
            resolved,
        ),
        request.tools.len() > 0 && target.configured_wire_api is Auto && (
        !resolved.tool_support_known || !resolved.supports_tools) ==> skipped_for_tools(
            target,
            request,
            resolved,
        ),
{
}

/// The output limit of a target counts by its lower 32 bits where the request names
/// none.
pub proof fn targets_output_limit_is_cut_to_its_low_bits(
    request: RequestView,
    target: SnapshotView,
    limit: u64,
)
    requires
        request.max_output_tokens is None,
        target.max_output_tokens == Some(limit),
    ensures
        reserved_output(request, target) == limit % 0x1_0000_0000,
{
    assert(limit as u32 == limit % 0x1_0000_0000) by (bit_vector);
}

} // verus!

//! Continuing an earlier response: by the upstream's own handle where that is
//! still good, and always with the visible history in front of the new input.

use crate::canonical::{
    append_inputs, wire_api_named, BlockView, CanonicalInputItem, CanonicalResponseRequest,
    ContentBlock, InputView, RequestView, WireApi,
};
use crate::error::{
    collected, error_of, lemma_collected_all, lemma_collected_step, lemma_collected_values, outcome,
    Error, ErrorKind, ErrorView,
};
use crate::json::{json_of_text, parse_json_opt, Json, JsonView};
use crate::relay::target::{SnapshotView, TargetSnapshot};
use crate::relay::upstream::{handle_missing, is_missing_handle};
use crate::store::{
    stored, HandleRecord, HandleView, ItemRecord, ItemView, ResponseRecord, ResponseRecordView,
};
use crate::text::{
    contains_text, copy_opt, is_among, join3, occurs_at, part_is_contained, same,
};
use vstd::prelude::*;

verus! {

/// What is known of the response that a request continues.
#[derive(Debug)]
pub struct ContinuationContext {
    pub previous_upstream_handle: Option<String>,
    pub previous_provider_id: Option<String>,
    pub previous_upstream_model: Option<String>,
    pub previous_wire_api: Option<WireApi>,
    pub previous_credential_hash: Option<String>,
    pub replay_items: Vec<CanonicalInputItem>,
    pub known_call_ids: Vec<String>,
}

/// The mathematical value of a [`ContinuationContext`]. The known call ids are
/// a set.
#[verifier::ext_equal]
pub struct ContinuationView {
    pub previous_upstream_handle: Option<Seq<char>>,
    pub previous_provider_id: Option<Seq<char>>,
    pub previous_upstream_model: Option<Seq<char>>,
    pub previous_wire_api: Option<WireApi>,
    pub previous_credential_hash: Option<Seq<char>>,
    pub replay_items: Seq<InputView>,
    pub known_call_ids: Set<Seq<char>>,
}

impl DeepView for ContinuationContext {
    type V = ContinuationView;

    open spec fn deep_view(&self) -> ContinuationView {
        ContinuationView {
            previous_upstream_handle: self.previous_upstream_handle.deep_view(),
            previous_provider_id: self.previous_provider_id.deep_view(),
            previous_upstream_model: self.previous_upstream_model.deep_view(),
            previous_wire_api: self.previous_wire_api,
            previous_credential_hash: self.previous_credential_hash.deep_view(),
            replay_items: self.replay_items.deep_view(),
            known_call_ids: self.known_call_ids.deep_view().to_set(),
        }
    }
}

/// The stored content of an item; null where it is no JSON.
pub open spec fn stored_content(content_json: Seq<char>) -> JsonView {
    match json_of_text(content_json) {
        Some(value) => value,
        None => JsonView::Null,
    }
}

/// The stored content of an item; null where it is no JSON.
pub fn load_content(content_json: &str) -> (r: Json)
    ensures
        r@ == stored_content(content_json@),
{
    match parse_json_opt(content_json) {
        Some(value) => value,
        None => Json::Null,
    }
}

/// The texts of the blocks of an array, in order.
pub open spec fn block_texts(blocks: Seq<JsonView>) -> Seq<BlockView>
    decreases blocks.len(),
{
    if blocks.len() == 0 {
        Seq::empty()
    } else {
        let front = block_texts(blocks.drop_last());
        match blocks.last().get_str("text"@) {
            Some(text) => front.push(BlockView::Text { text }),
            None => front,
        }
    }
}

/// The blocks to replay of a stored content: the texts of an array of blocks,
/// or the one text that it is or has.
pub open spec fn replay_blocks(content: JsonView) -> Seq<BlockView> {
    match content {
        JsonView::Array(blocks) => block_texts(blocks),
        JsonView::Text(text) => seq![BlockView::Text { text }],
        _ => match content.get_str("text"@) {
            Some(text) => seq![BlockView::Text { text }],
            None => Seq::empty(),
        },
    }
}

/// The blocks to replay of a stored content.
pub fn parse_output_content_json_to_blocks(content: &Json) -> (r: Vec<ContentBlock>)
    ensures
        r.deep_view() == replay_blocks(content@),
{
    let mut blocks: Vec<ContentBlock> = Vec::new();
    assert(blocks.deep_view() =~= Seq::empty());
    if let Some(array) = content.as_array() {
        let ghost views = array.deep_view();
        let mut i: usize = 0;
        assert(views.take(0) =~= Seq::empty());
        while i < array.len()
            invariant
                i <= array.len(),
                views == array.deep_view(),
                blocks.deep_view() == block_texts(views.take(i as int)),
            decreases array.len() - i,
        {
            let ghost before = blocks.deep_view();
            assert(views.take(i + 1).drop_last() =~= views.take(i as int));
            if let Some(text) = array[i].get_str("text") {
                let block = ContentBlock::Text { text: text.to_owned() };
                let ghost shown = block.deep_view();
                blocks.push(block);
                assert(blocks.deep_view() =~= before.push(shown));
            }
            i = i + 1;
        }
        assert(views.take(views.len() as int) =~= views);
        return blocks;
    }
    let text: Option<&str> = match content.get_str("text") {
        Some(text) => Some(text),
        None => content.as_str(),
    };
    if let Some(text) = text {
        let block = ContentBlock::Text { text: text.to_owned() };
        let ghost shown = block.deep_view();
        blocks.push(block);
        assert(blocks.deep_view() =~= seq![shown]);
    }
    blocks
}

/// What a stored item is replayed as. A message that is hidden or without text
/// is left out, and so is reasoning; an item of another type cannot be
/// replayed. `fresh_call_id` stands in for a call id that was not stored.
pub open spec fn replayed_item(
    item: ItemView,
    fresh_call_id: Seq<char>,
) -> Result<Option<InputView>, ErrorView> {
    let content = stored_content(item.content_json);
    if item.item_type == "message"@ {
        let blocks = replay_blocks(content);
        if item.visible == 0 || blocks.len() == 0 {
            Ok(None)
        } else {
            Ok(
                Some(
                    InputView::Message {
                        role: match item.role {
                            Some(role) => role,
                            None => "assistant"@,
                        },
                        content: blocks,
                    },
                ),
            )
        }
    } else if item.item_type == "function_call"@ {
        Ok(
            Some(
                InputView::FunctionCallOutput {
                    call_id: match item.call_id {
                        Some(call_id) => call_id,
                        None => fresh_call_id,
                    },
                    output: match content.get_str("arguments"@) {
                        Some(arguments) => arguments,
                        None => "{}"@,
                    },
                },
            ),
        )
    } else if item.item_type == "reasoning"@ {
        Ok(None)
    } else {
        Err(
            error_of(
                ErrorKind::StateReplayFailed,
                "Unsupported persisted item type '"@ + item.item_type + "' in replay chain"@,
            ),
        )
    }
}

/// What each stored item is replayed as.
pub open spec fn replay_results(items: Seq<ItemView>, fresh_call_ids: Seq<Seq<char>>) -> Seq<
    Result<Option<InputView>, ErrorView>,
> {
    Seq::new(items.len(), |i: int| replayed_item(items[i], fresh_call_ids[i]))
}

/// The values that are there, in order.
pub open spec fn present<T>(values: Seq<Option<T>>) -> Seq<T>
    decreases values.len(),
{
    if values.len() == 0 {
        Seq::empty()
    } else {
        match values.last() {
            Some(value) => present(values.drop_last()).push(value),
            None => present(values.drop_last()),
        }
    }
}

/// The input that replays the stored items.
pub open spec fn replay_of(
    items: Seq<ItemView>,
    fresh_call_ids: Seq<Seq<char>>,
) -> Result<Seq<InputView>, ErrorView> {
    match collected(replay_results(items, fresh_call_ids)) {
        Ok(inputs) => Ok(present(inputs)),
        Err(error) => Err(error),
    }
}

/// What a stored item is replayed as.
fn replay_item(item: &ItemRecord, fresh_call_id: &String) -> (r: Result<
    Option<CanonicalInputItem>,
    Error,
>)
    ensures
        outcome(r) == replayed_item(item.deep_view(), fresh_call_id@),
{
    let item_type = item.item_type.as_str();
    if same(item_type, "message") {
        if item.visible == 0 {
            return Ok(None);
        }
        let role = match &item.role {
            Some(role) => role.clone(),
            None => "assistant".to_owned(),
        };
        let value = load_content(item.content_json.as_str());
        let blocks = parse_output_content_json_to_blocks(&value);
        assert(blocks.deep_view().len() == blocks@.len());
        if blocks.len() == 0 {
            return Ok(None);
        }
        Ok(Some(CanonicalInputItem::Message { role, content: blocks }))
    } else if same(item_type, "function_call") {
        let value = load_content(item.content_json.as_str());
        let output = match value.get_str("arguments") {
            Some(arguments) => arguments.to_owned(),
            None => "{}".to_owned(),
        };
        let call_id = match &item.call_id {
            Some(call_id) => call_id.clone(),
            None => fresh_call_id.clone(),
        };
        Ok(Some(CanonicalInputItem::FunctionCallOutput { call_id, output }))
    } else if same(item_type, "reasoning") {
        Ok(None)
    } else {
        Err(
            Error {
                kind: ErrorKind::StateReplayFailed,
                message: join3(
                    "Unsupported persisted item type '",
                    item_type,
                    "' in replay chain",
                ),
            },
        )
    }
}

/// The input that replays the stored items. For each item one call id is at
/// hand, to be used where none was stored.
pub fn to_replay_input_items(items: &Vec<ItemRecord>, fresh_call_ids: &Vec<String>) -> (r: Result<
    Vec<CanonicalInputItem>,
    Error,
>)
    requires
        fresh_call_ids.len() >= items.len(),
    ensures
        outcome(r) == replay_of(items.deep_view(), fresh_call_ids.deep_view()),
{
    let ghost results = replay_results(items.deep_view(), fresh_call_ids.deep_view());
    let mut replay: Vec<CanonicalInputItem> = Vec::new();
    let ghost mut kept: Seq<Option<InputView>> = Seq::empty();
    let mut i: usize = 0;
    proof {
        lemma_collected_all(results);
        assert(replay.deep_view() =~= Seq::empty());
    }
    while i < items.len()
        invariant
            i <= items.len(),
            fresh_call_ids.len() >= items.len(),
            results == replay_results(items.deep_view(), fresh_call_ids.deep_view()),
            collected(results.take(i as int)) == Ok::<Seq<Option<InputView>>, ErrorView>(kept),
            replay.deep_view() == present(kept),
        decreases items.len() - i,
    {
        proof {
            lemma_collected_step(results, i as int);
        }
        match replay_item(&items[i], &fresh_call_ids[i]) {
            Ok(input) => {
                let ghost before = replay.deep_view();
                proof {
                    assert(kept.push(input.deep_view()).drop_last() =~= kept);
                    kept = kept.push(input.deep_view());
                }
                if let Some(input) = input {
                    let ghost shown = input.deep_view();
                    replay.push(input);
                    assert(replay.deep_view() =~= before.push(shown));
                }
            },
            Err(error) => {
                return Err(error);
            },
        }
        i = i + 1;
    }
    proof {
        lemma_collected_all(results);
    }
    Ok(replay)
}

/// Whether a function call with that id is among the items.
pub open spec fn calls(items: Seq<ItemView>, call_id: Seq<char>) -> bool {
    exists|i: int|
        0 <= i < items.len() && (#[trigger] items[i]).item_type == "function_call"@
            && items[i].call_id == Some(call_id)
}

/// The ids of the function calls among the items, each once.
pub fn extract_known_call_ids(items: &Vec<ItemRecord>) -> (ids: Vec<String>)
    ensures
        ids.deep_view().no_duplicates(),
        forall|id: Seq<char>|
            #[trigger] ids.deep_view().contains(id) <==> calls(items.deep_view(), id),
{
    let ghost views = items.deep_view();
    let mut ids: Vec<String> = Vec::new();
    let mut i: usize = 0;
    while i < items.len()
        invariant
            i <= items.len(),
            views == items.deep_view(),
            ids.deep_view().no_duplicates(),
            forall|id: Seq<char>|
                #[trigger] ids.deep_view().contains(id) <==> calls(views.take(i as int), id),
        decreases items.len() - i,
    {
        let ghost before = ids.deep_view();
        let ghost now = views.take(i + 1);
        assert forall|id: Seq<char>| #[trigger] calls(now, id) <==> calls(views.take(i as int), id)
            || (views[i as int].item_type == "function_call"@ && views[i as int].call_id == Some(
            id,
        )) by {
            if calls(views.take(i as int), id) {
                let k = choose|k: int|
                    0 <= k < i && (#[trigger] views.take(i as int)[k]).item_type
                        == "function_call"@ && views.take(i as int)[k].call_id == Some(id);
                assert(now[k] == views[k]);
            }
            if calls(now, id) {
                let k = choose|k: int|
                    0 <= k < now.len() && (#[trigger] now[k]).item_type == "function_call"@
                        && now[k].call_id == Some(id);
                if k < i {
                    assert(views.take(i as int)[k] == now[k]);
                }
            }
            assert(now[i as int] == views[i as int]);
        }
        if same(items[i].item_type.as_str(), "function_call") {
            if let Some(call_id) = &items[i].call_id {
                if !is_among(&ids, call_id.as_str()) {
                    ids.push(call_id.clone());
                    assert(ids.deep_view() =~= before.push(call_id@));
                    assert forall|id: Seq<char>| #[trigger] ids.deep_view().contains(id) <==> (
                    before.contains(id) || id == call_id@) by {
                        if before.contains(id) {
                            let k = choose|k: int| 0 <= k < before.len() && before[k] == id;
                            assert(ids.deep_view()[k] == id);
                        }
                        assert(ids.deep_view()[before.len() as int] == call_id@);
                    }
                }
            }
        }
        i = i + 1;
    }
    assert(views.take(views.len() as int) =~= views);
    ids
}

/// What is known of an earlier response from its record, its items and its
/// handle.
pub open spec fn continuation_of(
    previous: ResponseRecordView,
    replay_items: Seq<InputView>,
    items: Seq<ItemView>,
    handle: Option<HandleView>,
) -> ContinuationView {
    ContinuationView {
        previous_upstream_handle: match handle {
            Some(handle) => handle.upstream_response_id,
            None => None,
        },
        previous_provider_id: previous.provider_id,
        previous_upstream_model: previous.upstream_model,
        previous_wire_api: match previous.wire_api {
            Some(name) => wire_api_named(name),
            None => None,
        },
        previous_credential_hash: match handle {
            Some(handle) => Some(handle.credential_hash),
            None => None,
        },
        replay_items,
        known_call_ids: Set::new(|id: Seq<char>| calls(items, id)),
    }
}

/// The continuation of a request, from what the store gave for the response it
/// names. Of several failures the one that comes first in the order response,
/// items, replay, handle is reported.
pub open spec fn loaded_continuation(
    raw: JsonView,
    previous: Result<Option<ResponseRecordView>, Seq<char>>,
    items: Result<Seq<ItemView>, Seq<char>>,
    fresh_call_ids: Seq<Seq<char>>,
    handle: Result<Option<HandleView>, Seq<char>>,
) -> Result<Option<ContinuationView>, ErrorView> {
    match raw.get_str("previous_response_id"@) {
        None => Ok(None),
        Some(id) => match previous {
            Err(detail) => Err(
                error_of(
                    ErrorKind::InternalError,
                    "Failed to load previous response state: "@ + detail,
                ),
            ),
            Ok(None) => Err(
                error_of(
                    ErrorKind::StateNotFound,
                    "previous_response_id '"@ + id + "' was not found"@,
                ),
            ),
            Ok(Some(previous)) => match items {
                Err(detail) => Err(
                    error_of(
                        ErrorKind::InternalError,
                        "Failed to load previous response items: "@ + detail,
                    ),
                ),
                Ok(items) => match replay_of(items, fresh_call_ids) {
                    Err(error) => Err(error),
                    Ok(replay_items) => match handle {
                        Err(detail) => Err(
                            error_of(
                                ErrorKind::InternalError,
                                "Failed to load previous upstream handle: "@ + detail,
                            ),
                        ),
                        Ok(handle) => Ok(
                            Some(continuation_of(previous, replay_items, items, handle)),
                        ),
                    },
                },
            },
        },
    }
}

/// The continuation of a request, from what the store gave for the response it
/// names.
pub fn load_continuation_context(
    raw: &Json,
    previous: Result<Option<ResponseRecord>, String>,
    items: Result<Vec<ItemRecord>, String>,
    fresh_call_ids: &Vec<String>,
    handle: Result<Option<HandleRecord>, String>,
) -> (r: Result<Option<ContinuationContext>, Error>)
    requires
        items matches Ok(items) ==> fresh_call_ids.len() >= items.len(),
    ensures
        outcome(r) == loaded_continuation(
            raw@,
            stored(previous),
            stored(items),
            fresh_call_ids.deep_view(),
            stored(handle),
        ),
{
    let id: &str = match raw.get_str("previous_response_id") {
        Some(id) => id,
        None => {
            return Ok(None);
        },
    };
    let previous = match previous {
        Ok(Some(previous)) => previous,
        Ok(None) => {
            return Err(
                Error {
                    kind: ErrorKind::StateNotFound,
                    message: join3("previous_response_id '", id, "' was not found"),
                },
            );
        },
        Err(detail) => {
            return Err(
                Error::about(
                    ErrorKind::InternalError,
                    "Failed to load previous response state: ",
                    detail.as_str(),
                ),
            );
        },
    };
    let items = match items {
        Ok(items) => items,
        Err(detail) => {
            return Err(
                Error::about(
                    ErrorKind::InternalError,
                    "Failed to load previous response items: ",
                    detail.as_str(),
                ),
            );
        },
    };
    let replay_items = match to_replay_input_items(&items, fresh_call_ids) {
        Ok(replay_items) => replay_items,
        Err(error) => {
            return Err(error);
        },
    };
    let known_call_ids = extract_known_call_ids(&items);
    let handle = match handle {
        Ok(handle) => handle,
        Err(detail) => {
            return Err(
                Error::about(
                    ErrorKind::InternalError,
                    "Failed to load previous upstream handle: ",
                    detail.as_str(),
                ),
            );
        },
    };
    let ghost handle_view = handle.deep_view();
    let (previous_upstream_handle, previous_credential_hash) = match handle {
        Some(handle) => (handle.upstream_response_id, Some(handle.credential_hash)),
        None => (None, None),
    };
    let previous_wire_api = match &previous.wire_api {
        Some(name) => WireApi::parse(name.as_str()),
        None => None,
    };
    let ghost previous_view = previous.deep_view();
    let context = ContinuationContext {
        previous_upstream_handle,
        previous_provider_id: previous.provider_id,
        previous_upstream_model: previous.upstream_model,
        previous_wire_api,
        previous_credential_hash,
        replay_items,
        known_call_ids,
    };
    proof {
        let shown = context.deep_view();
        let owed = continuation_of(
            previous_view,
            shown.replay_items,
            items.deep_view(),
            handle_view,
        );
        assert(shown.known_call_ids =~= owed.known_call_ids);
        assert(shown =~= owed);
    }
    Ok(Some(context))
}

/// The first tool result in the input whose call is not known.
pub open spec fn unknown_call(input: Seq<InputView>, known: Set<Seq<char>>) -> Option<Seq<char>>
    decreases input.len(),
{
    if input.len() == 0 {
        None
    } else {
        match unknown_call(input.drop_last(), known) {
            Some(call_id) => Some(call_id),
            None => match input.last() {
                InputView::FunctionCallOutput { call_id, .. } => if known.contains(call_id) {
                    None
                } else {
                    Some(call_id)
                },
                _ => None,
            },
        }
    }
}

/// The refusal of a tool result whose call is not known.
pub open spec fn unknown_call_error(call_id: Seq<char>) -> ErrorView {
    error_of(ErrorKind::ToolMappingFailed, "Unknown tool result call_id '"@ + call_id + "'"@)
}

/// Refuses tool results whose calls are not known.
pub fn validate_tool_result_ids(
    canonical: &CanonicalResponseRequest,
    continuation: &ContinuationContext,
) -> (r: Result<(), Error>)
    ensures
        match r {
            Ok(_) => unknown_call(
                canonical.input.deep_view(),
                continuation.deep_view().known_call_ids,
            ) is None,
            Err(error) => unknown_call(
                canonical.input.deep_view(),
                continuation.deep_view().known_call_ids,
            ) matches Some(call_id) && error.deep_view() == unknown_call_error(call_id),
        },
{
    let ghost known = continuation.deep_view().known_call_ids;
    let ghost views = canonical.input.deep_view();
    let mut i: usize = 0;
    assert(views.take(0) =~= Seq::empty());
    while i < canonical.input.len()
        invariant
            i <= canonical.input.len(),
            known == continuation.deep_view().known_call_ids,
            views == canonical.input.deep_view(),
            unknown_call(views.take(i as int), known) is None,
        decreases canonical.input.len() - i,
    {
        assert(views.take(i + 1).drop_last() =~= views.take(i as int));
        if let CanonicalInputItem::FunctionCallOutput { call_id, output: _ } = &canonical.input[i] {
            if !is_among(&continuation.known_call_ids, call_id.as_str()) {
                proof {
                    assert(unknown_call(views.take(i + 1), known) == Some(call_id@));
                    lemma_unknown_call_prefix(views, known, i + 1);
                }
                return Err(
                    Error {
                        kind: ErrorKind::ToolMappingFailed,
                        message: join3("Unknown tool result call_id '", call_id.as_str(), "'"),
                    },
                );
            }
        }
        i = i + 1;
    }
    assert(views.take(views.len() as int) =~= views);
    Ok(())
}

proof fn lemma_unknown_call_prefix(input: Seq<InputView>, known: Set<Seq<char>>, k: int)
    requires
        0 <= k <= input.len(),
        unknown_call(input.take(k), known) is Some,
    ensures
        unknown_call(input, known) == unknown_call(input.take(k), known),
    decreases input.len() - k,
{
    if k == input.len() {
        assert(input.take(k) =~= input);
    } else {
        assert(input.take(k + 1).drop_last() =~= input.take(k));
        lemma_unknown_call_prefix(input, known, k + 1);
    }
}

/// The input of a request with the history, where there is one, in front.
pub open spec fn with_history(
    input: Seq<InputView>,
    continuation: Option<ContinuationView>,
) -> Seq<InputView> {
    match continuation {
        Some(continuation) => continuation.replay_items + input,
        None => input,
    }
}

/// The input of a request with the history, where there is one, in front.
pub fn replay_input_for_canonical(
    canonical: &CanonicalResponseRequest,
    continuation: Option<&ContinuationContext>,
) -> (r: Vec<CanonicalInputItem>)
    ensures
        r.deep_view() == with_history(canonical.input.deep_view(), continuation.deep_view()),
{
    let mut merged: Vec<CanonicalInputItem> = Vec::new();
    assert(merged.deep_view() =~= Seq::empty());
    if let Some(continuation) = continuation {
        append_inputs(&mut merged, &continuation.replay_items);
        assert(merged.deep_view() =~= continuation.replay_items.deep_view());
    }
    append_inputs(&mut merged, &canonical.input);
    assert(merged.deep_view() =~= with_history(
        canonical.input.deep_view(),
        continuation.deep_view(),
    ));
    merged
}

/// Whether the upstream's handle of the earlier response may be sent to a
/// target: it is there, and provider, model, protocol and credential are those
/// under which it was made.
pub open spec fn handle_usable(
    continuation: ContinuationView,
    target: SnapshotView,
    credential_hash: Seq<char>,
) -> bool {
    &&& continuation.previous_upstream_handle matches Some(handle) && handle.len() > 0
    &&& continuation.previous_provider_id == Some(target.provider_id)
    &&& continuation.previous_upstream_model == Some(target.upstream_model)
    &&& continuation.previous_wire_api matches Some(api) && (target.configured_wire_api == api
        || target.configured_wire_api == WireApi::Auto)
    &&& continuation.previous_credential_hash == Some(credential_hash)
}

/// Whether the upstream's handle of the earlier response may be sent to a
/// target. `current_hash` is the hash of the credential that the target would
/// be called with.
pub fn can_send_upstream_previous_response_id(
    continuation: &ContinuationContext,
    target: &TargetSnapshot,
    current_hash: &str,
) -> (r: bool)
    ensures
        r == handle_usable(continuation.deep_view(), target.deep_view(), current_hash@),
{
    let handle: &String = match &continuation.previous_upstream_handle {
        Some(handle) => handle,
        None => {
            return false;
        },
    };
    if handle.as_str().is_empty() {
        return false;
    }
    let provider_id: &String = match &continuation.previous_provider_id {
        Some(provider_id) => provider_id,
        None => {
            return false;
        },
    };
    let upstream_model: &String = match &continuation.previous_upstream_model {
        Some(upstream_model) => upstream_model,
        None => {
            return false;
        },
    };
    let wire_api: WireApi = match continuation.previous_wire_api {
        Some(wire_api) => wire_api,
        None => {
            return false;
        },
    };
    let credential_hash: &String = match &continuation.previous_credential_hash {
        Some(credential_hash) => credential_hash,
        None => {
            return false;
        },
    };
    if !same(target.provider_id.as_str(), provider_id.as_str()) {
        return false;
    }
    if !same(target.upstream_model.as_str(), upstream_model.as_str()) {
        return false;
    }
    if target.configured_wire_api != wire_api && target.configured_wire_api != WireApi::Auto {
        return false;
    }
    same(current_hash, credential_hash.as_str())
}

/// A request as it is sent to a target when it continues an earlier response.
pub open spec fn continued(
    request: RequestView,
    continuation: Option<ContinuationView>,
    target: SnapshotView,
    credential_hash: Seq<char>,
) -> Result<RequestView, ErrorView> {
    match continuation {
        None => Ok(request),
        Some(context) => match unknown_call(request.input, context.known_call_ids) {
            Some(call_id) => Err(unknown_call_error(call_id)),
            None => Ok(
                RequestView {
                    input: context.replay_items + request.input,
                    previous_response_id: if handle_usable(context, target, credential_hash) {
                        context.previous_upstream_handle
                    } else {
                        None
                    },
                    ..request
                },
            ),
        },
    }
}

/// Turns a request into what is sent to a target when it continues an earlier
/// response; leaves it unchanged on failure.
pub fn apply_continuation_to_canonical(
    canonical: &mut CanonicalResponseRequest,
    continuation: Option<&ContinuationContext>,
    target: &TargetSnapshot,
    current_hash: &str,
) -> (r: Result<(), Error>)
    ensures
        match r {
            Ok(_) => continued(
                old(canonical).deep_view(),
                continuation.deep_view(),
                target.deep_view(),
                current_hash@,
            ) == Ok::<RequestView, ErrorView>(final(canonical).deep_view()),
            Err(error) => {
                &&& continued(
                    old(canonical).deep_view(),
                    continuation.deep_view(),
                    target.deep_view(),
                    current_hash@,
                ) == Err::<RequestView, ErrorView>(error.deep_view())
                &&& final(canonical).deep_view() == old(canonical).deep_view()
            },
        },
{
    let context: &ContinuationContext = match continuation {
        Some(context) => context,
        None => {
            return Ok(());
        },
    };
    if let Err(error) = validate_tool_result_ids(canonical, context) {
        return Err(error);
    }
    canonical.input = replay_input_for_canonical(canonical, continuation);
    canonical.previous_response_id = if can_send_upstream_previous_response_id(
        context,
        target,
        current_hash,
    ) {
        copy_opt(&context.previous_upstream_handle)
    } else {
        None
    };
    Ok(())
}

/// Whether a request is to be sent once more, with the history in place of a
/// handle that the upstream no longer knows.
pub open spec fn wants_replay(request: RequestView, status: u16, body: Seq<u8>) -> bool {
    request.previous_response_id is Some && handle_missing(status, body)
}

/// Whether a request is to be sent once more, with the history in place of a
/// handle that the upstream no longer knows.
pub fn should_retry_with_replay_on_missing_handle(
    status: u16,
    body: &Vec<u8>,
    canonical: &CanonicalResponseRequest,
) -> (r: bool)
    ensures
        r == wants_replay(canonical.deep_view(), status, body@),
{
    if canonical.previous_response_id.is_none() {
        return false;
    }
    is_missing_handle(status, body)
}

/// A handle never leaves the place it was made in: it is sent only to the
/// provider and the model that made it, under the credential that it was made
/// with.
pub proof fn handle_stays_where_it_was_made(
    request: RequestView,
    continuation: ContinuationView,
    target: SnapshotView,
    credential_hash: Seq<char>,
)
    ensures
        continued(request, Some(continuation), target, credential_hash) matches Ok(sent) ==> (
        sent.previous_response_id is Some ==> {
            &&& sent.previous_response_id == continuation.previous_upstream_handle
            &&& continuation.previous_provider_id == Some(target.provider_id)
            &&& continuation.previous_upstream_model == Some(target.upstream_model)
            &&& continuation.previous_credential_hash == Some(credential_hash)
        }),
{
}

/// What a continued request sends upstream ends with its own input, whole and
/// in order, behind the whole history.
pub proof fn continuation_keeps_all_input(
    request: RequestView,
    continuation: ContinuationView,
    target: SnapshotView,
    credential_hash: Seq<char>,
)
    ensures
        continued(request, Some(continuation), target, credential_hash) matches Ok(sent) ==> {
            &&& sent.input.len() == continuation.replay_items.len() + request.input.len()
            &&& sent.input.take(continuation.replay_items.len() as int)
                == continuation.replay_items
            &&& sent.input.skip(continuation.replay_items.len() as int) == request.input
        },
{
    let all = continuation.replay_items + request.input;
    assert(all.take(continuation.replay_items.len() as int) =~= continuation.replay_items);
    assert(all.skip(continuation.replay_items.len() as int) =~= request.input);
}

/// The tool results of a request are accepted where each of them answers a known
/// call, and nowhere else. The one that is refused is the first in the input that
/// answers no known call.
pub proof fn tool_results_answer_known_calls(input: Seq<InputView>, known: Set<Seq<char>>)
    ensures
        unknown_call(input, known) is None <==> forall|i: int|
            0 <= i < input.len() ==> (#[trigger] input[i] is FunctionCallOutput ==> known.contains(
                input[i]->call_id,
            )),
        unknown_call(input, known) matches Some(call_id) ==> !known.contains(call_id) && exists|
            i: int,
        |
            0 <= i < input.len() && (#[trigger] input[i]) is FunctionCallOutput
                && input[i]->call_id == call_id && unknown_call(input.take(i), known) is None,
    decreases input.len(),
{
    if input.len() > 0 {
        let front = input.drop_last();
        tool_results_answer_known_calls(front, known);
        let last = input.len() - 1;
        assert forall|i: int| 0 <= i < front.len() implies front[i] == input[i] by {}
        assert(input.take(last) =~= front);
        match unknown_call(front, known) {
            Some(call_id) => {
                let i = choose|i: int|
                    0 <= i < front.len() && (#[trigger] front[i]) is FunctionCallOutput
                        && front[i]->call_id == call_id && unknown_call(front.take(i), known)
                        is None;
                assert(input[i] == front[i]);
                assert(front.take(i) =~= input.take(i));
                assert(!known.contains(input[i]->call_id));
            },
            None => {
                assert(input[last] == input.last());
                assert forall|i: int| 0 <= i < last && #[trigger] input[i]
                    is FunctionCallOutput implies known.contains(input[i]->call_id) by {
                    assert(front[i] == input[i]);
                }
            },
        }
    }
}

/// A refused tool result is reported as a mapping that failed, under its own id.
pub proof fn refusal_names_the_unknown_call(
    request: RequestView,
    continuation: ContinuationView,
    target: SnapshotView,
    credential_hash: Seq<char>,
)
    ensures
        continued(request, Some(continuation), target, credential_hash) matches Err(error) ==> {
            &&& error.kind == ErrorKind::ToolMappingFailed
            &&& exists|i: int|
                0 <= i < request.input.len() && (#[trigger] request.input[i]) is FunctionCallOutput
                    && !continuation.known_call_ids.contains(request.input[i]->call_id)
                    && contains_text(error.message, request.input[i]->call_id)
        },
        continued(request, Some(continuation), target, credential_hash) is Err <==> exists|i: int|
            0 <= i < request.input.len() && (#[trigger] request.input[i]) is FunctionCallOutput
                && !continuation.known_call_ids.contains(request.input[i]->call_id),
        continued(request, None, target, credential_hash) == Ok::<RequestView, ErrorView>(request),
{
    tool_results_answer_known_calls(request.input, continuation.known_call_ids);
    if let Some(call_id) = unknown_call(request.input, continuation.known_call_ids) {
        let front = "Unknown tool result call_id '"@;
        let message = unknown_call_error(call_id).message;
        assert(message.subrange(front.len() as int, (front.len() + call_id.len()) as int)
            =~= call_id);
        assert(occurs_at(message, call_id, front.len() as int));
    }
}

/// A request that is continued differs from what was asked in its input and in the
/// handle alone. The handle is sent just where it is one, and provider, model and
/// credential are those under which it was made, as is the protocol, unless that is
/// still to be probed.
pub proof fn continuation_changes_nothing_else(
    request: RequestView,
    continuation: ContinuationView,
    target: SnapshotView,
    credential_hash: Seq<char>,
)
    ensures
        continued(request, Some(continuation), target, credential_hash) matches Ok(sent) ==> {
            &&& sent == (RequestView {
                input: sent.input,
                previous_response_id: sent.previous_response_id,
                ..request
            })
            &&& sent.previous_response_id is Some ==> sent.previous_response_id
                == continuation.previous_upstream_handle
            &&& sent.previous_response_id is Some <==> {
                &&& continuation.previous_upstream_handle is Some
                &&& continuation.previous_upstream_handle->0.len() > 0
                &&& continuation.previous_provider_id == Some(target.provider_id)
                &&& continuation.previous_upstream_model == Some(target.upstream_model)
                &&& continuation.previous_credential_hash == Some(credential_hash)
                &&& continuation.previous_wire_api is Some
                &&& target.configured_wire_api is Auto || Some(target.configured_wire_api)
                    == continuation.previous_wire_api
            }
        },
{
}

/// The values that are there keep their order, and nothing else is kept.
pub proof fn present_keeps_the_values<T>(values: Seq<Option<T>>)
    ensures
        present(values) == values.filter(|value: Option<T>| value is Some).map_values(
            |value: Option<T>| value->0,
        ),
    decreases values.len(),
{
    reveal(Seq::filter);
    let is_there = |value: Option<T>| value is Some;
    let inner = |value: Option<T>| value->0;
    if values.len() > 0 {
        let front = values.drop_last();
        present_keeps_the_values(front);
        if values.last() is Some {
            assert(front.filter(is_there).push(values.last()).map_values(inner)
                =~= front.filter(is_there).map_values(inner).push(values.last()->0));
        }
    } else {
        assert(values.filter(is_there).map_values(inner) =~= Seq::empty());
    }
}

/// The blocks of an array that have a text are replayed as their texts, in order.
pub proof fn block_texts_are_the_texts(blocks: Seq<JsonView>)
    ensures
        block_texts(blocks) == blocks.filter(
            |block: JsonView| block.get_str("text"@) is Some,
        ).map_values(|block: JsonView| BlockView::Text { text: block.get_str("text"@)->0 }),
    decreases blocks.len(),
{
    reveal(Seq::filter);
    let has_text = |block: JsonView| block.get_str("text"@) is Some;
    let as_text = |block: JsonView| BlockView::Text { text: block.get_str("text"@)->0 };
    if blocks.len() > 0 {
        let front = blocks.drop_last();
        block_texts_are_the_texts(front);
        if has_text(blocks.last()) {
            assert(front.filter(has_text).push(blocks.last()).map_values(as_text)
                =~= front.filter(has_text).map_values(as_text).push(as_text(blocks.last())));
        }
    } else {
        assert(blocks.filter(has_text).map_values(as_text) =~= Seq::empty());
    }
}

/// Of a stored text, array of blocks or object with a text, the text is replayed;
/// of any other value nothing is.
pub proof fn stored_text_is_replayed(content: JsonView)
    ensures
        content matches JsonView::Text(text) ==> replay_blocks(content) == seq![
            BlockView::Text { text },
        ],
        content is Object ==> match content.get_str("text"@) {
            Some(text) => replay_blocks(content) == seq![BlockView::Text { text }],
            None => replay_blocks(content).len() == 0,
        },
        content matches JsonView::Array(blocks) ==> replay_blocks(content) == block_texts(blocks),
        !(content is Text || content is Object || content is Array) ==> replay_blocks(content).len()
            == 0,
{
}

/// What is replayed of a stored item: nothing of reasoning or of a hidden message;
/// of a shown message with text a message of the same role; of a call its arguments
/// under its own id, or under the fresh one where none was stored. Only an item of
/// another type cannot be replayed, and the error names that type.
pub proof fn stored_item_is_replayed_as_it_was(item: ItemView, fresh_call_id: Seq<char>)
    ensures
        item.item_type == "reasoning"@ ==> replayed_item(item, fresh_call_id) == Ok::<
            Option<InputView>,
            ErrorView,
        >(None),
        item.item_type == "message"@ ==> (replayed_item(item, fresh_call_id) matches Ok(input) && {
            let blocks = replay_blocks(stored_content(item.content_json));
            &&& input is Some <==> item.visible != 0 && blocks.len() > 0
            &&& input matches Some(message) ==> {
                &&& message is Message && message->Message_content == blocks
                &&& item.role is Some ==> message->role == item.role->0
                &&& item.role is None ==> message->role == "assistant"@
            }
        }),
        item.item_type == "function_call"@ ==> (replayed_item(item, fresh_call_id) matches Ok(
            Some(call),
        ) && {
            let arguments = stored_content(item.content_json).get_str("arguments"@);
            &&& call is FunctionCallOutput
            &&& item.call_id is Some ==> call->call_id == item.call_id->0
            &&& item.call_id is None ==> call->call_id == fresh_call_id
            &&& arguments is Some ==> call->output == arguments->0
            &&& arguments is None ==> call->output == "{}"@
        }),
        replayed_item(item, fresh_call_id) is Err <==> (item.item_type != "message"@
            && item.item_type != "function_call"@ && item.item_type != "reasoning"@),
        replayed_item(item, fresh_call_id) matches Err(error) ==> error.kind
            == ErrorKind::StateReplayFailed && contains_text(error.message, item.item_type),
{
    reveal_strlit("message");
    reveal_strlit("function_call");
    reveal_strlit("reasoning");
    assert("message"@.len() == 7 && "function_call"@.len() == 13 && "reasoning"@.len() == 9);
    if let Err(error) = replayed_item(item, fresh_call_id) {
        let front = "Unsupported persisted item type '"@;
        assert(error.message.subrange(
            front.len() as int,
            (front.len() + item.item_type.len()) as int,
        ) =~= item.item_type);
        assert(occurs_at(error.message, item.item_type, front.len() as int));
    }
}

/// The input that replays stored items is what each of them is replayed as, in
/// order, without those that leave nothing.
pub proof fn replay_keeps_the_order(items: Seq<ItemView>, fresh_call_ids: Seq<Seq<char>>)
    ensures
        replay_of(items, fresh_call_ids) matches Ok(input) ==> exists|each: Seq<Option<InputView>>|
            {
                &&& #[trigger] each.len() == items.len()
                &&& forall|i: int|
                    0 <= i < items.len() ==> replayed_item(items[i], fresh_call_ids[i]) == Ok::<
                        Option<InputView>,
                        ErrorView,
                    >(#[trigger] each[i])
                &&& input == each.filter(|value: Option<InputView>| value is Some).map_values(
                    |value: Option<InputView>| value->0,
                )
            },
{
    let results = replay_results(items, fresh_call_ids);
    if let Ok(each) = collected(results) {
        present_keeps_the_values(each);
        if items.len() > 0 {
            lemma_collected_values(results, 0);
        }
        assert forall|i: int| 0 <= i < items.len() implies replayed_item(
            items[i],
            fresh_call_ids[i],
        ) == Ok::<Option<InputView>, ErrorView>(#[trigger] each[i]) by {
            lemma_collected_values(results, i);
        }
        assert(each.len() == items.len());
    }
}

/// What is known of an earlier response is told by its own record, its own items
/// and its own handle: the handle and the credential come from the handle, provider,
/// model and protocol from the record, and a call is known just where the items
/// hold it.
pub proof fn continuation_is_of_the_earlier_response(
    raw: JsonView,
    previous: Result<Option<ResponseRecordView>, Seq<char>>,
    items: Result<Seq<ItemView>, Seq<char>>,
    fresh_call_ids: Seq<Seq<char>>,
    handle: Result<Option<HandleView>, Seq<char>>,
)
    ensures
        raw.get_str("previous_response_id"@) is None <==> loaded_continuation(
            raw,
            previous,
            items,
            fresh_call_ids,
            handle,
        ) == Ok::<Option<ContinuationView>, ErrorView>(None),
        loaded_continuation(raw, previous, items, fresh_call_ids, handle) matches Ok(
            Some(known),
        ) ==> {
            &&& previous matches Ok(Some(record)) && known.previous_provider_id
                == record.provider_id && known.previous_upstream_model == record.upstream_model && (
            match record.wire_api {
                Some(name) => match known.previous_wire_api {
                    Some(api) => api.name() == name,
                    None => wire_api_named(name) is None,
                },
                None => known.previous_wire_api is None,
            })
            &&& items matches Ok(items) && replay_of(items, fresh_call_ids) == Ok::<
                Seq<InputView>,
                ErrorView,
            >(known.replay_items) && forall|id: Seq<char>| #[trigger]
                known.known_call_ids.contains(id) <==> exists|i: int|
                    0 <= i < items.len() && (#[trigger] items[i]).item_type == "function_call"@
                        && items[i].call_id == Some(id)
            &&& handle matches Ok(handle) && (match handle {
                Some(handle) => known.previous_upstream_handle == handle.upstream_response_id
                    && known.previous_credential_hash == Some(handle.credential_hash),
                None => known.previous_upstream_handle is None && known.previous_credential_hash
                    is None,
            })
        },
{
}

/// A continuation is refused where the store knows no such response, where it
/// failed, and where an item cannot be replayed, and nowhere else.
pub proof fn continuation_fails_with_the_store(
    raw: JsonView,
    previous: Result<Option<ResponseRecordView>, Seq<char>>,
    items: Result<Seq<ItemView>, Seq<char>>,
    fresh_call_ids: Seq<Seq<char>>,
    handle: Result<Option<HandleView>, Seq<char>>,
)
    requires
        raw.get_str("previous_response_id"@) is Some,
    ensures
        loaded_continuation(raw, previous, items, fresh_call_ids, handle) is Ok <==> {
            &&& previous matches Ok(Some(_))
            &&& items matches Ok(items) && replay_of(items, fresh_call_ids) is Ok
            &&& handle is Ok
        },
        previous matches Ok(None) ==> loaded_continuation(
            raw,
            previous,
            items,
            fresh_call_ids,
            handle,
        )->Err_0.kind == ErrorKind::StateNotFound,
        (previous is Err || (previous matches Ok(Some(_)) && items is Err)) ==> loaded_continuation(
            raw,
            previous,
            items,
            fresh_call_ids,
            handle,
        )->Err_0.kind == ErrorKind::InternalError,
{
}

/// A request is sent once more just where it carried a handle and the upstream
/// answered, under status 400 or 404, that it does not know it.
pub proof fn replay_is_for_missing_handles(request: RequestView, status: u16, body: Seq<u8>)
    ensures
        wants_replay(request, status, body) ==> request.previous_response_id is Some && (status
            == 400 || status == 404),
        request.previous_response_id is Some ==> (wants_replay(request, status, body)
            <==> handle_missing(status, body)),
{
}

/// The history stands in front of the input, all of both in order.
pub proof fn history_comes_first(input: Seq<InputView>, continuation: ContinuationView)
    ensures
        with_history(input, Some(continuation)).take(continuation.replay_items.len() as int)
            == continuation.replay_items,
        with_history(input, Some(continuation)).skip(continuation.replay_items.len() as int)
            == input,
        with_history(input, None) == input,
{
    let all = with_history(input, Some(continuation));
    assert(all.take(continuation.replay_items.len() as int) =~= continuation.replay_items);
    assert(all.skip(continuation.replay_items.len() as int) =~= input);
}

/// A response that cannot be continued because it is not there is told by its id, and a
/// store that failed by what it said.
pub proof fn lost_response_is_told_by_its_id(
    raw: JsonView,
    id: Seq<char>,
    detail: Seq<char>,
    items: Result<Seq<ItemView>, Seq<char>>,
    fresh_call_ids: Seq<Seq<char>>,
    handle: Result<Option<HandleView>, Seq<char>>,
)
    requires
        raw.get_str("previous_response_id"@) == Some(id),
    ensures
        loaded_continuation(raw, Ok(None), items, fresh_call_ids, handle) matches Err(error)
            && contains_text(error.message, id),
        loaded_continuation(raw, Err(detail), items, fresh_call_ids, handle) matches Err(error)
            && contains_text(error.message, detail),
{
    part_is_contained("previous_response_id '"@, id, "' was not found"@);
    let front = "Failed to load previous response state: "@;
    part_is_contained(front, detail, Seq::empty());
    assert(front + detail + Seq::empty() =~= front + detail);
}

} // verus!

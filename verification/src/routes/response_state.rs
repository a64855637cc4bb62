//! Responses retrieval endpoints: a stored response, and its items.

use crate::canonical::ResponseUsage;
use crate::clock::{
    is_clock_second, parse_db_timestamp_to_unix, rfc3339_time, time_or, unix_now,
};
use crate::error::{
    collected, collected_is_all_or_the_first_error, error_of, lemma_collected_all,
    lemma_collected_step, outcome, Error, ErrorKind, ErrorView,
};
use crate::json::{
    add_item, add_member, array_of, json_of_text, lemma_holds, no_members, object_of,
    parse_json_array, parse_json_opt, parsed_array, text_value, Json, JsonView,
};
use crate::relay::continuation::{
    load_content, present, present_keeps_the_values, stored_content,
};
use crate::relay::request::{text_field_or, text_or};
use crate::relay::response::{DownstreamContentBlock, DownstreamOutputItem, ShownBlock, ShownItem};
use crate::store::{stored, ItemRecord, ItemView, ResponseRecord, ResponseRecordView};
use crate::text::{contains_text, join3, part_is_contained, same};
use vstd::prelude::*;

verus! {

/// A stored response as the client gets it.
#[derive(Debug)]
pub struct RetrievedResponse {
    pub id: String,
    pub object: &'static str,
    pub created_at: i64,
    pub model: String,
    pub status: String,
    pub output: Vec<DownstreamOutputItem>,
    pub usage: Option<ResponseUsage>,
}

/// The mathematical value of a [`RetrievedResponse`].
#[verifier::ext_equal]
pub struct RetrievedView {
    pub id: Seq<char>,
    pub object: Seq<char>,
    pub created_at: i64,
    pub model: Seq<char>,
    pub status: Seq<char>,
    pub output: Seq<ShownItem>,
    pub usage: Option<ResponseUsage>,
}

impl DeepView for RetrievedResponse {
    type V = RetrievedView;

    open spec fn deep_view(&self) -> RetrievedView {
        RetrievedView {
            id: self.id@,
            object: self.object@,
            created_at: self.created_at,
            model: self.model@,
            status: self.status@,
            output: self.output.deep_view(),
            usage: self.usage,
        }
    }
}

/// The texts of stored blocks, as the client is shown them.
pub open spec fn retrieved_texts(blocks: Seq<JsonView>) -> Seq<ShownBlock>
    decreases blocks.len(),
{
    if blocks.len() == 0 {
        Seq::empty()
    } else {
        let front = retrieved_texts(blocks.drop_last());
        match blocks.last().get_str("text"@) {
            Some(text) => front.push(
                ShownBlock::OutputText { text, annotations: Seq::empty() },
            ),
            None => front,
        }
    }
}

/// What the client is shown of a stored item; nothing of one of another kind. A
/// message whose content is no list of blocks cannot be shown.
pub open spec fn retrieved_item(item: ItemView) -> Result<Option<ShownItem>, ErrorView> {
    if item.item_type == "message"@ {
        match parsed_array(item.content_json) {
            Err(detail) => Err(
                error_of(
                    ErrorKind::StateReplayFailed,
                    "Invalid message content in persisted state: "@ + detail,
                ),
            ),
            Ok(blocks) => Ok(
                Some(
                    ShownItem::Message {
                        id: item.id,
                        status: "completed"@,
                        role: match item.role {
                            Some(role) => role,
                            None => "assistant"@,
                        },
                        content: retrieved_texts(blocks),
                    },
                ),
            ),
        }
    } else if item.item_type == "function_call"@ {
        let payload = stored_content(item.content_json);
        Ok(
            Some(
                ShownItem::FunctionCall {
                    id: item.id,
                    call_id: match item.call_id {
                        Some(call_id) => call_id,
                        None => ""@,
                    },
                    name: text_or(payload, "name"@, ""@),
                    arguments: text_or(payload, "arguments"@, "{}"@),
                    status: "completed"@,
                },
            ),
        )
    } else if item.item_type == "reasoning"@ {
        Ok(
            Some(
                ShownItem::Reasoning {
                    id: item.id,
                    summary: match parsed_array(item.content_json) {
                        Ok(summary) => summary,
                        Err(_) => Seq::empty(),
                    },
                },
            ),
        )
    } else {
        Ok(None)
    }
}

/// What the client is shown of each stored item.
pub open spec fn retrieved_results(items: Seq<ItemView>) -> Seq<
    Result<Option<ShownItem>, ErrorView>,
> {
    items.map_values(|item: ItemView| retrieved_item(item))
}

/// What the client is shown of stored items.
pub open spec fn retrieved_output(items: Seq<ItemView>) -> Result<Seq<ShownItem>, ErrorView> {
    match collected(retrieved_results(items)) {
        Ok(shown) => Ok(present(shown)),
        Err(error) => Err(error),
    }
}

fn texts_to_blocks(blocks: &Vec<Json>) -> (r: Vec<DownstreamContentBlock>)
    ensures
        r.deep_view() == retrieved_texts(blocks.deep_view()),
{
    let ghost views = blocks.deep_view();
    let mut content: Vec<DownstreamContentBlock> = Vec::new();
    let mut i: usize = 0;
    assert(views.take(0) =~= Seq::empty());
    assert(content.deep_view() =~= Seq::empty());
    while i < blocks.len()
        invariant
            i <= blocks.len(),
            views == blocks.deep_view(),
            content.deep_view() == retrieved_texts(views.take(i as int)),
        decreases blocks.len() - i,
    {
        assert(views.take(i + 1).drop_last() =~= views.take(i as int));
        if let Some(text) = blocks[i].get_str("text") {
            let ghost before = content.deep_view();
            let annotations: Vec<Json> = Vec::new();
            assert(annotations.deep_view() =~= Seq::empty());
            let block = DownstreamContentBlock::OutputText { text: text.to_owned(), annotations };
            let ghost shown = block.deep_view();
            content.push(block);
            assert(content.deep_view() =~= before.push(shown));
        }
        i = i + 1;
    }
    assert(views.take(views.len() as int) =~= views);
    content
}

fn opt_text_or(text: &Option<String>, default: &str) -> (r: String)
    ensures
        r@ == (match text.deep_view() {
            Some(text) => text,
            None => default@,
        }),
{
    match text {
        Some(text) => text.clone(),
        None => default.to_owned(),
    }
}

fn item_to_output(item: &ItemRecord) -> (r: Result<Option<DownstreamOutputItem>, Error>)
    ensures
        outcome(r) == retrieved_item(item.deep_view()),
{
    let item_type = item.item_type.as_str();
    if same(item_type, "message") {
        let blocks = match parse_json_array(item.content_json.as_str()) {
            Ok(blocks) => blocks,
            Err(detail) => {
                return Err(
                    Error::about(
                        ErrorKind::StateReplayFailed,
                        "Invalid message content in persisted state: ",
                        detail.as_str(),
                    ),
                );
            },
        };
        return Ok(
            Some(
                DownstreamOutputItem::Message {
                    id: item.id.clone(),
                    status: "completed",
                    role: opt_text_or(&item.role, "assistant"),
                    content: texts_to_blocks(&blocks),
                },
            ),
        );
    }
    if same(item_type, "function_call") {
        let payload = load_content(item.content_json.as_str());
        return Ok(
            Some(
                DownstreamOutputItem::FunctionCall {
                    id: item.id.clone(),
                    call_id: opt_text_or(&item.call_id, ""),
                    name: text_field_or(&payload, "name", "").to_owned(),
                    arguments: text_field_or(&payload, "arguments", "{}").to_owned(),
                    status: "completed",
                },
            ),
        );
    }
    if same(item_type, "reasoning") {
        let summary: Vec<Json> = match parse_json_array(item.content_json.as_str()) {
            Ok(summary) => summary,
            Err(_) => Vec::new(),
        };
        assert(parsed_array(item.content_json@) is Err ==> summary.deep_view() =~= Seq::empty());
        return Ok(Some(DownstreamOutputItem::Reasoning { id: item.id.clone(), summary }));
    }
    Ok(None)
}

/// What the client is shown of stored items.
pub fn items_to_output(items: &Vec<ItemRecord>) -> (r: Result<Vec<DownstreamOutputItem>, Error>)
    ensures
        outcome(r) == retrieved_output(items.deep_view()),
{
    let ghost results = retrieved_results(items.deep_view());
    let mut output: Vec<DownstreamOutputItem> = Vec::new();
    let ghost mut kept: Seq<Option<ShownItem>> = Seq::empty();
    let mut i: usize = 0;
    proof {
        lemma_collected_all(results);
        assert(output.deep_view() =~= Seq::empty());
    }
    while i < items.len()
        invariant
            i <= items.len(),
            results == retrieved_results(items.deep_view()),
            collected(results.take(i as int)) == Ok::<Seq<Option<ShownItem>>, ErrorView>(kept),
            output.deep_view() == present(kept),
        decreases items.len() - i,
    {
        proof {
            lemma_collected_step(results, i as int);
        }
        match item_to_output(&items[i]) {
            Ok(item) => {
                let ghost before = output.deep_view();
                proof {
                    assert(kept.push(item.deep_view()).drop_last() =~= kept);
                    kept = kept.push(item.deep_view());
                }
                if let Some(item) = item {
                    let ghost shown = item.deep_view();
                    output.push(item);
                    assert(output.deep_view() =~= before.push(shown));
                }
            },
            Err(error) => {
                return Err(error);
            },
        }
        i = i + 1;
    }
    proof {
        lemma_collected_all(results);
    }
    Ok(output)
}

/// A stored response, where the store holds it.
pub open spec fn found_response(
    response_id: Seq<char>,
    record: Result<Option<ResponseRecordView>, Seq<char>>,
) -> Result<ResponseRecordView, ErrorView> {
    match record {
        Err(detail) => Err(
            error_of(ErrorKind::InternalError, "Failed to read response state: "@ + detail),
        ),
        Ok(None) => Err(
            error_of(
                ErrorKind::StateNotFound,
                "Response '"@ + response_id + "' was not found"@,
            ),
        ),
        Ok(Some(record)) => Ok(record),
    }
}

/// A stored response, where the store holds it. `record` is what the store holds
/// under the id.
pub fn find_response(
    response_id: &str,
    record: Result<Option<ResponseRecord>, String>,
) -> (r: Result<ResponseRecord, Error>)
    ensures
        outcome(r) == found_response(response_id@, stored(record)),
{
    match record {
        Ok(Some(record)) => Ok(record),
        Ok(None) => Err(
            Error {
                kind: ErrorKind::StateNotFound,
                message: join3("Response '", response_id, "' was not found"),
            },
        ),
        Err(detail) => Err(
            Error::about(
                ErrorKind::InternalError,
                "Failed to read response state: ",
                detail.as_str(),
            ),
        ),
    }
}

/// A stored response as the client gets it. A time of creation that cannot be
/// read counts as `now`.
pub open spec fn retrieved(
    response_id: Seq<char>,
    record: Result<Option<ResponseRecordView>, Seq<char>>,
    items: Result<Seq<ItemView>, Seq<char>>,
    usage: Option<ResponseUsage>,
    now: i64,
) -> Result<RetrievedView, ErrorView> {
    match found_response(response_id, record) {
        Err(error) => Err(error),
        Ok(response) => match items {
            Err(detail) => Err(
                error_of(ErrorKind::InternalError, "Failed to load response items: "@ + detail),
            ),
            Ok(items) => match retrieved_output(items) {
                Err(error) => Err(error),
                Ok(output) => Ok(
                    RetrievedView {
                        id: response.id,
                        object: "response"@,
                        created_at: match rfc3339_time(response.created_at) {
                            Some(time) => time,
                            None => now,
                        },
                        model: response.downstream_model,
                        status: response.status,
                        output,
                        usage,
                    },
                ),
            },
        },
    }
}

/// A stored response as the client gets it at a time. `usage` is what the
/// response's stored usage reads as.
pub fn load_response_payload_at(
    response_id: &str,
    record: Result<Option<ResponseRecord>, String>,
    items: Result<Vec<ItemRecord>, String>,
    usage: Option<ResponseUsage>,
    now: i64,
) -> (r: Result<RetrievedResponse, Error>)
    ensures
        outcome(r) == retrieved(response_id@, stored(record), stored(items), usage, now),
{
    let response = match find_response(response_id, record) {
        Ok(response) => response,
        Err(error) => {
            return Err(error);
        },
    };
    let items = match items {
        Ok(items) => items,
        Err(detail) => {
            return Err(
                Error::about(
                    ErrorKind::InternalError,
                    "Failed to load response items: ",
                    detail.as_str(),
                ),
            );
        },
    };
    let output = match items_to_output(&items) {
        Ok(output) => output,
        Err(error) => {
            return Err(error);
        },
    };
    Ok(
        RetrievedResponse {
            id: response.id,
            object: "response",
            created_at: time_or(parse_db_timestamp_to_unix(response.created_at.as_str()), now),
            model: response.downstream_model,
            status: response.status,
            output,
            usage,
        },
    )
}

/// A stored response as the client gets it now.
pub fn load_response_payload(
    response_id: &str,
    record: Result<Option<ResponseRecord>, String>,
    items: Result<Vec<ItemRecord>, String>,
    usage: Option<ResponseUsage>,
) -> (r: Result<RetrievedResponse, Error>)
    ensures
        exists|now: i64| #[trigger]
            retrieved(response_id@, stored(record), stored(items), usage, now) == outcome(r)
                && is_clock_second(now),
{
    let now: i64 = unix_now();
    let r = load_response_payload_at(response_id, record, items, usage, now);
    assert(retrieved(response_id@, stored(record), stored(items), usage, now) == outcome(r));
    r
}

/// The stored content of an item; an empty list where it is no JSON.
pub open spec fn content_or_list(content_json: Seq<char>) -> JsonView {
    match json_of_text(content_json) {
        Some(value) => value,
        None => JsonView::Array(Seq::empty()),
    }
}

fn load_content_or_list(content_json: &str) -> (r: Json)
    ensures
        r@ == content_or_list(content_json@),
{
    match parse_json_opt(content_json) {
        Some(value) => value,
        None => {
            let items: Vec<Json> = Vec::new();
            assert(items.deep_view() =~= Seq::empty());
            array_of(items)
        },
    }
}

/// A message as an item of the input list.
pub open spec fn message_entry(item: ItemView, default_role: Seq<char>) -> JsonView {
    JsonView::Object(
        seq![
            ("content"@, content_or_list(item.content_json)),
            ("id"@, JsonView::Text(item.id)),
            (
                "role"@,
                JsonView::Text(
                    match item.role {
                        Some(role) => role,
                        None => default_role,
                    },
                ),
            ),
            ("type"@, JsonView::Text("message"@)),
        ],
    )
}

/// The id of the call of an item, or nothing.
pub open spec fn call_id_of(item: ItemView) -> Seq<char> {
    match item.call_id {
        Some(call_id) => call_id,
        None => ""@,
    }
}

/// A call as an item of the input list.
pub open spec fn call_item_entry(item: ItemView) -> JsonView {
    let payload = stored_content(item.content_json);
    JsonView::Object(
        seq![
            ("arguments"@, JsonView::Text(text_or(payload, "arguments"@, "{}"@))),
            ("call_id"@, JsonView::Text(call_id_of(item))),
            ("id"@, JsonView::Text(item.id)),
            ("name"@, JsonView::Text(text_or(payload, "name"@, ""@))),
            ("type"@, JsonView::Text("function_call"@)),
        ],
    )
}

/// A stored item as one of the input list.
pub open spec fn listed_item(item: ItemView) -> JsonView {
    if item.item_type == "input_message"@ {
        message_entry(item, "user"@)
    } else if item.item_type == "function_call_output"@ {
        let payload = stored_content(item.content_json);
        JsonView::Object(
            seq![
                ("call_id"@, JsonView::Text(call_id_of(item))),
                ("id"@, JsonView::Text(item.id)),
                ("output"@, JsonView::Text(text_or(payload, "output"@, ""@))),
                ("type"@, JsonView::Text("function_call_output"@)),
            ],
        )
    } else if item.item_type == "message"@ {
        message_entry(item, "assistant"@)
    } else if item.item_type == "input_function_call"@ || item.item_type == "function_call"@ {
        call_item_entry(item)
    } else if item.item_type == "reasoning"@ {
        JsonView::Object(
            seq![
                ("id"@, JsonView::Text(item.id)),
                ("summary"@, content_or_list(item.content_json)),
                ("type"@, JsonView::Text("reasoning"@)),
            ],
        )
    } else {
        JsonView::Object(
            seq![
                ("content"@, JsonView::Text(item.content_json)),
                ("id"@, JsonView::Text(item.id)),
                ("type"@, JsonView::Text(item.item_type)),
            ],
        )
    }
}

fn message_entry_value(item: &ItemRecord, default_role: &str) -> (r: Json)
    ensures
        r@ == message_entry(item.deep_view(), default_role@),
{
    let role = opt_text_or(&item.role, default_role);
    let mut members = no_members();
    add_member(&mut members, "content", load_content_or_list(item.content_json.as_str()));
    add_member(&mut members, "id", text_value(item.id.as_str()));
    add_member(&mut members, "role", text_value(role.as_str()));
    add_member(&mut members, "type", text_value("message"));
    assert(members.deep_view() =~= message_entry(item.deep_view(), default_role@)->Object_0);
    object_of(members)
}

fn call_entry_value(item: &ItemRecord) -> (r: Json)
    ensures
        r@ == call_item_entry(item.deep_view()),
{
    let payload = load_content(item.content_json.as_str());
    let call_id = opt_text_or(&item.call_id, "");
    let mut members = no_members();
    add_member(
        &mut members,
        "arguments",
        text_value(text_field_or(&payload, "arguments", "{}")),
    );
    add_member(&mut members, "call_id", text_value(call_id.as_str()));
    add_member(&mut members, "id", text_value(item.id.as_str()));
    add_member(&mut members, "name", text_value(text_field_or(&payload, "name", "")));
    add_member(&mut members, "type", text_value("function_call"));
    assert(members.deep_view() =~= call_item_entry(item.deep_view())->Object_0);
    object_of(members)
}

/// A stored item as one of the input list.
pub fn item_to_api_value(item: &ItemRecord) -> (r: Json)
    ensures
        r@ == listed_item(item.deep_view()),
{
    let item_type = item.item_type.as_str();
    if same(item_type, "input_message") {
        return message_entry_value(item, "user");
    }
    if same(item_type, "function_call_output") {
        let payload = load_content(item.content_json.as_str());
        let call_id = opt_text_or(&item.call_id, "");
        let mut members = no_members();
        add_member(&mut members, "call_id", text_value(call_id.as_str()));
        add_member(&mut members, "id", text_value(item.id.as_str()));
        add_member(&mut members, "output", text_value(text_field_or(&payload, "output", "")));
        add_member(&mut members, "type", text_value("function_call_output"));
        assert(members.deep_view() =~= listed_item(item.deep_view())->Object_0);
        return object_of(members);
    }
    if same(item_type, "message") {
        return message_entry_value(item, "assistant");
    }
    if same(item_type, "input_function_call") || same(item_type, "function_call") {
        return call_entry_value(item);
    }
    let mut members = no_members();
    if same(item_type, "reasoning") {
        add_member(&mut members, "id", text_value(item.id.as_str()));
        add_member(&mut members, "summary", load_content_or_list(item.content_json.as_str()));
        add_member(&mut members, "type", text_value("reasoning"));
    } else {
        add_member(&mut members, "content", text_value(item.content_json.as_str()));
        add_member(&mut members, "id", text_value(item.id.as_str()));
        add_member(&mut members, "type", text_value(item_type));
    }
    assert(members.deep_view() =~= listed_item(item.deep_view())->Object_0);
    object_of(members)
}

/// The input list of a response.
pub open spec fn input_list(
    response_id: Seq<char>,
    record: Result<Option<ResponseRecordView>, Seq<char>>,
    items: Result<Seq<ItemView>, Seq<char>>,
) -> Result<Seq<JsonView>, ErrorView> {
    match found_response(response_id, record) {
        Err(error) => Err(error),
        Ok(_) => match items {
            Err(detail) => Err(
                error_of(
                    ErrorKind::InternalError,
                    "Failed to load response input items: "@ + detail,
                ),
            ),
            Ok(items) => Ok(items.map_values(|item: ItemView| listed_item(item))),
        },
    }
}

/// The input list of a response.
pub fn get_response_input_items(
    response_id: &str,
    record: Result<Option<ResponseRecord>, String>,
    items: Result<Vec<ItemRecord>, String>,
) -> (r: Result<Vec<Json>, Error>)
    ensures
        outcome(r) == input_list(response_id@, stored(record), stored(items)),
{
    if let Err(error) = find_response(response_id, record) {
        return Err(error);
    }
    let items = match items {
        Ok(items) => items,
        Err(detail) => {
            return Err(
                Error::about(
                    ErrorKind::InternalError,
                    "Failed to load response input items: ",
                    detail.as_str(),
                ),
            );
        },
    };
    let ghost wanted = items.deep_view().map_values(|item: ItemView| listed_item(item));
    let mut data: Vec<Json> = Vec::new();
    let mut i: usize = 0;
    assert(data.deep_view() =~= wanted.take(0));
    while i < items.len()
        invariant
            i <= items.len(),
            wanted == items.deep_view().map_values(|item: ItemView| listed_item(item)),
            data.deep_view() == wanted.take(i as int),
        decreases items.len() - i,
    {
        add_item(&mut data, item_to_api_value(&items[i]));
        assert(data.deep_view() =~= wanted.take(i + 1));
        i = i + 1;
    }
    assert(wanted.take(wanted.len() as int) =~= wanted);
    Ok(data)
}

/// The texts of stored blocks are shown, all of them and in order, without
/// annotations.
pub proof fn stored_texts_are_shown(blocks: Seq<JsonView>)
    ensures
        retrieved_texts(blocks) == blocks.filter(
            |block: JsonView| block.get_str("text"@) is Some,
        ).map_values(
            |block: JsonView|
                ShownBlock::OutputText {
                    text: block.get_str("text"@)->0,
                    annotations: Seq::empty(),
                },
        ),
    decreases blocks.len(),
{
    reveal(Seq::filter);
    let has_text = |block: JsonView| block.get_str("text"@) is Some;
    let shown = |block: JsonView|
        ShownBlock::OutputText {
            text: block.get_str("text"@)->0,
            annotations: Seq::<JsonView>::empty(),
        };
    if blocks.len() > 0 {
        let front = blocks.drop_last();
        stored_texts_are_shown(front);
        if has_text(blocks.last()) {
            assert(front.filter(has_text).push(blocks.last()).map_values(shown) =~= front.filter(
                has_text,
            ).map_values(shown).push(shown(blocks.last())));
        }
    } else {
        assert(blocks.filter(has_text).map_values(shown) =~= Seq::empty());
    }
}

/// A stored item is shown under its own id, by its type: a message with its role and
/// its texts, a call with its call id, name and arguments, reasoning with its summary;
/// an item of another type is not shown. Only a message whose content is no list cannot
/// be shown.
pub proof fn stored_item_is_shown_by_its_type(item: ItemView)
    ensures
        item.item_type == "message"@ ==> match (
            parsed_array(item.content_json),
            retrieved_item(item),
        ) {
            (Ok(blocks), Ok(Some(ShownItem::Message { id, status, role, content }))) => id
                == item.id && status == "completed"@ && content == retrieved_texts(blocks) && (
            item.role matches Some(own) ==> role == own) && (item.role is None ==> role
                == "assistant"@),
            (Err(_), Err(error)) => error.kind == ErrorKind::StateReplayFailed,
            _ => false,
        },
        item.item_type == "function_call"@ ==> match retrieved_item(item) {
            Ok(Some(ShownItem::FunctionCall { id, call_id, name, arguments, status })) => {
                let payload = stored_content(item.content_json);
                &&& id == item.id && status == "completed"@
                &&& item.call_id matches Some(own) ==> call_id == own
                &&& item.call_id is None ==> call_id == ""@
                &&& payload.get_str("name"@) matches Some(own) ==> name == own
                &&& payload.get_str("name"@) is None ==> name == ""@
                &&& payload.get_str("arguments"@) matches Some(own) ==> arguments == own
                &&& payload.get_str("arguments"@) is None ==> arguments == "{}"@
            },
            _ => false,
        },
        item.item_type == "reasoning"@ ==> match retrieved_item(item) {
            Ok(Some(ShownItem::Reasoning { id, summary })) => id == item.id && match parsed_array(
                item.content_json,
            ) {
                Ok(parts) => summary == parts,
                Err(_) => summary.len() == 0,
            },
            _ => false,
        },
        item.item_type != "message"@ && item.item_type != "function_call"@ && item.item_type
            != "reasoning"@ ==> retrieved_item(item) == Ok::<Option<ShownItem>, ErrorView>(None),
{
    reveal_strlit("message");
    reveal_strlit("function_call");
    reveal_strlit("reasoning");
    assert("message"@.len() == 7 && "function_call"@.len() == 13 && "reasoning"@.len() == 9);
}

/// A stored response is told by its own row and its own items, in their order; a time
/// that cannot be read counts as now. It is found just where the store holds it and
/// all its items can be shown.
pub proof fn stored_response_is_told_by_its_rows(
    response_id: Seq<char>,
    record: Result<Option<ResponseRecordView>, Seq<char>>,
    items: Result<Seq<ItemView>, Seq<char>>,
    usage: Option<ResponseUsage>,
    now: i64,
)
    ensures
        ({
            let r = retrieved(response_id, record, items, usage, now);
            &&& r is Ok <==> {
                &&& record is Ok && record->Ok_0 is Some && items is Ok
                &&& forall|i: int|
                    0 <= i < items->Ok_0.len() ==> retrieved_item(#[trigger] items->Ok_0[i]) is Ok
            }
            &&& r matches Ok(told) ==> {
                let row = record->Ok_0->0;
                &&& told.id == row.id && told.model == row.downstream_model && told.status
                    == row.status && told.object == "response"@ && told.usage == usage
                &&& rfc3339_time(row.created_at) matches Some(time) ==> told.created_at == time
                &&& rfc3339_time(row.created_at) is None ==> told.created_at == now
                &&& told.output == items->Ok_0.map_values(
                    |item: ItemView| retrieved_item(item)->Ok_0,
                ).filter(|shown: Option<ShownItem>| shown is Some).map_values(
                    |shown: Option<ShownItem>| shown->0,
                )
            }
            &&& record is Err ==> r->Err_0.kind == ErrorKind::InternalError
            &&& record == Ok::<Option<ResponseRecordView>, Seq<char>>(None) ==> r->Err_0.kind
                == ErrorKind::StateNotFound
        }),
{
    if let Ok(items) = items {
        let results = retrieved_results(items);
        collected_is_all_or_the_first_error(results);
        if let Ok(each) = collected(results) {
            present_keeps_the_values(each);
            assert forall|i: int| 0 <= i < items.len() implies retrieved_item(#[trigger] items[i])
                is Ok by {
                assert(results[i] is Ok);
            }
            assert forall|i: int| 0 <= i < items.len() implies #[trigger] each[i] == retrieved_item(
                items[i],
            )->Ok_0 by {
                assert(results[i] == Ok::<Option<ShownItem>, ErrorView>(each[i]));
            }
            assert(each =~= items.map_values(|item: ItemView| retrieved_item(item)->Ok_0));
        } else {
            let k = choose|k: int|
                0 <= k < results.len() && #[trigger] results[k] == Err::<
                    Option<ShownItem>,
                    ErrorView,
                >(collected(results)->Err_0);
            assert(retrieved_item(items[k]) is Err);
        }
    }
}

/// An item of the input list carries its own id and its own type, as clients name them,
/// with its role and content, or its call id with its name and arguments or its output.
pub proof fn input_item_is_listed_by_its_type(item: ItemView)
    ensures
        ({
            let listed = listed_item(item);
            let payload = stored_content(item.content_json);
            let call_id = match item.call_id {
                Some(call_id) => call_id,
                None => ""@,
            };
            let arguments = match payload.get_str("arguments"@) {
                Some(arguments) => arguments,
                None => "{}"@,
            };
            &&& listed.holds("id"@, JsonView::Text(item.id))
            &&& item.item_type == "input_message"@ || item.item_type == "message"@ ==> {
                &&& listed.holds("type"@, JsonView::Text("message"@))
                &&& item.role matches Some(role) ==> listed.holds("role"@, JsonView::Text(role))
                &&& listed.holds("content"@, content_or_list(item.content_json))
            }
            &&& item.role is None && item.item_type == "input_message"@ ==> listed.holds(
                "role"@,
                JsonView::Text("user"@),
            )
            &&& item.role is None && item.item_type == "message"@ ==> listed.holds(
                "role"@,
                JsonView::Text("assistant"@),
            )
            &&& item.item_type == "function_call_output"@ ==> {
                &&& listed.holds("type"@, JsonView::Text("function_call_output"@))
                &&& listed.holds("call_id"@, JsonView::Text(call_id))
                &&& payload.get_str("output"@) matches Some(output) ==> listed.holds(
                    "output"@,
                    JsonView::Text(output),
                )
                &&& payload.get_str("output"@) is None ==> listed.holds(
                    "output"@,
                    JsonView::Text(""@),
                )
            }
            &&& item.item_type == "input_function_call"@ || item.item_type == "function_call"@ ==> {
                &&& listed.holds("type"@, JsonView::Text("function_call"@))
                &&& listed.holds("call_id"@, JsonView::Text(call_id))
                &&& listed.holds("arguments"@, JsonView::Text(arguments))
                &&& payload.get_str("name"@) matches Some(name) ==> listed.holds(
                    "name"@,
                    JsonView::Text(name),
                )
                &&& payload.get_str("name"@) is None ==> listed.holds("name"@, JsonView::Text(""@))
            }
            &&& item.item_type == "reasoning"@ ==> {
                &&& listed.holds("type"@, JsonView::Text("reasoning"@))
                &&& listed.holds("summary"@, content_or_list(item.content_json))
            }
        }),
{
    reveal_strlit("input_message");
    reveal_strlit("function_call_output");
    reveal_strlit("message");
    reveal_strlit("input_function_call");
    reveal_strlit("function_call");
    reveal_strlit("reasoning");
    assert("input_message"@.len() == 13 && "function_call_output"@.len() == 20);
    assert("message"@.len() == 7 && "input_function_call"@.len() == 19);
    assert("function_call"@.len() == 13 && "reasoning"@.len() == 9);
    assert("input_message"@[0] != "function_call"@[0]);
    let listed = listed_item(item);
    lemma_holds(listed, 0);
    lemma_holds(listed, 1);
    lemma_holds(listed, 2);
    if listed->Object_0.len() > 3 {
        lemma_holds(listed, 3);
    }
    if listed->Object_0.len() > 4 {
        lemma_holds(listed, 4);
    }
}

/// The input list holds each stored item, in order, where the response is there and its
/// items could be read.
pub proof fn input_list_keeps_the_order(
    response_id: Seq<char>,
    record: Result<Option<ResponseRecordView>, Seq<char>>,
    items: Result<Seq<ItemView>, Seq<char>>,
)
    ensures
        input_list(response_id, record, items) is Ok <==> record is Ok && record->Ok_0 is Some
            && items is Ok,
        input_list(response_id, record, items) matches Ok(listed) ==> {
            &&& listed.len() == items->Ok_0.len()
            &&& forall|i: int|
                0 <= i < listed.len() ==> #[trigger] listed[i] == listed_item(items->Ok_0[i])
        },
        record == Ok::<Option<ResponseRecordView>, Seq<char>>(None) ==> input_list(
            response_id,
            record,
            items,
        )->Err_0.kind == ErrorKind::StateNotFound,
{
}

/// A response that is not there is told by its id.
pub proof fn missing_response_is_told_by_its_id(
    response_id: Seq<char>,
    record: Result<Option<ResponseRecordView>, Seq<char>>,
)
    ensures
        record == Ok::<Option<ResponseRecordView>, Seq<char>>(None) ==> (found_response(
            response_id,
            record,
        ) matches Err(error) && error.kind == ErrorKind::StateNotFound && contains_text(
            error.message,
            response_id,
        )),
        record matches Err(detail) ==> (found_response(response_id, record) matches Err(error)
            && error.kind == ErrorKind::InternalError && contains_text(error.message, detail)),
        record matches Ok(Some(found)) ==> found_response(response_id, record) == Ok::<
            ResponseRecordView,
            ErrorView,
        >(found),
{
    part_is_contained("Response '"@, response_id, "' was not found"@);
    if let Err(detail) = record {
        let front = "Failed to read response state: "@;
        part_is_contained(front, detail, Seq::empty());
        assert(front + detail + Seq::empty() =~= front + detail);
    }
}

} // verus!

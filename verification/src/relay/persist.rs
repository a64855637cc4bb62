//! Storing a response so that it can be continued later.

use crate::canonical::{
    wire_api_name_round_trip, wire_api_named, BlockView, InputView, OutputView,
};
use crate::error::{collected, ErrorView};
use crate::ids::fresh_v7;
use crate::json::{
    add_item, add_member, array_of, canonical, depth, json_of_text, lemma_max_depth,
    lemma_max_member_depth, member, no_members, object_of, parsed_array, render_json, rendered_json,
    rereadable, text_less, text_value, Json, JsonView,
};
use crate::relay::context::{ResolvedTargetProtocol, ResolvedView};
use crate::relay::continuation::{block_texts, replay_blocks, replayed_item};
use crate::relay::response::{
    copy_values, shown_item, shown_texts, DownstreamContentBlock, DownstreamOutputItem,
    DownstreamResponse, ItemIdsView, ShownBlock, ShownItem, ShownResponse,
};
use crate::relay::target::{RouteSnapshot, RouteSnapshotView, SnapshotView, TargetSnapshot};
use crate::routes::response_state::{
    retrieved_item, retrieved_output, retrieved_results, retrieved_texts,
};
use crate::store::{
    read_back, HandleInsertView, ItemInsertView, ItemView, ResponseInsert, ResponseInsertView,
    ResponseItemInsert, UpstreamHandleInsert,
};
use crate::text::{copy_opt, join2, occurs_at};
use vstd::prelude::*;

verus! {

/// A content block as it is stored.
pub open spec fn stored_block(block: ShownBlock) -> JsonView {
    match block {
        ShownBlock::OutputText { text, annotations } => JsonView::Object(
            seq![
                ("annotations"@, JsonView::Array(annotations)),
                ("text"@, JsonView::Text(text)),
                ("type"@, JsonView::Text("output_text"@)),
            ],
        ),
    }
}

/// The content of a message as it is stored.
pub open spec fn stored_blocks(content: Seq<ShownBlock>) -> JsonView {
    JsonView::Array(Seq::new(content.len(), |i: int| stored_block(content[i])))
}

/// A function call as it is stored.
pub open spec fn stored_call(name: Seq<char>, arguments: Seq<char>) -> JsonView {
    JsonView::Object(
        seq![("arguments"@, JsonView::Text(arguments)), ("name"@, JsonView::Text(name))],
    )
}

/// The row under which an output item is stored. Reasoning is not visible.
pub open spec fn item_row(
    response_id: Seq<char>,
    sequence: i64,
    item: ShownItem,
) -> ItemInsertView {
    match item {
        ShownItem::Message { id, role, content, .. } => ItemInsertView {
            id,
            response_id,
            sequence,
            item_type: "message"@,
            role: Some(role),
            call_id: None,
            content_json: rendered_json(stored_blocks(content)),
            visible: true,
        },
        ShownItem::FunctionCall { id, call_id, name, arguments, .. } => ItemInsertView {
            id,
            response_id,
            sequence,
            item_type: "function_call"@,
            role: None,
            call_id: Some(call_id),
            content_json: rendered_json(stored_call(name, arguments)),
            visible: true,
        },
        ShownItem::Reasoning { id, summary } => ItemInsertView {
            id,
            response_id,
            sequence,
            item_type: "reasoning"@,
            role: None,
            call_id: None,
            content_json: rendered_json(JsonView::Array(summary)),
            visible: false,
        },
    }
}

fn block_json(block: &DownstreamContentBlock) -> (r: Json)
    ensures
        r@ == stored_block(block.deep_view()),
{
    match block {
        DownstreamContentBlock::OutputText { text, annotations } => {
            let mut members = no_members();
            add_member(&mut members, "annotations", array_of(copy_values(annotations)));
            add_member(&mut members, "text", text_value(text.as_str()));
            add_member(&mut members, "type", text_value("output_text"));
            assert(members.deep_view() =~= stored_block(block.deep_view())->Object_0);
            object_of(members)
        },
    }
}

/// The row under which an output item is stored. Read back, it is replayed as
/// what the client was sent, and the client that asks for it again gets the same
/// item.
pub fn persist_response_item(
    response_id: &str,
    sequence: i64,
    item: &DownstreamOutputItem,
) -> (r: ResponseItemInsert)
    ensures
        r.deep_view() == item_row(response_id@, sequence, item.deep_view()),
        unannotated(item.deep_view()) ==> forall|fresh: Seq<char>| #[trigger]
            replayed_item(read_back(r.deep_view()), fresh) == Ok::<Option<InputView>, ErrorView>(
                replay_of_shown(item.deep_view()),
            ),
        retrievable(item.deep_view()) ==> retrieved_item(read_back(r.deep_view())) == Ok::<
            Option<ShownItem>,
            ErrorView,
        >(Some(item.deep_view())),
{
    let ghost shown = item.deep_view();
    let r = row_for_item(response_id, sequence, item);
    proof {
        if unannotated(shown) {
            lemma_row_replays(shown, response_id@, sequence);
        }
        if retrievable(shown) {
            lemma_row_retrieved(shown, response_id@, sequence);
        }
    }
    r
}

/// Whether a text reads as an array, where any value is asked for and where an
/// array is.
pub open spec fn reads_as(text: Seq<char>, array: JsonView) -> bool {
    &&& json_of_text(text) == Some(array)
    &&& parsed_array(text) == Ok::<Seq<JsonView>, Seq<char>>(array->Array_0)
}

fn row_for_item(response_id: &str, sequence: i64, item: &DownstreamOutputItem) -> (r:
    ResponseItemInsert)
    ensures
        r.deep_view() == item_row(response_id@, sequence, item.deep_view()),
        item.deep_view() matches ShownItem::Message { content, .. } ==> (unannotated(
            item.deep_view(),
        ) ==> reads_as(rendered_json(stored_blocks(content)), stored_blocks(content))),
        item.deep_view() matches ShownItem::FunctionCall { name, arguments, .. } ==> json_of_text(
            rendered_json(stored_call(name, arguments)),
        ) == Some(stored_call(name, arguments)),
        item.deep_view() matches ShownItem::Reasoning { summary, .. } ==> (rereadable(
            JsonView::Array(summary),
        ) ==> reads_as(rendered_json(JsonView::Array(summary)), JsonView::Array(summary))),
{
    match item {
        DownstreamOutputItem::Message { id, status: _, role, content } => {
            let ghost views = content.deep_view();
            let mut blocks: Vec<Json> = Vec::new();
            let mut i: usize = 0;
            while i < content.len()
                invariant
                    i <= content.len(),
                    views == content.deep_view(),
                    blocks.deep_view() =~= Seq::new(i as nat, |k: int| stored_block(views[k])),
                decreases content.len() - i,
            {
                let block = block_json(&content[i]);
                add_item(&mut blocks, block);
                i = i + 1;
            }
            let json = array_of(blocks);
            assert(json@->Array_0 =~= stored_blocks(views)->Array_0);
            proof {
                if unannotated(item.deep_view()) {
                    lemma_stored_blocks_reread(views);
                }
            }
            ResponseItemInsert {
                id: id.clone(),
                response_id: response_id.to_owned(),
                sequence,
                item_type: "message".to_owned(),
                role: Some(role.clone()),
                call_id: None,
                content_json: render_json(&json),
                visible: true,
            }
        },
        DownstreamOutputItem::FunctionCall { id, call_id, name, arguments, status: _ } => {
            let mut members = no_members();
            add_member(&mut members, "arguments", text_value(arguments.as_str()));
            add_member(&mut members, "name", text_value(name.as_str()));
            assert(members.deep_view() =~= stored_call(name@, arguments@)->Object_0);
            let json = object_of(members);
            proof {
                lemma_stored_call_rereads(name@, arguments@);
            }
            ResponseItemInsert {
                id: id.clone(),
                response_id: response_id.to_owned(),
                sequence,
                item_type: "function_call".to_owned(),
                role: None,
                call_id: Some(call_id.clone()),
                content_json: render_json(&json),
                visible: true,
            }
        },
        DownstreamOutputItem::Reasoning { id, summary } => {
            let json = array_of(copy_values(summary));
            ResponseItemInsert {
                id: id.clone(),
                response_id: response_id.to_owned(),
                sequence,
                item_type: "reasoning".to_owned(),
                role: None,
                call_id: None,
                content_json: render_json(&json),
                visible: false,
            }
        },
    }
}

/// The rows of a response: the response itself first, then the handle of the
/// upstream, then the items. Where the first cannot be written the others are
/// not written either.
#[derive(Debug)]
pub struct ResponseShell {
    pub response: ResponseInsert,
    pub handle: Option<UpstreamHandleInsert>,
    pub items: Vec<ResponseItemInsert>,
}

/// The row of a response.
pub open spec fn response_row(
    request_id: Seq<char>,
    route: RouteSnapshotView,
    target: SnapshotView,
    resolved: ResolvedView,
    response: ShownResponse,
    usage_json: Option<Seq<char>>,
    upstream_response_id: Option<Seq<char>>,
    previous_response_id: Option<Seq<char>>,
) -> ResponseInsertView {
    ResponseInsertView {
        id: response.id,
        request_id,
        downstream_model: route.downstream_model,
        route_id: Some(route.route_id),
        target_id: Some(target.target_id),
        provider_id: Some(target.provider_id),
        upstream_model: Some(target.upstream_model),
        wire_api: Some(resolved.wire_api.name()),
        upstream_response_id,
        state_scope: target.state_scope,
        previous_response_id,
        status: response.status,
        usage_json,
        error_json: None,
    }
}

/// What is stored of a handle as JSON.
pub open spec fn handle_data(
    target: SnapshotView,
    resolved: ResolvedView,
    upstream_response_id: Seq<char>,
) -> JsonView {
    JsonView::Object(
        seq![
            ("provider_id"@, JsonView::Text(target.provider_id)),
            ("upstream_model"@, JsonView::Text(target.upstream_model)),
            ("upstream_response_id"@, JsonView::Text(upstream_response_id)),
            ("wire_api"@, JsonView::Text(resolved.wire_api.name())),
        ],
    )
}

/// The row of a handle.
pub open spec fn handle_row(
    target: SnapshotView,
    resolved: ResolvedView,
    response: ShownResponse,
    upstream_response_id: Seq<char>,
    handle_id: Seq<char>,
) -> HandleInsertView {
    HandleInsertView {
        id: handle_id,
        modelwire_response_id: response.id,
        provider_id: target.provider_id,
        credential_hash: resolved.credential_hash,
        upstream_model: target.upstream_model,
        wire_api: resolved.wire_api.name(),
        state_scope: target.state_scope,
        upstream_response_id: Some(upstream_response_id),
        handle_json: rendered_json(handle_data(target, resolved, upstream_response_id)),
    }
}

/// The rows of the output items, numbered from zero.
pub open spec fn item_rows(response: ShownResponse) -> Seq<ItemInsertView> {
    Seq::new(
        response.output.len(),
        |i: int| item_row(response.id, i as i64, response.output[i]),
    )
}

/// The rows of a response, with the id of its handle given.
pub fn persist_response_shell_as(
    request_id: &str,
    route: &RouteSnapshot,
    target: &TargetSnapshot,
    resolved: &ResolvedTargetProtocol,
    response: &DownstreamResponse,
    usage_json: Option<String>,
    upstream_response_id: &Option<String>,
    previous_response_id: &Option<String>,
    handle_id: String,
) -> (r: ResponseShell)
    requires
        response.output.len() <= i64::MAX,
    ensures
        r.response.deep_view() == response_row(
            request_id@,
            route.deep_view(),
            target.deep_view(),
            resolved.deep_view(),
            response.deep_view(),
            usage_json.deep_view(),
            upstream_response_id.deep_view(),
            previous_response_id.deep_view(),
        ),
        r.handle.deep_view() == (match upstream_response_id.deep_view() {
            Some(id) => Some(
                handle_row(
                    target.deep_view(),
                    resolved.deep_view(),
                    response.deep_view(),
                    id,
                    handle_id@,
                ),
            ),
            None => None,
        }),
        r.items.deep_view() == item_rows(response.deep_view()),
        all_retrievable(response.deep_view()) ==> retrieved_output(
            read_back_all(r.items.deep_view()),
        ) == Ok::<Seq<ShownItem>, ErrorView>(response.deep_view().output),
{
    let row = ResponseInsert {
        id: response.id.clone(),
        request_id: request_id.to_owned(),
        downstream_model: route.downstream_model.clone(),
        route_id: Some(route.route_id.clone()),
        target_id: Some(target.target_id.clone()),
        provider_id: Some(target.provider_id.clone()),
        upstream_model: Some(target.upstream_model.clone()),
        wire_api: Some(resolved.wire_api.as_str().to_owned()),
        upstream_response_id: copy_opt(upstream_response_id),
        state_scope: copy_opt(&target.state_scope),
        previous_response_id: copy_opt(previous_response_id),
        status: response.status.to_owned(),
        usage_json,
        error_json: None,
    };
    let handle = match upstream_response_id {
        Some(id) => {
            let mut members = no_members();
            add_member(&mut members, "provider_id", text_value(target.provider_id.as_str()));
            add_member(&mut members, "upstream_model", text_value(target.upstream_model.as_str()));
            add_member(&mut members, "upstream_response_id", text_value(id.as_str()));
            add_member(&mut members, "wire_api", text_value(resolved.wire_api.as_str()));
            assert(members.deep_view() =~= handle_data(
                target.deep_view(),
                resolved.deep_view(),
                id@,
            )->Object_0);
            let json = object_of(members);
            Some(
                UpstreamHandleInsert {
                    id: handle_id,
                    modelwire_response_id: response.id.clone(),
                    provider_id: target.provider_id.clone(),
                    credential_hash: resolved.credential_hash.clone(),
                    upstream_model: target.upstream_model.clone(),
                    wire_api: resolved.wire_api.as_str().to_owned(),
                    state_scope: copy_opt(&target.state_scope),
                    upstream_response_id: Some(id.clone()),
                    handle_json: render_json(&json),
                },
            )
        },
        None => None,
    };
    let ghost shown = response.deep_view();
    let mut items: Vec<ResponseItemInsert> = Vec::new();
    let mut i: usize = 0;
    while i < response.output.len()
        invariant
            i <= response.output.len(),
            response.output.len() <= i64::MAX,
            shown == response.deep_view(),
            items.deep_view() =~= item_rows(shown).take(i as int),
            forall|j: int|
                0 <= j < i && retrievable(#[trigger] shown.output[j]) ==> retrieved_item(
                    read_back(item_rows(shown)[j]),
                ) == Ok::<Option<ShownItem>, ErrorView>(Some(shown.output[j])),
        decreases response.output.len() - i,
    {
        let ghost before = items.deep_view();
        let item = persist_response_item(response.id.as_str(), i as i64, &response.output[i]);
        let ghost view = item.deep_view();
        items.push(item);
        assert(items.deep_view() =~= before.push(view));
        assert(item_rows(shown).take(i + 1) =~= before.push(view));
        assert(item_rows(shown)[i as int] == view);
        i = i + 1;
    }
    assert(item_rows(shown).take(shown.output.len() as int) =~= item_rows(shown));
    proof {
        if all_retrievable(shown) {
            lemma_retrieved_all(read_back_all(item_rows(shown)), shown.output);
        }
    }
    ResponseShell { response: row, handle, items }
}

/// The rows of a response. A handle gets a fresh id that begins with `uh_`.
pub fn persist_response_shell(
    request_id: &str,
    route: &RouteSnapshot,
    target: &TargetSnapshot,
    resolved: &ResolvedTargetProtocol,
    response: &DownstreamResponse,
    usage_json: Option<String>,
    upstream_response_id: &Option<String>,
    previous_response_id: &Option<String>,
) -> (r: ResponseShell)
    requires
        response.output.len() <= i64::MAX,
    ensures
        r.response.deep_view() == response_row(
            request_id@,
            route.deep_view(),
            target.deep_view(),
            resolved.deep_view(),
            response.deep_view(),
            usage_json.deep_view(),
            upstream_response_id.deep_view(),
            previous_response_id.deep_view(),
        ),
        match upstream_response_id.deep_view() {
            Some(id) => r.handle.deep_view() matches Some(handle) && occurs_at(
                handle.id,
                "uh_"@,
                0,
            ) && handle == handle_row(
                target.deep_view(),
                resolved.deep_view(),
                response.deep_view(),
                id,
                handle.id,
            ),
            None => r.handle is None,
        },
        r.items.deep_view() == item_rows(response.deep_view()),
        all_retrievable(response.deep_view()) ==> retrieved_output(
            read_back_all(r.items.deep_view()),
        ) == Ok::<Seq<ShownItem>, ErrorView>(response.deep_view().output),
{
    let fresh = fresh_v7();
    let handle_id = join2("uh_", fresh.as_str());
    assert(occurs_at(handle_id@, "uh_"@, 0)) by {
        assert(handle_id@.subrange(0, "uh_"@.len() as int) =~= "uh_"@);
    }
    persist_response_shell_as(
        request_id,
        route,
        target,
        resolved,
        response,
        usage_json,
        upstream_response_id,
        previous_response_id,
        handle_id,
    )
}

/// The text blocks of a message as input.
pub open spec fn as_text_blocks(content: Seq<ShownBlock>) -> Seq<BlockView> {
    Seq::new(content.len(), |i: int| BlockView::Text { text: content[i]->OutputText_text })
}

proof fn lemma_member_order()
    ensures
        text_less("annotations"@, "text"@),
        text_less("text"@, "type"@),
        text_less("arguments"@, "name"@),
        "annotations"@ != "text"@,
        "arguments"@ != "name"@,
        !occurs_at("annotations"@, "$serde_json::private::"@, 0),
        !occurs_at("text"@, "$serde_json::private::"@, 0),
        !occurs_at("type"@, "$serde_json::private::"@, 0),
        !occurs_at("arguments"@, "$serde_json::private::"@, 0),
        !occurs_at("name"@, "$serde_json::private::"@, 0),
{
    reveal_strlit("annotations");
    reveal_strlit("text");
    reveal_strlit("type");
    reveal_strlit("arguments");
    reveal_strlit("name");
    reveal_strlit("$serde_json::private::");
    reveal_with_fuel(text_less, 3);
    assert("text"@.drop_first()[0] == 'e');
    assert("type"@.drop_first()[0] == 'y');
    assert("$serde_json::private::"@.len() == 22);
    assert("arguments"@.len() == 9 && "name"@.len() == 4);
}

proof fn lemma_stored_blocks_reread(content: Seq<ShownBlock>)
    requires
        forall|i: int|
            0 <= i < content.len() ==> (#[trigger] content[i])->OutputText_annotations.len() == 0,
    ensures
        rereadable(stored_blocks(content)),
        replay_blocks(stored_blocks(content)) == as_text_blocks(content),
{
    lemma_member_order();
    let items = stored_blocks(content)->Array_0;
    assert forall|i: int| 0 <= i < items.len() implies canonical(#[trigger] items[i]) && depth(
        items[i],
    ) <= 2 by {
        let block = stored_block(content[i]);
        let members = block->Object_0;
        assert(content[i]->OutputText_annotations.len() == 0);
        assert(depth(members[0].1) <= 1);
        assert forall|k: int| 0 <= k < members.len() implies canonical((#[trigger] members[k]).1)
            && depth(members[k].1) <= 1 && !occurs_at(
            members[k].0,
            "$serde_json::private::"@,
            0,
        ) by {}
        lemma_max_member_depth(members, members.len(), 1);
    }
    lemma_max_depth(items, items.len(), 2);
    lemma_block_texts(content);
}

proof fn lemma_block_texts(content: Seq<ShownBlock>)
    ensures
        block_texts(stored_blocks(content)->Array_0) == as_text_blocks(content),
    decreases content.len(),
{
    let items = stored_blocks(content)->Array_0;
    if content.len() > 0 {
        lemma_member_order();
        lemma_block_texts(content.drop_last());
        assert(items.drop_last() =~= stored_blocks(content.drop_last())->Array_0);
        let members = items.last()->Object_0;
        assert(members.drop_first()[0] == members[1]);
        reveal_with_fuel(crate::json::member, 3);
        assert(items.last().get_str("text"@) == Some(content.last()->OutputText_text));
        assert(as_text_blocks(content) =~= as_text_blocks(content.drop_last()).push(
            BlockView::Text { text: content.last()->OutputText_text },
        ));
    } else {
        assert(as_text_blocks(content) =~= Seq::empty());
    }
}

/// What a stored item is replayed as when the response is continued: a message
/// with its role and its texts in order, a call with its id and arguments, and
/// reasoning not at all.
pub open spec fn replay_of_shown(item: ShownItem) -> Option<InputView> {
    match item {
        ShownItem::Message { role, content, .. } => if content.len() == 0 {
            None
        } else {
            Some(InputView::Message { role, content: as_text_blocks(content) })
        },
        ShownItem::FunctionCall { call_id, arguments, .. } => Some(
            InputView::FunctionCallOutput { call_id, output: arguments },
        ),
        ShownItem::Reasoning { .. } => None,
    }
}

/// Whether the texts of a message carry no annotations.
pub open spec fn unannotated(item: ShownItem) -> bool {
    item matches ShownItem::Message { content, .. } ==> forall|i: int|
        0 <= i < content.len() ==> (#[trigger] content[i])->OutputText_annotations.len() == 0
}

proof fn lemma_stored_call_rereads(name: Seq<char>, arguments: Seq<char>)
    ensures
        rereadable(stored_call(name, arguments)),
        stored_call(name, arguments).get_str("arguments"@) == Some(arguments),
{
    lemma_member_order();
    let members = stored_call(name, arguments)->Object_0;
    assert forall|k: int| 0 <= k < members.len() implies canonical((#[trigger] members[k]).1)
        && depth(members[k].1) <= 0 && !occurs_at(
        members[k].0,
        "$serde_json::private::"@,
        0,
    ) by {}
    lemma_max_member_depth(members, members.len(), 0);
}

/// The row of an output item whose stored text reads back gives the replay that
/// is owed.
proof fn lemma_row_replays(item: ShownItem, response_id: Seq<char>, sequence: i64)
    requires
        unannotated(item),
        item matches ShownItem::Message { content, .. } ==> json_of_text(
            rendered_json(stored_blocks(content)),
        ) == Some(stored_blocks(content)),
        item matches ShownItem::FunctionCall { name, arguments, .. } ==> json_of_text(
            rendered_json(stored_call(name, arguments)),
        ) == Some(stored_call(name, arguments)),
    ensures
        forall|fresh: Seq<char>| #[trigger]
            replayed_item(read_back(item_row(response_id, sequence, item)), fresh) == Ok::<
                Option<InputView>,
                ErrorView,
            >(replay_of_shown(item)),
{
    reveal_strlit("message");
    reveal_strlit("function_call");
    reveal_strlit("reasoning");
    assert("message"@.len() == 7 && "function_call"@.len() == 13 && "reasoning"@.len() == 9);
    match item {
        ShownItem::Message { content, .. } => {
            lemma_stored_blocks_reread(content);
        },
        ShownItem::FunctionCall { name, arguments, .. } => {
            lemma_stored_call_rereads(name, arguments);
        },
        _ => {},
    }
}

/// Whether an item comes back from the store as it is: it is completed, its texts
/// carry no annotations, and its reasoning can be read again.
pub open spec fn retrievable(item: ShownItem) -> bool {
    match item {
        ShownItem::Message { status, .. } => status == "completed"@ && unannotated(item),
        ShownItem::FunctionCall { status, .. } => status == "completed"@,
        ShownItem::Reasoning { summary, .. } => rereadable(JsonView::Array(summary)),
    }
}

/// Whether all items of a response come back from the store as they are.
pub open spec fn all_retrievable(response: ShownResponse) -> bool {
    forall|i: int| 0 <= i < response.output.len() ==> retrievable(#[trigger] response.output[i])
}

/// Rows as they are read back.
pub open spec fn read_back_all(rows: Seq<ItemInsertView>) -> Seq<ItemView> {
    rows.map_values(|row: ItemInsertView| read_back(row))
}

proof fn lemma_retrieved_texts(content: Seq<ShownBlock>)
    requires
        forall|i: int|
            0 <= i < content.len() ==> (#[trigger] content[i])->OutputText_annotations.len() == 0,
    ensures
        retrieved_texts(stored_blocks(content)->Array_0) == content,
    decreases content.len(),
{
    let items = stored_blocks(content)->Array_0;
    if content.len() > 0 {
        lemma_member_order();
        let rest = content.drop_last();
        assert forall|i: int| 0 <= i < rest.len() implies (#[trigger]
        rest[i])->OutputText_annotations.len() == 0 by {
            assert(rest[i] == content[i]);
        }
        lemma_retrieved_texts(rest);
        assert(items.drop_last() =~= stored_blocks(rest)->Array_0);
        let members = items.last()->Object_0;
        assert(members.drop_first()[0] == members[1]);
        reveal_with_fuel(crate::json::member, 3);
        let last = content[content.len() - 1];
        assert(items.last().get_str("text"@) == Some(last->OutputText_text));
        assert(last->OutputText_annotations =~= Seq::empty());
        assert(content =~= rest.push(last));
    }
}

proof fn lemma_row_retrieved(item: ShownItem, response_id: Seq<char>, sequence: i64)
    requires
        retrievable(item),
        item matches ShownItem::Message { content, .. } ==> reads_as(
            rendered_json(stored_blocks(content)),
            stored_blocks(content),
        ),
        item matches ShownItem::FunctionCall { name, arguments, .. } ==> json_of_text(
            rendered_json(stored_call(name, arguments)),
        ) == Some(stored_call(name, arguments)),
        item matches ShownItem::Reasoning { summary, .. } ==> reads_as(
            rendered_json(JsonView::Array(summary)),
            JsonView::Array(summary),
        ),
    ensures
        retrieved_item(read_back(item_row(response_id, sequence, item))) == Ok::<
            Option<ShownItem>,
            ErrorView,
        >(Some(item)),
{
    reveal_strlit("message");
    reveal_strlit("function_call");
    reveal_strlit("reasoning");
    assert("message"@.len() == 7 && "function_call"@.len() == 13 && "reasoning"@.len() == 9);
    match item {
        ShownItem::Message { content, .. } => {
            lemma_retrieved_texts(content);
        },
        ShownItem::FunctionCall { name, arguments, .. } => {
            lemma_member_order();
            let members = stored_call(name, arguments)->Object_0;
            assert(members.drop_first()[0] == members[1]);
            reveal_with_fuel(crate::json::member, 3);
            assert(stored_call(name, arguments).get_str("arguments"@) == Some(arguments));
            assert(stored_call(name, arguments).get_str("name"@) == Some(name));
        },
        _ => {},
    }
}

proof fn lemma_retrieved_all(items: Seq<ItemView>, output: Seq<ShownItem>)
    requires
        items.len() == output.len(),
        forall|i: int|
            0 <= i < items.len() ==> retrieved_item(#[trigger] items[i]) == Ok::<
                Option<ShownItem>,
                ErrorView,
            >(Some(output[i])),
    ensures
        retrieved_output(items) == Ok::<Seq<ShownItem>, ErrorView>(output),
    decreases items.len(),
{
    let results = retrieved_results(items);
    if items.len() == 0 {
        assert(output =~= Seq::empty());
    } else {
        let rest = items.drop_last();
        assert forall|i: int| 0 <= i < rest.len() implies retrieved_item(#[trigger] rest[i]) == Ok::<
            Option<ShownItem>,
            ErrorView,
        >(Some(output.drop_last()[i])) by {
            assert(rest[i] == items[i]);
        }
        lemma_retrieved_all(rest, output.drop_last());
        assert(results.drop_last() =~= retrieved_results(rest));
        let last = items[items.len() - 1];
        assert(results.last() == retrieved_item(last));
        let kept = collected(retrieved_results(rest))->Ok_0;
        assert(kept.push(Some(output.last())).drop_last() =~= kept);
        assert(output =~= output.drop_last().push(output.last()));
    }
}

proof fn lemma_shown_texts_plain(content: Seq<BlockView>)
    ensures
        forall|i: int|
            0 <= i < shown_texts(content).len() ==> (#[trigger] shown_texts(
                content,
            )[i])->OutputText_annotations.len() == 0,
    decreases content.len(),
{
    if content.len() > 0 {
        let front = shown_texts(content.drop_last());
        lemma_shown_texts_plain(content.drop_last());
        assert forall|i: int| 0 <= i < shown_texts(content).len() implies (#[trigger] shown_texts(
            content,
        )[i])->OutputText_annotations.len() == 0 by {
            if i < front.len() {
                assert(shown_texts(content)[i] == front[i]);
            }
        }
    }
}

/// What the relay makes of an upstream's output carries no annotations, so all
/// of it is stored in a form that is replayed as it was sent.
pub proof fn shown_items_are_unannotated(item: OutputView, ids: ItemIdsView)
    ensures
        unannotated(shown_item(item, ids)),
{
    if let OutputView::Message { content, .. } = item {
        lemma_shown_texts_plain(content);
    }
}

/// The row of a response tells of the response itself, of the request and the
/// response before it, of the route under which it was asked for, and of the target
/// and the protocol that served it.
pub proof fn response_row_tells_who_served(
    request_id: Seq<char>,
    route: RouteSnapshotView,
    target: SnapshotView,
    resolved: ResolvedView,
    response: ShownResponse,
    usage_json: Option<Seq<char>>,
    upstream_response_id: Option<Seq<char>>,
    previous_response_id: Option<Seq<char>>,
)
    ensures
        ({
            let row = response_row(
                request_id,
                route,
                target,
                resolved,
                response,
                usage_json,
                upstream_response_id,
                previous_response_id,
            );
            &&& row.id == response.id && row.status == response.status
            &&& row.request_id == request_id
            &&& row.previous_response_id == previous_response_id
            &&& row.upstream_response_id == upstream_response_id
            &&& row.usage_json == usage_json && row.error_json is None
            &&& row.route_id == Some(route.route_id)
            &&& row.downstream_model == route.downstream_model
            &&& row.target_id == Some(target.target_id)
            &&& row.provider_id == Some(target.provider_id)
            &&& row.upstream_model == Some(target.upstream_model)
            &&& row.state_scope == target.state_scope
            &&& row.wire_api is Some && wire_api_named(row.wire_api->0) == Some(resolved.wire_api)
        }),
{
    wire_api_name_round_trip(resolved.wire_api);
}

/// The row of a handle tells of the upstream's id and of the provider, credential,
/// model, protocol and scope under which alone it can be used again.
pub proof fn handle_row_tells_where_it_is_good(
    target: SnapshotView,
    resolved: ResolvedView,
    response: ShownResponse,
    upstream_response_id: Seq<char>,
    handle_id: Seq<char>,
)
    ensures
        ({
            let row = handle_row(target, resolved, response, upstream_response_id, handle_id);
            &&& row.id == handle_id && row.modelwire_response_id == response.id
            &&& row.upstream_response_id == Some(upstream_response_id)
            &&& row.provider_id == target.provider_id
            &&& row.upstream_model == target.upstream_model
            &&& row.state_scope == target.state_scope
            &&& row.credential_hash == resolved.credential_hash
            &&& wire_api_named(row.wire_api) == Some(resolved.wire_api)
        }),
{
    wire_api_name_round_trip(resolved.wire_api);
}

/// What is stored of a handle as JSON says the same as its row.
pub proof fn handle_data_says_the_same(
    target: SnapshotView,
    resolved: ResolvedView,
    upstream_response_id: Seq<char>,
)
    ensures
        ({
            let data = handle_data(target, resolved, upstream_response_id);
            &&& data.get_str("provider_id"@) == Some(target.provider_id)
            &&& data.get_str("upstream_model"@) == Some(target.upstream_model)
            &&& data.get_str("upstream_response_id"@) == Some(upstream_response_id)
            &&& data.get_str("wire_api"@) == Some(resolved.wire_api.name())
        }),
{
    reveal_strlit("provider_id");
    reveal_strlit("upstream_model");
    reveal_strlit("upstream_response_id");
    reveal_strlit("wire_api");
    assert("provider_id"@.len() == 11 && "upstream_model"@.len() == 14
        && "upstream_response_id"@.len() == 20 && "wire_api"@.len() == 8);
    reveal_with_fuel(member, 5);
    let members = handle_data(target, resolved, upstream_response_id)->Object_0;
    let second = members.drop_first();
    let third = second.drop_first();
    assert(second[0] == members[1] && third[0] == members[2] && third.drop_first()[0]
        == members[3]);
}

/// The rows of a response's items are numbered from zero in the order of the items,
/// all under the response's id. A message is kept with its role, a call under its call
/// id, and all but reasoning can be seen.
pub proof fn item_rows_keep_the_output(response: ShownResponse)
    requires
        response.output.len() <= i64::MAX,
    ensures
        item_rows(response).len() == response.output.len(),
        forall|i: int|
            0 <= i < response.output.len() ==> {
                let row = #[trigger] item_rows(response)[i];
                &&& row.response_id == response.id && row.sequence == i
                &&& match response.output[i] {
                    ShownItem::Message { id, role, .. } => row.id == id && row.item_type
                        == "message"@ && row.role == Some(role) && row.call_id is None
                        && row.visible,
                    ShownItem::FunctionCall { id, call_id, .. } => row.id == id && row.item_type
                        == "function_call"@ && row.role is None && row.call_id == Some(call_id)
                        && row.visible,
                    ShownItem::Reasoning { id, .. } => row.id == id && row.item_type
                        == "reasoning"@ && row.role is None && row.call_id is None && !row.visible,
                }
            },
{
}

/// What is stored of a block is its text and its annotations, and of a call its name
/// and its arguments.
pub proof fn stored_content_is_what_was_shown(
    text: Seq<char>,
    annotations: Seq<JsonView>,
    name: Seq<char>,
    arguments: Seq<char>,
)
    ensures
        ({
            let block = stored_block(ShownBlock::OutputText { text, annotations });
            &&& block.get_str("text"@) == Some(text)
            &&& block.get("annotations"@) == Some(JsonView::Array(annotations))
            &&& block.get_str("type"@) == Some("output_text"@)
        }),
        stored_call(name, arguments).get_str("name"@) == Some(name),
        stored_call(name, arguments).get_str("arguments"@) == Some(arguments),
{
    reveal_strlit("annotations");
    reveal_strlit("text");
    reveal_strlit("type");
    reveal_strlit("name");
    reveal_strlit("arguments");
    assert("annotations"@.len() == 11 && "arguments"@.len() == 9 && "name"@.len() == 4);
    assert("text"@[1] == 'e' && "type"@[1] == 'y' && "text"@.len() == 4 && "type"@.len() == 4);
    reveal_with_fuel(member, 4);
    let members = stored_block(ShownBlock::OutputText { text, annotations })->Object_0;
    let second = members.drop_first();
    assert(second[0] == members[1] && second.drop_first()[0] == members[2]);
    let call = stored_call(name, arguments)->Object_0;
    assert(call.drop_first()[0] == call[1]);
}

/// What a row holds of an item is all that was shown of it: each block of a message in
/// order, the name and the arguments of a call, or the parts of a summary.
pub proof fn item_rows_hold_the_content(response: ShownResponse, i: int)
    requires
        0 <= i < response.output.len(),
    ensures
        match response.output[i] {
            ShownItem::Message { content, .. } => exists|blocks: Seq<JsonView>|
                {
                    &&& item_rows(response)[i].content_json == #[trigger] rendered_json(
                        JsonView::Array(blocks),
                    )
                    &&& blocks.len() == content.len()
                    &&& forall|k: int|
                        0 <= k < content.len() ==> #[trigger] blocks[k] == stored_block(content[k])
                },
            ShownItem::FunctionCall { name, arguments, .. } => item_rows(response)[i].content_json
                == rendered_json(stored_call(name, arguments)),
            ShownItem::Reasoning { summary, .. } => item_rows(response)[i].content_json
                == rendered_json(JsonView::Array(summary)),
        },
{
    if let ShownItem::Message { content, .. } = response.output[i] {
        let blocks = stored_blocks(content)->Array_0;
        assert(item_rows(response)[i].content_json == rendered_json(JsonView::Array(blocks)));
    }
}

} // verus!

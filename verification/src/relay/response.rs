//! The response as the client gets it, and the rows under which it is stored.

use crate::canonical::{
    BlockView, CanonicalEvent, CanonicalOutputItem, ContentBlock, EventView, OutputView,
    ResponseUsage,
};
use crate::clock::{is_clock_second, unix_now};
use crate::json::{Json, JsonView};
use vstd::prelude::*;

verus! {

/// Downstream Responses content block.
#[derive(Debug)]
pub enum DownstreamContentBlock {
    OutputText { text: String, annotations: Vec<Json> },
}

/// The mathematical value of a [`DownstreamContentBlock`].
#[verifier::ext_equal]
pub enum ShownBlock {
    OutputText { text: Seq<char>, annotations: Seq<JsonView> },
}

impl DeepView for DownstreamContentBlock {
    type V = ShownBlock;

    open spec fn deep_view(&self) -> ShownBlock {
        match self {
            DownstreamContentBlock::OutputText { text, annotations } => ShownBlock::OutputText {
                text: text@,
                annotations: annotations.deep_view(),
            },
        }
    }
}

/// Downstream Responses output item.
#[derive(Debug)]
pub enum DownstreamOutputItem {
    Message {
        id: String,
        status: &'static str,
        role: String,
        content: Vec<DownstreamContentBlock>,
    },
    FunctionCall {
        id: String,
        call_id: String,
        name: String,
        arguments: String,
        status: &'static str,
    },
    Reasoning { id: String, summary: Vec<Json> },
}

/// The mathematical value of a [`DownstreamOutputItem`].
#[verifier::ext_equal]
pub enum ShownItem {
    Message {
        id: Seq<char>,
        status: Seq<char>,
        role: Seq<char>,
        content: Seq<ShownBlock>,
    },
    FunctionCall {
        id: Seq<char>,
        call_id: Seq<char>,
        name: Seq<char>,
        arguments: Seq<char>,
        status: Seq<char>,
    },
    Reasoning { id: Seq<char>, summary: Seq<JsonView> },
}

impl DeepView for DownstreamOutputItem {
    type V = ShownItem;

    open spec fn deep_view(&self) -> ShownItem {
        match self {
            DownstreamOutputItem::Message { id, status, role, content } => ShownItem::Message {
                id: id@,
                status: status@,
                role: role@,
                content: content.deep_view(),
            },
            DownstreamOutputItem::FunctionCall { id, call_id, name, arguments, status } => {
                ShownItem::FunctionCall {
                    id: id@,
                    call_id: call_id@,
                    name: name@,
                    arguments: arguments@,
                    status: status@,
                }
            },
            DownstreamOutputItem::Reasoning { id, summary } => ShownItem::Reasoning {
                id: id@,
                summary: summary.deep_view(),
            },
        }
    }
}

/// Result returned to the downstream Responses client.
#[derive(Debug)]
pub struct DownstreamResponse {
    pub id: String,
    pub object: &'static str,
    pub created_at: i64,
    pub model: String,
    pub status: &'static str,
    pub output: Vec<DownstreamOutputItem>,
    pub usage: Option<ResponseUsage>,
}

/// The mathematical value of a [`DownstreamResponse`].
#[verifier::ext_equal]
pub struct ShownResponse {
    pub id: Seq<char>,
    pub object: Seq<char>,
    pub created_at: i64,
    pub model: Seq<char>,
    pub status: Seq<char>,
    pub output: Seq<ShownItem>,
    pub usage: Option<ResponseUsage>,
}

impl DeepView for DownstreamResponse {
    type V = ShownResponse;

    open spec fn deep_view(&self) -> ShownResponse {
        ShownResponse {
            id: self.id@,
            object: self.object@,
            created_at: self.created_at,
            model: self.model@,
            status: self.status@,
            output: self.output.deep_view(),
            usage: self.usage,
        }
    }
}

/// The ids that an output item gets: its own, and that of its call.
#[derive(Debug)]
pub struct ItemIds {
    pub id: String,
    pub call_id: String,
}

/// The mathematical value of [`ItemIds`].
#[verifier::ext_equal]
pub struct ItemIdsView {
    pub id: Seq<char>,
    pub call_id: Seq<char>,
}

impl DeepView for ItemIds {
    type V = ItemIdsView;

    open spec fn deep_view(&self) -> ItemIdsView {
        ItemIdsView { id: self.id@, call_id: self.call_id@ }
    }
}

/// The text blocks of a message, as the client sees them.
pub open spec fn shown_texts(content: Seq<BlockView>) -> Seq<ShownBlock>
    decreases content.len(),
{
    if content.len() == 0 {
        Seq::empty()
    } else {
        let front = shown_texts(content.drop_last());
        match content.last() {
            BlockView::Text { text } => front.push(
                ShownBlock::OutputText { text, annotations: Seq::empty() },
            ),
            _ => front,
        }
    }
}

/// An output item as the client sees it, under ids of the relay's own.
pub open spec fn shown_item(item: OutputView, ids: ItemIdsView) -> ShownItem {
    match item {
        OutputView::Message { role, content } => ShownItem::Message {
            id: ids.id,
            status: "completed"@,
            role,
            content: shown_texts(content),
        },
        OutputView::FunctionCall { name, arguments } => ShownItem::FunctionCall {
            id: ids.id,
            call_id: ids.call_id,
            name,
            arguments,
            status: "completed"@,
        },
        OutputView::Reasoning { summary } => ShownItem::Reasoning { id: ids.id, summary },
    }
}

/// The items that the events finish, in order.
pub open spec fn finished_items(events: Seq<EventView>) -> Seq<OutputView>
    decreases events.len(),
{
    if events.len() == 0 {
        Seq::empty()
    } else {
        match events.last() {
            EventView::OutputItemDone { item } => finished_items(events.drop_last()).push(item),
            _ => finished_items(events.drop_last()),
        }
    }
}

/// The usage that the last completion among the events reports.
pub open spec fn reported_usage(events: Seq<EventView>) -> Option<ResponseUsage>
    decreases events.len(),
{
    if events.len() == 0 {
        None
    } else {
        match events.last() {
            EventView::ResponseCompleted { usage, .. } => usage,
            _ => reported_usage(events.drop_last()),
        }
    }
}

/// The output that the events make up, under the ids given.
pub open spec fn shown_output(events: Seq<EventView>, ids: Seq<ItemIdsView>) -> Seq<ShownItem> {
    let items = finished_items(events);
    Seq::new(items.len(), |i: int| shown_item(items[i], ids[i]))
}

/// The response that the events make up.
pub open spec fn normalized(
    downstream_model: Seq<char>,
    events: Seq<EventView>,
    response_id: Seq<char>,
    ids: Seq<ItemIdsView>,
    created_at: i64,
) -> ShownResponse {
    ShownResponse {
        id: response_id,
        object: "response"@,
        created_at,
        model: downstream_model,
        status: "completed"@,
        output: shown_output(events, ids),
        usage: reported_usage(events),
    }
}

/// An output item as the client sees it.
pub fn normalize_output_item(item: &CanonicalOutputItem, ids: &ItemIds) -> (r: DownstreamOutputItem)
    ensures
        r.deep_view() == shown_item(item.deep_view(), ids.deep_view()),
{
    match item {
        CanonicalOutputItem::Message { role, content } => {
            let ghost views = content.deep_view();
            let mut shown: Vec<DownstreamContentBlock> = Vec::new();
            let mut i: usize = 0;
            assert(shown.deep_view() =~= Seq::empty());
            assert(views.take(0) =~= Seq::empty());
            while i < content.len()
                invariant
                    i <= content.len(),
                    views == content.deep_view(),
                    shown.deep_view() == shown_texts(views.take(i as int)),
                decreases content.len() - i,
            {
                assert(views.take(i + 1).drop_last() =~= views.take(i as int));
                let ghost before = shown.deep_view();
                if let ContentBlock::Text { text } = &content[i] {
                    let block = DownstreamContentBlock::OutputText {
                        text: text.clone(),
                        annotations: Vec::new(),
                    };
                    let ghost view = block.deep_view();
                    assert(view->OutputText_annotations =~= Seq::empty());
                    shown.push(block);
                    assert(shown.deep_view() =~= before.push(view));
                }
                i = i + 1;
            }
            assert(views.take(views.len() as int) =~= views);
            DownstreamOutputItem::Message {
                id: ids.id.clone(),
                status: "completed",
                role: role.clone(),
                content: shown,
            }
        },
        CanonicalOutputItem::FunctionCall { name, arguments } => {
            DownstreamOutputItem::FunctionCall {
                id: ids.id.clone(),
                call_id: ids.call_id.clone(),
                name: name.clone(),
                arguments: arguments.clone(),
                status: "completed",
            }
        },
        CanonicalOutputItem::Reasoning { summary } => DownstreamOutputItem::Reasoning {
            id: ids.id.clone(),
            summary: copy_values(summary),
        },
    }
}

/// The same values in the same order.
pub fn copy_values(values: &Vec<Json>) -> (r: Vec<Json>)
    ensures
        r.deep_view() == values.deep_view(),
{
    let mut out: Vec<Json> = Vec::new();
    let mut i: usize = 0;
    while i < values.len()
        invariant
            i <= values.len(),
            out.deep_view() == values.deep_view().take(i as int),
        decreases values.len() - i,
    {
        let ghost before = out.deep_view();
        let value = values[i].duplicate();
        let ghost shown = value.deep_view();
        out.push(value);
        assert(out.deep_view() =~= before.push(shown));
        assert(values.deep_view().take(i + 1) =~= before.push(shown));
        i = i + 1;
    }
    assert(values.deep_view().take(values@.len() as int) =~= values.deep_view());
    out
}

/// How many items the events finish, that is, how many ids they call for.
pub fn count_finished_items(events: &Vec<CanonicalEvent>) -> (r: usize)
    ensures
        r == finished_items(events.deep_view()).len(),
{
    let ghost views = events.deep_view();
    let mut count: usize = 0;
    let mut i: usize = 0;
    assert(views.take(0) =~= Seq::empty());
    while i < events.len()
        invariant
            i <= events.len(),
            views == events.deep_view(),
            count <= i,
            count == finished_items(views.take(i as int)).len(),
        decreases events.len() - i,
    {
        assert(views.take(i + 1).drop_last() =~= views.take(i as int));
        if let CanonicalEvent::OutputItemDone { item: _ } = &events[i] {
            count = count + 1;
        }
        i = i + 1;
    }
    assert(views.take(views.len() as int) =~= views);
    count
}

/// The response that the events make up, under the ids and the time given.
pub fn normalize_response_at(
    downstream_model: &str,
    events: &Vec<CanonicalEvent>,
    response_id: &str,
    ids: &Vec<ItemIds>,
    created_at: i64,
) -> (r: DownstreamResponse)
    requires
        ids.len() >= finished_items(events.deep_view()).len(),
    ensures
        r.deep_view() == normalized(
            downstream_model@,
            events.deep_view(),
            response_id@,
            ids.deep_view(),
            created_at,
        ),
{
    let ghost views = events.deep_view();
    let ghost id_views = ids.deep_view();
    let mut output: Vec<DownstreamOutputItem> = Vec::new();
    let mut i: usize = 0;
    proof {
        assert(views.take(0) =~= Seq::empty());
        assert(output.deep_view() =~= shown_output(views.take(0), id_views));
        lemma_finished_items_grow(views, 0);
    }
    while i < events.len()
        invariant
            i <= events.len(),
            views == events.deep_view(),
            id_views == ids.deep_view(),
            ids.len() >= finished_items(views).len(),
            output.len() == finished_items(views.take(i as int)).len(),
            output.deep_view() == shown_output(views.take(i as int), id_views),
        decreases events.len() - i,
    {
        proof {
            assert(views.take(i + 1).drop_last() =~= views.take(i as int));
            lemma_finished_items_grow(views, i + 1);
        }
        let ghost before = output.deep_view();
        match &events[i] {
            CanonicalEvent::OutputItemDone { item } => {
                let at: usize = output.len();
                let shown = normalize_output_item(item, &ids[at]);
                let ghost view = shown.deep_view();
                output.push(shown);
                proof {
                    assert(output.deep_view() =~= before.push(view));
                    assert(shown_output(views.take(i + 1), id_views) =~= before.push(view));
                }
            },
            _ => {
                assert(shown_output(views.take(i + 1), id_views) =~= before);
            },
        }
        i = i + 1;
    }
    assert(views.take(views.len() as int) =~= views);
    DownstreamResponse {
        id: response_id.to_owned(),
        object: "response",
        created_at,
        model: downstream_model.to_owned(),
        status: "completed",
        output,
        usage: last_reported_usage(events),
    }
}

/// The usage that the last completion among the events reports.
pub fn last_reported_usage(events: &Vec<CanonicalEvent>) -> (r: Option<ResponseUsage>)
    ensures
        r == reported_usage(events.deep_view()),
{
    let ghost views = events.deep_view();
    let mut usage: Option<ResponseUsage> = None;
    let mut i: usize = 0;
    assert(views.take(0) =~= Seq::empty());
    while i < events.len()
        invariant
            i <= events.len(),
            views == events.deep_view(),
            usage == reported_usage(views.take(i as int)),
        decreases events.len() - i,
    {
        assert(views.take(i + 1).drop_last() =~= views.take(i as int));
        match &events[i] {
            CanonicalEvent::ResponseCompleted { response_id: _, usage: reported } => {
                usage = *reported;
            },
            _ => {},
        }
        i = i + 1;
    }
    assert(views.take(views.len() as int) =~= views);
    usage
}

proof fn lemma_finished_items_grow(events: Seq<EventView>, k: int)
    requires
        0 <= k <= events.len(),
    ensures
        finished_items(events.take(k)).len() <= finished_items(events).len(),
    decreases events.len() - k,
{
    if k == events.len() {
        assert(events.take(k) =~= events);
    } else {
        assert(events.take(k + 1).drop_last() =~= events.take(k));
        lemma_finished_items_grow(events, k + 1);
    }
}

/// The response that the events make up, under the ids given and as of now.
pub fn normalize_downstream_response(
    downstream_model: &str,
    events: &Vec<CanonicalEvent>,
    response_id: &str,
    ids: &Vec<ItemIds>,
) -> (r: DownstreamResponse)
    requires
        ids.len() >= finished_items(events.deep_view()).len(),
    ensures
        r.deep_view() == normalized(
            downstream_model@,
            events.deep_view(),
            response_id@,
            ids.deep_view(),
            r.created_at,
        ),
        is_clock_second(r.created_at),
{
    let now: i64 = unix_now();
    normalize_response_at(downstream_model, events, response_id, ids, now)
}

/// The upstream's own id of a response: the first that a creation or a
/// completion among the events gives.
pub open spec fn upstream_id(events: Seq<EventView>) -> Option<Seq<char>>
    decreases events.len(),
{
    if events.len() == 0 {
        None
    } else {
        match upstream_id(events.drop_last()) {
            Some(id) => Some(id),
            None => match events.last() {
                EventView::ResponseCreated { response_id } => if response_id.len() > 0 {
                    Some(response_id)
                } else {
                    None
                },
                EventView::ResponseCompleted { response_id, .. } => if response_id.len() > 0 {
                    Some(response_id)
                } else {
                    None
                },
                _ => None,
            },
        }
    }
}

proof fn lemma_upstream_id_prefix(events: Seq<EventView>, k: int)
    requires
        0 <= k <= events.len(),
        upstream_id(events.take(k)) is Some,
    ensures
        upstream_id(events) == upstream_id(events.take(k)),
    decreases events.len() - k,
{
    if k == events.len() {
        assert(events.take(k) =~= events);
    } else {
        assert(events.take(k + 1).drop_last() =~= events.take(k));
        lemma_upstream_id_prefix(events, k + 1);
    }
}

/// The upstream's own id of a response.
pub fn extract_upstream_response_id(events: &Vec<CanonicalEvent>) -> (r: Option<String>)
    ensures
        r.deep_view() == upstream_id(events.deep_view()),
{
    let ghost views = events.deep_view();
    let mut i: usize = 0;
    assert(views.take(0) =~= Seq::empty());
    while i < events.len()
        invariant
            i <= events.len(),
            views == events.deep_view(),
            upstream_id(views.take(i as int)) is None,
        decreases events.len() - i,
    {
        assert(views.take(i + 1).drop_last() =~= views.take(i as int));
        let found: Option<&String> = match &events[i] {
            CanonicalEvent::ResponseCreated { response_id } => Some(response_id),
            CanonicalEvent::ResponseCompleted { response_id, usage: _ } => Some(response_id),
            _ => None,
        };
        if let Some(response_id) = found {
            if !response_id.as_str().is_empty() {
                proof {
                    assert(upstream_id(views.take(i + 1)) == Some(response_id@));
                    lemma_upstream_id_prefix(views, i + 1);
                }
                return Some(response_id.clone());
            }
        }
        i = i + 1;
    }
    assert(views.take(views.len() as int) =~= views);
    None
}

/// Of the content of a message the client sees the texts, all of them and in order,
/// without annotations.
pub proof fn shown_texts_are_the_texts(content: Seq<BlockView>)
    ensures
        shown_texts(content) == content.filter(|block: BlockView| block is Text).map_values(
            |block: BlockView|
                ShownBlock::OutputText { text: block->text, annotations: Seq::empty() },
        ),
    decreases content.len(),
{
    reveal(Seq::filter);
    let is_text = |block: BlockView| block is Text;
    let shown = |block: BlockView|
        ShownBlock::OutputText { text: block->text, annotations: Seq::<JsonView>::empty() };
    if content.len() > 0 {
        let front = content.drop_last();
        shown_texts_are_the_texts(front);
        if content.last() is Text {
            assert(front.filter(is_text).push(content.last()).map_values(shown) =~= front.filter(
                is_text,
            ).map_values(shown).push(shown(content.last())));
        }
    } else {
        assert(content.filter(is_text).map_values(shown) =~= Seq::empty());
    }
}

/// The items of a response are those that the events finish, all of them and in
/// order.
pub proof fn finished_items_are_the_done_ones(events: Seq<EventView>)
    ensures
        finished_items(events) == events.filter(
            |event: EventView| event is OutputItemDone,
        ).map_values(|event: EventView| event->item),
    decreases events.len(),
{
    reveal(Seq::filter);
    let is_done = |event: EventView| event is OutputItemDone;
    let item_of = |event: EventView| event->item;
    if events.len() > 0 {
        let front = events.drop_last();
        finished_items_are_the_done_ones(front);
        if events.last() is OutputItemDone {
            assert(front.filter(is_done).push(events.last()).map_values(item_of) =~= front.filter(
                is_done,
            ).map_values(item_of).push(events.last()->item));
        }
    } else {
        assert(events.filter(is_done).map_values(item_of) =~= Seq::empty());
    }
}

/// The usage is that of the last completion among the events, and there is none where
/// nothing was completed.
pub proof fn usage_is_of_the_last_completion(events: Seq<EventView>, k: int)
    ensures
        (forall|i: int| 0 <= i < events.len() ==> !(#[trigger] events[i] is ResponseCompleted))
            ==> reported_usage(events) is None,
        0 <= k < events.len() && events[k] is ResponseCompleted && (forall|i: int|
            k < i < events.len() ==> !(#[trigger] events[i] is ResponseCompleted))
            ==> reported_usage(events) == events[k]->usage,
    decreases events.len(),
{
    if events.len() > 0 {
        let front = events.drop_last();
        usage_is_of_the_last_completion(front, k);
        assert(events.last() == events[events.len() - 1]);
        assert forall|i: int| 0 <= i < front.len() implies #[trigger] front[i] == events[i] by {}
        if forall|i: int| 0 <= i < events.len() ==> !(#[trigger] events[i] is ResponseCompleted) {
            assert forall|i: int| 0 <= i < front.len() implies !(#[trigger] front[i]
                is ResponseCompleted) by {
                assert(front[i] == events[i]);
            }
        }
        if 0 <= k < front.len() && (forall|i: int|
            k < i < events.len() ==> !(#[trigger] events[i] is ResponseCompleted)) {
            assert forall|i: int| k < i < front.len() implies !(#[trigger] front[i]
                is ResponseCompleted) by {
                assert(front[i] == events[i]);
            }
        }
    }
}

/// The id that an event gives to a response: that of its creation or its completion.
pub open spec fn id_given_by(event: EventView) -> Seq<char> {
    if event is ResponseCreated {
        event->ResponseCreated_response_id
    } else if event is ResponseCompleted {
        event->ResponseCompleted_response_id
    } else {
        Seq::empty()
    }
}

/// The upstream's id is the first that a creation or a completion gives and that is
/// not empty; where none is given there is none.
pub proof fn upstream_id_is_the_first_given(events: Seq<EventView>, k: int)
    ensures
        (forall|i: int| 0 <= i < events.len() ==> id_given_by(#[trigger] events[i]).len() == 0)
            ==> upstream_id(events) is None,
        0 <= k < events.len() && id_given_by(events[k]).len() > 0 && (forall|i: int|
            0 <= i < k ==> id_given_by(#[trigger] events[i]).len() == 0) ==> upstream_id(events)
            == Some(id_given_by(events[k])),
    decreases events.len(),
{
    if events.len() > 0 {
        let front = events.drop_last();
        upstream_id_is_the_first_given(front, k);
        assert(events.last() == events[events.len() - 1]);
        if forall|i: int| 0 <= i < events.len() ==> id_given_by(#[trigger] events[i]).len() == 0 {
            assert forall|i: int| 0 <= i < front.len() implies id_given_by(
                #[trigger] front[i],
            ).len() == 0 by {
                assert(front[i] == events[i]);
            }
        }
        if 0 <= k < events.len() && (forall|i: int|
            0 <= i < k ==> id_given_by(#[trigger] events[i]).len() == 0) {
            assert forall|i: int| 0 <= i < k && i < front.len() implies id_given_by(
                #[trigger] front[i],
            ).len() == 0 by {
                assert(front[i] == events[i]);
            }
        }
    }
}

/// An item is shown under the relay's own ids, with what the upstream said: role and
/// texts of a message, name and arguments of a call, summary of reasoning.
pub proof fn shown_item_is_what_was_said(item: OutputView, ids: ItemIdsView)
    ensures
        match (item, shown_item(item, ids)) {
            (
                OutputView::Message { role, content },
                ShownItem::Message { id, status, role: shown_role, content: shown },
            ) => id == ids.id && status == "completed"@ && shown_role == role && shown
                == shown_texts(content),
            (
                OutputView::FunctionCall { name, arguments },
                ShownItem::FunctionCall {
                    id,
                    call_id,
                    name: shown_name,
                    arguments: shown,
                    status,
                },
            ) => id == ids.id && call_id == ids.call_id && shown_name == name && shown == arguments
                && status == "completed"@,
            (OutputView::Reasoning { summary }, ShownItem::Reasoning { id, summary: shown }) => id
                == ids.id && shown == summary,
            _ => false,
        },
{
}

/// The response that a client gets is named and dated as it was asked for, is
/// complete, and shows each finished item under ids of its own, in order.
pub proof fn response_shows_what_was_finished(
    downstream_model: Seq<char>,
    events: Seq<EventView>,
    response_id: Seq<char>,
    ids: Seq<ItemIdsView>,
    created_at: i64,
)
    ensures
        ({
            let response = normalized(downstream_model, events, response_id, ids, created_at);
            let done = events.filter(|event: EventView| event is OutputItemDone);
            &&& response.id == response_id && response.model == downstream_model
            &&& response.created_at == created_at
            &&& response.status == "completed"@ && response.object == "response"@
            &&& response.usage == reported_usage(events)
            &&& response.output.len() == done.len()
            &&& forall|i: int|
                0 <= i < done.len() ==> #[trigger] response.output[i] == shown_item(
                    done[i]->item,
                    ids[i],
                )
        }),
{
    finished_items_are_the_done_ones(events);
}

} // verus!

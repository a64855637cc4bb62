//! What is archived of a conversation: as much as the capture mode lets through,
//! with every text redacted, and never any reasoning.

use crate::canonical::{
    wire_api_name_round_trip, wire_api_named, BlockView, CanonicalInputItem,
    CanonicalResponseRequest, ContentBlock, InputView, RequestView, ToolView,
};
use crate::clock::{clock_now, is_clock_time, rfc3339_text, write_rfc3339};
use crate::json::{
    add_item, add_member, lemma_holds, no_members, object_of, text_value, Json, JsonView,
};
use crate::relay::attempt::{AttemptView, RoutingAttempt};
use crate::relay::context::{ResolvedTargetProtocol, ResolvedView};
use crate::relay::continuation::{present, present_keeps_the_values};
use crate::relay::response::{
    DownstreamContentBlock, DownstreamOutputItem, DownstreamResponse, ShownBlock, ShownItem,
    ShownResponse,
};
use crate::relay::target::{RouteSnapshot, RouteSnapshotView, SnapshotView, TargetSnapshot};
use crate::server::{is_open_address, is_public_bind_address};
use crate::text::{
    ascii_lowercased, copy_opt, first_chars, join2, join5, same, take_chars, to_ascii_lowercase,
    trim, trimmed,
};
use vstd::prelude::*;

verus! {

/// How much of a conversation is archived.
#[derive(Debug, Clone, Copy, PartialEq, Eq, Structural)]
pub enum CaptureMode {
    Off,
    MetadataOnly,
    VisibleOnly,
    FullVisible,
    DebugRaw,
}

impl CaptureMode {
    /// The name of the mode.
    pub open spec fn name(self) -> Seq<char> {
        match self {
            CaptureMode::Off => "off"@,
            CaptureMode::MetadataOnly => "metadata_only"@,
            CaptureMode::VisibleOnly => "visible_only"@,
            CaptureMode::FullVisible => "full_visible"@,
            CaptureMode::DebugRaw => "debug_raw"@,
        }
    }

    /// The name of the mode.
    pub fn as_str(self) -> (r: &'static str)
        ensures
            r@ == self.name(),
    {
        match self {
            CaptureMode::Off => "off",
            CaptureMode::MetadataOnly => "metadata_only",
            CaptureMode::VisibleOnly => "visible_only",
            CaptureMode::FullVisible => "full_visible",
            CaptureMode::DebugRaw => "debug_raw",
        }
    }
}

/// The mode of that name, in letters of either case; nothing is archived under
/// any other name.
pub open spec fn mode_named(name: Seq<char>) -> CaptureMode {
    let name = ascii_lowercased(trimmed(name));
    if name == "metadata_only"@ {
        CaptureMode::MetadataOnly
    } else if name == "visible_only"@ {
        CaptureMode::VisibleOnly
    } else if name == "full_visible"@ {
        CaptureMode::FullVisible
    } else if name == "debug_raw"@ {
        CaptureMode::DebugRaw
    } else {
        CaptureMode::Off
    }
}

/// The mode of that name.
pub fn parse_capture_mode(mode: &str) -> (r: CaptureMode)
    ensures
        r == mode_named(mode@),
{
    let name = to_ascii_lowercase(trim(mode));
    let name = name.as_str();
    if same(name, "metadata_only") {
        CaptureMode::MetadataOnly
    } else if same(name, "visible_only") {
        CaptureMode::VisibleOnly
    } else if same(name, "full_visible") {
        CaptureMode::FullVisible
    } else if same(name, "debug_raw") {
        CaptureMode::DebugRaw
    } else {
        CaptureMode::Off
    }
}

/// A text with what was redacted in it.
#[derive(Debug)]
pub struct Redaction {
    pub original: String,
    pub text: String,
    pub redaction_count: usize,
}

/// The mathematical value of a [`Redaction`].
#[verifier::ext_equal]
pub struct RedactionView {
    pub original: Seq<char>,
    pub text: Seq<char>,
    pub redaction_count: usize,
}

impl DeepView for Redaction {
    type V = RedactionView;

    open spec fn deep_view(&self) -> RedactionView {
        RedactionView {
            original: self.original@,
            text: self.text@,
            redaction_count: self.redaction_count,
        }
    }
}

/// What stands for a text in the archive: its redaction, and nothing where it
/// has none.
pub open spec fn redacted(redactions: Seq<RedactionView>, text: Seq<char>) -> Seq<char>
    decreases redactions.len(),
{
    if redactions.len() == 0 {
        Seq::empty()
    } else if redactions.last().original == text {
        redactions.last().text
    } else {
        redacted(redactions.drop_last(), text)
    }
}

fn redacted_text(redactions: &Vec<Redaction>, text: &str) -> (r: String)
    ensures
        r@ == redacted(redactions.deep_view(), text@),
{
    let ghost views = redactions.deep_view();
    let mut i: usize = redactions.len();
    assert(views.take(views.len() as int) =~= views);
    while i > 0
        invariant
            i <= redactions.len(),
            views == redactions.deep_view(),
            redacted(views, text@) == redacted(views.take(i as int), text@),
        decreases i,
    {
        assert(views.take(i as int).drop_last() =~= views.take(i - 1));
        assert(views.take(i as int).last() == redactions@[i - 1].deep_view());
        if same(redactions[i - 1].original.as_str(), text) {
            return redactions[i - 1].text.clone();
        }
        i = i - 1;
    }
    proof {
        reveal_strlit("");
        assert(""@ =~= Seq::<char>::empty());
    }
    "".to_owned()
}

/// Whether anything was redacted in any of the texts.
pub open spec fn some_redacted(redactions: Seq<RedactionView>) -> bool {
    exists|i: int| 0 <= i < redactions.len() && (#[trigger] redactions[i]).redaction_count > 0
}

fn any_redacted(redactions: &Vec<Redaction>) -> (r: bool)
    ensures
        r == some_redacted(redactions.deep_view()),
{
    let ghost views = redactions.deep_view();
    let mut i: usize = 0;
    while i < redactions.len()
        invariant
            i <= redactions.len(),
            views == redactions.deep_view(),
            forall|j: int| 0 <= j < i ==> (#[trigger] views[j]).redaction_count == 0,
        decreases redactions.len() - i,
    {
        assert(views[i as int] == redactions@[i as int].deep_view());
        if redactions[i].redaction_count > 0 {
            return true;
        }
        i = i + 1;
    }
    false
}

/// The texts of the text blocks, in order.
pub open spec fn texts_of_blocks(blocks: Seq<BlockView>) -> Seq<Seq<char>>
    decreases blocks.len(),
{
    if blocks.len() == 0 {
        Seq::empty()
    } else {
        let front = texts_of_blocks(blocks.drop_last());
        match blocks.last() {
            BlockView::Text { text } => front.push(text),
            _ => front,
        }
    }
}

/// The texts of an item of the input.
pub open spec fn texts_of_input(item: InputView) -> Seq<Seq<char>> {
    match item {
        InputView::Text { content } => seq![content],
        InputView::Message { content, .. } => texts_of_blocks(content),
        InputView::FunctionCallOutput { output, .. } => seq![output],
    }
}

/// The texts of the blocks that a client is shown, in order.
pub open spec fn texts_of_shown(blocks: Seq<ShownBlock>) -> Seq<Seq<char>> {
    blocks.map_values(
        |block: ShownBlock|
            match block {
                ShownBlock::OutputText { text, .. } => text,
            },
    )
}

/// The texts of an item that a client is shown, but for reasoning.
pub open spec fn texts_of_output(item: ShownItem) -> Seq<Seq<char>> {
    match item {
        ShownItem::Message { content, .. } => texts_of_shown(content),
        ShownItem::FunctionCall { arguments, .. } => seq![arguments],
        ShownItem::Reasoning { .. } => Seq::empty(),
    }
}

/// The texts of the input, in order.
pub open spec fn input_texts(items: Seq<InputView>) -> Seq<Seq<char>>
    decreases items.len(),
{
    if items.len() == 0 {
        Seq::empty()
    } else {
        input_texts(items.drop_last()) + texts_of_input(items.last())
    }
}

/// The texts of the output, in order.
pub open spec fn output_texts(items: Seq<ShownItem>) -> Seq<Seq<char>>
    decreases items.len(),
{
    if items.len() == 0 {
        Seq::empty()
    } else {
        output_texts(items.drop_last()) + texts_of_output(items.last())
    }
}

/// The texts that are to be redacted before a conversation is archived.
pub open spec fn texts_to_redact(
    request: RequestView,
    response: ShownResponse,
    mode: CaptureMode,
) -> Seq<Seq<char>> {
    if mode == CaptureMode::MetadataOnly {
        Seq::empty()
    } else {
        input_texts(request.input) + output_texts(response.output)
    }
}

fn push_text(texts: &mut Vec<String>, text: &str)
    ensures
        final(texts).deep_view() == old(texts).deep_view().push(text@),
{
    let ghost before = texts.deep_view();
    texts.push(text.to_owned());
    assert(texts.deep_view() =~= before.push(text@));
}

fn push_input_texts(texts: &mut Vec<String>, item: &CanonicalInputItem)
    ensures
        final(texts).deep_view() == old(texts).deep_view() + texts_of_input(item.deep_view()),
{
    let ghost before = texts.deep_view();
    match item {
        CanonicalInputItem::Text { content } => {
            push_text(texts, content.as_str());
            assert(texts.deep_view() =~= before + seq![content@]);
        },
        CanonicalInputItem::FunctionCallOutput { output, .. } => {
            push_text(texts, output.as_str());
            assert(texts.deep_view() =~= before + seq![output@]);
        },
        CanonicalInputItem::Message { content, .. } => {
            let ghost views = content.deep_view();
            let mut i: usize = 0;
            assert(views.take(0) =~= Seq::empty());
            assert(before + texts_of_blocks(views.take(0)) =~= before);
            while i < content.len()
                invariant
                    i <= content.len(),
                    views == content.deep_view(),
                    texts.deep_view() == before + texts_of_blocks(views.take(i as int)),
                decreases content.len() - i,
            {
                assert(views.take(i + 1).drop_last() =~= views.take(i as int));
                assert(views[i as int] == content@[i as int].deep_view());
                if let ContentBlock::Text { text } = &content[i] {
                    push_text(texts, text.as_str());
                    assert(texts.deep_view() =~= before + texts_of_blocks(views.take(i + 1)));
                }
                i = i + 1;
            }
            assert(views.take(views.len() as int) =~= views);
        },
    }
}

fn push_output_texts(texts: &mut Vec<String>, item: &DownstreamOutputItem)
    ensures
        final(texts).deep_view() == old(texts).deep_view() + texts_of_output(item.deep_view()),
{
    let ghost before = texts.deep_view();
    match item {
        DownstreamOutputItem::Message { content, .. } => {
            let ghost views = content.deep_view();
            let mut i: usize = 0;
            assert(before + texts_of_shown(views).take(0) =~= before);
            while i < content.len()
                invariant
                    i <= content.len(),
                    views == content.deep_view(),
                    texts.deep_view() == before + texts_of_shown(views).take(i as int),
                decreases content.len() - i,
            {
                assert(views[i as int] == content@[i as int].deep_view());
                let DownstreamContentBlock::OutputText { text, .. } = &content[i];
                push_text(texts, text.as_str());
                assert(texts.deep_view() =~= before + texts_of_shown(views).take(i + 1));
                i = i + 1;
            }
            assert(texts_of_shown(views).take(views.len() as int) =~= texts_of_shown(views));
        },
        DownstreamOutputItem::FunctionCall { arguments, .. } => {
            push_text(texts, arguments.as_str());
            assert(texts.deep_view() =~= before + seq![arguments@]);
        },
        DownstreamOutputItem::Reasoning { .. } => {
            assert(before + Seq::<Seq<char>>::empty() =~= before);
        },
    }
}

/// The texts that are to be redacted before a conversation is archived, in
/// order.
pub fn redaction_inputs(
    canonical: &CanonicalResponseRequest,
    response: &DownstreamResponse,
    mode: CaptureMode,
) -> (texts: Vec<String>)
    ensures
        texts.deep_view() == texts_to_redact(canonical.deep_view(), response.deep_view(), mode),
{
    let mut texts: Vec<String> = Vec::new();
    assert(texts.deep_view() =~= Seq::empty());
    if mode == CaptureMode::MetadataOnly {
        return texts;
    }
    let ghost inputs = canonical.input.deep_view();
    let mut i: usize = 0;
    assert(inputs.take(0) =~= Seq::empty());
    while i < canonical.input.len()
        invariant
            i <= canonical.input.len(),
            inputs == canonical.input.deep_view(),
            texts.deep_view() == input_texts(inputs.take(i as int)),
        decreases canonical.input.len() - i,
    {
        assert(inputs.take(i + 1).drop_last() =~= inputs.take(i as int));
        push_input_texts(&mut texts, &canonical.input[i]);
        i = i + 1;
    }
    assert(inputs.take(inputs.len() as int) =~= inputs);
    let ghost front = input_texts(inputs);
    let ghost outputs = response.output.deep_view();
    let mut j: usize = 0;
    assert(outputs.take(0) =~= Seq::empty());
    assert(front + output_texts(outputs.take(0)) =~= front);
    while j < response.output.len()
        invariant
            j <= response.output.len(),
            outputs == response.output.deep_view(),
            texts.deep_view() == front + output_texts(outputs.take(j as int)),
        decreases response.output.len() - j,
    {
        assert(outputs.take(j + 1).drop_last() =~= outputs.take(j as int));
        push_output_texts(&mut texts, &response.output[j]);
        assert(texts.deep_view() =~= front + output_texts(outputs.take(j + 1)));
        j = j + 1;
    }
    assert(outputs.take(outputs.len() as int) =~= outputs);
    texts
}

/// A message of the archive.
#[derive(Debug)]
pub struct MessageRecord {
    pub role: String,
    pub content: Vec<Json>,
}

/// The mathematical value of a [`MessageRecord`].
#[verifier::ext_equal]
pub struct MessageView {
    pub role: Seq<char>,
    pub content: Seq<JsonView>,
}

impl DeepView for MessageRecord {
    type V = MessageView;

    open spec fn deep_view(&self) -> MessageView {
        MessageView { role: self.role@, content: self.content.deep_view() }
    }
}

/// A text in the archive.
pub open spec fn text_entry(text: Seq<char>) -> JsonView {
    JsonView::Object(seq![("text"@, JsonView::Text(text)), ("type"@, JsonView::Text("text"@))])
}

/// The result of a call in the archive; in brief where only what is visible is
/// archived.
pub open spec fn result_entry(
    call_id: Seq<char>,
    output: Seq<char>,
    mode: CaptureMode,
) -> JsonView {
    if mode == CaptureMode::VisibleOnly {
        JsonView::Object(
            seq![
                ("call_id"@, JsonView::Text(call_id)),
                ("summary"@, JsonView::Text(first_chars(output, 256))),
                ("type"@, JsonView::Text("tool_result_summary"@)),
            ],
        )
    } else {
        JsonView::Object(
            seq![
                ("call_id"@, JsonView::Text(call_id)),
                ("output"@, JsonView::Text(output)),
                ("type"@, JsonView::Text("tool_result"@)),
            ],
        )
    }
}

/// A call in the archive; in brief where only what is visible is archived.
pub open spec fn call_entry(
    name: Seq<char>,
    call_id: Seq<char>,
    arguments: Seq<char>,
    mode: CaptureMode,
) -> JsonView {
    if mode == CaptureMode::VisibleOnly {
        JsonView::Object(
            seq![
                ("arguments_summary"@, JsonView::Text(first_chars(arguments, 256))),
                ("call_id"@, JsonView::Text(call_id)),
                ("name"@, JsonView::Text(name)),
                ("type"@, JsonView::Text("tool_call_summary"@)),
            ],
        )
    } else {
        JsonView::Object(
            seq![
                ("arguments"@, JsonView::Text(arguments)),
                ("call_id"@, JsonView::Text(call_id)),
                ("name"@, JsonView::Text(name)),
                ("type"@, JsonView::Text("tool_call"@)),
            ],
        )
    }
}

/// Texts in the archive, each redacted.
pub open spec fn text_entries(
    texts: Seq<Seq<char>>,
    redactions: Seq<RedactionView>,
) -> Seq<JsonView> {
    texts.map_values(|text: Seq<char>| text_entry(redacted(redactions, text)))
}

/// A message of texts; none where there are no texts.
pub open spec fn text_message(
    role: Seq<char>,
    texts: Seq<Seq<char>>,
    redactions: Seq<RedactionView>,
) -> Option<MessageView> {
    if texts.len() == 0 {
        None
    } else {
        Some(MessageView { role, content: text_entries(texts, redactions) })
    }
}

/// What is archived of an item of the input.
pub open spec fn archived_input(
    item: InputView,
    mode: CaptureMode,
    redactions: Seq<RedactionView>,
) -> Option<MessageView> {
    match item {
        InputView::Text { content } => text_message("user"@, seq![content], redactions),
        InputView::Message { role, content } => text_message(
            role,
            texts_of_blocks(content),
            redactions,
        ),
        InputView::FunctionCallOutput { call_id, output } => Some(
            MessageView {
                role: "tool"@,
                content: seq![result_entry(call_id, redacted(redactions, output), mode)],
            },
        ),
    }
}

/// What is archived of an item that the client was shown: never any reasoning.
pub open spec fn archived_output(
    item: ShownItem,
    mode: CaptureMode,
    redactions: Seq<RedactionView>,
) -> Option<MessageView> {
    match item {
        ShownItem::Message { role, content, .. } => text_message(
            role,
            texts_of_shown(content),
            redactions,
        ),
        ShownItem::FunctionCall { call_id, name, arguments, .. } => Some(
            MessageView {
                role: "assistant"@,
                content: seq![call_entry(name, call_id, redacted(redactions, arguments), mode)],
            },
        ),
        ShownItem::Reasoning { .. } => None,
    }
}

/// What is archived of the items of the input.
pub open spec fn archived_inputs(
    items: Seq<InputView>,
    mode: CaptureMode,
    redactions: Seq<RedactionView>,
) -> Seq<MessageView> {
    present(items.map_values(|item: InputView| archived_input(item, mode, redactions)))
}

/// What is archived of the items that the client was shown.
pub open spec fn archived_outputs(
    items: Seq<ShownItem>,
    mode: CaptureMode,
    redactions: Seq<RedactionView>,
) -> Seq<MessageView> {
    present(items.map_values(|item: ShownItem| archived_output(item, mode, redactions)))
}

/// The messages that are archived of a conversation.
pub open spec fn archived_messages(
    request: RequestView,
    response: ShownResponse,
    mode: CaptureMode,
    redactions: Seq<RedactionView>,
) -> Seq<MessageView> {
    if mode == CaptureMode::MetadataOnly {
        Seq::empty()
    } else {
        archived_inputs(request.input, mode, redactions) + archived_outputs(
            response.output,
            mode,
            redactions,
        )
    }
}

/// Whether a conversation is archived as redacted or as clean.
pub open spec fn redaction_status(mode: CaptureMode, redactions: Seq<RedactionView>) -> Seq<char> {
    if mode != CaptureMode::MetadataOnly && some_redacted(redactions) {
        "redacted"@
    } else {
        "clean"@
    }
}

fn text_entry_value(text: &str) -> (r: Json)
    ensures
        r@ == text_entry(text@),
{
    let mut members = no_members();
    add_member(&mut members, "text", text_value(text));
    add_member(&mut members, "type", text_value("text"));
    assert(members.deep_view() =~= text_entry(text@)->Object_0);
    object_of(members)
}

fn result_entry_value(call_id: &str, output: &str, mode: CaptureMode) -> (r: Json)
    ensures
        r@ == result_entry(call_id@, output@, mode),
{
    let mut members = no_members();
    add_member(&mut members, "call_id", text_value(call_id));
    if mode == CaptureMode::VisibleOnly {
        let summary = take_chars(output, 256);
        add_member(&mut members, "summary", text_value(summary.as_str()));
        add_member(&mut members, "type", text_value("tool_result_summary"));
    } else {
        add_member(&mut members, "output", text_value(output));
        add_member(&mut members, "type", text_value("tool_result"));
    }
    assert(members.deep_view() =~= result_entry(call_id@, output@, mode)->Object_0);
    object_of(members)
}

fn call_entry_value(name: &str, call_id: &str, arguments: &str, mode: CaptureMode) -> (r: Json)
    ensures
        r@ == call_entry(name@, call_id@, arguments@, mode),
{
    let brief = mode == CaptureMode::VisibleOnly;
    let mut members = no_members();
    if brief {
        let summary = take_chars(arguments, 256);
        add_member(&mut members, "arguments_summary", text_value(summary.as_str()));
    } else {
        add_member(&mut members, "arguments", text_value(arguments));
    }
    add_member(&mut members, "call_id", text_value(call_id));
    add_member(&mut members, "name", text_value(name));
    add_member(
        &mut members,
        "type",
        text_value(
            if brief {
                "tool_call_summary"
            } else {
                "tool_call"
            },
        ),
    );
    assert(members.deep_view() =~= call_entry(name@, call_id@, arguments@, mode)->Object_0);
    object_of(members)
}

fn message_of_texts(role: &str, texts: &Vec<String>, redactions: &Vec<Redaction>) -> (r: Option<
    MessageRecord,
>)
    ensures
        r.deep_view() == text_message(role@, texts.deep_view(), redactions.deep_view()),
{
    assert(texts.deep_view().len() == texts@.len());
    if texts.len() == 0 {
        return None;
    }
    let ghost wanted = text_entries(texts.deep_view(), redactions.deep_view());
    let mut content: Vec<Json> = Vec::new();
    let mut i: usize = 0;
    assert(content.deep_view() =~= wanted.take(0));
    while i < texts.len()
        invariant
            i <= texts.len(),
            wanted == text_entries(texts.deep_view(), redactions.deep_view()),
            content.deep_view() == wanted.take(i as int),
        decreases texts.len() - i,
    {
        let text = redacted_text(redactions, texts[i].as_str());
        add_item(&mut content, text_entry_value(text.as_str()));
        assert(content.deep_view() =~= wanted.take(i + 1));
        i = i + 1;
    }
    assert(wanted.take(wanted.len() as int) =~= wanted);
    Some(MessageRecord { role: role.to_owned(), content })
}

fn message_of_entry(role: &str, entry: Json) -> (r: MessageRecord)
    ensures
        r.deep_view() == (MessageView { role: role@, content: seq![entry@] }),
{
    let mut content: Vec<Json> = Vec::new();
    assert(content.deep_view() =~= Seq::empty());
    let ghost shown = entry@;
    add_item(&mut content, entry);
    assert(content.deep_view() =~= seq![shown]);
    MessageRecord { role: role.to_owned(), content }
}

fn archive_input(item: &CanonicalInputItem, mode: CaptureMode, redactions: &Vec<Redaction>) -> (r:
    Option<MessageRecord>)
    ensures
        r.deep_view() == archived_input(item.deep_view(), mode, redactions.deep_view()),
{
    if let CanonicalInputItem::FunctionCallOutput { call_id, output } = item {
        let text = redacted_text(redactions, output.as_str());
        let entry = result_entry_value(call_id.as_str(), text.as_str(), mode);
        return Some(message_of_entry("tool", entry));
    }
    let mut texts: Vec<String> = Vec::new();
    push_input_texts(&mut texts, item);
    assert(texts.deep_view() =~= texts_of_input(item.deep_view()));
    let role: &str = match item {
        CanonicalInputItem::Message { role, .. } => role.as_str(),
        _ => "user",
    };
    message_of_texts(role, &texts, redactions)
}

fn archive_output(
    item: &DownstreamOutputItem,
    mode: CaptureMode,
    redactions: &Vec<Redaction>,
) -> (r: Option<MessageRecord>)
    ensures
        r.deep_view() == archived_output(item.deep_view(), mode, redactions.deep_view()),
{
    match item {
        DownstreamOutputItem::Message { role, .. } => {
            let mut texts: Vec<String> = Vec::new();
            push_output_texts(&mut texts, item);
            assert(texts.deep_view() =~= texts_of_output(item.deep_view()));
            message_of_texts(role.as_str(), &texts, redactions)
        },
        DownstreamOutputItem::FunctionCall { call_id, name, arguments, .. } => {
            let text = redacted_text(redactions, arguments.as_str());
            let entry = call_entry_value(name.as_str(), call_id.as_str(), text.as_str(), mode);
            Some(message_of_entry("assistant", entry))
        },
        DownstreamOutputItem::Reasoning { .. } => None,
    }
}

fn push_message(messages: &mut Vec<MessageRecord>, message: Option<MessageRecord>)
    ensures
        final(messages).deep_view() == (match message.deep_view() {
            Some(message) => old(messages).deep_view().push(message),
            None => old(messages).deep_view(),
        }),
{
    let ghost before = messages.deep_view();
    if let Some(message) = message {
        let ghost shown = message.deep_view();
        messages.push(message);
        assert(messages.deep_view() =~= before.push(shown));
    }
}

/// The messages that are archived of a conversation, and whether anything was
/// redacted. `redactions` holds the redactions of [`redaction_inputs`].
pub fn conversation_messages_for_capture_mode(
    canonical: &CanonicalResponseRequest,
    response: &DownstreamResponse,
    mode: CaptureMode,
    redactions: &Vec<Redaction>,
) -> (r: (Vec<MessageRecord>, String))
    ensures
        r.0.deep_view() == archived_messages(
            canonical.deep_view(),
            response.deep_view(),
            mode,
            redactions.deep_view(),
        ),
        r.1@ == redaction_status(mode, redactions.deep_view()),
{
    let mut messages: Vec<MessageRecord> = Vec::new();
    assert(messages.deep_view() =~= Seq::empty());
    if mode == CaptureMode::MetadataOnly {
        return (messages, "clean".to_owned());
    }
    let ghost table = redactions.deep_view();
    let ghost inputs = canonical.input.deep_view().map_values(
        |item: InputView| archived_input(item, mode, table),
    );
    let mut i: usize = 0;
    assert(inputs.take(0) =~= Seq::empty());
    while i < canonical.input.len()
        invariant
            i <= canonical.input.len(),
            table == redactions.deep_view(),
            inputs == canonical.input.deep_view().map_values(
                |item: InputView| archived_input(item, mode, table),
            ),
            messages.deep_view() == present(inputs.take(i as int)),
        decreases canonical.input.len() - i,
    {
        assert(inputs.take(i + 1).drop_last() =~= inputs.take(i as int));
        let message = archive_input(&canonical.input[i], mode, redactions);
        push_message(&mut messages, message);
        i = i + 1;
    }
    assert(inputs.take(inputs.len() as int) =~= inputs);
    let ghost front = messages.deep_view();
    let ghost outputs = response.output.deep_view().map_values(
        |item: ShownItem| archived_output(item, mode, table),
    );
    let mut j: usize = 0;
    assert(outputs.take(0) =~= Seq::empty());
    assert(front + present(outputs.take(0)) =~= front);
    while j < response.output.len()
        invariant
            j <= response.output.len(),
            table == redactions.deep_view(),
            outputs == response.output.deep_view().map_values(
                |item: ShownItem| archived_output(item, mode, table),
            ),
            messages.deep_view() == front + present(outputs.take(j as int)),
        decreases response.output.len() - j,
    {
        assert(outputs.take(j + 1).drop_last() =~= outputs.take(j as int));
        let message = archive_output(&response.output[j], mode, redactions);
        push_message(&mut messages, message);
        assert(messages.deep_view() =~= front + present(outputs.take(j + 1)));
        j = j + 1;
    }
    assert(outputs.take(outputs.len() as int) =~= outputs);
    let status: &str = if any_redacted(redactions) {
        "redacted"
    } else {
        "clean"
    };
    (messages, status.to_owned())
}

/// The names of the tools of a request.
pub open spec fn tool_names(tools: Seq<ToolView>) -> Seq<Seq<char>> {
    tools.map_values(|tool: ToolView| tool.name)
}

/// The names of the tools of a request, in order.
pub fn conversation_tools(canonical: &CanonicalResponseRequest) -> (names: Vec<String>)
    ensures
        names.deep_view() == tool_names(canonical.deep_view().tools),
{
    let ghost wanted = tool_names(canonical.tools.deep_view());
    let mut names: Vec<String> = Vec::new();
    let mut i: usize = 0;
    assert(names.deep_view() =~= wanted.take(0));
    while i < canonical.tools.len()
        invariant
            i <= canonical.tools.len(),
            wanted == tool_names(canonical.tools.deep_view()),
            names.deep_view() == wanted.take(i as int),
        decreases canonical.tools.len() - i,
    {
        push_text(&mut names, canonical.tools[i].name.as_str());
        assert(names.deep_view() =~= wanted.take(i + 1));
        i = i + 1;
    }
    assert(wanted.take(wanted.len() as int) =~= wanted);
    names
}

/// The digest of a text as it is archived.
pub fn stable_hash_text(digest: &str) -> (r: String)
    ensures
        r@ == "sha256:"@ + digest@,
{
    join2("sha256:", digest)
}

/// The secret under which texts are hashed for the archive.
pub open spec fn archive_salt(log_secret: Option<Seq<char>>) -> Seq<char> {
    match log_secret {
        Some(secret) => secret,
        None => "modelwire-archive-default-secret"@,
    }
}

/// The secret under which texts are hashed for the archive.
pub fn archive_hash_salt(log_secret: &Option<String>) -> (r: String)
    ensures
        r@ == archive_salt(log_secret.deep_view()),
{
    match log_secret {
        Some(secret) => secret.clone(),
        None => "modelwire-archive-default-secret".to_owned(),
    }
}

/// The text whose digest stands for a provider's configuration.
pub fn provider_config_text(target: &TargetSnapshot, resolved: &ResolvedTargetProtocol) -> (r:
    String)
    ensures
        r@ == target.provider_id@ + "|"@ + target.provider_auth_mode@ + "|"@
            + resolved.wire_api.name(),
{
    join5(
        target.provider_id.as_str(),
        "|",
        target.provider_auth_mode.as_str(),
        "|",
        resolved.wire_api.as_str(),
    )
}

/// The digests of what is archived only as a digest: the address of the
/// provider, [`provider_config_text`] and the upstream's own id of the response,
/// or the empty text where it gave none.
#[derive(Debug)]
pub struct ArchiveDigests {
    pub provider_base_url: String,
    pub provider_config: String,
    pub upstream_response_id: String,
}

/// What the archive is told beside the conversation.
#[derive(Debug)]
pub struct ArchivePersistHints {
    pub capture_mode_override: Option<String>,
    pub winning_attempt_index: u32,
    pub routing_attempts: Vec<RoutingAttempt>,
}

/// A conversation as it is archived.
#[derive(Debug)]
pub struct ConversationRecord {
    pub schema: String,
    pub conversation_id: String,
    pub root_response_id: String,
    pub created_at: String,
    pub capture_mode: String,
    pub request_id: String,
    pub previous_response_id: Option<String>,
    pub route_id: String,
    pub target_id: String,
    pub fallback_attempt: u32,
    pub downstream_model: String,
    pub upstream_model: String,
    pub provider_id: String,
    pub provider_name: String,
    pub provider_base_url_hash: String,
    pub provider_config_hash: String,
    pub state_scope: String,
    pub wire_api: String,
    pub detected_wire_api: String,
    pub upstream_response_id_hash: String,
    pub had_error: bool,
    pub had_fallback: bool,
    pub attempts: Vec<RoutingAttempt>,
    pub messages: Vec<MessageRecord>,
    pub tools: Vec<String>,
    pub input_tokens: u64,
    pub output_tokens: u64,
    pub reasoning_tokens: u64,
    pub redaction_status: String,
    pub redaction_policy: String,
}

/// The mathematical value of a [`ConversationRecord`].
#[verifier::ext_equal]
pub struct ConversationView {
    pub schema: Seq<char>,
    pub conversation_id: Seq<char>,
    pub root_response_id: Seq<char>,
    pub created_at: Seq<char>,
    pub capture_mode: Seq<char>,
    pub request_id: Seq<char>,
    pub previous_response_id: Option<Seq<char>>,
    pub route_id: Seq<char>,
    pub target_id: Seq<char>,
    pub fallback_attempt: u32,
    pub downstream_model: Seq<char>,
    pub upstream_model: Seq<char>,
    pub provider_id: Seq<char>,
    pub provider_name: Seq<char>,
    pub provider_base_url_hash: Seq<char>,
    pub provider_config_hash: Seq<char>,
    pub state_scope: Seq<char>,
    pub wire_api: Seq<char>,
    pub detected_wire_api: Seq<char>,
    pub upstream_response_id_hash: Seq<char>,
    pub had_error: bool,
    pub had_fallback: bool,
    pub attempts: Seq<AttemptView>,
    pub messages: Seq<MessageView>,
    pub tools: Seq<Seq<char>>,
    pub input_tokens: u64,
    pub output_tokens: u64,
    pub reasoning_tokens: u64,
    pub redaction_status: Seq<char>,
    pub redaction_policy: Seq<char>,
}

impl DeepView for ConversationRecord {
    type V = ConversationView;

    open spec fn deep_view(&self) -> ConversationView {
        ConversationView {
            schema: self.schema@,
            conversation_id: self.conversation_id@,
            root_response_id: self.root_response_id@,
            created_at: self.created_at@,
            capture_mode: self.capture_mode@,
            request_id: self.request_id@,
            previous_response_id: self.previous_response_id.deep_view(),
            route_id: self.route_id@,
            target_id: self.target_id@,
            fallback_attempt: self.fallback_attempt,
            downstream_model: self.downstream_model@,
            upstream_model: self.upstream_model@,
            provider_id: self.provider_id@,
            provider_name: self.provider_name@,
            provider_base_url_hash: self.provider_base_url_hash@,
            provider_config_hash: self.provider_config_hash@,
            state_scope: self.state_scope@,
            wire_api: self.wire_api@,
            detected_wire_api: self.detected_wire_api@,
            upstream_response_id_hash: self.upstream_response_id_hash@,
            had_error: self.had_error,
            had_fallback: self.had_fallback,
            attempts: self.attempts.deep_view(),
            messages: self.messages.deep_view(),
            tools: self.tools.deep_view(),
            input_tokens: self.input_tokens,
            output_tokens: self.output_tokens,
            reasoning_tokens: self.reasoning_tokens,
            redaction_status: self.redaction_status@,
            redaction_policy: self.redaction_policy@,
        }
    }
}

/// The position of the last of so many attempts, which served the request.
pub open spec fn last_position(count: nat) -> u32 {
    if count == 0 {
        0
    } else {
        (count - 1) as u32
    }
}

/// What is archived of the attempts at a request, the last of which served it.
pub fn archive_hints(
    capture_mode_override: Option<String>,
    routing_attempts: Vec<RoutingAttempt>,
) -> (r: ArchivePersistHints)
    ensures
        r.capture_mode_override == capture_mode_override,
        r.routing_attempts == routing_attempts,
        r.winning_attempt_index == last_position(routing_attempts@.len()),
{
    let count: usize = routing_attempts.len();
    let winning_attempt_index: u32 = if count == 0 {
        0
    } else {
        #[verifier::truncate]
        ((count - 1) as u32)
    };
    ArchivePersistHints { capture_mode_override, winning_attempt_index, routing_attempts }
}

/// The mode under which a conversation is archived: that of the client's key
/// where it has one, or else the configured one.
pub open spec fn effective_mode(hint: Option<Seq<char>>, configured: Seq<char>) -> CaptureMode {
    mode_named(
        match hint {
            Some(mode) => mode,
            None => configured,
        },
    )
}

/// The mode under which a conversation is archived.
pub fn effective_capture_mode(hint: &Option<String>, configured: &str) -> (r: CaptureMode)
    ensures
        r == effective_mode(hint.deep_view(), configured@),
{
    match hint {
        Some(mode) => parse_capture_mode(mode.as_str()),
        None => parse_capture_mode(configured),
    }
}

/// Whether a conversation is to be archived; in full detail never on a server
/// that is open to all.
pub open spec fn may_archive(mode: CaptureMode, bind: Seq<char>) -> Result<bool, Seq<char>> {
    if mode == CaptureMode::Off {
        Ok(false)
    } else if mode == CaptureMode::DebugRaw && is_open_address(trimmed(bind)) {
        Err("debug_raw archive mode is not allowed on public bind"@)
    } else {
        Ok(true)
    }
}

/// Whether a conversation is to be archived.
pub fn should_archive(mode: CaptureMode, bind: &str) -> (r: Result<bool, String>)
    ensures
        match may_archive(mode, bind@) {
            Ok(wanted) => r matches Ok(answer) && answer == wanted,
            Err(reason) => r matches Err(message) && message@ == reason,
        },
{
    if mode == CaptureMode::Off {
        return Ok(false);
    }
    if mode == CaptureMode::DebugRaw && is_public_bind_address(bind) {
        return Err("debug_raw archive mode is not allowed on public bind".to_owned());
    }
    Ok(true)
}

/// A conversation as it is archived.
pub open spec fn archived_conversation(
    created_at: Seq<char>,
    request: RequestView,
    route: RouteSnapshotView,
    target: SnapshotView,
    resolved: ResolvedView,
    response: ShownResponse,
    mode: CaptureMode,
    winning_attempt_index: u32,
    attempts: Seq<AttemptView>,
    digests: ArchiveDigests,
    redactions: Seq<RedactionView>,
) -> ConversationView {
    ConversationView {
        schema: "modelwire.conversation.v1"@,
        conversation_id: "conv_"@ + response.id,
        root_response_id: response.id,
        created_at,
        capture_mode: mode.name(),
        request_id: request.request_id,
        previous_response_id: request.previous_response_id,
        route_id: route.route_id,
        target_id: target.target_id,
        fallback_attempt: winning_attempt_index,
        downstream_model: route.downstream_model,
        upstream_model: target.upstream_model,
        provider_id: target.provider_id,
        provider_name: target.provider_name,
        provider_base_url_hash: "sha256:"@ + digests.provider_base_url@,
        provider_config_hash: "sha256:"@ + digests.provider_config@,
        state_scope: match target.state_scope {
            Some(scope) => scope,
            None => ""@,
        },
        wire_api: target.configured_wire_api.name(),
        detected_wire_api: resolved.wire_api.name(),
        upstream_response_id_hash: "sha256:"@ + digests.upstream_response_id@,
        had_error: false,
        had_fallback: attempts.len() > 1,
        attempts,
        messages: archived_messages(request, response, mode, redactions),
        tools: tool_names(request.tools),
        input_tokens: match response.usage {
            Some(usage) => usage.input_tokens,
            None => 0,
        },
        output_tokens: match response.usage {
            Some(usage) => usage.output_tokens,
            None => 0,
        },
        reasoning_tokens: match response.usage {
            Some(usage) => match usage.reasoning_tokens {
                Some(tokens) => tokens,
                None => 0,
            },
            None => 0,
        },
        redaction_status: redaction_status(mode, redactions),
        redaction_policy: "default"@,
    }
}

/// A conversation as it is archived at a time.
pub fn archive_successful_response_at(
    created_at: String,
    canonical: &CanonicalResponseRequest,
    route: &RouteSnapshot,
    target: &TargetSnapshot,
    resolved: &ResolvedTargetProtocol,
    response: &DownstreamResponse,
    mode: CaptureMode,
    hints: ArchivePersistHints,
    digests: &ArchiveDigests,
    redactions: &Vec<Redaction>,
) -> (r: ConversationRecord)
    ensures
        r.deep_view() == archived_conversation(
            created_at@,
            canonical.deep_view(),
            route.deep_view(),
            target.deep_view(),
            resolved.deep_view(),
            response.deep_view(),
            mode,
            hints.winning_attempt_index,
            hints.routing_attempts.deep_view(),
            *digests,
            redactions.deep_view(),
        ),
{
    let (messages, status) = conversation_messages_for_capture_mode(
        canonical,
        response,
        mode,
        redactions,
    );
    let tools = conversation_tools(canonical);
    let (input_tokens, output_tokens, reasoning_tokens): (u64, u64, u64) = match &response.usage {
        Some(usage) => (
            usage.input_tokens,
            usage.output_tokens,
            match usage.reasoning_tokens {
                Some(tokens) => tokens,
                None => 0,
            },
        ),
        None => (0, 0, 0),
    };
    let attempts = hints.routing_attempts;
    assert(attempts.deep_view().len() == attempts@.len());
    let had_fallback = attempts.len() > 1;
    ConversationRecord {
        schema: "modelwire.conversation.v1".to_owned(),
        conversation_id: join2("conv_", response.id.as_str()),
        root_response_id: response.id.clone(),
        created_at,
        capture_mode: mode.as_str().to_owned(),
        request_id: canonical.request_id.clone(),
        previous_response_id: copy_opt(&canonical.previous_response_id),
        route_id: route.route_id.clone(),
        target_id: target.target_id.clone(),
        fallback_attempt: hints.winning_attempt_index,
        downstream_model: route.downstream_model.clone(),
        upstream_model: target.upstream_model.clone(),
        provider_id: target.provider_id.clone(),
        provider_name: target.provider_name.clone(),
        provider_base_url_hash: stable_hash_text(digests.provider_base_url.as_str()),
        provider_config_hash: stable_hash_text(digests.provider_config.as_str()),
        state_scope: match &target.state_scope {
            Some(scope) => scope.clone(),
            None => "".to_owned(),
        },
        wire_api: target.configured_wire_api.as_str().to_owned(),
        detected_wire_api: resolved.wire_api.as_str().to_owned(),
        upstream_response_id_hash: stable_hash_text(digests.upstream_response_id.as_str()),
        had_error: false,
        had_fallback,
        attempts,
        messages,
        tools,
        input_tokens,
        output_tokens,
        reasoning_tokens,
        redaction_status: status,
        redaction_policy: "default".to_owned(),
    }
}

/// A conversation as it is archived now.
pub fn archive_successful_response(
    canonical: &CanonicalResponseRequest,
    route: &RouteSnapshot,
    target: &TargetSnapshot,
    resolved: &ResolvedTargetProtocol,
    response: &DownstreamResponse,
    mode: CaptureMode,
    hints: ArchivePersistHints,
    digests: &ArchiveDigests,
    redactions: &Vec<Redaction>,
) -> (r: ConversationRecord)
    ensures
        r.deep_view() == archived_conversation(
            r.created_at@,
            canonical.deep_view(),
            route.deep_view(),
            target.deep_view(),
            resolved.deep_view(),
            response.deep_view(),
            mode,
            hints.winning_attempt_index,
            hints.routing_attempts.deep_view(),
            *digests,
            redactions.deep_view(),
        ),
        exists|secs: i64, nanos: u32| #[trigger]
            is_clock_time(secs, nanos) && r.created_at@ == rfc3339_text(secs, nanos),
{
    let now = clock_now();
    assert(is_clock_time(now.0, now.1));
    archive_successful_response_at(
        write_rfc3339(now.0, now.1),
        canonical,
        route,
        target,
        resolved,
        response,
        mode,
        hints,
        digests,
        redactions,
    )
}

/// A conversation as it is archived now under the settings: nothing where the mode
/// is off, and a refusal where it is not allowed on this server. `redactions` are
/// those of the texts that [`redaction_inputs`] gives for
/// [`effective_capture_mode`].
pub fn archive_response(
    canonical: &CanonicalResponseRequest,
    route: &RouteSnapshot,
    target: &TargetSnapshot,
    resolved: &ResolvedTargetProtocol,
    response: &DownstreamResponse,
    configured_mode: &str,
    bind: &str,
    hints: ArchivePersistHints,
    digests: &ArchiveDigests,
    redactions: &Vec<Redaction>,
) -> (r: Result<Option<ConversationRecord>, String>)
    ensures
        ({
            let mode = effective_mode(hints.capture_mode_override.deep_view(), configured_mode@);
            match may_archive(mode, bind@) {
                Err(reason) => r matches Err(message) && message@ == reason,
                Ok(wanted) => if wanted {
                    r matches Ok(Some(record)) && record.deep_view() == archived_conversation(
                        record.created_at@,
                        canonical.deep_view(),
                        route.deep_view(),
                        target.deep_view(),
                        resolved.deep_view(),
                        response.deep_view(),
                        mode,
                        hints.winning_attempt_index,
                        hints.routing_attempts.deep_view(),
                        *digests,
                        redactions.deep_view(),
                    ) && exists|secs: i64, nanos: u32| #[trigger]
                        is_clock_time(secs, nanos) && record.created_at@ == rfc3339_text(secs, nanos)
                } else {
                    r matches Ok(record) && record is None
                },
            }
        }),
{
    let mode = effective_capture_mode(&hints.capture_mode_override, configured_mode);
    match should_archive(mode, bind) {
        Err(message) => Err(message),
        Ok(wanted) => {
            if !wanted {
                return Ok(None);
            }
            let record = archive_successful_response(
                canonical,
                route,
                target,
                resolved,
                response,
                mode,
                hints,
                digests,
                redactions,
            );
            Ok(Some(record))
        },
    }
}

/// Reasoning is never archived: an output without its reasoning items is
/// archived as the same messages.
pub proof fn reasoning_is_never_archived(
    before: Seq<ShownItem>,
    reasoning: ShownItem,
    after: Seq<ShownItem>,
    mode: CaptureMode,
    redactions: Seq<RedactionView>,
)
    requires
        reasoning is Reasoning,
    ensures
        archived_outputs(before.push(reasoning) + after, mode, redactions) == archived_outputs(
            before + after,
            mode,
            redactions,
        ),
        output_texts(before.push(reasoning) + after) == output_texts(before + after),
    decreases after.len(),
{
    let f = |item: ShownItem| archived_output(item, mode, redactions);
    let long = before.push(reasoning) + after;
    let short = before + after;
    if after.len() == 0 {
        assert(long.drop_last() =~= before);
        assert(short =~= before);
        assert(long.map_values(f).drop_last() =~= before.map_values(f));
        assert(output_texts(before) + texts_of_output(reasoning) =~= output_texts(before));
    } else {
        let rest = after.drop_last();
        reasoning_is_never_archived(before, reasoning, rest, mode, redactions);
        assert(long.drop_last() =~= before.push(reasoning) + rest);
        assert(short.drop_last() =~= before + rest);
        assert(long.map_values(f).drop_last() =~= (before.push(reasoning) + rest).map_values(f));
        assert(short.map_values(f).drop_last() =~= (before + rest).map_values(f));
    }
}

/// With the metadata alone no message is archived and no text is read; with the
/// mode off, or an unknown one, nothing is archived at all; and full detail is
/// refused on a server that is open to all.
pub proof fn mode_bounds_what_is_archived(
    request: RequestView,
    response: ShownResponse,
    redactions: Seq<RedactionView>,
    bind: Seq<char>,
)
    ensures
        archived_messages(request, response, CaptureMode::MetadataOnly, redactions)
            == Seq::<MessageView>::empty(),
        texts_to_redact(request, response, CaptureMode::MetadataOnly) == Seq::<Seq<char>>::empty(),
        may_archive(CaptureMode::Off, bind) == Ok::<bool, Seq<char>>(false),
        is_open_address(trimmed(bind)) ==> may_archive(CaptureMode::DebugRaw, bind) is Err,
{
}

/// Whether two tables of redactions say the same of every one of the texts.
pub open spec fn agree_on(
    a: Seq<RedactionView>,
    b: Seq<RedactionView>,
    texts: Seq<Seq<char>>,
) -> bool {
    forall|i: int|
        0 <= i < texts.len() ==> redacted(a, #[trigger] texts[i]) == redacted(b, texts[i])
}

/// What is archived of the texts of a conversation is their redactions alone:
/// redactions that agree on the texts to be redacted lead to the same messages.
pub proof fn only_redactions_are_archived(
    request: RequestView,
    response: ShownResponse,
    mode: CaptureMode,
    a: Seq<RedactionView>,
    b: Seq<RedactionView>,
)
    requires
        agree_on(a, b, texts_to_redact(request, response, mode)),
    ensures
        archived_messages(request, response, mode, a) == archived_messages(
            request,
            response,
            mode,
            b,
        ),
{
    if mode != CaptureMode::MetadataOnly {
        let texts = texts_to_redact(request, response, mode);
        let front = input_texts(request.input);
        let back = output_texts(response.output);
        assert forall|i: int| 0 <= i < front.len() implies redacted(a, #[trigger] front[i])
            == redacted(b, front[i]) by {
            assert(texts[i] == front[i]);
        }
        assert forall|i: int| 0 <= i < back.len() implies redacted(a, #[trigger] back[i])
            == redacted(b, back[i]) by {
            assert(texts[front.len() + i] == back[i]);
        }
        lemma_inputs_agree(request.input, mode, a, b);
        lemma_outputs_agree(response.output, mode, a, b);
    }
}

proof fn lemma_texts_agree(texts: Seq<Seq<char>>, a: Seq<RedactionView>, b: Seq<RedactionView>)
    requires
        agree_on(a, b, texts),
    ensures
        text_entries(texts, a) == text_entries(texts, b),
{
    assert(text_entries(texts, a) =~= text_entries(texts, b));
}

proof fn lemma_inputs_agree(
    items: Seq<InputView>,
    mode: CaptureMode,
    a: Seq<RedactionView>,
    b: Seq<RedactionView>,
)
    requires
        agree_on(a, b, input_texts(items)),
    ensures
        archived_inputs(items, mode, a) == archived_inputs(items, mode, b),
    decreases items.len(),
{
    let f = |item: InputView| archived_input(item, mode, a);
    let g = |item: InputView| archived_input(item, mode, b);
    if items.len() == 0 {
        assert(items.map_values(f) =~= items.map_values(g));
    } else {
        let rest = items.drop_last();
        let front = input_texts(rest);
        let last = texts_of_input(items.last());
        let texts = input_texts(items);
        assert forall|i: int| 0 <= i < front.len() implies redacted(a, #[trigger] front[i])
            == redacted(b, front[i]) by {
            assert(texts[i] == front[i]);
        }
        assert forall|i: int| 0 <= i < last.len() implies redacted(a, #[trigger] last[i])
            == redacted(b, last[i]) by {
            assert(texts[front.len() + i] == last[i]);
        }
        lemma_inputs_agree(rest, mode, a, b);
        lemma_texts_agree(last, a, b);
        if let InputView::FunctionCallOutput { output, .. } = items.last() {
            assert(last[0] == output);
        }
        assert(items.map_values(f).drop_last() =~= rest.map_values(f));
        assert(items.map_values(g).drop_last() =~= rest.map_values(g));
    }
}

proof fn lemma_outputs_agree(
    items: Seq<ShownItem>,
    mode: CaptureMode,
    a: Seq<RedactionView>,
    b: Seq<RedactionView>,
)
    requires
        agree_on(a, b, output_texts(items)),
    ensures
        archived_outputs(items, mode, a) == archived_outputs(items, mode, b),
    decreases items.len(),
{
    let f = |item: ShownItem| archived_output(item, mode, a);
    let g = |item: ShownItem| archived_output(item, mode, b);
    if items.len() == 0 {
        assert(items.map_values(f) =~= items.map_values(g));
    } else {
        let rest = items.drop_last();
        let front = output_texts(rest);
        let last = texts_of_output(items.last());
        let texts = output_texts(items);
        assert forall|i: int| 0 <= i < front.len() implies redacted(a, #[trigger] front[i])
            == redacted(b, front[i]) by {
            assert(texts[i] == front[i]);
        }
        assert forall|i: int| 0 <= i < last.len() implies redacted(a, #[trigger] last[i])
            == redacted(b, last[i]) by {
            assert(texts[front.len() + i] == last[i]);
        }
        lemma_outputs_agree(rest, mode, a, b);
        lemma_texts_agree(last, a, b);
        if let ShownItem::FunctionCall { arguments, .. } = items.last() {
            assert(last[0] == arguments);
        }
        assert(items.map_values(f).drop_last() =~= rest.map_values(f));
        assert(items.map_values(g).drop_last() =~= rest.map_values(g));
    }
}

/// A mode is known by its name, in letters of either case and with white space around
/// it; whatever is not the name of a mode archives nothing.
pub proof fn capture_mode_is_known_by_its_name(mode: CaptureMode, name: Seq<char>)
    ensures
        mode != CaptureMode::Off ==> (mode_named(name) == mode <==> ascii_lowercased(trimmed(name))
            == mode.name()),
        mode_named(name) == CaptureMode::Off <==> ({
            let word = ascii_lowercased(trimmed(name));
            &&& word != "metadata_only"@ && word != "visible_only"@
            &&& word != "full_visible"@ && word != "debug_raw"@
        }),
        effective_mode(Some(name), mode.name()) == mode_named(name),
        effective_mode(None, name) == mode_named(name),
{
    reveal_strlit("metadata_only");
    reveal_strlit("visible_only");
    reveal_strlit("full_visible");
    reveal_strlit("debug_raw");
    assert("metadata_only"@.len() == 13 && "visible_only"@.len() == 12 && "full_visible"@.len()
        == 12 && "debug_raw"@.len() == 9);
    assert("visible_only"@[0] != "full_visible"@[0]);
}

/// The last redaction of a text stands for it, and of no other text; a text without a
/// redaction leaves nothing.
pub proof fn text_is_redacted_by_its_own(
    redactions: Seq<RedactionView>,
    redaction: RedactionView,
    text: Seq<char>,
)
    ensures
        redacted(redactions.push(redaction), redaction.original) == redaction.text,
        text != redaction.original ==> redacted(redactions.push(redaction), text) == redacted(
            redactions,
            text,
        ),
        (forall|i: int| 0 <= i < redactions.len() ==> (#[trigger] redactions[i]).original != text)
            ==> redacted(redactions, text).len() == 0,
    decreases redactions.len(),
{
    assert(redactions.push(redaction).drop_last() =~= redactions);
    if redactions.len() > 0 && (forall|i: int|
        0 <= i < redactions.len() ==> (#[trigger] redactions[i]).original != text) {
        let front = redactions.drop_last();
        assert(redactions[redactions.len() - 1].original != text);
        assert forall|i: int| 0 <= i < front.len() implies (#[trigger] front[i]).original
            != text by {
            assert(front[i] == redactions[i]);
        }
        text_is_redacted_by_its_own(front, redaction, text);
    }
}

/// The texts of blocks are those of the text blocks, in order.
pub proof fn texts_of_blocks_are_the_texts(blocks: Seq<BlockView>)
    ensures
        texts_of_blocks(blocks) == blocks.filter(|block: BlockView| block is Text).map_values(
            |block: BlockView| block->text,
        ),
    decreases blocks.len(),
{
    reveal(Seq::filter);
    let is_text = |block: BlockView| block is Text;
    let text_of = |block: BlockView| block->text;
    if blocks.len() > 0 {
        let front = blocks.drop_last();
        texts_of_blocks_are_the_texts(front);
        if blocks.last() is Text {
            assert(front.filter(is_text).push(blocks.last()).map_values(text_of) =~= front.filter(
                is_text,
            ).map_values(text_of).push(blocks.last()->text));
        }
    } else {
        assert(blocks.filter(is_text).map_values(text_of) =~= Seq::empty());
    }
}

/// What is redacted is every text of the conversation: the plain texts, the texts of
/// messages and the results of calls that came in, and the texts and the arguments of
/// calls that went out.
pub proof fn every_text_is_redacted(
    request: RequestView,
    response: ShownResponse,
    mode: CaptureMode,
    i: int,
    k: int,
)
    requires
        mode != CaptureMode::MetadataOnly,
    ensures
        0 <= i < request.input.len() ==> {
            let texts = texts_to_redact(request, response, mode);
            match request.input[i] {
                InputView::Text { content } => texts.contains(content),
                InputView::FunctionCallOutput { output, .. } => texts.contains(output),
                InputView::Message { content, .. } => 0 <= k < content.len() && content[k] is Text
                    ==> texts.contains(content[k]->text),
            }
        },
        0 <= i < response.output.len() ==> {
            let texts = texts_to_redact(request, response, mode);
            match response.output[i] {
                ShownItem::Message { content, .. } => 0 <= k < content.len() ==> texts.contains(
                    content[k]->OutputText_text,
                ),
                ShownItem::FunctionCall { arguments, .. } => texts.contains(arguments),
                ShownItem::Reasoning { .. } => true,
            }
        },
{
    let front = input_texts(request.input);
    let back = output_texts(response.output);
    if 0 <= i < request.input.len() {
        let item = request.input[i];
        let texts = texts_of_input(item);
        let place = if item is Message {
            lemma_text_is_among(item->Message_content, k)
        } else {
            0
        };
        if 0 <= place < texts.len() {
            let at = lemma_input_texts_hold(request.input, i, place);
            assert((front + back)[at] == texts[place]);
        }
    }
    if 0 <= i < response.output.len() {
        let texts = texts_of_output(response.output[i]);
        let place = if response.output[i] is Message {
            k
        } else {
            0
        };
        if 0 <= place < texts.len() {
            let at = lemma_output_texts_hold(response.output, i, place);
            assert((front + back)[front.len() + at] == texts[place]);
        }
    }
}

proof fn lemma_text_is_among(blocks: Seq<BlockView>, k: int) -> (place: int)
    ensures
        0 <= k < blocks.len() && blocks[k] is Text ==> 0 <= place < texts_of_blocks(blocks).len()
            && texts_of_blocks(blocks)[place] == blocks[k]->text,
    decreases blocks.len(),
{
    if blocks.len() > 0 && k == blocks.len() - 1 {
        texts_of_blocks(blocks).len() - 1
    } else if blocks.len() > 0 {
        lemma_text_is_among(blocks.drop_last(), k)
    } else {
        0
    }
}

proof fn lemma_input_texts_hold(items: Seq<InputView>, i: int, place: int) -> (at: int)
    requires
        0 <= i < items.len(),
        0 <= place < texts_of_input(items[i]).len(),
    ensures
        0 <= at < input_texts(items).len(),
        input_texts(items)[at] == texts_of_input(items[i])[place],
    decreases items.len(),
{
    if i == items.len() - 1 {
        (input_texts(items.drop_last()).len() + place) as int
    } else {
        lemma_input_texts_hold(items.drop_last(), i, place)
    }
}

proof fn lemma_output_texts_hold(items: Seq<ShownItem>, i: int, place: int) -> (at: int)
    requires
        0 <= i < items.len(),
        0 <= place < texts_of_output(items[i]).len(),
    ensures
        0 <= at < output_texts(items).len(),
        output_texts(items)[at] == texts_of_output(items[i])[place],
    decreases items.len(),
{
    if i == items.len() - 1 {
        (output_texts(items.drop_last()).len() + place) as int
    } else {
        lemma_output_texts_hold(items.drop_last(), i, place)
    }
}

/// The result of a call is archived under its id: in full, or where only what is
/// visible is archived by its first 256 characters; a call likewise, with its name.
pub proof fn calls_are_archived_under_their_ids(
    call_id: Seq<char>,
    output: Seq<char>,
    name: Seq<char>,
    mode: CaptureMode,
)
    ensures
        result_entry(call_id, output, mode).holds("call_id"@, JsonView::Text(call_id)),
        call_entry(name, call_id, output, mode).holds("call_id"@, JsonView::Text(call_id)),
        call_entry(name, call_id, output, mode).holds("name"@, JsonView::Text(name)),
        mode != CaptureMode::VisibleOnly ==> {
            &&& result_entry(call_id, output, mode).holds("output"@, JsonView::Text(output))
            &&& result_entry(call_id, output, mode).holds("type"@, JsonView::Text("tool_result"@))
            &&& call_entry(name, call_id, output, mode).holds("arguments"@, JsonView::Text(output))
            &&& call_entry(name, call_id, output, mode).holds("type"@, JsonView::Text("tool_call"@))
        },
        mode == CaptureMode::VisibleOnly ==> {
            let brief = if output.len() <= 256 {
                output
            } else {
                output.take(256)
            };
            &&& result_entry(call_id, output, mode).holds("summary"@, JsonView::Text(brief))
            &&& result_entry(call_id, output, mode).holds(
                "type"@,
                JsonView::Text("tool_result_summary"@),
            )
            &&& call_entry(name, call_id, output, mode).holds(
                "arguments_summary"@,
                JsonView::Text(brief),
            )
            &&& call_entry(name, call_id, output, mode).holds(
                "type"@,
                JsonView::Text("tool_call_summary"@),
            )
        },
{
    let result = result_entry(call_id, output, mode);
    lemma_holds(result, 0);
    lemma_holds(result, 1);
    lemma_holds(result, 2);
    let call = call_entry(name, call_id, output, mode);
    lemma_holds(call, 0);
    lemma_holds(call, 1);
    lemma_holds(call, 2);
    lemma_holds(call, 3);
}

/// What came in is archived under the role it came in with: a plain text as the
/// user's, a message under its own, the result of a call as a tool's. Each text is
/// archived as its redaction, in order; a message without a text leaves nothing.
pub proof fn input_is_archived_under_its_role(
    item: InputView,
    mode: CaptureMode,
    redactions: Seq<RedactionView>,
)
    ensures
        item matches InputView::Text { content } ==> (archived_input(
            item,
            mode,
            redactions,
        ) matches Some(message) && message.role == "user"@ && message.content == seq![
            text_entry(redacted(redactions, content)),
        ]),
        item matches InputView::FunctionCallOutput { call_id, output } ==> (archived_input(
            item,
            mode,
            redactions,
        ) matches Some(message) && message.role == "tool"@ && message.content == seq![
            result_entry(call_id, redacted(redactions, output), mode),
        ]),
        item matches InputView::Message { role, content } ==> {
            let texts = content.filter(|block: BlockView| block is Text);
            &&& archived_input(item, mode, redactions) is Some <==> texts.len() > 0
            &&& archived_input(item, mode, redactions) matches Some(message) ==> {
                &&& message.role == role && message.content.len() == texts.len()
                &&& forall|i: int|
                    0 <= i < texts.len() ==> #[trigger] message.content[i] == text_entry(
                        redacted(redactions, texts[i]->text),
                    )
            }
        },
{
    if let InputView::Message { content, .. } = item {
        texts_of_blocks_are_the_texts(content);
    }
    if let InputView::Text { content } = item {
        assert(text_entries(seq![content], redactions) =~= seq![
            text_entry(redacted(redactions, content)),
        ]);
    }
}

/// What went out is archived likewise: a message under its role with its redacted
/// texts, a call as the assistant's with its redacted arguments, reasoning not at all.
pub proof fn output_is_archived_under_its_role(
    item: ShownItem,
    mode: CaptureMode,
    redactions: Seq<RedactionView>,
)
    ensures
        item is Reasoning ==> archived_output(item, mode, redactions) is None,
        item matches ShownItem::FunctionCall { call_id, name, arguments, .. } ==> (archived_output(
            item,
            mode,
            redactions,
        ) matches Some(message) && message.role == "assistant"@ && message.content == seq![
            call_entry(name, call_id, redacted(redactions, arguments), mode),
        ]),
        item matches ShownItem::Message { role, content, .. } ==> {
            &&& archived_output(item, mode, redactions) is Some <==> content.len() > 0
            &&& archived_output(item, mode, redactions) matches Some(message) ==> {
                &&& message.role == role && message.content.len() == content.len()
                &&& forall|i: int|
                    0 <= i < content.len() ==> #[trigger] message.content[i] == text_entry(
                        redacted(redactions, content[i]->OutputText_text),
                    )
            }
        },
{
}

/// A text is archived as a text, and as it is.
pub proof fn text_is_archived_as_it_is(text: Seq<char>)
    ensures
        text_entry(text).holds("text"@, JsonView::Text(text)),
        text_entry(text).holds("type"@, JsonView::Text("text"@)),
        text_entry(text)->Object_0.len() == 2,
{
    lemma_holds(text_entry(text), 0);
    lemma_holds(text_entry(text), 1);
}

/// The archive holds what came in before what went out, both in their order.
pub proof fn conversation_is_archived_in_order(
    request: RequestView,
    response: ShownResponse,
    mode: CaptureMode,
    redactions: Seq<RedactionView>,
)
    requires
        mode != CaptureMode::MetadataOnly,
    ensures
        archived_messages(request, response, mode, redactions) == request.input.map_values(
            |item: InputView| archived_input(item, mode, redactions),
        ).filter(|message: Option<MessageView>| message is Some).map_values(
            |message: Option<MessageView>| message->0,
        ) + response.output.map_values(
            |item: ShownItem| archived_output(item, mode, redactions),
        ).filter(|message: Option<MessageView>| message is Some).map_values(
            |message: Option<MessageView>| message->0,
        ),
{
    present_keeps_the_values(
        request.input.map_values(|item: InputView| archived_input(item, mode, redactions)),
    );
    present_keeps_the_values(
        response.output.map_values(|item: ShownItem| archived_output(item, mode, redactions)),
    );
}

/// A conversation counts as redacted just where texts are archived and something was
/// redacted in one of them.
pub proof fn redacted_conversations_are_marked(mode: CaptureMode, redactions: Seq<RedactionView>)
    ensures
        redaction_status(mode, redactions) == "redacted"@ <==> mode != CaptureMode::MetadataOnly
            && exists|i: int|
            0 <= i < redactions.len() && (#[trigger] redactions[i]).redaction_count > 0,
        redaction_status(mode, redactions) == "redacted"@ || redaction_status(mode, redactions)
            == "clean"@,
{
    reveal_strlit("redacted");
    reveal_strlit("clean");
    assert("redacted"@.len() != "clean"@.len());
}

/// A conversation is archived in any mode but the one for nothing; in full detail it
/// is refused on a server that is open to all, and only there.
pub proof fn detail_stays_off_open_servers(mode: CaptureMode, bind: Seq<char>)
    ensures
        may_archive(mode, bind) == Ok::<bool, Seq<char>>(false) <==> mode == CaptureMode::Off,
        may_archive(mode, bind) is Err <==> mode == CaptureMode::DebugRaw && is_open_address(
            trimmed(bind),
        ),
{
}

/// The attempt that served is the last one. The secret of the archive is the
/// configured one, where there is one.
pub proof fn last_attempt_served(count: nat, secret: Seq<char>)
    ensures
        0 < count <= u32::MAX ==> last_position(count) + 1 == count,
        last_position(0) == 0,
        archive_salt(Some(secret)) == secret,
{
}

/// What is archived of a conversation is about the request, the response, the route
/// and the target that it was about; addresses and ids of the upstream are archived as
/// digests alone.
pub proof fn archive_tells_of_its_conversation(
    created_at: Seq<char>,
    request: RequestView,
    route: RouteSnapshotView,
    target: SnapshotView,
    resolved: ResolvedView,
    response: ShownResponse,
    mode: CaptureMode,
    winning_attempt_index: u32,
    attempts: Seq<AttemptView>,
    digests: ArchiveDigests,
    redactions: Seq<RedactionView>,
)
    ensures
        ({
            let record = archived_conversation(
                created_at,
                request,
                route,
                target,
                resolved,
                response,
                mode,
                winning_attempt_index,
                attempts,
                digests,
                redactions,
            );
            &&& record.root_response_id == response.id && record.conversation_id == "conv_"@
                + response.id
            &&& record.created_at == created_at && record.capture_mode == mode.name()
            &&& record.request_id == request.request_id
            &&& record.previous_response_id == request.previous_response_id
            &&& record.route_id == route.route_id
            &&& record.downstream_model == route.downstream_model
            &&& record.target_id == target.target_id
            &&& record.upstream_model == target.upstream_model
            &&& record.provider_id == target.provider_id
            &&& record.provider_name == target.provider_name
            &&& target.state_scope matches Some(scope) ==> record.state_scope == scope
            &&& target.state_scope is None ==> record.state_scope == ""@
            &&& wire_api_named(record.wire_api) == Some(target.configured_wire_api)
            &&& wire_api_named(record.detected_wire_api) == Some(resolved.wire_api)
            &&& record.provider_base_url_hash == "sha256:"@ + digests.provider_base_url@
            &&& record.provider_config_hash == "sha256:"@ + digests.provider_config@
            &&& record.upstream_response_id_hash == "sha256:"@ + digests.upstream_response_id@
            &&& record.attempts == attempts && record.fallback_attempt == winning_attempt_index
            &&& record.had_fallback <==> attempts.len() >= 2
            &&& !record.had_error
            &&& record.messages == archived_messages(request, response, mode, redactions)
            &&& record.redaction_status == redaction_status(mode, redactions)
            &&& record.tools.len() == request.tools.len()
            &&& forall|i: int|
                0 <= i < request.tools.len() ==> #[trigger] record.tools[i] == request.tools[i].name
            &&& response.usage matches Some(usage) ==> record.input_tokens == usage.input_tokens
                && record.output_tokens == usage.output_tokens && (usage.reasoning_tokens is Some
                ==> record.reasoning_tokens == usage.reasoning_tokens->0)
            &&& response.usage is None ==> record.input_tokens == 0 && record.output_tokens == 0
                && record.reasoning_tokens == 0
        }),
{
    wire_api_name_round_trip(target.configured_wire_api);
    wire_api_name_round_trip(resolved.wire_api);
}

} // verus!

//! The protocol-neutral form of requests and responses that every upstream
//! protocol is mapped to and from.

use crate::json::{Json, JsonView};
use crate::text::{copy_opt, copy_texts, same};
use vstd::prelude::*;

verus! {

/// An upstream protocol. `Auto` stands for one that is still to be probed.
#[derive(Debug, Clone, Copy, PartialEq, Eq, Structural)]
pub enum WireApi {
    Auto,
    Responses,
    OpenAiChat,
    Anthropic,
}

impl DeepView for WireApi {
    type V = WireApi;

    open spec fn deep_view(&self) -> WireApi {
        *self
    }
}

impl WireApi {
    /// The name of the protocol.
    pub open spec fn name(self) -> Seq<char> {
        match self {
            WireApi::Auto => "auto"@,
            WireApi::Responses => "responses"@,
            WireApi::OpenAiChat => "openai_chat"@,
            WireApi::Anthropic => "anthropic"@,
        }
    }

    /// The name of the protocol.
    pub fn as_str(self) -> (r: &'static str)
        ensures
            r@ == self.name(),
    {
        match self {
            WireApi::Auto => "auto",
            WireApi::Responses => "responses",
            WireApi::OpenAiChat => "openai_chat",
            WireApi::Anthropic => "anthropic",
        }
    }

    /// The protocol of that name, where there is one.
    pub fn parse(name: &str) -> (r: Option<WireApi>)
        ensures
            r == wire_api_named(name@),
    {
        if same(name, "auto") {
            Some(WireApi::Auto)
        } else if same(name, "responses") {
            Some(WireApi::Responses)
        } else if same(name, "openai_chat") {
            Some(WireApi::OpenAiChat)
        } else if same(name, "anthropic") {
            Some(WireApi::Anthropic)
        } else {
            None
        }
    }
}

/// The protocol of that name, where there is one.
pub open spec fn wire_api_named(name: Seq<char>) -> Option<WireApi> {
    if name == WireApi::Auto.name() {
        Some(WireApi::Auto)
    } else if name == WireApi::Responses.name() {
        Some(WireApi::Responses)
    } else if name == WireApi::OpenAiChat.name() {
        Some(WireApi::OpenAiChat)
    } else if name == WireApi::Anthropic.name() {
        Some(WireApi::Anthropic)
    } else {
        None
    }
}

/// The name of a protocol is read back as that protocol.
pub proof fn wire_api_name_round_trip(api: WireApi)
    ensures
        wire_api_named(api.name()) == Some(api),
{
    reveal_strlit("auto");
    reveal_strlit("responses");
    reveal_strlit("openai_chat");
    reveal_strlit("anthropic");
    assert("auto"@.len() == 4 && "responses"@.len() == 9 && "openai_chat"@.len() == 11);
    assert("anthropic"@.len() == 9 && "anthropic"@[0] != "responses"@[0]);
}

/// One part of a reasoning summary.
#[derive(Debug)]
pub struct ReasoningPart {
    pub text: Option<String>,
}

impl DeepView for ReasoningPart {
    type V = Option<Seq<char>>;

    open spec fn deep_view(&self) -> Option<Seq<char>> {
        self.text.deep_view()
    }
}

/// A block of message content.
#[derive(Debug)]
pub enum ContentBlock {
    Text { text: String },
    InputJson { json: String },
    Reasoning { summary: Vec<ReasoningPart> },
    Image { data: String },
}

/// The mathematical value of a [`ContentBlock`].
#[verifier::ext_equal]
pub enum BlockView {
    Text { text: Seq<char> },
    InputJson { json: Seq<char> },
    Reasoning { summary: Seq<Option<Seq<char>>> },
    Image { data: Seq<char> },
}

impl DeepView for ContentBlock {
    type V = BlockView;

    open spec fn deep_view(&self) -> BlockView {
        match self {
            ContentBlock::Text { text } => BlockView::Text { text: text@ },
            ContentBlock::InputJson { json } => BlockView::InputJson { json: json@ },
            ContentBlock::Reasoning { summary } => BlockView::Reasoning {
                summary: summary.deep_view(),
            },
            ContentBlock::Image { data } => BlockView::Image { data: data@ },
        }
    }
}

impl ContentBlock {
    /// A block equal to this one.
    pub fn duplicate(&self) -> (r: ContentBlock)
        ensures
            r.deep_view() == self.deep_view(),
    {
        match self {
            ContentBlock::Text { text } => ContentBlock::Text { text: text.clone() },
            ContentBlock::InputJson { json } => ContentBlock::InputJson { json: json.clone() },
            ContentBlock::Reasoning { summary } => {
                let mut parts: Vec<ReasoningPart> = Vec::new();
                let mut i: usize = 0;
                while i < summary.len()
                    invariant
                        i <= summary.len(),
                        parts.deep_view() == summary.deep_view().take(i as int),
                    decreases summary.len() - i,
                {
                    let ghost before = parts.deep_view();
                    let part = ReasoningPart { text: copy_opt(&summary[i].text) };
                    let ghost shown = part.deep_view();
                    parts.push(part);
                    assert(parts.deep_view() =~= before.push(shown));
                    assert(summary.deep_view().take(i + 1) =~= before.push(shown));
                    i = i + 1;
                }
                assert(summary.deep_view().take(summary@.len() as int) =~= summary.deep_view());
                ContentBlock::Reasoning { summary: parts }
            },
            ContentBlock::Image { data } => ContentBlock::Image { data: data.clone() },
        }
    }
}

/// The same blocks in the same order.
pub fn copy_blocks(blocks: &Vec<ContentBlock>) -> (r: Vec<ContentBlock>)
    ensures
        r.deep_view() == blocks.deep_view(),
{
    let mut out: Vec<ContentBlock> = Vec::new();
    let mut i: usize = 0;
    while i < blocks.len()
        invariant
            i <= blocks.len(),
            out.deep_view() == blocks.deep_view().take(i as int),
        decreases blocks.len() - i,
    {
        let ghost before = out.deep_view();
        let block = blocks[i].duplicate();
        let ghost shown = block.deep_view();
        out.push(block);
        assert(out.deep_view() =~= before.push(shown));
        assert(blocks.deep_view().take(i + 1) =~= before.push(shown));
        i = i + 1;
    }
    assert(blocks.deep_view().take(blocks@.len() as int) =~= blocks.deep_view());
    out
}

/// One item of a request's input.
#[derive(Debug)]
#[allow(inconsistent_fields)]
pub enum CanonicalInputItem {
    Text { content: String },
    Message { role: String, content: Vec<ContentBlock> },
    FunctionCallOutput { call_id: String, output: String },
}

/// The mathematical value of a [`CanonicalInputItem`].
#[verifier::ext_equal]
#[allow(inconsistent_fields)]
pub enum InputView {
    Text { content: Seq<char> },
    Message { role: Seq<char>, content: Seq<BlockView> },
    FunctionCallOutput { call_id: Seq<char>, output: Seq<char> },
}

impl DeepView for CanonicalInputItem {
    type V = InputView;

    open spec fn deep_view(&self) -> InputView {
        match self {
            CanonicalInputItem::Text { content } => InputView::Text { content: content@ },
            CanonicalInputItem::Message { role, content } => InputView::Message {
                role: role@,
                content: content.deep_view(),
            },
            CanonicalInputItem::FunctionCallOutput { call_id, output } => {
                InputView::FunctionCallOutput { call_id: call_id@, output: output@ }
            },
        }
    }
}

impl CanonicalInputItem {
    /// An item equal to this one.
    pub fn duplicate(&self) -> (r: CanonicalInputItem)
        ensures
            r.deep_view() == self.deep_view(),
    {
        match self {
            CanonicalInputItem::Text { content } => CanonicalInputItem::Text {
                content: content.clone(),
            },
            CanonicalInputItem::Message { role, content } => CanonicalInputItem::Message {
                role: role.clone(),
                content: copy_blocks(content),
            },
            CanonicalInputItem::FunctionCallOutput { call_id, output } => {
                CanonicalInputItem::FunctionCallOutput {
                    call_id: call_id.clone(),
                    output: output.clone(),
                }
            },
        }
    }
}

/// Appends copies of `items` to `to`, in order.
pub fn append_inputs(to: &mut Vec<CanonicalInputItem>, items: &Vec<CanonicalInputItem>)
    ensures
        final(to).deep_view() == old(to).deep_view() + items.deep_view(),
{
    let ghost start = to.deep_view();
    let mut i: usize = 0;
    assert(start + items.deep_view().take(0) =~= start);
    while i < items.len()
        invariant
            i <= items.len(),
            to.deep_view() == start + items.deep_view().take(i as int),
        decreases items.len() - i,
    {
        let ghost before = to.deep_view();
        let item = items[i].duplicate();
        let ghost shown = item.deep_view();
        to.push(item);
        assert(to.deep_view() =~= before.push(shown));
        assert(start + items.deep_view().take(i + 1) =~= before.push(shown));
        i = i + 1;
    }
    assert(items.deep_view().take(items@.len() as int) =~= items.deep_view());
}

/// The instructions that precede the input.
#[derive(Debug)]
pub struct CanonicalInstructions {
    pub role: String,
    pub content: String,
}

/// The mathematical value of [`CanonicalInstructions`].
#[verifier::ext_equal]
pub struct InstructionsView {
    pub role: Seq<char>,
    pub content: Seq<char>,
}

impl DeepView for CanonicalInstructions {
    type V = InstructionsView;

    open spec fn deep_view(&self) -> InstructionsView {
        InstructionsView { role: self.role@, content: self.content@ }
    }
}

/// A tool that the model may call.
#[derive(Debug)]
pub struct CanonicalTool {
    pub name: String,
    pub description: String,
    pub parameters: Json,
}

/// The mathematical value of a [`CanonicalTool`].
#[verifier::ext_equal]
pub struct ToolView {
    pub name: Seq<char>,
    pub description: Seq<char>,
    pub parameters: JsonView,
}

impl DeepView for CanonicalTool {
    type V = ToolView;

    open spec fn deep_view(&self) -> ToolView {
        ToolView {
            name: self.name@,
            description: self.description@,
            parameters: self.parameters@,
        }
    }
}

/// Which tool the model is to call.
#[derive(Debug)]
pub enum CanonicalToolChoice {
    Auto,
    Never,
    Specific(String),
}

/// The mathematical value of a [`CanonicalToolChoice`].
#[verifier::ext_equal]
pub enum ToolChoiceView {
    Auto,
    Never,
    Specific(Seq<char>),
}

impl DeepView for CanonicalToolChoice {
    type V = ToolChoiceView;

    open spec fn deep_view(&self) -> ToolChoiceView {
        match self {
            CanonicalToolChoice::Auto => ToolChoiceView::Auto,
            CanonicalToolChoice::Never => ToolChoiceView::Never,
            CanonicalToolChoice::Specific(name) => ToolChoiceView::Specific(name@),
        }
    }
}

/// What is asked for in the way of reasoning.
#[derive(Debug)]
pub struct CanonicalReasoningOptions {
    pub include_summary: Option<bool>,
    pub include_encrypted_content: Option<bool>,
    pub effort: Option<String>,
}

/// The mathematical value of [`CanonicalReasoningOptions`].
#[verifier::ext_equal]
pub struct ReasoningView {
    pub include_summary: Option<bool>,
    pub include_encrypted_content: Option<bool>,
    pub effort: Option<Seq<char>>,
}

impl DeepView for CanonicalReasoningOptions {
    type V = ReasoningView;

    open spec fn deep_view(&self) -> ReasoningView {
        ReasoningView {
            include_summary: self.include_summary,
            include_encrypted_content: self.include_encrypted_content,
            effort: self.effort.deep_view(),
        }
    }
}

/// A request in protocol-neutral form. `temperature` and `top_p` hold the JSON
/// numbers of the request.
#[derive(Debug)]
pub struct CanonicalResponseRequest {
    pub request_id: String,
    pub downstream_model: String,
    pub upstream_model: String,
    pub instructions: Option<CanonicalInstructions>,
    pub input: Vec<CanonicalInputItem>,
    pub previous_response_id: Option<String>,
    pub tools: Vec<CanonicalTool>,
    pub tool_choice: CanonicalToolChoice,
    pub parallel_tool_calls: bool,
    pub max_output_tokens: Option<u32>,
    pub temperature: Option<Json>,
    pub top_p: Option<Json>,
    pub stream: bool,
    pub reasoning: Option<CanonicalReasoningOptions>,
    pub included: Vec<String>,
    pub metadata: Json,
    pub store: bool,
    pub raw_downstream: Json,
}

/// The mathematical value of a [`CanonicalResponseRequest`].
#[verifier::ext_equal]
pub struct RequestView {
    pub request_id: Seq<char>,
    pub downstream_model: Seq<char>,
    pub upstream_model: Seq<char>,
    pub instructions: Option<InstructionsView>,
    pub input: Seq<InputView>,
    pub previous_response_id: Option<Seq<char>>,
    pub tools: Seq<ToolView>,
    pub tool_choice: ToolChoiceView,
    pub parallel_tool_calls: bool,
    pub max_output_tokens: Option<u32>,
    pub temperature: Option<JsonView>,
    pub top_p: Option<JsonView>,
    pub stream: bool,
    pub reasoning: Option<ReasoningView>,
    pub included: Seq<Seq<char>>,
    pub metadata: JsonView,
    pub store: bool,
    pub raw_downstream: JsonView,
}

impl DeepView for CanonicalResponseRequest {
    type V = RequestView;

    open spec fn deep_view(&self) -> RequestView {
        RequestView {
            request_id: self.request_id@,
            downstream_model: self.downstream_model@,
            upstream_model: self.upstream_model@,
            instructions: self.instructions.deep_view(),
            input: self.input.deep_view(),
            previous_response_id: self.previous_response_id.deep_view(),
            tools: self.tools.deep_view(),
            tool_choice: self.tool_choice.deep_view(),
            parallel_tool_calls: self.parallel_tool_calls,
            max_output_tokens: self.max_output_tokens,
            temperature: self.temperature.deep_view(),
            top_p: self.top_p.deep_view(),
            stream: self.stream,
            reasoning: self.reasoning.deep_view(),
            included: self.included.deep_view(),
            metadata: self.metadata@,
            store: self.store,
            raw_downstream: self.raw_downstream@,
        }
    }
}

/// The same tools in the same order.
pub fn copy_tools(tools: &Vec<CanonicalTool>) -> (r: Vec<CanonicalTool>)
    ensures
        r.deep_view() == tools.deep_view(),
{
    let mut out: Vec<CanonicalTool> = Vec::new();
    let mut i: usize = 0;
    while i < tools.len()
        invariant
            i <= tools.len(),
            out.deep_view() == tools.deep_view().take(i as int),
        decreases tools.len() - i,
    {
        let ghost before = out.deep_view();
        let tool = CanonicalTool {
            name: tools[i].name.clone(),
            description: tools[i].description.clone(),
            parameters: tools[i].parameters.duplicate(),
        };
        let ghost shown = tool.deep_view();
        out.push(tool);
        assert(out.deep_view() =~= before.push(shown));
        assert(tools.deep_view().take(i + 1) =~= before.push(shown));
        i = i + 1;
    }
    assert(tools.deep_view().take(tools@.len() as int) =~= tools.deep_view());
    out
}

impl CanonicalResponseRequest {
    /// This request with another input and another previous response.
    pub fn with_input(
        &self,
        input: Vec<CanonicalInputItem>,
        previous_response_id: Option<String>,
    ) -> (r: CanonicalResponseRequest)
        ensures
            r.deep_view() == (RequestView {
                input: input.deep_view(),
                previous_response_id: previous_response_id.deep_view(),
                ..self.deep_view()
            }),
    {
        CanonicalResponseRequest {
            request_id: self.request_id.clone(),
            downstream_model: self.downstream_model.clone(),
            upstream_model: self.upstream_model.clone(),
            instructions: match &self.instructions {
                Some(instructions) => Some(
                    CanonicalInstructions {
                        role: instructions.role.clone(),
                        content: instructions.content.clone(),
                    },
                ),
                None => None,
            },
            input,
            previous_response_id,
            tools: copy_tools(&self.tools),
            tool_choice: match &self.tool_choice {
                CanonicalToolChoice::Auto => CanonicalToolChoice::Auto,
                CanonicalToolChoice::Never => CanonicalToolChoice::Never,
                CanonicalToolChoice::Specific(name) => CanonicalToolChoice::Specific(name.clone()),
            },
            parallel_tool_calls: self.parallel_tool_calls,
            max_output_tokens: self.max_output_tokens,
            temperature: crate::config::copy_json(&self.temperature),
            top_p: crate::config::copy_json(&self.top_p),
            stream: self.stream,
            reasoning: match &self.reasoning {
                Some(reasoning) => Some(
                    CanonicalReasoningOptions {
                        include_summary: reasoning.include_summary,
                        include_encrypted_content: reasoning.include_encrypted_content,
                        effort: copy_opt(&reasoning.effort),
                    },
                ),
                None => None,
            },
            included: copy_texts(&self.included),
            metadata: self.metadata.duplicate(),
            store: self.store,
            raw_downstream: self.raw_downstream.duplicate(),
        }
    }
}

/// How many tokens a response took.
#[derive(Debug, Clone, Copy)]
pub struct ResponseUsage {
    pub input_tokens: u64,
    pub output_tokens: u64,
    pub total_tokens: u64,
    pub reasoning_tokens: Option<u64>,
}

impl DeepView for ResponseUsage {
    type V = ResponseUsage;

    open spec fn deep_view(&self) -> ResponseUsage {
        *self
    }
}

/// One finished item of an upstream's output. The parts of a reasoning summary
/// are held as the JSON values under which clients see them.
#[derive(Debug)]
pub enum CanonicalOutputItem {
    Message { role: String, content: Vec<ContentBlock> },
    FunctionCall { name: String, arguments: String },
    Reasoning { summary: Vec<Json> },
}

/// The mathematical value of a [`CanonicalOutputItem`].
#[verifier::ext_equal]
pub enum OutputView {
    Message { role: Seq<char>, content: Seq<BlockView> },
    FunctionCall { name: Seq<char>, arguments: Seq<char> },
    Reasoning { summary: Seq<JsonView> },
}

impl DeepView for CanonicalOutputItem {
    type V = OutputView;

    open spec fn deep_view(&self) -> OutputView {
        match self {
            CanonicalOutputItem::Message { role, content } => OutputView::Message {
                role: role@,
                content: content.deep_view(),
            },
            CanonicalOutputItem::FunctionCall { name, arguments } => OutputView::FunctionCall {
                name: name@,
                arguments: arguments@,
            },
            CanonicalOutputItem::Reasoning { summary } => OutputView::Reasoning {
                summary: summary.deep_view(),
            },
        }
    }
}

/// One event of an upstream's answer, as far as the relay reads it. `Other`
/// stands for the events that carry nothing for the client.
#[derive(Debug)]
pub enum CanonicalEvent {
    ResponseCreated { response_id: String },
    OutputItemAdded,
    OutputTextDelta,
    FunctionCallArgumentsDelta,
    OutputItemDone { item: CanonicalOutputItem },
    ReasoningSummaryDelta,
    ResponseCompleted { response_id: String, usage: Option<ResponseUsage> },
    ResponseFailed,
    Other,
}

/// The mathematical value of a [`CanonicalEvent`].
#[verifier::ext_equal]
pub enum EventView {
    ResponseCreated { response_id: Seq<char> },
    OutputItemAdded,
    OutputTextDelta,
    FunctionCallArgumentsDelta,
    OutputItemDone { item: OutputView },
    ReasoningSummaryDelta,
    ResponseCompleted { response_id: Seq<char>, usage: Option<ResponseUsage> },
    ResponseFailed,
    Other,
}

impl DeepView for CanonicalEvent {
    type V = EventView;

    open spec fn deep_view(&self) -> EventView {
        match self {
            CanonicalEvent::ResponseCreated { response_id } => EventView::ResponseCreated {
                response_id: response_id@,
            },
            CanonicalEvent::OutputItemAdded => EventView::OutputItemAdded,
            CanonicalEvent::OutputTextDelta => EventView::OutputTextDelta,
            CanonicalEvent::FunctionCallArgumentsDelta => EventView::FunctionCallArgumentsDelta,
            CanonicalEvent::OutputItemDone { item } => EventView::OutputItemDone {
                item: item.deep_view(),
            },
            CanonicalEvent::ReasoningSummaryDelta => EventView::ReasoningSummaryDelta,
            CanonicalEvent::ResponseCompleted { response_id, usage } => {
                EventView::ResponseCompleted { response_id: response_id@, usage: *usage }
            },
            CanonicalEvent::ResponseFailed => EventView::ResponseFailed,
            CanonicalEvent::Other => EventView::Other,
        }
    }
}

/// A protocol is known by its own name and by no other, and each has a name of its own.
pub proof fn protocol_is_known_by_its_name(name: Seq<char>, a: WireApi, b: WireApi)
    ensures
        wire_api_named(name) matches Some(api) ==> api.name() == name,
        wire_api_named(name) is None <==> name != "auto"@ && name != "responses"@ && name
            != "openai_chat"@ && name != "anthropic"@,
        a.name() == b.name() ==> a == b,
        WireApi::Responses.name() == "responses"@,
        WireApi::OpenAiChat.name() == "openai_chat"@,
        WireApi::Anthropic.name() == "anthropic"@,
{
    wire_api_name_round_trip(a);
    wire_api_name_round_trip(b);
}

} // verus!

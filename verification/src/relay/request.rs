//! Reading a downstream request into its protocol-neutral form.

use crate::canonical::{
    BlockView, CanonicalInputItem, CanonicalInstructions, CanonicalReasoningOptions,
    CanonicalResponseRequest, CanonicalTool, CanonicalToolChoice, ContentBlock, InputView,
    InstructionsView, ReasoningView, RequestView, ToolChoiceView, ToolView,
};
use crate::error::{
    collected, collected_is_all_or_the_first_error, error_of, lemma_collected_all,
    lemma_collected_step, lemma_collected_values, outcome, Error, ErrorKind, ErrorView,
};
use crate::json::{lemma_container_views, member, Json, JsonView};
use crate::text::{contains_text, join3, occurs_at, same, to_owned_opt};
use vstd::prelude::*;

verus! {

/// A refusal of the request.
pub open spec fn invalid(message: Seq<char>) -> ErrorView {
    error_of(ErrorKind::RequestInvalid, message)
}

/// The text of a field that must be there.
pub open spec fn required_text(value: JsonView, field: Seq<char>) -> Result<Seq<char>, ErrorView> {
    match value.get_str(field) {
        Some(text) => Ok(text),
        None => Err(invalid("Missing or invalid string field '"@ + field + "'"@)),
    }
}

/// The text of a field that must be there.
pub fn require_string<'a>(value: &'a Json, field: &str) -> (r: Result<&'a str, Error>)
    ensures
        outcome(r) == required_text(value@, field@),
{
    match value.get_str(field) {
        Some(text) => Ok(text),
        None => Err(
            Error {
                kind: ErrorKind::RequestInvalid,
                message: join3("Missing or invalid string field '", field, "'"),
            },
        ),
    }
}

/// The text of a field, or a default.
pub open spec fn text_or(value: JsonView, field: Seq<char>, default: Seq<char>) -> Seq<char> {
    match value.get_str(field) {
        Some(text) => text,
        None => default,
    }
}

/// The text of a field, or a default.
pub fn text_field_or<'a>(value: &'a Json, field: &str, default: &'a str) -> (r: &'a str)
    ensures
        r@ == text_or(value@, field@, default@),
{
    match value.get_str(field) {
        Some(text) => text,
        None => default,
    }
}

/// One block of message content: a text under one of its three type names.
pub open spec fn block_of(block: JsonView) -> Result<BlockView, ErrorView> {
    let block_type = text_or(block, "type"@, "input_text"@);
    if block_type == "input_text"@ || block_type == "output_text"@ || block_type == "text"@ {
        match required_text(block, "text"@) {
            Ok(text) => Ok(BlockView::Text { text }),
            Err(error) => Err(error),
        }
    } else {
        Err(invalid("Unsupported content block type '"@ + block_type + "'"@))
    }
}

/// What each block of an array of content is.
pub open spec fn block_results(blocks: Seq<JsonView>) -> Seq<Result<BlockView, ErrorView>> {
    Seq::new(blocks.len(), |i: int| block_of(blocks[i]))
}

/// The content of a message.
pub open spec fn content_of(content: Option<JsonView>) -> Result<Seq<BlockView>, ErrorView> {
    match content {
        None => Ok(Seq::empty()),
        Some(JsonView::Text(text)) => Ok(seq![BlockView::Text { text }]),
        Some(JsonView::Array(blocks)) => collected(block_results(blocks)),
        Some(_) => Err(invalid("Message content must be a string or an array"@)),
    }
}

/// One block of message content.
pub fn parse_content_block(block: &Json) -> (r: Result<ContentBlock, Error>)
    ensures
        outcome(r) == block_of(block@),
{
    let block_type = text_field_or(block, "type", "input_text");
    if same(block_type, "input_text") || same(block_type, "output_text") || same(
        block_type,
        "text",
    ) {
        match require_string(block, "text") {
            Ok(text) => Ok(ContentBlock::Text { text: text.to_owned() }),
            Err(error) => Err(error),
        }
    } else {
        Err(
            Error {
                kind: ErrorKind::RequestInvalid,
                message: join3("Unsupported content block type '", block_type, "'"),
            },
        )
    }
}

/// The content of a message.
pub fn parse_content_blocks(content: Option<&Json>) -> (r: Result<Vec<ContentBlock>, Error>)
    ensures
        outcome(r) == content_of(content.deep_view()),
{
    let value: &Json = match content {
        Some(value) => value,
        None => {
            let empty: Vec<ContentBlock> = Vec::new();
            assert(empty.deep_view() =~= Seq::empty());
            return Ok(empty);
        },
    };
    if let Some(text) = value.as_str() {
        let block = ContentBlock::Text { text: text.to_owned() };
        let mut blocks: Vec<ContentBlock> = Vec::new();
        let ghost shown = block.deep_view();
        blocks.push(block);
        assert(blocks.deep_view() =~= seq![shown]);
        return Ok(blocks);
    }
    let blocks: &Vec<Json> = match value.as_array() {
        Some(blocks) => blocks,
        None => {
            return Err(
                Error::new(
                    ErrorKind::RequestInvalid,
                    "Message content must be a string or an array",
                ),
            );
        },
    };
    let ghost results = block_results(blocks.deep_view());
    let mut canonical: Vec<ContentBlock> = Vec::new();
    let mut i: usize = 0;
    proof {
        lemma_collected_all(results);
        assert(canonical.deep_view() =~= Seq::empty());
    }
    while i < blocks.len()
        invariant
            i <= blocks.len(),
            content.deep_view() == Some(JsonView::Array(blocks.deep_view())),
            results == block_results(blocks.deep_view()),
            collected(results.take(i as int)) == Ok::<Seq<BlockView>, ErrorView>(
                canonical.deep_view(),
            ),
        decreases blocks.len() - i,
    {
        proof {
            lemma_collected_step(results, i as int);
        }
        match parse_content_block(&blocks[i]) {
            Ok(block) => {
                let ghost before = canonical.deep_view();
                let ghost shown = block.deep_view();
                canonical.push(block);
                assert(canonical.deep_view() =~= before.push(shown));
            },
            Err(error) => {
                return Err(error);
            },
        }
        i = i + 1;
    }
    proof {
        lemma_collected_all(results);
    }
    Ok(canonical)
}

/// One item of the input: a message, or the output of a function call.
pub open spec fn input_item_of(item: JsonView) -> Result<InputView, ErrorView> {
    let item_type = text_or(item, "type"@, "message"@);
    if item_type == "message"@ {
        match content_of(item.get("content"@)) {
            Ok(content) => Ok(
                InputView::Message { role: text_or(item, "role"@, "user"@), content },
            ),
            Err(error) => Err(error),
        }
    } else if item_type == "function_call_output"@ {
        match (required_text(item, "call_id"@), required_text(item, "output"@)) {
            (Ok(call_id), Ok(output)) => Ok(InputView::FunctionCallOutput { call_id, output }),
            (Ok(_), Err(error)) => Err(error),
            (Err(error), _) => Err(error),
        }
    } else {
        Err(invalid("Unsupported input item type '"@ + item_type + "'"@))
    }
}

/// What each item of an array of input is.
pub open spec fn input_results(items: Seq<JsonView>) -> Seq<Result<InputView, ErrorView>> {
    Seq::new(items.len(), |i: int| input_item_of(items[i]))
}

/// The input of a request: a text, or an array of items.
pub open spec fn input_of(input: Option<JsonView>) -> Result<Seq<InputView>, ErrorView> {
    match input {
        None => Err(invalid("Missing 'input' field in request"@)),
        Some(JsonView::Text(content)) => Ok(seq![InputView::Text { content }]),
        Some(JsonView::Array(items)) => collected(input_results(items)),
        Some(_) => Err(invalid("'input' must be a string or an array"@)),
    }
}

/// One item of the input.
pub fn parse_input_item(item: &Json) -> (r: Result<CanonicalInputItem, Error>)
    ensures
        outcome(r) == input_item_of(item@),
{
    let item_type = text_field_or(item, "type", "message");
    if same(item_type, "message") {
        let role = text_field_or(item, "role", "user").to_owned();
        match parse_content_blocks(item.get("content")) {
            Ok(content) => Ok(CanonicalInputItem::Message { role, content }),
            Err(error) => Err(error),
        }
    } else if same(item_type, "function_call_output") {
        let call_id = match require_string(item, "call_id") {
            Ok(text) => text.to_owned(),
            Err(error) => {
                return Err(error);
            },
        };
        match require_string(item, "output") {
            Ok(output) => Ok(
                CanonicalInputItem::FunctionCallOutput { call_id, output: output.to_owned() },
            ),
            Err(error) => Err(error),
        }
    } else {
        Err(
            Error {
                kind: ErrorKind::RequestInvalid,
                message: join3("Unsupported input item type '", item_type, "'"),
            },
        )
    }
}

/// The input of a request.
pub fn parse_input(input: Option<&Json>) -> (r: Result<Vec<CanonicalInputItem>, Error>)
    ensures
        outcome(r) == input_of(input.deep_view()),
{
    let value: &Json = match input {
        Some(value) => value,
        None => {
            return Err(Error::new(ErrorKind::RequestInvalid, "Missing 'input' field in request"));
        },
    };
    if let Some(text) = value.as_str() {
        let item = CanonicalInputItem::Text { content: text.to_owned() };
        let mut items: Vec<CanonicalInputItem> = Vec::new();
        let ghost shown = item.deep_view();
        items.push(item);
        assert(items.deep_view() =~= seq![shown]);
        return Ok(items);
    }
    let items: &Vec<Json> = match value.as_array() {
        Some(items) => items,
        None => {
            return Err(
                Error::new(ErrorKind::RequestInvalid, "'input' must be a string or an array"),
            );
        },
    };
    let ghost results = input_results(items.deep_view());
    let mut canonical: Vec<CanonicalInputItem> = Vec::new();
    let mut i: usize = 0;
    proof {
        lemma_collected_all(results);
        assert(canonical.deep_view() =~= Seq::empty());
    }
    while i < items.len()
        invariant
            i <= items.len(),
            input.deep_view() == Some(JsonView::Array(items.deep_view())),
            results == input_results(items.deep_view()),
            collected(results.take(i as int)) == Ok::<Seq<InputView>, ErrorView>(
                canonical.deep_view(),
            ),
        decreases items.len() - i,
    {
        proof {
            lemma_collected_step(results, i as int);
        }
        match parse_input_item(&items[i]) {
            Ok(item) => {
                let ghost before = canonical.deep_view();
                let ghost shown = item.deep_view();
                canonical.push(item);
                assert(canonical.deep_view() =~= before.push(shown));
            },
            Err(error) => {
                return Err(error);
            },
        }
        i = i + 1;
    }
    proof {
        lemma_collected_all(results);
    }
    Ok(canonical)
}

/// The instructions: a text, or an object with a role and a content.
pub open spec fn instructions_of(
    instructions: Option<JsonView>,
) -> Result<Option<InstructionsView>, ErrorView> {
    match instructions {
        None => Ok(None),
        Some(JsonView::Text(content)) => Ok(
            Some(InstructionsView { role: "developer"@, content }),
        ),
        Some(JsonView::Object(members)) => {
            let object = JsonView::Object(members);
            match required_text(object, "content"@) {
                Ok(content) => Ok(
                    Some(
                        InstructionsView {
                            role: text_or(object, "role"@, "developer"@),
                            content,
                        },
                    ),
                ),
                Err(error) => Err(error),
            }
        },
        Some(_) => Err(invalid("'instructions' must be a string or object"@)),
    }
}

/// The instructions of a request.
pub fn parse_instructions(instructions: Option<&Json>) -> (r: Result<
    Option<CanonicalInstructions>,
    Error,
>)
    ensures
        outcome(r) == instructions_of(instructions.deep_view()),
{
    let instructions: &Json = match instructions {
        Some(instructions) => instructions,
        None => {
            return Ok(None);
        },
    };
    if let Some(content) = instructions.as_str() {
        return Ok(
            Some(
                CanonicalInstructions {
                    role: "developer".to_owned(),
                    content: content.to_owned(),
                },
            ),
        );
    }
    if instructions.is_object() {
        return match require_string(instructions, "content") {
            Ok(content) => Ok(
                Some(
                    CanonicalInstructions {
                        role: text_field_or(instructions, "role", "developer").to_owned(),
                        content: content.to_owned(),
                    },
                ),
            ),
            Err(error) => Err(error),
        };
    }
    Err(Error::new(ErrorKind::RequestInvalid, "'instructions' must be a string or object"))
}

/// The schema of a tool that gives none: an object without properties.
pub open spec fn empty_schema() -> JsonView {
    JsonView::Object(
        seq![
            ("properties"@, JsonView::Object(Seq::empty())),
            ("type"@, JsonView::Text("object"@)),
        ],
    )
}

/// The schema of a tool that gives none.
fn make_empty_schema() -> (r: Json)
    ensures
        r@ == empty_schema(),
{
    let no_members: Vec<(String, Json)> = Vec::new();
    let properties = Json::Object(no_members);
    proof {
        lemma_container_views(properties);
        assert(no_members.deep_view() =~= Seq::empty());
    }
    let mut members: Vec<(String, Json)> = Vec::new();
    members.push(("properties".to_owned(), properties));
    members.push(("type".to_owned(), Json::Text("object".to_owned())));
    let r = Json::Object(members);
    proof {
        lemma_container_views(r);
        assert(members.deep_view() =~= empty_schema()->Object_0);
    }
    r
}

/// Where a tool or a tool choice describes its function: under `function`, or
/// in itself.
pub open spec fn function_of(value: JsonView) -> JsonView {
    match value.get("function"@) {
        Some(function) => function,
        None => value,
    }
}

/// One tool, but for the uniqueness of its name.
pub open spec fn tool_of(tool: JsonView) -> Result<ToolView, ErrorView> {
    let tool_type = text_or(tool, "type"@, "function"@);
    let function = function_of(tool);
    if tool_type != "function"@ {
        Err(invalid("Unsupported tool type '"@ + tool_type + "'"@))
    } else {
        match required_text(function, "name"@) {
            Ok(name) => Ok(
                ToolView {
                    name,
                    description: text_or(function, "description"@, ""@),
                    parameters: match function.get("parameters"@) {
                        Some(parameters) => parameters,
                        None => empty_schema(),
                    },
                },
            ),
            Err(error) => Err(error),
        }
    }
}

/// Whether one of the first `n` tools has that name.
pub open spec fn name_taken(tools: Seq<JsonView>, n: int, name: Seq<char>) -> bool {
    exists|j: int| 0 <= j < n && names_tool(#[trigger] tools[j], name)
}

/// Whether the tool has that name.
pub open spec fn names_tool(tool: JsonView, name: Seq<char>) -> bool {
    tool_of(tool) matches Ok(view) && view.name == name
}

/// The tool at index `i`; its name must not have occurred before.
pub open spec fn tool_at(tools: Seq<JsonView>, i: int) -> Result<ToolView, ErrorView> {
    match tool_of(tools[i]) {
        Ok(tool) => if name_taken(tools, i, tool.name) {
            Err(invalid("Duplicate tool name '"@ + tool.name + "'"@))
        } else {
            Ok(tool)
        },
        Err(error) => Err(error),
    }
}

/// What each tool of an array is.
pub open spec fn tool_results(tools: Seq<JsonView>) -> Seq<Result<ToolView, ErrorView>> {
    Seq::new(tools.len(), |i: int| tool_at(tools, i))
}

/// The tools of a request.
pub open spec fn tools_of(tools: Option<JsonView>) -> Result<Seq<ToolView>, ErrorView> {
    match tools {
        None => Ok(Seq::empty()),
        Some(JsonView::Array(items)) => collected(tool_results(items)),
        Some(_) => Err(invalid("'tools' must be an array"@)),
    }
}

/// One tool, but for the uniqueness of its name.
pub fn parse_tool(tool: &Json) -> (r: Result<CanonicalTool, Error>)
    ensures
        outcome(r) == tool_of(tool@),
{
    let tool_type = text_field_or(tool, "type", "function");
    if !same(tool_type, "function") {
        return Err(
            Error {
                kind: ErrorKind::RequestInvalid,
                message: join3("Unsupported tool type '", tool_type, "'"),
            },
        );
    }
    let function: &Json = match tool.get("function") {
        Some(function) => function,
        None => tool,
    };
    match require_string(function, "name") {
        Ok(name) => Ok(
            CanonicalTool {
                name: name.to_owned(),
                description: text_field_or(function, "description", "").to_owned(),
                parameters: match function.get("parameters") {
                    Some(parameters) => parameters.duplicate(),
                    None => make_empty_schema(),
                },
            },
        ),
        Err(error) => Err(error),
    }
}

/// The tools of a request.
pub fn parse_tools(tools: Option<&Json>) -> (r: Result<Vec<CanonicalTool>, Error>)
    ensures
        outcome(r) == tools_of(tools.deep_view()),
{
    let value: &Json = match tools {
        Some(value) => value,
        None => {
            let none: Vec<CanonicalTool> = Vec::new();
            assert(none.deep_view() =~= Seq::empty());
            return Ok(none);
        },
    };
    let items: &Vec<Json> = match value.as_array() {
        Some(items) => items,
        None => {
            return Err(Error::new(ErrorKind::RequestInvalid, "'tools' must be an array"));
        },
    };
    let ghost views = items.deep_view();
    let ghost results = tool_results(views);
    let mut parsed: Vec<CanonicalTool> = Vec::new();
    let mut i: usize = 0;
    proof {
        lemma_collected_all(results);
        assert(parsed.deep_view() =~= Seq::empty());
    }
    while i < items.len()
        invariant
            i <= items.len(),
            views == items.deep_view(),
            tools.deep_view() == Some(JsonView::Array(views)),
            results == tool_results(views),
            parsed.len() == i,
            forall|j: int|
                0 <= j < i ==> tool_of(#[trigger] views[j]) == Ok::<ToolView, ErrorView>(
                    parsed@[j].deep_view(),
                ),
            collected(results.take(i as int)) == Ok::<Seq<ToolView>, ErrorView>(
                parsed.deep_view(),
            ),
        decreases items.len() - i,
    {
        proof {
            lemma_collected_step(results, i as int);
        }
        let tool = match parse_tool(&items[i]) {
            Ok(tool) => tool,
            Err(error) => {
                return Err(error);
            },
        };
        let mut k: usize = 0;
        while k < parsed.len()
            invariant
                k <= parsed.len(),
                parsed.len() == i,
                i < views.len(),
                views == items.deep_view(),
                tools.deep_view() == Some(JsonView::Array(views)),
                results == tool_results(views),
                collected(results) == Err::<Seq<ToolView>, ErrorView>(
                    invalid("Duplicate tool name '"@ + tool.name@ + "'"@),
                ) || !name_taken(views, i as int, tool.name@),
                forall|j: int|
                    0 <= j < i ==> tool_of(#[trigger] views[j]) == Ok::<ToolView, ErrorView>(
                        parsed@[j].deep_view(),
                    ),
                forall|j: int| 0 <= j < k ==> (#[trigger] parsed@[j]).name@ != tool.name@,
            decreases parsed.len() - k,
        {
            if same(parsed[k].name.as_str(), tool.name.as_str()) {
                assert(names_tool(views[k as int], tool.name@));
                return Err(
                    Error {
                        kind: ErrorKind::RequestInvalid,
                        message: join3("Duplicate tool name '", tool.name.as_str(), "'"),
                    },
                );
            }
            k = k + 1;
        }
        assert forall|j: int| 0 <= j < i implies !names_tool(#[trigger] views[j], tool.name@) by {
            assert(parsed@[j].name@ != tool.name@);
        }
        let ghost before = parsed.deep_view();
        let ghost shown = tool.deep_view();
        parsed.push(tool);
        assert(parsed.deep_view() =~= before.push(shown));
        i = i + 1;
    }
    proof {
        lemma_collected_all(results);
    }
    Ok(parsed)
}

/// No two tools of an accepted request have the same name.
pub proof fn tool_names_are_distinct(tools: Option<JsonView>, i: int, j: int)
    requires
        tools_of(tools) matches Ok(parsed) && 0 <= i < j < parsed.len(),
    ensures
        tools_of(tools)->Ok_0[i].name != tools_of(tools)->Ok_0[j].name,
{
    let items = tools->0->Array_0;
    let results = tool_results(items);
    lemma_collected_values(results, 0);
    lemma_collected_values(results, i);
    lemma_collected_values(results, j);
    assert(names_tool(items[i], tools_of(tools)->Ok_0[i].name));
}

/// The choice of a tool.
pub open spec fn tool_choice_of(choice: Option<JsonView>) -> Result<ToolChoiceView, ErrorView> {
    match choice {
        None => Ok(ToolChoiceView::Auto),
        Some(JsonView::Text(value)) => Ok(
            if value == "auto"@ {
                ToolChoiceView::Auto
            } else if value == "none"@ {
                ToolChoiceView::Never
            } else {
                ToolChoiceView::Specific(value)
            },
        ),
        Some(JsonView::Object(members)) => match required_text(
            function_of(JsonView::Object(members)),
            "name"@,
        ) {
            Ok(name) => Ok(ToolChoiceView::Specific(name)),
            Err(error) => Err(error),
        },
        Some(_) => Err(invalid("'tool_choice' must be a string or object"@)),
    }
}

/// The choice of a tool.
pub fn parse_tool_choice(choice: Option<&Json>) -> (r: Result<CanonicalToolChoice, Error>)
    ensures
        outcome(r) == tool_choice_of(choice.deep_view()),
{
    let choice: &Json = match choice {
        Some(choice) => choice,
        None => {
            return Ok(CanonicalToolChoice::Auto);
        },
    };
    if let Some(value) = choice.as_str() {
        return if same(value, "auto") {
            Ok(CanonicalToolChoice::Auto)
        } else if same(value, "none") {
            Ok(CanonicalToolChoice::Never)
        } else {
            Ok(CanonicalToolChoice::Specific(value.to_owned()))
        };
    }
    if choice.is_object() {
        let function: &Json = match choice.get("function") {
            Some(function) => function,
            None => choice,
        };
        return match require_string(function, "name") {
            Ok(name) => Ok(CanonicalToolChoice::Specific(name.to_owned())),
            Err(error) => Err(error),
        };
    }
    Err(Error::new(ErrorKind::RequestInvalid, "'tool_choice' must be a string or object"))
}

/// The reasoning options.
pub open spec fn reasoning_of(
    reasoning: Option<JsonView>,
) -> Result<Option<ReasoningView>, ErrorView> {
    match reasoning {
        None => Ok(None),
        Some(value) => if value is Object {
            Ok(
                Some(
                    ReasoningView {
                        include_summary: value.get_bool("include_summary"@),
                        include_encrypted_content: value.get_bool("include_encrypted_content"@),
                        effort: value.get_str("effort"@),
                    },
                ),
            )
        } else {
            Err(invalid("'reasoning' must be an object"@))
        },
    }
}

/// The reasoning options.
pub fn parse_reasoning(reasoning: Option<&Json>) -> (r: Result<
    Option<CanonicalReasoningOptions>,
    Error,
>)
    ensures
        outcome(r) == reasoning_of(reasoning.deep_view()),
{
    let reasoning: &Json = match reasoning {
        Some(reasoning) => reasoning,
        None => {
            return Ok(None);
        },
    };
    if !reasoning.is_object() {
        return Err(Error::new(ErrorKind::RequestInvalid, "'reasoning' must be an object"));
    }
    Ok(
        Some(
            CanonicalReasoningOptions {
                include_summary: reasoning.get_bool("include_summary"),
                include_encrypted_content: reasoning.get_bool("include_encrypted_content"),
                effort: to_owned_opt(reasoning.get_str("effort")),
            },
        ),
    )
}

/// The texts among some JSON values, in order.
pub open spec fn texts_among(items: Seq<JsonView>) -> Seq<Seq<char>>
    decreases items.len(),
{
    if items.len() == 0 {
        Seq::empty()
    } else {
        match items.last().as_str() {
            Some(text) => texts_among(items.drop_last()).push(text),
            None => texts_among(items.drop_last()),
        }
    }
}

/// The texts of an array member, in order; none where there is no such array.
pub open spec fn member_texts(value: JsonView, name: Seq<char>) -> Seq<Seq<char>> {
    match value.get(name) {
        Some(JsonView::Array(items)) => texts_among(items),
        _ => Seq::empty(),
    }
}

/// The texts of an array member, in order.
fn text_members(value: &Json, name: &str) -> (r: Vec<String>)
    ensures
        r.deep_view() == member_texts(value@, name@),
{
    let mut out: Vec<String> = Vec::new();
    assert(out.deep_view() =~= Seq::empty());
    if let Some(found) = value.get(name) {
        if let Some(items) = found.as_array() {
            let ghost views = items.deep_view();
            let mut i: usize = 0;
            assert(views.take(0) =~= Seq::empty());
            while i < items.len()
                invariant
                    i <= items.len(),
                    views == items.deep_view(),
                    out.deep_view() == texts_among(views.take(i as int)),
                decreases items.len() - i,
            {
                let ghost before = out.deep_view();
                assert(views.take(i + 1).drop_last() =~= views.take(i as int));
                if let Some(text) = items[i].as_str() {
                    out.push(text.to_owned());
                    assert(out.deep_view() =~= before.push(text@));
                }
                i = i + 1;
            }
            assert(views.take(views.len() as int) =~= views);
        }
    }
    out
}

/// The member, where it is a number.
pub open spec fn number_member(value: JsonView, name: Seq<char>) -> Option<JsonView> {
    match value.get(name) {
        Some(JsonView::Uint(n)) => Some(JsonView::Uint(n)),
        Some(JsonView::Int(n)) => Some(JsonView::Int(n)),
        Some(JsonView::Float(n)) => Some(JsonView::Float(n)),
        _ => None,
    }
}

fn number_field(value: &Json, name: &str) -> (r: Option<Json>)
    ensures
        r.deep_view() == number_member(value@, name@),
{
    match value.get(name) {
        Some(Json::Uint(n)) => Some(Json::Uint(*n)),
        Some(Json::Int(n)) => Some(Json::Int(*n)),
        Some(Json::Float(n)) => Some(Json::Float(n.clone())),
        _ => None,
    }
}

/// The truth value of a member, or false.
pub open spec fn flag(value: JsonView, name: Seq<char>) -> bool {
    value.get_bool(name) == Some(true)
}

/// The truth value of a member, or false.
pub fn flag_field(value: &Json, name: &str) -> (r: bool)
    ensures
        r == flag(value@, name@),
{
    match value.get_bool(name) {
        Some(b) => b,
        None => false,
    }
}

/// The output limit of a request, cut to 32 bits.
pub open spec fn output_limit(value: JsonView) -> Option<u32> {
    match value.get_u64("max_output_tokens"@) {
        Some(limit) => Some(limit as u32),
        None => None,
    }
}

/// The request in protocol-neutral form. Of several faults the one that comes
/// first in the order input, tools, instructions, tool choice, reasoning is
/// reported.
pub open spec fn canonical_of(
    request_id: Seq<char>,
    raw: JsonView,
    downstream_model: Seq<char>,
    upstream_model: Seq<char>,
) -> Result<RequestView, ErrorView> {
    match (
        input_of(raw.get("input"@)),
        tools_of(raw.get("tools"@)),
        instructions_of(raw.get("instructions"@)),
        tool_choice_of(raw.get("tool_choice"@)),
        reasoning_of(raw.get("reasoning"@)),
    ) {
        (Err(error), _, _, _, _) => Err(error),
        (Ok(_), Err(error), _, _, _) => Err(error),
        (Ok(_), Ok(_), Err(error), _, _) => Err(error),
        (Ok(_), Ok(_), Ok(_), Err(error), _) => Err(error),
        (Ok(_), Ok(_), Ok(_), Ok(_), Err(error)) => Err(error),
        (Ok(input), Ok(tools), Ok(instructions), Ok(tool_choice), Ok(reasoning)) => Ok(
            RequestView {
                request_id,
                downstream_model,
                upstream_model,
                instructions,
                input,
                previous_response_id: raw.get_str("previous_response_id"@),
                tools,
                tool_choice,
                parallel_tool_calls: flag(raw, "parallel_tool_calls"@),
                max_output_tokens: output_limit(raw),
                temperature: number_member(raw, "temperature"@),
                top_p: number_member(raw, "top_p"@),
                stream: flag(raw, "stream"@),
                reasoning,
                included: member_texts(raw, "include"@),
                metadata: match raw.get("metadata"@) {
                    Some(metadata) => metadata,
                    None => JsonView::Null,
                },
                store: flag(raw, "store"@),
                raw_downstream: raw,
            },
        ),
    }
}

/// Reads a downstream request into its protocol-neutral form.
pub fn parse_canonical_request(
    request_id: &str,
    raw: &Json,
    downstream_model: &str,
    upstream_model: &str,
) -> (r: Result<CanonicalResponseRequest, Error>)
    ensures
        outcome(r) == canonical_of(request_id@, raw@, downstream_model@, upstream_model@),
{
    let input = match parse_input(raw.get("input")) {
        Ok(input) => input,
        Err(error) => {
            return Err(error);
        },
    };
    let tools = match parse_tools(raw.get("tools")) {
        Ok(tools) => tools,
        Err(error) => {
            return Err(error);
        },
    };
    let instructions = match parse_instructions(raw.get("instructions")) {
        Ok(instructions) => instructions,
        Err(error) => {
            return Err(error);
        },
    };
    let tool_choice = match parse_tool_choice(raw.get("tool_choice")) {
        Ok(tool_choice) => tool_choice,
        Err(error) => {
            return Err(error);
        },
    };
    let reasoning = match parse_reasoning(raw.get("reasoning")) {
        Ok(reasoning) => reasoning,
        Err(error) => {
            return Err(error);
        },
    };
    Ok(
        CanonicalResponseRequest {
            request_id: request_id.to_owned(),
            downstream_model: downstream_model.to_owned(),
            upstream_model: upstream_model.to_owned(),
            instructions,
            input,
            previous_response_id: to_owned_opt(raw.get_str("previous_response_id")),
            tools,
            tool_choice,
            parallel_tool_calls: flag_field(raw, "parallel_tool_calls"),
            max_output_tokens: match raw.get_u64("max_output_tokens") {
                Some(limit) => Some(
                    #[verifier::truncate]
                    (limit as u32),
                ),
                None => None,
            },
            temperature: number_field(raw, "temperature"),
            top_p: number_field(raw, "top_p"),
            stream: flag_field(raw, "stream"),
            reasoning,
            included: text_members(raw, "include"),
            metadata: match raw.get("metadata") {
                Some(metadata) => metadata.duplicate(),
                None => Json::Null,
            },
            store: flag_field(raw, "store"),
            raw_downstream: raw.duplicate(),
        },
    )
}

/// Whether a request carries tools.
pub open spec fn carries_tools(raw: JsonView) -> bool {
    raw.get("tools"@) matches Some(JsonView::Array(items)) && items.len() > 0
}

/// Whether a request carries tools.
pub fn request_has_tools(raw: &Json) -> (r: bool)
    ensures
        r == carries_tools(raw@),
{
    match raw.get("tools") {
        Some(tools) => match tools.as_array() {
            Some(items) => items.len() > 0,
            None => false,
        },
        None => false,
    }
}

/// A tool choice in words: the word for none stands for no tool, and it alone; the
/// word for a free choice is the same as no choice at all; any other word is the
/// name of the tool to call.
pub proof fn tool_choice_means_what_it_says(word: Seq<char>)
    ensures
        tool_choice_of(Some(JsonView::Text("auto"@))) == tool_choice_of(None),
        tool_choice_of(None) == Ok::<ToolChoiceView, ErrorView>(ToolChoiceView::Auto),
        tool_choice_of(Some(JsonView::Text(word))) == Ok::<ToolChoiceView, ErrorView>(
            ToolChoiceView::Never,
        ) <==> word == "none"@,
        tool_choice_of(Some(JsonView::Text(word))) == Ok::<ToolChoiceView, ErrorView>(
            ToolChoiceView::Auto,
        ) <==> word == "auto"@,
        word != "auto"@ && word != "none"@ ==> tool_choice_of(Some(JsonView::Text(word))) == Ok::<
            ToolChoiceView,
            ErrorView,
        >(ToolChoiceView::Specific(word)),
{
    reveal_strlit("auto");
    reveal_strlit("none");
    assert("auto"@[0] != "none"@[0]);
}

/// A tool choice that is an object names the tool, in itself or under `function`;
/// without a name it is refused, and so is any value that is neither an object nor
/// a word.
pub proof fn tool_choice_names_its_tool(choice: JsonView)
    ensures
        choice is Object ==> {
            let named = match choice.get("function"@) {
                Some(function) => function.get_str("name"@),
                None => choice.get_str("name"@),
            };
            match named {
                Some(name) => tool_choice_of(Some(choice)) == Ok::<ToolChoiceView, ErrorView>(
                    ToolChoiceView::Specific(name),
                ),
                None => tool_choice_of(Some(choice)) matches Err(error) && error.kind
                    == ErrorKind::RequestInvalid,
            }
        },
        !(choice is Object || choice is Text) ==> (tool_choice_of(Some(choice)) matches Err(error)
            && error.kind == ErrorKind::RequestInvalid),
{
}

/// A block of content is its text, whichever of the three names its type has, and
/// also where it names none; one without a text, or of another type, is refused.
pub proof fn block_is_its_text(block: JsonView)
    ensures
        block_of(block) is Ok <==> {
            &&& block.get_str("text"@) is Some
            &&& block.get_str("type"@) matches Some(name) ==> name == "input_text"@ || name
                == "output_text"@ || name == "text"@
        },
        block_of(block) matches Ok(view) ==> block.get_str("text"@) matches Some(text) && view == (
        BlockView::Text { text }),
        block_of(block) matches Err(error) ==> error.kind == ErrorKind::RequestInvalid,
{
}

/// The content of a message holds one block for each that was sent, in order, and a
/// plain text is one block; it is read just where each block is.
pub proof fn content_keeps_its_blocks(blocks: Seq<JsonView>, text: Seq<char>)
    ensures
        content_of(None) == Ok::<Seq<BlockView>, ErrorView>(Seq::empty()),
        content_of(Some(JsonView::Text(text))) == Ok::<Seq<BlockView>, ErrorView>(
            seq![BlockView::Text { text }],
        ),
        content_of(Some(JsonView::Array(blocks))) is Ok <==> forall|i: int|
            0 <= i < blocks.len() ==> block_of(#[trigger] blocks[i]) is Ok,
        content_of(Some(JsonView::Array(blocks))) matches Ok(content) ==> {
            &&& content.len() == blocks.len()
            &&& forall|i: int|
                0 <= i < blocks.len() ==> (#[trigger] content[i]) == (BlockView::Text {
                    text: blocks[i].get_str("text"@)->0,
                })
        },
{
    let results = block_results(blocks);
    collected_is_all_or_the_first_error(results);
    if collected(results) is Ok {
        assert forall|i: int| 0 <= i < blocks.len() implies block_of(#[trigger] blocks[i]) is Ok by {
            assert(results[i] is Ok);
        }
        assert forall|i: int| 0 <= i < blocks.len() implies (#[trigger] collected(results)->Ok_0[i])
            == (BlockView::Text { text: blocks[i].get_str("text"@)->0 }) by {
            assert(results[i] is Ok);
            block_is_its_text(blocks[i]);
        }
    } else {
        let k = choose|k: int|
            0 <= k < results.len() && #[trigger] results[k] == Err::<BlockView, ErrorView>(
                collected(results)->Err_0,
            );
        assert(block_of(blocks[k]) is Err);
    }
}

/// An item of the input without a type, or with that of a message, is a message of
/// its role, or else of the user, with its content; the output of a call is read with
/// its id and its output, which both have to be there; an item of any other type is
/// refused.
pub proof fn input_item_is_read_by_its_type(item: JsonView)
    ensures
        (item.get_str("type"@) is None || item.get_str("type"@) == Some("message"@)) ==> match (
            content_of(item.get("content"@)),
            input_item_of(item),
        ) {
            (Ok(content), Ok(read)) => {
                &&& read is Message && read->Message_content == content
                &&& item.get_str("role"@) matches Some(role) ==> read->role == role
                &&& item.get_str("role"@) is None ==> read->role == "user"@
            },
            (Err(error), Err(reported)) => reported == error,
            _ => false,
        },
        item.get_str("type"@) == Some("function_call_output"@) ==> match input_item_of(item) {
            Ok(read) => {
                &&& read is FunctionCallOutput
                &&& item.get_str("call_id"@) == Some(read->call_id)
                &&& item.get_str("output"@) == Some(read->output)
            },
            Err(error) => error.kind == ErrorKind::RequestInvalid && (item.get_str("call_id"@)
                is None || item.get_str("output"@) is None),
        },
        (item.get_str("type"@) matches Some(name) && name != "message"@ && name
            != "function_call_output"@) ==> (input_item_of(item) matches Err(error) && error.kind
            == ErrorKind::RequestInvalid),
{
    reveal_strlit("message");
    reveal_strlit("function_call_output");
    assert("message"@.len() != "function_call_output"@.len());
}

/// A plain text is the input as it is; of an array each item is read, in order; no
/// input, or one of another kind, is refused.
pub proof fn input_keeps_its_items(items: Seq<JsonView>, text: Seq<char>, other: JsonView)
    ensures
        input_of(Some(JsonView::Text(text))) == Ok::<Seq<InputView>, ErrorView>(
            seq![InputView::Text { content: text }],
        ),
        input_of(Some(JsonView::Array(items))) is Ok <==> forall|i: int|
            0 <= i < items.len() ==> input_item_of(#[trigger] items[i]) is Ok,
        input_of(Some(JsonView::Array(items))) matches Ok(input) ==> {
            &&& input.len() == items.len()
            &&& forall|i: int|
                0 <= i < items.len() ==> input_item_of(items[i]) == Ok::<InputView, ErrorView>(
                    #[trigger] input[i],
                )
        },
        input_of(None) matches Err(error) && error.kind == ErrorKind::RequestInvalid,
        !(other is Text || other is Array) ==> (input_of(Some(other)) matches Err(error)
            && error.kind == ErrorKind::RequestInvalid),
{
    let results = input_results(items);
    collected_is_all_or_the_first_error(results);
    if collected(results) is Ok {
        assert forall|i: int| 0 <= i < items.len() implies input_item_of(#[trigger] items[i])
            is Ok by {
            assert(results[i] is Ok);
        }
        assert forall|i: int| 0 <= i < items.len() implies input_item_of(items[i]) == Ok::<
            InputView,
            ErrorView,
        >(#[trigger] collected(results)->Ok_0[i]) by {
            assert(results[i] is Ok);
        }
    } else {
        let k = choose|k: int|
            0 <= k < results.len() && #[trigger] results[k] == Err::<InputView, ErrorView>(
                collected(results)->Err_0,
            );
        assert(input_item_of(items[k]) is Err);
    }
}

/// Instructions are a text, or an object with a content and a role; a role that is
/// not given is that of the developer. An object without a content is refused, and so
/// is any other value.
pub proof fn instructions_are_read_in_full(text: Seq<char>, object: JsonView)
    ensures
        instructions_of(None) == Ok::<Option<InstructionsView>, ErrorView>(None),
        instructions_of(Some(JsonView::Text(text))) matches Ok(Some(read)) && read.content == text
            && read.role == "developer"@,
        object is Object ==> match (object.get_str("content"@), instructions_of(Some(object))) {
            (Some(content), Ok(Some(read))) => read.content == content && match object.get_str(
                "role"@,
            ) {
                Some(role) => read.role == role,
                None => read.role == "developer"@,
            },
            (None, Err(error)) => error.kind == ErrorKind::RequestInvalid,
            _ => false,
        },
        !(object is Object || object is Text) ==> (instructions_of(Some(object)) matches Err(error)
            && error.kind == ErrorKind::RequestInvalid),
{
}

/// A tool is read from its `function`, or else from itself: its name, which has to be
/// there, its description and its parameters as they are. One that is not a function
/// is refused.
pub proof fn tool_is_read_in_full(tool: JsonView)
    ensures
        tool_of(tool) matches Ok(read) ==> {
            let function = match tool.get("function"@) {
                Some(function) => function,
                None => tool,
            };
            &&& function.get_str("name"@) == Some(read.name)
            &&& function.get_str("description"@) matches Some(description) ==> read.description
                == description
            &&& function.get_str("description"@) is None ==> read.description == ""@
            &&& function.get("parameters"@) matches Some(parameters) ==> read.parameters
                == parameters
            &&& function.get("parameters"@) is None ==> read.parameters.get_str("type"@) == Some(
                "object"@,
            ) && read.parameters.get("properties"@) == Some(JsonView::Object(Seq::empty()))
        },
        tool_of(tool) is Ok <==> {
            &&& tool.get_str("type"@) matches Some(name) ==> name == "function"@
            &&& match tool.get("function"@) {
                Some(function) => function.get_str("name"@) is Some,
                None => tool.get_str("name"@) is Some,
            }
        },
        tool_of(tool) matches Err(error) ==> error.kind == ErrorKind::RequestInvalid,
{
    reveal_strlit("properties");
    reveal_strlit("type");
    assert("properties"@.len() != "type"@.len());
    reveal_with_fuel(member, 3);
    let members = empty_schema()->Object_0;
    assert(members.drop_first() =~= seq![members[1]]);
}

/// The tools of a request are those that were sent, in order, and no two of them may
/// have one name.
pub proof fn tools_are_those_that_were_sent(items: Seq<JsonView>)
    ensures
        tools_of(None) == Ok::<Seq<ToolView>, ErrorView>(Seq::empty()),
        tools_of(Some(JsonView::Array(items))) matches Ok(tools) ==> {
            &&& tools.len() == items.len()
            &&& forall|i: int|
                0 <= i < items.len() ==> tool_of(items[i]) == Ok::<ToolView, ErrorView>(
                    #[trigger] tools[i],
                )
        },
        tools_of(Some(JsonView::Array(items))) is Ok <==> {
            &&& forall|i: int| 0 <= i < items.len() ==> tool_of(#[trigger] items[i]) is Ok
            &&& forall|i: int, j: int|
                0 <= i < j < items.len() ==> tool_of(#[trigger] items[i])->Ok_0.name != tool_of(
                    #[trigger] items[j],
                )->Ok_0.name
        },
{
    let results = tool_results(items);
    collected_is_all_or_the_first_error(results);
    if collected(results) is Ok {
        let tools = collected(results)->Ok_0;
        assert forall|i: int| 0 <= i < items.len() implies tool_of(items[i]) == Ok::<
            ToolView,
            ErrorView,
        >(#[trigger] tools[i]) by {
            assert(results[i] is Ok);
        }
        assert forall|i: int| 0 <= i < items.len() implies tool_of(#[trigger] items[i]) is Ok by {
            assert(results[i] is Ok);
        }
        assert forall|i: int, j: int| 0 <= i < j < items.len() implies tool_of(
            #[trigger] items[i],
        )->Ok_0.name != tool_of(#[trigger] items[j])->Ok_0.name by {
            assert(results[i] is Ok && results[j] is Ok);
            assert(!name_taken(items, j, tools[j].name));
            assert(!names_tool(items[i], tools[j].name));
        }
    } else {
        let k = choose|k: int|
            0 <= k < results.len() && #[trigger] results[k] == Err::<ToolView, ErrorView>(
                collected(results)->Err_0,
            );
        if tool_of(items[k]) is Ok {
            let name = tool_of(items[k])->Ok_0.name;
            let j = choose|j: int| 0 <= j < k && names_tool(#[trigger] items[j], name);
            assert(tool_of(items[j])->Ok_0.name == name);
        }
    }
}

/// The reasoning options are those of an object, each under its own name; any other
/// value is refused.
pub proof fn reasoning_options_are_read_by_name(value: JsonView)
    ensures
        reasoning_of(None) == Ok::<Option<ReasoningView>, ErrorView>(None),
        value is Object ==> (reasoning_of(Some(value)) matches Ok(Some(read))
            && read.include_summary == value.get_bool("include_summary"@)
            && read.include_encrypted_content == value.get_bool("include_encrypted_content"@)
            && read.effort == value.get_str("effort"@)),
        !(value is Object) ==> (reasoning_of(Some(value)) matches Err(error) && error.kind
            == ErrorKind::RequestInvalid),
{
}

/// The texts of an array keep their order, and nothing but texts is kept.
pub proof fn texts_among_are_the_texts(items: Seq<JsonView>)
    ensures
        texts_among(items) == items.filter(|item: JsonView| item is Text).map_values(
            |item: JsonView| item->Text_0,
        ),
    decreases items.len(),
{
    reveal(Seq::filter);
    let is_text = |item: JsonView| item is Text;
    let text_of = |item: JsonView| item->Text_0;
    if items.len() > 0 {
        let front = items.drop_last();
        texts_among_are_the_texts(front);
        if items.last() is Text {
            assert(front.filter(is_text).push(items.last()).map_values(text_of) =~= front.filter(
                is_text,
            ).map_values(text_of).push(items.last()->Text_0));
        }
    } else {
        assert(items.filter(is_text).map_values(text_of) =~= Seq::empty());
    }
}

/// A request is read with each of its members in its own place, and with the ids and
/// the models that it is read under. A switch that is not set is off; what is not
/// there stays away.
pub proof fn request_is_read_member_by_member(
    request_id: Seq<char>,
    raw: JsonView,
    downstream_model: Seq<char>,
    upstream_model: Seq<char>,
)
    ensures
        canonical_of(request_id, raw, downstream_model, upstream_model) matches Ok(request) ==> {
            &&& request.request_id == request_id
            &&& request.downstream_model == downstream_model
            &&& request.upstream_model == upstream_model
            &&& request.raw_downstream == raw
            &&& input_of(raw.get("input"@)) == Ok::<Seq<InputView>, ErrorView>(request.input)
            &&& tools_of(raw.get("tools"@)) == Ok::<Seq<ToolView>, ErrorView>(request.tools)
            &&& instructions_of(raw.get("instructions"@)) == Ok::<
                Option<InstructionsView>,
                ErrorView,
            >(request.instructions)
            &&& tool_choice_of(raw.get("tool_choice"@)) == Ok::<ToolChoiceView, ErrorView>(
                request.tool_choice,
            )
            &&& reasoning_of(raw.get("reasoning"@)) == Ok::<Option<ReasoningView>, ErrorView>(
                request.reasoning,
            )
            &&& request.previous_response_id == raw.get_str("previous_response_id"@)
            &&& request.stream <==> raw.get("stream"@) == Some(JsonView::Bool(true))
            &&& request.store <==> raw.get("store"@) == Some(JsonView::Bool(true))
            &&& request.parallel_tool_calls <==> raw.get("parallel_tool_calls"@) == Some(
                JsonView::Bool(true),
            )
            &&& request.max_output_tokens is Some <==> (raw.get("max_output_tokens"@) is Some
                && raw.get("max_output_tokens"@)->0 is Uint)
            &&& request.max_output_tokens is Some && raw.get("max_output_tokens"@)->0->Uint_0
                <= u32::MAX ==> request.max_output_tokens->0 == raw.get(
                "max_output_tokens"@,
            )->0->Uint_0
            &&& request.temperature is Some ==> request.temperature == raw.get("temperature"@)
            &&& request.top_p is Some ==> request.top_p == raw.get("top_p"@)
            &&& request.metadata == match raw.get("metadata"@) {
                Some(metadata) => metadata,
                None => JsonView::Null,
            }
            &&& match raw.get("include"@) {
                Some(JsonView::Array(items)) => request.included == items.filter(
                    |item: JsonView| item is Text,
                ).map_values(|item: JsonView| item->Text_0),
                _ => request.included.len() == 0,
            }
        },
{
    if let Some(JsonView::Array(items)) = raw.get("include"@) {
        texts_among_are_the_texts(items);
    }
}

/// A member that is a number is kept as it is, and one that is not is left out.
pub proof fn numbers_are_kept_as_they_are(value: JsonView, name: Seq<char>)
    ensures
        number_member(value, name) is Some ==> number_member(value, name) == value.get(name),
        number_member(value, name) is Some <==> (value.get(name) matches Some(found) && (found
            is Uint || found is Int || found is Float)),
{
}

/// A request is refused just where one of its parts is, and then with the error of the
/// first such part, in the order input, tools, instructions, tool choice, reasoning.
pub proof fn request_is_refused_for_its_first_fault(
    request_id: Seq<char>,
    raw: JsonView,
    downstream_model: Seq<char>,
    upstream_model: Seq<char>,
)
    ensures
        canonical_of(request_id, raw, downstream_model, upstream_model) is Ok <==> {
            &&& input_of(raw.get("input"@)) is Ok
            &&& tools_of(raw.get("tools"@)) is Ok
            &&& instructions_of(raw.get("instructions"@)) is Ok
            &&& tool_choice_of(raw.get("tool_choice"@)) is Ok
            &&& reasoning_of(raw.get("reasoning"@)) is Ok
        },
        canonical_of(request_id, raw, downstream_model, upstream_model) matches Err(error) ==> if
        input_of(raw.get("input"@)) is Err {
            error == input_of(raw.get("input"@))->Err_0
        } else if tools_of(raw.get("tools"@)) is Err {
            error == tools_of(raw.get("tools"@))->Err_0
        } else if instructions_of(raw.get("instructions"@)) is Err {
            error == instructions_of(raw.get("instructions"@))->Err_0
        } else if tool_choice_of(raw.get("tool_choice"@)) is Err {
            error == tool_choice_of(raw.get("tool_choice"@))->Err_0
        } else {
            error == reasoning_of(raw.get("reasoning"@))->Err_0
        },
{
}

/// A request carries tools just where it has a list of them that is not empty, so one
/// that was read with tools carries them.
pub proof fn tools_are_carried_where_they_are_sent(
    request_id: Seq<char>,
    raw: JsonView,
    downstream_model: Seq<char>,
    upstream_model: Seq<char>,
)
    ensures
        canonical_of(request_id, raw, downstream_model, upstream_model) matches Ok(request) ==> (
        carries_tools(raw) <==> request.tools.len() > 0),
        carries_tools(raw) ==> raw.get("tools"@) is Some,
{
    if let Some(JsonView::Array(items)) = raw.get("tools"@) {
        tools_are_those_that_were_sent(items);
    }
}

/// A text that has to be there is the one under its own name, and the lack of it is
/// told under that name; one that need not be there is left to the default.
pub proof fn texts_are_read_under_their_names(
    value: JsonView,
    field: Seq<char>,
    default: Seq<char>,
)
    ensures
        value.get_str(field) matches Some(text) ==> required_text(value, field) == Ok::<
            Seq<char>,
            ErrorView,
        >(text) && text_or(value, field, default) == text,
        value.get_str(field) is None ==> text_or(value, field, default) == default && (
        required_text(value, field) matches Err(error) && error.kind == ErrorKind::RequestInvalid
            && contains_text(error.message, field)),
        flag(value, field) <==> value.get(field) == Some(JsonView::Bool(true)),
{
    if let Err(error) = required_text(value, field) {
        let front = "Missing or invalid string field '"@;
        assert(error.message.subrange(front.len() as int, (front.len() + field.len()) as int)
            =~= field);
        assert(occurs_at(error.message, field, front.len() as int));
    }
}

/// The output limit is the number that was asked for, of which the lower 32 bits count.
pub proof fn output_limit_is_cut_to_its_low_bits(value: JsonView, limit: u64)
    ensures
        value.get("max_output_tokens"@) == Some(JsonView::Uint(limit)) ==> (output_limit(
            value,
        ) matches Some(cut) && cut == limit % 0x1_0000_0000),
        value.get_u64("max_output_tokens"@) is None ==> output_limit(value) is None,
{
    assert(limit as u32 == limit % 0x1_0000_0000) by (bit_vector);
}

} // verus!

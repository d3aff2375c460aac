//! Tool offers: the families a `tools[]` entry resolves into, and the
//! schemas, names and descriptions the families carry.
use crate::bridge::error::{bridge_error, BridgeError, BridgeErrorV};
use crate::json::{empty_object, items_view, lemma_items_push, opt_json, opt_owned, Json, JsonV};
use crate::text::{concat3, ends_with, opt_str, same, starts_with};
use vstd::prelude::*;

verus! {

/// Tool family a `tools[]` entry resolved into.
#[derive(Clone, Copy, Debug, PartialEq, Eq, Structural)]
pub enum ToolFamily {
    Bash,
    TextEditor,
    Memory,
    Computer,
    WebSearch,
    WebFetch,
    Custom,
}

/// Whether an optional type starts with `prefix`.
pub open spec fn type_starts(t: Option<Seq<char>>, prefix: Seq<char>) -> bool {
    t is Some && prefix.is_prefix_of(t->0)
}

/// Whether an optional type ends with `suffix`.
pub open spec fn type_ends(t: Option<Seq<char>>, suffix: Seq<char>) -> bool {
    t is Some && suffix.is_suffix_of(t->0)
}

/// The family a tool type belongs to, by its prefix.
pub open spec fn family_of(t: Option<Seq<char>>) -> ToolFamily {
    if type_starts(t, "bash_"@) {
        ToolFamily::Bash
    } else if type_starts(t, "text_editor_"@) {
        ToolFamily::TextEditor
    } else if type_starts(t, "memory_"@) {
        ToolFamily::Memory
    } else if type_starts(t, "computer_"@) {
        ToolFamily::Computer
    } else if type_starts(t, "web_search_"@) {
        ToolFamily::WebSearch
    } else if type_starts(t, "web_fetch_"@) {
        ToolFamily::WebFetch
    } else {
        ToolFamily::Custom
    }
}

/// A type the gateway can classify: one of a known family, `custom`, or
/// none at all.
pub open spec fn known_type(t: Option<Seq<char>>) -> bool {
    t is None || family_of(t) != ToolFamily::Custom || t == Some("custom"@)
}

/// The name of an offer that names nothing.
pub open spec fn default_name(family: ToolFamily) -> Seq<char> {
    match family {
        ToolFamily::Bash => "bash"@,
        ToolFamily::TextEditor => "str_replace_based_edit_tool"@,
        ToolFamily::Memory => "memory"@,
        ToolFamily::Computer => "computer"@,
        ToolFamily::WebSearch => "web_search"@,
        ToolFamily::WebFetch => "web_fetch"@,
        ToolFamily::Custom => "tool"@,
    }
}

/// The description of an offer that describes nothing.
pub open spec fn default_description(family: ToolFamily) -> Option<Seq<char>> {
    match family {
        ToolFamily::Bash => Some("Execute shell commands in a persistent bash session."@),
        ToolFamily::TextEditor => Some(
            "View and edit text files with command-based operations."@,
        ),
        ToolFamily::Computer => Some(
            "Interact with a computer UI using screenshots, clicks, typing, keys, scrolling, and drag actions."@,
        ),
        ToolFamily::Memory => Some(
            "Read and edit persistent memory files with command-based operations."@,
        ),
        _ => None,
    }
}

/// The rejection of a server-side tool.
pub open spec fn server_tool_error(type_or_name: Seq<char>) -> BridgeErrorV {
    bridge_error(
        "server_tools_unsupported"@,
        "server-side tool "@ + type_or_name
            + " is not supported by this gateway; use client tools"@,
    )
}

/// The rejection of a tool that only programs may call.
pub open spec fn caller_error() -> BridgeErrorV {
    bridge_error(
        "server_tools_unsupported"@,
        "tool allows only programmatic callers, which this gateway cannot execute"@,
    )
}

/// Whether `allowed_callers` admits the direct caller: absent, the string
/// `direct`, or a list with that string in it.
pub open spec fn allows_direct(callers: Option<JsonV>) -> bool {
    match callers {
        None => true,
        Some(JsonV::Str(s)) => s == "direct"@,
        Some(JsonV::Array(items)) => exists|i: int|
            0 <= i < items.len() && #[trigger] items[i].as_str() == Some("direct"@),
        _ => false,
    }
}

/// A property of one JSON type.
pub open spec fn property(kind: Seq<char>, description: Seq<char>) -> JsonV {
    empty_object().with("type"@, JsonV::Str(kind)).with("description"@, JsonV::Str(description))
}

/// A string property with fixed choices.
pub open spec fn choice_property(choices: Seq<JsonV>, description: Seq<char>) -> JsonV {
    empty_object().with("type"@, JsonV::Str("string"@)).with("enum"@, JsonV::Array(choices)).with(
        "description"@,
        JsonV::Str(description),
    )
}

/// An integer list of fixed length.
pub open spec fn int_list(n: int, description: Seq<char>) -> JsonV {
    empty_object().with("type"@, JsonV::Str("array"@)).with(
        "items"@,
        empty_object().with("type"@, JsonV::Str("integer"@)),
    ).with("minItems"@, JsonV::Int(n)).with("maxItems"@, JsonV::Int(n)).with(
        "description"@,
        JsonV::Str(description),
    )
}

/// An object schema with the given properties.
pub open spec fn object_schema(properties: JsonV) -> JsonV {
    empty_object().with("type"@, JsonV::Str("object"@)).with("properties"@, properties)
}

pub open spec fn bash_schema() -> JsonV {
    object_schema(
        empty_object().with(
            "command"@,
            property("string"@, "The shell command to execute in the persistent bash session."@),
        ).with(
            "restart"@,
            property(
                "boolean"@,
                "Restart the persistent bash session before running the next command."@,
            ),
        ),
    )
}

/// Whether a text editor type still knows `undo_edit`.
pub open spec fn legacy_editor(t: Option<Seq<char>>) -> bool {
    type_ends(t, "20241022"@) || type_ends(t, "20250124"@)
}

pub open spec fn editor_commands(t: Option<Seq<char>>) -> Seq<JsonV> {
    let common = seq![
        JsonV::Str("view"@),
        JsonV::Str("create"@),
        JsonV::Str("str_replace"@),
        JsonV::Str("insert"@),
    ];
    if legacy_editor(t) {
        common.push(JsonV::Str("undo_edit"@))
    } else {
        common
    }
}

/// The properties by which the editor and memory tools edit a file.
pub open spec fn edit_properties(before: JsonV, file_text: Seq<char>) -> JsonV {
    before.with(
        "view_range"@,
        int_list(2, "Inclusive start/end line numbers for view operations."@),
    ).with("file_text"@, property("string"@, file_text)).with(
        "old_str"@,
        property("string"@, "Existing text to replace."@),
    ).with("new_str"@, property("string"@, "Replacement text for str_replace."@)).with(
        "insert_line"@,
        property("integer"@, "Line number to insert text before."@),
    ).with("insert_text"@, property("string"@, "Text to insert."@))
}

pub open spec fn text_editor_schema(t: Option<Seq<char>>) -> JsonV {
    object_schema(
        edit_properties(
            empty_object().with(
                "command"@,
                choice_property(editor_commands(t), "The editor operation to perform."@),
            ).with(
                "path"@,
                property("string"@, "Absolute or relative path to the target file."@),
            ),
            "Full file contents when creating a file."@,
        ),
    )
}

pub open spec fn memory_schema() -> JsonV {
    object_schema(
        edit_properties(
            empty_object().with(
                "command"@,
                choice_property(
                    seq![
                        JsonV::Str("view"@),
                        JsonV::Str("create"@),
                        JsonV::Str("str_replace"@),
                        JsonV::Str("insert"@),
                        JsonV::Str("delete"@),
                        JsonV::Str("rename"@),
                    ],
                    "The memory operation to perform under the memory directory."@,
                ),
            ).with("path"@, property("string"@, "Path to the memory file."@)).with(
                "new_path"@,
                property("string"@, "New path when renaming a memory file."@),
            ),
            "Full file contents when creating a memory file."@,
        ),
    )
}

pub open spec fn computer_actions(t: Option<Seq<char>>) -> Seq<JsonV> {
    let common = seq![
        JsonV::Str("screenshot"@),
        JsonV::Str("left_click"@),
        JsonV::Str("right_click"@),
        JsonV::Str("middle_click"@),
        JsonV::Str("double_click"@),
        JsonV::Str("triple_click"@),
        JsonV::Str("mouse_move"@),
        JsonV::Str("left_click_drag"@),
        JsonV::Str("left_mouse_down"@),
        JsonV::Str("left_mouse_up"@),
        JsonV::Str("scroll"@),
        JsonV::Str("type"@),
        JsonV::Str("key"@),
        JsonV::Str("hold_key"@),
        JsonV::Str("wait"@),
    ];
    if type_ends(t, "20251124"@) {
        common.push(JsonV::Str("zoom"@))
    } else {
        common
    }
}

pub open spec fn computer_schema(t: Option<Seq<char>>) -> JsonV {
    object_schema(
        empty_object().with(
            "action"@,
            choice_property(computer_actions(t), "The computer action to perform."@),
        ).with("coordinate"@, int_list(2, "X/Y coordinate for click and move actions."@)).with(
            "start_coordinate"@,
            int_list(2, "Start coordinate for drag actions."@),
        ).with("end_coordinate"@, int_list(2, "End coordinate for drag actions."@)).with(
            "text"@,
            property("string"@, "Text to type or zoom target text."@),
        ).with("key"@, property("string"@, "Keyboard key or key chord to press."@)).with(
            "duration"@,
            property("number"@, "Optional wait duration in seconds."@),
        ).with(
            "scroll_direction"@,
            choice_property(
                seq![
                    JsonV::Str("up"@),
                    JsonV::Str("down"@),
                    JsonV::Str("left"@),
                    JsonV::Str("right"@),
                ],
                "Scroll direction."@,
            ),
        ).with(
            "scroll_amount"@,
            property("integer"@, "Scroll distance in pixels or wheel units."@),
        ).with(
            "region"@,
            int_list(4, "Optional region [left, top, width, height] for screenshots."@),
        ).with(
            "modifiers"@,
            empty_object().with("type"@, JsonV::Str("array"@)).with(
                "items"@,
                empty_object().with("type"@, JsonV::Str("string"@)),
            ).with("description"@, JsonV::Str("Modifier keys to hold during the action."@)),
        ),
    )
}

pub open spec fn web_search_schema() -> JsonV {
    object_schema(
        empty_object().with("query"@, property("string"@, "The web search query to execute."@)),
    ).with("required"@, JsonV::Array(seq![JsonV::Str("query"@)]))
}

/// The parameters of an offer that brings no `input_schema`, for the
/// families that have a generated one.
pub open spec fn family_schema(family: ToolFamily, t: Option<Seq<char>>) -> Option<JsonV> {
    match family {
        ToolFamily::Bash => Some(bash_schema()),
        ToolFamily::TextEditor => Some(text_editor_schema(t)),
        ToolFamily::Memory => Some(memory_schema()),
        ToolFamily::Computer => Some(computer_schema(t)),
        ToolFamily::WebSearch => Some(web_search_schema()),
        _ => None,
    }
}

fn starts(t: Option<&str>, prefix: &str) -> (r: bool)
    ensures
        r == type_starts(opt_str(t), prefix@),
{
    match t {
        Some(t) => starts_with(t, prefix),
        None => false,
    }
}

fn ends(t: Option<&str>, suffix: &str) -> (r: bool)
    ensures
        r == type_ends(opt_str(t), suffix@),
{
    match t {
        Some(t) => ends_with(t, suffix),
        None => false,
    }
}

/// The family a tool type belongs to.
pub fn tool_family(tool_type: Option<&str>) -> (r: ToolFamily)
    ensures
        r == family_of(opt_str(tool_type)),
{
    if starts(tool_type, "bash_") {
        ToolFamily::Bash
    } else if starts(tool_type, "text_editor_") {
        ToolFamily::TextEditor
    } else if starts(tool_type, "memory_") {
        ToolFamily::Memory
    } else if starts(tool_type, "computer_") {
        ToolFamily::Computer
    } else if starts(tool_type, "web_search_") {
        ToolFamily::WebSearch
    } else if starts(tool_type, "web_fetch_") {
        ToolFamily::WebFetch
    } else {
        ToolFamily::Custom
    }
}

/// The rejection of a server-side tool.
pub fn reject_server_tool(type_or_name: &str) -> (r: BridgeError)
    ensures
        r@ == server_tool_error(type_or_name@),
{
    let message = concat3(
        "server-side tool ",
        type_or_name,
        " is not supported by this gateway; use client tools",
    );
    BridgeError { code: "server_tools_unsupported", message }
}

/// Fail closed on a tool `type` the gateway cannot classify: unknown
/// server-side families (advisor_, code_execution_, ...) must be rejected,
/// not dropped or mislabeled `custom`. A missing/`custom` type is fine —
/// that is an ordinary client tool.
pub fn check_unknown_tool_type(tool_type: Option<&str>) -> (r: Result<(), BridgeError>)
    ensures
        r is Ok <==> known_type(opt_str(tool_type)),
        r is Err ==> tool_type is Some && r->Err_0@ == server_tool_error(tool_type->0@),
{
    match tool_type {
        Some(t) => {
            let known = match tool_family(tool_type) {
                ToolFamily::Custom => same(t, "custom"),
                _ => true,
            };
            if known {
                Ok(())
            } else {
                Err(reject_server_tool(t))
            }
        },
        None => Ok(()),
    }
}

/// The name of an offer that names nothing.
pub fn family_default_name(family: ToolFamily) -> (r: String)
    ensures
        r@ == default_name(family),
{
    match family {
        ToolFamily::Bash => "bash".to_owned(),
        // Anthropic's canonical client-tool name, so echoed `tool_use`
        // blocks match what the Anthropic API itself would have returned.
        ToolFamily::TextEditor => "str_replace_based_edit_tool".to_owned(),
        ToolFamily::Memory => "memory".to_owned(),
        ToolFamily::Computer => "computer".to_owned(),
        ToolFamily::WebSearch => "web_search".to_owned(),
        ToolFamily::WebFetch => "web_fetch".to_owned(),
        ToolFamily::Custom => "tool".to_owned(),
    }
}

/// Catalog-style description fallbacks for the client tool families: a tool
/// offer that carries no description still reaches the upstream with usable
/// copy, instead of a null.
pub fn client_tool_description(family: ToolFamily) -> (r: Option<&'static str>)
    ensures
        opt_str(r) == default_description(family),
{
    match family {
        ToolFamily::Bash => Some("Execute shell commands in a persistent bash session."),
        ToolFamily::TextEditor => Some("View and edit text files with command-based operations."),
        ToolFamily::Computer => Some(
            "Interact with a computer UI using screenshots, clicks, typing, keys, scrolling, and drag actions.",
        ),
        ToolFamily::Memory => Some(
            "Read and edit persistent memory files with command-based operations.",
        ),
        _ => None,
    }
}

/// Append a string item.
pub(crate) fn push_text(items: &mut Vec<Json>, s: &str)
    ensures
        items_view(final(items)@) == items_view(old(items)@).push(JsonV::Str(s@)),
{
    let item = Json::text(s);
    proof {
        lemma_items_push(items@, item);
    }
    items.push(item);
}

fn typed(kind: &str, description: &str) -> (r: Json)
    ensures
        r@ == property(kind@, description@),
{
    Json::object().with("type", Json::text(kind)).with("description", Json::text(description))
}

fn choice(choices: Vec<Json>, description: &str) -> (r: Json)
    ensures
        r@ == choice_property(items_view(choices@), description@),
{
    Json::object().with("type", Json::text("string")).with("enum", Json::Array(choices)).with(
        "description",
        Json::text(description),
    )
}

/// An integer list property: `view_range`, `coordinate`, and friends.
fn ints(n: u64, description: &str) -> (r: Json)
    ensures
        r@ == int_list(n as int, description@),
{
    Json::object().with("type", Json::text("array")).with(
        "items",
        Json::object().with("type", Json::text("integer")),
    ).with("minItems", Json::uint(n)).with("maxItems", Json::uint(n)).with(
        "description",
        Json::text(description),
    )
}

fn object_of(properties: Json) -> (r: Json)
    ensures
        r@ == object_schema(properties@),
{
    Json::object().with("type", Json::text("object")).with("properties", properties)
}

fn bash_tool_schema() -> (r: Json)
    ensures
        r@ == bash_schema(),
{
    object_of(
        Json::object().with(
            "command",
            typed("string", "The shell command to execute in the persistent bash session."),
        ).with(
            "restart",
            typed(
                "boolean",
                "Restart the persistent bash session before running the next command.",
            ),
        ),
    )
}

fn with_edit_properties(before: Json, file_text: &str) -> (r: Json)
    ensures
        r@ == edit_properties(before@, file_text@),
{
    before.with(
        "view_range",
        ints(2, "Inclusive start/end line numbers for view operations."),
    ).with("file_text", typed("string", file_text)).with(
        "old_str",
        typed("string", "Existing text to replace."),
    ).with("new_str", typed("string", "Replacement text for str_replace.")).with(
        "insert_line",
        typed("integer", "Line number to insert text before."),
    ).with("insert_text", typed("string", "Text to insert."))
}

fn text_editor_tool_schema(tool_type: Option<&str>) -> (r: Json)
    ensures
        r@ == text_editor_schema(opt_str(tool_type)),
{
    let legacy = ends(tool_type, "20241022") || ends(tool_type, "20250124");
    let mut commands: Vec<Json> = Vec::new();
    assert(items_view(commands@) == Seq::<JsonV>::empty());
    push_text(&mut commands, "view");
    push_text(&mut commands, "create");
    push_text(&mut commands, "str_replace");
    push_text(&mut commands, "insert");
    if legacy {
        push_text(&mut commands, "undo_edit");
    }
    assert(items_view(commands@) == editor_commands(opt_str(tool_type)));
    object_of(
        with_edit_properties(
            Json::object().with(
                "command",
                choice(commands, "The editor operation to perform."),
            ).with("path", typed("string", "Absolute or relative path to the target file.")),
            "Full file contents when creating a file.",
        ),
    )
}

fn memory_tool_schema() -> (r: Json)
    ensures
        r@ == memory_schema(),
{
    let mut commands: Vec<Json> = Vec::new();
    assert(items_view(commands@) == Seq::<JsonV>::empty());
    push_text(&mut commands, "view");
    push_text(&mut commands, "create");
    push_text(&mut commands, "str_replace");
    push_text(&mut commands, "insert");
    push_text(&mut commands, "delete");
    push_text(&mut commands, "rename");
    assert(items_view(commands@) == seq![
        JsonV::Str("view"@),
        JsonV::Str("create"@),
        JsonV::Str("str_replace"@),
        JsonV::Str("insert"@),
        JsonV::Str("delete"@),
        JsonV::Str("rename"@),
    ]);
    object_of(
        with_edit_properties(
            Json::object().with(
                "command",
                choice(commands, "The memory operation to perform under the memory directory."),
            ).with("path", typed("string", "Path to the memory file.")).with(
                "new_path",
                typed("string", "New path when renaming a memory file."),
            ),
            "Full file contents when creating a memory file.",
        ),
    )
}

fn computer_tool_schema(tool_type: Option<&str>) -> (r: Json)
    ensures
        r@ == computer_schema(opt_str(tool_type)),
{
    let mut actions: Vec<Json> = Vec::new();
    assert(items_view(actions@) == Seq::<JsonV>::empty());
    push_text(&mut actions, "screenshot");
    push_text(&mut actions, "left_click");
    push_text(&mut actions, "right_click");
    push_text(&mut actions, "middle_click");
    push_text(&mut actions, "double_click");
    push_text(&mut actions, "triple_click");
    push_text(&mut actions, "mouse_move");
    push_text(&mut actions, "left_click_drag");
    push_text(&mut actions, "left_mouse_down");
    push_text(&mut actions, "left_mouse_up");
    push_text(&mut actions, "scroll");
    push_text(&mut actions, "type");
    push_text(&mut actions, "key");
    push_text(&mut actions, "hold_key");
    push_text(&mut actions, "wait");
    if ends(tool_type, "20251124") {
        push_text(&mut actions, "zoom");
    }
    assert(items_view(actions@) == computer_actions(opt_str(tool_type)));
    let mut directions: Vec<Json> = Vec::new();
    assert(items_view(directions@) == Seq::<JsonV>::empty());
    push_text(&mut directions, "up");
    push_text(&mut directions, "down");
    push_text(&mut directions, "left");
    push_text(&mut directions, "right");
    assert(items_view(directions@) == seq![
        JsonV::Str("up"@),
        JsonV::Str("down"@),
        JsonV::Str("left"@),
        JsonV::Str("right"@),
    ]);
    object_of(
        Json::object().with("action", choice(actions, "The computer action to perform.")).with(
            "coordinate",
            ints(2, "X/Y coordinate for click and move actions."),
        ).with("start_coordinate", ints(2, "Start coordinate for drag actions.")).with(
            "end_coordinate",
            ints(2, "End coordinate for drag actions."),
        ).with("text", typed("string", "Text to type or zoom target text.")).with(
            "key",
            typed("string", "Keyboard key or key chord to press."),
        ).with("duration", typed("number", "Optional wait duration in seconds.")).with(
            "scroll_direction",
            choice(directions, "Scroll direction."),
        ).with(
            "scroll_amount",
            typed("integer", "Scroll distance in pixels or wheel units."),
        ).with(
            "region",
            ints(4, "Optional region [left, top, width, height] for screenshots."),
        ).with(
            "modifiers",
            Json::object().with("type", Json::text("array")).with(
                "items",
                Json::object().with("type", Json::text("string")),
            ).with("description", Json::text("Modifier keys to hold during the action.")),
        ),
    )
}

fn web_search_tool_schema() -> (r: Json)
    ensures
        r@ == web_search_schema(),
{
    let mut required: Vec<Json> = Vec::new();
    assert(items_view(required@) == Seq::<JsonV>::empty());
    push_text(&mut required, "query");
    object_of(
        Json::object().with("query", typed("string", "The web search query to execute.")),
    ).with("required", Json::Array(required))
}

/// The generated `parameters` for a client tool family, when the request
/// offers no explicit `input_schema`. Server-side and custom families have
/// no generated schema — their offers fall back to the empty object.
pub fn client_tool_parameters(family: ToolFamily, tool_type: Option<&str>) -> (r: Option<Json>)
    ensures
        opt_owned(r) == family_schema(family, opt_str(tool_type)),
{
    match family {
        ToolFamily::Bash => Some(bash_tool_schema()),
        ToolFamily::TextEditor => Some(text_editor_tool_schema(tool_type)),
        ToolFamily::Memory => Some(memory_tool_schema()),
        ToolFamily::Computer => Some(computer_tool_schema(tool_type)),
        // The server-executed family: the model is told it runs in-gateway,
        // with the one documented input the executor reads.
        ToolFamily::WebSearch => Some(web_search_tool_schema()),
        _ => None,
    }
}

/// The caller gate: a tool restricted to `programmatic` callers needs a
/// server runtime this gateway does not have, so it is rejected, not
/// silently served.
pub fn check_allowed_callers(v: Option<&Json>) -> (r: Result<(), BridgeError>)
    ensures
        r is Ok <==> allows_direct(opt_json(v)),
        r is Err ==> r->Err_0@ == caller_error(),
{
    let direct = match v {
        None => true,
        Some(Json::Str(s)) => same(s.as_str(), "direct"),
        Some(Json::Array(items)) => {
            let mut found = false;
            let mut i: usize = 0;
            let ghost all = items_view(items@);
            while i < items.len()
                invariant
                    i <= items@.len(),
                    all == items_view(items@),
                    found <==> exists|j: int| 0 <= j < i && #[trigger] all[j].as_str() == Some(
                        "direct"@,
                    ),
                decreases items@.len() - i,
            {
                assert(all[i as int] == items@[i as int]@);
                let hit = match items[i].as_str() {
                    Some(s) => same(s, "direct"),
                    None => false,
                };
                assert(hit == (all[i as int].as_str() == Some("direct"@)));
                found = found || hit;
                i = i + 1;
            }
            found
        },
        _ => false,
    };
    if direct {
        Ok(())
    } else {
        Err(
            BridgeError::new(
                "server_tools_unsupported",
                "tool allows only programmatic callers, which this gateway cannot execute",
            ),
        )
    }
}

}

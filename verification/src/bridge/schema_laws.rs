//! What the families of tools tell the model of themselves: which members
//! their input has, of which type, which commands and actions they know, and
//! how they are described.
use crate::bridge::tools::{
    computer_actions, default_description, editor_commands, family_schema, ToolFamily,
};
use crate::json::JsonV;
use vstd::prelude::*;

verus! {

/// The member `name` of the input that a schema describes.
pub open spec fn input_member(schema: Option<JsonV>, name: Seq<char>) -> JsonV {
    match schema {
        Some(s) => match s.get("properties"@) {
            Some(p) => match p.get(name) {
                Some(m) => m,
                None => JsonV::Null,
            },
            None => JsonV::Null,
        },
        None => JsonV::Null,
    }
}

/// The input of a schema has a member `name` of the type `kind`.
pub open spec fn takes(schema: Option<JsonV>, name: Seq<char>, kind: Seq<char>) -> bool {
    input_member(schema, name).get_str("type"@) == Some(kind)
}

/// The input of a schema has a member `name` that is a list of `n` integers.
pub open spec fn takes_ints(schema: Option<JsonV>, name: Seq<char>, n: int) -> bool {
    let m = input_member(schema, name);
    &&& takes(schema, name, "array"@)
    &&& m.get("items"@) is Some && m.get("items"@)->0.get_str("type"@) == Some("integer"@)
    &&& m.get("minItems"@) == Some(JsonV::Int(n))
    &&& m.get("maxItems"@) == Some(JsonV::Int(n))
}

proof fn lemma_schema_words()
    ensures
        "type"@ != "properties"@,
        "type"@ != "description"@,
        "type"@ != "enum"@,
        "type"@ != "items"@,
        "type"@ != "minItems"@,
        "type"@ != "maxItems"@,
        "type"@ != "required"@,
        "properties"@ != "required"@,
        "enum"@ != "description"@,
        "items"@ != "minItems"@,
        "items"@ != "maxItems"@,
        "items"@ != "description"@,
        "minItems"@ != "maxItems"@,
        "minItems"@ != "description"@,
        "maxItems"@ != "description"@,
{
    reveal_strlit("type");
    reveal_strlit("properties");
    reveal_strlit("description");
    reveal_strlit("enum");
    reveal_strlit("items");
    reveal_strlit("minItems");
    reveal_strlit("maxItems");
    reveal_strlit("required");
    assert("type"@.len() == 4 && "enum"@.len() == 4 && "type"@[0] == 't' && "enum"@[0] == 'e');
    assert("minItems"@.len() == 8 && "minItems"@[1] == 'i' && "maxItems"@[1] == 'a');
    assert("required"@.len() == 8 && "properties"@.len() == 10 && "description"@.len() == 11);
    assert("items"@.len() == 5);
}

proof fn lemma_edit_words()
    ensures
        "command"@ != "path"@,
        "command"@ != "new_path"@,
        "command"@ != "view_range"@,
        "command"@ != "file_text"@,
        "command"@ != "old_str"@,
        "command"@ != "new_str"@,
        "command"@ != "insert_line"@,
        "command"@ != "insert_text"@,
        "path"@ != "new_path"@,
        "path"@ != "view_range"@,
        "path"@ != "file_text"@,
        "path"@ != "old_str"@,
        "path"@ != "new_str"@,
        "path"@ != "insert_line"@,
        "path"@ != "insert_text"@,
        "new_path"@ != "view_range"@,
        "new_path"@ != "file_text"@,
        "new_path"@ != "old_str"@,
        "new_path"@ != "new_str"@,
        "new_path"@ != "insert_line"@,
        "new_path"@ != "insert_text"@,
        "view_range"@ != "file_text"@,
        "view_range"@ != "old_str"@,
        "view_range"@ != "new_str"@,
        "view_range"@ != "insert_line"@,
        "view_range"@ != "insert_text"@,
        "file_text"@ != "old_str"@,
        "file_text"@ != "new_str"@,
        "file_text"@ != "insert_line"@,
        "file_text"@ != "insert_text"@,
        "old_str"@ != "new_str"@,
        "old_str"@ != "insert_line"@,
        "old_str"@ != "insert_text"@,
        "new_str"@ != "insert_line"@,
        "new_str"@ != "insert_text"@,
        "insert_line"@ != "insert_text"@,
        "command"@ != "restart"@,
{
    reveal_strlit("command");
    reveal_strlit("restart");
    reveal_strlit("path");
    reveal_strlit("new_path");
    reveal_strlit("view_range");
    reveal_strlit("file_text");
    reveal_strlit("old_str");
    reveal_strlit("new_str");
    reveal_strlit("insert_line");
    reveal_strlit("insert_text");
    assert("command"@.len() == 7 && "command"@[0] == 'c' && "restart"@[0] == 'r');
    assert("old_str"@.len() == 7 && "old_str"@[0] == 'o' && "new_str"@[0] == 'n');
    assert("new_str"@.len() == 7 && "restart"@.len() == 7 && "path"@.len() == 4);
    assert("new_path"@.len() == 8 && "view_range"@.len() == 10 && "file_text"@.len() == 9);
    assert("insert_line"@.len() == 11 && "insert_text"@.len() == 11);
    assert("insert_line"@[7] == 'l' && "insert_text"@[7] == 't');
}

/// The shell takes a command and, as a switch, whether to start anew; the
/// search takes a query.
pub proof fn law_input_of_the_shell_and_the_search(t: Option<Seq<char>>)
    ensures
        takes(family_schema(ToolFamily::Bash, t), "command"@, "string"@),
        takes(family_schema(ToolFamily::Bash, t), "restart"@, "boolean"@),
        takes(family_schema(ToolFamily::WebSearch, t), "query"@, "string"@),
{
    lemma_schema_words();
    lemma_edit_words();
}

/// The editor and the memory take a command out of those they know, the path
/// it is for, the texts to find, put in place, insert or write, the line to
/// insert at and the two lines to view between; and only the memory takes a
/// new path.
pub proof fn law_input_of_the_editors(family: ToolFamily, t: Option<Seq<char>>)
    requires
        family == ToolFamily::TextEditor || family == ToolFamily::Memory,
    ensures
        ({
            let s = family_schema(family, t);
            &&& takes(s, "command"@, "string"@)
            &&& takes(s, "path"@, "string"@)
            &&& takes(s, "file_text"@, "string"@)
            &&& takes(s, "old_str"@, "string"@)
            &&& takes(s, "new_str"@, "string"@)
            &&& takes(s, "insert_text"@, "string"@)
            &&& takes(s, "insert_line"@, "integer"@)
            &&& takes_ints(s, "view_range"@, 2)
            &&& family == ToolFamily::Memory <==> takes(s, "new_path"@, "string"@)
            &&& family == ToolFamily::TextEditor ==> input_member(s, "command"@).list("enum"@)
                == editor_commands(t)
            &&& family == ToolFamily::Memory ==> input_member(s, "command"@).list("enum"@)
                == editor_commands(None) + seq![JsonV::Str("delete"@), JsonV::Str("rename"@)]
        }),
{
    lemma_schema_words();
    lemma_edit_words();
}

proof fn lemma_computer_words()
    ensures
        "action"@ != "coordinate"@,
        "action"@ != "start_coordinate"@,
        "action"@ != "end_coordinate"@,
        "action"@ != "text"@,
        "action"@ != "key"@,
        "action"@ != "duration"@,
        "action"@ != "scroll_direction"@,
        "action"@ != "scroll_amount"@,
        "action"@ != "region"@,
        "action"@ != "modifiers"@,
        "coordinate"@ != "start_coordinate"@,
        "coordinate"@ != "end_coordinate"@,
        "coordinate"@ != "text"@,
        "coordinate"@ != "key"@,
        "coordinate"@ != "duration"@,
        "coordinate"@ != "scroll_direction"@,
        "coordinate"@ != "scroll_amount"@,
        "coordinate"@ != "region"@,
        "coordinate"@ != "modifiers"@,
        "start_coordinate"@ != "end_coordinate"@,
        "start_coordinate"@ != "text"@,
        "start_coordinate"@ != "key"@,
        "start_coordinate"@ != "duration"@,
        "start_coordinate"@ != "scroll_direction"@,
        "start_coordinate"@ != "scroll_amount"@,
        "start_coordinate"@ != "region"@,
        "start_coordinate"@ != "modifiers"@,
        "end_coordinate"@ != "text"@,
        "end_coordinate"@ != "key"@,
        "end_coordinate"@ != "duration"@,
        "end_coordinate"@ != "scroll_direction"@,
        "end_coordinate"@ != "scroll_amount"@,
        "end_coordinate"@ != "region"@,
        "end_coordinate"@ != "modifiers"@,
        "text"@ != "key"@,
        "text"@ != "duration"@,
        "text"@ != "scroll_direction"@,
        "text"@ != "scroll_amount"@,
        "text"@ != "region"@,
        "text"@ != "modifiers"@,
        "key"@ != "duration"@,
        "key"@ != "scroll_direction"@,
        "key"@ != "scroll_amount"@,
        "key"@ != "region"@,
        "key"@ != "modifiers"@,
        "duration"@ != "scroll_direction"@,
        "duration"@ != "scroll_amount"@,
        "duration"@ != "region"@,
        "duration"@ != "modifiers"@,
        "scroll_direction"@ != "scroll_amount"@,
        "scroll_direction"@ != "region"@,
        "scroll_direction"@ != "modifiers"@,
        "scroll_amount"@ != "region"@,
        "scroll_amount"@ != "modifiers"@,
        "region"@ != "modifiers"@,
{
    reveal_strlit("action");
    reveal_strlit("coordinate");
    reveal_strlit("start_coordinate");
    reveal_strlit("end_coordinate");
    reveal_strlit("text");
    reveal_strlit("key");
    reveal_strlit("duration");
    reveal_strlit("scroll_direction");
    reveal_strlit("scroll_amount");
    reveal_strlit("region");
    reveal_strlit("modifiers");
    assert("action"@.len() == 6 && "region"@.len() == 6);
    assert("action"@[0] == 'a' && "region"@[0] == 'r');
    assert("coordinate"@.len() == 10 && "end_coordinate"@.len() == 14);
    assert("start_coordinate"@.len() == 16 && "scroll_direction"@.len() == 16);
    assert("start_coordinate"@[1] == 't' && "scroll_direction"@[1] == 'c');
    assert("text"@.len() == 4 && "key"@.len() == 3 && "duration"@.len() == 8);
    assert("scroll_amount"@.len() == 13 && "modifiers"@.len() == 9);
}

/// The computer takes an action out of those it knows, points of two
/// numbers, a region of four, the text and the keys to type, how long, and
/// how far and which way to scroll.
pub proof fn law_input_of_the_computer(t: Option<Seq<char>>)
    ensures
        ({
            let s = family_schema(ToolFamily::Computer, t);
            &&& takes(s, "action"@, "string"@)
            &&& input_member(s, "action"@).list("enum"@) == computer_actions(t)
            &&& takes_ints(s, "coordinate"@, 2)
            &&& takes_ints(s, "start_coordinate"@, 2)
            &&& takes_ints(s, "end_coordinate"@, 2)
            &&& takes_ints(s, "region"@, 4)
            &&& takes(s, "text"@, "string"@)
            &&& takes(s, "key"@, "string"@)
            &&& takes(s, "duration"@, "number"@)
            &&& takes(s, "scroll_amount"@, "integer"@)
            &&& takes(s, "scroll_direction"@, "string"@)
            &&& input_member(s, "scroll_direction"@).list("enum"@) == seq![
                JsonV::Str("up"@),
                JsonV::Str("down"@),
                JsonV::Str("left"@),
                JsonV::Str("right"@),
            ]
            &&& takes(s, "modifiers"@, "array"@)
            &&& input_member(s, "modifiers"@).get("items"@)->0.get_str("type"@) == Some("string"@)
        }),
{
    lemma_schema_words();
    lemma_computer_words();
}

/// Whatever its version, a computer is told of every click, of the mouse's
/// button and way, of the wheel, of the keys and of waiting, and of nothing
/// else but the zoom.
pub proof fn law_actions_of_the_computer(t: Option<Seq<char>>, action: Seq<char>)
    ensures
        computer_actions(t).contains(JsonV::Str(action)) && action != "zoom"@ <==> action
            == "screenshot"@ || action == "left_click"@ || action == "right_click"@ || action
            == "middle_click"@ || action == "double_click"@ || action == "triple_click"@ || action
            == "mouse_move"@ || action == "left_click_drag"@ || action == "left_mouse_down"@
            || action == "left_mouse_up"@ || action == "scroll"@ || action == "type"@ || action
            == "key"@ || action == "hold_key"@ || action == "wait"@,
{
    reveal_strlit("zoom");
    reveal_strlit("type");
    reveal_strlit("wait");
    reveal_strlit("screenshot");
    reveal_strlit("left_click");
    reveal_strlit("right_click");
    reveal_strlit("middle_click");
    reveal_strlit("double_click");
    reveal_strlit("triple_click");
    reveal_strlit("mouse_move");
    reveal_strlit("left_click_drag");
    reveal_strlit("left_mouse_down");
    reveal_strlit("left_mouse_up");
    reveal_strlit("scroll");
    reveal_strlit("key");
    reveal_strlit("hold_key");
    assert("zoom"@[0] == 'z' && "type"@[0] == 't' && "wait"@[0] == 'w');
    assert("zoom"@.len() == 4 && "screenshot"@.len() == 10 && "left_click"@.len() == 10);
    assert("right_click"@.len() == 11 && "middle_click"@.len() == 12);
    assert("double_click"@.len() == 12 && "triple_click"@.len() == 12);
    assert("mouse_move"@.len() == 10 && "left_click_drag"@.len() == 15);
    assert("left_mouse_down"@.len() == 15 && "left_mouse_up"@.len() == 13);
    assert("scroll"@.len() == 6 && "key"@.len() == 3 && "hold_key"@.len() == 8);
    let c = computer_actions(t);
    assert(c[0] == JsonV::Str("screenshot"@) && c[1] == JsonV::Str("left_click"@));
    assert(c[2] == JsonV::Str("right_click"@) && c[3] == JsonV::Str("middle_click"@));
    assert(c[4] == JsonV::Str("double_click"@) && c[5] == JsonV::Str("triple_click"@));
    assert(c[6] == JsonV::Str("mouse_move"@) && c[7] == JsonV::Str("left_click_drag"@));
    assert(c[8] == JsonV::Str("left_mouse_down"@) && c[9] == JsonV::Str("left_mouse_up"@));
    assert(c[10] == JsonV::Str("scroll"@) && c[11] == JsonV::Str("type"@));
    assert(c[12] == JsonV::Str("key"@) && c[13] == JsonV::Str("hold_key"@));
    assert(c[14] == JsonV::Str("wait"@));
}

/// Exactly the families that the client runs itself are described without
/// its words: each in words of its own.
pub proof fn law_families_describe_themselves(a: ToolFamily, b: ToolFamily)
    ensures
        default_description(a) is Some <==> a == ToolFamily::Bash || a == ToolFamily::TextEditor
            || a == ToolFamily::Memory || a == ToolFamily::Computer,
        default_description(a) is Some && default_description(a) == default_description(b) ==> a
            == b,
        default_description(ToolFamily::Bash) == Some(
            "Execute shell commands in a persistent bash session."@,
        ),
        default_description(ToolFamily::Memory) == Some(
            "Read and edit persistent memory files with command-based operations."@,
        ),
        default_description(ToolFamily::TextEditor) == Some(
            "View and edit text files with command-based operations."@,
        ),
        default_description(ToolFamily::Computer) == Some(
            "Interact with a computer UI using screenshots, clicks, typing, keys, scrolling, and drag actions."@,
        ),
{
    reveal_strlit("Execute shell commands in a persistent bash session.");
    reveal_strlit("View and edit text files with command-based operations.");
    reveal_strlit("Read and edit persistent memory files with command-based operations.");
    reveal_strlit(
        "Interact with a computer UI using screenshots, clicks, typing, keys, scrolling, and drag actions.",
    );
    assert("Execute shell commands in a persistent bash session."@[0] == 'E');
    assert("View and edit text files with command-based operations."@[0] == 'V');
    assert("Read and edit persistent memory files with command-based operations."@[0] == 'R');
    assert("Interact with a computer UI using screenshots, clicks, typing, keys, scrolling, and drag actions."@[0]
        == 'I');
}

}

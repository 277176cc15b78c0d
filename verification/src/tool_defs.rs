//! Builders for tool definitions in the Chat Completions shape, and the fixed
//! tools that stand in for `apply_patch` and for read/search shell commands.
use vstd::prelude::*;
use crate::json::{items_view, members_view, Json, JsonV};

verus! {

pub const EDIT_FILE_DESCRIPTION: &'static str = "Edit an existing file by replacing one exact substring with another. The match must be unique in the file unless replace_all is true. For creating a new file, use write_file instead.";
pub const EDIT_FILE_PATH_DESCRIPTION: &'static str = "Path to the file to edit, relative to the workspace root.";
pub const EDIT_OLD_STRING_DESCRIPTION: &'static str = "The exact substring to replace, including any surrounding context needed to make it unique.";
pub const EDIT_NEW_STRING_DESCRIPTION: &'static str = "The replacement text. Must differ from old_string.";
pub const EDIT_REPLACE_ALL_DESCRIPTION: &'static str = "If true, replace every occurrence of old_string. Defaults to false (the match must be unique).";
pub const WRITE_FILE_DESCRIPTION: &'static str = "Create a new file with the given contents. Fails if the file already exists; use edit_file to modify existing files.";
pub const WRITE_FILE_PATH_DESCRIPTION: &'static str = "Path of the file to create, relative to the workspace root.";
pub const WRITE_CONTENT_DESCRIPTION: &'static str = "Full text content for the new file.";
pub const READ_FILE_DESCRIPTION: &'static str = "Read the contents of a file. Optionally limit to a line range. For full files under a few thousand lines, omit offset and limit.";
pub const READ_FILE_PATH_DESCRIPTION: &'static str = "Path to the file, relative to the workspace root.";
pub const READ_OFFSET_DESCRIPTION: &'static str = "1-based line number to start reading from. Defaults to 1.";
pub const READ_LIMIT_DESCRIPTION: &'static str = "Maximum number of lines to read. Defaults to the whole file.";
pub const GLOB_DESCRIPTION: &'static str = "List files matching a glob pattern (e.g. \"src/**/*.rs\"). Faster and more reliable than asking the model to formulate a `find`/`rg --files` shell invocation.";
pub const GLOB_PATTERN_DESCRIPTION: &'static str = "Glob pattern to match, e.g. \"**/*.ts\" or \"src/*.rs\".";
pub const GLOB_PATH_DESCRIPTION: &'static str = "Directory to search in. Defaults to the workspace root.";
pub const GREP_DESCRIPTION: &'static str = "Search file contents using a regex pattern (ripgrep). Returns matching lines with file:line prefixes.";
pub const GREP_PATTERN_DESCRIPTION: &'static str = "Regex pattern to search for.";
pub const GREP_PATH_DESCRIPTION: &'static str = "Directory or file to search in. Defaults to the workspace root.";
pub const GREP_INCLUDE_DESCRIPTION: &'static str = "Optional glob to restrict which files are searched, e.g. \"*.rs\" or \"src/**/*.{ts,tsx}\".";

/// A property schema `{"type": kind, "description": description}`.
pub open spec fn property_v(kind: Seq<char>, description: Seq<char>) -> JsonV {
    JsonV::Object(seq![("type"@, JsonV::Str(kind)), ("description"@, JsonV::Str(description))])
}

/// An object schema with the given properties and required property names.
pub open spec fn object_schema_v(
    properties: Seq<(Seq<char>, JsonV)>,
    required: Seq<Seq<char>>,
) -> JsonV {
    JsonV::Object(
        seq![
            ("type"@, JsonV::Str("object"@)),
            ("properties"@, JsonV::Object(properties)),
            ("required"@, JsonV::Array(required.map_values(|r: Seq<char>| JsonV::Str(r)))),
        ],
    )
}

/// A function tool in the Chat Completions shape.
pub open spec fn function_tool_v(name: Seq<char>, description: Seq<char>, parameters: JsonV) -> JsonV {
    JsonV::Object(
        seq![
            ("type"@, JsonV::Str("function"@)),
            (
                "function"@,
                JsonV::Object(
                    seq![
                        ("name"@, JsonV::Str(name)),
                        ("description"@, JsonV::Str(description)),
                        ("parameters"@, parameters),
                    ],
                ),
            ),
        ],
    )
}

/// The `edit_file` and `write_file` tools that replace `apply_patch`.
pub open spec fn edit_tools_v() -> Seq<JsonV> {
    seq![
        function_tool_v(
            "edit_file"@,
            EDIT_FILE_DESCRIPTION@,
            object_schema_v(
                seq![
                    ("file_path"@, property_v("string"@, EDIT_FILE_PATH_DESCRIPTION@)),
                    ("old_string"@, property_v("string"@, EDIT_OLD_STRING_DESCRIPTION@)),
                    ("new_string"@, property_v("string"@, EDIT_NEW_STRING_DESCRIPTION@)),
                    ("replace_all"@, property_v("boolean"@, EDIT_REPLACE_ALL_DESCRIPTION@)),
                ],
                seq!["file_path"@, "old_string"@, "new_string"@],
            ),
        ),
        function_tool_v(
            "write_file"@,
            WRITE_FILE_DESCRIPTION@,
            object_schema_v(
                seq![
                    ("file_path"@, property_v("string"@, WRITE_FILE_PATH_DESCRIPTION@)),
                    ("content"@, property_v("string"@, WRITE_CONTENT_DESCRIPTION@)),
                ],
                seq!["file_path"@, "content"@],
            ),
        ),
    ]
}

/// The `read_file`, `glob` and `grep` tools that wrap `shell_command`.
pub open spec fn read_search_tools_v() -> Seq<JsonV> {
    seq![
        function_tool_v(
            "read_file"@,
            READ_FILE_DESCRIPTION@,
            object_schema_v(
                seq![
                    ("file_path"@, property_v("string"@, READ_FILE_PATH_DESCRIPTION@)),
                    ("offset"@, property_v("integer"@, READ_OFFSET_DESCRIPTION@)),
                    ("limit"@, property_v("integer"@, READ_LIMIT_DESCRIPTION@)),
                ],
                seq!["file_path"@],
            ),
        ),
        function_tool_v(
            "glob"@,
            GLOB_DESCRIPTION@,
            object_schema_v(
                seq![
                    ("pattern"@, property_v("string"@, GLOB_PATTERN_DESCRIPTION@)),
                    ("path"@, property_v("string"@, GLOB_PATH_DESCRIPTION@)),
                ],
                seq!["pattern"@],
            ),
        ),
        function_tool_v(
            "grep"@,
            GREP_DESCRIPTION@,
            object_schema_v(
                seq![
                    ("pattern"@, property_v("string"@, GREP_PATTERN_DESCRIPTION@)),
                    ("path"@, property_v("string"@, GREP_PATH_DESCRIPTION@)),
                    ("include"@, property_v("string"@, GREP_INCLUDE_DESCRIPTION@)),
                ],
                seq!["pattern"@],
            ),
        ),
    ]
}

/// `{"type": kind, "description": description}`.
pub fn property(kind: &str, description: &str) -> (r: Json)
    ensures
        r@ == property_v(kind@, description@),
{
    let members = vec![
        (String::from_str("type"), Json::string(kind)),
        (String::from_str("description"), Json::string(description)),
    ];
    let r = Json::object(members);
    assert(members_view(members@) =~= property_v(kind@, description@)->Object_0);
    r
}

/// An object schema from property members and the names of the required ones.
pub fn object_schema(properties: Vec<(String, Json)>, required: Vec<&str>) -> (r: Json)
    ensures
        r@ == object_schema_v(
            members_view(properties@),
            required@.map_values(|s: &str| s@),
        ),
{
    let ghost props_v = members_view(properties@);
    let mut names: Vec<Json> = Vec::new();
    let mut i: usize = 0;
    while i < required.len()
        invariant
            i <= required@.len(),
            names@.len() == i,
            forall|k: int| 0 <= k < i ==> #[trigger] names@[k]@ == JsonV::Str(required@[k]@),
        decreases required@.len() - i,
    {
        names.push(Json::string(required[i]));
        i = i + 1;
    }
    let names_json = Json::array(names);
    assert(items_view(names@) =~= required@.map_values(|s: &str| s@).map_values(
        |r: Seq<char>| JsonV::Str(r),
    ));
    let props_json = Json::object(properties);
    let members = vec![
        (String::from_str("type"), Json::string("object")),
        (String::from_str("properties"), props_json),
        (String::from_str("required"), names_json),
    ];
    let r = Json::object(members);
    assert(members_view(members@) =~= object_schema_v(
        props_v,
        required@.map_values(|s: &str| s@),
    )->Object_0);
    r
}

/// A function tool in the Chat Completions shape.
pub fn function_tool(name: &str, description: &str, parameters: Json) -> (r: Json)
    ensures
        r@ == function_tool_v(name@, description@, parameters@),
{
    let ghost params_v = parameters@;
    let inner_members = vec![
        (String::from_str("name"), Json::string(name)),
        (String::from_str("description"), Json::string(description)),
        (String::from_str("parameters"), parameters),
    ];
    let inner = Json::object(inner_members);
    assert(members_view(inner_members@) =~= function_tool_v(name@, description@, params_v)->Object_0[1].1->Object_0);
    let members = vec![
        (String::from_str("type"), Json::string("function")),
        (String::from_str("function"), inner),
    ];
    let r = Json::object(members);
    assert(members_view(members@) =~= function_tool_v(name@, description@, params_v)->Object_0);
    r
}

fn member(name: &str, value: Json) -> (r: (String, Json))
    ensures
        r.0@ == name@,
        r.1@ == value@,
{
    (String::from_str(name), value)
}

/// Two function tools that stand in for `apply_patch`: `edit_file` and
/// `write_file`.
pub fn synth_simple_edit_tools() -> (r: Vec<Json>)
    ensures
        items_view(r@) == edit_tools_v(),
{
    let edit_props = vec![
        member("file_path", property("string", EDIT_FILE_PATH_DESCRIPTION)),
        member("old_string", property("string", EDIT_OLD_STRING_DESCRIPTION)),
        member("new_string", property("string", EDIT_NEW_STRING_DESCRIPTION)),
        member("replace_all", property("boolean", EDIT_REPLACE_ALL_DESCRIPTION)),
    ];
    assert(members_view(edit_props@) =~= edit_tools_v()[0]->Object_0[1].1->Object_0[2].1->Object_0[1].1->Object_0);
    let edit_required = vec!["file_path", "old_string", "new_string"];
    assert(edit_required@.map_values(|s: &str| s@) =~= seq!["file_path"@, "old_string"@, "new_string"@]);
    let edit = function_tool(
        "edit_file",
        EDIT_FILE_DESCRIPTION,
        object_schema(edit_props, edit_required),
    );
    let write_props = vec![
        member("file_path", property("string", WRITE_FILE_PATH_DESCRIPTION)),
        member("content", property("string", WRITE_CONTENT_DESCRIPTION)),
    ];
    assert(members_view(write_props@) =~= edit_tools_v()[1]->Object_0[1].1->Object_0[2].1->Object_0[1].1->Object_0);
    let write_required = vec!["file_path", "content"];
    assert(write_required@.map_values(|s: &str| s@) =~= seq!["file_path"@, "content"@]);
    let write = function_tool(
        "write_file",
        WRITE_FILE_DESCRIPTION,
        object_schema(write_props, write_required),
    );
    let r = vec![edit, write];
    assert(items_view(r@) =~= edit_tools_v());
    r
}


/// Three function tools that wrap `shell_command` for common read and search
/// operations: `read_file`, `glob` and `grep`.
pub fn synth_simple_read_search_tools() -> (r: Vec<Json>)
    ensures
        items_view(r@) == read_search_tools_v(),
{
    let read_props = vec![
        member("file_path", property("string", READ_FILE_PATH_DESCRIPTION)),
        member("offset", property("integer", READ_OFFSET_DESCRIPTION)),
        member("limit", property("integer", READ_LIMIT_DESCRIPTION)),
    ];
    assert(members_view(read_props@) =~= read_search_tools_v()[0]->Object_0[1].1->Object_0[2].1->Object_0[1].1->Object_0);
    let read_required = vec!["file_path"];
    assert(read_required@.map_values(|s: &str| s@) =~= seq!["file_path"@]);
    let read = function_tool(
        "read_file",
        READ_FILE_DESCRIPTION,
        object_schema(read_props, read_required),
    );
    let glob_props = vec![
        member("pattern", property("string", GLOB_PATTERN_DESCRIPTION)),
        member("path", property("string", GLOB_PATH_DESCRIPTION)),
    ];
    assert(members_view(glob_props@) =~= read_search_tools_v()[1]->Object_0[1].1->Object_0[2].1->Object_0[1].1->Object_0);
    let glob_required = vec!["pattern"];
    assert(glob_required@.map_values(|s: &str| s@) =~= seq!["pattern"@]);
    let glob = function_tool("glob", GLOB_DESCRIPTION, object_schema(glob_props, glob_required));
    let grep_props = vec![
        member("pattern", property("string", GREP_PATTERN_DESCRIPTION)),
        member("path", property("string", GREP_PATH_DESCRIPTION)),
        member("include", property("string", GREP_INCLUDE_DESCRIPTION)),
    ];
    assert(members_view(grep_props@) =~= read_search_tools_v()[2]->Object_0[1].1->Object_0[2].1->Object_0[1].1->Object_0);
    let grep_required = vec!["pattern"];
    assert(grep_required@.map_values(|s: &str| s@) =~= seq!["pattern"@]);
    let grep = function_tool("grep", GREP_DESCRIPTION, object_schema(grep_props, grep_required));
    let r = vec![read, glob, grep];
    assert(items_view(r@) =~= read_search_tools_v());
    r
}

} // verus!

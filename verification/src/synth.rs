//! Rewriting of the typed tool calls that the model emits into the calls the
//! core handlers understand: `edit_file`/`write_file` into an `apply_patch`
//! envelope, and `read_file`/`glob`/`grep` into `shell_command` arguments.
use vstd::prelude::*;
use crate::json::{
    json_quoted, parse_json, parsed_json, single_member_object, single_string_member_object, Json,
    JsonV, str_member,
};
use crate::text::{decimal, push_char, push_decimal, shell_quoted, shell_single_quote};
use crate::json::{lemma_member_pair, lemma_member_quad, lemma_member_triple, member};
use crate::tool_defs::{
    edit_tools_v, function_tool_v, object_schema_v, property_v, read_search_tools_v, EDIT_FILE_DESCRIPTION,
    EDIT_FILE_PATH_DESCRIPTION, EDIT_NEW_STRING_DESCRIPTION, EDIT_OLD_STRING_DESCRIPTION,
    EDIT_REPLACE_ALL_DESCRIPTION, GLOB_DESCRIPTION, GLOB_PATH_DESCRIPTION, GLOB_PATTERN_DESCRIPTION,
    GREP_DESCRIPTION, GREP_INCLUDE_DESCRIPTION, GREP_PATH_DESCRIPTION, GREP_PATTERN_DESCRIPTION,
    READ_FILE_DESCRIPTION, READ_FILE_PATH_DESCRIPTION, READ_LIMIT_DESCRIPTION, READ_OFFSET_DESCRIPTION,
    WRITE_CONTENT_DESCRIPTION, WRITE_FILE_DESCRIPTION, WRITE_FILE_PATH_DESCRIPTION,
};

verus! {

/// The characters of `s` with every newline followed by `p`.
pub open spec fn newline_prefixed(p: char, s: Seq<char>) -> Seq<char>
    decreases s.len(),
{
    if s.len() == 0 {
        Seq::empty()
    } else {
        let piece = if s.last() == '\n' { seq!['\n', p] } else { seq![s.last()] };
        newline_prefixed(p, s.drop_last()) + piece
    }
}

/// Every line of `s` (as `str::split('\n')` cuts it) prefixed with `p` and
/// ended with a newline.
pub open spec fn prefixed_lines(p: char, s: Seq<char>) -> Seq<char> {
    seq![p] + newline_prefixed(p, s) + seq!['\n']
}

/// The `apply_patch` envelope that replaces `old` by `new` in `path`.
pub open spec fn update_patch(path: Seq<char>, old: Seq<char>, new: Seq<char>) -> Seq<char> {
    "*** Begin Patch\n"@ + "*** Update File: "@ + path + seq!['\n'] + "@@\n"@ + prefixed_lines('-', old)
        + prefixed_lines('+', new) + "*** End Patch\n"@
}

/// `content` without its final newline, if it has one.
pub open spec fn without_final_newline(content: Seq<char>) -> Seq<char> {
    if content.len() > 0 && content.last() == '\n' {
        content.drop_last()
    } else {
        content
    }
}

/// The `apply_patch` envelope that creates `path` holding `content`: every
/// line is added with `+`, and a final newline becomes an empty `+` line.
pub open spec fn add_patch(path: Seq<char>, content: Seq<char>) -> Seq<char> {
    "*** Begin Patch\n"@ + "*** Add File: "@ + path + seq!['\n'] + prefixed_lines(
        '+',
        without_final_newline(content),
    ) + (if content.len() > 0 && content.last() == '\n' {
        seq!['+', '\n']
    } else {
        Seq::empty()
    }) + "*** End Patch\n"@
}

/// The string argument `key` of a parsed argument object.
pub open spec fn string_arg(args: JsonV, key: Seq<char>) -> Option<Seq<char>> {
    str_member(Some(args), key)
}

/// What `edit_file` arguments (already parsed) give: the update patch, or the
/// message naming the first missing field.
pub open spec fn edit_file_result(args: JsonV) -> Result<Seq<char>, Seq<char>> {
    match string_arg(args, "file_path"@) {
        None => Err("edit_file requires `file_path`"@),
        Some(path) => match string_arg(args, "old_string"@) {
            None => Err("edit_file requires `old_string`"@),
            Some(old) => match string_arg(args, "new_string"@) {
                None => Err("edit_file requires `new_string`"@),
                Some(new) => Ok(update_patch(path, old, new)),
            },
        },
    }
}

/// What `write_file` arguments (already parsed) give.
pub open spec fn write_file_result(args: JsonV) -> Result<Seq<char>, Seq<char>> {
    match string_arg(args, "file_path"@) {
        None => Err("write_file requires `file_path`"@),
        Some(path) => match string_arg(args, "content"@) {
            None => Err("write_file requires `content`"@),
            Some(content) => Ok(add_patch(path, content)),
        },
    }
}

pub open spec fn result_view(r: Result<String, String>) -> Result<Seq<char>, Seq<char>> {
    match r {
        Ok(s) => Ok(s@),
        Err(e) => Err(e@),
    }
}

/// What a synthesiser with the given error `prefix` owes for argument text
/// `args`: a message that starts with the prefix when the text is not JSON,
/// and otherwise the result that `on_parsed` gives for the parsed arguments.
pub open spec fn synthesis_outcome(
    args: Seq<char>,
    prefix: Seq<char>,
    on_parsed: spec_fn(JsonV) -> Result<Seq<char>, Seq<char>>,
    r: Result<Seq<char>, Seq<char>>,
) -> bool {
    match parsed_json(args) {
        None => r matches Err(msg) && msg.len() >= prefix.len() && msg.take(prefix.len() as int)
            == prefix,
        Some(v) => r == on_parsed(v),
    }
}

fn string_arg_of<'a>(args: &'a Json, key: &str) -> (r: Option<&'a str>)
    ensures
        match r {
            Some(s) => string_arg(args@, key@) == Some(s@),
            None => string_arg(args@, key@) is None,
        },
{
    match args.get(key) {
        Some(v) => v.as_str(),
        None => None,
    }
}

fn invalid_json_message(prefix: &str, e: serde_json::Error) -> (r: String)
    ensures
        r@.len() >= prefix@.len(),
        r@.take(prefix@.len() as int) == prefix@,
{
    let mut out = String::from_str(prefix);
    let detail = e.to_string();
    out.append(detail.as_str());
    assert(out@.take(prefix@.len() as int) =~= prefix@);
    out
}

/// Appends `prefixed_lines(p, s)` to `out`.
fn push_prefixed_lines(out: &mut String, p: char, s: &str)
    ensures
        final(out)@ == old(out)@ + prefixed_lines(p, s@),
{
    let ghost start = out@;
    push_char(out, p);
    for ch in it: s.chars()
        invariant
            it.seq() == s@,
            out@ == start + seq![p] + newline_prefixed(p, s@.take(it.index() as int)),
    {
        if ch == '\n' {
            push_char(out, '\n');
            push_char(out, p);
        } else {
            push_char(out, ch);
        }
        assert(s@.take(it.index() + 1).drop_last() =~= s@.take(it.index() as int));
    }
    assert(s@.take(s@.len() as int) =~= s@);
    push_char(out, '\n');
    assert(out@ =~= start + prefixed_lines(p, s@));
}

fn update_patch_text(path: &str, old: &str, new: &str) -> (r: String)
    ensures
        r@ == update_patch(path@, old@, new@),
{
    let mut out = String::from_str("*** Begin Patch\n");
    out.append("*** Update File: ");
    out.append(path);
    push_char(&mut out, '\n');
    out.append("@@\n");
    push_prefixed_lines(&mut out, '-', old);
    push_prefixed_lines(&mut out, '+', new);
    out.append("*** End Patch\n");
    assert(out@ =~= update_patch(path@, old@, new@));
    out
}

/// Builds an `apply_patch` payload from `edit_file` arguments, or says which
/// argument is missing or that the arguments are not JSON.
pub fn synth_apply_patch_from_edit_file(args_json: &str) -> (r: Result<String, String>)
    ensures
        synthesis_outcome(
            args_json@,
            "edit_file arguments are not valid JSON: "@,
            |v: JsonV| edit_file_result(v),
            result_view(r),
        ),
{
    match parse_json(args_json) {
        Ok(v) => edit_file_patch(&v),
        Err(e) => Err(invalid_json_message("edit_file arguments are not valid JSON: ", e)),
    }
}

/// The `apply_patch` payload for parsed `edit_file` arguments, or the
/// message naming the first missing field.
pub fn edit_file_patch(v: &Json) -> (r: Result<String, String>)
    ensures
        result_view(r) == edit_file_result(v@),
{
    let file_path = match string_arg_of(v, "file_path") {
        Some(p) => p,
        None => {
            return Err(String::from_str("edit_file requires `file_path`"));
        },
    };
    let old_string = match string_arg_of(v, "old_string") {
        Some(p) => p,
        None => {
            return Err(String::from_str("edit_file requires `old_string`"));
        },
    };
    let new_string = match string_arg_of(v, "new_string") {
        Some(p) => p,
        None => {
            return Err(String::from_str("edit_file requires `new_string`"));
        },
    };
    Ok(update_patch_text(file_path, old_string, new_string))
}

fn add_patch_text(path: &str, content: &str) -> (r: String)
    ensures
        r@ == add_patch(path@, content@),
{
    let mut out = String::from_str("*** Begin Patch\n");
    out.append("*** Add File: ");
    out.append(path);
    push_char(&mut out, '\n');
    let ghost head = out@;
    let n = content.unicode_len();
    let has_trailing_nl = n > 0 && content.get_char(n - 1) == '\n';
    let body_len = if has_trailing_nl { n - 1 } else { n };
    let ghost body = without_final_newline(content@);
    assert(body =~= content@.take(body_len as int));
    push_char(&mut out, '+');
    let mut idx: usize = 0;
    for ch in it: content.chars()
        invariant
            it.seq() == content@,
            idx == it.index(),
            n == content@.len(),
            body_len <= n,
            body == content@.take(body_len as int),
            out@ == head + seq!['+'] + newline_prefixed(
                '+',
                content@.take(
                    if it.index() <= body_len {
                        it.index() as int
                    } else {
                        body_len as int
                    },
                ),
            ),
    {
        if idx < body_len {
            if ch == '\n' {
                push_char(&mut out, '\n');
                push_char(&mut out, '+');
            } else {
                push_char(&mut out, ch);
            }
            assert(content@.take(it.index() + 1).drop_last() =~= content@.take(it.index() as int));
        }
        idx = idx + 1;
    }
    push_char(&mut out, '\n');
    if has_trailing_nl {
        push_char(&mut out, '+');
        push_char(&mut out, '\n');
    }
    out.append("*** End Patch\n");
    assert(out@ =~= add_patch(path@, content@));
    out
}

/// Builds an `apply_patch` payload from `write_file` arguments (creates a new
/// file).
pub fn synth_apply_patch_from_write_file(args_json: &str) -> (r: Result<String, String>)
    ensures
        synthesis_outcome(
            args_json@,
            "write_file arguments are not valid JSON: "@,
            |v: JsonV| write_file_result(v),
            result_view(r),
        ),
{
    match parse_json(args_json) {
        Ok(v) => write_file_patch(&v),
        Err(e) => Err(invalid_json_message("write_file arguments are not valid JSON: ", e)),
    }
}

/// The `apply_patch` payload for parsed `write_file` arguments, or the
/// message naming the first missing field.
pub fn write_file_patch(v: &Json) -> (r: Result<String, String>)
    ensures
        result_view(r) == write_file_result(v@),
{
    let file_path = match string_arg_of(v, "file_path") {
        Some(p) => p,
        None => {
            return Err(String::from_str("write_file requires `file_path`"));
        },
    };
    let content = match string_arg_of(v, "content") {
        Some(p) => p,
        None => {
            return Err(String::from_str("write_file requires `content`"));
        },
    };
    Ok(add_patch_text(file_path, content))
}


/// The integer argument `key` of a parsed argument object.
pub open spec fn int_arg(args: JsonV, key: Seq<char>) -> Option<i64> {
    match args.get(key) {
        Some(v) => v.as_i64(),
        None => None,
    }
}

pub open spec fn at_least_one(x: i64) -> i64 {
    if x < 1 { 1 } else { x }
}

/// The last line `start + count - 1`, capped at `i64::MAX`.
pub open spec fn last_line(start: i64, count: i64) -> i64 {
    if start + count - 1 > i64::MAX { i64::MAX } else { (start + count - 1) as i64 }
}

/// The shell command that prints the requested lines of the file whose
/// quoted path is `quoted_path`.
pub open spec fn read_command(quoted_path: Seq<char>, offset: Option<i64>, limit: Option<i64>) -> Seq<char> {
    match (offset, limit) {
        (None, None) => "cat -- "@ + quoted_path,
        (Some(s), None) => "sed -n '"@ + decimal(at_least_one(s) as nat) + ",$p' -- "@ + quoted_path,
        (None, Some(n)) => "sed -n '1,"@ + decimal(at_least_one(n) as nat) + "p' -- "@ + quoted_path,
        (Some(s), Some(n)) => "sed -n '"@ + decimal(at_least_one(s) as nat) + seq![','] + decimal(
            last_line(at_least_one(s), at_least_one(n)) as nat,
        ) + "p' -- "@ + quoted_path,
    }
}

/// The `shell_command` arguments `{"command": <command>}`.
pub open spec fn shell_arguments(command: Seq<char>) -> Seq<char> {
    single_member_object("command"@, json_quoted(command))
}

pub open spec fn read_file_result(args: JsonV) -> Result<Seq<char>, Seq<char>> {
    match string_arg(args, "file_path"@) {
        None => Err("read_file requires `file_path`"@),
        Some(path) => Ok(
            shell_arguments(
                read_command(shell_quoted(path), int_arg(args, "offset"@), int_arg(args, "limit"@)),
            ),
        ),
    }
}

/// ` ` and the quoted word, when there is one.
pub open spec fn optional_word(prefix: Seq<char>, word: Option<Seq<char>>) -> Seq<char> {
    match word {
        Some(w) => prefix + shell_quoted(w),
        None => Seq::empty(),
    }
}

pub open spec fn glob_command(pattern: Seq<char>, path: Option<Seq<char>>) -> Seq<char> {
    "rg --files --hidden -g "@ + shell_quoted(pattern) + optional_word(" "@, path)
}

pub open spec fn glob_result(args: JsonV) -> Result<Seq<char>, Seq<char>> {
    match string_arg(args, "pattern"@) {
        None => Err("glob requires `pattern`"@),
        Some(pattern) => Ok(shell_arguments(glob_command(pattern, string_arg(args, "path"@)))),
    }
}

pub open spec fn grep_command(
    pattern: Seq<char>,
    path: Option<Seq<char>>,
    file_glob: Option<Seq<char>>,
) -> Seq<char> {
    "rg -n --color never "@ + shell_quoted(pattern) + optional_word(" -g "@, file_glob)
        + optional_word(" "@, path)
}

pub open spec fn grep_result(args: JsonV) -> Result<Seq<char>, Seq<char>> {
    match string_arg(args, "pattern"@) {
        None => Err("grep requires `pattern`"@),
        Some(pattern) => Ok(
            shell_arguments(
                grep_command(pattern, string_arg(args, "path"@), string_arg(args, "include"@)),
            ),
        ),
    }
}

fn int_arg_of(args: &Json, key: &str) -> (r: Option<i64>)
    ensures
        r == int_arg(args@, key@),
{
    match args.get(key) {
        Some(v) => v.as_i64(),
        None => None,
    }
}

fn push_positive(out: &mut String, x: i64)
    requires
        x >= 1,
    ensures
        final(out)@ == old(out)@ + decimal(x as nat),
{
    push_decimal(out, x as u64);
}

fn read_command_text(quoted_path: &str, offset: Option<i64>, limit: Option<i64>) -> (r: String)
    ensures
        r@ == read_command(quoted_path@, offset, limit),
{
    let mut out = String::new();
    match (offset, limit) {
        (None, None) => {
            out.append("cat -- ");
        },
        (Some(start), None) => {
            let start = if start < 1 { 1 } else { start };
            out.append("sed -n '");
            push_positive(&mut out, start);
            out.append(",$p' -- ");
        },
        (None, Some(n)) => {
            let n = if n < 1 { 1 } else { n };
            out.append("sed -n '1,");
            push_positive(&mut out, n);
            out.append("p' -- ");
        },
        (Some(start), Some(n)) => {
            let start = if start < 1 { 1 } else { start };
            let n = if n < 1 { 1 } else { n };
            // `n - 1` is not negative, so the sum can only overflow upwards.
            let end = match start.checked_add(n - 1) {
                Some(e) => e,
                None => i64::MAX,
            };
            out.append("sed -n '");
            push_positive(&mut out, start);
            push_char(&mut out, ',');
            push_positive(&mut out, end);
            out.append("p' -- ");
        },
    }
    out.append(quoted_path);
    assert(out@ =~= read_command(quoted_path@, offset, limit));
    out
}

/// Builds `shell_command` arguments from `read_file` arguments: `cat` for the
/// whole file, `sed -n` for a line range.
pub fn synth_shell_command_from_read_file(args_json: &str) -> (r: Result<String, String>)
    ensures
        synthesis_outcome(
            args_json@,
            "read_file arguments are not valid JSON: "@,
            |v: JsonV| read_file_result(v),
            result_view(r),
        ),
{
    match parse_json(args_json) {
        Ok(v) => read_file_command(&v),
        Err(e) => Err(invalid_json_message("read_file arguments are not valid JSON: ", e)),
    }
}

/// The `shell_command` arguments for parsed `read_file` arguments, or the
/// message naming the missing path.
pub fn read_file_command(v: &Json) -> (r: Result<String, String>)
    ensures
        result_view(r) == read_file_result(v@),
{
    let file_path = match string_arg_of(v, "file_path") {
        Some(p) => p,
        None => {
            return Err(String::from_str("read_file requires `file_path`"));
        },
    };
    let offset = int_arg_of(v, "offset");
    let limit = int_arg_of(v, "limit");
    let quoted_path = shell_single_quote(file_path);
    let command = read_command_text(quoted_path.as_str(), offset, limit);
    Ok(single_string_member_object("command", command.as_str()))
}

fn push_optional_word(out: &mut String, prefix: &str, word: Option<&str>)
    ensures
        final(out)@ == old(out)@ + optional_word(prefix@, match word {
            Some(w) => Some(w@),
            None => None,
        }),
{
    match word {
        Some(w) => {
            out.append(prefix);
            let q = shell_single_quote(w);
            out.append(q.as_str());
        },
        None => {
            assert(old(out)@ + Seq::<char>::empty() =~= old(out)@);
        },
    }
}

/// Builds `shell_command` arguments from `glob` arguments
/// (`rg --files --hidden -g <pattern> [<path>]`).
pub fn synth_shell_command_from_glob(args_json: &str) -> (r: Result<String, String>)
    ensures
        synthesis_outcome(
            args_json@,
            "glob arguments are not valid JSON: "@,
            |v: JsonV| glob_result(v),
            result_view(r),
        ),
{
    match parse_json(args_json) {
        Ok(v) => glob_command_args(&v),
        Err(e) => Err(invalid_json_message("glob arguments are not valid JSON: ", e)),
    }
}

/// The `shell_command` arguments for parsed `glob` arguments, or the
/// message naming the missing pattern.
pub fn glob_command_args(v: &Json) -> (r: Result<String, String>)
    ensures
        result_view(r) == glob_result(v@),
{
    let pattern = match string_arg_of(v, "pattern") {
        Some(p) => p,
        None => {
            return Err(String::from_str("glob requires `pattern`"));
        },
    };
    let path = string_arg_of(v, "path");
    let mut command = String::from_str("rg --files --hidden -g ");
    let q = shell_single_quote(pattern);
    command.append(q.as_str());
    push_optional_word(&mut command, " ", path);
    Ok(single_string_member_object("command", command.as_str()))
}

/// Builds `shell_command` arguments from `grep` arguments
/// (`rg -n --color never <pattern> [-g <include>] [<path>]`).
pub fn synth_shell_command_from_grep(args_json: &str) -> (r: Result<String, String>)
    ensures
        synthesis_outcome(
            args_json@,
            "grep arguments are not valid JSON: "@,
            |v: JsonV| grep_result(v),
            result_view(r),
        ),
{
    match parse_json(args_json) {
        Ok(v) => grep_command_args(&v),
        Err(e) => Err(invalid_json_message("grep arguments are not valid JSON: ", e)),
    }
}

/// The `shell_command` arguments for parsed `grep` arguments, or the
/// message naming the missing pattern.
pub fn grep_command_args(v: &Json) -> (r: Result<String, String>)
    ensures
        result_view(r) == grep_result(v@),
{
    let pattern = match string_arg_of(v, "pattern") {
        Some(p) => p,
        None => {
            return Err(String::from_str("grep requires `pattern`"));
        },
    };
    let path = string_arg_of(v, "path");
    let file_glob = string_arg_of(v, "include");
    let mut command = String::from_str("rg -n --color never ");
    let q = shell_single_quote(pattern);
    command.append(q.as_str());
    push_optional_word(&mut command, " -g ", file_glob);
    push_optional_word(&mut command, " ", path);
    Ok(single_string_member_object("command", command.as_str()))
}


// ── The advertised tools fit their synthesisers ─────────────────────────────
/// The parameter schema of a Chat Completions function tool.
pub open spec fn tool_parameters(t: JsonV) -> Option<JsonV> {
    match t.get("function"@) {
        Some(f) => f.get("parameters"@),
        None => None,
    }
}

/// The name of a Chat Completions function tool.
pub open spec fn tool_function_name(t: JsonV) -> Option<Seq<char>> {
    str_member(t.get("function"@), "name"@)
}

/// The entries of the tool schema's `required` list.
pub open spec fn required_of(t: JsonV) -> Seq<JsonV> {
    match tool_parameters(t) {
        Some(p) => match p.get("required"@) {
            Some(JsonV::Array(a)) => a,
            _ => Seq::empty(),
        },
        None => Seq::empty(),
    }
}

/// The declared `type` of property `key` in the tool's schema.
pub open spec fn property_type(t: JsonV, key: Seq<char>) -> Option<Seq<char>> {
    match tool_parameters(t) {
        Some(p) => match p.get("properties"@) {
            Some(props) => str_member(props.get(key), "type"@),
            None => None,
        },
        None => None,
    }
}

/// `args` gives a string to every property that the tool's schema requires.
pub open spec fn fills_required(t: JsonV, args: JsonV) -> bool {
    forall|i: int|
        0 <= i < required_of(t).len() ==> ((#[trigger] required_of(t)[i]) matches JsonV::Str(k) && string_arg(
            args,
            k,
        ) is Some)
}

/// Every property that the tool's schema requires is a declared string.
pub open spec fn required_are_strings(t: JsonV) -> bool {
    forall|i: int|
        0 <= i < required_of(t).len() ==> ((#[trigger] required_of(t)[i]) matches JsonV::Str(k) && property_type(
            t,
            k,
        ) == Some("string"@))
}

proof fn lemma_function_tool_parts(
    name: Seq<char>,
    description: Seq<char>,
    props: Seq<(Seq<char>, JsonV)>,
    required: Seq<Seq<char>>,
)
    ensures
        tool_function_name(function_tool_v(name, description, object_schema_v(props, required))) == Some(name),
        required_of(function_tool_v(name, description, object_schema_v(props, required))) == required.map_values(
            |r: Seq<char>| JsonV::Str(r),
        ),
        forall|k: Seq<char>|
            #[trigger] property_type(function_tool_v(name, description, object_schema_v(props, required)), k)
                == str_member(member(props, k), "type"@),
{
    reveal_strlit("type");
    reveal_strlit("function");
    reveal_strlit("name");
    reveal_strlit("description");
    reveal_strlit("parameters");
    reveal_strlit("properties");
    reveal_strlit("required");
    assert("type"@.len() == 4 && "function"@.len() == 8 && "name"@.len() == 4 && "description"@.len() == 11);
    assert("parameters"@.len() == 10 && "properties"@.len() == 10 && "required"@.len() == 8);
    assert("type"@ != "name"@) by {
        assert("type"@[0] != "name"@[0]);
    }
    assert("parameters"@ != "properties"@) by {
        assert("parameters"@[1] != "properties"@[1]);
    }
    assert("function"@ != "required"@) by {
        assert("function"@[0] != "required"@[0]);
    }
    let schema = object_schema_v(props, required);
    let inner = seq![
        ("name"@, JsonV::Str(name)),
        ("description"@, JsonV::Str(description)),
        ("parameters"@, schema),
    ];
    lemma_member_pair("type"@, JsonV::Str("function"@), "function"@, JsonV::Object(inner), "function"@);
    lemma_member_triple(
        "name"@,
        JsonV::Str(name),
        "description"@,
        JsonV::Str(description),
        "parameters"@,
        schema,
        "name"@,
    );
    lemma_member_triple(
        "name"@,
        JsonV::Str(name),
        "description"@,
        JsonV::Str(description),
        "parameters"@,
        schema,
        "parameters"@,
    );
    let req = JsonV::Array(required.map_values(|r: Seq<char>| JsonV::Str(r)));
    lemma_member_triple(
        "type"@,
        JsonV::Str("object"@),
        "properties"@,
        JsonV::Object(props),
        "required"@,
        req,
        "required"@,
    );
    lemma_member_triple(
        "type"@,
        JsonV::Str("object"@),
        "properties"@,
        JsonV::Object(props),
        "required"@,
        req,
        "properties"@,
    );
}

proof fn lemma_property_type(kind: Seq<char>, description: Seq<char>)
    ensures
        str_member(Some(property_v(kind, description)), "type"@) == Some(kind),
{
    reveal_strlit("type");
    reveal_strlit("description");
    lemma_member_pair(
        "type"@,
        JsonV::Str(kind),
        "description"@,
        JsonV::Str(description),
        "type"@,
    );
}

/// The tools advertised in place of `apply_patch` and of read/search shell
/// commands name exactly the arguments their synthesisers read: each is
/// named for its synthesiser, every property its schema requires is a
/// declared string, and for every argument object that gives a string to
/// each required property, the synthesiser builds its patch or command
/// (it does not answer that an argument is missing).
pub proof fn lemma_advertised_schemas_fit(args: JsonV)
    ensures
        tool_function_name(edit_tools_v()[0]) == Some("edit_file"@),
        required_are_strings(edit_tools_v()[0]),
        fills_required(edit_tools_v()[0], args) ==> edit_file_result(args) is Ok,
        tool_function_name(edit_tools_v()[1]) == Some("write_file"@),
        required_are_strings(edit_tools_v()[1]),
        fills_required(edit_tools_v()[1], args) ==> write_file_result(args) is Ok,
        tool_function_name(read_search_tools_v()[0]) == Some("read_file"@),
        required_are_strings(read_search_tools_v()[0]),
        fills_required(read_search_tools_v()[0], args) ==> read_file_result(args) is Ok,
        tool_function_name(read_search_tools_v()[1]) == Some("glob"@),
        required_are_strings(read_search_tools_v()[1]),
        fills_required(read_search_tools_v()[1], args) ==> glob_result(args) is Ok,
        tool_function_name(read_search_tools_v()[2]) == Some("grep"@),
        required_are_strings(read_search_tools_v()[2]),
        fills_required(read_search_tools_v()[2], args) ==> grep_result(args) is Ok,
{
    reveal_strlit("file_path");
    reveal_strlit("old_string");
    reveal_strlit("new_string");
    reveal_strlit("replace_all");
    reveal_strlit("content");
    reveal_strlit("offset");
    reveal_strlit("limit");
    reveal_strlit("pattern");
    reveal_strlit("path");
    reveal_strlit("include");
    assert("file_path"@.len() == 9 && "old_string"@.len() == 10 && "new_string"@.len() == 10);
    assert("replace_all"@.len() == 11 && "content"@.len() == 7 && "offset"@.len() == 6 && "limit"@.len() == 5);
    assert("pattern"@.len() == 7 && "path"@.len() == 4 && "include"@.len() == 7);
    assert("old_string"@ != "new_string"@) by {
        assert("old_string"@[0] != "new_string"@[0]);
    }
    assert("pattern"@ != "include"@) by {
        assert("pattern"@[0] != "include"@[0]);
    }
    // edit_file
    let et = edit_tools_v()[0];
    let eprops = seq![
        ("file_path"@, property_v("string"@, EDIT_FILE_PATH_DESCRIPTION@)),
        ("old_string"@, property_v("string"@, EDIT_OLD_STRING_DESCRIPTION@)),
        ("new_string"@, property_v("string"@, EDIT_NEW_STRING_DESCRIPTION@)),
        ("replace_all"@, property_v("boolean"@, EDIT_REPLACE_ALL_DESCRIPTION@)),
    ];
    let ereq = seq!["file_path"@, "old_string"@, "new_string"@];
    lemma_function_tool_parts("edit_file"@, EDIT_FILE_DESCRIPTION@, eprops, ereq);
    assert(required_of(et) =~= seq![JsonV::Str("file_path"@), JsonV::Str("old_string"@), JsonV::Str("new_string"@)]);
    assert(required_are_strings(et)) by {
        assert forall|k: Seq<char>| k == "file_path"@ || k == "old_string"@ || k == "new_string"@ implies property_type(et, k)
            == Some("string"@) by {
            lemma_member_quad(eprops[0].0, eprops[0].1, eprops[1].0, eprops[1].1, eprops[2].0, eprops[2].1, eprops[3].0, eprops[3].1, k);
            assert(eprops =~= seq![(eprops[0].0, eprops[0].1), (eprops[1].0, eprops[1].1), (eprops[2].0, eprops[2].1), (eprops[3].0, eprops[3].1)]);
            lemma_property_type("string"@, EDIT_FILE_PATH_DESCRIPTION@);
            lemma_property_type("string"@, EDIT_OLD_STRING_DESCRIPTION@);
            lemma_property_type("string"@, EDIT_NEW_STRING_DESCRIPTION@);
        }
    }
    if fills_required(et, args) {
        assert(required_of(et)[0] == JsonV::Str("file_path"@));
        assert(required_of(et)[1] == JsonV::Str("old_string"@));
        assert(required_of(et)[2] == JsonV::Str("new_string"@));
    }
    // write_file
    let wt = edit_tools_v()[1];
    let wprops = seq![
        ("file_path"@, property_v("string"@, WRITE_FILE_PATH_DESCRIPTION@)),
        ("content"@, property_v("string"@, WRITE_CONTENT_DESCRIPTION@)),
    ];
    let wreq = seq!["file_path"@, "content"@];
    lemma_function_tool_parts("write_file"@, WRITE_FILE_DESCRIPTION@, wprops, wreq);
    assert(required_of(wt) =~= seq![JsonV::Str("file_path"@), JsonV::Str("content"@)]);
    assert(required_are_strings(wt)) by {
        assert forall|k: Seq<char>| k == "file_path"@ || k == "content"@ implies property_type(wt, k) == Some("string"@) by {
            lemma_member_pair(wprops[0].0, wprops[0].1, wprops[1].0, wprops[1].1, k);
            assert(wprops =~= seq![(wprops[0].0, wprops[0].1), (wprops[1].0, wprops[1].1)]);
            lemma_property_type("string"@, WRITE_FILE_PATH_DESCRIPTION@);
            lemma_property_type("string"@, WRITE_CONTENT_DESCRIPTION@);
        }
    }
    if fills_required(wt, args) {
        assert(required_of(wt)[0] == JsonV::Str("file_path"@));
        assert(required_of(wt)[1] == JsonV::Str("content"@));
    }
    // read_file
    let rt = read_search_tools_v()[0];
    let rprops = seq![
        ("file_path"@, property_v("string"@, READ_FILE_PATH_DESCRIPTION@)),
        ("offset"@, property_v("integer"@, READ_OFFSET_DESCRIPTION@)),
        ("limit"@, property_v("integer"@, READ_LIMIT_DESCRIPTION@)),
    ];
    lemma_function_tool_parts("read_file"@, READ_FILE_DESCRIPTION@, rprops, seq!["file_path"@]);
    assert(required_of(rt) =~= seq![JsonV::Str("file_path"@)]);
    assert(required_are_strings(rt)) by {
        lemma_member_triple(rprops[0].0, rprops[0].1, rprops[1].0, rprops[1].1, rprops[2].0, rprops[2].1, "file_path"@);
        assert(rprops =~= seq![(rprops[0].0, rprops[0].1), (rprops[1].0, rprops[1].1), (rprops[2].0, rprops[2].1)]);
        lemma_property_type("string"@, READ_FILE_PATH_DESCRIPTION@);
    }
    if fills_required(rt, args) {
        assert(required_of(rt)[0] == JsonV::Str("file_path"@));
    }
    // glob
    let gt = read_search_tools_v()[1];
    let gprops = seq![
        ("pattern"@, property_v("string"@, GLOB_PATTERN_DESCRIPTION@)),
        ("path"@, property_v("string"@, GLOB_PATH_DESCRIPTION@)),
    ];
    lemma_function_tool_parts("glob"@, GLOB_DESCRIPTION@, gprops, seq!["pattern"@]);
    assert(required_of(gt) =~= seq![JsonV::Str("pattern"@)]);
    assert(required_are_strings(gt)) by {
        lemma_member_pair(gprops[0].0, gprops[0].1, gprops[1].0, gprops[1].1, "pattern"@);
        assert(gprops =~= seq![(gprops[0].0, gprops[0].1), (gprops[1].0, gprops[1].1)]);
        lemma_property_type("string"@, GLOB_PATTERN_DESCRIPTION@);
    }
    if fills_required(gt, args) {
        assert(required_of(gt)[0] == JsonV::Str("pattern"@));
    }
    // grep
    let ct = read_search_tools_v()[2];
    let cprops = seq![
        ("pattern"@, property_v("string"@, GREP_PATTERN_DESCRIPTION@)),
        ("path"@, property_v("string"@, GREP_PATH_DESCRIPTION@)),
        ("include"@, property_v("string"@, GREP_INCLUDE_DESCRIPTION@)),
    ];
    lemma_function_tool_parts("grep"@, GREP_DESCRIPTION@, cprops, seq!["pattern"@]);
    assert(required_of(ct) =~= seq![JsonV::Str("pattern"@)]);
    assert(required_are_strings(ct)) by {
        lemma_member_triple(cprops[0].0, cprops[0].1, cprops[1].0, cprops[1].1, cprops[2].0, cprops[2].1, "pattern"@);
        assert(cprops =~= seq![(cprops[0].0, cprops[0].1), (cprops[1].0, cprops[1].1), (cprops[2].0, cprops[2].1)]);
        lemma_property_type("string"@, GREP_PATTERN_DESCRIPTION@);
    }
    if fills_required(ct, args) {
        assert(required_of(ct)[0] == JsonV::Str("pattern"@));
    }
}

} // verus!

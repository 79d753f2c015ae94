use crate::json::{Json, json_array, json_object, json_str, JsonView, member};
use crate::types::{CacheControl, ToolDef};
use vstd::prelude::*;
use vstd::string::StringExecFns;

verus! {

/// One property of the input of a tool, as its schema describes it.
pub open spec fn property_json(kind: Seq<char>, description: Seq<char>) -> JsonView {
    JsonView::Object(
        seq![("type"@, JsonView::Str(kind)), ("description"@, JsonView::Str(description))],
    )
}

/// The schema of the input of a tool: an object with the given properties.
pub open spec fn schema_json(properties: Seq<(Seq<char>, JsonView)>) -> JsonView {
    JsonView::Object(
        seq![("type"@, JsonView::Str("object"@)), ("properties"@, JsonView::Object(properties))],
    )
}

/// The schema of the input of a tool: an object with the given
/// properties, of which those named in `required` have to be there.
pub open spec fn strict_schema_json(
    properties: Seq<(Seq<char>, JsonView)>,
    required: Seq<Seq<char>>,
) -> JsonView {
    JsonView::Object(
        seq![
            ("type"@, JsonView::Str("object"@)),
            ("properties"@, JsonView::Object(properties)),
            (
                "required"@,
                JsonView::Array(Seq::new(required.len(), |i: int| JsonView::Str(required[i]))),
            ),
        ],
    )
}

/// What a tool is, as the service is told of it.
pub struct ToolDefView {
    pub name: Seq<char>,
    pub description: Seq<char>,
    pub input_schema: JsonView,
    pub cached: bool,
}

/// Whether `tool` is the tool that `want` describes.
pub open spec fn is_tool(tool: ToolDef, want: ToolDefView) -> bool {
    &&& tool.name@ == want.name
    &&& tool.description@ == want.description
    &&& tool.input_schema@ == want.input_schema
    &&& if want.cached {
        tool.cache_control matches Some(mark) && mark.kind@ == "ephemeral"@
    } else {
        tool.cache_control is None
    }
}

fn property(name: &str, kind: &str, description: &str) -> (pair: (String, Json))
    ensures
        pair.0@ == name@,
        pair.1@ == property_json(kind@, description@),
{
    let mut fields: Vec<(String, Json)> = Vec::new();
    fields.push(member("type", json_str(kind)));
    fields.push(member("description", json_str(description)));
    let doc = json_object(fields);
    assert(doc@->Object_0 =~= property_json(kind@, description@)->Object_0);
    member(name, doc)
}

fn schema(properties: Vec<(String, Json)>) -> (doc: Json)
    ensures
        doc@ == schema_json(
            Seq::new(properties@.len(), |i: int| (properties@[i].0@, properties@[i].1@)),
        ),
{
    let ghost want = Seq::new(properties@.len(), |i: int| (properties@[i].0@, properties@[i].1@));
    let inner = json_object(properties);
    assert(inner@->Object_0 =~= want);
    let mut fields: Vec<(String, Json)> = Vec::new();
    fields.push(member("type", json_str("object")));
    fields.push(member("properties", inner));
    let doc = json_object(fields);
    assert(doc@->Object_0 =~= schema_json(want)->Object_0);
    doc
}

fn strict_schema(properties: Vec<(String, Json)>, required: Vec<&str>) -> (doc: Json)
    ensures
        doc@ == strict_schema_json(
            Seq::new(properties@.len(), |i: int| (properties@[i].0@, properties@[i].1@)),
            Seq::new(required@.len(), |i: int| required@[i]@),
        ),
{
    let ghost want = Seq::new(properties@.len(), |i: int| (properties@[i].0@, properties@[i].1@));
    let ghost names = Seq::new(required@.len(), |i: int| required@[i]@);
    let inner = json_object(properties);
    assert(inner@->Object_0 =~= want);
    let mut items: Vec<Json> = Vec::new();
    let mut i: usize = 0;
    while i < required.len()
        invariant
            i <= required.len(),
            items.len() == i,
            forall|k: int| 0 <= k < i ==> (#[trigger] items@[k])@ == JsonView::Str(required@[k]@),
        decreases required.len() - i,
    {
        items.push(json_str(required[i]));
        i += 1;
    }
    let list = json_array(items);
    assert(list@->Array_0 =~= Seq::new(names.len(), |i: int| JsonView::Str(names[i])));
    let mut fields: Vec<(String, Json)> = Vec::new();
    fields.push(member("type", json_str("object")));
    fields.push(member("properties", inner));
    fields.push(member("required", list));
    let doc = json_object(fields);
    assert(doc@->Object_0 =~= strict_schema_json(want, names)->Object_0);
    doc
}

/// The tool `read_file`.
pub open spec fn read_file_tool_view(cached: bool) -> ToolDefView {
    ToolDefView {
        name: "read_file"@,
        description: "Read the contents of a file. Supports offset and limit for partial reads."@,
        input_schema: strict_schema_json(
            seq![
                ("path"@, property_json("string"@, "Path to the file to read"@)),
                ("offset"@, property_json("integer"@, "Line number to start from (1-indexed, default: 1)"@)),
                ("limit"@, property_json("integer"@, "Maximum number of lines to read"@)),
            ],
            seq!["path"@],
        ),
        cached,
    }
}

fn read_file_tool(cached: bool) -> (tool: ToolDef)
    ensures
        is_tool(tool, read_file_tool_view(cached)),
{
    let mut properties: Vec<(String, Json)> = Vec::new();
    properties.push(property("path", "string", "Path to the file to read"));
    properties.push(property("offset", "integer", "Line number to start from (1-indexed, default: 1)"));
    properties.push(property("limit", "integer", "Maximum number of lines to read"));
    let ghost listed = Seq::new(properties@.len(), |i: int| (properties@[i].0@, properties@[i].1@));
    assert(listed =~= seq![
        ("path"@, property_json("string"@, "Path to the file to read"@)),
        ("offset"@, property_json("integer"@, "Line number to start from (1-indexed, default: 1)"@)),
        ("limit"@, property_json("integer"@, "Maximum number of lines to read"@)),
    ]);
    let mut required: Vec<&str> = Vec::new();
    required.push("path");
    assert(Seq::new(required@.len(), |i: int| required@[i]@) =~= seq!["path"@]);
    let input_schema = strict_schema(properties, required);
    ToolDef {
        name: String::from_str("read_file"),
        description: String::from_str("Read the contents of a file. Supports offset and limit for partial reads."),
        input_schema,
        cache_control: if cached {
            Some(CacheControl::ephemeral())
        } else {
            None
        },
    }
}

/// The tool `write_file`.
pub open spec fn write_file_tool_view(cached: bool) -> ToolDefView {
    ToolDefView {
        name: "write_file"@,
        description: "Write content to a file, creating it if it doesn't exist"@,
        input_schema: strict_schema_json(
            seq![
                ("path"@, property_json("string"@, "Path to the file to write"@)),
                ("content"@, property_json("string"@, "Content to write to the file"@)),
            ],
            seq!["path"@, "content"@],
        ),
        cached,
    }
}

fn write_file_tool(cached: bool) -> (tool: ToolDef)
    ensures
        is_tool(tool, write_file_tool_view(cached)),
{
    let mut properties: Vec<(String, Json)> = Vec::new();
    properties.push(property("path", "string", "Path to the file to write"));
    properties.push(property("content", "string", "Content to write to the file"));
    let ghost listed = Seq::new(properties@.len(), |i: int| (properties@[i].0@, properties@[i].1@));
    assert(listed =~= seq![
        ("path"@, property_json("string"@, "Path to the file to write"@)),
        ("content"@, property_json("string"@, "Content to write to the file"@)),
    ]);
    let mut required: Vec<&str> = Vec::new();
    required.push("path");
    required.push("content");
    assert(Seq::new(required@.len(), |i: int| required@[i]@) =~= seq!["path"@, "content"@]);
    let input_schema = strict_schema(properties, required);
    ToolDef {
        name: String::from_str("write_file"),
        description: String::from_str("Write content to a file, creating it if it doesn't exist"),
        input_schema,
        cache_control: if cached {
            Some(CacheControl::ephemeral())
        } else {
            None
        },
    }
}

/// The tool `edit_file`.
pub open spec fn edit_file_tool_view(cached: bool) -> ToolDefView {
    ToolDefView {
        name: "edit_file"@,
        description: "Edit a file by replacing a string match with new content. The old_string must appear exactly once in the file. Supports fuzzy matching for whitespace and unicode variations."@,
        input_schema: strict_schema_json(
            seq![
                ("path"@, property_json("string"@, "Path to the file to edit"@)),
                ("old_string"@, property_json("string"@, "String to find (must be unique in file)"@)),
                ("new_string"@, property_json("string"@, "String to replace it with"@)),
            ],
            seq!["path"@, "old_string"@, "new_string"@],
        ),
        cached,
    }
}

fn edit_file_tool(cached: bool) -> (tool: ToolDef)
    ensures
        is_tool(tool, edit_file_tool_view(cached)),
{
    let mut properties: Vec<(String, Json)> = Vec::new();
    properties.push(property("path", "string", "Path to the file to edit"));
    properties.push(property("old_string", "string", "String to find (must be unique in file)"));
    properties.push(property("new_string", "string", "String to replace it with"));
    let ghost listed = Seq::new(properties@.len(), |i: int| (properties@[i].0@, properties@[i].1@));
    assert(listed =~= seq![
        ("path"@, property_json("string"@, "Path to the file to edit"@)),
        ("old_string"@, property_json("string"@, "String to find (must be unique in file)"@)),
        ("new_string"@, property_json("string"@, "String to replace it with"@)),
    ]);
    let mut required: Vec<&str> = Vec::new();
    required.push("path");
    required.push("old_string");
    required.push("new_string");
    assert(Seq::new(required@.len(), |i: int| required@[i]@) =~= seq!["path"@, "old_string"@, "new_string"@]);
    let input_schema = strict_schema(properties, required);
    ToolDef {
        name: String::from_str("edit_file"),
        description: String::from_str("Edit a file by replacing a string match with new content. The old_string must appear exactly once in the file. Supports fuzzy matching for whitespace and unicode variations."),
        input_schema,
        cache_control: if cached {
            Some(CacheControl::ephemeral())
        } else {
            None
        },
    }
}

/// The tool `bash`.
pub open spec fn bash_tool_view(cached: bool) -> ToolDefView {
    ToolDefView {
        name: "bash"@,
        description: "Run a shell command"@,
        input_schema: strict_schema_json(
            seq![
                ("command"@, property_json("string"@, "Shell command to execute"@)),
                ("timeout"@, property_json("integer"@, "Timeout in seconds (default: 120)"@)),
            ],
            seq!["command"@],
        ),
        cached,
    }
}

fn bash_tool(cached: bool) -> (tool: ToolDef)
    ensures
        is_tool(tool, bash_tool_view(cached)),
{
    let mut properties: Vec<(String, Json)> = Vec::new();
    properties.push(property("command", "string", "Shell command to execute"));
    properties.push(property("timeout", "integer", "Timeout in seconds (default: 120)"));
    let ghost listed = Seq::new(properties@.len(), |i: int| (properties@[i].0@, properties@[i].1@));
    assert(listed =~= seq![
        ("command"@, property_json("string"@, "Shell command to execute"@)),
        ("timeout"@, property_json("integer"@, "Timeout in seconds (default: 120)"@)),
    ]);
    let mut required: Vec<&str> = Vec::new();
    required.push("command");
    assert(Seq::new(required@.len(), |i: int| required@[i]@) =~= seq!["command"@]);
    let input_schema = strict_schema(properties, required);
    ToolDef {
        name: String::from_str("bash"),
        description: String::from_str("Run a shell command"),
        input_schema,
        cache_control: if cached {
            Some(CacheControl::ephemeral())
        } else {
            None
        },
    }
}

/// The tool `ls`.
pub open spec fn ls_tool_view(cached: bool) -> ToolDefView {
    ToolDefView {
        name: "ls"@,
        description: "List directory contents, sorted alphabetically. Directories have a trailing /."@,
        input_schema: schema_json(
            seq![
                ("path"@, property_json("string"@, "Directory to list (default: working directory)"@)),
            ],
        ),
        cached,
    }
}

fn ls_tool(cached: bool) -> (tool: ToolDef)
    ensures
        is_tool(tool, ls_tool_view(cached)),
{
    let mut properties: Vec<(String, Json)> = Vec::new();
    properties.push(property("path", "string", "Directory to list (default: working directory)"));
    let ghost listed = Seq::new(properties@.len(), |i: int| (properties@[i].0@, properties@[i].1@));
    assert(listed =~= seq![
        ("path"@, property_json("string"@, "Directory to list (default: working directory)"@)),
    ]);
    let input_schema = schema(properties);
    ToolDef {
        name: String::from_str("ls"),
        description: String::from_str("List directory contents, sorted alphabetically. Directories have a trailing /."),
        input_schema,
        cache_control: if cached {
            Some(CacheControl::ephemeral())
        } else {
            None
        },
    }
}

/// The tool `find`.
pub open spec fn find_tool_view(cached: bool) -> ToolDefView {
    ToolDefView {
        name: "find"@,
        description: "Find files matching a glob pattern using fd. Returns up to 1000 results."@,
        input_schema: strict_schema_json(
            seq![
                ("pattern"@, property_json("string"@, "Glob pattern to search for (e.g. \"*.rs\", \"test_*\")"@)),
                ("path"@, property_json("string"@, "Directory to search in (default: working directory)"@)),
            ],
            seq!["pattern"@],
        ),
        cached,
    }
}

fn find_tool(cached: bool) -> (tool: ToolDef)
    ensures
        is_tool(tool, find_tool_view(cached)),
{
    let mut properties: Vec<(String, Json)> = Vec::new();
    properties.push(property("pattern", "string", "Glob pattern to search for (e.g. \"*.rs\", \"test_*\")"));
    properties.push(property("path", "string", "Directory to search in (default: working directory)"));
    let ghost listed = Seq::new(properties@.len(), |i: int| (properties@[i].0@, properties@[i].1@));
    assert(listed =~= seq![
        ("pattern"@, property_json("string"@, "Glob pattern to search for (e.g. \"*.rs\", \"test_*\")"@)),
        ("path"@, property_json("string"@, "Directory to search in (default: working directory)"@)),
    ]);
    let mut required: Vec<&str> = Vec::new();
    required.push("pattern");
    assert(Seq::new(required@.len(), |i: int| required@[i]@) =~= seq!["pattern"@]);
    let input_schema = strict_schema(properties, required);
    ToolDef {
        name: String::from_str("find"),
        description: String::from_str("Find files matching a glob pattern using fd. Returns up to 1000 results."),
        input_schema,
        cache_control: if cached {
            Some(CacheControl::ephemeral())
        } else {
            None
        },
    }
}

/// The tool `grep`.
pub open spec fn grep_tool_view(cached: bool) -> ToolDefView {
    ToolDefView {
        name: "grep"@,
        description: "Search file contents using ripgrep. Returns matching lines with file paths and line numbers."@,
        input_schema: strict_schema_json(
            seq![
                ("pattern"@, property_json("string"@, "Regex pattern to search for"@)),
                ("path"@, property_json("string"@, "File or directory to search (default: working directory)"@)),
                ("context"@, property_json("integer"@, "Lines of context around matches (default: 2)"@)),
            ],
            seq!["pattern"@],
        ),
        cached,
    }
}

fn grep_tool(cached: bool) -> (tool: ToolDef)
    ensures
        is_tool(tool, grep_tool_view(cached)),
{
    let mut properties: Vec<(String, Json)> = Vec::new();
    properties.push(property("pattern", "string", "Regex pattern to search for"));
    properties.push(property("path", "string", "File or directory to search (default: working directory)"));
    properties.push(property("context", "integer", "Lines of context around matches (default: 2)"));
    let ghost listed = Seq::new(properties@.len(), |i: int| (properties@[i].0@, properties@[i].1@));
    assert(listed =~= seq![
        ("pattern"@, property_json("string"@, "Regex pattern to search for"@)),
        ("path"@, property_json("string"@, "File or directory to search (default: working directory)"@)),
        ("context"@, property_json("integer"@, "Lines of context around matches (default: 2)"@)),
    ]);
    let mut required: Vec<&str> = Vec::new();
    required.push("pattern");
    assert(Seq::new(required@.len(), |i: int| required@[i]@) =~= seq!["pattern"@]);
    let input_schema = strict_schema(properties, required);
    ToolDef {
        name: String::from_str("grep"),
        description: String::from_str("Search file contents using ripgrep. Returns matching lines with file paths and line numbers."),
        input_schema,
        cache_control: if cached {
            Some(CacheControl::ephemeral())
        } else {
            None
        },
    }
}

/// The tools, as the service is told of them: seven of them, of which the
/// last carries the marker of reuse, so that the service may keep the
/// whole list.
pub open spec fn tool_views() -> Seq<ToolDefView> {
    seq![
        read_file_tool_view(false),
        write_file_tool_view(false),
        edit_file_tool_view(false),
        bash_tool_view(false),
        ls_tool_view(false),
        find_tool_view(false),
        grep_tool_view(true),
    ]
}

/// The tools, as the service is told of them.
pub fn definitions() -> (tools: Vec<ToolDef>)
    ensures
        tools@.len() == tool_views().len(),
        forall|i: int| 0 <= i < tools@.len() ==> is_tool(#[trigger] tools@[i], tool_views()[i]),
{
    let mut tools: Vec<ToolDef> = Vec::new();
    tools.push(read_file_tool(false));
    tools.push(write_file_tool(false));
    tools.push(edit_file_tool(false));
    tools.push(bash_tool(false));
    tools.push(ls_tool(false));
    tools.push(find_tool(false));
    tools.push(grep_tool(true));
    tools
}

} // verus!

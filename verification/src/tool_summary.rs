//! Short human-readable descriptions of tool invocations ("Reading
//! src/main.rs"), shown by the conductor and musician panels.
use crate::bridge::{get_in, or_else};
use crate::json::{as_str, json_get, str_eq, JsonValue, JsonView};
use crate::text::{chars_of, push_char, push_str};
use vstd::prelude::*;

verus! {

broadcast use vstd::string::group_string_axioms;

/// The description of a call of tool `tool` with input `input`.
pub open spec fn tool_summary(tool: Seq<char>, input: Option<JsonView>) -> Seq<char> {
    let field = |k: Seq<char>| as_str(get_in(input, k));
    if tool == "Read"@ {
        "Reading "@ + or_else(field("file_path"@), "file"@)
    } else if tool == "Write"@ {
        "Writing "@ + or_else(field("file_path"@), "file"@)
    } else if tool == "Edit"@ {
        "Editing "@ + or_else(field("file_path"@), "file"@)
    } else if tool == "Glob"@ {
        "Searching files: "@ + or_else(field("pattern"@), ""@)
    } else if tool == "Grep"@ {
        "Searching code: "@ + or_else(field("pattern"@), ""@)
    } else if tool == "Bash"@ {
        let cmd = or_else(field("command"@), ""@);
        "Running: "@ + cmd.take(if cmd.len() < 60 { cmd.len() as int } else { 60 })
    } else {
        tool
    }
}

/// A shell command is described as "Running: " and the command's first
/// sixty characters: all of it when it is shorter, never more.
pub proof fn lemma_bash_summary_shows_command(input: Option<JsonView>, cmd: Seq<char>)
    requires
        get_in(input, "command"@) == Some(JsonView::Str(cmd)),
    ensures
        ({
            let r = tool_summary("Bash"@, input);
            let shown = if cmd.len() < 60 { cmd.len() } else { 60 };
            &&& r.len() == 9 + shown
            &&& r.take(9) == "Running: "@
            &&& forall|k: int| 0 <= k < shown ==> r[9 + k] == cmd[k]
            &&& cmd.len() <= 60 ==> r == "Running: "@ + cmd
        }),
{
    reveal_strlit("Bash");
    reveal_strlit("Read");
    reveal_strlit("Write");
    reveal_strlit("Edit");
    reveal_strlit("Glob");
    reveal_strlit("Grep");
    reveal_strlit("Running: ");
    assert("Bash"@ != "Read"@ && "Bash"@ != "Write"@ && "Bash"@ != "Edit"@ && "Bash"@ != "Glob"@ && "Bash"@ != "Grep"@) by {
        assert("Bash"@[0] != "Read"@[0] && "Bash"@[0] != "Write"@[0] && "Bash"@[0] != "Edit"@[0]);
        assert("Bash"@[0] != "Glob"@[0] && "Bash"@[0] != "Grep"@[0]);
    }
    let r = tool_summary("Bash"@, input);
    let shown: int = if cmd.len() < 60 { cmd.len() as int } else { 60 };
    assert(r == "Running: "@ + cmd.take(shown));
    assert(r.take(9) =~= "Running: "@);
    if cmd.len() <= 60 {
        assert(cmd.take(shown) =~= cmd);
    }
}

fn field_or(input: Option<&JsonValue>, key: &str, dflt: &str, out: &mut String)
    ensures
        final(out)@ == old(out)@ + or_else(
            as_str(get_in(crate::bridge::opt_ref_view(input), key@)),
            dflt@,
        ),
{
    let found = match input {
        Some(v) => match json_get(v, key) {
            Some(x) => x.as_str(),
            None => None,
        },
        None => None,
    };
    match found {
        Some(s) => push_str(out, s),
        None => push_str(out, dflt),
    }
}

/// Describes a call of tool `tool_name` with input `input` in a few words.
pub fn summarize_tool_use(tool_name: &str, input: Option<&JsonValue>) -> (r: String)
    ensures
        r@ == tool_summary(tool_name@, crate::bridge::opt_ref_view(input)),
{
    let mut out = String::new();
    if str_eq(tool_name, "Read") {
        push_str(&mut out, "Reading ");
        field_or(input, "file_path", "file", &mut out);
    } else if str_eq(tool_name, "Write") {
        push_str(&mut out, "Writing ");
        field_or(input, "file_path", "file", &mut out);
    } else if str_eq(tool_name, "Edit") {
        push_str(&mut out, "Editing ");
        field_or(input, "file_path", "file", &mut out);
    } else if str_eq(tool_name, "Glob") {
        push_str(&mut out, "Searching files: ");
        field_or(input, "pattern", "", &mut out);
    } else if str_eq(tool_name, "Grep") {
        push_str(&mut out, "Searching code: ");
        field_or(input, "pattern", "", &mut out);
    } else if str_eq(tool_name, "Bash") {
        push_str(&mut out, "Running: ");
        let mut cmd = String::new();
        field_or(input, "command", "", &mut cmd);
        let cs = chars_of(cmd.as_str());
        let n: usize = if cs.len() < 60 { cs.len() } else { 60 };
        let ghost head = out@;
        let mut i: usize = 0;
        while i < n
            invariant
                i <= n,
                n <= cs.len(),
                out@ == head + cs@.take(i as int),
            decreases n - i,
        {
            push_char(&mut out, cs[i]);
            i = i + 1;
            assert(cs@.take(i as int) =~= cs@.take(i - 1).push(cs@[i - 1]));
        }
    } else {
        push_str(&mut out, tool_name);
    }
    proof {
        reveal_strlit("");
    }
    assert(out@ =~= tool_summary(tool_name@, crate::bridge::opt_ref_view(input)));
    out
}

} // verus!

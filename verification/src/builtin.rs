//! The libraries that the host offers to scripts, by name.

use vstd::prelude::*;
use crate::text::same_text;
use vstd::string::StringExecFns;

verus! {

/// A library that the host offers to scripts.
#[derive(Debug, Clone, Copy, Hash, PartialEq, Eq, Structural)]
pub enum LuneBuiltin {
    DateTime,
    Fs,
    Luau,
    Net,
    Task,
    Process,
    Serde,
    Stdio,
    Window,
}

/// The name of a library.
pub open spec fn name_text(builtin: LuneBuiltin) -> Seq<char> {
    match builtin {
        LuneBuiltin::DateTime => "datetime"@,
        LuneBuiltin::Fs => "fs"@,
        LuneBuiltin::Luau => "luau"@,
        LuneBuiltin::Net => "net"@,
        LuneBuiltin::Task => "task"@,
        LuneBuiltin::Process => "process"@,
        LuneBuiltin::Serde => "serde"@,
        LuneBuiltin::Stdio => "stdio"@,
        LuneBuiltin::Window => "window"@,
    }
}

/// The library with a given name, if there is one. The names are tried in
/// this order.
pub open spec fn builtin_named(name: Seq<char>) -> Option<LuneBuiltin> {
    if name == "datetime"@ {
        Some(LuneBuiltin::DateTime)
    } else if name == "fs"@ {
        Some(LuneBuiltin::Fs)
    } else if name == "luau"@ {
        Some(LuneBuiltin::Luau)
    } else if name == "net"@ {
        Some(LuneBuiltin::Net)
    } else if name == "task"@ {
        Some(LuneBuiltin::Task)
    } else if name == "process"@ {
        Some(LuneBuiltin::Process)
    } else if name == "serde"@ {
        Some(LuneBuiltin::Serde)
    } else if name == "stdio"@ {
        Some(LuneBuiltin::Stdio)
    } else if name == "window"@ {
        Some(LuneBuiltin::Window)
    } else {
        None
    }
}

/// Whether a character is whitespace: one of the code points with the
/// Unicode property `White_Space`.
pub open spec fn is_white_space(c: char) -> bool {
    let n = c as u32;
    (0x09 <= n <= 0x0d) || n == 0x20 || n == 0x85 || n == 0xa0 || n == 0x1680 || (0x2000 <= n
        <= 0x200a) || n == 0x2028 || n == 0x2029 || n == 0x202f || n == 0x205f || n == 0x3000
}

/// A text without the whitespace at its start.
pub open spec fn trimmed_start(text: Seq<char>) -> Seq<char>
    decreases text.len(),
{
    if text.len() > 0 && is_white_space(text[0]) {
        trimmed_start(text.skip(1))
    } else {
        text
    }
}

/// A text without the whitespace at its end.
pub open spec fn trimmed_end(text: Seq<char>) -> Seq<char>
    decreases text.len(),
{
    if text.len() > 0 && is_white_space(text.last()) {
        trimmed_end(text.drop_last())
    } else {
        text
    }
}

/// A text without the whitespace at its two ends.
pub open spec fn trimmed(text: Seq<char>) -> Seq<char> {
    trimmed_end(trimmed_start(text))
}

/// A character with the upper-case letters of ASCII made lower-case.
pub open spec fn ascii_lower(c: char) -> char {
    if 'A' <= c <= 'Z' {
        ((c as u8 + 32) as u8) as char
    } else {
        c
    }
}

/// A text with the upper-case letters of ASCII made lower-case.
pub open spec fn lowered(text: Seq<char>) -> Seq<char> {
    text.map_values(|c: char| ascii_lower(c))
}

/// Calls `str::trim`, which gives the text without the whitespace at its
/// start and its end, whitespace being the characters with the Unicode
/// property `White_Space`.
#[verifier::external_body]
fn trim(text: &str) -> (res: &str)
    ensures
        res@ == trimmed(text@),
{
    text.trim()
}

/// Calls `str::to_ascii_lowercase`, which maps the letters `A` to `Z` to
/// `a` to `z` and leaves every other character as it is.
#[verifier::external_body]
fn to_ascii_lowercase(text: &str) -> (res: String)
    ensures
        res@ == lowered(text@),
{
    text.to_ascii_lowercase()
}

/// The text for a name that no library has.
pub open spec fn unknown_text(given: Seq<char>) -> Seq<char> {
    "Unknown builtin library '"@ + given + "'"@
}

impl LuneBuiltin {
    /// The name of the library.
    pub fn name(&self) -> (name: &'static str)
        ensures
            name@ == name_text(*self),
    {
        match self {
            LuneBuiltin::DateTime => "datetime",
            LuneBuiltin::Fs => "fs",
            LuneBuiltin::Luau => "luau",
            LuneBuiltin::Net => "net",
            LuneBuiltin::Task => "task",
            LuneBuiltin::Process => "process",
            LuneBuiltin::Serde => "serde",
            LuneBuiltin::Stdio => "stdio",
            LuneBuiltin::Window => "window",
        }
    }

    /// The text that says which library could not be made.
    pub fn creation_failure(&self) -> (text: String)
        ensures
            text@ == "Failed to create builtin library '"@ + name_text(*self) + "'"@,
    {
        let mut text = "Failed to create builtin library '".to_owned();
        text.append(self.name());
        text.append("'");
        text
    }

    /// The library whose name is exactly `name`, or the error that names
    /// what was `given`.
    pub fn from_name(name: &str, given: &str) -> (res: Result<LuneBuiltin, String>)
        ensures
            match builtin_named(name@) {
                Some(builtin) => res == Ok::<LuneBuiltin, String>(builtin),
                None => res is Err && res->Err_0@ == unknown_text(given@),
            },
    {
        if same_text(name, "datetime") {
            Ok(LuneBuiltin::DateTime)
        } else if same_text(name, "fs") {
            Ok(LuneBuiltin::Fs)
        } else if same_text(name, "luau") {
            Ok(LuneBuiltin::Luau)
        } else if same_text(name, "net") {
            Ok(LuneBuiltin::Net)
        } else if same_text(name, "task") {
            Ok(LuneBuiltin::Task)
        } else if same_text(name, "process") {
            Ok(LuneBuiltin::Process)
        } else if same_text(name, "serde") {
            Ok(LuneBuiltin::Serde)
        } else if same_text(name, "stdio") {
            Ok(LuneBuiltin::Stdio)
        } else if same_text(name, "window") {
            Ok(LuneBuiltin::Window)
        } else {
            let mut text = "Unknown builtin library '".to_owned();
            text.append(given);
            text.append("'");
            Err(text)
        }
    }

    /// The library that a text names, whatever the case of its letters and
    /// whatever whitespace stands around it.
    pub fn from_str(s: &str) -> (res: Result<LuneBuiltin, String>)
        ensures
            match builtin_named(lowered(trimmed(s@))) {
                Some(builtin) => res == Ok::<LuneBuiltin, String>(builtin),
                None => res is Err && res->Err_0@ == unknown_text(s@),
            },
    {
        let name = to_ascii_lowercase(trim(s));
        LuneBuiltin::from_name(name.as_str(), s)
    }
}

impl core::str::FromStr for LuneBuiltin {
    type Err = String;

    fn from_str(s: &str) -> (res: Result<Self, String>)
        ensures
            match builtin_named(lowered(trimmed(s@))) {
                Some(builtin) => res == Ok::<LuneBuiltin, String>(builtin),
                None => res is Err && res->Err_0@ == unknown_text(s@),
            },
    {
        LuneBuiltin::from_str(s)
    }
}

/// The name of every library is the name of that library and of no other.
pub proof fn lemma_names_distinct(a: LuneBuiltin, b: LuneBuiltin)
    ensures
        name_text(a) == name_text(b) <==> a == b,
        builtin_named(name_text(a)) == Some(a),
{
    reveal_strlit("datetime");
    reveal_strlit("fs");
    reveal_strlit("luau");
    reveal_strlit("net");
    reveal_strlit("task");
    reveal_strlit("process");
    reveal_strlit("serde");
    reveal_strlit("stdio");
    reveal_strlit("window");
    assert("datetime"@.len() == 8);
    assert("fs"@.len() == 2);
    assert("luau"@.len() == 4);
    assert("net"@.len() == 3);
    assert("task"@.len() == 4);
    assert("process"@.len() == 7);
    assert("serde"@.len() == 5);
    assert("stdio"@.len() == 5);
    assert("window"@.len() == 6);
    assert("luau"@[0] == 'l' && "task"@[0] == 't');
    assert("serde"@[1] == 'e' && "stdio"@[1] == 't');
}

/// A text of lower-case letters, at least one, is what trimming and
/// lowering it gives.
pub proof fn lemma_plain_text_unchanged(text: Seq<char>)
    requires
        text.len() > 0,
        forall|i: int| 0 <= i < text.len() ==> 'a' <= #[trigger] text[i] <= 'z',
    ensures
        trimmed(text) == text,
        lowered(text) == text,
{
    assert(!is_white_space(text[0]));
    assert(!is_white_space(text.last()));
    assert(lowered(text) =~= text);
}

/// Every library is found by its own name: reading the name of a library
/// as a text gives that library.
pub proof fn lemma_name_parses(builtin: LuneBuiltin)
    ensures
        builtin_named(lowered(trimmed(name_text(builtin)))) == Some(builtin),
{
    reveal_strlit("datetime");
    reveal_strlit("fs");
    reveal_strlit("luau");
    reveal_strlit("net");
    reveal_strlit("task");
    reveal_strlit("process");
    reveal_strlit("serde");
    reveal_strlit("stdio");
    reveal_strlit("window");
    assert("datetime"@.len() == 8 && "datetime"@[0] == 'd' && "datetime"@[1] == 'a' && "datetime"@[2] == 't' && "datetime"@[3] == 'e' && "datetime"@[4] == 't' && "datetime"@[5] == 'i' && "datetime"@[6] == 'm' && "datetime"@[7] == 'e');
    assert("fs"@.len() == 2 && "fs"@[0] == 'f' && "fs"@[1] == 's');
    assert("luau"@.len() == 4 && "luau"@[0] == 'l' && "luau"@[1] == 'u' && "luau"@[2] == 'a' && "luau"@[3] == 'u');
    assert("net"@.len() == 3 && "net"@[0] == 'n' && "net"@[1] == 'e' && "net"@[2] == 't');
    assert("task"@.len() == 4 && "task"@[0] == 't' && "task"@[1] == 'a' && "task"@[2] == 's' && "task"@[3] == 'k');
    assert("process"@.len() == 7 && "process"@[0] == 'p' && "process"@[1] == 'r' && "process"@[2] == 'o' && "process"@[3] == 'c' && "process"@[4] == 'e' && "process"@[5] == 's' && "process"@[6] == 's');
    assert("serde"@.len() == 5 && "serde"@[0] == 's' && "serde"@[1] == 'e' && "serde"@[2] == 'r' && "serde"@[3] == 'd' && "serde"@[4] == 'e');
    assert("stdio"@.len() == 5 && "stdio"@[0] == 's' && "stdio"@[1] == 't' && "stdio"@[2] == 'd' && "stdio"@[3] == 'i' && "stdio"@[4] == 'o');
    assert("window"@.len() == 6 && "window"@[0] == 'w' && "window"@[1] == 'i' && "window"@[2] == 'n' && "window"@[3] == 'd' && "window"@[4] == 'o' && "window"@[5] == 'w');
    lemma_plain_text_unchanged(name_text(builtin));
    lemma_names_distinct(builtin, builtin);
}

} // verus!

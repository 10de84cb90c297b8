//! The script that a webview page runs before anything else: the host's
//! own script library, followed by what the embedding script adds.

use vstd::prelude::*;
use vstd::string::StringExecFns;

verus! {

/// The script library that every webview page gets. It posts the page's
/// own messages and its mouse and keyboard input to the host.
pub const JAVASCRIPT_API: &'static str = r#"
let __LUNE__ = {}

__LUNE__.postMessage = (message) => {
    let stringified = JSON.stringify(message)
    window.ipc.postMessage(stringified)
}

__LUNE__.postInternalMessage = (message) => {
    message.__internal = true
    __LUNE__.postMessage(message)
}

window.addEventListener("mousemove", (event) => {
    let message = {
        position: {
            x: event.clientX,
            y: event.clientY,
        }
    }
    __LUNE__.postInternalMessage(message)
})

window.addEventListener("mousedown", () => {
    let message = {
        mousebutton: "left",
        pressed: true,
    }
    __LUNE__.postInternalMessage(message)
})

window.addEventListener("mouseup", () => {
    let message = {
        mousebutton: "left",
        pressed: false,
    }
    __LUNE__.postInternalMessage(message)
})

window.addEventListener("keydown", (event) => {
    let message = {
        keycode: event.key,
        pressed: true,
    }
    __LUNE__.postInternalMessage(message)
})

window.addEventListener("keyup", (event) => {
    let message = {
        keycode: event.key,
        pressed: false,
    }
    __LUNE__.postInternalMessage(message)
})

window.lune = __LUNE__
window.luneweb = window.lune
"#;

/// A script under construction: statements, each closed by a semicolon.
pub struct LuaWebViewScript {
    raw: String,
}

impl View for LuaWebViewScript {
    type V = Seq<char>;

    /// The text written so far.
    closed spec fn view(&self) -> Seq<char> {
        self.raw@
    }
}

/// A text with one more statement behind it.
pub open spec fn with_statement(script: Seq<char>, statement: Seq<char>) -> Seq<char> {
    script + statement + ";"@
}

impl LuaWebViewScript {
    /// An empty script.
    pub fn new() -> (script: Self)
        ensures
            script@ == Seq::<char>::empty(),
    {
        LuaWebViewScript { raw: String::new() }
    }

    /// The text of the script.
    pub fn read(self) -> (text: String)
        ensures
            text@ == self@,
    {
        self.raw
    }

    /// Adds a statement and closes it with a semicolon.
    pub fn write(&mut self, string: &str)
        ensures
            final(self)@ == with_statement(old(self)@, string@),
    {
        self.raw.append(string);
        self.raw.append(";");
    }

    /// Adds the statement if there is one, and an empty statement if not.
    pub fn extract_from_option(&mut self, option: Option<String>)
        ensures
            final(self)@ == with_statement(
                old(self)@,
                match option {
                    Some(statement) => statement@,
                    None => Seq::<char>::empty(),
                },
            ),
    {
        match option {
            Some(statement) => {
                self.raw.append(statement.as_str());
            },
            None => {
                assert(self@ + Seq::<char>::empty() =~= self@);
            },
        }
        self.raw.append(";");
    }
}

/// The script that a new webview page starts with: the host's library and
/// then the script that the configuration names, if it names one.
pub fn init_script(custom: Option<String>) -> (text: String)
    ensures
        text@ == with_statement(
            with_statement(Seq::<char>::empty(), JAVASCRIPT_API@),
            match custom {
                Some(statement) => statement@,
                None => Seq::<char>::empty(),
            },
        ),
{
    let mut script = LuaWebViewScript::new();
    script.write(JAVASCRIPT_API);
    script.extract_from_option(custom);
    script.read()
}

} // verus!

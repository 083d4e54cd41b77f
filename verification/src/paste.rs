//! "Paste kubeconfig YAML": the exec plugins in pasted YAML are listed and have to be trusted
//! first: once added, they run when you connect.

use crate::text::{self, cat, trim};
use vstd::prelude::*;

verus! {

/// A command that a kubeconfig runs.
#[derive(Debug)]
pub struct ExecCommand {
    /// The command line.
    pub command: String,
    pub env: Vec<String>,
    pub users: Vec<String>,
}

/// A command as a mathematical value.
pub struct CommandView {
    pub command: Seq<char>,
    pub env: Seq<Seq<char>>,
    pub users: Seq<Seq<char>>,
}

impl View for ExecCommand {
    type V = CommandView;

    open spec fn view(&self) -> CommandView {
        CommandView {
            command: self.command@,
            env: text::texts(self.env@),
            users: text::texts(self.users@),
        }
    }
}

pub open spec fn commands_view(v: Seq<ExecCommand>) -> Seq<CommandView> {
    Seq::new(v.len(), |i: int| v[i]@)
}

/// The paste dialog.
#[derive(Debug)]
pub struct Paste {
    pub error: Option<String>,
    pub saving: bool,
    /// The exec plugins in the YAML; they need `trusted`.
    pub commands: Vec<ExecCommand>,
    pub trusted: bool,
}

fn same_commands(a: &Vec<ExecCommand>, b: &Vec<ExecCommand>) -> (r: bool)
    ensures
        r == (commands_view(a@) == commands_view(b@)),
{
    let ghost x = commands_view(a@);
    let ghost y = commands_view(b@);
    if a.len() != b.len() {
        assert(x.len() != y.len());
        return false;
    }
    let mut i: usize = 0;
    while i < a.len()
        invariant
            i <= a@.len() == b@.len(),
            x == commands_view(a@),
            y == commands_view(b@),
            forall|j: int| 0 <= j < i ==> #[trigger] x[j] == y[j],
        decreases a@.len() - i,
    {
        assert(x[i as int] == a@[i as int]@);
        assert(y[i as int] == b@[i as int]@);
        if !text::same(a[i].command.as_str(), b[i].command.as_str()) || !text::same_texts(
            &a[i].env,
            &b[i].env,
        ) || !text::same_texts(&a[i].users, &b[i].users) {
            assert(x[i as int] != y[i as int]);
            return false;
        }
        i += 1;
    }
    assert(x =~= y);
    true
}

/// What happens when the user adds the kubeconfig.
#[derive(Debug)]
pub enum PasteStep {
    /// Not before the commands are trusted.
    Refused,
    /// It's saved under this name.
    Save(String),
}

/// The name of a pasted kubeconfig: the one that was typed, else its first context's.
pub open spec fn paste_name(typed: Seq<char>, contexts: Seq<Seq<char>>) -> Seq<char> {
    if text::trimmed(typed).len() > 0 {
        text::trimmed(typed)
    } else if contexts.len() > 0 {
        contexts[0]
    } else {
        "kubeconfig"@
    }
}

impl Paste {
    pub fn new() -> (r: Paste)
        ensures
            r.error is None,
            !r.saving,
            r.commands@.len() == 0,
            !r.trusted,
    {
        Paste { error: None, saving: false, commands: Vec::new(), trusted: false }
    }

    /// The YAML changed; `commands` are those in it. Other commands have to be trusted anew.
    pub fn changed(&mut self, commands: Vec<ExecCommand>)
        ensures
            if commands_view(commands@) == commands_view(old(self).commands@) {
                *final(self) == *old(self)
            } else {
                *final(self) == (Paste { commands, trusted: false, ..*old(self) })
            },
    {
        if !same_commands(&commands, &self.commands) {
            self.commands = commands;
            self.trusted = false;
        }
    }

    /// "Add kubeconfig" was pressed. `runs`: how many commands the YAML holds now; `contexts`:
    /// the names of its contexts (none if it isn't valid).
    pub fn save(&mut self, runs: usize, typed: &str, contexts: &Vec<String>) -> (r: PasteStep)
        ensures
            if runs > 0 && !old(self).trusted {
                r is Refused && text::text_of(final(self).error) == Some(
                    "Check the commands first."@,
                ) && *final(self) == (Paste { error: final(self).error, ..*old(self) })
            } else {
                r is Save && r->Save_0@ == paste_name(typed@, text::texts(contexts@))
                    && *final(self) == (Paste { saving: true, error: None, ..*old(self) })
            },
    {
        if runs > 0 && !self.trusted {
            self.error = Some("Check the commands first.".to_string());
            return PasteStep::Refused;
        }
        let typed: String = trim(typed);
        assert(text::texts(contexts@).len() == contexts@.len());
        let name: String = if !typed.as_str().is_empty() {
            typed
        } else if contexts.len() > 0 {
            assert(text::texts(contexts@)[0] == contexts@[0]@);
            contexts[0].clone()
        } else {
            "kubeconfig".to_string()
        };
        self.saving = true;
        self.error = None;
        PasteStep::Save(name)
    }

    /// The save ended: what is said, with the path as it is shown, or the error.
    pub fn finish(&mut self, result: Result<String, String>) -> (r: Option<String>)
        ensures
            match result {
                Ok(path) => text::text_of(r) == Some("Saved to "@ + path@) && *final(self) == (
                Paste { saving: false, ..*old(self) }),
                Err(e) => r is None && *final(self) == (Paste {
                    saving: false,
                    error: Some(e),
                    ..*old(self)
                }),
            },
    {
        self.saving = false;
        match result {
            Ok(path) => Some(cat("Saved to ", path.as_str())),
            Err(e) => {
                self.error = Some(e);
                None
            },
        }
    }

    /// The button's label, and whether it can be pressed.
    pub fn button(&self) -> (r: (&'static str, bool))
        ensures
            r.0@ == if self.saving {
                "Saving…"@
            } else {
                "Add kubeconfig"@
            },
            r.1 == (!self.saving && (self.commands@.len() == 0 || self.trusted)),
    {
        (
            if self.saving {
                "Saving…"
            } else {
                "Add kubeconfig"
            },
            !self.saving && (self.commands.len() == 0 || self.trusted),
        )
    }
}

/// What is shown of a command: its environment, if it has one, and the users that run it.
pub fn command_lines(c: &ExecCommand) -> (r: (Option<String>, String))
    ensures
        text::text_of(r.0) == if c.env@.len() == 0 {
            None
        } else {
            Some("env: "@ + text::joined(text::texts(c.env@), " "@))
        },
        r.1@ == "for "@ + text::joined(text::texts(c.users@), ", "@),
{
    (
        if c.env.len() == 0 {
            None
        } else {
            Some(cat("env: ", text::join(&c.env, " ").as_str()))
        },
        cat("for ", text::join(&c.users, ", ").as_str()),
    )
}

/// What an exec plugin's prompt shows: its title, and its output or that there is none yet.
pub fn prompt(command: &str, context: &str, output: &str) -> (r: (String, String))
    ensures
        r.0@ == command@ + " needs input ("@ + context@ + ")"@,
        r.1@ == if output@.len() == 0 {
            "Waiting for output…"@
        } else {
            output@
        },
{
    (
        text::cat4(command, " needs input (", context, ")"),
        if output.is_empty() {
            "Waiting for output…".to_string()
        } else {
            output.to_string()
        },
    )
}

} // verus!

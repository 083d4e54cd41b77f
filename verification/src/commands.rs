//! Where a command of a kubeconfig is looked for.

use crate::locations;
use crate::text::{self, cat, cat3};
use vstd::prelude::*;

verus! {

/// The places of a command in a folder: under its name, and behind that under its name with each
/// of the endings.
pub open spec fn in_folder(dir: Seq<char>, command: Seq<char>, endings: Seq<Seq<char>>) -> Seq<
    Seq<char>,
> {
    seq![locations::resolved(dir, command)] + endings.map_values(
        |e: Seq<char>| locations::resolved(dir, command + "."@ + e),
    )
}

/// The places of a command in folders, in their order.
pub open spec fn in_folders(
    dirs: Seq<Seq<char>>,
    command: Seq<char>,
    endings: Seq<Seq<char>>,
) -> Seq<Seq<char>>
    decreases dirs.len(),
{
    if dirs.len() == 0 {
        seq![]
    } else {
        in_folders(dirs.drop_last(), command, endings) + in_folder(dirs.last(), command, endings)
    }
}

/// The places where a command is looked for, the first one that is a file counts: a path
/// (relative ones against `dir`) is its own place; a name is looked for in the folders of `path`,
/// and nowhere without them.
pub open spec fn places_of(
    command: Seq<char>,
    dir: Option<Seq<char>>,
    separator: char,
    path: Option<Seq<Seq<char>>>,
    endings: Seq<Seq<char>>,
) -> Seq<Seq<char>> {
    if command.contains('/') || command.contains(separator) {
        seq![
            match dir {
                Some(dir) => locations::resolved(dir, command),
                None => command,
            },
        ]
    } else {
        match path {
            Some(dirs) => in_folders(dirs, command, endings),
            None => seq![],
        }
    }
}

/// Adds the places of a command in a folder.
fn push_folder(out: &mut Vec<String>, dir: &str, command: &str, endings: &Vec<String>)
    ensures
        text::texts(final(out)@) == text::texts(old(out)@) + in_folder(
            dir@,
            command@,
            text::texts(endings@),
        ),
{
    broadcast use text::texts_push;

    let ghost before = text::texts(out@);
    let ghost more = in_folder(dir@, command@, text::texts(endings@));
    out.push(locations::resolve(dir, command));
    assert(more.take(1) =~= seq![locations::resolved(dir@, command@)]);
    assert(text::texts(out@) =~= before + more.take(1));
    let mut i: usize = 0;
    while i < endings.len()
        invariant
            i <= endings@.len(),
            more == in_folder(dir@, command@, text::texts(endings@)),
            text::texts(out@) == before + more.take(i + 1),
        decreases endings@.len() - i,
    {
        broadcast use text::texts_push;

        let name: String = cat3(command, ".", endings[i].as_str());
        assert(more[i + 1] == locations::resolved(dir@, name@));
        out.push(locations::resolve(dir, name.as_str()));
        assert(more.take(i + 2) =~= more.take(i + 1).push(more[i + 1]));
        assert(text::texts(out@) =~= before + more.take(i + 2));
        i += 1;
    }
    assert(more.take(i + 1) =~= more);
}

/// The places where a command is looked for, in order: the command is found at the first one
/// that is a file. `separator` is the system's between the parts of a path, `path` are the
/// folders of the login shell's `PATH`, and `endings` those that the system lets one leave out.
pub fn places(
    command: &str,
    dir: Option<&str>,
    separator: char,
    path: Option<&Vec<String>>,
    endings: &Vec<String>,
) -> (r: Vec<String>)
    ensures
        text::texts(r@) == places_of(
            command@,
            match dir {
                Some(d) => Some(d@),
                None => None,
            },
            separator,
            match path {
                Some(p) => Some(text::texts(p@)),
                None => None,
            },
            text::texts(endings@),
        ),
{
    let mut out: Vec<String> = Vec::new();
    assert(text::texts(out@) =~= Seq::empty());
    if text::contains_char(command, '/') || text::contains_char(command, separator) {
        out.push(
            match dir {
                Some(dir) => locations::resolve(dir, command),
                None => command.to_string(),
            },
        );
        assert(text::texts(out@) =~= seq![out@[0]@]);
        return out;
    }
    if let Some(dirs) = path {
        let ghost all = text::texts(dirs@);
        let mut i: usize = 0;
        assert(all.take(0) =~= Seq::empty());
        while i < dirs.len()
            invariant
                i <= dirs@.len(),
                all == text::texts(dirs@),
                text::texts(out@) == in_folders(
                    all.take(i as int),
                    command@,
                    text::texts(endings@),
                ),
            decreases dirs@.len() - i,
        {
            assert(all.take(i + 1).drop_last() =~= all.take(i as int));
            assert(all.take(i + 1).last() == dirs@[i as int]@);
            push_folder(&mut out, dirs[i].as_str(), command, endings);
            i += 1;
        }
        assert(all.take(i as int) =~= all);
    }
    out
}

// ----- The prompt of an interactive plugin -----

/// A prompt for exec plugins with `interactiveMode: Always`: it shows their output and sends
/// typed lines to them.
#[derive(Debug)]
pub struct ExecPrompt {
    pub context: String,
    pub command: String,
    /// What the plugin has written so far.
    pub output: String,
}

impl ExecPrompt {
    /// A prompt for a plugin that hasn't written anything.
    pub fn new(context: &str, command: &str) -> (r: ExecPrompt)
        ensures
            r.context@ == context@,
            r.command@ == command@,
            r.output@.len() == 0,
    {
        ExecPrompt {
            context: context.to_string(),
            command: command.to_string(),
            output: String::new(),
        }
    }

    pub fn title(&self) -> (r: String)
        ensures
            r@ == self.command@ + " needs input ("@ + self.context@ + ")"@,
    {
        text::cat4(self.command.as_str(), " needs input (", self.context.as_str(), ")")
    }

    /// Takes more of the plugin's output.
    pub fn write(&mut self, chunk: &str)
        ensures
            final(self).output@ == old(self).output@ + chunk@,
            final(self).context@ == old(self).context@,
            final(self).command@ == old(self).command@,
    {
        self.output = cat(self.output.as_str(), chunk);
    }

    /// The output, or that there is none yet.
    pub fn shown(&self) -> (r: String)
        ensures
            r@ == if self.output@.len() == 0 {
                "Waiting for output…"@
            } else {
                self.output@
            },
    {
        if self.output.as_str().is_empty() {
            "Waiting for output…".to_string()
        } else {
            self.output.clone()
        }
    }
}

} // verus!

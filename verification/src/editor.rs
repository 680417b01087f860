//! Handing the terminal over to an editor.

use vstd::prelude::*;

use crate::text::views;

verus! {

/// The editor that is opened where the user has not chosen one.
pub const DEFAULT_EDITOR: &'static str = "vim";

/// How many pending key presses are dropped at most before the editor takes over,
/// and after it has left.
pub const MAX_DRAIN_EVENTS: usize = 4096;

/// The words of a shell command line; nothing where its quotes do not match.
pub uninterp spec fn shell_words_of(text: Seq<char>) -> Option<Seq<Seq<char>>>;

/// `shell_words::split` takes a command line apart as a Unix shell does. Its words
/// depend on the text alone. It fails where a quote is not closed.
#[verifier::external_body]
fn split_words(text: &str) -> (r: Option<Vec<String>>)
    ensures
        match r {
            Some(words) => shell_words_of(text@) == Some(views(words@)),
            None => shell_words_of(text@) is None,
        },
{
    shell_words::split(text).ok()
}

/// A program to be run, with its arguments.
#[derive(Debug)]
pub struct Command {
    pub program: String,
    pub args: Vec<String>,
}

/// What a [`Command`] holds.
pub struct CommandModel {
    pub program: Seq<char>,
    pub args: Seq<Seq<char>>,
}

impl View for Command {
    type V = CommandModel;

    open spec fn view(&self) -> CommandModel {
        CommandModel { program: self.program@, args: views(self.args@) }
    }
}

/// The words that `editor` stands for: those that the shell sees in it, or itself
/// where it is no proper command line.
pub open spec fn editor_words(editor: Seq<char>, words: Option<Seq<Seq<char>>>) -> Seq<Seq<char>> {
    match words {
        Some(list) => list,
        None => seq![editor],
    }
}

/// The command that opens `source` in `editor`, which stands for these words. There
/// is none where there are no words.
pub open spec fn command_for(
    editor: Seq<char>,
    words: Option<Seq<Seq<char>>>,
    source: Seq<char>,
) -> Option<CommandModel> {
    let parts = editor_words(editor, words);
    if parts.len() == 0 {
        None
    } else {
        Some(CommandModel { program: parts[0], args: parts.skip(1).push(source) })
    }
}

/// What optional words hold.
pub open spec fn words_view(words: Option<Vec<String>>) -> Option<Seq<Seq<char>>> {
    match words {
        Some(list) => Some(views(list@)),
        None => None,
    }
}

/// Makes the command that opens `source` in `editor`, which stands for `words`.
pub fn command_from(editor: &str, words: Option<Vec<String>>, source: &str) -> (r: Option<Command>)
    ensures
        match r {
            Some(command) => command_for(editor@, words_view(words), source@) == Some(command@),
            None => command_for(editor@, words_view(words), source@) is None,
        },
{
    let ghost all = editor_words(editor@, words_view(words));
    let mut parts: Vec<String> = match words {
        Some(list) => list,
        None => {
            let mut only: Vec<String> = Vec::new();
            only.push(editor.to_owned());
            assert(views(only@) =~= seq![editor@]);
            only
        },
    };
    assert(views(parts@) == all);
    if parts.len() == 0 {
        return None;
    }
    let program: String = parts.remove(0);
    parts.push(source.to_owned());
    let command: Command = Command { program, args: parts };
    assert(program@ == all[0]);
    assert(command@.args =~= all.skip(1).push(source@));
    Some(command)
}

/// The command that opens `source` in the user's editor. There is none where
/// `editor` has no words in it.
pub fn editor_command(editor: &str, source: &str) -> (r: Option<Command>)
    ensures
        match r {
            Some(command) => command_for(editor@, shell_words_of(editor@), source@) == Some(
                command@,
            ),
            None => command_for(editor@, shell_words_of(editor@), source@) is None,
        },
{
    let words: Option<Vec<String>> = split_words(editor);
    command_from(editor, words, source)
}

/// The editor to be opened: the one that is set, or the usual one.
pub fn chosen_editor(set: Option<String>) -> (r: String)
    ensures
        r@ == (match set {
            Some(editor) => editor@,
            None => DEFAULT_EDITOR@,
        }),
{
    match set {
        Some(editor) => editor,
        None => DEFAULT_EDITOR.to_owned(),
    }
}

/// The file that is edited comes last, after what the editor itself is called with.
pub proof fn law_source_comes_last(
    editor: Seq<char>,
    words: Option<Seq<Seq<char>>>,
    source: Seq<char>,
)
    ensures
        command_for(editor, words, source) matches Some(command) ==> {
            &&& command.args.last() == source
            &&& seq![command.program] + command.args.drop_last() == editor_words(editor, words)
        },
{
    if let Some(command) = command_for(editor, words, source) {
        let parts = editor_words(editor, words);
        assert(command.args.drop_last() =~= parts.skip(1));
        assert(seq![command.program] + command.args.drop_last() =~= parts);
    }
}

/// What a look at the pending input found.
#[derive(Clone, Copy, Debug, PartialEq, Eq, Structural)]
pub enum Pending {
    /// An event, which was read and dropped.
    Dropped,
    /// An event that could not be read.
    Unreadable,
    /// No event, or no terminal.
    Nothing,
}

/// How many more events are dropped after a look that found this.
pub open spec fn left_to_drop(left: nat, found: Pending) -> nat {
    match found {
        Pending::Dropped => if left > 0 {
            (left - 1) as nat
        } else {
            0
        },
        _ => 0,
    }
}

/// A pass over the pending input that drops it, up to a limit.
#[derive(Debug)]
pub struct Drain {
    /// How many more events may be dropped.
    pub left: usize,
}

impl Drain {
    /// A pass that has not begun yet.
    pub fn new() -> (r: Drain)
        ensures
            r.left == MAX_DRAIN_EVENTS,
    {
        Drain { left: MAX_DRAIN_EVENTS }
    }

    /// Whether to look for another event.
    pub fn goes_on(&self) -> (r: bool)
        ensures
            r == (self.left > 0),
    {
        self.left > 0
    }

    /// Takes in what a look found.
    pub fn note(&mut self, found: Pending)
        ensures
            final(self).left == left_to_drop(old(self).left as nat, found),
    {
        self.left = match found {
            Pending::Dropped => self.left.saturating_sub(1),
            _ => 0,
        };
    }
}

/// How many more events are dropped after these looks.
pub open spec fn left_after(looks: Seq<Pending>) -> nat
    decreases looks.len(),
{
    if looks.len() == 0 {
        MAX_DRAIN_EVENTS as nat
    } else {
        left_to_drop(left_after(looks.drop_last()), looks.last())
    }
}

/// A terminal that never stops sending cannot keep a pass going: it ends at the
/// latest when the limit is reached.
pub proof fn law_drain_ends(looks: Seq<Pending>)
    ensures
        left_after(looks) <= MAX_DRAIN_EVENTS,
        looks.len() >= MAX_DRAIN_EVENTS ==> left_after(looks) == 0,
        looks.len() < MAX_DRAIN_EVENTS ==> left_after(looks) <= MAX_DRAIN_EVENTS - looks.len(),
    decreases looks.len(),
{
    if looks.len() > 0 {
        law_drain_ends(looks.drop_last());
    }
}

/// The first word of the editor's command line is the program, the others come before
/// the file; an editor that is no proper command line is a program as a whole. Without a
/// word there is no command.
pub proof fn law_words_of_the_command(
    editor: Seq<char>,
    words: Seq<Seq<char>>,
    source: Seq<char>,
)
    ensures
        words.len() == 0 ==> command_for(editor, Some(words), source) is None,
        words.len() > 0 ==> {
            let command = command_for(editor, Some(words), source)->Some_0;
            &&& command_for(editor, Some(words), source) is Some
            &&& command.program == words[0]
            &&& command.args.len() == words.len()
            &&& forall|i: int|
                0 <= i < words.len() - 1 ==> #[trigger] command.args[i] == words[i + 1]
            &&& command.args[words.len() - 1] == source
        },
        ({
            let command = command_for(editor, None, source)->Some_0;
            &&& command_for(editor, None, source) is Some
            &&& command.program == editor
            &&& command.args.len() == 1
            &&& command.args[0] == source
        }),
{
}

/// An editor that is not chosen is `vim`, and four thousand and ninety-six events are
/// dropped at most: one for each that was found, and none any more once there is no
/// other or it cannot be read.
pub proof fn law_limits_of_a_pass(left: nat)
    ensures
        DEFAULT_EDITOR@ == "vim"@,
        left_after(Seq::empty()) == 4096,
        left > 0 ==> left_to_drop(left, Pending::Dropped) == left - 1,
        left == 0 ==> left_to_drop(left, Pending::Dropped) == 0,
        left_to_drop(left, Pending::Unreadable) == 0,
        left_to_drop(left, Pending::Nothing) == 0,
{
}

} // verus!

//! The commands that an operator types on the agent's own console.

use crate::text::{blank, blank_text_has_no_words, first_word_is_whole, is_white, opt_text, same_text, solid, split_words, trimmed, white_space_is_no_word, words_of, words_of_trimmed};
use vstd::prelude::*;

verus! {

/// A command from the console.
#[derive(Debug)]
pub enum ConsoleCommand {
    /// No word at all.
    Nothing,
    /// `set-id`, and the identifier where one is given.
    SetId(Option<String>),
    /// `set-url`, and the address where one is given.
    SetUrl(Option<String>),
    Status,
    Help,
    /// Some other word.
    Unknown(String),
}

/// A command from the console, by its texts.
pub enum CommandTexts {
    Nothing,
    SetId(Option<Seq<char>>),
    SetUrl(Option<Seq<char>>),
    Status,
    Help,
    Unknown(Seq<char>),
}

impl View for ConsoleCommand {
    type V = CommandTexts;

    open spec fn view(&self) -> CommandTexts {
        match self {
            ConsoleCommand::Nothing => CommandTexts::Nothing,
            ConsoleCommand::SetId(id) => CommandTexts::SetId(opt_text(*id)),
            ConsoleCommand::SetUrl(url) => CommandTexts::SetUrl(opt_text(*url)),
            ConsoleCommand::Status => CommandTexts::Status,
            ConsoleCommand::Help => CommandTexts::Help,
            ConsoleCommand::Unknown(word) => CommandTexts::Unknown(word@),
        }
    }
}

/// The second word, where there is one.
pub open spec fn second(words: Seq<Seq<char>>) -> Option<Seq<char>> {
    if words.len() > 1 {
        Some(words[1])
    } else {
        None
    }
}

/// The command that a line holds: its first word says which, its second is the argument, and the
/// rest is passed over.
pub open spec fn command_in(line: Seq<char>) -> CommandTexts {
    let words = words_of(line);
    if words.len() == 0 {
        CommandTexts::Nothing
    } else if words[0] == "set-id"@ {
        CommandTexts::SetId(second(words))
    } else if words[0] == "set-url"@ {
        CommandTexts::SetUrl(second(words))
    } else if words[0] == "status"@ {
        CommandTexts::Status
    } else if words[0] == "help"@ {
        CommandTexts::Help
    } else {
        CommandTexts::Unknown(words[0])
    }
}

/// Reads a line from the console.
pub fn parse_command(line: &str) -> (r: ConsoleCommand)
    ensures
        r@ == command_in(line@),
{
    let words: Vec<String> = split_words(line);
    let ghost all = words_of(line@);
    assert(all.len() == words@.len());
    if words.len() == 0 {
        return ConsoleCommand::Nothing;
    }
    assert(all[0] == words@[0]@);
    let argument: Option<String> = if words.len() > 1 {
        assert(all[1] == words@[1]@);
        Some(words[1].clone())
    } else {
        None
    };
    if same_text(words[0].as_str(), "set-id") {
        ConsoleCommand::SetId(argument)
    } else if same_text(words[0].as_str(), "set-url") {
        ConsoleCommand::SetUrl(argument)
    } else if same_text(words[0].as_str(), "status") {
        ConsoleCommand::Status
    } else if same_text(words[0].as_str(), "help") {
        ConsoleCommand::Help
    } else {
        ConsoleCommand::Unknown(words[0].clone())
    }
}

/// White space around a line does not change the command it holds.
pub proof fn command_survives_trimming(line: Seq<char>)
    ensures
        command_in(trimmed(line)) == command_in(line),
{
    words_of_trimmed(line);
}

/// A line that is blank holds no command, and every other one does.
pub proof fn blank_line_holds_no_command(line: Seq<char>)
    ensures
        command_in(line) is Nothing <==> trimmed(line).len() == 0,
{
    blank_text_has_no_words(line);
}

/// A line that begins, perhaps behind white space, with a word and then ends or goes on with white
/// space is a command of that name. The argument of a command that takes one is the whole word that
/// follows; what follows that is passed over.
pub proof fn typed_command_is_read(
    w1: Seq<char>,
    name: Seq<char>,
    w2: Seq<char>,
    argument: Seq<char>,
    rest: Seq<char>,
)
    requires
        blank(w1),
        solid(name) && name.len() > 0,
        blank(w2) && w2.len() > 0,
        solid(argument) && argument.len() > 0,
        rest.len() > 0 ==> is_white(rest[0]),
    ensures
        command_in(w1 + name + (w2 + argument + rest)) == (if name == "set-id"@ {
            CommandTexts::SetId(Some(argument))
        } else if name == "set-url"@ {
            CommandTexts::SetUrl(Some(argument))
        } else if name == "status"@ {
            CommandTexts::Status
        } else if name == "help"@ {
            CommandTexts::Help
        } else {
            CommandTexts::Unknown(name)
        }),
{
    let tail = w2 + argument + rest;
    assert(tail[0] == w2[0]);
    assert(is_white(w2[0]));
    first_word_is_whole(w1, name, tail);
    first_word_is_whole(w2, argument, rest);
    lemma_names_differ();
}

/// A line of one word is a command of that name without an argument.
pub proof fn typed_word_is_read(w1: Seq<char>, name: Seq<char>, w2: Seq<char>)
    requires
        blank(w1),
        solid(name) && name.len() > 0,
        blank(w2),
    ensures
        command_in(w1 + name + w2) == (if name == "set-id"@ {
            CommandTexts::SetId(None)
        } else if name == "set-url"@ {
            CommandTexts::SetUrl(None)
        } else if name == "status"@ {
            CommandTexts::Status
        } else if name == "help"@ {
            CommandTexts::Help
        } else {
            CommandTexts::Unknown(name)
        }),
{
    if w2.len() > 0 {
        assert(is_white(w2[0]));
    }
    first_word_is_whole(w1, name, w2);
    white_space_is_no_word(w2);
    lemma_names_differ();
}

proof fn lemma_names_differ()
    ensures
        "set-id"@ != "set-url"@,
        "status"@ != "set-id"@,
        "status"@ != "set-url"@,
        "help"@ != "set-id"@,
        "help"@ != "set-url"@,
        "help"@ != "status"@,
{
    reveal_strlit("set-id");
    reveal_strlit("set-url");
    reveal_strlit("status");
    reveal_strlit("help");
    assert("set-id"@[4] == 'i' && "set-url"@[4] == 'u');
    assert("status"@[1] == 't' && "set-id"@[1] == 'e' && "set-url"@[1] == 'e');
    assert("help"@[0] == 'h' && "status"@[0] == 's' && "set-id"@[0] == 's' && "set-url"@[0] == 's');
}

/// Commands are seen whole.
pub proof fn commands_are_seen_whole(s: String)
    ensures
        ConsoleCommand::SetId(Some(s))@ == CommandTexts::SetId(Some(s@)),
        ConsoleCommand::SetUrl(Some(s))@ == CommandTexts::SetUrl(Some(s@)),
        ConsoleCommand::Unknown(s)@ == CommandTexts::Unknown(s@),
        ConsoleCommand::SetId(None)@ == CommandTexts::SetId(None),
        ConsoleCommand::SetUrl(None)@ == CommandTexts::SetUrl(None),
        ConsoleCommand::Nothing@ == CommandTexts::Nothing,
        ConsoleCommand::Status@ == CommandTexts::Status,
        ConsoleCommand::Help@ == CommandTexts::Help,
{
}

} // verus!

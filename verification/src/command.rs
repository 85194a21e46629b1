//! What the bot makes of the text of a chat message.
use vstd::prelude::*;
use crate::text::{
    chars_of, equals_text, has_prefix, is_white_space, lemma_trim_ends, lemma_trim_space_prefixed, starts_with,
    string_of_range, trim, trim_bounds,
};

verus! {

/// The longest phrase, in characters, that `/new` stores and `/remove` looks for
/// (the limit that the bot's reply names: "Max length = 300 characters").
pub const MAX_MESSAGE_LEN: usize = 300;

/// A command read from the text of a message.
#[derive(Debug, PartialEq, Eq)]
pub enum Command {
    /// `/new <phrase>`: store the (trimmed) phrase.
    AddPhrase(String),
    /// `/new <phrase>` with a phrase longer than `MAX_MESSAGE_LEN` characters.
    PhraseTooLong,
    /// `/remove <phrase>`: delete the (trimmed) phrase.
    RemovePhrase(String),
    /// `/remove <phrase>` with a phrase longer than `MAX_MESSAGE_LEN` characters.
    RemoveTooLong,
    /// `/schedule <hours>`: the text after the command word, to be read by
    /// `parse_schedule_times`.
    Schedule(String),
    /// `/list`
    List,
    /// `/help`
    Help,
    /// `/random`
    Random,
    /// `/new` with nothing after it.
    NewUsage,
    /// `/clear`
    Clear,
    /// `/location`
    Location,
    /// `/reminder_test`
    ReminderTest,
    /// Anything else.
    Unknown,
}

/// `Command` with its strings taken as character sequences.
pub enum CommandView {
    AddPhrase(Seq<char>),
    PhraseTooLong,
    RemovePhrase(Seq<char>),
    RemoveTooLong,
    Schedule(Seq<char>),
    List,
    Help,
    Random,
    NewUsage,
    Clear,
    Location,
    ReminderTest,
    Unknown,
}

impl View for Command {
    type V = CommandView;

    open spec fn view(&self) -> CommandView {
        match self {
            Command::AddPhrase(p) => CommandView::AddPhrase(p@),
            Command::PhraseTooLong => CommandView::PhraseTooLong,
            Command::RemovePhrase(p) => CommandView::RemovePhrase(p@),
            Command::RemoveTooLong => CommandView::RemoveTooLong,
            Command::Schedule(a) => CommandView::Schedule(a@),
            Command::List => CommandView::List,
            Command::Help => CommandView::Help,
            Command::Random => CommandView::Random,
            Command::NewUsage => CommandView::NewUsage,
            Command::Clear => CommandView::Clear,
            Command::Location => CommandView::Location,
            Command::ReminderTest => CommandView::ReminderTest,
            Command::Unknown => CommandView::Unknown,
        }
    }
}

/// The command that a message text carries. The command words are tried in
/// this order: `/new `, `/remove `, `/schedule ` as prefixes (their argument
/// starts right after the command word, at the space), then the exact words.
pub open spec fn command_of(text: Seq<char>) -> CommandView {
    if starts_with(text, "/new "@) {
        let p = trim(text.skip(4));
        if p.len() > MAX_MESSAGE_LEN {
            CommandView::PhraseTooLong
        } else {
            CommandView::AddPhrase(p)
        }
    } else if starts_with(text, "/remove "@) {
        let p = trim(text.skip(7));
        if p.len() > MAX_MESSAGE_LEN {
            CommandView::RemoveTooLong
        } else {
            CommandView::RemovePhrase(p)
        }
    } else if starts_with(text, "/schedule "@) {
        CommandView::Schedule(text.skip(9))
    } else if text == "/list"@ {
        CommandView::List
    } else if text == "/help"@ {
        CommandView::Help
    } else if text == "/random"@ {
        CommandView::Random
    } else if text == "/new"@ {
        CommandView::NewUsage
    } else if text == "/clear"@ {
        CommandView::Clear
    } else if text == "/location"@ {
        CommandView::Location
    } else if text == "/reminder_test"@ {
        CommandView::ReminderTest
    } else {
        CommandView::Unknown
    }
}

/// The trimmed argument that starts at character `from`, or `None` where it
/// is longer than `MAX_MESSAGE_LEN` characters.
fn argument_from(cs: &Vec<char>, from: usize) -> (r: Option<String>)
    requires
        from <= cs.len(),
    ensures
        ({
            let p = trim(cs@.skip(from as int));
            match r {
                Some(s) => s@ == p && p.len() <= MAX_MESSAGE_LEN,
                None => p.len() > MAX_MESSAGE_LEN,
            }
        }),
{
    let (a, b) = trim_bounds(cs, from, cs.len());
    assert(cs@.subrange(from as int, cs.len() as int) =~= cs@.skip(from as int));
    if b - a > MAX_MESSAGE_LEN {
        None
    } else {
        Some(string_of_range(cs, a, b))
    }
}

/// Reads the command in the text of a message.
pub fn parse_command(text: &str) -> (c: Command)
    ensures
        c@ == command_of(text@),
{
    let cs = chars_of(text);
    proof {
        reveal_strlit("/new ");
        reveal_strlit("/remove ");
        reveal_strlit("/schedule ");
    }
    if has_prefix(&cs, "/new ") {
        match argument_from(&cs, 4) {
            Some(p) => Command::AddPhrase(p),
            None => Command::PhraseTooLong,
        }
    } else if has_prefix(&cs, "/remove ") {
        match argument_from(&cs, 7) {
            Some(p) => Command::RemovePhrase(p),
            None => Command::RemoveTooLong,
        }
    } else if has_prefix(&cs, "/schedule ") {
        assert(cs@.subrange(9, cs.len() as int) =~= cs@.skip(9));
        Command::Schedule(string_of_range(&cs, 9, cs.len()))
    } else if equals_text(&cs, "/list") {
        Command::List
    } else if equals_text(&cs, "/help") {
        Command::Help
    } else if equals_text(&cs, "/random") {
        Command::Random
    } else if equals_text(&cs, "/new") {
        Command::NewUsage
    } else if equals_text(&cs, "/clear") {
        Command::Clear
    } else if equals_text(&cs, "/location") {
        Command::Location
    } else if equals_text(&cs, "/reminder_test") {
        Command::ReminderTest
    } else {
        Command::Unknown
    }
}

/// A phrase that `/new` stores is removed again by `/remove` followed by
/// the same phrase, as the help text promises.
pub proof fn lemma_added_phrase_can_be_removed(text: Seq<char>, phrase: Seq<char>)
    requires
        command_of(text) == CommandView::AddPhrase(phrase),
    ensures
        command_of("/remove "@ + phrase) == CommandView::RemovePhrase(phrase),
{
    reveal_strlit("/new ");
    reveal_strlit("/remove ");
    reveal_strlit("/schedule ");
    let t = "/remove "@ + phrase;
    assert(starts_with(text, "/new "@));
    assert(phrase == trim(text.skip(4)));
    lemma_trim_ends(text.skip(4));
    assert(t.take(8) =~= "/remove "@);
    assert(t.take(5)[1] != "/new "@[1]);
    assert(!starts_with(t, "/new "@));
    assert(t.skip(7) =~= seq![' '] + phrase);
    lemma_trim_space_prefixed(phrase);
}

/// The phrase of `/new` is the whole text after the command word: any text
/// without white space at either end and of at most `MAX_MESSAGE_LEN`
/// characters is stored exactly as written, commas and all.
pub proof fn lemma_new_stores_whole_phrase(p: Seq<char>)
    requires
        p.len() == 0 || (!is_white_space(p[0]) && !is_white_space(p.last())),
        p.len() <= MAX_MESSAGE_LEN,
    ensures
        command_of("/new "@ + p) == CommandView::AddPhrase(p),
{
    reveal_strlit("/new ");
    let t = "/new "@ + p;
    assert(t.take(5) =~= "/new "@);
    assert(t.skip(4) =~= seq![' '] + p);
    lemma_trim_space_prefixed(p);
}

/// The phrase of `/remove` is likewise the whole text after the command word.
pub proof fn lemma_remove_takes_whole_phrase(p: Seq<char>)
    requires
        p.len() == 0 || (!is_white_space(p[0]) && !is_white_space(p.last())),
        p.len() <= MAX_MESSAGE_LEN,
    ensures
        command_of("/remove "@ + p) == CommandView::RemovePhrase(p),
{
    reveal_strlit("/new ");
    reveal_strlit("/remove ");
    let t = "/remove "@ + p;
    assert(t.take(8) =~= "/remove "@);
    assert(t.take(5)[1] != "/new "@[1]);
    assert(!starts_with(t, "/new "@));
    assert(t.skip(7) =~= seq![' '] + p);
    lemma_trim_space_prefixed(p);
}

} // verus!

//! The command line: which command is asked for, and what `list` prints.
use vstd::prelude::*;

use crate::decimal::{decimal, parse_i64, parsed_i64, push_decimal};
use crate::history::{entry_views, Entry, EntryView};
use crate::label::{entry_label, label};

verus! {

/// What the program is asked to do.
#[derive(Debug, PartialEq)]
pub enum Command {
    Watch,
    WatchForeground,
    Pick,
    List,
    Latest,
    SaveCopied,
    ServeClipboard(i64),
    /// `serve-clipboard` without a number.
    ServeClipboardUsage,
    Usage,
}

/// The command that the arguments ask for.
pub open spec fn command_of(args: Seq<Seq<char>>) -> Command {
    if args.len() == 0 {
        Command::Usage
    } else if args[0] == "watch"@ {
        Command::Watch
    } else if args[0] == "watch-foreground"@ {
        Command::WatchForeground
    } else if args[0] == "pick"@ {
        Command::Pick
    } else if args[0] == "list"@ {
        Command::List
    } else if args[0] == "latest"@ {
        Command::Latest
    } else if args[0] == "save-copied"@ {
        Command::SaveCopied
    } else if args[0] == "serve-clipboard"@ {
        if args.len() > 1 && parsed_i64(args[1]) is Some {
            Command::ServeClipboard(parsed_i64(args[1]).unwrap())
        } else {
            Command::ServeClipboardUsage
        }
    } else {
        Command::Usage
    }
}

/// The command that the arguments, without the program's name, ask for.
pub fn parse_command(args: &Vec<String>) -> (command: Command)
    ensures
        command == command_of(args@.map_values(|a: String| a@)),
{
    if args.len() == 0 {
        return Command::Usage;
    }
    let name = &args[0];
    if *name == "watch".to_owned() {
        Command::Watch
    } else if *name == "watch-foreground".to_owned() {
        Command::WatchForeground
    } else if *name == "pick".to_owned() {
        Command::Pick
    } else if *name == "list".to_owned() {
        Command::List
    } else if *name == "latest".to_owned() {
        Command::Latest
    } else if *name == "save-copied".to_owned() {
        Command::SaveCopied
    } else if *name == "serve-clipboard".to_owned() {
        if args.len() > 1 {
            match parse_i64(args[1].as_str()) {
                Some(id) => Command::ServeClipboard(id),
                None => Command::ServeClipboardUsage,
            }
        } else {
            Command::ServeClipboardUsage
        }
    } else {
        Command::Usage
    }
}

/// The width of the labels that `list` prints.
pub const LIST_WIDTH: usize = 100;

/// The line that `list` prints for the entry at position `i`.
pub open spec fn list_line(i: nat, e: EntryView) -> Seq<char> {
    decimal(i) + "\t"@ + decimal(e.ts as nat) + "\t"@ + label(e, LIST_WIDTH as nat)
}

/// The history as tab-separated lines: position, time, label.
pub fn list_lines(entries: &[Entry]) -> (lines: Vec<String>)
    ensures
        lines@.len() == entries@.len(),
        forall|i: int|
            0 <= i < entries@.len() ==> (#[trigger] lines@[i])@ == list_line(
                i as nat,
                entry_views(entries@)[i],
            ),
{
    let mut lines: Vec<String> = Vec::new();
    let mut i: usize = 0;
    while i < entries.len()
        invariant
            i <= entries@.len(),
            lines@.len() == i,
            forall|j: int|
                0 <= j < i ==> (#[trigger] lines@[j])@ == list_line(
                    j as nat,
                    entry_views(entries@)[j],
                ),
        decreases entries@.len() - i,
    {
        let e = &entries[i];
        assert(entry_views(entries@)[i as int] == e@);
        let mut line = String::new();
        push_decimal(&mut line, i as u64);
        line.append("\t");
        push_decimal(&mut line, e.ts);
        line.append("\t");
        let text = entry_label(e, LIST_WIDTH);
        line.append(text.as_str());
        assert(line@ =~= list_line(i as nat, e@));
        lines.push(line);
        i += 1;
    }
    lines
}

} // verus!

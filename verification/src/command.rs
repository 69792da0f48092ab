//! The chat commands of the bot, each recognised by the word a message
//! begins with.

use crate::text::{begins_with, starts_with};
use vstd::prelude::*;

verus! {

/// A chat command.
#[derive(Clone, Copy, Debug, PartialEq, Eq, Structural)]
pub enum COMMAND {
    E_TEST,
    E_SET,
    E_LIST,
    E_DISCONNECT,
    E_STFU,
    E_KYS,
    E_TIMER,
    E_WIN,
    E_BAN,
    E_ULIST,
    E_SAY,
    E_PREDICTION,
    E_POLL,
    E_FORTNITE,
    E_EVENT,
    E_SANTA,
    INVALID,
}

/// The word that asks for a prediction.
pub const PREDICTION: &'static str = "$predict ";

/// How many commands have a word.
pub const COMMANDS: usize = 16;

/// The command at place `i` in the order in which the words are tried.
pub open spec fn nth_command(i: int) -> COMMAND {
    if i == 0 {
        COMMAND::E_TEST
    } else if i == 1 {
        COMMAND::E_SET
    } else if i == 2 {
        COMMAND::E_LIST
    } else if i == 3 {
        COMMAND::E_DISCONNECT
    } else if i == 4 {
        COMMAND::E_STFU
    } else if i == 5 {
        COMMAND::E_KYS
    } else if i == 6 {
        COMMAND::E_TIMER
    } else if i == 7 {
        COMMAND::E_WIN
    } else if i == 8 {
        COMMAND::E_BAN
    } else if i == 9 {
        COMMAND::E_ULIST
    } else if i == 10 {
        COMMAND::E_SAY
    } else if i == 11 {
        COMMAND::E_PREDICTION
    } else if i == 12 {
        COMMAND::E_POLL
    } else if i == 13 {
        COMMAND::E_FORTNITE
    } else if i == 14 {
        COMMAND::E_EVENT
    } else if i == 15 {
        COMMAND::E_SANTA
    } else {
        COMMAND::INVALID
    }
}

impl COMMAND {
    /// The word that a message begins with to ask for the command; none for
    /// the invalid command.
    pub open spec fn word(self) -> Seq<char> {
        match self {
            COMMAND::E_TEST => "$test"@,
            COMMAND::E_SET => "$setvideo "@,
            COMMAND::E_LIST => "$list "@,
            COMMAND::E_DISCONNECT => "$disconnect "@,
            COMMAND::E_STFU => "STFU"@,
            COMMAND::E_KYS => "kys"@,
            COMMAND::E_TIMER => "$timer "@,
            COMMAND::E_WIN => "$win"@,
            COMMAND::E_BAN => "$ban "@,
            COMMAND::E_ULIST => "$userlist "@,
            COMMAND::E_SAY => "$say "@,
            COMMAND::E_PREDICTION => "$predict "@,
            COMMAND::E_POLL => "$poll "@,
            COMMAND::E_FORTNITE => "$fn "@,
            COMMAND::E_EVENT => "$event "@,
            COMMAND::E_SANTA => "$santa"@,
            COMMAND::INVALID => Seq::empty(),
        }
    }

    /// The word that a message begins with to ask for the command.
    pub fn keyword(&self) -> (word: &'static str)
        ensures
            word@ == self.word(),
    {
        match self {
            COMMAND::E_TEST => "$test",
            COMMAND::E_SET => "$setvideo ",
            COMMAND::E_LIST => "$list ",
            COMMAND::E_DISCONNECT => "$disconnect ",
            COMMAND::E_STFU => "STFU",
            COMMAND::E_KYS => "kys",
            COMMAND::E_TIMER => "$timer ",
            COMMAND::E_WIN => "$win",
            COMMAND::E_BAN => "$ban ",
            COMMAND::E_ULIST => "$userlist ",
            COMMAND::E_SAY => "$say ",
            COMMAND::E_PREDICTION => "$predict ",
            COMMAND::E_POLL => "$poll ",
            COMMAND::E_FORTNITE => "$fn ",
            COMMAND::E_EVENT => "$event ",
            COMMAND::E_SANTA => "$santa",
            COMMAND::INVALID => {
                proof {
                    reveal_strlit("");
                }
                assert(""@ =~= Seq::<char>::empty());
                ""
            },
        }
    }

    /// The command at place `i` in the order in which the words are tried.
    pub fn nth(i: usize) -> (c: COMMAND)
        ensures
            c == nth_command(i as int),
    {
        if i == 0 {
            COMMAND::E_TEST
        } else if i == 1 {
            COMMAND::E_SET
        } else if i == 2 {
            COMMAND::E_LIST
        } else if i == 3 {
            COMMAND::E_DISCONNECT
        } else if i == 4 {
            COMMAND::E_STFU
        } else if i == 5 {
            COMMAND::E_KYS
        } else if i == 6 {
            COMMAND::E_TIMER
        } else if i == 7 {
            COMMAND::E_WIN
        } else if i == 8 {
            COMMAND::E_BAN
        } else if i == 9 {
            COMMAND::E_ULIST
        } else if i == 10 {
            COMMAND::E_SAY
        } else if i == 11 {
            COMMAND::E_PREDICTION
        } else if i == 12 {
            COMMAND::E_POLL
        } else if i == 13 {
            COMMAND::E_FORTNITE
        } else if i == 14 {
            COMMAND::E_EVENT
        } else if i == 15 {
            COMMAND::E_SANTA
        } else {
            COMMAND::INVALID
        }
    }
}

/// The first command, from place `from` on, whose word `content` begins
/// with; the invalid command where it begins with none.
pub open spec fn command_from(content: Seq<char>, from: int) -> COMMAND
    decreases COMMANDS - from,
{
    if from < 0 || from >= COMMANDS {
        COMMAND::INVALID
    } else if begins_with(content, nth_command(from).word()) {
        nth_command(from)
    } else {
        command_from(content, from + 1)
    }
}

/// The command that the message `content` asks for: the first, in the order
/// of the words, whose word it begins with.
pub fn checkCommand(content: &str) -> (command: COMMAND)
    ensures
        command == command_from(content@, 0),
{
    let mut pos: usize = 0;
    while pos < COMMANDS
        invariant
            pos <= COMMANDS,
            command_from(content@, 0) == command_from(content@, pos as int),
        decreases COMMANDS - pos,
    {
        let c: COMMAND = COMMAND::nth(pos);
        if starts_with(content, c.keyword()) {
            return c;
        }
        pos += 1;
    }
    COMMAND::INVALID
}

} // verus!

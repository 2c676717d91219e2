//! The commands that save and send a raw message.

use vstd::prelude::*;
use vstd::string::StringExecFns;
use crate::account::AccountNameFlag;
use crate::names::texts;
use crate::resolver::BackendKind;
use crate::text::{join, joined};

verus! {

/// Saves a raw message to a folder.
#[derive(Debug)]
pub struct MessageSaveCommand {
    /// The folder that receives the message.
    pub folder: String,
    /// The words of the raw message, as given on the command line.
    pub body: Vec<String>,
    /// Whether the local cache is left aside.
    pub cache_disabled: bool,
    pub account: AccountNameFlag,
}

/// Sends a raw message and saves a copy of it to the folder of sent
/// messages.
#[derive(Debug)]
pub struct MessageSendCommand {
    /// The words of the raw message, as given on the command line.
    pub message: Vec<String>,
    /// Whether the local cache is left aside.
    pub cache_disabled: bool,
    pub account: AccountNameFlag,
}

/// The raw message of a command: the words of the command line, a space
/// between each two, where the command reads its arguments; else the lines
/// that were piped in, a carriage return and a line feed between each two.
pub open spec fn raw_message(
    reads_arguments: bool,
    words: Seq<Seq<char>>,
    piped_lines: Seq<Seq<char>>,
) -> Seq<char> {
    if reads_arguments {
        joined(words, " "@)
    } else {
        joined(piped_lines, "\r\n"@)
    }
}

/// What saving a message comes to: the raw message goes to the folder,
/// and then the line is printed.
#[derive(Debug)]
pub struct SavePlan {
    pub folder: String,
    pub message: String,
    pub confirmation: String,
}

/// What sending a message comes to: backends of these kinds are needed,
/// the raw message is sent, and then the line is printed.
#[derive(Debug)]
pub struct SendPlan {
    pub backends: Vec<BackendKind>,
    pub message: String,
    pub confirmation: String,
}

/// The kinds of backend that sending needs: the one that sends, and the one
/// that saves messages where a copy of what is sent is kept.
pub open spec fn sending_kinds(
    sender: Option<BackendKind>,
    saver: Option<BackendKind>,
    keeps_copy: bool,
) -> Seq<BackendKind> {
    (match sender {
        Some(kind) => seq![kind],
        None => Seq::empty(),
    }) + (match saver {
        Some(kind) => if keeps_copy {
            seq![kind]
        } else {
            Seq::empty()
        },
        None => Seq::empty(),
    })
}

impl MessageSaveCommand {
    /// Works out what the command comes to: which raw message goes to
    /// which folder, and what is said afterwards. `piped_lines` are the
    /// lines of the standard input; they are the message unless the
    /// standard input is a terminal or the output is JSON.
    pub fn execute(&self, stdin_is_terminal: bool, output_is_json: bool, piped_lines: &Vec<String>) -> (plan:
        SavePlan)
        ensures
            plan.folder@ == self.folder@,
            plan.message@ == raw_message(
                stdin_is_terminal || output_is_json,
                texts(self.body@),
                texts(piped_lines@),
            ),
            plan.confirmation@ == "Message successfully saved to "@ + self.folder@ + "!"@,
    {
        let reads_arguments = MessageSaveCommand::reads_arguments(stdin_is_terminal, output_is_json);
        SavePlan {
            folder: self.folder.clone(),
            message: self.message(reads_arguments, piped_lines),
            confirmation: self.confirmation(),
        }
    }

    /// Whether the message is taken from the command line: so it is when
    /// the standard input is a terminal, and when the output is JSON.
    pub fn reads_arguments(stdin_is_terminal: bool, output_is_json: bool) -> (from_arguments: bool)
        ensures
            from_arguments == (stdin_is_terminal || output_is_json),
    {
        stdin_is_terminal || output_is_json
    }

    /// The raw message to save.
    pub fn message(&self, reads_arguments: bool, piped_lines: &Vec<String>) -> (raw: String)
        ensures
            raw@ == raw_message(reads_arguments, texts(self.body@), texts(piped_lines@)),
    {
        if reads_arguments {
            join(&self.body, " ")
        } else {
            join(piped_lines, "\r\n")
        }
    }

    /// What the command says once the message is saved.
    pub fn confirmation(&self) -> (line: String)
        ensures
            line@ == "Message successfully saved to "@ + self.folder@ + "!"@,
    {
        let mut line = String::from_str("Message successfully saved to ");
        line.append(self.folder.as_str());
        line.append("!");
        line
    }
}

impl MessageSendCommand {
    /// Works out what the command comes to: which backends are needed,
    /// which raw message is sent, and what is said afterwards.
    /// `piped_lines` are the lines of the standard input; they are the
    /// message unless the standard input is a terminal.
    pub fn execute(
        &self,
        sender: Option<BackendKind>,
        saver: Option<BackendKind>,
        keeps_copy: bool,
        stdin_is_terminal: bool,
        piped_lines: &Vec<String>,
    ) -> (plan: SendPlan)
        ensures
            plan.backends@ == sending_kinds(sender, saver, keeps_copy),
            plan.message@ == raw_message(
                stdin_is_terminal,
                texts(self.message@),
                texts(piped_lines@),
            ),
            plan.confirmation@ == "Message successfully sent!"@,
    {
        let mut backends: Vec<BackendKind> = Vec::new();
        match sender {
            Some(kind) => backends.push(kind),
            None => {},
        }
        match saver {
            Some(kind) => {
                if keeps_copy {
                    backends.push(kind);
                }
            },
            None => {},
        }
        proof {
            assert(backends@ =~= sending_kinds(sender, saver, keeps_copy));
        }
        SendPlan {
            backends,
            message: self.message(MessageSendCommand::reads_arguments(stdin_is_terminal), piped_lines),
            confirmation: self.confirmation(),
        }
    }

    /// Whether the message is taken from the command line: so it is when
    /// the standard input is a terminal.
    pub fn reads_arguments(stdin_is_terminal: bool) -> (from_arguments: bool)
        ensures
            from_arguments == stdin_is_terminal,
    {
        stdin_is_terminal
    }

    /// The raw message to send.
    pub fn message(&self, reads_arguments: bool, piped_lines: &Vec<String>) -> (raw: String)
        ensures
            raw@ == raw_message(reads_arguments, texts(self.message@), texts(piped_lines@)),
    {
        if reads_arguments {
            join(&self.message, " ")
        } else {
            join(piped_lines, "\r\n")
        }
    }

    /// What the command says once the message is sent.
    pub fn confirmation(&self) -> (line: String)
        ensures
            line@ == "Message successfully sent!"@,
    {
        String::from_str("Message successfully sent!")
    }
}

} // verus!

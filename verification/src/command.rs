//! The client's input: the lines of the batch mode and the answers of the
//! interactive menu.

use vstd::prelude::*;
use vstd::string::{StrSliceExecFns, StringExecFns};
use crate::request::Operation;
use crate::text::{split_words, trim, trimmed, words};

verus! {

/// What `str::to_uppercase` returns for a string with these characters.
pub uninterp spec fn uppercase_of(text: Seq<char>) -> Seq<char>;

/// `str::to_uppercase`: the upper-case form of `text` by Unicode's case
/// mapping, which is a function of the characters of `text` alone.
#[verifier::external_body]
fn to_uppercase(text: &str) -> (upper: String)
    ensures
        upper@ == uppercase_of(text@),
{
    text.to_uppercase()
}

/// Why a line of the batch mode is no command.
#[derive(Debug, Copy, Clone, PartialEq, Eq, Structural)]
pub enum MalformedCommand {
    /// `INSERT` without exactly a key and a value.
    InsertArity,
    /// `GET` without exactly a key.
    GetArity,
    /// `DELETE` without exactly a key.
    DeleteArity,
    /// The first word names no operation.
    UnknownOperation,
}

/// What a line of the batch mode asks for.
#[derive(Debug, PartialEq, Eq)]
pub enum Command {
    /// The line is `exit`, in any mix of ASCII upper and lower case.
    Exit,
    /// The line holds white space only.
    Blank,
    /// A request to send. `value` is empty unless the operation is `INSERT`.
    Submit { operation: Operation, key: String, value: String },
    /// The line is reported and skipped. `word` is its first word.
    Malformed { error: MalformedCommand, word: String },
}

/// What an answer to the interactive menu selects.
#[derive(Debug, Copy, Clone, PartialEq, Eq, Structural)]
pub enum MenuChoice {
    Operation(Operation),
    Exit,
    Invalid,
}

/// `word` is `exit` but for the case of its ASCII letters.
pub open spec fn spells_exit(word: Seq<char>) -> bool {
    &&& word.len() == 4
    &&& (word[0] == 'e' || word[0] == 'E')
    &&& (word[1] == 'x' || word[1] == 'X')
    &&& (word[2] == 'i' || word[2] == 'I')
    &&& (word[3] == 't' || word[3] == 'T')
}

/// The line, without the white space around it, is `exit` but for the case
/// of its ASCII letters: it has one word, and the word spells it.
pub open spec fn is_exit_line(line: Seq<char>) -> bool {
    words(line).len() == 1 && spells_exit(words(line)[0])
}

/// The operation that a line with `count` words asks for, given the
/// upper-case form of its first word, or why it asks for none.
pub open spec fn classify_spec(upper: Seq<char>, count: nat) -> Result<
    Operation,
    MalformedCommand,
> {
    if upper == "INSERT"@ {
        if count == 3 {
            Ok(Operation::INSERT)
        } else {
            Err(MalformedCommand::InsertArity)
        }
    } else if upper == "GET"@ {
        if count == 2 {
            Ok(Operation::GET)
        } else {
            Err(MalformedCommand::GetArity)
        }
    } else if upper == "DELETE"@ {
        if count == 2 {
            Ok(Operation::DELETE)
        } else {
            Err(MalformedCommand::DeleteArity)
        }
    } else {
        Err(MalformedCommand::UnknownOperation)
    }
}

/// What the trimmed answer to the menu selects.
pub open spec fn menu_choice_of(answer: Seq<char>) -> MenuChoice {
    if answer == "1"@ {
        MenuChoice::Operation(Operation::INSERT)
    } else if answer == "2"@ {
        MenuChoice::Operation(Operation::GET)
    } else if answer == "3"@ {
        MenuChoice::Operation(Operation::DELETE)
    } else if answer == "4"@ {
        MenuChoice::Exit
    } else {
        MenuChoice::Invalid
    }
}

/// The message that reports a malformed line whose first word is `word`.
pub open spec fn message_of(error: MalformedCommand, word: Seq<char>) -> Seq<char> {
    match error {
        MalformedCommand::InsertArity => "INSERT requires key and value"@,
        MalformedCommand::GetArity => "GET requires key"@,
        MalformedCommand::DeleteArity => "DELETE requires key"@,
        MalformedCommand::UnknownOperation => "Invalid operation: "@ + word,
    }
}

/// Whether two strings hold the same characters.
fn same_text(left: &str, right: &str) -> (same: bool)
    ensures
        same == (left@ == right@),
{
    String::from_str(left) == String::from_str(right)
}

/// Whether `word` is `exit` but for the case of its ASCII letters.
pub fn is_exit_word(word: &str) -> (exit: bool)
    ensures
        exit == spells_exit(word@),
{
    if word.unicode_len() != 4 {
        return false;
    }
    let e = word.get_char(0);
    let x = word.get_char(1);
    let i = word.get_char(2);
    let t = word.get_char(3);
    (e == 'e' || e == 'E') && (x == 'x' || x == 'X') && (i == 'i' || i == 'I') && (t == 't' || t
        == 'T')
}

/// The operation that a line with `count` words asks for, given the
/// upper-case form of its first word, or why it asks for none.
pub fn classify(upper: &str, count: usize) -> (operation: Result<Operation, MalformedCommand>)
    ensures
        operation == classify_spec(upper@, count as nat),
{
    if same_text(upper, "INSERT") {
        if count == 3 {
            Ok(Operation::INSERT)
        } else {
            Err(MalformedCommand::InsertArity)
        }
    } else if same_text(upper, "GET") {
        if count == 2 {
            Ok(Operation::GET)
        } else {
            Err(MalformedCommand::GetArity)
        }
    } else if same_text(upper, "DELETE") {
        if count == 2 {
            Ok(Operation::DELETE)
        } else {
            Err(MalformedCommand::DeleteArity)
        }
    } else {
        Err(MalformedCommand::UnknownOperation)
    }
}

/// Reads one line of the batch mode: `INSERT <key> <value>`, `GET <key>`,
/// `DELETE <key>` or `exit`, split at white space. The operation is
/// recognised by the upper-case form of the first word.
pub fn parse_command(line: &str) -> (command: Command)
    ensures
        match command {
            Command::Exit => is_exit_line(line@),
            Command::Blank => words(line@).len() == 0,
            Command::Submit { operation, key, value } => {
                &&& !is_exit_line(line@)
                &&& words(line@).len() > 0
                &&& classify_spec(uppercase_of(words(line@)[0]), words(line@).len()) == Ok::<
                    Operation,
                    MalformedCommand,
                >(operation)
                &&& key@ == words(line@)[1]
                &&& value@ == if operation == Operation::INSERT {
                    words(line@)[2]
                } else {
                    Seq::<char>::empty()
                }
            },
            Command::Malformed { error, word } => {
                &&& !is_exit_line(line@)
                &&& words(line@).len() > 0
                &&& classify_spec(uppercase_of(words(line@)[0]), words(line@).len()) == Err::<
                    Operation,
                    MalformedCommand,
                >(error)
                &&& word@ == words(line@)[0]
            },
        },
{
    let found = split_words(line);
    let count = found.len();
    assert(found.deep_view().len() == found@.len());
    if count == 0 {
        return Command::Blank;
    }
    assert forall|k: int| 0 <= k < count implies (#[trigger] found@[k])@ == words(line@)[k] by {
        assert(found.deep_view()[k] == found@[k]@);
    }
    let first = found[0].as_str();
    if count == 1 && is_exit_word(first) {
        return Command::Exit;
    }
    let upper = to_uppercase(first);
    match classify(upper.as_str(), count) {
        Ok(operation) => {
            let value = match operation {
                Operation::INSERT => found[2].clone(),
                _ => String::new(),
            };
            Command::Submit { operation, key: found[1].clone(), value }
        },
        Err(error) => Command::Malformed { error, word: found[0].clone() },
    }
}

/// Reads an answer to the interactive menu: `1` is INSERT, `2` is GET, `3`
/// is DELETE and `4` leaves; white space around the answer does not count.
pub fn parse_menu_choice(line: &str) -> (choice: MenuChoice)
    ensures
        choice == menu_choice_of(trimmed(line@)),
{
    let answer = trim(line);
    if same_text(answer, "1") {
        MenuChoice::Operation(Operation::INSERT)
    } else if same_text(answer, "2") {
        MenuChoice::Operation(Operation::GET)
    } else if same_text(answer, "3") {
        MenuChoice::Operation(Operation::DELETE)
    } else if same_text(answer, "4") {
        MenuChoice::Exit
    } else {
        MenuChoice::Invalid
    }
}

/// The message that reports a malformed line whose first word is `word`.
pub fn malformed_message(error: MalformedCommand, word: &str) -> (message: String)
    ensures
        message@ == message_of(error, word@),
{
    match error {
        MalformedCommand::InsertArity => String::from_str("INSERT requires key and value"),
        MalformedCommand::GetArity => String::from_str("GET requires key"),
        MalformedCommand::DeleteArity => String::from_str("DELETE requires key"),
        MalformedCommand::UnknownOperation => {
            let mut message = String::from_str("Invalid operation: ");
            message.append(word);
            message
        },
    }
}

} // verus!

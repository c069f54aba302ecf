//! The command line of the tracker: which command a list of arguments asks
//! for.

use vstd::prelude::*;
use vstd::string::*;
use crate::edits::{Edit, EditView};
use crate::status::Status;

verus! {

/// The byte of the plus sign.
const PLUS: u8 = 43;

/// The byte of the digit 0.
const DIGIT_0: u8 = 48;

/// The byte of the digit 9.
const DIGIT_9: u8 = 57;

/// The character is one of the ten decimal digits.
pub open spec fn is_digit(c: char) -> bool {
    '0' <= c <= '9'
}

/// The number that a sequence of decimal digits writes, the most significant
/// digit first. The empty sequence writes 0.
pub open spec fn decimal_value(digits: Seq<char>) -> nat
    decreases digits.len(),
{
    if digits.len() == 0 {
        0
    } else {
        (decimal_value(digits.drop_last()) * 10 + (digits.last() as int - '0' as int)) as nat
    }
}

/// The digits of a number's text: the text without a plus sign in front.
pub open spec fn digits_of(text: Seq<char>) -> Seq<char> {
    if text.len() > 0 && text[0] == '+' {
        text.drop_first()
    } else {
        text
    }
}

/// The id that a text writes: one or more decimal digits, with or without a
/// plus sign in front and nothing else around them, whose number an id can
/// hold.
pub open spec fn id_of_text(text: Seq<char>) -> Option<u32> {
    let digits = digits_of(text);
    if digits.len() > 0 && (forall|i: int| 0 <= i < digits.len() ==> is_digit(#[trigger] digits[i]))
        && decimal_value(digits) <= u32::MAX {
        Some(decimal_value(digits) as u32)
    } else {
        None
    }
}

/// A sequence of digits writes at least what any of its prefixes writes.
pub proof fn lemma_decimal_value_grows(digits: Seq<char>, k: int)
    requires
        0 <= k <= digits.len(),
        forall|i: int| 0 <= i < digits.len() ==> is_digit(#[trigger] digits[i]),
    ensures
        decimal_value(digits.take(k)) <= decimal_value(digits),
    decreases digits.len() - k,
{
    if k == digits.len() {
        assert(digits.take(k) =~= digits);
    } else {
        let longer = digits.take(k + 1);
        assert(longer.drop_last() =~= digits.take(k));
        lemma_decimal_value_grows(digits, k + 1);
    }
}

/// Reads an id from its text, as `id_of_text` says.
pub fn parse_id(text: &str) -> (id: Option<u32>)
    ensures
        id == id_of_text(text@),
{
    let ghost digits = digits_of(text@);
    if !text.is_ascii() {
        proof {
            let all = text@;
            let i = choose|i: int|
                0 <= i < all.len() && !('\0' <= #[trigger] all[i] && all[i] <= '\u{7f}');
            if digits.len() != text@.len() {
                assert(!is_digit(digits[i - 1]));
            }
        }
        return None;
    }
    proof {
        is_ascii_spec_bytes(text);
    }
    let bytes = text.as_bytes();
    let n: usize = bytes.len();
    if n == 0 {
        return None;
    }
    let start: usize = if bytes[0] == PLUS {
        1
    } else {
        0
    };
    assert(digits =~= text@.skip(start as int));
    if start == n {
        return None;
    }
    let mut value: u32 = 0;
    let mut i: usize = start;
    while i < n
        invariant
            start <= i <= n,
            n == text@.len(),
            bytes@ == Seq::new(text@.len(), |j: int| text@[j] as u8),
            is_ascii(text),
            digits == text@.skip(start as int),
            digits == digits_of(text@),
            forall|j: int| 0 <= j < i - start ==> is_digit(#[trigger] digits[j]),
            value == decimal_value(digits.take(i - start)),
        decreases n - i,
    {
        let byte: u8 = bytes[i];
        let ghost c = text@[i as int];
        assert(c == digits[i - start]);
        assert(is_digit(c) <==> DIGIT_0 <= byte <= DIGIT_9);
        if byte < DIGIT_0 || byte > DIGIT_9 {
            return None;
        }
        let digit: u32 = (byte - DIGIT_0) as u32;
        proof {
            assert(digits.take(i - start + 1).drop_last() =~= digits.take(i - start));
        }
        if value > (u32::MAX - digit) / 10 {
            proof {
                if forall|j: int| 0 <= j < digits.len() ==> is_digit(#[trigger] digits[j]) {
                    lemma_decimal_value_grows(digits, i - start + 1);
                }
            }
            return None;
        }
        value = value * 10 + digit;
        i += 1;
    }
    proof {
        assert(digits.take(i - start) =~= digits);
    }
    Some(value)
}

/// What a command line asks for.
#[derive(Clone, Debug)]
pub enum Command {
    /// Change the collection.
    Edit(Edit),
    /// Show the tasks, all of them or those that the filter selects.
    List { filter: Option<String> },
    /// The first argument is missing or names no command.
    Invalid,
}

/// A command, with its texts as sequences of characters.
pub enum CommandView {
    Edit(EditView),
    List { filter: Option<Seq<char>> },
    Invalid,
}

impl View for Command {
    type V = CommandView;

    open spec fn view(&self) -> CommandView {
        match self {
            Command::Edit(edit) => CommandView::Edit(edit@),
            Command::List { filter } => CommandView::List {
                filter: match filter {
                    Some(text) => Some(text@),
                    None => None,
                },
            },
            Command::Invalid => CommandView::Invalid,
        }
    }
}

/// Why a command line that names a command cannot be carried out.
#[derive(Clone, Copy, Debug, PartialEq, Eq, Structural)]
pub enum ArgumentError {
    /// An argument that the command needs is not there.
    Missing,
    /// The argument that should be an id does not write one.
    NotAnId,
}

/// The arguments as sequences of characters.
pub open spec fn texts(args: Seq<String>) -> Seq<Seq<char>> {
    args.map_values(|a: String| a@)
}

/// The id that the argument after the command writes.
pub open spec fn id_argument_of(args: Seq<Seq<char>>) -> Result<u32, ArgumentError> {
    if args.len() < 3 {
        Err(ArgumentError::Missing)
    } else {
        match id_of_text(args[2]) {
            Some(id) => Ok(id),
            None => Err(ArgumentError::NotAnId),
        }
    }
}

/// The change that the id after the command and the change's own making
/// give, or the error of the id.
pub open spec fn with_id(args: Seq<Seq<char>>, make: spec_fn(u32) -> EditView) -> Result<
    CommandView,
    ArgumentError,
> {
    match id_argument_of(args) {
        Ok(id) => Ok(CommandView::Edit(make(id))),
        Err(e) => Err(e),
    }
}

/// What a command line asks for. The arguments are those of the process: the
/// first is the program's name, the second names the command, and the
/// command's own arguments follow; what comes after them is ignored.
///
/// - `add <description>`
/// - `update <id> <description>`
/// - `delete <id>`
/// - `mark-in-progress <id>` and `mark-done <id>`
/// - `list`, with or without a filter after it
///
/// Anything else is an invalid command. A command whose argument is missing,
/// or whose id is no id, is an error; the id is looked at before the
/// description of an update.
pub open spec fn command_of(args: Seq<Seq<char>>) -> Result<CommandView, ArgumentError> {
    if args.len() < 2 {
        Ok(CommandView::Invalid)
    } else if args[1] == "add"@ {
        if args.len() < 3 {
            Err(ArgumentError::Missing)
        } else {
            Ok(CommandView::Edit(EditView::Add { description: args[2] }))
        }
    } else if args[1] == "update"@ {
        match id_argument_of(args) {
            Ok(id) => if args.len() < 4 {
                Err(ArgumentError::Missing)
            } else {
                Ok(CommandView::Edit(EditView::Update { id, description: args[3] }))
            },
            Err(e) => Err(e),
        }
    } else if args[1] == "delete"@ {
        with_id(args, |id: u32| EditView::Delete { id })
    } else if args[1] == "mark-in-progress"@ {
        with_id(args, |id: u32| EditView::Mark { id, status: Status::InProgress })
    } else if args[1] == "mark-done"@ {
        with_id(args, |id: u32| EditView::Mark { id, status: Status::Done })
    } else if args[1] == "list"@ {
        Ok(
            CommandView::List {
                filter: if args.len() >= 3 {
                    Some(args[2])
                } else {
                    None
                },
            },
        )
    } else {
        Ok(CommandView::Invalid)
    }
}

/// What a parsed command line is, as contents.
pub open spec fn parsed_view(parsed: Result<Command, ArgumentError>) -> Result<
    CommandView,
    ArgumentError,
> {
    match parsed {
        Ok(command) => Ok(command@),
        Err(e) => Err(e),
    }
}

/// Whether the text is this word.
fn is_word(text: &String, word: &str) -> (r: bool)
    ensures
        r == (text@ == word@),
{
    let word = word.to_owned();
    *text == word
}

/// The id that the argument after the command writes.
fn id_argument(args: &Vec<String>) -> (id: Result<u32, ArgumentError>)
    ensures
        id == id_argument_of(texts(args@)),
{
    if args.len() < 3 {
        return Err(ArgumentError::Missing);
    }
    match parse_id(args[2].as_str()) {
        Some(id) => Ok(id),
        None => Err(ArgumentError::NotAnId),
    }
}

/// Reads the command that the arguments of the process ask for, as
/// `command_of` says.
pub fn parse_command(args: &Vec<String>) -> (parsed: Result<Command, ArgumentError>)
    ensures
        parsed_view(parsed) == command_of(texts(args@)),
{
    if args.len() < 2 {
        return Ok(Command::Invalid);
    }
    let verb = &args[1];
    if is_word(verb, "add") {
        if args.len() < 3 {
            return Err(ArgumentError::Missing);
        }
        Ok(Command::Edit(Edit::Add { description: args[2].clone() }))
    } else if is_word(verb, "update") {
        match id_argument(args) {
            Ok(id) => {
                if args.len() < 4 {
                    return Err(ArgumentError::Missing);
                }
                Ok(Command::Edit(Edit::Update { id, description: args[3].clone() }))
            },
            Err(e) => Err(e),
        }
    } else if is_word(verb, "delete") {
        match id_argument(args) {
            Ok(id) => Ok(Command::Edit(Edit::Delete { id })),
            Err(e) => Err(e),
        }
    } else if is_word(verb, "mark-in-progress") {
        match id_argument(args) {
            Ok(id) => Ok(Command::Edit(Edit::Mark { id, status: Status::InProgress })),
            Err(e) => Err(e),
        }
    } else if is_word(verb, "mark-done") {
        match id_argument(args) {
            Ok(id) => Ok(Command::Edit(Edit::Mark { id, status: Status::Done })),
            Err(e) => Err(e),
        }
    } else if is_word(verb, "list") {
        let filter = if args.len() >= 3 {
            Some(args[2].clone())
        } else {
            None
        };
        Ok(Command::List { filter })
    } else {
        Ok(Command::Invalid)
    }
}

} // verus!

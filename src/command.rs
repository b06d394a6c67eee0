//! Parsing of chat messages into bot commands.

use vstd::prelude::*;
use command_parser::Parser;
use vstd::string::{StrSliceExecFns, StringExecFns};
use crate::markdown_response::{format_invalid_register, format_invalid_unregister, format_unknown_command};
use crate::text::{str_eq, views};

verus! {

#[verifier::external_type_specification]
pub struct ExParser(command_parser::Parser);

/// The name and the arguments that command_parser reads from `raw` with the
/// given command and option prefixes, or `None` when it fails.
pub uninterp spec fn parsed_command(prefix: char, option_prefix: char, raw: Seq<char>) -> Option<
    (Seq<char>, Seq<Seq<char>>),
>;

/// Relies on `command_parser::Parser::parse`: the command name and its
/// arguments; options and parameters are not used by the bot.
#[verifier::external_body]
fn parse_raw(parser: &Parser, raw: &str) -> (r: Option<(String, Vec<String>)>)
    ensures
        match r {
            Some(c) => parsed_command(parser.prefix, parser.option_prefix, raw@) == Some(
                (c.0@, views(c.1@)),
            ),
            None => parsed_command(parser.prefix, parser.option_prefix, raw@) is None,
        },
{
    match parser.parse(raw) {
        Ok(command) => Some((command.name, command.arguments)),
        Err(_) => None,
    }
}

/// Whether `c` is an ASCII digit.
pub open spec fn is_digit(c: char) -> bool {
    '0' <= c <= '9'
}

/// The value of a sequence of decimal digits.
pub open spec fn digits_value(s: Seq<char>) -> nat
    decreases s.len(),
{
    if s.len() == 0 {
        0
    } else {
        digits_value(s.drop_last()) * 10 + (s.last() as nat - '0' as nat) as nat
    }
}

/// The digits of `s` once an optional leading `+` is dropped.
pub open spec fn unsigned_digits(s: Seq<char>) -> Seq<char> {
    if s.len() > 0 && s[0] == '+' {
        s.drop_first()
    } else {
        s
    }
}

/// Every character of `d` is a digit.
pub open spec fn all_digits(d: Seq<char>) -> bool {
    forall|i: int| 0 <= i < d.len() ==> is_digit(#[trigger] d[i])
}

/// What `str::parse::<u64>` gives: an optional `+` followed by at least one
/// digit, and a value that fits.
pub open spec fn u64_of(s: Seq<char>) -> Option<u64> {
    let d = unsigned_digits(s);
    if d.len() > 0 && all_digits(d) && digits_value(d) <= u64::MAX {
        Some(digits_value(d) as u64)
    } else {
        None
    }
}

/// The value of a decimal text, read as `str::parse::<u64>` reads it.
fn parse_u64(s: &str) -> (r: Option<u64>)
    ensures
        r == u64_of(s@),
{
    let n = s.unicode_len();
    let start: usize = if n > 0 && s.get_char(0) == '+' {
        1
    } else {
        0
    };
    let ghost d = unsigned_digits(s@);
    proof {
        assert(d =~= s@.subrange(start as int, n as int));
    }
    if start == n {
        return None;
    }
    let mut value: u64 = 0;
    let mut overflow = false;
    let mut i: usize = start;
    proof {
        assert(d.take(0) =~= Seq::<char>::empty());
    }
    while i < n
        invariant
            start <= i <= n,
            n == s@.len(),
            d == s@.subrange(start as int, n as int),
            d == unsigned_digits(s@),
            forall|j: int| 0 <= j < i - start ==> is_digit(#[trigger] d[j]),
            !overflow ==> value == digits_value(d.take(i - start)),
            overflow ==> digits_value(d.take(i - start)) > u64::MAX,
        decreases n - i,
    {
        let c = s.get_char(i);
        assert(c == d[i - start]);
        if !('0' <= c && c <= '9') {
            assert(!is_digit(d[i - start]));
            assert(0 <= i - start < d.len());
            assert(!all_digits(d));
            return None;
        }
        let digit: u64 = (c as u64) - ('0' as u64);
        let ghost prev = digits_value(d.take(i - start));
        proof {
            let t = d.take(i - start + 1);
            assert(t.drop_last() =~= d.take(i - start));
            assert(t.last() == c);
            assert(digits_value(t) == prev * 10 + digit);
        }
        if !overflow {
            if value > (u64::MAX - digit) / 10 {
                overflow = true;
                proof {
                    assert(prev * 10 + digit > u64::MAX) by (nonlinear_arith)
                        requires
                            prev == value as int,
                            value > (u64::MAX - digit) / 10,
                            digit <= 9,
                    ;
                }
            } else {
                proof {
                    assert(value * 10 + digit <= u64::MAX) by (nonlinear_arith)
                        requires
                            value <= (u64::MAX - digit) / 10,
                            digit <= 9,
                    ;
                }
                value = value * 10 + digit;
            }
        } else {
            proof {
                assert(prev * 10 + digit > u64::MAX) by (nonlinear_arith)
                    requires
                        prev > u64::MAX,
                        digit <= 9,
                ;
            }
        }
        i += 1;
    }
    proof {
        assert(d.take(i - start) =~= d);
    }
    if overflow {
        None
    } else {
        Some(value)
    }
}

/// A command of the bot.
#[derive(Debug, Hash, PartialEq, Eq)]
pub enum Command {
    /// Show the help.
    Help,
    /// List the ongoing games.
    Games,
    /// Register an alert: game, player name, delay in minutes.
    Register(String, String, u64),
    /// Remove the user's alerts of a game.
    Unregister(String),
    /// List the user's alerts.
    Alerts,
}

/// Model of a [`Command`].
pub enum CommandView {
    Help,
    Games,
    Register(Seq<char>, Seq<char>, u64),
    Unregister(Seq<char>),
    Alerts,
}

impl View for Command {
    type V = CommandView;

    open spec fn view(&self) -> CommandView {
        match self {
            Command::Help => CommandView::Help,
            Command::Games => CommandView::Games,
            Command::Register(g, p, d) => CommandView::Register(g@, p@, *d),
            Command::Unregister(g) => CommandView::Unregister(g@),
            Command::Alerts => CommandView::Alerts,
        }
    }
}

/// Why a message is not a command of the bot.
#[derive(Debug, PartialEq, Eq, Structural)]
pub enum CommandParsingError {
    /// The message is not a command.
    UnableToParse,
    /// The command is for another bot.
    NotMiou,
    /// The command does not exist.
    Unknown,
    /// The register command lacks arguments or has a delay that is not a number.
    InvalidRegister,
    /// The unregister command lacks its game.
    InvalidUnRegister,
}

/// The register command with arguments `args` (the first is `register`).
pub open spec fn register_from(args: Seq<Seq<char>>) -> Result<CommandView, CommandParsingError> {
    if args.len() < 4 {
        Err(CommandParsingError::InvalidRegister)
    } else {
        match u64_of(args[3]) {
            Some(d) => Ok(CommandView::Register(args[1], args[2], d)),
            None => Err(CommandParsingError::InvalidRegister),
        }
    }
}

/// The unregister command with arguments `args` (the first is `unregister`).
pub open spec fn unregister_from(args: Seq<Seq<char>>) -> Result<CommandView, CommandParsingError> {
    if args.len() < 2 {
        Err(CommandParsingError::InvalidUnRegister)
    } else {
        Ok(CommandView::Unregister(args[1]))
    }
}

/// The command that a parse result stands for.
pub open spec fn command_from(parsed: Option<(Seq<char>, Seq<Seq<char>>)>) -> Result<
    CommandView,
    CommandParsingError,
> {
    match parsed {
        None => Err(CommandParsingError::UnableToParse),
        Some(c) => {
            let (name, args) = c;
            if name != "miou"@ {
                Err(CommandParsingError::NotMiou)
            } else if args.len() == 0 {
                Ok(CommandView::Help)
            } else if args[0] == "help"@ {
                Ok(CommandView::Help)
            } else if args[0] == "games"@ {
                Ok(CommandView::Games)
            } else if args[0] == "register"@ {
                register_from(args)
            } else if args[0] == "alerts"@ {
                Ok(CommandView::Alerts)
            } else if args[0] == "unregister"@ {
                unregister_from(args)
            } else {
                Err(CommandParsingError::Unknown)
            }
        },
    }
}

/// The text handed to the parser: the parser drops the last word of its
/// input, so a placeholder word is appended.
pub open spec fn padded(body: Seq<char>) -> Seq<char> {
    body + " dummy"@
}

/// The model of a parse outcome.
pub open spec fn parse_view(r: Result<Command, CommandParsingError>) -> Result<
    CommandView,
    CommandParsingError,
> {
    match r {
        Ok(c) => Ok(c@),
        Err(e) => Err(e),
    }
}

impl Command {
    /// The command in the message `body`.
    pub fn parse(parser: &Parser, body: &str) -> (r: Result<Command, CommandParsingError>)
        ensures
            parse_view(r) == command_from(
                parsed_command(parser.prefix, parser.option_prefix, padded(body@)),
            ),
    {
        let mut text = body.to_owned();
        text.append(" dummy");
        let (name, args) = match parse_raw(parser, text.as_str()) {
            Some(c) => c,
            None => {
                return Err(CommandParsingError::UnableToParse);
            },
        };
        if !str_eq(name.as_str(), "miou") {
            return Err(CommandParsingError::NotMiou);
        }
        if args.len() == 0 {
            return Ok(Command::Help);
        }
        let first = args[0].as_str();
        assert(first@ == views(args@)[0]);
        if str_eq(first, "help") {
            Ok(Command::Help)
        } else if str_eq(first, "games") {
            Ok(Command::Games)
        } else if str_eq(first, "register") {
            match Self::parse_register(&args) {
                Ok(t) => Ok(Command::Register(t.0, t.1, t.2)),
                Err(e) => Err(e),
            }
        } else if str_eq(first, "alerts") {
            Ok(Command::Alerts)
        } else if str_eq(first, "unregister") {
            match Self::parse_unregister(&args) {
                Ok(g) => Ok(Command::Unregister(g)),
                Err(e) => Err(e),
            }
        } else {
            Err(CommandParsingError::Unknown)
        }
    }

    /// The game, player name and delay of a register command.
    fn parse_register(args: &Vec<String>) -> (r: Result<(String, String, u64), CommandParsingError>)
        ensures
            match r {
                Ok(t) => register_from(views(args@)) == Ok::<CommandView, CommandParsingError>(
                    CommandView::Register(t.0@, t.1@, t.2),
                ),
                Err(e) => register_from(views(args@)) == Err::<CommandView, CommandParsingError>(
                    e,
                ),
            },
    {
        if args.len() < 4 {
            return Err(CommandParsingError::InvalidRegister);
        }
        let game_id = args[1].clone();
        let player_name = args[2].clone();
        assert(args@[3]@ == views(args@)[3]);
        match parse_u64(args[3].as_str()) {
            Some(delay) => Ok((game_id, player_name, delay)),
            None => Err(CommandParsingError::InvalidRegister),
        }
    }

    /// The game of an unregister command.
    fn parse_unregister(args: &Vec<String>) -> (r: Result<String, CommandParsingError>)
        ensures
            match r {
                Ok(g) => unregister_from(views(args@)) == Ok::<CommandView, CommandParsingError>(
                    CommandView::Unregister(g@),
                ),
                Err(e) => unregister_from(views(args@)) == Err::<CommandView, CommandParsingError>(
                    e,
                ),
            },
    {
        if args.len() < 2 {
            return Err(CommandParsingError::InvalidUnRegister);
        }
        Ok(args[1].clone())
    }
}

/// The answer owed for a parsing error, if any: none for messages that are
/// not commands of the bot.
pub open spec fn command_error_text(e: CommandParsingError) -> Option<Seq<char>> {
    match e {
        CommandParsingError::Unknown => Some(
            "Unknown command. Type `!miou help` for more information."@,
        ),
        CommandParsingError::InvalidRegister => Some(
            "Invalid register command. Usage: `!miou register <game_id> <player_name> <delay_in_minutes>`"@,
        ),
        CommandParsingError::InvalidUnRegister => Some(
            "Invalid unregister command. Usage: `!miou unregister <game_id>`"@,
        ),
        _ => None,
    }
}

/// The answer to a parsing error, or `None` when the bot stays silent.
pub fn format_command_error(error: CommandParsingError) -> (r: Option<String>)
    ensures
        match r {
            Some(s) => command_error_text(error) == Some(s@),
            None => command_error_text(error) is None,
        },
{
    match error {
        CommandParsingError::Unknown => Some(format_unknown_command()),
        CommandParsingError::InvalidRegister => Some(format_invalid_register()),
        CommandParsingError::InvalidUnRegister => Some(format_invalid_unregister()),
        _ => None,
    }
}

} // verus!

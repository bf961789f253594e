//! The launcher console: parsing one typed command line, and the replies
//! that depend on nothing but the command itself. Commands that reach into
//! the environment (the user agent, opening a folder) are carried as
//! variants for the caller to act on.
use vstd::prelude::*;
use crate::text::{
    ascii, bytes_eq, copy_bytes, find_byte, lit_bytes, push_all, spec_find, spec_trim, subvec,
    trim,
};

verus! {

/// One parsed console command.
#[derive(Clone, PartialEq, Eq, Debug)]
pub enum ConsoleCommand {
    Echo(Vec<u8>),
    UserAgent,
    OpenGameFolder,
    OpenConfigFolder,
    Help,
    Unknown(Vec<u8>),
}

/// The mathematical form of a parsed console command.
pub enum SpecConsoleCommand {
    Echo(Seq<u8>),
    UserAgent,
    OpenGameFolder,
    OpenConfigFolder,
    Help,
    Unknown(Seq<u8>),
}

impl View for ConsoleCommand {
    type V = SpecConsoleCommand;

    open spec fn view(&self) -> SpecConsoleCommand {
        match self {
            ConsoleCommand::Echo(a) => SpecConsoleCommand::Echo(a@),
            ConsoleCommand::UserAgent => SpecConsoleCommand::UserAgent,
            ConsoleCommand::OpenGameFolder => SpecConsoleCommand::OpenGameFolder,
            ConsoleCommand::OpenConfigFolder => SpecConsoleCommand::OpenConfigFolder,
            ConsoleCommand::Help => SpecConsoleCommand::Help,
            ConsoleCommand::Unknown(c) => SpecConsoleCommand::Unknown(c@),
        }
    }
}

/// ASCII lowercase of one byte.
pub open spec fn spec_lower_byte(b: u8) -> u8 {
    if 65 <= b <= 90 {
        (b + 32) as u8
    } else {
        b
    }
}

/// ASCII lowercase of a byte string.
pub open spec fn spec_lower(s: Seq<u8>) -> Seq<u8> {
    s.map_values(|b: u8| spec_lower_byte(b))
}

fn lower_bytes(v: &Vec<u8>) -> (r: Vec<u8>)
    ensures
        r@ == spec_lower(v@),
{
    let mut r: Vec<u8> = Vec::new();
    let mut i: usize = 0;
    proof {
        assert(r@ =~= spec_lower(v@.take(0)));
    }
    while i < v.len()
        invariant
            0 <= i <= v@.len(),
            r@ == spec_lower(v@.take(i as int)),
        decreases v@.len() - i,
    {
        let b = v[i];
        let lb = if 65 <= b && b <= 90 {
            b + 32
        } else {
            b
        };
        proof {
            assert(spec_lower(v@.take(i + 1)) =~= spec_lower(v@.take(i as int)).push(
                spec_lower_byte(v@[i as int]),
            ));
        }
        r.push(lb);
        i = i + 1;
    }
    proof {
        assert(v@.take(v@.len() as int) =~= v@);
    }
    r
}

/// How one console line parses: the line is trimmed and split at the first
/// space into a command word and its arguments; the command word matches
/// case-insensitively (ASCII).
pub open spec fn spec_parse_console(text: Seq<u8>) -> SpecConsoleCommand {
    let t = spec_trim(text);
    let cmd = match spec_find(t, 32u8) {
        Option::Some(i) => t.take(i),
        Option::None => t,
    };
    let args = match spec_find(t, 32u8) {
        Option::Some(i) => t.skip(i + 1),
        Option::None => Seq::<u8>::empty(),
    };
    let lc = spec_lower(cmd);
    if lc == ascii("echo"@) {
        SpecConsoleCommand::Echo(args)
    } else if lc == ascii("ua"@) || lc == ascii("user-agent"@) {
        SpecConsoleCommand::UserAgent
    } else if lc == ascii("game"@) {
        SpecConsoleCommand::OpenGameFolder
    } else if lc == ascii("config"@) {
        SpecConsoleCommand::OpenConfigFolder
    } else if lc == ascii("help"@) {
        SpecConsoleCommand::Help
    } else {
        SpecConsoleCommand::Unknown(cmd)
    }
}

/// Parse one console line.
pub fn parse_console_command(text: &Vec<u8>) -> (r: ConsoleCommand)
    ensures
        r@ == spec_parse_console(text@),
{
    let t = trim(text);
    let n = t.len();
    let (cmd, args) = match find_byte(&t, 32) {
        Option::Some(i) => {
            proof {
                assert(i < n);
            }
            let c = subvec(&t, 0, i);
            let a = subvec(&t, i + 1, n);
            proof {
                assert(t@.subrange(0, i as int) =~= t@.take(i as int));
                assert(t@.subrange(i + 1, t@.len() as int) =~= t@.skip(i + 1));
            }
            (c, a)
        },
        Option::None => {
            let c = copy_bytes(&t);
            let a: Vec<u8> = Vec::new();
            proof {
                assert(a@ =~= Seq::<u8>::empty());
            }
            (c, a)
        },
    };
    let lc = lower_bytes(&cmd);
    proof {
        reveal_strlit("echo");
        reveal_strlit("ua");
        reveal_strlit("user-agent");
        reveal_strlit("game");
        reveal_strlit("config");
        reveal_strlit("help");
    }
    if bytes_eq(&lc, &lit_bytes("echo")) {
        ConsoleCommand::Echo(args)
    } else if bytes_eq(&lc, &lit_bytes("ua")) || bytes_eq(&lc, &lit_bytes("user-agent")) {
        ConsoleCommand::UserAgent
    } else if bytes_eq(&lc, &lit_bytes("game")) {
        ConsoleCommand::OpenGameFolder
    } else if bytes_eq(&lc, &lit_bytes("config")) {
        ConsoleCommand::OpenConfigFolder
    } else if bytes_eq(&lc, &lit_bytes("help")) {
        ConsoleCommand::Help
    } else {
        ConsoleCommand::Unknown(cmd)
    }
}

/// The replies that depend only on the command itself: the echoed
/// arguments, the help text, and the unknown-command notice. Commands that
/// reach into the environment return nothing here.
pub open spec fn spec_console_reply(c: SpecConsoleCommand) -> Option<Seq<u8>> {
    match c {
        SpecConsoleCommand::Echo(a) => Option::Some(a),
        SpecConsoleCommand::Help => Option::Some(ascii("Commands: user-agent, game, config"@)),
        SpecConsoleCommand::Unknown(cmd) => Option::Some(ascii("Unknown command: "@) + cmd),
        SpecConsoleCommand::UserAgent => Option::None,
        SpecConsoleCommand::OpenGameFolder => Option::None,
        SpecConsoleCommand::OpenConfigFolder => Option::None,
    }
}

/// Build the reply for a command that needs nothing from the environment.
pub fn console_reply(cmd: &ConsoleCommand) -> (r: Option<Vec<u8>>)
    ensures
        (match r {
            Option::Some(v) => spec_console_reply(cmd@) == Option::Some(v@),
            Option::None => spec_console_reply(cmd@) is None,
        }),
{
    match cmd {
        ConsoleCommand::Echo(a) => Option::Some(copy_bytes(a)),
        ConsoleCommand::Help => {
            proof {
                reveal_strlit("Commands: user-agent, game, config");
            }
            Option::Some(lit_bytes("Commands: user-agent, game, config"))
        },
        ConsoleCommand::Unknown(c) => {
            proof {
                reveal_strlit("Unknown command: ");
            }
            let mut v = lit_bytes("Unknown command: ");
            push_all(&mut v, c);
            Option::Some(v)
        },
        ConsoleCommand::UserAgent => Option::None,
        ConsoleCommand::OpenGameFolder => Option::None,
        ConsoleCommand::OpenConfigFolder => Option::None,
    }
}

} // verus!

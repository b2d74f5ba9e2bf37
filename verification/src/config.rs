//! Setting up a server and starting the programs: the checks of what the operator
//! types, the address the server listens on, and what the command line asks for.

use vstd::prelude::*;
use vstd::string::StringExecFns;
use crate::handshake::{is_alphanumeric_ascii, random_alphanumeric_string};
use crate::text::{decimal, parse_u64, parsed_u64, same_text, trim, trimmed, utf8_len};
use vstd::utf8::encode_utf8;

verus! {

/// What a check of a server name answers: a name must be given and take at most 64
/// bytes.
pub open spec fn server_name_check(name: Seq<char>) -> Result<(), Seq<char>> {
    if name.len() == 0 {
        Err("Please enter a name."@)
    } else if utf8_len(name) > 64 {
        Err("A server's name must be 64 or less characters."@)
    } else {
        Ok(())
    }
}

/// Checks a server name typed by the operator.
pub fn validate_server_name(name: &str) -> (res: Result<(), &'static str>)
    ensures
        match res {
            Ok(()) => server_name_check(name@) == Ok::<(), Seq<char>>(()),
            Err(m) => server_name_check(name@) == Err::<(), Seq<char>>(m@),
        },
{
    if name.is_empty() {
        return Err("Please enter a name.");
    }
    if name.as_bytes().len() > 64 {
        return Err("A server's name must be 64 or less characters.");
    }
    Ok(())
}

/// What a check of a server password answers: a password must be given and take at
/// most 255 bytes.
pub open spec fn server_password_check(password: Seq<char>) -> Result<(), Seq<char>> {
    if password.len() == 0 {
        Err("Password must not be empty for security."@)
    } else if utf8_len(password) > 255 {
        Err("The password must be 255 or less characters."@)
    } else {
        Ok(())
    }
}

/// Checks a server password typed by the operator.
pub fn validate_server_password(password: &str) -> (res: Result<(), &'static str>)
    ensures
        match res {
            Ok(()) => server_password_check(password@) == Ok::<(), Seq<char>>(()),
            Err(m) => server_password_check(password@) == Err::<(), Seq<char>>(m@),
        },
{
    if password.is_empty() {
        return Err("Password must not be empty for security.");
    }
    if password.as_bytes().len() > 255 {
        return Err("The password must be 255 or less characters.");
    }
    Ok(())
}

/// What a check of a port answers: the text must read as a 16-bit number (as
/// `str::parse::<u16>` reads it), and the number must not be 0.
pub open spec fn port_check(port: Seq<char>) -> Result<(), Seq<char>> {
    match parsed_u64(port) {
        Some(v) => if v > 65535 {
            Err("Please enter a valid port number"@)
        } else if v == 0 {
            Err("Port number out of range (1-65535)"@)
        } else {
            Ok(())
        },
        None => Err("Please enter a valid port number"@),
    }
}

/// Checks a port typed by the operator.
pub fn validate_port(port: &str) -> (res: Result<(), &'static str>)
    ensures
        match res {
            Ok(()) => port_check(port@) == Ok::<(), Seq<char>>(()),
            Err(m) => port_check(port@) == Err::<(), Seq<char>>(m@),
        },
{
    match parse_u64(port) {
        Some(v) => if v > 65535 {
            Err("Please enter a valid port number")
        } else if v == 0 {
            Err("Port number out of range (1-65535)")
        } else {
            Ok(())
        },
        None => Err("Please enter a valid port number"),
    }
}

/// A random password offered to the operator: ten ASCII letters and digits.
pub fn suggested_password() -> (p: String)
    ensures
        p@.len() == 10,
        forall|i: int| 0 <= i < 10 ==> is_alphanumeric_ascii(#[trigger] p@[i]),
{
    random_alphanumeric_string(10)
}

/// The address a server listens on: its IP address and port joined by `:`.
pub fn server_address(ip: &str, port: &str) -> (a: String)
    ensures
        a@ == ip@ + ":"@ + port@,
{
    let mut a = String::from_str(ip);
    a.append(":");
    a.append(port);
    a
}

/// What the server program was asked to do.
#[derive(Debug)]
pub enum ServerCommand {
    /// `--create_server`.
    Create,
    /// `--start_server`, alone or with `--gui`.
    Start,
    /// `--configure_server`.
    Configure,
    /// `--help`.
    Help,
    /// One argument that is none of the above.
    Unknown(String),
    /// Two arguments that are not `--start_server --gui`.
    UnknownPair(String, String),
    /// No argument, or more than two: create the server if there is none, then start it.
    CreateIfMissingThenStart,
}

/// Reads the server program's command line (`args[0]` is the program).
pub fn server_command(args: &Vec<String>) -> (c: ServerCommand)
    ensures
        args@.len() == 2 ==> c == if args@[1]@ == "--create_server"@ {
            ServerCommand::Create
        } else if args@[1]@ == "--start_server"@ {
            ServerCommand::Start
        } else if args@[1]@ == "--configure_server"@ {
            ServerCommand::Configure
        } else if args@[1]@ == "--help"@ {
            ServerCommand::Help
        } else {
            ServerCommand::Unknown(args@[1])
        },
        args@.len() == 3 ==> c == if args@[1]@ == "--start_server"@ && args@[2]@ == "--gui"@ {
            ServerCommand::Start
        } else {
            ServerCommand::UnknownPair(args@[1], args@[2])
        },
        args@.len() != 2 && args@.len() != 3 ==> c == ServerCommand::CreateIfMissingThenStart,
{
    if args.len() == 2 {
        let a = args[1].as_str();
        if same_text(a, "--create_server") {
            ServerCommand::Create
        } else if same_text(a, "--start_server") {
            ServerCommand::Start
        } else if same_text(a, "--configure_server") {
            ServerCommand::Configure
        } else if same_text(a, "--help") {
            ServerCommand::Help
        } else {
            ServerCommand::Unknown(args[1].clone())
        }
    } else if args.len() == 3 {
        if same_text(args[1].as_str(), "--start_server") && same_text(args[2].as_str(), "--gui") {
            ServerCommand::Start
        } else {
            ServerCommand::UnknownPair(args[1].clone(), args[2].clone())
        }
    } else {
        ServerCommand::CreateIfMissingThenStart
    }
}

/// What the debugging client's command line asks for.
#[derive(Debug)]
pub enum CliStart {
    /// `--create_account USERNAME PASSWORD [HOME_ADDRESS]`: create the account (with no
    /// home server when the address is left out) and stop.
    CreateAccount { username: String, password: String, home_address: String },
    /// Sign in with the stored account.
    SignIn,
}

/// The command line asks to create an account: its first argument is `--create_account`
/// (white space around it aside), followed by a username, a password and, optionally, a
/// home server address.
pub open spec fn asks_create_account(args: Seq<String>) -> bool {
    (args.len() == 4 || args.len() == 5) && trimmed(args[1]@) == "--create_account"@
}

/// Reads the debugging client's command line (`args[0]` is the program).
pub fn cli_start(args: &Vec<String>) -> (s: CliStart)
    ensures
        asks_create_account(args@) ==> (s matches CliStart::CreateAccount {
            username,
            password,
            home_address,
        } && username == args@[2] && password == args@[3] && (args@.len() == 5 ==> home_address
            == args@[4]) && (args@.len() == 4 ==> home_address@.len() == 0)),
        !asks_create_account(args@) ==> s is SignIn,
{
    if args.len() == 4 || args.len() == 5 {
        let command = trim(args[1].as_str());
        if same_text(command.as_str(), "--create_account") {
            let home_address = if args.len() == 5 {
                args[4].clone()
            } else {
                String::new()
            };
            return CliStart::CreateAccount {
                username: args[2].clone(),
                password: args[3].clone(),
                home_address,
            };
        }
    }
    CliStart::SignIn
}

/// A port typed as its decimal numeral is accepted exactly when it is 1 to 65535.
pub proof fn law_ports_from_one_to_65535(n: u64)
    ensures
        port_check(decimal(n as nat)) is Ok <==> 1 <= n <= 65535,
{
    crate::text::law_parse_reads_the_decimal_numeral(n);
}

/// A server name is accepted exactly when it is given and takes at most 64 bytes, and a
/// server password exactly when it is given and takes at most 255 bytes.
pub proof fn law_name_and_password_limits(text: Seq<char>)
    ensures
        server_name_check(text) is Ok <==> text.len() > 0 && encode_utf8(text).len() <= 64,
        server_password_check(text) is Ok <==> text.len() > 0 && encode_utf8(text).len() <= 255,
{
}

} // verus!

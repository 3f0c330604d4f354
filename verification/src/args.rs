//! The command line: what the user asks for, and how the arguments say it.

use vstd::prelude::*;
use vstd::utf8::*;
use crate::decimal::{parse_bounded, parse_unsigned};
use crate::text::same_text;

verus! {

/// The most arguments, the program's own name included, that are accepted.
pub const MAX_ARGUMENTS: usize = 16usize;

/// The port used when none is given.
pub const DEFAULT_PORT: u16 = 2121u16;

/// What the user asked for.
#[derive(Debug)]
pub struct UserEnvironment {
    /// The address to listen on or connect to, as the user wrote it.
    pub ip: String,
    pub port: u16,
    /// Listen for connections (else connect).
    pub server: bool,
    /// Send a file (else receive one).
    pub send: bool,
    /// The file to send, or the folder to receive into.
    pub location: Option<String>,
    pub debug: bool,
}

impl UserEnvironment {
    /// The settings before any argument is read: connect to 127.0.0.1 on
    /// port 2121 and receive, with no location and no debug output.
    pub fn new() -> (env: UserEnvironment)
        ensures
            env.ip@ == "127.0.0.1"@,
            env.port == DEFAULT_PORT,
            !env.server,
            !env.send,
            env.location is None,
            !env.debug,
    {
        UserEnvironment {
            ip: String::from_str("127.0.0.1"),
            port: DEFAULT_PORT,
            server: false,
            send: false,
            location: None,
            debug: false,
        }
    }
}

/// What an argument asks for.
#[derive(PartialEq, Eq, Structural, Debug)]
pub enum Flag {
    Ip,
    Port,
    Location,
    Server,
    Client,
    Send,
    Receive,
    Debug,
    Help,
    Unknown,
}

/// The meaning of each spelling of each flag.
pub open spec fn flag_of(a: Seq<char>) -> Flag {
    if a == "--ip"@ || a == "-i"@ {
        Flag::Ip
    } else if a == "--port"@ || a == "-p"@ {
        Flag::Port
    } else if a == "--location"@ || a == "-l"@ {
        Flag::Location
    } else if a == "--server"@ || a == "-sv"@ {
        Flag::Server
    } else if a == "--client"@ || a == "-cl"@ {
        Flag::Client
    } else if a == "--send"@ || a == "-s"@ {
        Flag::Send
    } else if a == "--receive"@ || a == "-r"@ {
        Flag::Receive
    } else if a == "--debug"@ || a == "-d"@ {
        Flag::Debug
    } else if a == "--help"@ || a == "-h"@ {
        Flag::Help
    } else {
        Flag::Unknown
    }
}

/// Reads one argument's flag.
pub fn classify_argument(a: &str) -> (flag: Flag)
    ensures
        flag == flag_of(a@),
{
    if same_text(a, "--ip") || same_text(a, "-i") {
        Flag::Ip
    } else if same_text(a, "--port") || same_text(a, "-p") {
        Flag::Port
    } else if same_text(a, "--location") || same_text(a, "-l") {
        Flag::Location
    } else if same_text(a, "--server") || same_text(a, "-sv") {
        Flag::Server
    } else if same_text(a, "--client") || same_text(a, "-cl") {
        Flag::Client
    } else if same_text(a, "--send") || same_text(a, "-s") {
        Flag::Send
    } else if same_text(a, "--receive") || same_text(a, "-r") {
        Flag::Receive
    } else if same_text(a, "--debug") || same_text(a, "-d") {
        Flag::Debug
    } else if same_text(a, "--help") || same_text(a, "-h") {
        Flag::Help
    } else {
        Flag::Unknown
    }
}

/// How reading the arguments ends.
#[derive(Debug)]
pub enum ArgsOutcome {
    /// All arguments were read: run with these settings.
    Run(UserEnvironment),
    /// More than `MAX_ARGUMENTS` arguments (their number).
    TooManyArguments(usize),
    /// The user asked for help.
    Help,
    /// An argument that is no flag.
    InvalidArgument(String),
    /// A flag that takes a value came last.
    MissingValue(String),
    /// The value of `--ip` is no IP address.
    InvalidIp(String),
    /// The value of `--port` is no port number.
    InvalidPort(String),
}

/// Reading the arguments from index `i` on, with the settings `env` so far.
/// `ip_ok[j]` tells whether `args[j]` is an IP address.
pub open spec fn scan_args(env: UserEnvironment, args: Seq<String>, ip_ok: Seq<bool>, i: int) -> ArgsOutcome
    decreases args.len() - i,
{
    if i < 0 || i >= args.len() {
        ArgsOutcome::Run(env)
    } else {
        let flag = flag_of(args[i]@);
        if flag == Flag::Ip || flag == Flag::Port || flag == Flag::Location {
            if i + 1 >= args.len() {
                ArgsOutcome::MissingValue(args[i])
            } else {
                let value = args[i + 1];
                if flag == Flag::Ip {
                    if ip_ok[i + 1] {
                        scan_args(UserEnvironment { ip: value, ..env }, args, ip_ok, i + 2)
                    } else {
                        ArgsOutcome::InvalidIp(value)
                    }
                } else if flag == Flag::Port {
                    match parse_unsigned(encode_utf8(value@), 65535) {
                        Some(p) => scan_args(UserEnvironment { port: p as u16, ..env }, args, ip_ok, i + 2),
                        None => ArgsOutcome::InvalidPort(value),
                    }
                } else {
                    scan_args(UserEnvironment { location: Some(value), ..env }, args, ip_ok, i + 2)
                }
            }
        } else if flag == Flag::Server {
            scan_args(UserEnvironment { server: true, ..env }, args, ip_ok, i + 1)
        } else if flag == Flag::Client {
            scan_args(UserEnvironment { server: false, ..env }, args, ip_ok, i + 1)
        } else if flag == Flag::Send {
            scan_args(UserEnvironment { send: true, ..env }, args, ip_ok, i + 1)
        } else if flag == Flag::Receive {
            scan_args(UserEnvironment { send: false, ..env }, args, ip_ok, i + 1)
        } else if flag == Flag::Debug {
            scan_args(UserEnvironment { debug: true, ..env }, args, ip_ok, i + 1)
        } else if flag == Flag::Help {
            ArgsOutcome::Help
        } else {
            ArgsOutcome::InvalidArgument(args[i])
        }
    }
}

/// Reading the whole command line (`args[0]` is the program's name).
pub open spec fn spec_take_args(env: UserEnvironment, args: Seq<String>, ip_ok: Seq<bool>) -> ArgsOutcome {
    if args.len() > MAX_ARGUMENTS {
        ArgsOutcome::TooManyArguments(args.len() as usize)
    } else {
        scan_args(env, args, ip_ok, 1)
    }
}

/// Reads the command line into `user_environment`. `ip_ok[j]` must tell
/// whether `args[j]` is an IP address.
pub fn take_args(user_environment: UserEnvironment, args: &Vec<String>, ip_ok: &Vec<bool>) -> (res: ArgsOutcome)
    requires
        ip_ok.len() == args.len(),
    ensures
        res == spec_take_args(user_environment, args@, ip_ok@),
{
    if args.len() > MAX_ARGUMENTS {
        return ArgsOutcome::TooManyArguments(args.len());
    }
    let mut env = user_environment;
    let mut i: usize = 1;
    while i < args.len()
        invariant
            1 <= i,
            ip_ok.len() == args.len(),
            args.len() <= MAX_ARGUMENTS,
            spec_take_args(user_environment, args@, ip_ok@) == scan_args(env, args@, ip_ok@, i as int),
        decreases args.len() - i,
    {
        let flag = classify_argument(args[i].as_str());
        match flag {
            Flag::Ip | Flag::Port | Flag::Location => {
                if i + 1 >= args.len() {
                    return ArgsOutcome::MissingValue(args[i].clone());
                }
                let value = args[i + 1].clone();
                match flag {
                    Flag::Ip => {
                        if !ip_ok[i + 1] {
                            return ArgsOutcome::InvalidIp(value);
                        }
                        env.ip = value;
                    },
                    Flag::Port => {
                        match parse_bounded(value.as_str().as_bytes(), 65535) {
                            Some(p) => {
                                env.port = p as u16;
                            },
                            None => {
                                return ArgsOutcome::InvalidPort(value);
                            },
                        }
                    },
                    _ => {
                        env.location = Some(value);
                    },
                }
                i = i + 2;
            },
            Flag::Server => {
                env.server = true;
                i = i + 1;
            },
            Flag::Client => {
                env.server = false;
                i = i + 1;
            },
            Flag::Send => {
                env.send = true;
                i = i + 1;
            },
            Flag::Receive => {
                env.send = false;
                i = i + 1;
            },
            Flag::Debug => {
                env.debug = true;
                i = i + 1;
            },
            Flag::Help => {
                return ArgsOutcome::Help;
            },
            Flag::Unknown => {
                return ArgsOutcome::InvalidArgument(args[i].clone());
            },
        }
    }
    ArgsOutcome::Run(env)
}

/// Reading arguments from index `i` on only ever runs with the IP address it
/// started with or with an argument marked as an IP address.
pub proof fn lemma_scan_ip_checked(env: UserEnvironment, args: Seq<String>, ip_ok: Seq<bool>, i: int)
    requires
        ip_ok.len() == args.len(),
        i >= 1,
    ensures
        scan_args(env, args, ip_ok, i) matches ArgsOutcome::Run(e) ==> (e.ip == env.ip || exists|j: int|
            1 <= j < args.len() && ip_ok[j] && #[trigger] args[j] == e.ip),
    decreases args.len() - i,
{
    if i < args.len() {
        let flag = flag_of(args[i]@);
        if i + 1 < args.len() {
            let value = args[i + 1];
            lemma_scan_ip_checked(UserEnvironment { ip: value, ..env }, args, ip_ok, i + 2);
            match parse_unsigned(encode_utf8(value@), 65535) {
                Some(p) => lemma_scan_ip_checked(UserEnvironment { port: p as u16, ..env }, args, ip_ok, i + 2),
                None => {},
            }
            lemma_scan_ip_checked(UserEnvironment { location: Some(value), ..env }, args, ip_ok, i + 2);
        }
        lemma_scan_ip_checked(UserEnvironment { server: true, ..env }, args, ip_ok, i + 1);
        lemma_scan_ip_checked(UserEnvironment { server: false, ..env }, args, ip_ok, i + 1);
        lemma_scan_ip_checked(UserEnvironment { send: true, ..env }, args, ip_ok, i + 1);
        lemma_scan_ip_checked(UserEnvironment { send: false, ..env }, args, ip_ok, i + 1);
        lemma_scan_ip_checked(UserEnvironment { debug: true, ..env }, args, ip_ok, i + 1);
    }
}

/// When the command line is accepted, the IP address to use is the starting
/// one or an argument that was marked as an IP address: the settings never
/// carry an address that did not parse.
pub proof fn lemma_accepted_ip_is_checked(env: UserEnvironment, args: Seq<String>, ip_ok: Seq<bool>)
    requires
        ip_ok.len() == args.len(),
    ensures
        spec_take_args(env, args, ip_ok) matches ArgsOutcome::Run(e) ==> (e.ip == env.ip || exists|j: int|
            1 <= j < args.len() && ip_ok[j] && #[trigger] args[j] == e.ip),
{
    lemma_scan_ip_checked(env, args, ip_ok, 1);
}


/// The spellings of each flag: every flag has exactly its long and its short
/// spelling, and no other text is a flag.
pub proof fn lemma_flag_spellings(a: Seq<char>)
    ensures
        (flag_of(a) == Flag::Ip) <==> (a == "--ip"@ || a == "-i"@),
        (flag_of(a) == Flag::Port) <==> (a == "--port"@ || a == "-p"@),
        (flag_of(a) == Flag::Location) <==> (a == "--location"@ || a == "-l"@),
        (flag_of(a) == Flag::Server) <==> (a == "--server"@ || a == "-sv"@),
        (flag_of(a) == Flag::Client) <==> (a == "--client"@ || a == "-cl"@),
        (flag_of(a) == Flag::Send) <==> (a == "--send"@ || a == "-s"@),
        (flag_of(a) == Flag::Receive) <==> (a == "--receive"@ || a == "-r"@),
        (flag_of(a) == Flag::Debug) <==> (a == "--debug"@ || a == "-d"@),
        (flag_of(a) == Flag::Help) <==> (a == "--help"@ || a == "-h"@),
{
    assert(flag_of("--ip"@) == Flag::Ip) by {
        reveal_strlit("--ip");
    }
    assert(flag_of("-i"@) == Flag::Ip) by {
        reveal_strlit("-i");
    }
    assert(flag_of("--port"@) == Flag::Port) by {
        reveal_strlit("--port");
        reveal_strlit("--ip");
        assert("--port"@.len() != "--ip"@.len());
        assert("--port"@ != "--ip"@);
        reveal_strlit("-i");
        assert("--port"@.len() != "-i"@.len());
        assert("--port"@ != "-i"@);
    }
    assert(flag_of("-p"@) == Flag::Port) by {
        reveal_strlit("-p");
        reveal_strlit("--ip");
        assert("-p"@.len() != "--ip"@.len());
        assert("-p"@ != "--ip"@);
        reveal_strlit("-i");
        assert("-p"@[1] != "-i"@[1]);
        assert("-p"@ != "-i"@);
    }
    assert(flag_of("--location"@) == Flag::Location) by {
        reveal_strlit("--location");
        reveal_strlit("--ip");
        assert("--location"@.len() != "--ip"@.len());
        assert("--location"@ != "--ip"@);
        reveal_strlit("-i");
        assert("--location"@.len() != "-i"@.len());
        assert("--location"@ != "-i"@);
        reveal_strlit("--port");
        assert("--location"@.len() != "--port"@.len());
        assert("--location"@ != "--port"@);
        reveal_strlit("-p");
        assert("--location"@.len() != "-p"@.len());
        assert("--location"@ != "-p"@);
    }
    assert(flag_of("-l"@) == Flag::Location) by {
        reveal_strlit("-l");
        reveal_strlit("--ip");
        assert("-l"@.len() != "--ip"@.len());
        assert("-l"@ != "--ip"@);
        reveal_strlit("-i");
        assert("-l"@[1] != "-i"@[1]);
        assert("-l"@ != "-i"@);
        reveal_strlit("--port");
        assert("-l"@.len() != "--port"@.len());
        assert("-l"@ != "--port"@);
        reveal_strlit("-p");
        assert("-l"@[1] != "-p"@[1]);
        assert("-l"@ != "-p"@);
    }
    assert(flag_of("--server"@) == Flag::Server) by {
        reveal_strlit("--server");
        reveal_strlit("--ip");
        assert("--server"@.len() != "--ip"@.len());
        assert("--server"@ != "--ip"@);
        reveal_strlit("-i");
        assert("--server"@.len() != "-i"@.len());
        assert("--server"@ != "-i"@);
        reveal_strlit("--port");
        assert("--server"@.len() != "--port"@.len());
        assert("--server"@ != "--port"@);
        reveal_strlit("-p");
        assert("--server"@.len() != "-p"@.len());
        assert("--server"@ != "-p"@);
        reveal_strlit("--location");
        assert("--server"@.len() != "--location"@.len());
        assert("--server"@ != "--location"@);
        reveal_strlit("-l");
        assert("--server"@.len() != "-l"@.len());
        assert("--server"@ != "-l"@);
    }
    assert(flag_of("-sv"@) == Flag::Server) by {
        reveal_strlit("-sv");
        reveal_strlit("--ip");
        assert("-sv"@.len() != "--ip"@.len());
        assert("-sv"@ != "--ip"@);
        reveal_strlit("-i");
        assert("-sv"@.len() != "-i"@.len());
        assert("-sv"@ != "-i"@);
        reveal_strlit("--port");
        assert("-sv"@.len() != "--port"@.len());
        assert("-sv"@ != "--port"@);
        reveal_strlit("-p");
        assert("-sv"@.len() != "-p"@.len());
        assert("-sv"@ != "-p"@);
        reveal_strlit("--location");
        assert("-sv"@.len() != "--location"@.len());
        assert("-sv"@ != "--location"@);
        reveal_strlit("-l");
        assert("-sv"@.len() != "-l"@.len());
        assert("-sv"@ != "-l"@);
    }
    assert(flag_of("--client"@) == Flag::Client) by {
        reveal_strlit("--client");
        reveal_strlit("--ip");
        assert("--client"@.len() != "--ip"@.len());
        assert("--client"@ != "--ip"@);
        reveal_strlit("-i");
        assert("--client"@.len() != "-i"@.len());
        assert("--client"@ != "-i"@);
        reveal_strlit("--port");
        assert("--client"@.len() != "--port"@.len());
        assert("--client"@ != "--port"@);
        reveal_strlit("-p");
        assert("--client"@.len() != "-p"@.len());
        assert("--client"@ != "-p"@);
        reveal_strlit("--location");
        assert("--client"@.len() != "--location"@.len());
        assert("--client"@ != "--location"@);
        reveal_strlit("-l");
        assert("--client"@.len() != "-l"@.len());
        assert("--client"@ != "-l"@);
        reveal_strlit("--server");
        assert("--client"@[2] != "--server"@[2]);
        assert("--client"@ != "--server"@);
        reveal_strlit("-sv");
        assert("--client"@.len() != "-sv"@.len());
        assert("--client"@ != "-sv"@);
    }
    assert(flag_of("-cl"@) == Flag::Client) by {
        reveal_strlit("-cl");
        reveal_strlit("--ip");
        assert("-cl"@.len() != "--ip"@.len());
        assert("-cl"@ != "--ip"@);
        reveal_strlit("-i");
        assert("-cl"@.len() != "-i"@.len());
        assert("-cl"@ != "-i"@);
        reveal_strlit("--port");
        assert("-cl"@.len() != "--port"@.len());
        assert("-cl"@ != "--port"@);
        reveal_strlit("-p");
        assert("-cl"@.len() != "-p"@.len());
        assert("-cl"@ != "-p"@);
        reveal_strlit("--location");
        assert("-cl"@.len() != "--location"@.len());
        assert("-cl"@ != "--location"@);
        reveal_strlit("-l");
        assert("-cl"@.len() != "-l"@.len());
        assert("-cl"@ != "-l"@);
        reveal_strlit("--server");
        assert("-cl"@.len() != "--server"@.len());
        assert("-cl"@ != "--server"@);
        reveal_strlit("-sv");
        assert("-cl"@[1] != "-sv"@[1]);
        assert("-cl"@ != "-sv"@);
    }
    assert(flag_of("--send"@) == Flag::Send) by {
        reveal_strlit("--send");
        reveal_strlit("--ip");
        assert("--send"@.len() != "--ip"@.len());
        assert("--send"@ != "--ip"@);
        reveal_strlit("-i");
        assert("--send"@.len() != "-i"@.len());
        assert("--send"@ != "-i"@);
        reveal_strlit("--port");
        assert("--send"@[2] != "--port"@[2]);
        assert("--send"@ != "--port"@);
        reveal_strlit("-p");
        assert("--send"@.len() != "-p"@.len());
        assert("--send"@ != "-p"@);
        reveal_strlit("--location");
        assert("--send"@.len() != "--location"@.len());
        assert("--send"@ != "--location"@);
        reveal_strlit("-l");
        assert("--send"@.len() != "-l"@.len());
        assert("--send"@ != "-l"@);
        reveal_strlit("--server");
        assert("--send"@.len() != "--server"@.len());
        assert("--send"@ != "--server"@);
        reveal_strlit("-sv");
        assert("--send"@.len() != "-sv"@.len());
        assert("--send"@ != "-sv"@);
        reveal_strlit("--client");
        assert("--send"@.len() != "--client"@.len());
        assert("--send"@ != "--client"@);
        reveal_strlit("-cl");
        assert("--send"@.len() != "-cl"@.len());
        assert("--send"@ != "-cl"@);
    }
    assert(flag_of("-s"@) == Flag::Send) by {
        reveal_strlit("-s");
        reveal_strlit("--ip");
        assert("-s"@.len() != "--ip"@.len());
        assert("-s"@ != "--ip"@);
        reveal_strlit("-i");
        assert("-s"@[1] != "-i"@[1]);
        assert("-s"@ != "-i"@);
        reveal_strlit("--port");
        assert("-s"@.len() != "--port"@.len());
        assert("-s"@ != "--port"@);
        reveal_strlit("-p");
        assert("-s"@[1] != "-p"@[1]);
        assert("-s"@ != "-p"@);
        reveal_strlit("--location");
        assert("-s"@.len() != "--location"@.len());
        assert("-s"@ != "--location"@);
        reveal_strlit("-l");
        assert("-s"@[1] != "-l"@[1]);
        assert("-s"@ != "-l"@);
        reveal_strlit("--server");
        assert("-s"@.len() != "--server"@.len());
        assert("-s"@ != "--server"@);
        reveal_strlit("-sv");
        assert("-s"@.len() != "-sv"@.len());
        assert("-s"@ != "-sv"@);
        reveal_strlit("--client");
        assert("-s"@.len() != "--client"@.len());
        assert("-s"@ != "--client"@);
        reveal_strlit("-cl");
        assert("-s"@.len() != "-cl"@.len());
        assert("-s"@ != "-cl"@);
    }
    assert(flag_of("--receive"@) == Flag::Receive) by {
        reveal_strlit("--receive");
        reveal_strlit("--ip");
        assert("--receive"@.len() != "--ip"@.len());
        assert("--receive"@ != "--ip"@);
        reveal_strlit("-i");
        assert("--receive"@.len() != "-i"@.len());
        assert("--receive"@ != "-i"@);
        reveal_strlit("--port");
        assert("--receive"@.len() != "--port"@.len());
        assert("--receive"@ != "--port"@);
        reveal_strlit("-p");
        assert("--receive"@.len() != "-p"@.len());
        assert("--receive"@ != "-p"@);
        reveal_strlit("--location");
        assert("--receive"@.len() != "--location"@.len());
        assert("--receive"@ != "--location"@);
        reveal_strlit("-l");
        assert("--receive"@.len() != "-l"@.len());
        assert("--receive"@ != "-l"@);
        reveal_strlit("--server");
        assert("--receive"@.len() != "--server"@.len());
        assert("--receive"@ != "--server"@);
        reveal_strlit("-sv");
        assert("--receive"@.len() != "-sv"@.len());
        assert("--receive"@ != "-sv"@);
        reveal_strlit("--client");
        assert("--receive"@.len() != "--client"@.len());
        assert("--receive"@ != "--client"@);
        reveal_strlit("-cl");
        assert("--receive"@.len() != "-cl"@.len());
        assert("--receive"@ != "-cl"@);
        reveal_strlit("--send");
        assert("--receive"@.len() != "--send"@.len());
        assert("--receive"@ != "--send"@);
        reveal_strlit("-s");
        assert("--receive"@.len() != "-s"@.len());
        assert("--receive"@ != "-s"@);
    }
    assert(flag_of("-r"@) == Flag::Receive) by {
        reveal_strlit("-r");
        reveal_strlit("--ip");
        assert("-r"@.len() != "--ip"@.len());
        assert("-r"@ != "--ip"@);
        reveal_strlit("-i");
        assert("-r"@[1] != "-i"@[1]);
        assert("-r"@ != "-i"@);
        reveal_strlit("--port");
        assert("-r"@.len() != "--port"@.len());
        assert("-r"@ != "--port"@);
        reveal_strlit("-p");
        assert("-r"@[1] != "-p"@[1]);
        assert("-r"@ != "-p"@);
        reveal_strlit("--location");
        assert("-r"@.len() != "--location"@.len());
        assert("-r"@ != "--location"@);
        reveal_strlit("-l");
        assert("-r"@[1] != "-l"@[1]);
        assert("-r"@ != "-l"@);
        reveal_strlit("--server");
        assert("-r"@.len() != "--server"@.len());
        assert("-r"@ != "--server"@);
        reveal_strlit("-sv");
        assert("-r"@.len() != "-sv"@.len());
        assert("-r"@ != "-sv"@);
        reveal_strlit("--client");
        assert("-r"@.len() != "--client"@.len());
        assert("-r"@ != "--client"@);
        reveal_strlit("-cl");
        assert("-r"@.len() != "-cl"@.len());
        assert("-r"@ != "-cl"@);
        reveal_strlit("--send");
        assert("-r"@.len() != "--send"@.len());
        assert("-r"@ != "--send"@);
        reveal_strlit("-s");
        assert("-r"@[1] != "-s"@[1]);
        assert("-r"@ != "-s"@);
    }
    assert(flag_of("--debug"@) == Flag::Debug) by {
        reveal_strlit("--debug");
        reveal_strlit("--ip");
        assert("--debug"@.len() != "--ip"@.len());
        assert("--debug"@ != "--ip"@);
        reveal_strlit("-i");
        assert("--debug"@.len() != "-i"@.len());
        assert("--debug"@ != "-i"@);
        reveal_strlit("--port");
        assert("--debug"@.len() != "--port"@.len());
        assert("--debug"@ != "--port"@);
        reveal_strlit("-p");
        assert("--debug"@.len() != "-p"@.len());
        assert("--debug"@ != "-p"@);
        reveal_strlit("--location");
        assert("--debug"@.len() != "--location"@.len());
        assert("--debug"@ != "--location"@);
        reveal_strlit("-l");
        assert("--debug"@.len() != "-l"@.len());
        assert("--debug"@ != "-l"@);
        reveal_strlit("--server");
        assert("--debug"@.len() != "--server"@.len());
        assert("--debug"@ != "--server"@);
        reveal_strlit("-sv");
        assert("--debug"@.len() != "-sv"@.len());
        assert("--debug"@ != "-sv"@);
        reveal_strlit("--client");
        assert("--debug"@.len() != "--client"@.len());
        assert("--debug"@ != "--client"@);
        reveal_strlit("-cl");
        assert("--debug"@.len() != "-cl"@.len());
        assert("--debug"@ != "-cl"@);
        reveal_strlit("--send");
        assert("--debug"@.len() != "--send"@.len());
        assert("--debug"@ != "--send"@);
        reveal_strlit("-s");
        assert("--debug"@.len() != "-s"@.len());
        assert("--debug"@ != "-s"@);
        reveal_strlit("--receive");
        assert("--debug"@.len() != "--receive"@.len());
        assert("--debug"@ != "--receive"@);
        reveal_strlit("-r");
        assert("--debug"@.len() != "-r"@.len());
        assert("--debug"@ != "-r"@);
    }
    assert(flag_of("-d"@) == Flag::Debug) by {
        reveal_strlit("-d");
        reveal_strlit("--ip");
        assert("-d"@.len() != "--ip"@.len());
        assert("-d"@ != "--ip"@);
        reveal_strlit("-i");
        assert("-d"@[1] != "-i"@[1]);
        assert("-d"@ != "-i"@);
        reveal_strlit("--port");
        assert("-d"@.len() != "--port"@.len());
        assert("-d"@ != "--port"@);
        reveal_strlit("-p");
        assert("-d"@[1] != "-p"@[1]);
        assert("-d"@ != "-p"@);
        reveal_strlit("--location");
        assert("-d"@.len() != "--location"@.len());
        assert("-d"@ != "--location"@);
        reveal_strlit("-l");
        assert("-d"@[1] != "-l"@[1]);
        assert("-d"@ != "-l"@);
        reveal_strlit("--server");
        assert("-d"@.len() != "--server"@.len());
        assert("-d"@ != "--server"@);
        reveal_strlit("-sv");
        assert("-d"@.len() != "-sv"@.len());
        assert("-d"@ != "-sv"@);
        reveal_strlit("--client");
        assert("-d"@.len() != "--client"@.len());
        assert("-d"@ != "--client"@);
        reveal_strlit("-cl");
        assert("-d"@.len() != "-cl"@.len());
        assert("-d"@ != "-cl"@);
        reveal_strlit("--send");
        assert("-d"@.len() != "--send"@.len());
        assert("-d"@ != "--send"@);
        reveal_strlit("-s");
        assert("-d"@[1] != "-s"@[1]);
        assert("-d"@ != "-s"@);
        reveal_strlit("--receive");
        assert("-d"@.len() != "--receive"@.len());
        assert("-d"@ != "--receive"@);
        reveal_strlit("-r");
        assert("-d"@[1] != "-r"@[1]);
        assert("-d"@ != "-r"@);
    }
    assert(flag_of("--help"@) == Flag::Help) by {
        reveal_strlit("--help");
        reveal_strlit("--ip");
        assert("--help"@.len() != "--ip"@.len());
        assert("--help"@ != "--ip"@);
        reveal_strlit("-i");
        assert("--help"@.len() != "-i"@.len());
        assert("--help"@ != "-i"@);
        reveal_strlit("--port");
        assert("--help"@[2] != "--port"@[2]);
        assert("--help"@ != "--port"@);
        reveal_strlit("-p");
        assert("--help"@.len() != "-p"@.len());
        assert("--help"@ != "-p"@);
        reveal_strlit("--location");
        assert("--help"@.len() != "--location"@.len());
        assert("--help"@ != "--location"@);
        reveal_strlit("-l");
        assert("--help"@.len() != "-l"@.len());
        assert("--help"@ != "-l"@);
        reveal_strlit("--server");
        assert("--help"@.len() != "--server"@.len());
        assert("--help"@ != "--server"@);
        reveal_strlit("-sv");
        assert("--help"@.len() != "-sv"@.len());
        assert("--help"@ != "-sv"@);
        reveal_strlit("--client");
        assert("--help"@.len() != "--client"@.len());
        assert("--help"@ != "--client"@);
        reveal_strlit("-cl");
        assert("--help"@.len() != "-cl"@.len());
        assert("--help"@ != "-cl"@);
        reveal_strlit("--send");
        assert("--help"@[2] != "--send"@[2]);
        assert("--help"@ != "--send"@);
        reveal_strlit("-s");
        assert("--help"@.len() != "-s"@.len());
        assert("--help"@ != "-s"@);
        reveal_strlit("--receive");
        assert("--help"@.len() != "--receive"@.len());
        assert("--help"@ != "--receive"@);
        reveal_strlit("-r");
        assert("--help"@.len() != "-r"@.len());
        assert("--help"@ != "-r"@);
        reveal_strlit("--debug");
        assert("--help"@.len() != "--debug"@.len());
        assert("--help"@ != "--debug"@);
        reveal_strlit("-d");
        assert("--help"@.len() != "-d"@.len());
        assert("--help"@ != "-d"@);
    }
    assert(flag_of("-h"@) == Flag::Help) by {
        reveal_strlit("-h");
        reveal_strlit("--ip");
        assert("-h"@.len() != "--ip"@.len());
        assert("-h"@ != "--ip"@);
        reveal_strlit("-i");
        assert("-h"@[1] != "-i"@[1]);
        assert("-h"@ != "-i"@);
        reveal_strlit("--port");
        assert("-h"@.len() != "--port"@.len());
        assert("-h"@ != "--port"@);
        reveal_strlit("-p");
        assert("-h"@[1] != "-p"@[1]);
        assert("-h"@ != "-p"@);
        reveal_strlit("--location");
        assert("-h"@.len() != "--location"@.len());
        assert("-h"@ != "--location"@);
        reveal_strlit("-l");
        assert("-h"@[1] != "-l"@[1]);
        assert("-h"@ != "-l"@);
        reveal_strlit("--server");
        assert("-h"@.len() != "--server"@.len());
        assert("-h"@ != "--server"@);
        reveal_strlit("-sv");
        assert("-h"@.len() != "-sv"@.len());
        assert("-h"@ != "-sv"@);
        reveal_strlit("--client");
        assert("-h"@.len() != "--client"@.len());
        assert("-h"@ != "--client"@);
        reveal_strlit("-cl");
        assert("-h"@.len() != "-cl"@.len());
        assert("-h"@ != "-cl"@);
        reveal_strlit("--send");
        assert("-h"@.len() != "--send"@.len());
        assert("-h"@ != "--send"@);
        reveal_strlit("-s");
        assert("-h"@[1] != "-s"@[1]);
        assert("-h"@ != "-s"@);
        reveal_strlit("--receive");
        assert("-h"@.len() != "--receive"@.len());
        assert("-h"@ != "--receive"@);
        reveal_strlit("-r");
        assert("-h"@[1] != "-r"@[1]);
        assert("-h"@ != "-r"@);
        reveal_strlit("--debug");
        assert("-h"@.len() != "--debug"@.len());
        assert("-h"@ != "--debug"@);
        reveal_strlit("-d");
        assert("-h"@[1] != "-d"@[1]);
        assert("-h"@ != "-d"@);
    }
}

/// Flags that take the next argument as their value.
pub open spec fn takes_value(f: Flag) -> bool {
    f == Flag::Ip || f == Flag::Port || f == Flag::Location
}

/// Where the next flag stands after the one at `i`: a flag with a value
/// is followed by that value.
#[verifier::inline]
pub open spec fn next_flag_position(args: Seq<String>, i: int) -> int {
    if takes_value(flag_of(args[i]@)) {
        i + 2
    } else {
        i + 1
    }
}

/// The value that the last flag `f` among the flags from `i` on gives, if
/// any of them is `f` and has a value.
pub open spec fn last_value(args: Seq<String>, i: int, f: Flag) -> Option<String>
    decreases args.len() + 1 - i,
{
    if i < 0 || i >= args.len() {
        None
    } else {
        let later = last_value(args, next_flag_position(args, i), f);
        if later is Some {
            later
        } else if flag_of(args[i]@) == f && i + 1 < args.len() {
            Some(args[i + 1])
        } else {
            None
        }
    }
}

/// The last of the rival flags `a` and `b` among the flags from `i` on.
pub open spec fn last_of(args: Seq<String>, i: int, a: Flag, b: Flag) -> Option<Flag>
    decreases args.len() + 1 - i,
{
    if i < 0 || i >= args.len() {
        None
    } else {
        let later = last_of(args, next_flag_position(args, i), a, b);
        if later is Some {
            later
        } else if flag_of(args[i]@) == a || flag_of(args[i]@) == b {
            Some(flag_of(args[i]@))
        } else {
            None
        }
    }
}

/// Whether flag `f` is among the flags from `i` on.
pub open spec fn has_flag(args: Seq<String>, i: int, f: Flag) -> bool
    decreases args.len() + 1 - i,
{
    if i < 0 || i >= args.len() {
        false
    } else {
        flag_of(args[i]@) == f || has_flag(args, next_flag_position(args, i), f)
    }
}

/// What each ending of the reading says, for the reading from flag position
/// `i` on with settings `env`:
/// - on a run, every setting is the one its last flag gave, or the starting
///   one when no flag for it came: the address and location are the values
///   of the last `--ip` and `--location`, the port is the number the last
///   `--port` value reads as, server/client and send/receive go by the last
///   of the two rival flags, and debug is on when it was or a `--debug` came;
/// - an invalid port is a value that does not read as a number up to 65535;
/// - an invalid address is an argument marked as no address;
/// - an invalid argument is an argument that is no flag;
/// - a missing value is a flag that takes one, standing last;
/// - help is asked by a `--help` among the flags.
pub proof fn lemma_scan_outcome(env: UserEnvironment, args: Seq<String>, ip_ok: Seq<bool>, i: int)
    requires
        ip_ok.len() == args.len(),
        i >= 0,
    ensures
        scan_args(env, args, ip_ok, i) matches ArgsOutcome::Run(e) ==> {
            &&& e.ip == (match last_value(args, i, Flag::Ip) {
                Some(v) => v,
                None => env.ip,
            })
            &&& (match last_value(args, i, Flag::Port) {
                Some(v) => parse_unsigned(encode_utf8(v@), 65535) == Some(e.port as nat),
                None => e.port == env.port,
            })
            &&& e.location == (match last_value(args, i, Flag::Location) {
                Some(v) => Some(v),
                None => env.location,
            })
            &&& e.server == (match last_of(args, i, Flag::Server, Flag::Client) {
                Some(f) => f == Flag::Server,
                None => env.server,
            })
            &&& e.send == (match last_of(args, i, Flag::Send, Flag::Receive) {
                Some(f) => f == Flag::Send,
                None => env.send,
            })
            &&& e.debug == (env.debug || has_flag(args, i, Flag::Debug))
        },
        scan_args(env, args, ip_ok, i) matches ArgsOutcome::InvalidPort(w) ==> parse_unsigned(
            encode_utf8(w@),
            65535,
        ) is None,
        scan_args(env, args, ip_ok, i) matches ArgsOutcome::InvalidIp(w) ==> exists|j: int|
            i < j < args.len() && !ip_ok[j] && #[trigger] args[j] == w,
        scan_args(env, args, ip_ok, i) matches ArgsOutcome::InvalidArgument(w) ==> flag_of(w@)
            == Flag::Unknown && exists|j: int| i <= j < args.len() && #[trigger] args[j] == w,
        scan_args(env, args, ip_ok, i) matches ArgsOutcome::MissingValue(w) ==> takes_value(
            flag_of(w@),
        ) && args.len() > 0 && w == args.last(),
        scan_args(env, args, ip_ok, i) is Help ==> has_flag(args, i, Flag::Help),
        !(scan_args(env, args, ip_ok, i) is TooManyArguments),
    decreases args.len() - i,
{
    if i < args.len() {
        let flag = flag_of(args[i]@);
        if i + 1 < args.len() {
            let value = args[i + 1];
            lemma_scan_outcome(UserEnvironment { ip: value, ..env }, args, ip_ok, i + 2);
            match parse_unsigned(encode_utf8(value@), 65535) {
                Some(p) => lemma_scan_outcome(UserEnvironment { port: p as u16, ..env }, args, ip_ok, i + 2),
                None => {},
            }
            lemma_scan_outcome(UserEnvironment { location: Some(value), ..env }, args, ip_ok, i + 2);
        }
        lemma_scan_outcome(UserEnvironment { server: true, ..env }, args, ip_ok, i + 1);
        lemma_scan_outcome(UserEnvironment { server: false, ..env }, args, ip_ok, i + 1);
        lemma_scan_outcome(UserEnvironment { send: true, ..env }, args, ip_ok, i + 1);
        lemma_scan_outcome(UserEnvironment { send: false, ..env }, args, ip_ok, i + 1);
        lemma_scan_outcome(UserEnvironment { debug: true, ..env }, args, ip_ok, i + 1);
    }
}

/// What reading a whole command line ends in, by the same facts: more than
/// `MAX_ARGUMENTS` arguments are refused with their number; otherwise the
/// arguments after the program's name are read as `lemma_scan_outcome` says.
pub proof fn lemma_take_args_outcome(env: UserEnvironment, args: Seq<String>, ip_ok: Seq<bool>)
    requires
        ip_ok.len() == args.len(),
        args.len() <= usize::MAX,
    ensures
        (spec_take_args(env, args, ip_ok) is TooManyArguments) <==> args.len() > MAX_ARGUMENTS,
        spec_take_args(env, args, ip_ok) matches ArgsOutcome::TooManyArguments(n) ==> n == args.len(),
        args.len() <= MAX_ARGUMENTS ==> spec_take_args(env, args, ip_ok) == scan_args(
            env,
            args,
            ip_ok,
            1,
        ),
{
    lemma_scan_outcome(env, args, ip_ok, 1);
}

} // verus!

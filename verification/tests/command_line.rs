use lib::args::{classify_argument, take_args, ArgsOutcome, Flag, UserEnvironment};
use lib::connection::{address_text, trim_end, white_space, Connection};

fn strings(args: &[&str]) -> Vec<String> {
    args.iter().map(|a| a.to_string()).collect()
}

fn ip_flags(args: &[String]) -> Vec<bool> {
    // the addresses these tests use as valid ones
    args.iter().map(|a| a == "10.0.0.2" || a == "127.0.0.1" || a == "::1").collect()
}

fn run(args: &[&str]) -> ArgsOutcome {
    let args = strings(args);
    let ok = ip_flags(&args);
    take_args(UserEnvironment::new(), &args, &ok)
}

#[test]
fn defaults() {
    let env = UserEnvironment::new();
    assert_eq!(env.ip, "127.0.0.1");
    assert_eq!(env.port, 2121);
    assert!(!env.server);
    assert!(!env.send);
    assert_eq!(env.location, None);
    assert!(!env.debug);
}

#[test]
fn no_arguments_keeps_defaults() {
    match run(&["prog"]) {
        ArgsOutcome::Run(env) => {
            assert_eq!(env.ip, "127.0.0.1");
            assert_eq!(env.port, 2121);
            assert!(!env.server && !env.send && !env.debug);
            assert_eq!(env.location, None);
        }
        other => panic!("unexpected {:?}", other),
    }
}

#[test]
fn readme_server_sender() {
    match run(&["prog", "-sv", "-s", "-l", "/home/u/Desktop/cat.png"]) {
        ArgsOutcome::Run(env) => {
            assert!(env.server);
            assert!(env.send);
            assert_eq!(env.location, Some("/home/u/Desktop/cat.png".to_string()));
        }
        other => panic!("unexpected {:?}", other),
    }
}

#[test]
fn readme_client_receiver() {
    match run(&["prog", "-cl", "-r", "-l", "/home/u/Documents/"]) {
        ArgsOutcome::Run(env) => {
            assert!(!env.server);
            assert!(!env.send);
            assert_eq!(env.location, Some("/home/u/Documents/".to_string()));
        }
        other => panic!("unexpected {:?}", other),
    }
}

#[test]
fn long_flags_and_later_wins() {
    match run(&["prog", "--ip", "10.0.0.2", "--port", "8080", "--server", "--client", "--debug", "-p", "9"]) {
        ArgsOutcome::Run(env) => {
            assert_eq!(env.ip, "10.0.0.2");
            assert_eq!(env.port, 9);
            assert!(!env.server);
            assert!(env.debug);
        }
        other => panic!("unexpected {:?}", other),
    }
}

#[test]
fn too_many_arguments() {
    let mut args = vec!["prog"];
    for _ in 0..16 {
        args.push("-d");
    }
    match run(&args) {
        ArgsOutcome::TooManyArguments(n) => assert_eq!(n, 17),
        other => panic!("unexpected {:?}", other),
    }
    let mut args = vec!["prog"];
    for _ in 0..15 {
        args.push("-d");
    }
    assert!(matches!(run(&args), ArgsOutcome::Run(_)));
}

#[test]
fn help_stops_reading() {
    assert!(matches!(run(&["prog", "-h", "-x"]), ArgsOutcome::Help));
    assert!(matches!(run(&["prog", "-d", "--help"]), ArgsOutcome::Help));
}

#[test]
fn invalid_argument_named() {
    match run(&["prog", "-s", "--bogus", "-h"]) {
        ArgsOutcome::InvalidArgument(a) => assert_eq!(a, "--bogus"),
        other => panic!("unexpected {:?}", other),
    }
}

#[test]
fn missing_value() {
    match run(&["prog", "-s", "-l"]) {
        ArgsOutcome::MissingValue(a) => assert_eq!(a, "-l"),
        other => panic!("unexpected {:?}", other),
    }
}

#[test]
fn invalid_ip_and_port() {
    match run(&["prog", "-i", "999.1.1.1"]) {
        ArgsOutcome::InvalidIp(a) => assert_eq!(a, "999.1.1.1"),
        other => panic!("unexpected {:?}", other),
    }
    match run(&["prog", "-p", "70000"]) {
        ArgsOutcome::InvalidPort(a) => assert_eq!(a, "70000"),
        other => panic!("unexpected {:?}", other),
    }
    match run(&["prog", "-p", "+80"]) {
        ArgsOutcome::Run(env) => assert_eq!(env.port, 80),
        other => panic!("unexpected {:?}", other),
    }
}

#[test]
fn value_is_not_read_as_flag() {
    match run(&["prog", "-l", "-h"]) {
        ArgsOutcome::Run(env) => assert_eq!(env.location, Some("-h".to_string())),
        other => panic!("unexpected {:?}", other),
    }
}

#[test]
fn classify_spellings() {
    assert_eq!(classify_argument("-i"), Flag::Ip);
    assert_eq!(classify_argument("--port"), Flag::Port);
    assert_eq!(classify_argument("-sv"), Flag::Server);
    assert_eq!(classify_argument("-cl"), Flag::Client);
    assert_eq!(classify_argument("-r"), Flag::Receive);
    assert_eq!(classify_argument("-S"), Flag::Unknown);
    assert_eq!(classify_argument(""), Flag::Unknown);
}

#[test]
fn trim_end_removes_trailing_white_space() {
    assert_eq!(trim_end("abc \t\n"), "abc");
    assert_eq!(trim_end("  abc"), "  abc");
    assert_eq!(trim_end("a\u{3000}"), "a");
    assert_eq!(trim_end(""), "");
    for s in ["x \u{a0}", "y\u{2028}z ", " "] {
        assert_eq!(trim_end(s), s.trim_end());
    }
    for c in ['\t', ' ', '\u{85}', '\u{2009}', 'a', '\u{200b}'] {
        assert_eq!(white_space(c), c.is_whitespace());
    }
}

#[test]
fn addresses() {
    assert_eq!(address_text("127.0.0.1", "2121"), "127.0.0.1:2121");
    assert_eq!(address_text("::1 ", "80\n"), "::1:80");
    let c = Connection::Server("0.0.0.0".to_string(), "2121".to_string());
    assert_eq!(c.server_address(), Some("0.0.0.0:2121".to_string()));
    let c = Connection::Server("0.0.0.0".to_string(), "2121".to_string());
    assert_eq!(c.client_address(), None);
    let c = Connection::Client("1.2.3.4".to_string(), "5".to_string());
    assert_eq!(c.client_address(), Some("1.2.3.4:5".to_string()));
}

use echo_reactor::cli::{parse_port, Command, InvalidPort, Options};
use echo_reactor::logger::{level_filter, LevelFilter};
use echo_reactor::utils::result::{DescribeErr, IoError, IoResult};
use std::io::ErrorKind;

#[test]
fn io_result_ok() {
    let ok: IoResult<u8> = Ok(123);
    assert_eq!(ok.describe_err("err").unwrap(), 123);
}

#[test]
fn io_result_err() {
    let err: IoResult<u8> = Err(IoError::new(ErrorKind::Other, "abc"));
    assert_eq!(err.describe_err("err").unwrap_err().to_string(), "err: abc");
}

#[test]
fn describe_err_keeps_the_kind() {
    let err: IoResult<()> = Err(IoError::new(ErrorKind::AddrInUse, "in use"));
    let described = err.describe_err("can't bind server socket").unwrap_err();
    assert_eq!(described.kind(), ErrorKind::AddrInUse);
    assert_eq!(described.message, "can't bind server socket: in use");
    let twice: IoResult<()> = Err(described);
    assert_eq!(twice.describe_err("").unwrap_err().to_string(), ": can't bind server socket: in use");
}

#[test]
fn ports_in_range_are_decoded() {
    assert_eq!(parse_port("80").unwrap(), 80);
    assert_eq!(parse_port("1").unwrap(), 1);
    assert_eq!(parse_port("65535").unwrap(), 65535);
    assert_eq!(parse_port("+8080").unwrap(), 8080);
    assert_eq!(parse_port("00080").unwrap(), 80);
    assert_eq!(parse_port("0000000000000000000000000443").unwrap(), 443);
}

#[test]
fn ports_out_of_range_are_refused() {
    assert!(parse_port("0").is_err());
    assert!(parse_port("000").is_err());
    assert!(parse_port("+0").is_err());
    assert!(parse_port("65536").is_err());
    assert!(parse_port("70000").is_err());
    assert!(parse_port("4294967296").is_err());
    assert!(parse_port("99999999999999999999999999").is_err());
}

#[test]
fn texts_that_are_no_numbers_are_refused() {
    for text in ["", "+", "-1", "abc", "80a", " 80", "80 ", "8 0", "++80", "8+0", "0x50", "８０"] {
        let e = parse_port(text).unwrap_err();
        assert_eq!(e.text, text);
    }
}

#[test]
fn invalid_port_message_quotes_the_text() {
    let e = parse_port("http").unwrap_err();
    assert_eq!(e.message(), "'http' isn't a valid port");
    let e = InvalidPort { text: String::new() };
    assert_eq!(e.message(), "'' isn't a valid port");
}

#[test]
fn options_hold_their_fields() {
    let options = Options { verbosity: 2, command: Command::Master { port: 4000 } };
    assert_eq!(options.verbosity, 2);
    assert!(matches!(options.command, Command::Master { port: 4000 }));
    let slave = Command::Slave { hostname: "example".to_string(), port: 1 };
    match slave {
        Command::Slave { hostname, port } => {
            assert_eq!(hostname, "example");
            assert_eq!(port, 1);
        }
        _ => panic!("not a slave command"),
    }
    assert!(matches!(Command::Gpu, Command::Gpu));
}

#[test]
fn verbosity_picks_the_level() {
    assert_eq!(level_filter(0), LevelFilter::Warn);
    assert_eq!(level_filter(1), LevelFilter::Info);
    assert_eq!(level_filter(2), LevelFilter::Trace);
    assert_eq!(level_filter(u64::MAX), LevelFilter::Trace);
}

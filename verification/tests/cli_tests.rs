use ring::cli_parse::{
    cli_actions, cli_command, get_args, get_url_from_args, missing_destination_text,
    parse_and_configure, parse_u32_dec, CliCommand,
};
use ring::error::RingError;
use ring::iputils::IP;

fn args(words: &[&str]) -> Vec<String> {
    words.iter().map(|w| w.to_string()).collect()
}

#[test]
fn bare_surface_takes_the_single_destination() {
    let r = get_url_from_args(args(&["ring", "example.net"]));
    assert_eq!(r.unwrap(), "example.net");
    assert!(matches!(
        get_url_from_args(args(&["ring"])),
        Err(RingError::ArgError)
    ));
    assert!(matches!(
        get_url_from_args(args(&["ring", "a", "b"])),
        Err(RingError::ArgError)
    ));
}

#[test]
fn missing_destination_is_an_argument_error() {
    let r = parse_and_configure(&args(&["ring"]));
    assert!(matches!(r, Err(RingError::ArgError)));
    assert_eq!(missing_destination_text(), "Missing destination address");
}

#[test]
fn unknown_flag_is_an_argument_error() {
    let r = parse_and_configure(&args(&["ring", "-x", "host"]));
    assert!(matches!(r, Err(RingError::ArgError)));
}

#[test]
fn help_and_version_win() {
    assert!(matches!(
        parse_and_configure(&args(&["ring", "-h", "host"])),
        Ok(CliCommand::Help)
    ));
    assert!(matches!(
        parse_and_configure(&args(&["ring", "--help"])),
        Ok(CliCommand::Help)
    ));
    assert!(matches!(
        parse_and_configure(&args(&["ring", "-v"])),
        Ok(CliCommand::Version)
    ));
    // help outranks version
    assert!(matches!(
        parse_and_configure(&args(&["ring", "-v", "-h"])),
        Ok(CliCommand::Help)
    ));
}

#[test]
fn defaults_without_flags() {
    let o = match parse_and_configure(&args(&["ring", "host"])).unwrap() {
        CliCommand::Run(o) => o,
        other => panic!("expected a session, got {:?}", other),
    };
    assert_eq!(o.count, 0);
    assert_eq!(o.ttl, 128);
    assert_eq!(o.interval, 1);
    assert_eq!(o.timeout, 1000);
    assert!(!o.quite);
    assert!(!o.broadcast);
    assert_eq!(o.ipv, None);
    assert_eq!(o.addr, "host");
}

#[test]
fn every_flag_reaches_the_options() {
    let o = match parse_and_configure(&args(&[
        "ring", "-4", "-q", "-b", "-c", "5", "-t", "9", "-i", "2", "-d", "3", "somewhere",
    ]))
    .unwrap()
    {
        CliCommand::Run(o) => o,
        other => panic!("expected a session, got {:?}", other),
    };
    assert_eq!(o.ipv, Some(IP::V4));
    assert!(o.quite);
    assert!(o.broadcast);
    assert_eq!(o.count, 5);
    assert_eq!(o.ttl, 9);
    assert_eq!(o.interval, 2);
    assert_eq!(o.timeout, 3000);
    assert_eq!(o.addr, "somewhere");
}

#[test]
fn interval_flag_shapes_the_cadence() {
    let o = match parse_and_configure(&args(&["ring", "-4", "-c", "5", "-i", "2", "127.0.0.1"]))
        .unwrap()
    {
        CliCommand::Run(o) => o,
        other => panic!("expected a session, got {:?}", other),
    };
    // five sends two seconds apart: the wall time of the session is set
    // here, four waits between the five sends
    assert_eq!(o.count, 5);
    assert_eq!(o.interval, 2);
}

#[test]
fn unreadable_numbers_fall_back_to_defaults() {
    let o = match parse_and_configure(&args(&[
        "ring", "-c", "many", "-t", "x", "-i", "y", "-d", "z", "host",
    ]))
    .unwrap()
    {
        CliCommand::Run(o) => o,
        other => panic!("expected a session, got {:?}", other),
    };
    assert_eq!(o.count, 0);
    assert_eq!(o.ttl, 64);
    assert_eq!(o.interval, 1);
    assert_eq!(o.timeout, 1000);
}

#[test]
fn broadcast_with_v6_fails_at_configuration() {
    let r = parse_and_configure(&args(&["ring", "-b", "-6", "host"]));
    assert!(matches!(r, Err(RingError::ArgError)));
    // broadcast with V4 is fine
    assert!(matches!(
        parse_and_configure(&args(&["ring", "-b", "-4", "host"])),
        Ok(CliCommand::Run(_))
    ));
}

#[test]
fn get_args_yields_the_destination() {
    assert_eq!(get_args(args(&["ring", "host"])).unwrap(), "host");
    assert!(matches!(
        get_args(args(&["ring", "-h", "host"])),
        Err(RingError::ArgError)
    ));
    assert!(matches!(get_args(args(&["ring"])), Err(RingError::ArgError)));
}

#[test]
fn cli_actions_on_a_getopts_result() {
    let mut opts = getopts::Options::new();
    opts.optflag("h", "help", "help");
    let m = opts.parse(["dest.example"]).unwrap();
    assert_eq!(cli_actions(&m).unwrap(), "dest.example");
    let m2 = opts.parse(["-h", "dest.example"]).unwrap();
    assert_eq!(cli_actions(&m2), None);
    let m3 = opts.parse::<&[&str]>(&[]).unwrap();
    assert_eq!(cli_actions(&m3), None);
}

#[test]
fn cli_command_on_a_getopts_result() {
    let mut opts = getopts::Options::new();
    opts.optflag("4", "ipv4", "");
    opts.optflag("6", "ipv6", "");
    opts.optflag("q", "quiet", "");
    opts.optflag("h", "help", "");
    opts.optflag("v", "version", "");
    opts.optflag("b", "broadcast", "");
    opts.optflagopt("c", "count", "", "");
    opts.optflagopt("t", "ttl", "", "");
    opts.optflagopt("i", "interval", "", "");
    opts.optflagopt("d", "timeout", "", "");
    let m = opts.parse(["--count=7", "--quiet", "far.example"]).unwrap();
    match cli_command(&m).unwrap() {
        CliCommand::Run(o) => {
            assert_eq!(o.count, 7);
            assert!(o.quite);
            assert_eq!(o.addr, "far.example");
        }
        other => panic!("expected a session, got {:?}", other),
    }
}

#[test]
fn decimal_parser_on_plain_digits_only() {
    assert_eq!(parse_u32_dec("42"), Some(42));
    assert_eq!(parse_u32_dec("0"), Some(0));
    assert_eq!(parse_u32_dec("007"), Some(7));
    assert_eq!(parse_u32_dec("4294967295"), Some(u32::MAX));
    assert_eq!(parse_u32_dec("4294967296"), None);
    assert_eq!(parse_u32_dec("99999999999999999999"), None);
    assert_eq!(parse_u32_dec(""), None);
    assert_eq!(parse_u32_dec("12a"), None);
    assert_eq!(parse_u32_dec("+5"), None);
    assert_eq!(parse_u32_dec("-5"), None);
    assert_eq!(parse_u32_dec(" 5"), None);
}

#[test]
fn setters_shape_the_options() {
    let mut o = ring::cli_parse::RingOptions::new();
    o.set_count(9);
    o.set_ttl(33);
    o.set_quite(true);
    o.set_ipv(Some(IP::V4));
    assert_eq!(o.count, 9);
    assert_eq!(o.ttl, 33);
    assert!(o.quite);
    assert_eq!(o.ipv, Some(IP::V4));
    let mut p = ring::cli_parse::RingOptions::new_ip4();
    assert_eq!(p.ipv, Some(IP::V4));
    // only a V4 demand changes the family
    p.set_ipv(Some(IP::V6));
    assert_eq!(p.ipv, Some(IP::V4));
}

use steam_broker::args::{ArgValue, Args, SocketAddrV4};
use steam_broker::commands::{
    read_connect, read_disconnect, read_gamedir, read_get_player, understand, Command,
    ConnectRequest,
};
use steam_broker::gamedir::{appid_for_gamedir, FALLBACK_APP_ID};
use steam_broker::text::is_whitespace;
use steam_broker::BrokerError;

const SERVER: SocketAddrV4 = SocketAddrV4 { a: 10, b: 0, c: 0, d: 1, port: 27015 };

fn utf8(bytes: &[u8]) -> BrokerError {
    BrokerError::Utf8(core::str::from_utf8(bytes).unwrap_err())
}

#[test]
fn game_directories_and_their_applications() {
    let known = [
        ("cstrike", 10),
        ("tfc", 20),
        ("dod", 30),
        ("dmc", 40),
        ("gearbox", 50),
        ("ricochet", 60),
        ("valve", 70),
        ("czero", 80),
        ("czeror", 100),
        ("bshift", 130),
        ("cstrike_beta", 150),
    ];
    for (dir, app_id) in known {
        assert_eq!(appid_for_gamedir(dir), Some(app_id));
        assert_eq!(appid_for_gamedir(&dir.to_ascii_uppercase()), Some(app_id));
    }
    assert_eq!(appid_for_gamedir("CStrike"), Some(10));
    assert_eq!(appid_for_gamedir("cstrike "), None);
    assert_eq!(appid_for_gamedir("unknown"), None);
    assert_eq!(appid_for_gamedir(""), None);
    assert_eq!(FALLBACK_APP_ID, 70);
}

#[test]
fn only_ascii_letters_count_alike_in_either_case() {
    // The Kelvin sign lowers to `k` in Unicode, but it is no ASCII letter.
    assert_eq!(appid_for_gamedir("cstri\u{212a}e"), None);
}

#[test]
fn white_space_is_what_unicode_says() {
    for x in 0..0x3100u32 {
        if let Some(c) = char::from_u32(x) {
            assert_eq!(is_whitespace(c), c.is_whitespace());
        }
    }
    assert!(!is_whitespace('\u{10ffff}'));
}

#[test]
fn commands_are_told_by_their_first_word() {
    assert_eq!(
        understand(b"sb_gamedir valve"),
        Ok((Command::Gamedir, &b"valve"[..]))
    );
    assert_eq!(
        understand(b"sb_connect 1 2 3"),
        Ok((Command::Connect, &b"1 2 3"[..]))
    );
    assert_eq!(
        understand(b"sb_disconnect\tx"),
        Ok((Command::Disconnect, &b"x"[..]))
    );
    assert_eq!(
        understand(b"sb_get_player  7"),
        Ok((Command::GetPlayer, &b" 7"[..]))
    );
    assert_eq!(understand(b"sb_terminate"), Ok((Command::Terminate, &b""[..])));
    assert_eq!(understand(b"sb_terminate\n"), Ok((Command::Terminate, &b""[..])));
    assert_eq!(
        understand("sb_gamedir\u{3000}d\u{e9}j\u{e0}".as_bytes()),
        Ok((Command::Gamedir, "d\u{e9}j\u{e0}".as_bytes()))
    );
}

#[test]
fn other_first_words_are_unknown() {
    for payload in [
        &b""[..],
        b" sb_terminate",
        b"SB_TERMINATE",
        b"sb_terminatex",
        b"sb_playerx 1",
    ] {
        assert_eq!(
            understand(payload),
            Err(BrokerError::Custom("unknown command"))
        );
    }
}

#[test]
fn payload_that_is_not_text_is_refused() {
    assert_eq!(understand(b"sb_gamedir \xff"), Err(utf8(b"sb_gamedir \xff")));
    assert_eq!(understand(b"\xc3"), Err(utf8(b"\xc3")));
    assert_ne!(utf8(b"\xc3"), utf8(b"sb_gamedir \xff"));
}

#[test]
fn arguments_are_words_between_white_space() {
    let mut args = Args::new(b"  one\ttwo  \n three ").unwrap();
    assert_eq!(args.as_str(), "  one\ttwo  \n three ");
    assert_eq!(args.next(), Some("one"));
    assert_eq!(args.as_str(), "\ttwo  \n three ");
    assert_eq!(args.next(), Some("two"));
    assert_eq!(args.next(), Some("three"));
    assert_eq!(args.as_str(), " ");
    assert_eq!(args.next(), None);
    assert_eq!(args.next(), None);
    assert_eq!(args.as_str(), "");
}

#[test]
fn arguments_have_to_be_text() {
    assert_eq!(Args::new(b"a\x80b").err(), Some(utf8(b"a\x80b")));
}

#[test]
fn argument_is_missing_or_malformed_by_its_name() {
    let mut args = Args::new(b"12 x").unwrap();
    assert_eq!(args.parse::<u64>("first"), Ok(12));
    assert_eq!(args.parse::<u64>("second"), Err(BrokerError::Parse("second")));
    assert_eq!(args.parse::<u64>("third"), Err(BrokerError::Missing("third")));
}

#[test]
fn unsigned_numbers() {
    for word in [
        "0", "7", "+7", "007", "18446744073709551615", "18446744073709551616", "", "+", "-1", "1a",
        "++1", "\u{661}", "76561197960287930",
    ] {
        assert_eq!(<u64 as ArgValue>::read(word), word.parse::<u64>().ok());
    }
    assert_eq!(<u64 as ArgValue>::read("+7"), Some(7));
    assert_eq!(<u64 as ArgValue>::read("18446744073709551616"), None);
}

#[test]
fn signed_numbers() {
    for word in [
        "0", "-0", "+5", "-5", "2147483647", "2147483648", "-2147483648", "-2147483649", "", "-",
        "+", "+-1", "-+1", "1.0",
    ] {
        assert_eq!(<i32 as ArgValue>::read(word), word.parse::<i32>().ok());
    }
    assert_eq!(<i32 as ArgValue>::read("-2147483648"), Some(i32::MIN));
    assert_eq!(<i32 as ArgValue>::read("2147483648"), None);
}

#[test]
fn server_addresses() {
    let good = [
        ("10.0.0.1:27015", [10, 0, 0, 1], 27015),
        ("255.255.255.255:65535", [255, 255, 255, 255], 65535),
        ("0.0.0.0:0", [0, 0, 0, 0], 0),
        ("1.2.3.4:00080", [1, 2, 3, 4], 80),
    ];
    for (word, [a, b, c, d], port) in good {
        assert_eq!(
            <SocketAddrV4 as ArgValue>::read(word),
            Some(SocketAddrV4 { a, b, c, d, port })
        );
    }
    for word in [
        "1.2.3.4:65536", "1.2.3.4:", "1.2.3.4", "1.2.3:5", "1.2.3.4.5:6", "256.1.1.1:1",
        "01.2.3.4:5", "00.2.3.4:5", "0.0.0.00:1", "1..3.4:5", "1.2.3.4:5:6", ".1.2.3:4",
        "1.2.3.4 :5", "+1.2.3.4:5", "1.2.3.4:+5", ":5", "", "1000.2.3.4:5", "[::1]:80",
    ] {
        assert_eq!(<SocketAddrV4 as ArgValue>::read(word), None);
    }
}

#[test]
fn arguments_of_gamedir() {
    assert_eq!(read_gamedir(b"cstrike"), Ok(10));
    assert_eq!(read_gamedir(b" DoD rest"), Ok(30));
    assert_eq!(read_gamedir(b"mymod"), Ok(70));
    assert_eq!(read_gamedir(b" \t"), Err(BrokerError::Missing("gamedir")));
    assert_eq!(read_gamedir(b"\xff"), Err(utf8(b"\xff")));
}

#[test]
fn arguments_of_connect() {
    assert_eq!(
        read_connect(b"10.0.0.1:27015 90071996842377216 1 -5"),
        Ok(ConnectRequest {
            serveradr: SERVER,
            server_steam_id: 90071996842377216,
            secure: true,
            challenge: -5,
        })
    );
    assert!(!read_connect(b"10.0.0.1:27015 1 0 2").unwrap().secure);
    assert!(read_connect(b"10.0.0.1:27015 1 -3 2 rest").unwrap().secure);
}

#[test]
fn first_bad_argument_of_connect_decides_the_error() {
    assert_eq!(read_connect(b""), Err(BrokerError::Missing("ip addr")));
    assert_eq!(read_connect(b"x"), Err(BrokerError::Parse("ip addr")));
    assert_eq!(
        read_connect(b"10.0.0.1:27015"),
        Err(BrokerError::Missing("steam id"))
    );
    assert_eq!(
        read_connect(b"10.0.0.1:27015 -1 x x"),
        Err(BrokerError::Parse("steam id"))
    );
    assert_eq!(
        read_connect(b"10.0.0.1:27015 1"),
        Err(BrokerError::Missing("secure"))
    );
    assert_eq!(
        read_connect(b"10.0.0.1:27015 1 yes 1"),
        Err(BrokerError::Parse("secure"))
    );
    assert_eq!(
        read_connect(b"10.0.0.1:27015 1 1"),
        Err(BrokerError::Missing("challenge"))
    );
    assert_eq!(
        read_connect(b"10.0.0.1:27015 1 1 2147483648"),
        Err(BrokerError::Parse("challenge"))
    );
    assert_eq!(read_connect(b"\xf0"), Err(utf8(b"\xf0")));
}

#[test]
fn arguments_of_disconnect() {
    assert_eq!(read_disconnect(b"10.0.0.1:27015 42"), Ok((SERVER, 42)));
    assert_eq!(read_disconnect(b""), Err(BrokerError::Missing("ip addr")));
    assert_eq!(read_disconnect(b"a 1"), Err(BrokerError::Parse("ip addr")));
    assert_eq!(
        read_disconnect(b"10.0.0.1:27015"),
        Err(BrokerError::Missing("challenge"))
    );
    assert_eq!(
        read_disconnect(b"10.0.0.1:27015 ?"),
        Err(BrokerError::Parse("challenge"))
    );
    assert_eq!(read_disconnect(b"\x80"), Err(utf8(b"\x80")));
}

#[test]
fn arguments_of_get_player() {
    assert_eq!(read_get_player(b"76561197960287930"), Ok(76561197960287930));
    assert_eq!(read_get_player(b""), Err(BrokerError::Missing("steam id")));
    assert_eq!(read_get_player(b"me"), Err(BrokerError::Parse("steam id")));
    assert_eq!(read_get_player(b"\x80"), Err(utf8(b"\x80")));
}

#[test]
fn arguments_behind_a_command_are_always_text() {
    let payload = "sb_gamedir \u{e9}\u{4e2d} x".as_bytes();
    let (_, rest) = understand(payload).unwrap();
    assert_eq!(Args::new(rest).unwrap().as_str(), "\u{e9}\u{4e2d} x");
}

//! The text of commands: the command word and what its arguments say.

use crate::args::{self, Args, SocketAddrV4};
use crate::error::{self, BrokerError};
use crate::gamedir::{self, appid_for_gamedir, FALLBACK_APP_ID};
use crate::text::{self, count_word, same_text, to_chars};
use vstd::prelude::*;
use vstd::string::*;
use vstd::utf8::*;

verus! {

/// The text that `bytes` encode.
pub open spec fn decoded(bytes: Seq<u8>) -> Result<Seq<char>, BrokerError> {
    if valid_utf8(bytes) {
        Ok(decode_utf8(bytes))
    } else {
        Err(BrokerError::Utf8(error::utf8_error(bytes)))
    }
}

/// The commands of a peer.
#[derive(Clone, Copy, Debug, PartialEq, Eq, Structural)]
pub enum Command {
    Gamedir,
    Connect,
    Disconnect,
    GetPlayer,
    Terminate,
}

/// The command that a word names.
pub open spec fn command_named(word: Seq<char>) -> Option<Command> {
    if word == "sb_gamedir"@ {
        Some(Command::Gamedir)
    } else if word == "sb_connect"@ {
        Some(Command::Connect)
    } else if word == "sb_disconnect"@ {
        Some(Command::Disconnect)
    } else if word == "sb_get_player"@ {
        Some(Command::GetPlayer)
    } else if word == "sb_terminate"@ {
        Some(Command::Terminate)
    } else {
        None
    }
}

/// The word that a command starts with: all that stands before its first white space.
pub open spec fn command_word(text: Seq<char>) -> Seq<char> {
    text.take(text::word_len(text) as int)
}

/// The arguments of a command: all that stands behind its first white space.
pub open spec fn command_rest(text: Seq<char>) -> Seq<char> {
    let k = text::word_len(text) as int;
    if k < text.len() {
        text.skip(k + 1)
    } else {
        Seq::empty()
    }
}

/// What a payload says: which command it is, and the bytes of its arguments.
pub open spec fn understood(payload: Seq<u8>) -> Result<(Command, Seq<u8>), BrokerError> {
    match decoded(payload) {
        Err(e) => Err(e),
        Ok(text) => match command_named(command_word(text)) {
            Some(command) => Ok((command, encode_utf8(command_rest(text)))),
            None => Err(BrokerError::Custom("unknown command")),
        },
    }
}

/// The command that a word names.
fn name_command(word: &str) -> (r: Option<Command>)
    ensures
        r == command_named(word@),
{
    if same_text(word, "sb_gamedir") {
        Some(Command::Gamedir)
    } else if same_text(word, "sb_connect") {
        Some(Command::Connect)
    } else if same_text(word, "sb_disconnect") {
        Some(Command::Disconnect)
    } else if same_text(word, "sb_get_player") {
        Some(Command::GetPlayer)
    } else if same_text(word, "sb_terminate") {
        Some(Command::Terminate)
    } else {
        None
    }
}

/// Tells which command a payload is, and what the bytes of its arguments are.
pub fn understand(payload: &[u8]) -> (r: Result<(Command, &[u8]), BrokerError>)
    ensures
        match r {
            Ok((command, rest)) => understood(payload@) == Ok::<_, BrokerError>((command, rest@)),
            Err(e) => understood(payload@) == Err::<(Command, Seq<u8>), _>(e),
        },
{
    let text = match core::str::from_utf8(payload) {
        Ok(text) => text,
        Err(e) => {
            return Err(BrokerError::Utf8(e));
        },
    };
    proof {
        encode_utf8_decode_utf8(text@);
    }
    let chars = to_chars(text);
    let n: usize = chars.len();
    let k = count_word(&chars, 0);
    assert(chars@.skip(0) =~= chars@);
    let word = text.substring_char(0, k);
    assert(word@ =~= command_word(text@));
    let rest = if k < n {
        text.substring_char(k + 1, n)
    } else {
        ""
    };
    proof {
        reveal_strlit("");
        assert(rest@ =~= command_rest(text@));
    }
    match name_command(word) {
        Some(command) => Ok((command, rest.as_bytes())),
        None => Err(BrokerError::Custom("unknown command")),
    }
}

/// The application that the arguments of `sb_gamedir <gamedir>` ask for.
pub open spec fn gamedir_args(args: Seq<u8>) -> Result<u32, BrokerError> {
    match decoded(args) {
        Err(e) => Err(e),
        Ok(text) => match args::first_word(text) {
            None => Err(BrokerError::Missing("gamedir")),
            Some(dir) => Ok(gamedir::session_app_id(dir)),
        },
    }
}

/// The application that the arguments of `sb_gamedir <gamedir>` ask for.
pub fn read_gamedir(args: &[u8]) -> (r: Result<u32, BrokerError>)
    ensures
        r == gamedir_args(args@),
{
    let mut words = match Args::new(args) {
        Ok(words) => words,
        Err(e) => {
            return Err(e);
        },
    };
    match words.next() {
        None => Err(BrokerError::Missing("gamedir")),
        Some(dir) => match appid_for_gamedir(dir) {
            Some(app_id) => Ok(app_id),
            None => Ok(FALLBACK_APP_ID),
        },
    }
}

/// What `sb_connect <ip:port> <server_steamid> <secure 0|1> <challenge>` asks for.
#[derive(Clone, Copy, Debug, PartialEq, Eq, Structural)]
pub struct ConnectRequest {
    pub serveradr: SocketAddrV4,
    pub server_steam_id: u64,
    pub secure: bool,
    pub challenge: i32,
}

/// What the arguments of `sb_connect` ask for. They are read in turn, and the first that
/// is missing or does not denote what it should decides the error.
pub open spec fn connect_args(args: Seq<u8>) -> Result<ConnectRequest, BrokerError> {
    match decoded(args) {
        Err(e) => Err(e),
        Ok(t0) => {
            let t1 = args::behind_first_word(t0);
            let t2 = args::behind_first_word(t1);
            let t3 = args::behind_first_word(t2);
            match args::taken::<SocketAddrV4>(t0, "ip addr") {
                Err(e) => Err(e),
                Ok(serveradr) => match args::taken::<u64>(t1, "steam id") {
                    Err(e) => Err(e),
                    Ok(server_steam_id) => match args::taken::<i32>(t2, "secure") {
                        Err(e) => Err(e),
                        Ok(secure) => match args::taken::<i32>(t3, "challenge") {
                            Err(e) => Err(e),
                            Ok(challenge) => Ok(
                                ConnectRequest {
                                    serveradr,
                                    server_steam_id,
                                    secure: secure != 0,
                                    challenge,
                                },
                            ),
                        },
                    },
                },
            }
        },
    }
}

/// What the arguments of `sb_connect` ask for.
pub fn read_connect(args: &[u8]) -> (r: Result<ConnectRequest, BrokerError>)
    ensures
        r == connect_args(args@),
{
    let mut words = match Args::new(args) {
        Ok(words) => words,
        Err(e) => {
            return Err(e);
        },
    };
    let serveradr = match words.parse::<SocketAddrV4>("ip addr") {
        Ok(x) => x,
        Err(e) => {
            return Err(e);
        },
    };
    let server_steam_id: u64 = match words.parse::<u64>("steam id") {
        Ok(x) => x,
        Err(e) => {
            return Err(e);
        },
    };
    let secure: i32 = match words.parse::<i32>("secure") {
        Ok(x) => x,
        Err(e) => {
            return Err(e);
        },
    };
    let challenge: i32 = match words.parse::<i32>("challenge") {
        Ok(x) => x,
        Err(e) => {
            return Err(e);
        },
    };
    Ok(ConnectRequest { serveradr, server_steam_id, secure: secure != 0, challenge })
}

/// What the arguments of `sb_disconnect <ip:port> <challenge>` say.
pub open spec fn disconnect_args(args: Seq<u8>) -> Result<(SocketAddrV4, i32), BrokerError> {
    match decoded(args) {
        Err(e) => Err(e),
        Ok(t0) => match args::taken::<SocketAddrV4>(t0, "ip addr") {
            Err(e) => Err(e),
            Ok(serveradr) => match args::taken::<i32>(args::behind_first_word(t0), "challenge") {
                Err(e) => Err(e),
                Ok(challenge) => Ok((serveradr, challenge)),
            },
        },
    }
}

/// What the arguments of `sb_disconnect <ip:port> <challenge>` say.
pub fn read_disconnect(args: &[u8]) -> (r: Result<(SocketAddrV4, i32), BrokerError>)
    ensures
        r == disconnect_args(args@),
{
    let mut words = match Args::new(args) {
        Ok(words) => words,
        Err(e) => {
            return Err(e);
        },
    };
    let serveradr = match words.parse::<SocketAddrV4>("ip addr") {
        Ok(x) => x,
        Err(e) => {
            return Err(e);
        },
    };
    match words.parse::<i32>("challenge") {
        Ok(challenge) => Ok((serveradr, challenge)),
        Err(e) => Err(e),
    }
}

/// The player whom the arguments of `sb_get_player <steamid>` ask for.
pub open spec fn get_player_args(args: Seq<u8>) -> Result<u64, BrokerError> {
    match decoded(args) {
        Err(e) => Err(e),
        Ok(text) => args::taken::<u64>(text, "steam id"),
    }
}

/// The player whom the arguments of `sb_get_player <steamid>` ask for.
pub fn read_get_player(args: &[u8]) -> (r: Result<u64, BrokerError>)
    ensures
        r == get_player_args(args@),
{
    match Args::new(args) {
        Ok(mut words) => words.parse::<u64>("steam id"),
        Err(e) => Err(e),
    }
}

/// The arguments that reach a command are always text: only the payload as a whole can fail
/// to be UTF-8.
pub proof fn arguments_are_text(payload: Seq<u8>)
    requires
        understood(payload) is Ok,
    ensures
        decoded(understood(payload)->Ok_0.1) == Ok::<_, BrokerError>(
            command_rest(decode_utf8(payload)),
        ),
{
    let rest = command_rest(decode_utf8(payload));
    encode_utf8_valid_utf8(rest);
    encode_utf8_decode_utf8(rest);
}

} // verus!

//! What commands are read as: their names, and what each makes of the words behind it.

use crate::args::{self, ArgValue, SocketAddrV4};
use crate::commands::{self, Command, ConnectRequest};
use crate::error::{self, BrokerError};
use crate::gamedir;
use crate::text;
use crate::word_laws;
use vstd::prelude::*;
use vstd::utf8::*;

verus! {

/// What is encoded is decoded again.
proof fn encoded_is_text(s: Seq<char>)
    ensures
        valid_utf8(encode_utf8(s)),
        commands::decoded(encode_utf8(s)) == Ok::<_, BrokerError>(s),
{
    encode_utf8_valid_utf8(s);
    encode_utf8_decode_utf8(s);
}

/// No two of the commands have the same name.
proof fn names_differ()
    ensures
        "sb_gamedir"@ != "sb_connect"@,
        "sb_gamedir"@ != "sb_disconnect"@,
        "sb_gamedir"@ != "sb_get_player"@,
        "sb_gamedir"@ != "sb_terminate"@,
        "sb_connect"@ != "sb_disconnect"@,
        "sb_connect"@ != "sb_get_player"@,
        "sb_connect"@ != "sb_terminate"@,
        "sb_disconnect"@ != "sb_get_player"@,
        "sb_disconnect"@ != "sb_terminate"@,
        "sb_get_player"@ != "sb_terminate"@,
{
    reveal_strlit("sb_gamedir");
    reveal_strlit("sb_connect");
    reveal_strlit("sb_disconnect");
    reveal_strlit("sb_get_player");
    reveal_strlit("sb_terminate");
    assert("sb_gamedir"@.len() == 10 && "sb_get_player"@.len() == 13);
    assert("sb_gamedir"@[3] == 'g' && "sb_connect"@[3] == 'c');
    assert("sb_disconnect"@[3] == 'd' && "sb_get_player"@[3] == 'g');
}

/// The text behind the white space that ends a command's name.
pub open spec fn behind_name(rest: Seq<char>) -> Seq<char> {
    if rest.len() == 0 {
        rest
    } else {
        rest.drop_first()
    }
}

/// A payload is the command that it names, up to its first white space or its end, with all
/// that stands behind that white space as its arguments. Any other name is unknown.
pub proof fn payload_is_the_command_it_names(name: Seq<char>, rest: Seq<char>)
    requires
        forall|i: int| 0 <= i < name.len() ==> !text::is_white(#[trigger] name[i]),
        word_laws::is_apart(rest),
    ensures
        ({
            let said = commands::understood(encode_utf8(name + rest));
            let args = encode_utf8(behind_name(rest));
            &&& name == "sb_gamedir"@ ==> said == Ok::<_, BrokerError>((Command::Gamedir, args))
            &&& name == "sb_connect"@ ==> said == Ok::<_, BrokerError>((Command::Connect, args))
            &&& name == "sb_disconnect"@ ==> said == Ok::<_, BrokerError>(
                (Command::Disconnect, args),
            )
            &&& name == "sb_get_player"@ ==> said == Ok::<_, BrokerError>(
                (Command::GetPlayer, args),
            )
            &&& name == "sb_terminate"@ ==> said == Ok::<_, BrokerError>((Command::Terminate, args))
            &&& name != "sb_gamedir"@ && name != "sb_connect"@ && name != "sb_disconnect"@ && name
                != "sb_get_player"@ && name != "sb_terminate"@ ==> said == Err::<
                (Command, Seq<u8>),
                _,
            >(BrokerError::Custom("unknown command"))
        }),
{
    let s = name + rest;
    encoded_is_text(s);
    names_differ();
    word_laws::word_is_measured(name, rest);
    assert(commands::command_word(s) =~= name);
    assert(commands::command_rest(s) =~= behind_name(rest));
}

/// A payload that is not text is refused, and so are arguments that are not.
pub proof fn only_text_is_understood(payload: Seq<u8>)
    requires
        !valid_utf8(payload),
    ensures
        commands::understood(payload) == Err::<(Command, Seq<u8>), _>(
            BrokerError::Utf8(error::utf8_error(payload)),
        ),
        commands::gamedir_args(payload) == Err::<u32, _>(
            BrokerError::Utf8(error::utf8_error(payload)),
        ),
        commands::connect_args(payload) == Err::<ConnectRequest, _>(
            BrokerError::Utf8(error::utf8_error(payload)),
        ),
        commands::disconnect_args(payload) == Err::<(SocketAddrV4, i32), _>(
            BrokerError::Utf8(error::utf8_error(payload)),
        ),
        commands::get_player_args(payload) == Err::<u64, _>(
            BrokerError::Utf8(error::utf8_error(payload)),
        ),
{
}

/// Whether `c` is the letter `small`, as a capital or as it is.
pub open spec fn is_letter(c: char, small: char) -> bool {
    c == small || ('A' as u32 <= c as u32 <= 'Z' as u32 && c as u32 + 32 == small as u32)
}

/// Whether `word` is `name`, its letters A to Z in either case.
pub open spec fn spells(word: Seq<char>, name: Seq<char>) -> bool {
    word.len() == name.len() && forall|i: int|
        0 <= i < word.len() ==> is_letter(#[trigger] word[i], name[i])
}

/// Whether all of `name` is small.
spec fn is_small(name: Seq<char>) -> bool {
    forall|i: int| 0 <= i < name.len() ==> !('A' as u32 <= (#[trigger] name[i]) as u32 <= 'Z' as u32)
}

/// A word spells a small name exactly if it is that name once its capitals are made small.
proof fn spelling_is_lowering(word: Seq<char>, name: Seq<char>)
    requires
        is_small(name),
    ensures
        spells(word, name) <==> text::lowered(word) == name,
{
    if spells(word, name) {
        assert forall|i: int| 0 <= i < word.len() implies text::ascii_lower(word[i]) == name[i] by {
            let (c, n) = (word[i], name[i]);
            assert(is_letter(c, n));
            assert(!('A' as u32 <= n as u32 <= 'Z' as u32));
            if c != n {
                let l = text::ascii_lower(c);
                vstd::utf8::char_u32_cast(l, l as u32);
                vstd::utf8::char_u32_cast(n, n as u32);
            }
        }
        assert(text::lowered(word) =~= name);
    }
    if text::lowered(word) == name {
        assert forall|i: int| 0 <= i < word.len() implies is_letter(#[trigger] word[i], name[i]) by {
            assert(name[i] == text::ascii_lower(word[i]));
        }
    }
}

/// The game directories, in small letters and all different.
proof fn directories_are_small_and_differ()
    ensures
        is_small("cstrike"@),
        is_small("tfc"@),
        is_small("dod"@),
        is_small("dmc"@),
        is_small("gearbox"@),
        is_small("ricochet"@),
        is_small("valve"@),
        is_small("czero"@),
        is_small("czeror"@),
        is_small("bshift"@),
        is_small("cstrike_beta"@),
        "cstrike"@.len() == 7 && "cstrike"@[0] == 'c',
        "tfc"@.len() == 3 && "tfc"@[0] == 't',
        "dod"@.len() == 3 && "dod"@[0] == 'd' && "dod"@[1] == 'o',
        "dmc"@.len() == 3 && "dmc"@[0] == 'd' && "dmc"@[1] == 'm',
        "gearbox"@.len() == 7 && "gearbox"@[0] == 'g',
        "ricochet"@.len() == 8,
        "valve"@.len() == 5 && "valve"@[0] == 'v',
        "czero"@.len() == 5 && "czero"@[0] == 'c',
        "czeror"@.len() == 6 && "czeror"@[0] == 'c',
        "bshift"@.len() == 6 && "bshift"@[0] == 'b',
        "cstrike_beta"@.len() == 12,
{
    reveal_strlit("cstrike");
    reveal_strlit("tfc");
    reveal_strlit("dod");
    reveal_strlit("dmc");
    reveal_strlit("gearbox");
    reveal_strlit("ricochet");
    reveal_strlit("valve");
    reveal_strlit("czero");
    reveal_strlit("czeror");
    reveal_strlit("bshift");
    reveal_strlit("cstrike_beta");
}

/// Whether `app_id` is the application of the game directory that `dir` spells, if it spells a
/// known one.
pub open spec fn belongs(dir: Seq<char>, app_id: u32) -> bool {
    ||| spells(dir, "cstrike"@) && app_id == 10
    ||| spells(dir, "tfc"@) && app_id == 20
    ||| spells(dir, "dod"@) && app_id == 30
    ||| spells(dir, "dmc"@) && app_id == 40
    ||| spells(dir, "gearbox"@) && app_id == 50
    ||| spells(dir, "ricochet"@) && app_id == 60
    ||| spells(dir, "valve"@) && app_id == 70
    ||| spells(dir, "czero"@) && app_id == 80
    ||| spells(dir, "czeror"@) && app_id == 100
    ||| spells(dir, "bshift"@) && app_id == 130
    ||| spells(dir, "cstrike_beta"@) && app_id == 150
}

/// A game directory has the one application that belongs to it, and one that none belongs to
/// has none.
pub proof fn directory_has_the_application_that_belongs_to_it(dir: Seq<char>, app_id: u32)
    ensures
        gamedir::app_id_of(dir) == Some(app_id) <==> belongs(dir, app_id),
        belongs(dir, app_id) ==> gamedir::session_app_id(dir) == app_id,
        (forall|other: u32| !belongs(dir, other)) ==> gamedir::app_id_of(dir) is None
            && gamedir::session_app_id(dir) == 70,
        gamedir::session_app_id(dir) == 70 ==> spells(dir, "valve"@) || forall|other: u32|
            !belongs(dir, other),
{
    directories_are_small_and_differ();
    spelling_is_lowering(dir, "cstrike"@);
    spelling_is_lowering(dir, "tfc"@);
    spelling_is_lowering(dir, "dod"@);
    spelling_is_lowering(dir, "dmc"@);
    spelling_is_lowering(dir, "gearbox"@);
    spelling_is_lowering(dir, "ricochet"@);
    spelling_is_lowering(dir, "valve"@);
    spelling_is_lowering(dir, "czero"@);
    spelling_is_lowering(dir, "czeror"@);
    spelling_is_lowering(dir, "bshift"@);
    spelling_is_lowering(dir, "cstrike_beta"@);
    if let Some(x) = gamedir::app_id_of(dir) {
        assert(belongs(dir, x));
    }
}

/// `sb_gamedir` asks for the application of the game directory that its first word spells:
/// the one that belongs to it, or 70 where none does. Without a word it is refused.
pub proof fn gamedir_asks_for_the_application_it_names(s: Seq<char>, words: Seq<Seq<char>>)
    requires
        word_laws::consists_of(s, words),
    ensures
        ({
            let asked = commands::gamedir_args(encode_utf8(s));
            &&& words.len() == 0 ==> asked == Err::<u32, _>(BrokerError::Missing("gamedir"))
            &&& words.len() > 0 ==> {
                &&& asked is Ok
                &&& forall|app_id: u32|
                    belongs(words[0], app_id) ==> asked == Ok::<_, BrokerError>(app_id)
                &&& (forall|app_id: u32| !belongs(words[0], app_id)) ==> asked == Ok::<
                    _,
                    BrokerError,
                >(70u32)
                &&& asked == Ok::<_, BrokerError>(70u32) ==> spells(words[0], "valve"@) || forall|
                    app_id: u32,
                |
                    !belongs(words[0], app_id)
            }
        }),
{
    encoded_is_text(s);
    word_laws::first_of_words(s, words);
    if words.len() > 0 {
        let dir = words[0];
        directory_has_the_application_that_belongs_to_it(dir, 70);
        assert forall|app_id: u32| belongs(dir, app_id) implies commands::gamedir_args(
            encode_utf8(s),
        ) == Ok::<_, BrokerError>(app_id) by {
            directory_has_the_application_that_belongs_to_it(dir, app_id);
        }
    }
}

/// `sb_connect` asks for what its four words say: the server's address, its id, whether it is
/// secure, and the challenge. The first of them that is missing or denotes nothing of its kind
/// decides the error.
pub proof fn connect_asks_for_what_its_words_say(s: Seq<char>, words: Seq<Seq<char>>)
    requires
        word_laws::consists_of(s, words),
    ensures
        ({
            let asked = commands::connect_args(encode_utf8(s));
            let addr = <SocketAddrV4 as ArgValue>::denoted(words[0]);
            let id = <u64 as ArgValue>::denoted(words[1]);
            let secure = <i32 as ArgValue>::denoted(words[2]);
            let challenge = <i32 as ArgValue>::denoted(words[3]);
            if words.len() == 0 {
                asked == Err::<ConnectRequest, _>(BrokerError::Missing("ip addr"))
            } else if addr is None {
                asked == Err::<ConnectRequest, _>(BrokerError::Parse("ip addr"))
            } else if words.len() == 1 {
                asked == Err::<ConnectRequest, _>(BrokerError::Missing("steam id"))
            } else if id is None {
                asked == Err::<ConnectRequest, _>(BrokerError::Parse("steam id"))
            } else if words.len() == 2 {
                asked == Err::<ConnectRequest, _>(BrokerError::Missing("secure"))
            } else if secure is None {
                asked == Err::<ConnectRequest, _>(BrokerError::Parse("secure"))
            } else if words.len() == 3 {
                asked == Err::<ConnectRequest, _>(BrokerError::Missing("challenge"))
            } else if challenge is None {
                asked == Err::<ConnectRequest, _>(BrokerError::Parse("challenge"))
            } else {
                &&& asked is Ok
                &&& asked->Ok_0.serveradr == addr->0
                &&& asked->Ok_0.server_steam_id == id->0
                &&& asked->Ok_0.secure <==> secure->0 != 0
                &&& asked->Ok_0.challenge == challenge->0
            }
        }),
{
    encoded_is_text(s);
    word_laws::first_of_words(s, words);
    if words.len() > 0 {
        let s1 = args::behind_first_word(s);
        let words1 = words.drop_first();
        word_laws::first_of_words(s1, words1);
        if words1.len() > 0 {
            let s2 = args::behind_first_word(s1);
            let words2 = words1.drop_first();
            word_laws::first_of_words(s2, words2);
            if words2.len() > 0 {
                let s3 = args::behind_first_word(s2);
                let words3 = words2.drop_first();
                word_laws::first_of_words(s3, words3);
            }
        }
    }
}

/// `sb_disconnect` says what its two words say: the server's address and the challenge. The
/// first of them that is missing or denotes nothing of its kind decides the error.
pub proof fn disconnect_says_what_its_words_say(s: Seq<char>, words: Seq<Seq<char>>)
    requires
        word_laws::consists_of(s, words),
    ensures
        ({
            let said = commands::disconnect_args(encode_utf8(s));
            let addr = <SocketAddrV4 as ArgValue>::denoted(words[0]);
            let challenge = <i32 as ArgValue>::denoted(words[1]);
            if words.len() == 0 {
                said == Err::<(SocketAddrV4, i32), _>(BrokerError::Missing("ip addr"))
            } else if addr is None {
                said == Err::<(SocketAddrV4, i32), _>(BrokerError::Parse("ip addr"))
            } else if words.len() == 1 {
                said == Err::<(SocketAddrV4, i32), _>(BrokerError::Missing("challenge"))
            } else if challenge is None {
                said == Err::<(SocketAddrV4, i32), _>(BrokerError::Parse("challenge"))
            } else {
                said == Ok::<_, BrokerError>((addr->0, challenge->0))
            }
        }),
{
    encoded_is_text(s);
    word_laws::first_of_words(s, words);
    if words.len() > 0 {
        word_laws::first_of_words(args::behind_first_word(s), words.drop_first());
    }
}

/// `sb_get_player` asks for the player whose id its first word denotes.
pub proof fn get_player_asks_for_whom_its_word_denotes(s: Seq<char>, words: Seq<Seq<char>>)
    requires
        word_laws::consists_of(s, words),
    ensures
        ({
            let asked = commands::get_player_args(encode_utf8(s));
            let id = <u64 as ArgValue>::denoted(words[0]);
            if words.len() == 0 {
                asked == Err::<u64, _>(BrokerError::Missing("steam id"))
            } else if id is None {
                asked == Err::<u64, _>(BrokerError::Parse("steam id"))
            } else {
                asked == Ok::<_, BrokerError>(id->0)
            }
        }),
{
    encoded_is_text(s);
    word_laws::first_of_words(s, words);
}

/// Words with one space between them.
pub open spec fn spaced(words: Seq<Seq<char>>) -> Seq<char>
    decreases words.len(),
{
    if words.len() == 0 {
        Seq::empty()
    } else if words.len() == 1 {
        words[0]
    } else {
        words[0] + seq![' '] + spaced(words.drop_first())
    }
}

/// Words with one space between them are those words.
proof fn spaced_consists_of_its_words(lead: Seq<char>, words: Seq<Seq<char>>)
    requires
        word_laws::is_gap(lead),
        forall|i: int| 0 <= i < words.len() ==> word_laws::is_word(#[trigger] words[i]),
    ensures
        word_laws::consists_of(lead + spaced(words), words),
    decreases words.len(),
{
    let s = lead + spaced(words);
    if words.len() == 0 {
        assert(s =~= lead);
    } else {
        assert(word_laws::is_word(words[0]));
        let rest = words.drop_first();
        assert forall|i: int| 0 <= i < rest.len() implies word_laws::is_word(#[trigger] rest[i]) by {
            assert(word_laws::is_word(words[i + 1]));
        }
        if words.len() == 1 {
            let none: Seq<char> = Seq::empty();
            spaced_consists_of_its_words(none, rest);
            assert(none + spaced(rest) =~= none);
            assert(s =~= lead + words[0] + none);
        } else {
            spaced_consists_of_its_words(seq![' '], rest);
            assert(s =~= lead + words[0] + (seq![' '] + spaced(rest)));
        }
    }
}

/// An address is one word, and so is a number.
proof fn texts_are_words(addr: SocketAddrV4, id: nat, n: int)
    ensures
        word_laws::is_word(word_laws::address_text(addr)),
        word_laws::is_word(word_laws::decimal(id)),
        word_laws::is_word(word_laws::signed_decimal(n)),
{
    word_laws::dotted_lacks_colon(addr.a, addr.b, addr.c, addr.d);
    word_laws::decimal_is_plain(addr.port as nat);
    word_laws::decimal_is_plain(id);
    let host = word_laws::dotted_text(addr.a, addr.b, addr.c, addr.d);
    let p = word_laws::decimal(addr.port as nat);
    let w = word_laws::address_text(addr);
    assert forall|i: int| 0 <= i < w.len() implies !text::is_white(#[trigger] w[i]) by {
        if i < host.len() {
            assert(w[i] == host[i]);
        } else if i > host.len() {
            assert(w[i] == p[i - host.len() - 1]);
        }
    }
    let m = if n < 0 {
        (-n) as nat
    } else {
        n as nat
    };
    word_laws::decimal_is_plain(m);
    let v = word_laws::signed_decimal(n);
    let d = word_laws::decimal(m);
    assert forall|i: int| 0 <= i < v.len() implies !text::is_white(#[trigger] v[i]) by {
        if n >= 0 {
            assert(v[i] == d[i]);
        } else if i > 0 {
            assert(v[i] == d[i - 1]);
        }
    }
}

/// Four words that denote a request for a ticket are read as it.
proof fn four_words_are_a_request(words: Seq<Seq<char>>, secure: i32, request: ConnectRequest)
    requires
        words.len() == 4,
        forall|i: int| 0 <= i < words.len() ==> word_laws::is_word(#[trigger] words[i]),
        <SocketAddrV4 as ArgValue>::denoted(words[0]) == Some(request.serveradr),
        <u64 as ArgValue>::denoted(words[1]) == Some(request.server_steam_id),
        <i32 as ArgValue>::denoted(words[2]) == Some(secure),
        <i32 as ArgValue>::denoted(words[3]) == Some(request.challenge),
        request.secure == (secure != 0),
    ensures
        commands::connect_args(encode_utf8(spaced(words))) == Ok::<_, BrokerError>(request),
{
    let none: Seq<char> = Seq::empty();
    spaced_consists_of_its_words(none, words);
    assert(none + spaced(words) =~= spaced(words));
    connect_asks_for_what_its_words_say(spaced(words), words);
}

/// A request for a ticket is read back from what is written: every server, every id and every
/// challenge.
#[verifier::spinoff_prover]
#[verifier::rlimit(40)]
pub proof fn connect_request_reads_back(
    addr: SocketAddrV4,
    server_steam_id: u64,
    secure: i32,
    challenge: i32,
)
    ensures
        commands::connect_args(
            encode_utf8(
                spaced(
                    seq![
                        word_laws::address_text(addr),
                        word_laws::decimal(server_steam_id as nat),
                        word_laws::signed_decimal(secure as int),
                        word_laws::signed_decimal(challenge as int),
                    ],
                ),
            ),
        ) == Ok::<_, BrokerError>(
            ConnectRequest { serveradr: addr, server_steam_id, secure: secure != 0, challenge },
        ),
{
    let words = seq![
        word_laws::address_text(addr),
        word_laws::decimal(server_steam_id as nat),
        word_laws::signed_decimal(secure as int),
        word_laws::signed_decimal(challenge as int),
    ];
    texts_are_words(addr, server_steam_id as nat, secure as int);
    texts_are_words(addr, server_steam_id as nat, challenge as int);
    word_laws::address_reads_back(addr);
    word_laws::unsigned_number_reads_back(server_steam_id);
    word_laws::signed_number_reads_back(secure);
    word_laws::signed_number_reads_back(challenge);
    let request = ConnectRequest { serveradr: addr, server_steam_id, secure: secure != 0, challenge };
    assert forall|i: int| 0 <= i < words.len() implies word_laws::is_word(#[trigger] words[i]) by {
        assert(i == 0 || i == 1 || i == 2 || i == 3);
    }
    four_words_are_a_request(words, secure, request);
}

/// Two words that denote a server and a challenge are read as these.
proof fn two_words_give_back(words: Seq<Seq<char>>, addr: SocketAddrV4, challenge: i32)
    requires
        words.len() == 2,
        forall|i: int| 0 <= i < words.len() ==> word_laws::is_word(#[trigger] words[i]),
        <SocketAddrV4 as ArgValue>::denoted(words[0]) == Some(addr),
        <i32 as ArgValue>::denoted(words[1]) == Some(challenge),
    ensures
        commands::disconnect_args(encode_utf8(spaced(words))) == Ok::<_, BrokerError>(
            (addr, challenge),
        ),
{
    let none: Seq<char> = Seq::empty();
    spaced_consists_of_its_words(none, words);
    assert(none + spaced(words) =~= spaced(words));
    disconnect_says_what_its_words_say(spaced(words), words);
}

/// What gives a ticket back is read back from what is written.
#[verifier::spinoff_prover]
#[verifier::rlimit(40)]
pub proof fn disconnect_request_reads_back(addr: SocketAddrV4, challenge: i32)
    ensures
        commands::disconnect_args(
            encode_utf8(
                spaced(
                    seq![
                        word_laws::address_text(addr),
                        word_laws::signed_decimal(challenge as int),
                    ],
                ),
            ),
        ) == Ok::<_, BrokerError>((addr, challenge)),
{
    let words = seq![
        word_laws::address_text(addr),
        word_laws::signed_decimal(challenge as int),
    ];
    texts_are_words(addr, 0, challenge as int);
    word_laws::address_reads_back(addr);
    word_laws::signed_number_reads_back(challenge);
    assert forall|i: int| 0 <= i < words.len() implies word_laws::is_word(#[trigger] words[i]) by {
        assert(i == 0 || i == 1);
    }
    two_words_give_back(words, addr, challenge);
}

/// A request for a player is read back from what is written.
pub proof fn get_player_request_reads_back(id: u64)
    ensures
        commands::get_player_args(encode_utf8(word_laws::decimal(id as nat))) == Ok::<
            _,
            BrokerError,
        >(id),
{
    let words = seq![word_laws::decimal(id as nat)];
    word_laws::decimal_is_plain(id as nat);
    let none: Seq<char> = Seq::empty();
    spaced_consists_of_its_words(none, words);
    assert(none + spaced(words) =~= words[0]);
    word_laws::unsigned_number_reads_back(id);
    get_player_asks_for_whom_its_word_denotes(words[0], words);
}

} // verus!

# Steam Broker

A broker between a game and the Steam client. A game connects over TCP, names its game
directory, and then asks for auth tickets for game servers and for what Steam knows about
players.

The library in `src/` holds all of the broker's logic and is verified with Verus. It does no
I/O: `session::Session::run` and `broker::Broker::run` each take one step and say what is to
be done outside, and the caller reports back what came of it. `app/` is the program around
it, with the socket, the Steam client and the scratch directory.

| module         | what it holds                                                        |
| -------------- | -------------------------------------------------------------------- |
| `protocol`     | frames, and the fields of a player response                          |
| `text`, `args` | words, numerals, addresses                                           |
| `commands`     | the commands and their arguments                                     |
| `gamedir`      | which application belongs to a game directory                        |
| `avatar`       | PNG encoding and the stages of fetching an avatar                    |
| `steam`        | what is kept about players, and snapshots of them                    |
| `response`     | the payloads that are sent back                                      |
| `session`      | the state machine of a connection                                    |
| `session_laws` | what holds of every step of a session                                |
| `session_runs` | what holds of a session from its first step to its last              |
| `broker`       | the state machine between connections                                |
| `scratch`      | the name of the private working directory                            |

## On the wire

Every message is a frame: `"SBRK"`, the length of the payload as a little-endian `u16`, and
the payload of at most 4096 bytes.

    sb_gamedir <gamedir>
    sb_connect <ip:port> <server_steamid> <secure 0|1> <challenge>
    sb_disconnect <ip:port> <challenge>
    sb_get_player <steamid>
    sb_terminate

`sb_connect` is answered with `"sb_connect\n"`, the challenge, the id of the local user, the
size of the ticket and the ticket. `sb_get_player` is answered with `"sb_playerx\n"`, the
player's id, a word of flags and the fields that the flags announce, once the player's avatar
has arrived or has been given up after 0.1 s. Asking again for a player whose avatar was given
up fetches it anew.

//! The arguments of a command: words between white space, and the values that they denote.

use crate::error::{self, BrokerError};
use crate::text::{self, count_white, count_word, read_numeral, to_chars};
use vstd::prelude::*;
use vstd::string::*;
use vstd::utf8::*;

verus! {

/// Where an IPv4 game server listens.
#[derive(Clone, Copy, Debug, PartialEq, Eq, Structural)]
pub struct SocketAddrV4 {
    pub a: u8,
    pub b: u8,
    pub c: u8,
    pub d: u8,
    pub port: u16,
}

/// A kind of value that an argument can denote.
pub trait ArgValue: Sized {
    /// The value that `word` denotes, if it denotes one.
    spec fn denoted(word: Seq<char>) -> Option<Self>;

    /// The value that `word` denotes, if it denotes one.
    fn read(word: &str) -> (r: Option<Self>)
        ensures
            r == Self::denoted(word@),
    ;
}

/// What follows an optional plus sign.
pub open spec fn without_plus(word: Seq<char>) -> Seq<char> {
    if word.len() > 0 && word[0] == '+' {
        word.drop_first()
    } else {
        word
    }
}

impl ArgValue for u64 {
    /// Decimal digits behind an optional plus sign.
    open spec fn denoted(word: Seq<char>) -> Option<u64> {
        let digits = without_plus(word);
        if text::is_numeral(digits) && text::numeral_value(digits) <= u64::MAX {
            Some(text::numeral_value(digits) as u64)
        } else {
            None
        }
    }

    fn read(word: &str) -> (r: Option<u64>) {
        let s = to_chars(word);
        let from: usize = if s.len() > 0 && s[0] == '+' {
            1
        } else {
            0
        };
        assert(s@.subrange(from as int, s@.len() as int) =~= without_plus(word@));
        read_numeral(&s, from, s.len(), u64::MAX)
    }
}

impl ArgValue for i32 {
    /// Decimal digits behind an optional sign.
    open spec fn denoted(word: Seq<char>) -> Option<i32> {
        if word.len() > 0 && word[0] == '-' {
            let digits = word.drop_first();
            if text::is_numeral(digits) && text::numeral_value(digits) <= 0x8000_0000 {
                Some((-text::numeral_value(digits)) as i32)
            } else {
                None
            }
        } else {
            let digits = without_plus(word);
            if text::is_numeral(digits) && text::numeral_value(digits) <= i32::MAX {
                Some(text::numeral_value(digits) as i32)
            } else {
                None
            }
        }
    }

    fn read(word: &str) -> (r: Option<i32>) {
        let s = to_chars(word);
        if s.len() > 0 && s[0] == '-' {
            assert(s@.subrange(1, s@.len() as int) =~= word@.drop_first());
            match read_numeral(&s, 1, s.len(), 0x8000_0000) {
                Some(x) => Some((0 - x as i64) as i32),
                None => None,
            }
        } else {
            let from: usize = if s.len() > 0 && s[0] == '+' {
                1
            } else {
                0
            };
            assert(s@.subrange(from as int, s@.len() as int) =~= without_plus(word@));
            match read_numeral(&s, from, s.len(), 0x7fff_ffff) {
                Some(x) => Some(x as i32),
                None => None,
            }
        }
    }
}

/// How many characters of `s` stand before the first `c`.
pub open spec fn len_before(s: Seq<char>, c: char) -> nat
    decreases s.len(),
{
    if s.len() == 0 || s[0] == c {
        0
    } else {
        1 + len_before(s.drop_first(), c)
    }
}

/// What stands before and behind the first `c` of `s`, if it has one.
pub open spec fn cut(s: Seq<char>, c: char) -> Option<(Seq<char>, Seq<char>)> {
    let k = len_before(s, c) as int;
    if k < s.len() {
        Some((s.take(k), s.skip(k + 1)))
    } else {
        None
    }
}

/// One number of a dotted address: up to three digits, without needless zeros in front.
pub open spec fn octet(s: Seq<char>) -> Option<u8> {
    if text::is_numeral(s) && s.len() <= 3 && (s.len() > 1 ==> s[0] != '0') && text::numeral_value(
        s,
    ) <= 255 {
        Some(text::numeral_value(s) as u8)
    } else {
        None
    }
}

/// A port number: decimal digits.
pub open spec fn port(s: Seq<char>) -> Option<u16> {
    if text::is_numeral(s) && text::numeral_value(s) <= u16::MAX {
        Some(text::numeral_value(s) as u16)
    } else {
        None
    }
}

/// An address in dotted notation: four numbers between dots.
pub open spec fn dotted(s: Seq<char>) -> Option<(u8, u8, u8, u8)> {
    match cut(s, '.') {
        Some((a, s)) => match cut(s, '.') {
            Some((b, s)) => match cut(s, '.') {
                Some((c, d)) => match (octet(a), octet(b), octet(c), octet(d)) {
                    (Some(a), Some(b), Some(c), Some(d)) => Some((a, b, c, d)),
                    _ => None,
                },
                None => None,
            },
            None => None,
        },
        None => None,
    }
}

/// The index of the first `c` of `s` from `from` up to `to`, or `to`.
fn find(s: &Vec<char>, from: usize, to: usize, c: char) -> (r: usize)
    requires
        from <= to <= s@.len(),
    ensures
        from <= r <= to,
        r - from == len_before(s@.subrange(from as int, to as int), c),
{
    let mut i: usize = from;
    while i < to && s[i] != c
        invariant
            from <= i <= to <= s@.len(),
            i - from + len_before(s@.subrange(i as int, to as int), c) == len_before(
                s@.subrange(from as int, to as int),
                c,
            ),
        decreases to - i,
    {
        assert(s@.subrange(i as int, to as int).drop_first() =~= s@.subrange(i + 1, to as int));
        i = i + 1;
    }
    i
}

/// The number of a dotted address that stands in `s` from `from` up to `to`.
fn read_octet(s: &Vec<char>, from: usize, to: usize) -> (r: Option<u8>)
    requires
        from <= to <= s@.len(),
    ensures
        r == octet(s@.subrange(from as int, to as int)),
{
    if to - from > 3 || (to - from > 1 && s[from] == '0') {
        return None;
    }
    match read_numeral(s, from, to, 255) {
        Some(x) => Some(x as u8),
        None => None,
    }
}

/// The dotted address that stands in `s` up to `to`.
fn read_dotted(s: &Vec<char>, to: usize) -> (r: Option<(u8, u8, u8, u8)>)
    requires
        to <= s@.len(),
    ensures
        r == dotted(s@.take(to as int)),
{
    let ghost whole = s@.take(to as int);
    assert(s@.subrange(0, to as int) =~= whole);
    let i = find(s, 0, to, '.');
    if i == to {
        return None;
    }
    assert(whole.take(i as int) =~= s@.subrange(0, i as int));
    assert(whole.skip(i + 1) =~= s@.subrange(i + 1, to as int));
    let j = find(s, i + 1, to, '.');
    if j == to {
        return None;
    }
    let ghost rest = s@.subrange(i + 1, to as int);
    assert(rest.take(j - i - 1) =~= s@.subrange(i + 1, j as int));
    assert(rest.skip(j - i) =~= s@.subrange(j + 1, to as int));
    let k = find(s, j + 1, to, '.');
    if k == to {
        return None;
    }
    let ghost last = s@.subrange(j + 1, to as int);
    assert(last.take(k - j - 1) =~= s@.subrange(j + 1, k as int));
    assert(last.skip(k - j) =~= s@.subrange(k + 1, to as int));
    match (
        read_octet(s, 0, i),
        read_octet(s, i + 1, j),
        read_octet(s, j + 1, k),
        read_octet(s, k + 1, to),
    ) {
        (Some(a), Some(b), Some(c), Some(d)) => Some((a, b, c, d)),
        _ => None,
    }
}

impl ArgValue for SocketAddrV4 {
    /// A dotted address, a colon and a port number.
    open spec fn denoted(word: Seq<char>) -> Option<SocketAddrV4> {
        match cut(word, ':') {
            Some((host, p)) => match (dotted(host), port(p)) {
                (Some((a, b, c, d)), Some(port)) => Some(SocketAddrV4 { a, b, c, d, port }),
                _ => None,
            },
            None => None,
        }
    }

    fn read(word: &str) -> (r: Option<SocketAddrV4>) {
        let s = to_chars(word);
        assert(s@.subrange(0, s@.len() as int) =~= word@);
        let colon = find(&s, 0, s.len(), ':');
        if colon == s.len() {
            return None;
        }
        assert(s@.skip(colon + 1) =~= s@.subrange(colon + 1, s@.len() as int));
        match (read_dotted(&s, colon), read_numeral(&s, colon + 1, s.len(), 0xffff)) {
            (Some((a, b, c, d)), Some(port)) => Some(
                SocketAddrV4 { a, b, c, d, port: port as u16 },
            ),
            _ => None,
        }
    }
}

/// The arguments that have not been taken yet.
pub struct Args<'a> {
    rest: &'a str,
}

impl<'a> View for Args<'a> {
    type V = Seq<char>;

    closed spec fn view(&self) -> Seq<char> {
        self.rest@
    }
}

/// The first word of `s`, if there is one.
pub open spec fn first_word(s: Seq<char>) -> Option<Seq<char>> {
    let t = s.skip(text::white_len(s) as int);
    if t.len() == 0 {
        None
    } else {
        Some(t.take(text::word_len(t) as int))
    }
}

/// What stands behind the first word of `s`.
pub open spec fn behind_first_word(s: Seq<char>) -> Seq<char> {
    let t = s.skip(text::white_len(s) as int);
    t.skip(text::word_len(t) as int)
}

/// What taking an argument of the given kind from `s` gives.
pub open spec fn taken<T: ArgValue>(s: Seq<char>, name: &'static str) -> Result<T, BrokerError> {
    match first_word(s) {
        None => Err(BrokerError::Missing(name)),
        Some(word) => match T::denoted(word) {
            None => Err(BrokerError::Parse(name)),
            Some(value) => Ok(value),
        },
    }
}

impl<'a> Args<'a> {
    /// The arguments in the text that `args` encodes.
    pub fn new(args: &'a [u8]) -> (r: Result<Args<'a>, BrokerError>)
        ensures
            !valid_utf8(args@) ==> r == Err::<Args<'a>, _>(
                BrokerError::Utf8(error::utf8_error(args@)),
            ),
            valid_utf8(args@) ==> (r matches Ok(a) && a@ == decode_utf8(args@)),
    {
        match core::str::from_utf8(args) {
            Ok(rest) => {
                proof {
                    encode_utf8_decode_utf8(rest@);
                }
                Ok(Args { rest })
            },
            Err(e) => Err(BrokerError::Utf8(e)),
        }
    }

    /// The text of the arguments that have not been taken yet.
    pub fn as_str(&self) -> (r: &'a str)
        ensures
            r@ == self@,
    {
        self.rest
    }

    /// Takes the next word.
    pub fn next(&mut self) -> (r: Option<&'a str>)
        ensures
            match first_word(old(self)@) {
                None => r is None,
                Some(word) => r matches Some(w) && w@ == word,
            },
            final(self)@ == behind_first_word(old(self)@),
    {
        let s = to_chars(self.rest);
        let n: usize = s.len();
        let start = count_white(&s, 0);
        assert(s@.skip(0) =~= s@);
        let len = count_word(&s, start);
        let ghost t = s@.skip(start as int);
        let rest = self.rest;
        let word = rest.substring_char(start, start + len);
        assert(word@ =~= t.take(len as int));
        self.rest = rest.substring_char(start + len, n);
        assert(self.rest@ =~= t.skip(len as int));
        if start == n {
            None
        } else {
            Some(word)
        }
    }

    /// Takes the next word as a value. `name` says in errors which argument it is.
    pub fn parse<T: ArgValue>(&mut self, name: &'static str) -> (r: Result<T, BrokerError>)
        ensures
            r == taken::<T>(old(self)@, name),
            final(self)@ == behind_first_word(old(self)@),
    {
        match self.next() {
            None => Err(BrokerError::Missing(name)),
            Some(word) => match T::read(word) {
                None => Err(BrokerError::Parse(name)),
                Some(value) => Ok(value),
            },
        }
    }
}

} // verus!

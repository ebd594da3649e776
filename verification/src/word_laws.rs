//! What words, numbers and addresses are read as, whatever stands around them.

use crate::args::{self, ArgValue, SocketAddrV4};
use crate::error::BrokerError;
use crate::text;
use vstd::prelude::*;

verus! {

/// Unicode's white space, character by character.
pub proof fn white_space_is_unicode_white_space(c: char)
    ensures
        text::is_white(c) <==> (c == '\t' || c == '\n' || c == '\u{b}' || c == '\u{c}' || c
            == '\r' || c == ' ' || c == '\u{85}' || c == '\u{a0}' || c == '\u{1680}' || c
            == '\u{2000}' || c == '\u{2001}' || c == '\u{2002}' || c == '\u{2003}' || c
            == '\u{2004}' || c == '\u{2005}' || c == '\u{2006}' || c == '\u{2007}' || c
            == '\u{2008}' || c == '\u{2009}' || c == '\u{200a}' || c == '\u{2028}' || c
            == '\u{2029}' || c == '\u{202f}' || c == '\u{205f}' || c == '\u{3000}'),
{
}

/// Whether `s` is nothing but white space.
pub open spec fn is_gap(s: Seq<char>) -> bool {
    forall|i: int| 0 <= i < s.len() ==> text::is_white(#[trigger] s[i])
}

/// Whether `s` is a word: not empty, and without white space.
pub open spec fn is_word(s: Seq<char>) -> bool {
    s.len() > 0 && forall|i: int| 0 <= i < s.len() ==> !text::is_white(#[trigger] s[i])
}

/// Whether a word that `s` follows ends there.
pub open spec fn is_apart(s: Seq<char>) -> bool {
    s.len() == 0 || text::is_white(s[0])
}

/// White space in front counts as white space.
proof fn gap_is_skipped(gap: Seq<char>, rest: Seq<char>)
    requires
        is_gap(gap),
        rest.len() == 0 || !text::is_white(rest[0]),
    ensures
        text::white_len(gap + rest) == gap.len(),
    decreases gap.len(),
{
    if gap.len() == 0 {
        assert(gap + rest =~= rest);
    } else {
        assert(text::is_white(gap[0]));
        assert((gap + rest).drop_first() =~= gap.drop_first() + rest);
        assert forall|i: int| 0 <= i < gap.drop_first().len() implies text::is_white(
            #[trigger] gap.drop_first()[i],
        ) by {
            assert(gap.drop_first()[i] == gap[i + 1]);
        }
        gap_is_skipped(gap.drop_first(), rest);
    }
}

/// A word is as long as it is.
pub proof fn word_is_measured(word: Seq<char>, rest: Seq<char>)
    requires
        forall|i: int| 0 <= i < word.len() ==> !text::is_white(#[trigger] word[i]),
        is_apart(rest),
    ensures
        text::word_len(word + rest) == word.len(),
    decreases word.len(),
{
    if word.len() == 0 {
        assert(word + rest =~= rest);
    } else {
        assert(!text::is_white(word[0]));
        assert((word + rest).drop_first() =~= word.drop_first() + rest);
        assert forall|i: int| 0 <= i < word.drop_first().len() implies !text::is_white(
            #[trigger] word.drop_first()[i],
        ) by {
            assert(word.drop_first()[i] == word[i + 1]);
        }
        word_is_measured(word.drop_first(), rest);
    }
}

/// The first word of a text is what stands between the white space in front of it and that
/// behind it.
pub proof fn first_word_stands_between_gaps(gap: Seq<char>, word: Seq<char>, rest: Seq<char>)
    requires
        is_gap(gap),
        is_word(word),
        is_apart(rest),
    ensures
        args::first_word(gap + word + rest) == Some(word),
        args::behind_first_word(gap + word + rest) == rest,
{
    let s = gap + word + rest;
    assert(s =~= gap + (word + rest));
    assert(!text::is_white(word[0]));
    gap_is_skipped(gap, word + rest);
    assert(s.skip(gap.len() as int) =~= word + rest);
    word_is_measured(word, rest);
    assert((word + rest).take(word.len() as int) =~= word);
    assert((word + rest).skip(word.len() as int) =~= rest);
}

/// White space alone holds no word.
pub proof fn gap_holds_no_word(gap: Seq<char>)
    requires
        is_gap(gap),
    ensures
        args::first_word(gap) is None,
        args::behind_first_word(gap).len() == 0,
{
    gap_is_skipped(gap, Seq::empty());
    assert(gap + Seq::<char>::empty() =~= gap);
    assert(gap.skip(gap.len() as int) =~= Seq::empty());
}

/// Whether `s` consists of `words` in their order, with white space between them and any
/// around them.
pub open spec fn consists_of(s: Seq<char>, words: Seq<Seq<char>>) -> bool
    decreases words.len(),
{
    if words.len() == 0 {
        is_gap(s)
    } else {
        exists|gap: Seq<char>, rest: Seq<char>|
            {
                &&& is_gap(gap)
                &&& is_word(words[0])
                &&& is_apart(rest)
                &&& s == #[trigger] (gap + words[0] + rest)
                &&& consists_of(rest, words.drop_first())
            }
    }
}

/// To take the first word is to take the first of the words.
pub proof fn first_of_words(s: Seq<char>, words: Seq<Seq<char>>)
    requires
        consists_of(s, words),
    ensures
        words.len() == 0 ==> args::first_word(s) is None,
        words.len() > 0 ==> args::first_word(s) == Some(words[0]) && consists_of(
            args::behind_first_word(s),
            words.drop_first(),
        ),
{
    if words.len() == 0 {
        gap_holds_no_word(s);
    } else {
        let (gap, rest) = choose|gap: Seq<char>, rest: Seq<char>|
            {
                &&& is_gap(gap)
                &&& is_word(words[0])
                &&& is_apart(rest)
                &&& s == #[trigger] (gap + words[0] + rest)
                &&& consists_of(rest, words.drop_first())
            };
        first_word_stands_between_gaps(gap, words[0], rest);
    }
}

/// Every text consists of some words.
pub proof fn every_text_consists_of_words(s: Seq<char>) -> (words: Seq<Seq<char>>)
    ensures
        consists_of(s, words),
    decreases s.len(),
{
    text::white_len_marks_the_gap(s);
    let n = text::white_len(s) as int;
    let gap = s.take(n);
    let t = s.skip(n);
    if t.len() == 0 {
        assert(gap =~= s);
        let none: Seq<Seq<char>> = Seq::empty();
        assert(is_gap(s));
        none
    } else {
        text::word_len_marks_the_word(t);
        let k = text::word_len(t) as int;
        let word = t.take(k);
        let rest = t.skip(k);
        assert(!text::is_white(t[0])) by {
            assert(t[0] == s[n]);
        }
        let more = every_text_consists_of_words(rest);
        let words = seq![word] + more;
        assert(words.drop_first() =~= more);
        assert(s =~= gap + words[0] + rest);
        assert(is_gap(gap));
        assert(is_word(words[0])) by {
            assert forall|i: int| 0 <= i < word.len() implies !text::is_white(#[trigger] word[i]) by {
                assert(word[i] == t[i]);
            }
        }
        assert(is_apart(rest));
        words
    }
}

/// A value taken from a text is the one that its first word denotes. Where there is no word it
/// is missing, and where the word denotes none it cannot be parsed.
pub proof fn first_word_is_the_value<T: ArgValue>(
    s: Seq<char>,
    words: Seq<Seq<char>>,
    name: &'static str,
)
    requires
        consists_of(s, words),
    ensures
        words.len() == 0 ==> args::taken::<T>(s, name) == Err::<T, _>(BrokerError::Missing(name)),
        words.len() > 0 && T::denoted(words[0]) is None ==> args::taken::<T>(s, name) == Err::<
            T,
            _,
        >(BrokerError::Parse(name)),
        words.len() > 0 && T::denoted(words[0]) is Some ==> args::taken::<T>(s, name) == Ok::<
            _,
            BrokerError,
        >(T::denoted(words[0])->0),
        words.len() > 0 ==> consists_of(args::behind_first_word(s), words.drop_first()),
{
    first_of_words(s, words);
}

/// The character for a digit.
pub open spec fn digit_char(d: nat) -> char {
    (0x30 + d) as char
}

/// A number in decimal digits.
pub open spec fn decimal(n: nat) -> Seq<char>
    decreases n,
{
    if n < 10 {
        seq![digit_char(n)]
    } else {
        decimal(n / 10).push(digit_char(n % 10))
    }
}

/// A number in decimal digits, behind a minus sign if it is negative.
pub open spec fn signed_decimal(n: int) -> Seq<char> {
    if n < 0 {
        seq!['-'] + decimal((-n) as nat)
    } else {
        decimal(n as nat)
    }
}

/// Whether `c` is one of the ten digits.
pub open spec fn is_decimal_digit(c: char) -> bool {
    '0' as u32 <= c as u32 <= '9' as u32
}

/// The number that a digit stands for.
pub open spec fn digit_value(c: char) -> int {
    c as u32 - '0' as u32
}

/// The digits of a number denote it.
proof fn decimal_denotes(n: nat)
    ensures
        text::is_numeral(decimal(n)),
        text::numeral_value(decimal(n)) == n,
        decimal(n).len() > 1 ==> decimal(n)[0] != '0',
        n > 0 ==> decimal(n)[0] != '0',
        n < 10 ==> decimal(n).len() == 1,
        n < 100 ==> decimal(n).len() <= 2,
        n < 1000 ==> decimal(n).len() <= 3,
    decreases n,
{
    reveal_with_fuel(text::numeral_value, 2);
    if n < 10 {
        assert(decimal(n).drop_last() =~= Seq::empty());
        assert(digit_char(n) as u32 == 0x30 + n);
    } else {
        decimal_denotes(n / 10);
        let d = decimal(n);
        assert(d.drop_last() =~= decimal(n / 10));
        assert(digit_char(n % 10) as u32 == 0x30 + n % 10);
        assert forall|i: int| 0 <= i < d.len() implies text::is_digit(#[trigger] d[i]) by {
            if i < d.len() - 1 {
                assert(d[i] == decimal(n / 10)[i]);
            }
        }
        assert(d[0] == decimal(n / 10)[0]);
    }
}

/// The digits of a number hold no sign, no separator and no white space.
pub proof fn decimal_is_plain(n: nat)
    ensures
        is_word(decimal(n)),
        forall|i: int|
            0 <= i < decimal(n).len() ==> is_decimal_digit(#[trigger] decimal(n)[i]),
{
    decimal_denotes(n);
    assert forall|i: int| 0 <= i < decimal(n).len() implies is_decimal_digit(
        #[trigger] decimal(n)[i],
    ) && !text::is_white(decimal(n)[i]) by {
        assert(text::is_digit(decimal(n)[i]));
    }
}

/// A number of 64 bits is read back from its digits, with a plus sign in front or without.
pub proof fn unsigned_number_reads_back(x: u64)
    ensures
        <u64 as ArgValue>::denoted(decimal(x as nat)) == Some(x),
        <u64 as ArgValue>::denoted(seq!['+'] + decimal(x as nat)) == Some(x),
{
    let d = decimal(x as nat);
    decimal_denotes(x as nat);
    decimal_is_plain(x as nat);
    assert(is_decimal_digit(d[0]));
    assert((seq!['+'] + d).drop_first() =~= d);
}

/// A signed number of 32 bits is read back from its digits and sign.
pub proof fn signed_number_reads_back(x: i32)
    ensures
        <i32 as ArgValue>::denoted(signed_decimal(x as int)) == Some(x),
        x >= 0 ==> <i32 as ArgValue>::denoted(seq!['+'] + decimal(x as nat)) == Some(x),
{
    let n = if x < 0 {
        (-x) as nat
    } else {
        x as nat
    };
    let d = decimal(n);
    decimal_denotes(n);
    decimal_is_plain(n);
    assert(is_decimal_digit(d[0]));
    assert((seq!['-'] + d).drop_first() =~= d);
    assert((seq!['+'] + d).drop_first() =~= d);
}

/// One more character at the end of a numeral.
proof fn numeral_grows(s: Seq<char>, c: char)
    ensures
        text::is_numeral(s.push(c)) <==> is_decimal_digit(c) && (s.len() == 0 || text::is_numeral(
            s,
        )),
        is_decimal_digit(c) ==> text::numeral_value(s.push(c)) == 10 * text::numeral_value(s)
            + digit_value(c),
        s.len() == 0 ==> text::numeral_value(s) == 0,
{
    let t = s.push(c);
    assert(t.drop_last() =~= s);
    assert(t[s.len() as int] == c);
    if text::is_numeral(t) {
        assert(text::is_digit(t[s.len() as int]));
        assert forall|i: int| 0 <= i < s.len() implies text::is_digit(#[trigger] s[i]) by {
            assert(text::is_digit(t[i]));
        }
    }
}

/// A number of 64 bits is read digit by digit. No word and a lone plus sign denote none, and a
/// digit behind these denotes itself. A digit behind a word that denotes a number makes it ten
/// times that number and the digit, unless that is too large. Any other character, and any
/// character behind another word, makes a word that denotes none.
pub proof fn unsigned_number_is_read_digit_by_digit(w: Seq<char>, c: char)
    ensures
        w.len() == 0 || w == seq!['+'] ==> <u64 as ArgValue>::denoted(w) is None,
        (w.len() == 0 || w == seq!['+']) && is_decimal_digit(c) ==> <u64 as ArgValue>::denoted(
            w.push(c),
        ) == Some(digit_value(c) as u64),
        !is_decimal_digit(c) ==> <u64 as ArgValue>::denoted(w.push(c)) is None,
        w.len() > 0 && w != seq!['+'] && <u64 as ArgValue>::denoted(w) is None ==> <u64 as
            ArgValue>::denoted(w.push(c)) is None,
        <u64 as ArgValue>::denoted(w) matches Some(x) ==> is_decimal_digit(c) ==> {
            let y = 10 * x + digit_value(c);
            <u64 as ArgValue>::denoted(w.push(c)) == if y <= u64::MAX {
                Some(y as u64)
            } else {
                None
            }
        },
{
    let d = args::without_plus(w);
    let e = args::without_plus(w.push(c));
    if w.len() == 0 {
        assert(w.push(c).drop_first() =~= Seq::empty());
        assert(w.push(c) =~= seq![c]);
        numeral_grows(Seq::empty(), c);
        assert(Seq::<char>::empty().push(c) =~= seq![c]);
    } else if w[0] == '+' {
        assert(w.push(c).drop_first() =~= w.drop_first().push(c));
        numeral_grows(d, c);
        if d.len() == 0 {
            assert(w =~= seq!['+']);
        }
    } else {
        assert(e == w.push(c));
        numeral_grows(d, c);
    }
}

/// A signed number of 32 bits is read digit by digit, as an unsigned one is, but for a minus
/// sign in front, which counts its digits down.
pub proof fn signed_number_is_read_digit_by_digit(w: Seq<char>, c: char)
    ensures
        w.len() == 0 || w == seq!['+'] || w == seq!['-'] ==> <i32 as ArgValue>::denoted(w) is None,
        (w.len() == 0 || w == seq!['+']) && is_decimal_digit(c) ==> <i32 as ArgValue>::denoted(
            w.push(c),
        ) == Some(digit_value(c) as i32),
        w == seq!['-'] && is_decimal_digit(c) ==> <i32 as ArgValue>::denoted(w.push(c)) == Some(
            (-digit_value(c)) as i32,
        ),
        !is_decimal_digit(c) ==> <i32 as ArgValue>::denoted(w.push(c)) is None,
        w.len() > 0 && w != seq!['+'] && w != seq!['-'] && <i32 as ArgValue>::denoted(w) is None
            ==> <i32 as ArgValue>::denoted(w.push(c)) is None,
        <i32 as ArgValue>::denoted(w) matches Some(x) ==> is_decimal_digit(c) ==> {
            let y = if w[0] == '-' {
                10 * x - digit_value(c)
            } else {
                10 * x + digit_value(c)
            };
            <i32 as ArgValue>::denoted(w.push(c)) == if i32::MIN <= y <= i32::MAX {
                Some(y as i32)
            } else {
                None
            }
        },
{
    let v = w.push(c);
    if w.len() == 0 {
        assert(v.drop_first() =~= Seq::empty());
        assert(v =~= seq![c]);
        numeral_grows(Seq::empty(), c);
        assert(Seq::<char>::empty().push(c) =~= seq![c]);
    } else if w[0] == '+' || w[0] == '-' {
        let d = w.drop_first();
        assert(v.drop_first() =~= d.push(c));
        numeral_grows(d, c);
        if d.len() == 0 {
            assert(w =~= seq![w[0]]);
        }
    } else {
        numeral_grows(w, c);
    }
}

/// An IPv4 address in dotted notation.
pub open spec fn dotted_text(a: u8, b: u8, c: u8, d: u8) -> Seq<char> {
    decimal(a as nat) + seq!['.'] + decimal(b as nat) + seq!['.'] + decimal(c as nat) + seq!['.']
        + decimal(d as nat)
}

/// A server's address as it is written: dotted notation, a colon and the port.
pub open spec fn address_text(addr: SocketAddrV4) -> Seq<char> {
    dotted_text(addr.a, addr.b, addr.c, addr.d) + seq![':'] + decimal(addr.port as nat)
}

/// Whether `c` does not occur in `s`.
pub open spec fn lacks(s: Seq<char>, c: char) -> bool {
    forall|i: int| 0 <= i < s.len() ==> #[trigger] s[i] != c
}

/// The first separator is found behind what lacks it.
proof fn cut_at_first(s: Seq<char>, c: char, rest: Seq<char>)
    requires
        lacks(s, c),
    ensures
        args::cut(s + seq![c] + rest, c) == Some((s, rest)),
        args::cut(s, c) is None,
{
    let t = s + seq![c] + rest;
    before_first(s, c, seq![c] + rest);
    before_first(s, c, Seq::empty());
    assert(t =~= s + (seq![c] + rest));
    assert(s + Seq::<char>::empty() =~= s);
    assert(t.take(s.len() as int) =~= s);
    assert(t.skip(s.len() as int + 1) =~= rest);
}

/// What lacks a character stands before the first of it.
proof fn before_first(s: Seq<char>, c: char, rest: Seq<char>)
    requires
        lacks(s, c),
        rest.len() > 0 ==> rest[0] == c,
    ensures
        args::len_before(s + rest, c) == s.len(),
    decreases s.len(),
{
    if s.len() == 0 {
        assert(s + rest =~= rest);
    } else {
        assert(s[0] != c);
        assert((s + rest).drop_first() =~= s.drop_first() + rest);
        assert forall|i: int| 0 <= i < s.drop_first().len() implies #[trigger] s.drop_first()[i]
            != c by {
            assert(s.drop_first()[i] == s[i + 1]);
        }
        before_first(s.drop_first(), c, rest);
    }
}

/// What is cut at a separator is what stands before it, the separator and what stands behind.
proof fn cut_joins(s: Seq<char>, c: char)
    ensures
        args::cut(s, c) matches Some((front, rest)) ==> {
            &&& s == front + seq![c] + rest
            &&& lacks(front, c)
        },
        args::len_before(s, c) <= s.len(),
{
    len_before_marks(s, c);
    if let Some((front, rest)) = args::cut(s, c) {
        assert(s =~= front + seq![c] + rest);
    }
}

/// `len_before` marks off what lacks the character.
proof fn len_before_marks(s: Seq<char>, c: char)
    ensures
        args::len_before(s, c) <= s.len(),
        forall|i: int| 0 <= i < args::len_before(s, c) ==> #[trigger] s[i] != c,
        args::len_before(s, c) < s.len() ==> s[args::len_before(s, c) as int] == c,
    decreases s.len(),
{
    if s.len() > 0 && s[0] != c {
        let t = s.drop_first();
        len_before_marks(t, c);
        assert forall|i: int| 0 <= i < args::len_before(s, c) implies #[trigger] s[i] != c by {
            if i > 0 {
                assert(s[i] == t[i - 1]);
            }
        }
    }
}

/// A numeral is the digits of its number, but for zeros in front.
proof fn numeral_is_decimal(s: Seq<char>)
    requires
        text::is_numeral(s),
        s.len() > 1 ==> s[0] != '0',
    ensures
        s == decimal(text::numeral_value(s)),
        s.len() > 1 ==> text::numeral_value(s) >= 10,
    decreases s.len(),
{
    reveal_with_fuel(text::numeral_value, 2);
    let last = s.last();
    assert(text::is_digit(s[s.len() - 1]));
    vstd::utf8::char_u32_cast(last, last as u32);
    assert(digit_char((last as u32 - 0x30) as nat) == last);
    if s.len() == 1 {
        assert(s.drop_last() =~= Seq::empty());
        assert(s =~= seq![last]);
    } else {
        let t = s.drop_last();
        assert forall|i: int| 0 <= i < t.len() implies text::is_digit(#[trigger] t[i]) by {
            assert(text::is_digit(s[i]));
        }
        assert(t[0] == s[0]);
        numeral_is_decimal(t);
        let n = text::numeral_value(s);
        if t.len() == 1 {
            reveal_with_fuel(text::numeral_value, 3);
            assert(t.drop_last() =~= Seq::empty());
            assert(text::is_digit(t[0]));
            if text::numeral_value(t) == 0 {
                vstd::utf8::char_u32_cast(t[0], t[0] as u32);
                assert(t[0] == '0');
            }
        }
        assert(n / 10 == text::numeral_value(t) && n % 10 == (last as u32 - 0x30) as nat);
        assert(s =~= t.push(last));
    }
}

/// The digits of a small number are an octet, and every octet is written so.
proof fn octet_is_decimal(s: Seq<char>, x: u8)
    ensures
        args::octet(s) == Some(x) <==> s == decimal(x as nat),
{
    decimal_denotes(x as nat);
    if args::octet(s) == Some(x) {
        numeral_is_decimal(s);
    }
}

/// Digits hold no separator.
proof fn decimal_lacks(n: nat, c: char)
    requires
        !is_decimal_digit(c),
    ensures
        lacks(decimal(n), c),
{
    decimal_is_plain(n);
}

/// A dotted address is read back, and no other text is one.
proof fn dotted_reads_back(s: Seq<char>, a: u8, b: u8, c: u8, d: u8)
    ensures
        args::dotted(s) == Some((a, b, c, d)) <==> s == dotted_text(a, b, c, d),
{
    let (ta, tb, tc, td) = (decimal(a as nat), decimal(b as nat), decimal(c as nat), decimal(
        d as nat,
    ));
    let dot = seq!['.'];
    let s3 = tc + dot + td;
    let s2 = tb + dot + s3;
    let s1 = ta + dot + s2;
    assert(s1 =~= dotted_text(a, b, c, d));
    decimal_lacks(a as nat, '.');
    decimal_lacks(b as nat, '.');
    decimal_lacks(c as nat, '.');
    cut_at_first(ta, '.', s2);
    cut_at_first(tb, '.', s3);
    cut_at_first(tc, '.', td);
    octet_is_decimal(ta, a);
    octet_is_decimal(tb, b);
    octet_is_decimal(tc, c);
    octet_is_decimal(td, d);
    if args::dotted(s) == Some((a, b, c, d)) {
        cut_joins(s, '.');
        let (w1, r1) = args::cut(s, '.')->0;
        cut_joins(r1, '.');
        let (w2, r2) = args::cut(r1, '.')->0;
        cut_joins(r2, '.');
        let (w3, w4) = args::cut(r2, '.')->0;
        octet_is_decimal(w1, a);
        octet_is_decimal(w2, b);
        octet_is_decimal(w3, c);
        octet_is_decimal(w4, d);
    }
}

/// Whether `p` is a port: decimal digits that denote a number of 16 bits.
pub open spec fn denotes_port(p: Seq<char>, port: u16) -> bool {
    p.len() > 0 && is_decimal_digit(p[0]) && <u64 as ArgValue>::denoted(p) == Some(port as u64)
}

/// What a port denotes.
proof fn port_is_a_number(p: Seq<char>, port: u16)
    ensures
        args::port(p) == Some(port) <==> denotes_port(p, port),
{
    if text::is_numeral(p) {
        assert(text::is_digit(p[0]));
    }
}

/// A word denotes a server's address exactly if it is the address in dotted notation, a colon
/// and digits for the port.
pub proof fn address_is_dotted_notation_and_port(w: Seq<char>, addr: SocketAddrV4)
    ensures
        <SocketAddrV4 as ArgValue>::denoted(w) == Some(addr) <==> exists|p: Seq<char>|
            denotes_port(p, addr.port) && w == #[trigger] (dotted_text(
                addr.a,
                addr.b,
                addr.c,
                addr.d,
            ) + seq![':'] + p),
{
    let host = dotted_text(addr.a, addr.b, addr.c, addr.d);
    dotted_lacks_colon(addr.a, addr.b, addr.c, addr.d);
    if exists|p: Seq<char>|
        denotes_port(p, addr.port) && w == #[trigger] (host + seq![':'] + p) {
        let p = choose|p: Seq<char>|
            denotes_port(p, addr.port) && w == #[trigger] (host + seq![':'] + p);
        cut_at_first(host, ':', p);
        dotted_reads_back(host, addr.a, addr.b, addr.c, addr.d);
        port_is_a_number(p, addr.port);
    }
    if <SocketAddrV4 as ArgValue>::denoted(w) == Some(addr) {
        cut_joins(w, ':');
        let (h, p) = args::cut(w, ':')->0;
        dotted_reads_back(h, addr.a, addr.b, addr.c, addr.d);
        port_is_a_number(p, addr.port);
        assert(w == host + seq![':'] + p);
    }
}

/// A dotted address holds no colon.
pub proof fn dotted_lacks_colon(a: u8, b: u8, c: u8, d: u8)
    ensures
        lacks(dotted_text(a, b, c, d), ':'),
        is_word(dotted_text(a, b, c, d)),
{
    decimal_is_plain(a as nat);
    decimal_is_plain(b as nat);
    decimal_is_plain(c as nat);
    decimal_is_plain(d as nat);
    let s = dotted_text(a, b, c, d);
    assert forall|i: int| 0 <= i < s.len() implies (is_decimal_digit(s[i]) || s[i] == '.') by {
        let (ta, tb, tc) = (decimal(a as nat), decimal(b as nat), decimal(c as nat));
        let td = decimal(d as nat);
        let (na, nb, nc) = (ta.len() as int, tb.len() as int, tc.len() as int);
        if i < na {
            assert(s[i] == ta[i]);
        } else if i == na {
        } else if i < na + 1 + nb {
            assert(s[i] == tb[i - na - 1]);
        } else if i == na + 1 + nb {
        } else if i < na + nb + nc + 2 {
            assert(s[i] == tc[i - na - nb - 2]);
        } else if i == na + nb + nc + 2 {
        } else {
            assert(s[i] == td[i - na - nb - nc - 3]);
        }
    }
    assert forall|i: int| 0 <= i < s.len() implies s[i] != ':' && !text::is_white(s[i]) by {
        assert(is_decimal_digit(s[i]) || s[i] == '.');
    }
}

/// A server's address is read back from what is written.
pub proof fn address_reads_back(addr: SocketAddrV4)
    ensures
        <SocketAddrV4 as ArgValue>::denoted(address_text(addr)) == Some(addr),
{
    let p = decimal(addr.port as nat);
    unsigned_number_reads_back(addr.port as u64);
    decimal_is_plain(addr.port as nat);
    assert(is_decimal_digit(p[0]));
    assert(denotes_port(p, addr.port));
    address_is_dotted_notation_and_port(address_text(addr), addr);
}

} // verus!

//! The name of the private working directory.

use vstd::prelude::*;
use vstd::string::*;

verus! {

/// The lower-case hexadecimal digit for `d`.
pub open spec fn hex_digit(d: nat) -> char {
    if d < 10 {
        (0x30 + d) as char
    } else {
        (0x61 + d - 10) as char
    }
}

/// The last `k` hexadecimal digits of `n`, zeros in front included.
pub open spec fn hex(n: nat, k: nat) -> Seq<char>
    decreases k,
{
    if k == 0 {
        Seq::empty()
    } else {
        hex(n / 16, (k - 1) as nat).push(hex_digit(n % 16))
    }
}

/// The path of the scratch directory with the number `n`.
pub open spec fn scratch_path(n: u32) -> Seq<char> {
    "/tmp/steam-broker-"@ + hex(n as nat, 8)
}

/// The lower-case hexadecimal digit for `d`.
fn digit_text(d: u32) -> (r: &'static str)
    requires
        d < 16,
    ensures
        r@ == seq![hex_digit(d as nat)],
{
    let r = match d {
        0 => "0",
        1 => "1",
        2 => "2",
        3 => "3",
        4 => "4",
        5 => "5",
        6 => "6",
        7 => "7",
        8 => "8",
        9 => "9",
        10 => "a",
        11 => "b",
        12 => "c",
        13 => "d",
        14 => "e",
        _ => "f",
    };
    proof {
        reveal_strlit("0");
        reveal_strlit("1");
        reveal_strlit("2");
        reveal_strlit("3");
        reveal_strlit("4");
        reveal_strlit("5");
        reveal_strlit("6");
        reveal_strlit("7");
        reveal_strlit("8");
        reveal_strlit("9");
        reveal_strlit("a");
        reveal_strlit("b");
        reveal_strlit("c");
        reveal_strlit("d");
        reveal_strlit("e");
        reveal_strlit("f");
        assert(r@ =~= seq![hex_digit(d as nat)]);
    }
    r
}

/// Appends the last `k` hexadecimal digits of `n` to `s`.
fn append_hex(s: &mut String, n: u32, k: usize)
    ensures
        final(s)@ == old(s)@ + hex(n as nat, k as nat),
    decreases k,
{
    if k > 0 {
        append_hex(s, n / 16, k - 1);
        s.append(digit_text(n % 16));
    }
    assert(s@ =~= old(s)@ + hex(n as nat, k as nat));
}

/// Private working directory for the Steamworks SDK (it writes `steam_appid.txt` and other
/// runtime files into the process's working directory).
pub struct ScratchDir {
    path: String,
}

impl View for ScratchDir {
    type V = Seq<char>;

    closed spec fn view(&self) -> Seq<char> {
        self.path@
    }
}

/// `fastrand::u32` over the full range: any number may come out.
#[verifier::external_body]
fn random_number() -> u32 {
    fastrand::u32(..)
}

impl ScratchDir {
    /// The scratch directory with the number `n`.
    pub fn numbered(n: u32) -> (r: Self)
        ensures
            r@ == scratch_path(n),
    {
        let mut path = String::new();
        path.append("/tmp/steam-broker-");
        append_hex(&mut path, n, 8);
        assert(path@ =~= scratch_path(n));
        ScratchDir { path }
    }

    /// A scratch directory with a random number.
    pub fn new() -> (r: Self)
        ensures
            exists|n: u32| r@ == scratch_path(n),
    {
        Self::numbered(random_number())
    }

    /// Where the directory is.
    pub fn path(&self) -> (r: &str)
        ensures
            r@ == self@,
    {
        self.path.as_str()
    }
}

/// The digits of a number, as many as asked for.
proof fn hex_len(n: nat, k: nat)
    ensures
        hex(n, k).len() == k,
    decreases k,
{
    if k > 0 {
        hex_len(n / 16, (k - 1) as nat);
    }
}

/// Hexadecimal digits tell numbers apart.
proof fn hex_tells_apart(m: nat, n: nat, k: nat)
    requires
        hex(m, k) == hex(n, k),
        m < hex_range(k),
        n < hex_range(k),
    ensures
        m == n,
    decreases k,
{
    if k > 0 {
        let (a, b) = (hex(m, k), hex(n, k));
        assert(a.last() == hex_digit(m % 16) && b.last() == hex_digit(n % 16));
        assert(a.drop_last() =~= hex(m / 16, (k - 1) as nat));
        assert(b.drop_last() =~= hex(n / 16, (k - 1) as nat));
        hex_tells_apart(m / 16, n / 16, (k - 1) as nat);
    }
}

/// How many numbers have up to `k` hexadecimal digits.
spec fn hex_range(k: nat) -> nat
    decreases k,
{
    if k == 0 {
        1
    } else {
        16 * hex_range((k - 1) as nat)
    }
}

/// The character of a hexadecimal digit.
pub open spec fn is_digit_of(c: char, d: int) -> bool {
    ||| 0 <= d <= 9 && c as u32 == '0' as u32 + d
    ||| 10 <= d <= 15 && c as u32 == 'a' as u32 + d - 10
}

/// A number in eight digits, the first of them first.
proof fn hex_spells(n: nat)
    ensures
        hex(n, 8) == seq![
            hex_digit(n / 0x1000_0000 % 16),
            hex_digit(n / 0x100_0000 % 16),
            hex_digit(n / 0x10_0000 % 16),
            hex_digit(n / 0x1_0000 % 16),
            hex_digit(n / 0x1000 % 16),
            hex_digit(n / 0x100 % 16),
            hex_digit(n / 0x10 % 16),
            hex_digit(n % 16),
        ],
{
    reveal_with_fuel(hex, 9);
    assert(n / 16 / 16 == n / 0x100);
    assert(n / 16 / 16 / 16 == n / 0x1000);
    assert(n / 16 / 16 / 16 / 16 == n / 0x1_0000);
    assert(n / 16 / 16 / 16 / 16 / 16 == n / 0x10_0000);
    assert(n / 16 / 16 / 16 / 16 / 16 / 16 == n / 0x100_0000);
    assert(n / 16 / 16 / 16 / 16 / 16 / 16 / 16 == n / 0x1000_0000);
    assert(hex(n, 8) =~= seq![
        hex_digit(n / 0x1000_0000 % 16),
        hex_digit(n / 0x100_0000 % 16),
        hex_digit(n / 0x10_0000 % 16),
        hex_digit(n / 0x1_0000 % 16),
        hex_digit(n / 0x1000 % 16),
        hex_digit(n / 0x100 % 16),
        hex_digit(n / 0x10 % 16),
        hex_digit(n % 16),
    ]);
}

/// The path of a scratch directory spells `/tmp/steam-broker-` and the eight hexadecimal digits
/// of its number, in small letters.
pub proof fn path_spells_the_number(n: u32)
    ensures
        ({
            let path = scratch_path(n);
            &&& path.len() == 26
            &&& path.take(18) == seq![
                '/',
                't',
                'm',
                'p',
                '/',
                's',
                't',
                'e',
                'a',
                'm',
                '-',
                'b',
                'r',
                'o',
                'k',
                'e',
                'r',
                '-',
            ]
            &&& is_digit_of(path[18], n as int / 0x1000_0000)
            &&& is_digit_of(path[19], n as int / 0x100_0000 % 16)
            &&& is_digit_of(path[20], n as int / 0x10_0000 % 16)
            &&& is_digit_of(path[21], n as int / 0x1_0000 % 16)
            &&& is_digit_of(path[22], n as int / 0x1000 % 16)
            &&& is_digit_of(path[23], n as int / 0x100 % 16)
            &&& is_digit_of(path[24], n as int / 0x10 % 16)
            &&& is_digit_of(path[25], n as int % 16)
        }),
{
    reveal_strlit("/tmp/steam-broker-");
    let path = scratch_path(n);
    hex_spells(n as nat);
    assert(path.take(18) =~= "/tmp/steam-broker-"@);
    assert("/tmp/steam-broker-"@ =~= seq![
        '/',
        't',
        'm',
        'p',
        '/',
        's',
        't',
        'e',
        'a',
        'm',
        '-',
        'b',
        'r',
        'o',
        'k',
        'e',
        'r',
        '-',
    ]);
}

/// Different numbers name different directories.
pub proof fn paths_are_told_apart(m: u32, n: u32)
    requires
        m != n,
    ensures
        scratch_path(m) != scratch_path(n),
{
    if scratch_path(m) == scratch_path(n) {
        let k = "/tmp/steam-broker-"@.len() as int;
        hex_len(m as nat, 8);
        hex_len(n as nat, 8);
        assert(hex(m as nat, 8) =~= scratch_path(m).skip(k));
        assert(hex(n as nat, 8) =~= scratch_path(n).skip(k));
        reveal_with_fuel(hex_range, 9);
        hex_tells_apart(m as nat, n as nat, 8);
    }
}

} // verus!

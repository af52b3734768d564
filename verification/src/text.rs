//! Text helpers shared by every module: blank-id checks, byte-wise string
//! ordering, FNV-1a hashing and fixed-width hexadecimal rendering.
use vstd::prelude::*;

verus! {

/// Unicode `White_Space` code points, as `char::is_whitespace` classifies them.
pub open spec fn is_ws(c: char) -> bool {
    let u = c as u32;
    (0x9 <= u && u <= 0xd) || u == 0x20 || u == 0x85 || u == 0xa0 || u == 0x1680
        || (0x2000 <= u && u <= 0x200a) || u == 0x2028 || u == 0x2029 || u == 0x202f
        || u == 0x205f || u == 0x3000
}

/// A string is blank when trimming its whitespace leaves nothing.
pub open spec fn blank(s: Seq<char>) -> bool {
    forall|i: int| 0 <= i < s.len() ==> is_ws(#[trigger] s[i])
}

pub fn char_is_ws(c: char) -> (r: bool)
    ensures
        r == is_ws(c),
{
    let u = c as u32;
    (0x9 <= u && u <= 0xd) || u == 0x20 || u == 0x85 || u == 0xa0 || u == 0x1680
        || (0x2000 <= u && u <= 0x200a) || u == 0x2028 || u == 0x2029 || u == 0x202f
        || u == 0x205f || u == 0x3000
}

/// `s.trim().is_empty()`.
pub fn is_blank(s: &str) -> (r: bool)
    ensures
        r == blank(s@),
{
    let mut all = true;
    for c in it: s.chars()
        invariant
            it.seq() == s@,
            all == (forall|i: int| 0 <= i < it.index() ==> is_ws(#[trigger] s@[i])),
    {
        if !char_is_ws(c) {
            all = false;
        }
    }
    all
}


pub const FNV_OFFSET: u64 = 0xcbf29ce484222325;

pub const FNV_PRIME: u64 = 0x100000001b3;

/// FNV-1a over a byte sequence.
pub open spec fn fnv64(bytes: Seq<u8>) -> u64
    decreases bytes.len(),
{
    if bytes.len() == 0 {
        FNV_OFFSET
    } else {
        vstd::wrapping::u64_specs::wrapping_mul(
            fnv64(bytes.drop_last()) ^ (bytes.last() as u64),
            FNV_PRIME,
        )
    }
}

pub fn fnv1a_64(bytes: &[u8]) -> (h: u64)
    ensures
        h == fnv64(bytes@),
{
    let mut hash: u64 = FNV_OFFSET;
    let n = bytes.len();
    let mut i: usize = 0;
    while i < n
        invariant
            n == bytes@.len(),
            i <= n,
            hash == fnv64(bytes@.take(i as int)),
        decreases n - i,
    {
        hash = (hash ^ (bytes[i] as u64)).wrapping_mul(FNV_PRIME);
        assert(bytes@.take(i + 1).drop_last() =~= bytes@.take(i as int));
        i += 1;
    }
    assert(bytes@.take(n as int) =~= bytes@);
    hash
}

pub open spec fn hex_char(d: int) -> char {
    if d < 10 {
        (48 + d) as char
    } else {
        (87 + d) as char
    }
}

/// The sixteen lowercase hexadecimal digits of `v`, most significant first
/// (`format!("{:016x}", v)`).
pub open spec fn hex16(v: u64) -> Seq<char> {
    Seq::new(16, |i: int| hex_char(((v >> ((60 - 4 * i) as u64)) & 0xf) as int))
}

fn hex_digit_str(d: u64) -> (s: &'static str)
    requires
        d < 16,
    ensures
        s@ == seq![hex_char(d as int)],
{
    proof {
        reveal_strlit("0");
        reveal_strlit("1");
        reveal_strlit("2");
        reveal_strlit("3");
        reveal_strlit("4");
        reveal_strlit("5");
        reveal_strlit("6");
        reveal_strlit("7");
        reveal_strlit("8");
        reveal_strlit("9");
        reveal_strlit("a");
        reveal_strlit("b");
        reveal_strlit("c");
        reveal_strlit("d");
        reveal_strlit("e");
        reveal_strlit("f");
    }
    let s = match d {
        0 => "0",
        1 => "1",
        2 => "2",
        3 => "3",
        4 => "4",
        5 => "5",
        6 => "6",
        7 => "7",
        8 => "8",
        9 => "9",
        10 => "a",
        11 => "b",
        12 => "c",
        13 => "d",
        14 => "e",
        _ => "f",
    };
    assert(s@ =~= seq![hex_char(d as int)]);
    s
}

/// `format!("{:016x}", v)`.
pub fn hex16_string(v: u64) -> (s: String)
    ensures
        s@ == hex16(v),
{
    let mut out = String::new();
    let mut i: u64 = 0;
    while i < 16
        invariant
            i <= 16,
            out@ == hex16(v).take(i as int),
        decreases 16 - i,
    {
        let shift: u64 = 60 - 4 * i;
        let d = (v >> shift) & 0xf;
        assert(((v >> shift) & 0xf) < 16) by (bit_vector);
        out.append(hex_digit_str(d));
        i += 1;
        assert(out@ =~= hex16(v).take(i as int));
    }
    assert(hex16(v).take(16) =~= hex16(v));
    out
}

/// The fingerprint text of a canonical byte string: FNV-1a, sixteen hex digits.
pub open spec fn fingerprint_of(bytes: Seq<u8>) -> Seq<char> {
    hex16(fnv64(bytes))
}

pub fn fingerprint_bytes(bytes: &[u8]) -> (s: String)
    ensures
        s@ == fingerprint_of(bytes@),
{
    hex16_string(fnv1a_64(bytes))
}


/// Whether two strings hold the same characters.
pub fn str_eq(a: &str, b: &str) -> (r: bool)
    ensures
        r == (a@ == b@),
{
    let x = a.to_owned();
    let y = b.to_owned();
    x == y
}


/// A fingerprint is never blank: its first character is a hexadecimal digit.
pub proof fn lemma_fingerprint_not_blank(bytes: Seq<u8>)
    ensures
        !blank(fingerprint_of(bytes)),
{
    let h = fnv64(bytes);
    let d = ((h >> 60u64) & 0xf) as int;
    assert(((h >> 60u64) & 0xf) < 16) by (bit_vector);
    assert(fingerprint_of(bytes)[0] == hex_char(d));
    assert(!is_ws(hex_char(d)));
}


pub open spec fn digit_text(d: int) -> Seq<char> {
    if d == 0 {
        "0"@
    } else if d == 1 {
        "1"@
    } else if d == 2 {
        "2"@
    } else if d == 3 {
        "3"@
    } else if d == 4 {
        "4"@
    } else if d == 5 {
        "5"@
    } else if d == 6 {
        "6"@
    } else if d == 7 {
        "7"@
    } else if d == 8 {
        "8"@
    } else {
        "9"@
    }
}

/// The decimal digits of `n`.
pub open spec fn dec_text(n: nat) -> Seq<char>
    decreases n,
{
    if n < 10 {
        digit_text(n as int)
    } else {
        dec_text(n / 10) + digit_text((n % 10) as int)
    }
}

/// `n` in decimal, with a minus sign when negative.
pub open spec fn int_text(n: int) -> Seq<char> {
    if n < 0 {
        "-"@ + dec_text((-n) as nat)
    } else {
        dec_text(n as nat)
    }
}

fn digit_str(d: u64) -> (s: &'static str)
    requires
        d < 10,
    ensures
        s@ == digit_text(d as int),
{
    if d == 0 {
        "0"
    } else if d == 1 {
        "1"
    } else if d == 2 {
        "2"
    } else if d == 3 {
        "3"
    } else if d == 4 {
        "4"
    } else if d == 5 {
        "5"
    } else if d == 6 {
        "6"
    } else if d == 7 {
        "7"
    } else if d == 8 {
        "8"
    } else {
        "9"
    }
}

/// Appends the decimal digits of `n`.
pub fn append_u64(out: &mut String, n: u64)
    ensures
        final(out)@ == old(out)@ + dec_text(n as nat),
    decreases n,
{
    let ghost start = out@;
    if n >= 10 {
        append_u64(out, n / 10);
    }
    out.append(digit_str(n % 10));
    assert(out@ =~= start + dec_text(n as nat));
}

/// Appends `n` in decimal.
pub fn append_i64(out: &mut String, n: i64)
    ensures
        final(out)@ == old(out)@ + int_text(n as int),
{
    let ghost start = out@;
    if n < 0 {
        out.append("-");
        let mag: u64 = if n == i64::MIN { 9223372036854775808u64 } else { (-n) as u64 };
        append_u64(out, mag);
    } else {
        append_u64(out, n as u64);
    }
    assert(out@ =~= start + int_text(n as int));
}

/// Whether `s` begins with the characters of `p`.
pub open spec fn starts_with(s: Seq<char>, p: Seq<char>) -> bool {
    p.len() <= s.len() && s.take(p.len() as int) == p
}

pub fn has_prefix(s: &str, p: &Vec<char>) -> (r: bool)
    ensures
        r == starts_with(s@, p@),
{
    let m = p.len();
    let mut k: usize = 0;
    let mut ok = true;
    for c in it: s.chars()
        invariant
            it.seq() == s@,
            m == p@.len(),
            k == if it.index() < m { it.index() as usize } else { m },
            ok == (forall|i: int| 0 <= i < k ==> s@[i] == p@[i]),
    {
        if k < m {
            if c != p[k] {
                ok = false;
            }
            k += 1;
        }
    }
    if k < m {
        return false;
    }
    assert(ok ==> s@.take(m as int) =~= p@);
    ok
}

} // verus!

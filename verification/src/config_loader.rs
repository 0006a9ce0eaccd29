//! Config fingerprinting: FNV-1a hashes of the configuration texts.

use vstd::prelude::*;

verus! {

pub const FNV_OFFSET: u64 = 14_695_981_039_346_656_037;

pub const FNV_PRIME: u64 = 1_099_511_628_211;

/// FNV-1a 64-bit hash of the first `n` bytes of `data`: start from the
/// offset basis; for each byte, xor it in, then multiply by the prime
/// modulo 2^64.
pub open spec fn spec_fnv1a(data: Seq<u8>, n: int) -> u64
    decreases n,
{
    if n <= 0 {
        FNV_OFFSET
    } else {
        vstd::wrapping::u64_specs::wrapping_mul(
            spec_fnv1a(data, n - 1) ^ (data[n - 1] as u64),
            FNV_PRIME,
        )
    }
}

/// FNV-1a 64-bit hash of a byte string.
pub fn fnv1a_hash(data: &[u8]) -> (r: u64)
    ensures
        r == spec_fnv1a(data@, data@.len() as int),
{
    let mut hash: u64 = FNV_OFFSET;
    let mut i: usize = 0;
    while i < data.len()
        invariant
            i <= data@.len(),
            hash == spec_fnv1a(data@, i as int),
        decreases data.len() - i,
    {
        hash = hash ^ (data[i] as u64);
        hash = hash.wrapping_mul(FNV_PRIME);
        i = i + 1;
    }
    hash
}

pub open spec fn hex_char(d: u64) -> char {
    if d < 10 {
        crate::names::digit_char(d as nat)
    } else if d == 10 {
        'a'
    } else if d == 11 {
        'b'
    } else if d == 12 {
        'c'
    } else if d == 13 {
        'd'
    } else if d == 14 {
        'e'
    } else {
        'f'
    }
}

/// The `i`-th hex digit of `h` (most significant first) of its 16.
pub open spec fn hex_digit(h: u64, i: int) -> u64 {
    (h >> ((60 - 4 * i) as u64)) & 0xf
}

/// `h` as 16 lower-case hex digits, as `format!("{h:016x}")` writes it.
pub open spec fn hex16(h: u64) -> Seq<char> {
    Seq::new(16, |i: int| hex_char(hex_digit(h, i)))
}

fn hex_str(d: u64) -> (r: &'static str)
    requires
        d < 16,
    ensures
        r@ == seq![hex_char(d)],
{
    proof {
        reveal_strlit("a");
        reveal_strlit("b");
        reveal_strlit("c");
        reveal_strlit("d");
        reveal_strlit("e");
        reveal_strlit("f");
        reveal_strlit("0");
        reveal_strlit("1");
        reveal_strlit("2");
        reveal_strlit("3");
        reveal_strlit("4");
        reveal_strlit("5");
        reveal_strlit("6");
        reveal_strlit("7");
        reveal_strlit("8");
        reveal_strlit("9");
    }
    if d == 0 {
        "0"
    } else if d == 1 {
        "1"
    } else if d == 2 {
        "2"
    } else if d == 3 {
        "3"
    } else if d == 4 {
        "4"
    } else if d == 5 {
        "5"
    } else if d == 6 {
        "6"
    } else if d == 7 {
        "7"
    } else if d == 8 {
        "8"
    } else if d == 9 {
        "9"
    } else if d == 10 {
        "a"
    } else if d == 11 {
        "b"
    } else if d == 12 {
        "c"
    } else if d == 13 {
        "d"
    } else if d == 14 {
        "e"
    } else {
        "f"
    }
}

/// `h` as 16 lower-case hex digits.
pub fn hex_u64(h: u64) -> (r: String)
    ensures
        r@ == hex16(h),
{
    let mut s = String::new();
    let mut i: u64 = 0;
    while i < 16
        invariant
            i <= 16,
            s@ == hex16(h).take(i as int),
        decreases 16 - i,
    {
        let shift: u64 = 60 - 4 * i;
        let d = (h >> shift) & 0xf;
        assert(d < 16) by (bit_vector)
            requires
                d == (h >> shift) & 0xf,
        ;
        s.append(hex_str(d));
        proof {
            assert(s@ =~= hex16(h).take(i + 1));
        }
        i = i + 1;
    }
    proof {
        assert(hex16(h).take(16) =~= hex16(h));
    }
    s
}

/// Deterministic fingerprint of the two configuration texts: the FNV-1a
/// hashes of the game rules and of the token definitions, xor-ed, in hex.
pub fn config_hash(game_rules: &[u8], token_definitions: &[u8]) -> (r: String)
    ensures
        r@ == hex16(
            spec_fnv1a(game_rules@, game_rules@.len() as int) ^ spec_fnv1a(
                token_definitions@,
                token_definitions@.len() as int,
            ),
        ),
{
    let h = fnv1a_hash(game_rules) ^ fnv1a_hash(token_definitions);
    hex_u64(h)
}

} // verus!

//! 128-bit error identifiers: a verified hyphenated hexadecimal rendering
//! (`xxxxxxxx-xxxx-xxxx-xxxx-xxxxxxxxxxxx`) and parser, and a trusted source
//! of fresh random identifiers.
use vstd::prelude::*;
use vstd::string::StrSliceExecFns;
use vstd::string::StringExecFns;
use vstd::arithmetic::div_mod::lemma_fundamental_div_mod;
use vstd::arithmetic::div_mod::lemma_mod_breakdown;
use crate::text::hex_chars;
use crate::text::hex_seq_val;
use crate::text::all_hex;
use crate::text::pow16;
use crate::text::push_hex;
use crate::text::read_hex_digit;
use crate::text::lemma_hex_chars_len;
use crate::text::lemma_hex_roundtrip;
use crate::text::lemma_hex_seq_val_bound;
use crate::text::lemma_pow16_pos;

verus! {

/// Two to the ninety-sixth, and the smaller powers that bound the five
/// hyphen-separated groups.
pub const POW2_96: u128 = 0x1000000000000000000000000;

pub const POW2_80: u128 = 0x100000000000000000000;

pub const POW2_64: u128 = 0x10000000000000000;

pub const POW2_48: u128 = 0x1000000000000;

/// The five groups of a rendered identifier, most significant first.
pub open spec fn uuid_groups(id: u128) -> (int, int, int, int, int) {
    (
        id as int / POW2_96 as int,
        id as int / POW2_80 as int % 65536,
        id as int / POW2_64 as int % 65536,
        id as int / POW2_48 as int % 65536,
        id as int % POW2_48 as int,
    )
}

/// The thirty-six-character hyphenated lowercase hexadecimal rendering.
pub open spec fn uuid_chars(id: u128) -> Seq<char> {
    let (a, b, c, d, e) = uuid_groups(id);
    hex_chars(a, 8) + seq!['-'] + hex_chars(b, 4) + seq!['-'] + hex_chars(c, 4) + seq!['-']
        + hex_chars(d, 4) + seq!['-'] + hex_chars(e, 12)
}

/// Whether `s` has the exact hyphenated `8-4-4-4-12` hexadecimal shape.
pub open spec fn uuid_text_wf(s: Seq<char>) -> bool {
    &&& s.len() == 36
    &&& s[8] == '-' && s[13] == '-' && s[18] == '-' && s[23] == '-'
    &&& all_hex(s.subrange(0, 8))
    &&& all_hex(s.subrange(9, 13))
    &&& all_hex(s.subrange(14, 18))
    &&& all_hex(s.subrange(19, 23))
    &&& all_hex(s.subrange(24, 36))
}

/// The identifier a hyphenated hexadecimal text denotes.
pub open spec fn uuid_text_val(s: Seq<char>) -> int {
    hex_seq_val(s.subrange(0, 8)) * POW2_96 as int + hex_seq_val(s.subrange(9, 13)) * POW2_80 as int
        + hex_seq_val(s.subrange(14, 18)) * POW2_64 as int + hex_seq_val(s.subrange(19, 23))
        * POW2_48 as int + hex_seq_val(s.subrange(24, 36))
}

/// The identifier a hyphenated hexadecimal text denotes, if it has that shape;
/// hexadecimal digits of either case are read.
pub open spec fn parse_uuid_chars(s: Seq<char>) -> Option<u128> {
    if uuid_text_wf(s) {
        Some(uuid_text_val(s) as u128)
    } else {
        None
    }
}

/// `pow16` at the group widths.
proof fn lemma_pow16_values()
    ensures
        pow16(4) == 65536,
        pow16(8) == 0x100000000,
        pow16(12) == POW2_48,
{
    reveal_with_fuel(pow16, 13);
}

/// Renders an identifier as hyphenated lowercase hexadecimal.
pub fn render_uuid(id: u128) -> (r: String)
    ensures
        r@ == uuid_chars(id),
{
    proof {
        reveal_strlit("-");
        lemma_pow16_values();
        assert((id as int) / (POW2_96 as int) < 0x100000000) by (nonlinear_arith)
            requires
                id < POW2_96 * 0x100000000,
                POW2_96 > 0,
        {}
        assert((id as int) / (POW2_96 as int) >= 0) by (nonlinear_arith)
            requires
                id >= 0,
                POW2_96 > 0,
        {}
    }
    let a: u64 = (id / POW2_96) as u64;
    let b: u64 = (id / POW2_80 % 65536) as u64;
    let c: u64 = (id / POW2_64 % 65536) as u64;
    let d: u64 = (id / POW2_48 % 65536) as u64;
    let e: u64 = (id % POW2_48) as u64;
    let mut s = String::new();
    push_hex(&mut s, a, 8);
    s.append("-");
    push_hex(&mut s, b, 4);
    s.append("-");
    push_hex(&mut s, c, 4);
    s.append("-");
    push_hex(&mut s, d, 4);
    s.append("-");
    push_hex(&mut s, e, 12);
    proof {
        assert(s@ =~= uuid_chars(id));
    }
    s
}

/// Reads the hexadecimal digits of `s` at `from..to` as one value, most
/// significant first.
fn read_hex_run(s: &str, from: usize, to: usize) -> (r: Option<u64>)
    requires
        from <= to <= s@.len(),
        to - from <= 12,
    ensures
        r is Some <==> all_hex(s@.subrange(from as int, to as int)),
        r matches Some(v) ==> v == hex_seq_val(s@.subrange(from as int, to as int)),
{
    proof {
        lemma_pow16_values();
    }
    let mut acc: u64 = 0;
    let mut i: usize = from;
    while i < to
        invariant
            from <= i <= to <= s@.len(),
            to - from <= 12,
            pow16(12) == POW2_48,
            all_hex(s@.subrange(from as int, i as int)),
            acc == hex_seq_val(s@.subrange(from as int, i as int)),
            0 <= acc < pow16((i - from) as nat),
        decreases to - i,
    {
        let c = s.get_char(i);
        match read_hex_digit(c) {
            Some(d) => {
                proof {
                    let prefix = s@.subrange(from as int, i as int);
                    let next = s@.subrange(from as int, i + 1 as int);
                    assert(next =~= prefix.push(s@[i as int]));
                    assert(next.drop_last() =~= prefix);
                    lemma_pow16_pos((i - from) as nat);
                    assert(pow16(((i + 1) - from) as nat) == 16 * pow16((i - from) as nat));
                    assert(pow16((i - from) as nat) <= pow16(12)) by {
                        lemma_pow16_monotone((i - from) as nat, 12);
                    }
                }
                acc = acc * 16 + (d as u64);
                proof {
                    lemma_hex_seq_val_bound(s@.subrange(from as int, i + 1 as int));
                }
            },
            None => {
                proof {
                    assert(!all_hex(s@.subrange(from as int, to as int))) by {
                        assert(s@.subrange(from as int, to as int)[i - from] == s@[i as int]);
                    }
                }
                return None;
            },
        }
        i += 1;
    }
    proof {
        assert(s@.subrange(from as int, to as int) =~= s@.subrange(from as int, i as int));
    }
    Some(acc)
}

/// `pow16` is monotone in the width.
proof fn lemma_pow16_monotone(a: nat, b: nat)
    requires
        a <= b,
    ensures
        pow16(a) <= pow16(b),
    decreases b,
{
    if a < b {
        lemma_pow16_monotone(a, (b - 1) as nat);
        lemma_pow16_pos(a);
        lemma_pow16_pos((b - 1) as nat);
    }
}

/// Parses a hyphenated `8-4-4-4-12` hexadecimal identifier text, either case.
pub fn parse_uuid(s: &str) -> (r: Option<u128>)
    ensures
        r == parse_uuid_chars(s@),
{
    proof {
        lemma_pow16_values();
    }
    if s.unicode_len() != 36 {
        return None;
    }
    if s.get_char(8) != '-' || s.get_char(13) != '-' || s.get_char(18) != '-' || s.get_char(23)
        != '-' {
        return None;
    }
    let a: u64 = match read_hex_run(s, 0, 8) {
        Some(v) => v,
        None => { return None; },
    };
    let b: u64 = match read_hex_run(s, 9, 13) {
        Some(v) => v,
        None => { return None; },
    };
    let c: u64 = match read_hex_run(s, 14, 18) {
        Some(v) => v,
        None => { return None; },
    };
    let d: u64 = match read_hex_run(s, 19, 23) {
        Some(v) => v,
        None => { return None; },
    };
    let e: u64 = match read_hex_run(s, 24, 36) {
        Some(v) => v,
        None => { return None; },
    };
    proof {
        lemma_hex_seq_val_bound(s@.subrange(0, 8));
        lemma_hex_seq_val_bound(s@.subrange(9, 13));
        lemma_hex_seq_val_bound(s@.subrange(14, 18));
        lemma_hex_seq_val_bound(s@.subrange(19, 23));
        lemma_hex_seq_val_bound(s@.subrange(24, 36));
    }
    let id: u128 = (a as u128) * POW2_96 + (b as u128) * POW2_80 + (c as u128) * POW2_64 + (
    d as u128) * POW2_48 + (e as u128);
    Some(id)
}

/// An identifier rendered to hyphenated hexadecimal parses back to itself.
pub proof fn lemma_uuid_roundtrip(id: u128)
    ensures
        parse_uuid_chars(uuid_chars(id)) == Some(id),
{
    lemma_pow16_values();
    let (a, b, c, d, e) = uuid_groups(id);
    let n = id as int;
    assert(0 <= a < 0x100000000) by (nonlinear_arith)
        requires
            0 <= n < POW2_96 * 0x100000000,
            a == n / POW2_96 as int,
            POW2_96 > 0,
    {}
    assert(0 <= b < 65536 && 0 <= c < 65536 && 0 <= d < 65536) by (nonlinear_arith)
        requires
            n >= 0,
            b == n / POW2_80 as int % 65536,
            c == n / POW2_64 as int % 65536,
            d == n / POW2_48 as int % 65536,
    {}
    assert(0 <= e < POW2_48) by (nonlinear_arith)
        requires
            n >= 0,
            e == n % POW2_48 as int,
    {}
    lemma_hex_chars_len(a, 8);
    lemma_hex_chars_len(b, 4);
    lemma_hex_chars_len(c, 4);
    lemma_hex_chars_len(d, 4);
    lemma_hex_chars_len(e, 12);
    let s = uuid_chars(id);
    assert(s.len() == 36);
    assert(s.subrange(0, 8) =~= hex_chars(a, 8));
    assert(s.subrange(9, 13) =~= hex_chars(b, 4));
    assert(s.subrange(14, 18) =~= hex_chars(c, 4));
    assert(s.subrange(19, 23) =~= hex_chars(d, 4));
    assert(s.subrange(24, 36) =~= hex_chars(e, 12));
    assert(uuid_text_wf(s));
    lemma_hex_roundtrip(a, 8);
    lemma_hex_roundtrip(b, 4);
    lemma_hex_roundtrip(c, 4);
    lemma_hex_roundtrip(d, 4);
    lemma_hex_roundtrip(e, 12);
    assert(uuid_text_val(s) == a * POW2_96 as int + b * POW2_80 as int + c * POW2_64 as int + d
        * POW2_48 as int + e);
    lemma_uuid_groups_recompose(id);
}

/// The five groups of an identifier, scaled back into place, recompose it.
proof fn lemma_uuid_groups_recompose(id: u128)
    ensures
        ({
            let (a, b, c, d, e) = uuid_groups(id);
            a * POW2_96 as int + b * POW2_80 as int + c * POW2_64 as int + d * POW2_48 as int + e
                == id
        }),
{
    let n = id as int;
    lemma_fundamental_div_mod(n, POW2_96 as int);
    lemma_mod_breakdown(n, POW2_80 as int, 65536);
    lemma_mod_breakdown(n, POW2_64 as int, 65536);
    lemma_mod_breakdown(n, POW2_48 as int, 65536);
}

/// Relies on `uuid::Uuid::new_v4` for a fresh random version-4 identifier and
/// on `uuid::Uuid::as_u128` for its big-endian 128-bit packing: the version
/// nibble (bits 76..80) is 4 and the variant bits (62..64) are binary 10;
/// nothing else is promised of a random identifier.
#[verifier::external_body]
pub(crate) fn fresh_id() -> (r: u128)
    ensures
        r / 0x10000000000000000000 % 16 == 4,
        r / 0x4000000000000000 % 4 == 2,
{
    uuid::Uuid::new_v4().as_u128()
}

} // verus!

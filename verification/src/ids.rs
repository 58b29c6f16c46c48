//! Timestamps and ticket-id generation: a millisecond clock, and a wide
//! UUID-shaped identifier derived arithmetically from a nanosecond reading.
//! Ids are unique with overwhelming probability but not cryptographically
//! random; that is acceptable only under the loopback-trust assumption.

use vstd::prelude::*;
use vstd::string::*;

verus! {

/// Relies on `std::time::SystemTime::now` and `Duration::as_millis`:
/// milliseconds since the Unix epoch, or zero if the clock reads before the
/// epoch. Nothing is promised of the result; callers treat it as an
/// arbitrary timestamp.
#[verifier::external_body]
pub fn now_ms() -> u64 {
    std::time::SystemTime::now()
        .duration_since(std::time::UNIX_EPOCH)
        .unwrap_or_default()
        .as_millis() as u64
}

/// Relies on `std::time::SystemTime::now` and `Duration::as_nanos`:
/// nanoseconds since the Unix epoch, or zero if the clock reads before the
/// epoch. Nothing is promised of the result.
#[verifier::external_body]
fn now_nanos() -> u128 {
    std::time::SystemTime::now()
        .duration_since(std::time::UNIX_EPOCH)
        .unwrap_or_default()
        .as_nanos()
}

/// The lowercase hexadecimal digit character for `d` in `0 ..= 15`.
pub open spec fn hex_digit(d: int) -> char {
    if d == 0 {
        '0'
    } else if d == 1 {
        '1'
    } else if d == 2 {
        '2'
    } else if d == 3 {
        '3'
    } else if d == 4 {
        '4'
    } else if d == 5 {
        '5'
    } else if d == 6 {
        '6'
    } else if d == 7 {
        '7'
    } else if d == 8 {
        '8'
    } else if d == 9 {
        '9'
    } else if d == 10 {
        'a'
    } else if d == 11 {
        'b'
    } else if d == 12 {
        'c'
    } else if d == 13 {
        'd'
    } else if d == 14 {
        'e'
    } else {
        'f'
    }
}

/// The fixed-width lowercase hexadecimal rendering of `v`, `w` digits long,
/// most significant digit first.
pub open spec fn hex_seq(v: int, w: nat) -> Seq<char>
    decreases w,
{
    if w == 0 {
        Seq::empty()
    } else {
        hex_seq(v / 16, (w - 1) as nat).push(hex_digit(v % 16))
    }
}

pub proof fn lemma_hex_len(v: int, w: nat)
    ensures
        hex_seq(v, w).len() == w,
    decreases w,
{
    if w > 0 {
        lemma_hex_len(v / 16, (w - 1) as nat);
    }
}

fn hex_digit_str(d: u128) -> (r: &'static str)
    requires
        d < 16,
    ensures
        r@ == seq![hex_digit(d as int)],
{
    proof {
        reveal_strlit("0");
        reveal_strlit("1");
        reveal_strlit("2");
        reveal_strlit("3");
        reveal_strlit("4");
        reveal_strlit("5");
        reveal_strlit("6");
        reveal_strlit("7");
        reveal_strlit("8");
        reveal_strlit("9");
        reveal_strlit("a");
        reveal_strlit("b");
        reveal_strlit("c");
        reveal_strlit("d");
        reveal_strlit("e");
        reveal_strlit("f");
    }
    let r: &'static str = match d {
        0 => "0",
        1 => "1",
        2 => "2",
        3 => "3",
        4 => "4",
        5 => "5",
        6 => "6",
        7 => "7",
        8 => "8",
        9 => "9",
        10 => "a",
        11 => "b",
        12 => "c",
        13 => "d",
        14 => "e",
        _ => "f",
    };
    proof {
        assert(r@ =~= seq![hex_digit(d as int)]);
    }
    r
}

/// Append the fixed-width hexadecimal rendering of `v` to `out`.
fn push_hex(out: &mut String, v: u128, w: usize)
    ensures
        final(out)@ == old(out)@ + hex_seq(v as int, w as nat),
    decreases w,
{
    if w == 0 {
        proof {
            assert(out@ =~= old(out)@ + hex_seq(v as int, 0));
        }
    } else {
        push_hex(out, v / 16, w - 1);
        out.append(hex_digit_str(v % 16));
        proof {
            assert(out@ =~= old(out)@ + hex_seq(v as int, w as nat));
        }
    }
}

/// The UUID-shaped rendering of a 128-bit value: five dash-separated
/// lowercase-hex groups of 8, 4, 4, 4 and 12 digits, with the third group
/// forced to start with `4` and the fourth group's high bits forced to `8`.
pub open spec fn ticket_id_seq(r: int) -> Seq<char> {
    hex_seq(r / 0x1000000000000000000000000, 8) + seq!['-'] + hex_seq(
        (r / 0x100000000000000000000) % 0x10000,
        4,
    ) + seq!['-', '4'] + hex_seq((r / 0x10000000000000000) % 0x1000, 3) + seq!['-'] + hex_seq(
        (r / 0x1000000000000) % 0x4000 + 0x8000,
        4,
    ) + seq!['-'] + hex_seq(r % 0x1000000000000, 12)
}

/// The rendering is 36 characters long with dashes at the usual positions
/// and the version nibble `4`.
pub proof fn lemma_ticket_id_shape(r: int)
    ensures
        ticket_id_seq(r).len() == 36,
        ticket_id_seq(r)[8] == '-',
        ticket_id_seq(r)[13] == '-',
        ticket_id_seq(r)[14] == '4',
        ticket_id_seq(r)[18] == '-',
        ticket_id_seq(r)[23] == '-',
{
    lemma_hex_len(r / 0x1000000000000000000000000, 8);
    lemma_hex_len((r / 0x100000000000000000000) % 0x10000, 4);
    lemma_hex_len((r / 0x10000000000000000) % 0x1000, 3);
    lemma_hex_len((r / 0x1000000000000) % 0x4000 + 0x8000, 4);
    lemma_hex_len(r % 0x1000000000000, 12);
}

/// Render a 128-bit value in the UUID-like ticket-id shape.
pub fn format_ticket_id(rv: u128) -> (s: String)
    ensures
        s@ == ticket_id_seq(rv as int),
        s@.len() == 36,
{
    let mut s = String::new();
    push_hex(&mut s, rv / 0x1000000000000000000000000, 8);
    s.append("-");
    push_hex(&mut s, (rv / 0x100000000000000000000) % 0x10000, 4);
    s.append("-4");
    push_hex(&mut s, (rv / 0x10000000000000000) % 0x1000, 3);
    s.append("-");
    push_hex(&mut s, (rv / 0x1000000000000) % 0x4000 + 0x8000, 4);
    s.append("-");
    push_hex(&mut s, rv % 0x1000000000000, 12);
    proof {
        reveal_strlit("-");
        reveal_strlit("-4");
        assert(s@ =~= ticket_id_seq(rv as int));
        lemma_ticket_id_shape(rv as int);
    }
    s
}

/// A fresh ticket id: a nanosecond clock reading scrambled by a fixed
/// multiplier, rendered in the UUID-like shape.
pub fn simple_id() -> (s: String)
    ensures
        s@.len() == 36,
        s@[8] == '-',
        s@[13] == '-',
        s@[14] == '4',
        s@[18] == '-',
        s@[23] == '-',
{
    let t = now_nanos();
    let r = t.wrapping_mul(6364136223846793005).wrapping_add(1);
    let s = format_ticket_id(r);
    proof {
        lemma_ticket_id_shape(r as int);
    }
    s
}

} // verus!

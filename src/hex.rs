//! Fixed-width lowercase hexadecimal digits over `Seq<char>`.

use vstd::prelude::*;
use vstd::string::*;

verus! {

/// `16^n`.
pub open spec fn pow16(n: nat) -> nat
    decreases n,
{
    if n == 0 {
        1
    } else {
        16 * pow16((n - 1) as nat)
    }
}

/// The lowercase digit for a nibble `d < 16`.
pub open spec fn hex_char(d: nat) -> char {
    if d < 10 {
        (d + 48) as char
    } else {
        (d + 87) as char
    }
}

pub open spec fn is_hex_char(c: char) -> bool {
    (48 <= (c as u32) && (c as u32) <= 57) || (97 <= (c as u32) && (c as u32) <= 102)
}

/// The nibble that a lowercase hex digit stands for.
pub open spec fn hex_char_value(c: char) -> nat {
    if (c as u32) <= 57 {
        ((c as u32) - 48) as nat
    } else {
        ((c as u32) - 87) as nat
    }
}

pub open spec fn all_hex(s: Seq<char>) -> bool {
    forall|i: int| 0 <= i < s.len() ==> is_hex_char(#[trigger] s[i])
}

/// The number written by the digits `s`, most significant first.
pub open spec fn hex_value(s: Seq<char>) -> nat
    decreases s.len(),
{
    if s.len() == 0 {
        0
    } else {
        16 * hex_value(s.drop_last()) + hex_char_value(s.last())
    }
}

/// The `width` least significant nibbles of `n`, most significant first.
pub open spec fn hex_digits(n: nat, width: nat) -> Seq<char>
    decreases width,
{
    if width == 0 {
        Seq::empty()
    } else {
        hex_digits(n / 16, (width - 1) as nat).push(hex_char(n % 16))
    }
}

pub proof fn lemma_hex_char(d: nat)
    requires
        d < 16,
    ensures
        is_hex_char(hex_char(d)),
        hex_char_value(hex_char(d)) == d,
{
}

pub proof fn lemma_pow16_grows(a: nat, b: nat)
    requires
        a <= b,
    ensures
        1 <= pow16(a) <= pow16(b),
    decreases b,
{
    if b > 0 {
        if a == b {
            lemma_pow16_grows((b - 1) as nat, (b - 1) as nat);
        } else {
            lemma_pow16_grows(a, (b - 1) as nat);
        }
    }
}

pub proof fn lemma_pow16_32()
    ensures
        pow16(32) == 0x1_0000_0000_0000_0000_0000_0000_0000_0000,
        pow16(16) == 0x1_0000_0000_0000_0000,
{
    reveal_with_fuel(pow16, 33);
}

pub proof fn lemma_hex_digits(n: nat, width: nat)
    requires
        n < pow16(width),
    ensures
        hex_digits(n, width).len() == width,
        all_hex(hex_digits(n, width)),
        hex_value(hex_digits(n, width)) == n,
    decreases width,
{
    if width > 0 {
        let w1 = (width - 1) as nat;
        assert(n / 16 < pow16(w1)) by (nonlinear_arith)
            requires
                n < 16 * pow16(w1),
        ;
        lemma_hex_digits(n / 16, w1);
        lemma_hex_char(n % 16);
        let d = hex_digits(n, width);
        assert(d.drop_last() =~= hex_digits(n / 16, w1));
        assert(n == 16 * (n / 16) + n % 16) by (nonlinear_arith);
    }
}

/// Digits that spell the same number in the same width are the same digits.
pub proof fn lemma_hex_digits_injective(a: nat, b: nat, width: nat)
    requires
        a < pow16(width),
        b < pow16(width),
        hex_digits(a, width) == hex_digits(b, width),
    ensures
        a == b,
{
    lemma_hex_digits(a, width);
    lemma_hex_digits(b, width);
}

fn hex_str(d: u8) -> (r: &'static str)
    requires
        d < 16,
    ensures
        r@ == seq![hex_char(d as nat)],
{
    match d {
        0 => { proof { reveal_strlit("0"); } "0" },
        1 => { proof { reveal_strlit("1"); } "1" },
        2 => { proof { reveal_strlit("2"); } "2" },
        3 => { proof { reveal_strlit("3"); } "3" },
        4 => { proof { reveal_strlit("4"); } "4" },
        5 => { proof { reveal_strlit("5"); } "5" },
        6 => { proof { reveal_strlit("6"); } "6" },
        7 => { proof { reveal_strlit("7"); } "7" },
        8 => { proof { reveal_strlit("8"); } "8" },
        9 => { proof { reveal_strlit("9"); } "9" },
        10 => { proof { reveal_strlit("a"); } "a" },
        11 => { proof { reveal_strlit("b"); } "b" },
        12 => { proof { reveal_strlit("c"); } "c" },
        13 => { proof { reveal_strlit("d"); } "d" },
        14 => { proof { reveal_strlit("e"); } "e" },
        _ => { proof { reveal_strlit("f"); } "f" },
    }
}

/// Appends the `width` least significant nibbles of `n` to `out`.
pub fn push_hex(out: &mut String, n: u128, width: usize)
    ensures
        final(out)@ == old(out)@ + hex_digits(n as nat, width as nat),
    decreases width,
{
    if width > 0 {
        push_hex(out, n / 16, width - 1);
        out.append(hex_str((n % 16) as u8));
        assert(final(out)@ =~= old(out)@ + hex_digits(n as nat, width as nat));
    }
}

/// Reads `width` hex digits of `s` starting at character `from`.
pub fn read_hex(s: &str, from: usize, width: usize) -> (r: Option<u128>)
    requires
        width <= 32,
        from + width <= s@.len() <= usize::MAX,
    ensures
        r == (if all_hex(s@.subrange(from as int, from + width)) {
            Some(hex_value(s@.subrange(from as int, from + width)) as u128)
        } else {
            None::<u128>
        }),
        r is Some ==> r->0 < pow16(width as nat),
        r is Some ==> r->0 as nat == hex_value(s@.subrange(from as int, from + width)),
{
    let mut acc: u128 = 0;
    let mut j: usize = 0;
    proof {
        lemma_pow16_32();
        lemma_pow16_grows(width as nat, 32);
    }
    while j < width
        invariant
            j <= width <= 32,
            from + width <= s@.len() <= usize::MAX,
            pow16(width as nat) <= pow16(32),
            pow16(32) == 0x1_0000_0000_0000_0000_0000_0000_0000_0000,
            all_hex(s@.subrange(from as int, from + j)),
            acc as nat == hex_value(s@.subrange(from as int, from + j)),
            acc < pow16(j as nat),
        decreases width - j,
    {
        let c = s.get_char(from + j);
        let ghost prev = s@.subrange(from as int, from + j);
        let ghost next = s@.subrange(from as int, from + j + 1);
        if !(('0' as u32 <= c as u32 && c as u32 <= '9' as u32) || ('a' as u32 <= c as u32
            && c as u32 <= 'f' as u32)) {
            proof {
                let whole = s@.subrange(from as int, from + width);
                assert(whole[j as int] == c);
            }
            return None;
        }
        let v: u128 = if c as u32 <= '9' as u32 {
            (c as u32 - '0' as u32) as u128
        } else {
            (c as u32 - 'a' as u32 + 10) as u128
        };
        proof {
            lemma_pow16_grows((j + 1) as nat, width as nat);
            assert(next.drop_last() =~= prev);
            assert(next.last() == c);
            let p = pow16(j as nat);
            assert(acc * 16 + v < 16 * p) by (nonlinear_arith)
                requires
                    acc < p,
                    v < 16,
            ;
            assert(all_hex(next)) by {
                assert forall|i: int| 0 <= i < next.len() implies is_hex_char(#[trigger] next[i]) by {
                    if i < j {
                        assert(next[i] == prev[i]);
                    }
                }
            }
        }
        acc = acc * 16 + v;
        j = j + 1;
    }
    Some(acc)
}

} // verus!

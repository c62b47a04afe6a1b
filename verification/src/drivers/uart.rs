//! Console text encoding: the exact bytes the kernel writes to the UART for
//! strings, lines, and hexadecimal and decimal numbers.
use vstd::prelude::*;
use vstd::string::*;

verus! {

/// `bytes` as sent to the terminal: every `\n` is preceded by `\r`.
pub open spec fn crlf(bytes: Seq<u8>) -> Seq<u8>
    decreases bytes.len(),
{
    if bytes.len() == 0 {
        Seq::empty()
    } else if bytes.last() == 10 {
        crlf(bytes.drop_last()).add(seq![13u8, 10u8])
    } else {
        crlf(bytes.drop_last()).push(bytes.last())
    }
}

/// The terminal bytes of a line of text.
pub open spec fn line_bytes(s: Seq<u8>) -> Seq<u8> {
    crlf(s).add(seq![13u8, 10u8])
}

/// ASCII of hexadecimal digit `d` (`0-9`, `A-F`).
pub open spec fn hex_digit(d: int) -> u8 {
    if d < 10 {
        (48 + d) as u8
    } else {
        (65 + d - 10) as u8
    }
}

/// Nibble `i` of `v`, most significant first.
pub open spec fn nibble(v: u64, i: int) -> int {
    ((v >> ((60 - 4 * i) as u64)) & 0xFu64) as int
}

/// `0x` followed by the 16 uppercase hexadecimal digits of `v`.
pub open spec fn hex_text(v: u64) -> Seq<u8> {
    seq![48u8, 120u8].add(Seq::new(16, |i: int| hex_digit(nibble(v, i))))
}

/// Decimal digits of `v`, without leading zeros (`"0"` for zero).
pub open spec fn dec_text(v: u64) -> Seq<u8> {
    if v == 0 {
        seq![48u8]
    } else {
        dec_digits(v as nat)
    }
}

pub open spec fn dec_digits(v: nat) -> Seq<u8>
    decreases v,
{
    if v < 10 {
        seq![(48 + v) as u8]
    } else {
        dec_digits(v / 10).push((48 + v % 10) as u8)
    }
}

pub fn write_str(s: &str) -> (r: Vec<u8>)
    ensures
        r@ == crlf(s.spec_bytes()),
{
    let bytes = s.as_bytes_vec();
    let mut out: Vec<u8> = Vec::new();
    let mut i: usize = 0;
    while i < bytes.len()
        invariant
            i <= bytes@.len(),
            bytes@ == s.spec_bytes(),
            out@ == crlf(bytes@.subrange(0, i as int)),
        decreases bytes.len() - i,
    {
        let byte = bytes[i];
        if byte == 10 {
            out.push(13);
        }
        out.push(byte);
        proof {
            assert(bytes@.subrange(0, i + 1).drop_last() =~= bytes@.subrange(0, i as int));
        }
        i = i + 1;
    }
    assert(bytes@.subrange(0, bytes@.len() as int) =~= bytes@);
    out
}

pub fn write_line(s: &str) -> (r: Vec<u8>)
    ensures
        r@ == line_bytes(s.spec_bytes()),
{
    let mut out = write_str(s);
    out.push(13);
    out.push(10);
    out
}

pub fn write_hex_u64(value: u64) -> (r: Vec<u8>)
    ensures
        r@ == hex_text(value),
{
    let mut out: Vec<u8> = Vec::new();
    out.push(48);
    out.push(120);
    let mut i: usize = 0;
    while i < 16
        invariant
            i <= 16,
            out@ == seq![48u8, 120u8].add(Seq::new(i as nat, |k: int| hex_digit(nibble(value, k)))),
        decreases 16 - i,
    {
        let shift: u64 = 60 - 4 * (i as u64);
        let nib = (value >> shift) & 0xF;
        assert(nib < 16) by (bit_vector)
            requires
                nib == (value >> shift) & 0xF,
        ;
        let digit = nib as u8;
        let ch = if digit < 10 {
            48 + digit
        } else {
            65 + (digit - 10)
        };
        out.push(ch);
        proof {
            assert(digit as int == nibble(value, i as int));
            assert(out@ =~= seq![48u8, 120u8].add(
                Seq::new((i + 1) as nat, |k: int| hex_digit(nibble(value, k))),
            ));
        }
        i = i + 1;
    }
    assert(out@ =~= hex_text(value));
    out
}

pub open spec fn pow10(n: nat) -> nat
    decreases n,
{
    if n == 0 {
        1
    } else {
        10 * pow10((n - 1) as nat)
    }
}

proof fn lemma_pow10_20()
    ensures
        pow10(20) == 100000000000000000000,
{
    reveal_with_fuel(pow10, 21);
}

proof fn lemma_pow10_mono(a: nat, b: nat)
    requires
        a <= b,
    ensures
        pow10(a) <= pow10(b),
    decreases b - a,
{
    if a < b {
        lemma_pow10_mono(a, (b - 1) as nat);
    }
}

pub fn write_dec_u64(value: u64) -> (r: Vec<u8>)
    ensures
        r@ == dec_text(value),
{
    let mut out: Vec<u8> = Vec::new();
    if value == 0 {
        out.push(48);
        assert(out@ =~= dec_text(value));
        return out;
    }
    let mut buffer = [0u8; 20];
    let mut index: usize = 20;
    let mut v = value;
    proof {
        lemma_pow10_20();
        assert(pow10(0) == 1);
        assert(pow10((20 - index) as nat) == 1);
        assert(v as int * pow10((20 - index) as nat) == v as int);
    }
    while v > 0
        invariant
            index <= 20,
            buffer@.len() == 20,
            v as int * pow10((20 - index) as nat) <= u64::MAX,
            v > 0 ==> dec_digits(value as nat) == dec_digits(v as nat).add(
                buffer@.subrange(index as int, 20),
            ),
            v == 0 ==> dec_digits(value as nat) == buffer@.subrange(index as int, 20),
            pow10(20) == 100000000000000000000,
        decreases v,
    {
        proof {
            if index == 0 {
                assert(v as int * pow10(20) >= pow10(20)) by (nonlinear_arith)
                    requires
                        v > 0,
                ;
            }
        }
        let ghost old_index = index;
        let ghost old_v = v;
        index = index - 1;
        buffer[index] = 48 + (v % 10) as u8;
        v = v / 10;
        proof {
            assert(v as int * pow10((20 - index) as nat) <= old_v as int * pow10(
                (20 - old_index) as nat,
            )) by (nonlinear_arith)
                requires
                    v == old_v / 10,
                    pow10((20 - index) as nat) == 10 * pow10((20 - old_index) as nat),
            ;
            assert(buffer@.subrange(index as int, 20) =~= seq![(48 + old_v % 10) as u8].add(
                buffer@.subrange(old_index as int, 20),
            ));
            if v > 0 {
                assert(dec_digits(old_v as nat) == dec_digits(v as nat).push(
                    (48 + old_v % 10) as u8,
                ));
                assert(dec_digits(v as nat).push((48 + old_v % 10) as u8).add(
                    buffer@.subrange(old_index as int, 20),
                ) =~= dec_digits(v as nat).add(buffer@.subrange(index as int, 20)));
            } else {
                assert(dec_digits(old_v as nat) == seq![(48 + old_v) as u8]);
            }
        }
    }
    while index < 20
        invariant
            index <= 20,
            buffer@.len() == 20,
            out@.add(buffer@.subrange(index as int, 20)) == dec_digits(value as nat),
        decreases 20 - index,
    {
        out.push(buffer[index]);
        proof {
            assert(out@.add(buffer@.subrange(index + 1, 20)) =~= out@.drop_last().add(
                buffer@.subrange(index as int, 20),
            ));
        }
        index = index + 1;
    }
    assert(out@ =~= out@.add(buffer@.subrange(20, 20)));
    out
}

} // verus!

//! Banks of eight sixteen-bit ports, seen as lines that are high or low.

use vstd::prelude::*;

verus! {

/// The word in which one bit is set.
pub open spec fn mask(bit: int) -> u16 {
    1u16 << (bit as u16)
}

/// A bit of a word is set.
pub open spec fn high(word: u16, bit: int) -> bool {
    word & mask(bit) != 0
}

/// A line of a bank is high.
pub open spec fn line(bank: Seq<u16>, chip: int, bit: int) -> bool {
    high(bank[chip], bit)
}

/// Every word of a bank is zero.
pub open spec fn all_zero(bank: Seq<u16>) -> bool {
    forall|chip: int| 0 <= chip < bank.len() ==> #[trigger] bank[chip] == 0
}

/// The line is high, and every line before it, by chip and then by bit, is low.
pub open spec fn is_first_line(bank: Seq<u16>, chip: int, bit: int) -> bool {
    &&& 0 <= chip < bank.len()
    &&& 0 <= bit < 16
    &&& line(bank, chip, bit)
    &&& forall|b: int| 0 <= b < bit ==> !#[trigger] line(bank, chip, b)
    &&& forall|c: int, b: int| 0 <= c < chip && 0 <= b < 16 ==> !#[trigger] line(bank, c, b)
}

/// The first high line of a bank, where there is one.
pub open spec fn first_line(bank: Seq<u16>) -> Option<(int, int)> {
    if all_zero(bank) {
        None
    } else {
        Some(choose|at: (int, int)| #[trigger] is_first_line(bank, at.0, at.1))
    }
}

/// A word without a set bit is zero.
pub proof fn lemma_no_bit_set(word: u16)
    requires
        forall|b: int| 0 <= b < 16 ==> !#[trigger] high(word, b),
    ensures
        word == 0,
{
    assert(!high(word, 0) && !high(word, 1) && !high(word, 2) && !high(word, 3));
    assert(!high(word, 4) && !high(word, 5) && !high(word, 6) && !high(word, 7));
    assert(!high(word, 8) && !high(word, 9) && !high(word, 10) && !high(word, 11));
    assert(!high(word, 12) && !high(word, 13) && !high(word, 14) && !high(word, 15));
    assert(word == 0) by (bit_vector)
        requires
            word & (1u16 << 0u16) == 0,
            word & (1u16 << 1u16) == 0,
            word & (1u16 << 2u16) == 0,
            word & (1u16 << 3u16) == 0,
            word & (1u16 << 4u16) == 0,
            word & (1u16 << 5u16) == 0,
            word & (1u16 << 6u16) == 0,
            word & (1u16 << 7u16) == 0,
            word & (1u16 << 8u16) == 0,
            word & (1u16 << 9u16) == 0,
            word & (1u16 << 10u16) == 0,
            word & (1u16 << 11u16) == 0,
            word & (1u16 << 12u16) == 0,
            word & (1u16 << 13u16) == 0,
            word & (1u16 << 14u16) == 0,
            word & (1u16 << 15u16) == 0,
    ;
}

/// Every bit of zero is low.
pub proof fn lemma_zero_low(bit: int)
    ensures
        !high(0, bit),
{
    let b: u16 = bit as u16;
    assert(0u16 & (1u16 << b) == 0) by (bit_vector);
}

/// The first high line of a bank, or the first line of all where none is high.
pub fn which_bit(bits: &[u16; 8]) -> (at: (u8, u8))
    ensures
        all_zero(bits@) ==> at == (0u8, 0u8),
        !all_zero(bits@) ==> is_first_line(bits@, at.0 as int, at.1 as int),
{
    let mut chip: usize = 0;
    while chip < 8
        invariant
            chip <= 8,
            forall|c: int| 0 <= c < chip ==> #[trigger] bits@[c] == 0,
        decreases 8 - chip,
    {
        let input_bits: u16 = bits[chip];
        if input_bits != 0 {
            let mut bit: u8 = 0;
            while bit < 16
                invariant
                    chip < 8,
                    bit <= 16,
                    input_bits == bits@[chip as int],
                    input_bits != 0,
                    forall|c: int| 0 <= c < chip ==> #[trigger] bits@[c] == 0,
                    forall|b: int| 0 <= b < bit ==> !#[trigger] high(input_bits, b),
                decreases 16 - bit,
            {
                if input_bits & (1u16 << (bit as u16)) != 0 {
                    proof {
                        assert forall|c: int, b: int| 0 <= c < chip && 0 <= b < 16 implies
                            !#[trigger] line(bits@, c, b) by {
                            lemma_zero_low(b);
                        }
                        assert(high(input_bits, bit as int));
                        assert(line(bits@, chip as int, bit as int));
                        assert forall|b: int| 0 <= b < bit implies !#[trigger] line(
                            bits@,
                            chip as int,
                            b,
                        ) by {
                            assert(!high(input_bits, b));
                        }
                        assert(bits@[chip as int] != 0);
                    }
                    return (chip as u8, bit);
                }
                assert(!high(input_bits, bit as int));
                bit += 1;
            }
            proof {
                lemma_no_bit_set(input_bits);
            }
        }
        chip += 1;
    }
    (0, 0)
}

/// The first high line of a bank, where there is one.
pub fn first_edge(bank: &[u16; 8]) -> (edge: Option<(u8, u8)>)
    ensures
        match first_line(bank@) {
            None => edge is None,
            Some(at) => edge == Some((at.0 as u8, at.1 as u8)) && 0 <= at.0 < 8 && 0 <= at.1 < 16,
        },
{
    let mut any: bool = false;
    let mut i: usize = 0;
    while i < 8
        invariant
            i <= 8,
            any <==> exists|c: int| 0 <= c < i && #[trigger] bank@[c] != 0,
        decreases 8 - i,
    {
        if bank[i] != 0 {
            assert(bank@[i as int] != 0);
            any = true;
        }
        i += 1;
    }
    if any {
        let at = which_bit(bank);
        proof {
            law_first_line(bank@, at.0 as int, at.1 as int);
        }
        Some(at)
    } else {
        None
    }
}

/// A bank has at most one first high line, and `first_line` is it.
pub proof fn law_first_line(bank: Seq<u16>, chip: int, bit: int)
    requires
        is_first_line(bank, chip, bit),
    ensures
        first_line(bank) == Some((chip, bit)),
{
    lemma_zero_low(bit);
    assert(bank[chip] != 0);
    let at = choose|at: (int, int)| #[trigger] is_first_line(bank, at.0, at.1);
    assert(is_first_line(bank, (chip, bit).0, (chip, bit).1));
    assert(line(bank, at.0, at.1));
    assert(line(bank, chip, bit));
}

/// The bits that went from low to high.
pub open spec fn risen(before: u16, after: u16) -> u16 {
    !before & after
}

/// The bits that went from high to low.
pub open spec fn fallen(before: u16, after: u16) -> u16 {
    before & !after
}

/// A bit has risen where it was low and is high, and has fallen where it was high and is low.
pub proof fn law_edges(before: u16, after: u16, bit: int)
    requires
        0 <= bit < 16,
    ensures
        high(risen(before, after), bit) <==> !high(before, bit) && high(after, bit),
        high(fallen(before, after), bit) <==> high(before, bit) && !high(after, bit),
{
    let b: u16 = bit as u16;
    assert(((!before & after) & (1u16 << b) != 0) <==> (before & (1u16 << b) == 0 && after & (
    1u16 << b) != 0)) by (bit_vector)
        requires
            b < 16,
    ;
    assert(((before & !after) & (1u16 << b) != 0) <==> (before & (1u16 << b) != 0 && after & (
    1u16 << b) == 0)) by (bit_vector)
        requires
            b < 16,
    ;
}

/// The edges lead from the word before to the word after, no bit has both, and there are none
/// exactly where nothing changed.
pub proof fn law_edges_replay(before: u16, after: u16)
    ensures
        (before | risen(before, after)) & !fallen(before, after) == after,
        risen(before, after) & fallen(before, after) == 0,
        risen(before, after) == 0 && fallen(before, after) == 0 <==> before == after,
{
    assert((before | (!before & after)) & !(before & !after) == after) by (bit_vector);
    assert((!before & after) & (before & !after) == 0) by (bit_vector);
    assert((!before & after == 0 && before & !after == 0) <==> before == after) by (bit_vector);
}

} // verus!

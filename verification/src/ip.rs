//! IPv6 addresses written in groups of hexadecimal digits, as eight words.

use crate::format::VideoError;
use crate::number::{parse_bounded, parse_hex, parse_hex_bounded, parse_unsigned};
use crate::text::{split_bytes, split_on};
use vstd::prelude::*;
use vstd::string::*;

verus! {

/// What one group of an address stands for: the number it is in base 16, or
/// 0 where it is none that 16 bits hold.
pub open spec fn group_word(group: Seq<u8>) -> int {
    match parse_hex(group, 0xffff) {
        Some(v) => v,
        None => 0,
    }
}

/// The groups before the first `::` of an address.
pub open spec fn leading_groups(ip: Seq<u8>) -> Seq<Seq<u8>> {
    split_on(split_on(ip, seq![0x3au8, 0x3au8])[0], seq![0x3au8])
}

/// The groups between the first `::` of an address and the next; none where
/// it has no `::`.
pub open spec fn trailing_groups(ip: Seq<u8>) -> Seq<Seq<u8>> {
    let parts = split_on(ip, seq![0x3au8, 0x3au8]);
    if parts.len() > 1 {
        split_on(parts[1], seq![0x3au8])
    } else {
        Seq::empty()
    }
}

/// The word at place `p` of an address with the groups `head` before its
/// `::` and the groups `tail` after it: the groups of `tail` fill the last
/// places, those of `head` the first places that are left, and zero the
/// rest.
pub open spec fn word_at(head: Seq<Seq<u8>>, tail: Seq<Seq<u8>>, p: int) -> int {
    if p >= 8 - tail.len() {
        group_word(tail[tail.len() - 8 + p])
    } else if p < head.len() {
        group_word(head[p])
    } else {
        0
    }
}

/// The eight words of an address.
pub open spec fn normalized(ip: Seq<u8>) -> Seq<int> {
    Seq::new(8, |p: int| word_at(leading_groups(ip), trailing_groups(ip), p))
}

fn word_of(group: &[u8]) -> (w: u16)
    ensures
        w == group_word(group@),
{
    match parse_hex_bounded(group, 0xffff) {
        Some(v) => v as u16,
        None => 0,
    }
}

/// The eight 16-bit words of an IPv6 address in which `::` may stand for a
/// run of zero words. A group that is no hexadecimal number of 16 bits
/// counts as zero.
pub fn normalize_ip(ip: &str) -> (words: Vec<u16>)
    ensures
        words.len() == 8,
        forall|p: int| 0 <= p < 8 ==> #[trigger] words[p] == normalized(ip.spec_bytes())[p],
{
    normalize_words(ip.as_bytes())
}

/// The eight words of an address given as bytes.
pub fn normalize_words(ip: &[u8]) -> (words: Vec<u16>)
    ensures
        words.len() == 8,
        forall|p: int| 0 <= p < 8 ==> #[trigger] words[p] == normalized(ip@)[p],
{
    let mut colon: Vec<u8> = Vec::new();
    colon.push(0x3a);
    let mut gap: Vec<u8> = Vec::new();
    gap.push(0x3a);
    gap.push(0x3a);
    assert(colon@ =~= seq![0x3au8]);
    assert(gap@ =~= seq![0x3au8, 0x3au8]);
    let parts = split_bytes(ip, gap.as_slice());
    let ghost parts_view = split_on(ip@, seq![0x3au8, 0x3au8]);
    assert(parts@.map_values(|p: &[u8]| p@)[0] == parts@[0]@);
    let head = split_bytes(parts[0], colon.as_slice());
    let tail: Vec<&[u8]> = if parts.len() > 1 {
        assert(parts@.map_values(|p: &[u8]| p@)[1] == parts@[1]@);
        split_bytes(parts[1], colon.as_slice())
    } else {
        Vec::new()
    };
    let ghost head_view = leading_groups(ip@);
    let ghost tail_view = trailing_groups(ip@);
    assert(head@.map_values(|p: &[u8]| p@) == head_view);
    assert(tail@.map_values(|p: &[u8]| p@) =~= tail_view);
    let mut words: Vec<u16> = Vec::new();
    let mut p: usize = 0;
    while p < 8
        invariant
            p <= 8,
            words.len() == p,
            head@.map_values(|g: &[u8]| g@) == head_view,
            tail@.map_values(|g: &[u8]| g@) == tail_view,
            forall|q: int| 0 <= q < p ==> #[trigger] words[q] == word_at(head_view, tail_view, q),
        decreases 8 - p,
    {
        let word: u16 = if tail.len() >= 8 - p {
            assert(tail_view[tail.len() - 8 + p] == tail@[tail.len() - 8 + p]@);
            word_of(tail[tail.len() - (8 - p)])
        } else if p < head.len() {
            assert(head_view[p as int] == head@[p as int]@);
            word_of(head[p])
        } else {
            0
        };
        words.push(word);
        p += 1;
    }
    words
}

/// A block of addresses: the eight words of an address and the number of
/// its leading bits that all addresses of the block share.
pub struct AddressBlock {
    pub words: Vec<u16>,
    pub bits: u8,
}

/// The number of bits that a block written as `block` fixes, or the reason
/// why `block` names none: it is not of the form `address/bits`, with one
/// slash and something before it, or its bits are no number between 24 and
/// 128.
pub open spec fn block_bits(block: Seq<u8>) -> Result<int, VideoError> {
    let parts = split_on(block, seq![0x2fu8]);
    if parts.len() != 2 || parts[0].len() == 0 {
        Err(VideoError::InvalidIPv6Format)
    } else {
        match parse_unsigned(parts[1], 255) {
            Some(bits) => if 24 <= bits <= 128 {
                Ok(bits)
            } else {
                Err(VideoError::InvalidIPv6Subnet)
            },
            None => Err(VideoError::InvalidIPv6Subnet),
        }
    }
}

/// Reads a block of addresses written as `address/bits`.
pub fn read_block(block: &str) -> (r: Result<AddressBlock, VideoError>)
    ensures
        match r {
            Ok(b) => {
                &&& block_bits(block.spec_bytes()) == Ok::<int, VideoError>(b.bits as int)
                &&& b.words.len() == 8
                &&& forall|p: int|
                    0 <= p < 8 ==> #[trigger] b.words[p] == normalized(
                        split_on(block.spec_bytes(), seq![0x2fu8])[0],
                    )[p]
            },
            Err(e) => block_bits(block.spec_bytes()) == Err::<int, VideoError>(e),
        },
{
    let mut slash: Vec<u8> = Vec::new();
    slash.push(0x2f);
    assert(slash@ =~= seq![0x2fu8]);
    let parts = split_bytes(block.as_bytes(), slash.as_slice());
    let ghost parts_view = split_on(block.spec_bytes(), seq![0x2fu8]);
    assert(parts@.map_values(|p: &[u8]| p@)[0] == parts@[0]@);
    if parts.len() != 2 || parts[0].len() == 0 {
        return Err(VideoError::InvalidIPv6Format);
    }
    assert(parts@.map_values(|p: &[u8]| p@)[1] == parts@[1]@);
    let bits = match parse_bounded(parts[1], 255) {
        Some(bits) => bits,
        None => {
            return Err(VideoError::InvalidIPv6Subnet);
        },
    };
    if bits < 24 || bits > 128 {
        return Err(VideoError::InvalidIPv6Subnet);
    }
    let words = normalize_words(parts[0]);
    Ok(AddressBlock { words, bits: bits as u8 })
}

/// The number of bits of the word at place `p` that a block with `bits`
/// leading bits fixes.
pub open spec fn fixed_bits(bits: int, p: int) -> int {
    if bits <= 16 * p {
        0
    } else if bits >= 16 * p + 16 {
        16
    } else {
        bits - 16 * p
    }
}

/// The word with the `fixed` leading bits set.
pub open spec fn leading_mask(fixed: int) -> u16 {
    if fixed <= 0 {
        0
    } else if fixed >= 16 {
        0xffff
    } else {
        (0xffffu16 << ((16 - fixed) as u16)) as u16
    }
}

/// The word that has the `fixed` leading bits of `base` and the other bits
/// of `random`.
pub open spec fn mixed_word(base: u16, random: u16, fixed: int) -> u16 {
    (base & leading_mask(fixed)) | (random & !leading_mask(fixed))
}

fn mask_of(fixed: u8) -> (m: u16)
    requires
        fixed <= 16,
    ensures
        m == leading_mask(fixed as int),
{
    if fixed == 0 {
        0
    } else if fixed >= 16 {
        0xffff
    } else {
        let shift: u16 = (16 - fixed) as u16;
        0xffffu16 << shift
    }
}

/// An address of a block: the leading bits of the block, and the bits of
/// `random` for the rest.
pub fn mix_address(block: &AddressBlock, random: &Vec<u16>) -> (words: Vec<u16>)
    requires
        block.words.len() == 8,
        random.len() == 8,
    ensures
        words.len() == 8,
        forall|p: int|
            0 <= p < 8 ==> #[trigger] words[p] == mixed_word(
                block.words[p],
                random[p],
                fixed_bits(block.bits as int, p),
            ),
{
    let mut words: Vec<u16> = Vec::new();
    let mut left: u8 = block.bits;
    let mut p: usize = 0;
    while p < 8
        invariant
            p <= 8,
            block.words.len() == 8,
            random.len() == 8,
            words.len() == p,
            left == (if block.bits as int >= 16 * p {
                block.bits as int - 16 * p
            } else {
                0int
            }),
            forall|q: int|
                0 <= q < p ==> #[trigger] words[q] == mixed_word(
                    block.words[q],
                    random[q],
                    fixed_bits(block.bits as int, q),
                ),
        decreases 8 - p,
    {
        let fixed: u8 = if left < 16 {
            left
        } else {
            16
        };
        left = left - fixed;
        let mask = mask_of(fixed);
        words.push((block.words[p] & mask) | (random[p] & !mask));
        p += 1;
    }
    words
}

} // verus!

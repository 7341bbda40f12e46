//! Numbers in network byte order, and masking.

use vstd::prelude::*;

verus! {

/// The number whose big-endian representation is `bytes`.
pub open spec fn big_endian(bytes: Seq<u8>) -> nat
    decreases bytes.len(),
{
    if bytes.len() == 0 {
        0
    } else {
        big_endian(bytes.drop_last()) * 256 + bytes.last() as nat
    }
}

/// How many numbers can be written with `width` bytes.
pub open spec fn numbers_of_width(width: nat) -> nat
    decreases width,
{
    if width == 0 {
        1
    } else {
        256 * numbers_of_width((width - 1) as nat)
    }
}

/// The big-endian representation of `number` in `width` bytes.
pub open spec fn big_endian_bytes(number: nat, width: nat) -> Seq<u8>
    decreases width,
{
    if width == 0 {
        seq![]
    } else {
        big_endian_bytes(number / 256, (width - 1) as nat).push((number % 256) as u8)
    }
}

/// A big-endian number is smaller than the number of values of its width.
pub proof fn lemma_big_endian_bound(bytes: Seq<u8>)
    ensures
        big_endian(bytes) < numbers_of_width(bytes.len()),
    decreases bytes.len(),
{
    if bytes.len() > 0 {
        lemma_big_endian_bound(bytes.drop_last());
    }
}

/// Reading back the representation of a number gives the number.
pub proof fn law_number_round_trip(number: nat, width: nat)
    requires
        number < numbers_of_width(width),
    ensures
        big_endian_bytes(number, width).len() == width,
        big_endian(big_endian_bytes(number, width)) == number,
    decreases width,
{
    if width > 0 {
        law_number_round_trip(number / 256, (width - 1) as nat);
        let bytes = big_endian_bytes(number, width);
        assert(bytes.drop_last() =~= big_endian_bytes(number / 256, (width - 1) as nat));
    }
}

/// Writing the number that some bytes stand for gives the bytes.
pub proof fn law_bytes_round_trip(bytes: Seq<u8>)
    ensures
        big_endian_bytes(big_endian(bytes), bytes.len()) == bytes,
    decreases bytes.len(),
{
    if bytes.len() > 0 {
        law_bytes_round_trip(bytes.drop_last());
        let number = big_endian(bytes);
        let rest = big_endian(bytes.drop_last());
        assert(number / 256 == rest && number % 256 == bytes.last() as nat) by (nonlinear_arith)
            requires
                number == rest * 256 + bytes.last() as nat,
                (bytes.last() as nat) < 256,
        ;
        assert(big_endian_bytes(number, bytes.len()) =~= bytes);
    }
}

/// The sizes of the numbers that a frame header holds.
pub proof fn lemma_widths()
    ensures
        numbers_of_width(2) == 65536,
        numbers_of_width(8) == 18446744073709551616,
{
    reveal_with_fuel(numbers_of_width, 9);
}

/// Reads the big-endian number made of the `width` bytes of `src` from `start` on.
pub fn read_big_endian(src: &[u8], start: usize, width: usize) -> (number: u64)
    requires
        start + width <= src@.len(),
        width <= 8,
    ensures
        number == big_endian(src@.subrange(start as int, start + width)),
{
    let size: usize = src.len();
    let mut number: u64 = 0;
    let mut i: usize = 0;
    proof {
        assert(src@.subrange(start as int, start as int) =~= seq![]);
    }
    while i < width
        invariant
            i <= width <= 8,
            start + width <= size == src@.len(),
            number == big_endian(src@.subrange(start as int, start + i)),
        decreases width - i,
    {
        proof {
            let next = src@.subrange(start as int, start + i + 1);
            assert(next.drop_last() =~= src@.subrange(start as int, start + i));
            lemma_big_endian_bound(next);
            reveal_with_fuel(numbers_of_width, 9);
        }
        number = number * 256 + src[start + i] as u64;
        i += 1;
    }
    number
}

/// `payload` with each byte combined with the corresponding byte of the repeated `mask`.
pub open spec fn unmasked(payload: Seq<u8>, mask: Seq<u8>) -> Seq<u8> {
    Seq::new(payload.len(), |i: int| payload[i] ^ mask[i % 4])
}

/// Masking undoes itself: what a peer masks is what the library reads.
pub proof fn law_masking_is_an_involution(payload: Seq<u8>, mask: Seq<u8>)
    ensures
        unmasked(unmasked(payload, mask), mask) == payload,
{
    assert forall|i: int| 0 <= i < payload.len() implies unmasked(unmasked(payload, mask), mask)[i]
        == payload[i] by {
        let a = payload[i];
        let b = mask[i % 4];
        assert((a ^ b) ^ b == a) by (bit_vector);
    }
    assert(unmasked(unmasked(payload, mask), mask) =~= payload);
}

/// Appends the `length` bytes of `src` from `start` on, unmasked, to `out`.
pub fn append_unmasked(out: &mut Vec<u8>, src: &[u8], start: usize, length: usize, mask: &[u8; 4])
    requires
        start + length <= src@.len(),
    ensures
        final(out)@ == old(out)@ + unmasked(
            src@.subrange(start as int, start + length),
            mask@,
        ),
{
    let size: usize = src.len();
    let mut i: usize = 0;
    while i < length
        invariant
            i <= length,
            start + length <= size == src@.len(),
            out@ == old(out)@ + unmasked(src@.subrange(start as int, start + i), mask@),
        decreases length - i,
    {
        out.push(src[start + i] ^ mask[i % 4]);
        i += 1;
        proof {
            assert(out@ =~= old(out)@ + unmasked(src@.subrange(start as int, start + i), mask@));
        }
    }
}

/// Big-endian numbers are positional: another byte at the end makes 256 times as much of the number,
/// and adds to it.
pub proof fn law_big_endian_is_positional(bytes: Seq<u8>, byte: u8)
    ensures
        big_endian(Seq::<u8>::empty()) == 0,
        big_endian(bytes.push(byte)) == 256 * big_endian(bytes) + byte,
{
    assert(bytes.push(byte).drop_last() =~= bytes);
}

/// Each byte of a payload is masked on its own, and the four bytes of the mask take turns.
pub proof fn law_masking_is_bytewise(payload: Seq<u8>, mask: Seq<u8>)
    ensures
        unmasked(payload, mask).len() == payload.len(),
        forall|i: int|
            0 <= i < payload.len() ==> {
                let masked = #[trigger] unmasked(payload, mask)[i];
                &&& i % 4 == 0 ==> masked == payload[i] ^ mask[0]
                &&& i % 4 == 1 ==> masked == payload[i] ^ mask[1]
                &&& i % 4 == 2 ==> masked == payload[i] ^ mask[2]
                &&& i % 4 == 3 ==> masked == payload[i] ^ mask[3]
            },
{
}

} // verus!

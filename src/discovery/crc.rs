//! Table-driven CRC-8, most significant bit first, without reflection.
use vstd::prelude::*;

verus! {

/// One step of the shift register: multiply by `x` modulo `x^8 + poly`.
pub open spec fn crc_shift(poly: u8, c: u8) -> u8 {
    if c & 0x80u8 != 0 {
        ((c << 1u8) ^ poly) as u8
    } else {
        (c << 1u8) as u8
    }
}

/// The table entry for byte `x`: eight steps of the shift register.
pub open spec fn crc_table_entry(poly: u8, x: u8) -> u8 {
    crc_shift(
        poly,
        crc_shift(
            poly,
            crc_shift(
                poly,
                crc_shift(
                    poly,
                    crc_shift(poly, crc_shift(poly, crc_shift(poly, crc_shift(poly, x)))),
                ),
            ),
        ),
    )
}

/// CRC-8 of `data` with polynomial `poly`, starting from register value `init`.
pub open spec fn crc8(poly: u8, init: u8, data: Seq<u8>) -> u8
    decreases data.len(),
{
    if data.len() == 0 {
        init
    } else {
        crc_table_entry(poly, crc8(poly, init, data.drop_last()) ^ data.last())
    }
}

/// The powers of two that fit in a byte.
spec fn is_bit(i: u8) -> bool {
    i == 1 || i == 2 || i == 4 || i == 8 || i == 16 || i == 32 || i == 64 || i == 128
}

proof fn lemma_shift_xor(poly: u8, a: u8, b: u8)
    ensures
        crc_shift(poly, a ^ b) == crc_shift(poly, a) ^ crc_shift(poly, b),
{
    assert(crc_shift(poly, a ^ b) == crc_shift(poly, a) ^ crc_shift(poly, b)) by (bit_vector);
}

/// Eight steps of the register, as a sequence of intermediate values.
spec fn shifts(poly: u8, x: u8, n: nat) -> u8
    decreases n,
{
    if n == 0 {
        x
    } else {
        crc_shift(poly, shifts(poly, x, (n - 1) as nat))
    }
}

proof fn lemma_shifts_xor(poly: u8, a: u8, b: u8, n: nat)
    ensures
        shifts(poly, a ^ b, n) == shifts(poly, a, n) ^ shifts(poly, b, n),
    decreases n,
{
    if n > 0 {
        lemma_shifts_xor(poly, a, b, (n - 1) as nat);
        lemma_shift_xor(poly, shifts(poly, a, (n - 1) as nat), shifts(poly, b, (n - 1) as nat));
    }
}

/// The table is linear over xor.
pub proof fn lemma_table_entry_xor(poly: u8, a: u8, b: u8)
    ensures
        crc_table_entry(poly, a ^ b) == crc_table_entry(poly, a) ^ crc_table_entry(poly, b),
{
    lemma_shifts_xor(poly, a, b, 8);
    reveal_with_fuel(shifts, 9);
    assert(shifts(poly, a, 8) == crc_table_entry(poly, a));
    assert(shifts(poly, b, 8) == crc_table_entry(poly, b));
    assert(shifts(poly, a ^ b, 8) == crc_table_entry(poly, a ^ b));
}

proof fn lemma_table_entry_start(poly: u8)
    ensures
        crc_shift(poly, 0x80) == crc_table_entry(poly, 1),
{
    assert(crc_shift(poly, 0x80) == crc_table_entry(poly, 1)) by (bit_vector);
}

proof fn lemma_table_entry_double(poly: u8, i: u8)
    requires
        i < 128,
    ensures
        crc_shift(poly, crc_table_entry(poly, i)) == crc_table_entry(poly, (i << 1u8) as u8),
{
    assert(i < 128 ==> crc_shift(poly, crc_table_entry(poly, i)) == crc_table_entry(
        poly,
        (i << 1u8) as u8,
    )) by (bit_vector);
}

proof fn lemma_bit_add(i: u8, j: u8)
    requires
        is_bit(i),
        j < i,
    ensures
        (i + j) as u8 == i ^ j,
        i + j < 256,
{
    assert(is_bit(i) && j < i ==> (i + j) as u8 == i ^ j && i + j < 256) by (bit_vector);
}

proof fn lemma_shift_injective(poly: u8, a: u8, b: u8)
    requires
        poly & 1 == 1,
        crc_shift(poly, a) == crc_shift(poly, b),
    ensures
        a == b,
{
    assert(poly & 1 == 1 && crc_shift(poly, a) == crc_shift(poly, b) ==> a == b) by (bit_vector);
}

proof fn lemma_shifts_injective(poly: u8, a: u8, b: u8, n: nat)
    requires
        poly & 1 == 1,
        shifts(poly, a, n) == shifts(poly, b, n),
    ensures
        a == b,
    decreases n,
{
    if n > 0 {
        lemma_shift_injective(poly, shifts(poly, a, (n - 1) as nat), shifts(poly, b, (n - 1) as nat));
        lemma_shifts_injective(poly, a, b, (n - 1) as nat);
    }
}

/// With an odd polynomial, distinct bytes have distinct table entries.
pub proof fn lemma_table_entry_injective(poly: u8, a: u8, b: u8)
    requires
        poly & 1 == 1,
        crc_table_entry(poly, a) == crc_table_entry(poly, b),
    ensures
        a == b,
{
    reveal_with_fuel(shifts, 9);
    assert(shifts(poly, a, 8) == crc_table_entry(poly, a));
    assert(shifts(poly, b, 8) == crc_table_entry(poly, b));
    lemma_shifts_injective(poly, a, b, 8);
}

/// Appending a byte runs the register over it once more.
pub proof fn lemma_crc8_push(poly: u8, init: u8, data: Seq<u8>, x: u8)
    ensures
        crc8(poly, init, data.push(x)) == crc_table_entry(poly, crc8(poly, init, data) ^ x),
{
    assert(data.push(x).drop_last() =~= data);
}

/// A lookup table for CRC-8 with a fixed polynomial.
pub struct Crc8 {
    table: [u8; 256],
    poly: Ghost<u8>,
}

impl Crc8 {
    #[verifier::type_invariant]
    spec fn inv(self) -> bool {
        forall|x: int| 0 <= x < 256 ==> #[trigger] self.table@[x] == crc_table_entry(self.poly@, x as u8)
    }

    /// The polynomial the table was built from.
    pub closed spec fn polynomial(&self) -> u8 {
        self.poly@
    }

    /// Builds the table for `polynomial`.
    pub fn create(polynomial: u8) -> (r: Crc8)
        ensures
            r.polynomial() == polynomial,
    {
        let mut table = [0u8; 256];
        let mut crc: u8 = 0x80;
        let mut i: u8 = 1;
        proof {
            lemma_table_entry_start(polynomial);
            assert(crc_table_entry(polynomial, 0) == 0) by (bit_vector);
        }
        while i > 0
            invariant
                i == 0 || is_bit(i),
                i != 0 ==> crc_shift(polynomial, crc) == crc_table_entry(polynomial, i),
                forall|x: int|
                    0 <= x < (if i == 0 { 256 } else { i as int }) ==> #[trigger] table@[x]
                        == crc_table_entry(polynomial, x as u8),
            decreases (if i == 0 { 0 } else { 256 - i as int }),
        {
            let ghost prev = crc;
            crc = (crc << 1u8) ^ if crc & 0x80 != 0 { polynomial } else { 0 };
            assert(crc == crc_shift(polynomial, prev)) by (bit_vector)
                requires
                    crc == (prev << 1u8) ^ (if prev & 0x80 != 0 { polynomial } else { 0 }),
            ;
            let mut j: u8 = 0;
            while j < i
                invariant
                    is_bit(i),
                    j <= i,
                    crc == crc_table_entry(polynomial, i),
                    forall|x: int| 0 <= x < i + j ==> #[trigger] table@[x]
                        == crc_table_entry(polynomial, x as u8),
                decreases i - j,
            {
                proof {
                    lemma_bit_add(i, j);
                    lemma_table_entry_xor(polynomial, i, j);
                }
                table[i.wrapping_add(j) as usize] = crc ^ table[j as usize];
                j += 1;
            }
            proof {
                if i < 128 {
                    lemma_table_entry_double(polynomial, i);
                }
                assert(is_bit(i) ==> (i < 128 ==> is_bit((i << 1u8) as u8)) && (i == 128 ==> (
                i << 1u8) as u8 == 0) && (i < 128 ==> (i << 1u8) as u8 == 2 * i)) by (bit_vector);
            }
            i <<= 1;
        }
        Crc8 { table, poly: Ghost(polynomial) }
    }

    /// Runs the register over the first `len` bytes of `buffer`, starting from `init`.
    pub fn calc(&self, buffer: &[u8], len: usize, init: u8) -> (r: u8)
        requires
            len <= buffer@.len(),
        ensures
            r == crc8(self.polynomial(), init, buffer@.subrange(0, len as int)),
    {
        let mut crc = init;
        let mut i: usize = 0;
        while i < len
            invariant
                len <= buffer@.len(),
                i <= len,
                crc == crc8(self.polynomial(), init, buffer@.subrange(0, i as int)),
            decreases len - i,
        {
            let ghost prev = crc;
            let b = buffer[i];
            crc = self.table[(crc ^ b) as usize];
            proof {
                use_type_invariant(self);
                let idx = (prev ^ b) as usize;
                assert(idx as u8 == prev ^ b && idx < 256) by (bit_vector)
                    requires
                        idx == (prev ^ b) as usize,
                ;
                assert(self.table@[idx as int] == crc_table_entry(self.poly@, (idx as int) as u8));
                assert(crc == crc_table_entry(self.poly@, prev ^ b));
                let s = buffer@.subrange(0, i + 1);
                assert(s.drop_last() =~= buffer@.subrange(0, i as int));
                assert(s.last() == b);
            }
            i += 1;
        }
        crc
    }
}

} // verus!

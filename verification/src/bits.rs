use vstd::prelude::*;

verus! {

/// The k-th boolean of a packed-bit payload: bit `k % 8` of byte `k / 8`.
pub open spec fn spec_bit_at(bytes: Seq<u8>, k: int) -> bool {
    (bytes[k / 8] >> ((k % 8) as u8)) & 1 == 1
}

/// One where bit k of the packed form of `bits` is set, else zero.
pub open spec fn spec_packed_bit(bits: Seq<bool>, k: int) -> u8 {
    if 0 <= k < bits.len() && bits[k] {
        1u8
    } else {
        0u8
    }
}

/// The byte that packs bits 8j .. 8j+7.
pub open spec fn spec_packed_byte(bits: Seq<bool>, j: int) -> u8 {
    spec_packed_bit(bits, 8 * j) | (spec_packed_bit(bits, 8 * j + 1) << 1u8) | (spec_packed_bit(
        bits,
        8 * j + 2,
    ) << 2u8) | (spec_packed_bit(bits, 8 * j + 3) << 3u8) | (spec_packed_bit(bits, 8 * j + 4)
        << 4u8) | (spec_packed_bit(bits, 8 * j + 5) << 5u8) | (spec_packed_bit(bits, 8 * j + 6)
        << 6u8) | (spec_packed_bit(bits, 8 * j + 7) << 7u8)
}

/// The packed-bit payload of a boolean sequence: ceil(count / 8) bytes.
pub open spec fn spec_packed(bits: Seq<bool>) -> Seq<u8> {
    Seq::new((bits.len() + 7) / 8, |j: int| spec_packed_byte(bits, j))
}

/// Bit m of a byte assembled from eight 0-or-1 values is the m-th value.
proof fn lemma_byte_of_bits(c0: u8, c1: u8, c2: u8, c3: u8, c4: u8, c5: u8, c6: u8, c7: u8, m: u8)
    requires
        c0 <= 1 && c1 <= 1 && c2 <= 1 && c3 <= 1 && c4 <= 1 && c5 <= 1 && c6 <= 1 && c7 <= 1,
        m < 8,
    ensures
        (c0 | (c1 << 1u8) | (c2 << 2u8) | (c3 << 3u8) | (c4 << 4u8) | (c5 << 5u8) | (c6 << 6u8) | (
        c7 << 7u8)) >> m & 1 == (if m == 0 {
            c0
        } else if m == 1 {
            c1
        } else if m == 2 {
            c2
        } else if m == 3 {
            c3
        } else if m == 4 {
            c4
        } else if m == 5 {
            c5
        } else if m == 6 {
            c6
        } else {
            c7
        }),
{
    assert((c0 | (c1 << 1u8) | (c2 << 2u8) | (c3 << 3u8) | (c4 << 4u8) | (c5 << 5u8) | (c6 << 6u8)
        | (c7 << 7u8)) >> m & 1 == (if m == 0 {
        c0
    } else if m == 1 {
        c1
    } else if m == 2 {
        c2
    } else if m == 3 {
        c3
    } else if m == 4 {
        c4
    } else if m == 5 {
        c5
    } else if m == 6 {
        c6
    } else {
        c7
    })) by (bit_vector)
        requires
            c0 <= 1 && c1 <= 1 && c2 <= 1 && c3 <= 1 && c4 <= 1 && c5 <= 1 && c6 <= 1 && c7 <= 1
                && m < 8,
    ;
}

/// Two bytes that agree on all eight bits are equal.
proof fn lemma_bits_determine_byte(x: u8, y: u8)
    requires
        x >> 0u8 & 1 == y >> 0u8 & 1,
        x >> 1u8 & 1 == y >> 1u8 & 1,
        x >> 2u8 & 1 == y >> 2u8 & 1,
        x >> 3u8 & 1 == y >> 3u8 & 1,
        x >> 4u8 & 1 == y >> 4u8 & 1,
        x >> 5u8 & 1 == y >> 5u8 & 1,
        x >> 6u8 & 1 == y >> 6u8 & 1,
        x >> 7u8 & 1 == y >> 7u8 & 1,
    ensures
        x == y,
{
    assert(x == y) by (bit_vector)
        requires
            x >> 0u8 & 1 == y >> 0u8 & 1 && x >> 1u8 & 1 == y >> 1u8 & 1 && x >> 2u8 & 1 == y
                >> 2u8 & 1 && x >> 3u8 & 1 == y >> 3u8 & 1 && x >> 4u8 & 1 == y >> 4u8 & 1 && x
                >> 5u8 & 1 == y >> 5u8 & 1 && x >> 6u8 & 1 == y >> 6u8 & 1 && x >> 7u8 & 1 == y
                >> 7u8 & 1,
    ;
}

/// Bit k of the packed form is the k-th boolean, and clear past the end.
pub proof fn lemma_packed_bit_at(bits: Seq<bool>, k: int)
    requires
        0 <= k < 8 * spec_packed(bits).len(),
    ensures
        spec_bit_at(spec_packed(bits), k) == (k < bits.len() && bits[k]),
{
    let j = k / 8;
    let m: u8 = (k % 8) as u8;
    lemma_byte_of_bits(
        spec_packed_bit(bits, 8 * j),
        spec_packed_bit(bits, 8 * j + 1),
        spec_packed_bit(bits, 8 * j + 2),
        spec_packed_bit(bits, 8 * j + 3),
        spec_packed_bit(bits, 8 * j + 4),
        spec_packed_bit(bits, 8 * j + 5),
        spec_packed_bit(bits, 8 * j + 6),
        spec_packed_bit(bits, 8 * j + 7),
        m,
    );
    assert(k == 8 * j + m);
}

/// Setting one bit of a byte leaves every other bit as it was.
proof fn lemma_set_bit(cur: u8, j: u8, m: u8)
    requires
        j < 8,
        m < 8,
    ensures
        (cur | (1u8 << j)) >> m & 1 == if m == j {
            1u8
        } else {
            cur >> m & 1
        },
{
    assert((cur | (1u8 << j)) >> m & 1 == if m == j {
        1u8
    } else {
        cur >> m & 1
    }) by (bit_vector)
        requires
            j < 8 && m < 8,
    ;
}

/// Any single bit of a byte is zero or one.
proof fn lemma_bit_is_binary(x: u8, m: u8)
    requires
        m < 8,
    ensures
        x >> m & 1 == 0 || x >> m & 1 == 1,
{
    assert(x >> m & 1 == 0 || x >> m & 1 == 1) by (bit_vector)
        requires
            m < 8,
    ;
}

/// A fresh byte has every bit clear.
proof fn lemma_zero_bits(m: u8)
    requires
        m < 8,
    ensures
        0u8 >> m & 1 == 0u8,
{
    assert(0u8 >> m & 1 == 0u8) by (bit_vector)
        requires
            m < 8,
    ;
}

/// Packs booleans into bytes: bit k of byte k/8 is the k-th boolean, the
/// byte count is the announced ceil(count / 8), and the unused high bits of
/// the last byte are zero. Together with `decode_bits` this gives the
/// round trip for every count.
pub fn encode_bits(bits: &Vec<bool>) -> (r: Vec<u8>)
    requires
        bits@.len() <= 2000,
    ensures
        r@ == spec_packed(bits@),
        r@.len() == (bits@.len() + 7) / 8,
        forall|k: int| 0 <= k < bits@.len() ==> #[trigger] spec_bit_at(r@, k) == bits@[k],
        forall|k: int| bits@.len() <= k < 8 * r@.len() ==> #[trigger] spec_bit_at(r@, k) == false,
{
    let n = bits.len();
    let mut bytes: Vec<u8> = Vec::new();
    let mut cur: u8 = 0;
    let mut k: usize = 0;
    proof {
        assert forall|m: u8| m < 8 implies #[trigger] (cur >> m & 1) == 0 by {
            lemma_zero_bits(m);
        }
    }
    while k < n
        invariant
            bits@.len() == n <= 2000,
            k <= n,
            bytes@.len() == k / 8,
            forall|i: int| 0 <= i < 8 * bytes@.len() ==> #[trigger] spec_bit_at(bytes@, i)
                == bits@[i],
            forall|m: u8| (k % 8) as u8 <= m < 8 ==> #[trigger] (cur >> m & 1) == 0,
            forall|m: u8|
                m < (k % 8) as u8 ==> ((#[trigger] (cur >> m & 1)) == 1) == bits@[8 * (
                k as int / 8) + m],
        decreases n - k,
    {
        let j: u8 = (k % 8) as u8;
        let ghost prev = cur;
        if bits[k] {
            cur = cur | (1u8 << j);
        }
        proof {
            assert(8 * (k as int / 8) + j == k);
            assert forall|m: u8| m < 8 implies ((#[trigger] (cur >> m & 1)) == 1) == (if m == j {
                bits@[k as int]
            } else {
                prev >> m & 1 == 1
            }) by {
                lemma_set_bit(prev, j, m);
            }
            assert forall|m: u8| m < 8 implies (#[trigger] (cur >> m & 1)) == 0 || (cur >> m & 1)
                == 1 by {
                lemma_bit_is_binary(cur, m);
            }
        }
        if j == 7 {
            let ghost full = cur;
            let ghost before = bytes@;
            bytes.push(cur);
            cur = 0;
            proof {
                assert forall|m: u8| m < 8 implies #[trigger] (cur >> m & 1) == 0 by {
                    lemma_zero_bits(m);
                }
                assert(bytes@.len() == before.len() + 1);
                assert(8 * before.len() <= k < 8 * bytes@.len());
                assert forall|i: int| 0 <= i < 8 * bytes@.len() implies #[trigger] spec_bit_at(
                    bytes@,
                    i,
                ) == bits@[i] by {
                    if i < 8 * before.len() {
                        assert(i / 8 < before.len());
                        assert(bytes@[i / 8] == before[i / 8]);
                        assert(spec_bit_at(before, i) == bits@[i]);
                    } else {
                        let m: u8 = (i % 8) as u8;
                        assert(i / 8 == before.len());
                        assert(bytes@[i / 8] == full);
                        assert(i == 8 * (k as int / 8) + m);
                        assert(((full >> m & 1) == 1) == bits@[i]);
                    }
                }
            }
        }
        proof {
            vstd::arithmetic::div_mod::lemma_fundamental_div_mod(k as int, 8);
            vstd::arithmetic::div_mod::lemma_fundamental_div_mod(k as int + 1, 8);
            if j < 7 {
                assert((k as int + 1) % 8 == j + 1 && (k as int + 1) / 8 == k as int / 8) by (nonlinear_arith)
                    requires
                        k as int % 8 == j && 0 <= j < 7 && k >= 0,
                ;
            } else {
                assert((k as int + 1) % 8 == 0 && (k as int + 1) / 8 == k as int / 8 + 1) by (nonlinear_arith)
                    requires
                        k as int % 8 == 7 && k >= 0,
                ;
            }
        }
        k = k + 1;
    }
    if n % 8 != 0 {
        let ghost partial = cur;
        let ghost before = bytes@;
        bytes.push(cur);
        proof {
            assert(bytes@.len() == before.len() + 1);
            assert(bytes@.len() == (n + 7) / 8);
            assert forall|i: int| 0 <= i < n implies #[trigger] spec_bit_at(bytes@, i)
                == bits@[i] by {
                if i < 8 * before.len() {
                    assert(i / 8 < before.len());
                    assert(bytes@[i / 8] == before[i / 8]);
                    assert(spec_bit_at(before, i) == bits@[i]);
                } else {
                    let m: u8 = (i % 8) as u8;
                    assert(i / 8 == before.len());
                    assert(bytes@[i / 8] == partial);
                    assert(i == 8 * (n as int / 8) + m);
                    assert(m < (n % 8) as u8);
                    assert(((partial >> m & 1) == 1) == bits@[i]);
                }
            }
            assert forall|i: int| n <= i < 8 * bytes@.len() implies #[trigger] spec_bit_at(
                bytes@,
                i,
            ) == false by {
                let m: u8 = (i % 8) as u8;
                assert(i / 8 == before.len());
                assert(bytes@[i / 8] == partial);
                assert((n % 8) as u8 <= m < 8);
                assert(partial >> m & 1 == 0);
            }
        }
    }
    proof {
        assert(bytes@.len() == spec_packed(bits@).len());
        assert forall|j: int| 0 <= j < bytes@.len() implies bytes@[j] == spec_packed(bits@)[j] by {
            assert forall|m: u8| m < 8 implies bytes@[j] >> m & 1 == spec_packed(bits@)[j] >> m
                & 1 by {
                let i = 8 * j + m;
                lemma_packed_bit_at(bits@, i);
                assert(i / 8 == j && (i % 8) as u8 == m);
                if i < n {
                    assert(spec_bit_at(bytes@, i) == bits@[i]);
                } else {
                    assert(spec_bit_at(bytes@, i) == false);
                }
                lemma_bit_is_binary(bytes@[j], m);
                lemma_bit_is_binary(spec_packed(bits@)[j], m);
            }
            lemma_bits_determine_byte(bytes@[j], spec_packed(bits@)[j]);
        }
        assert(bytes@ =~= spec_packed(bits@));
    }
    bytes
}

/// Unpacks the first `count` booleans of a packed-bit payload; only those
/// bits are meaningful.
pub fn decode_bits(bytes: &Vec<u8>, count: usize) -> (r: Vec<bool>)
    requires
        bytes@.len() >= (count + 7) / 8,
    ensures
        r@.len() == count,
        forall|k: int| 0 <= k < count ==> #[trigger] r@[k] == spec_bit_at(bytes@, k),
{
    let mut out: Vec<bool> = Vec::new();
    let mut k: usize = 0;
    while k < count
        invariant
            bytes@.len() >= (count + 7) / 8,
            k <= count,
            out@.len() == k,
            forall|i: int| 0 <= i < k ==> #[trigger] out@[i] == spec_bit_at(bytes@, i),
        decreases count - k,
    {
        let byte = bytes[k / 8];
        let bit = byte >> ((k % 8) as u8) & 1;
        out.push(bit == 1);
        k = k + 1;
    }
    out
}

} // verus!

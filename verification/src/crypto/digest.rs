use vstd::prelude::*;

verus! {

/// A 256-bit digest, held as four big-endian 64-bit limbs so that the
/// numeric order of the limbs is the lexicographic order of the bytes.
#[derive(Clone, Copy, Debug, PartialEq, Eq, Structural, Hash)]
pub struct Digest {
    pub a: u64,
    pub b: u64,
    pub c: u64,
    pub d: u64,
}

/// A replica or client is named by the digest of its public keys.
pub type Identity = Digest;

impl Digest {
    /// Strict lexicographic order on digests.
    pub open spec fn spec_lt(self, other: Digest) -> bool {
        self.a < other.a || (self.a == other.a && (self.b < other.b || (self.b == other.b && (
        self.c < other.c || (self.c == other.c && self.d < other.d)))))
    }

    pub fn new(a: u64, b: u64, c: u64, d: u64) -> (digest: Digest)
        ensures
            digest == (Digest { a, b, c, d }),
    {
        Digest { a, b, c, d }
    }

    /// Whether `self` comes strictly before `other`.
    pub fn lt(&self, other: &Digest) -> (earlier: bool)
        ensures
            earlier == self.spec_lt(*other),
    {
        self.a < other.a || (self.a == other.a && (self.b < other.b || (self.b == other.b && (
        self.c < other.c || (self.c == other.c && self.d < other.d)))))
    }
}

/// The limb that eight bytes make, the first byte weighing most.
pub open spec fn limb_of(bytes: Seq<u8>) -> int
    recommends
        bytes.len() == 8,
{
    ((((((bytes[0] as int * 256 + bytes[1]) * 256 + bytes[2]) * 256 + bytes[3]) * 256 + bytes[4])
        * 256 + bytes[5]) * 256 + bytes[6]) * 256 + bytes[7]
}

/// The eight bytes of a limb, the first weighing most.
#[verifier::opaque]
pub open spec fn bytes_of(limb: u64) -> Seq<u8> {
    seq![
        (limb / 0x0100_0000_0000_0000) as u8,
        (limb / 0x0001_0000_0000_0000 % 256) as u8,
        (limb / 0x0000_0100_0000_0000 % 256) as u8,
        (limb / 0x0000_0001_0000_0000 % 256) as u8,
        (limb / 0x0000_0000_0100_0000 % 256) as u8,
        (limb / 0x0000_0000_0001_0000 % 256) as u8,
        (limb / 0x0000_0000_0000_0100 % 256) as u8,
        (limb % 256) as u8,
    ]
}

fn pack(bytes: &[u8; 32], at: usize) -> (limb: u64)
    requires
        at + 8 <= 32,
    ensures
        limb == limb_of(bytes@.subrange(at as int, at + 8)),
{
    let b0: u64 = bytes[at] as u64;
    let b1: u64 = bytes[at + 1] as u64;
    let b2: u64 = bytes[at + 2] as u64;
    let b3: u64 = bytes[at + 3] as u64;
    let b4: u64 = bytes[at + 4] as u64;
    let b5: u64 = bytes[at + 5] as u64;
    let b6: u64 = bytes[at + 6] as u64;
    let b7: u64 = bytes[at + 7] as u64;
    ((((((b0 * 256 + b1) * 256 + b2) * 256 + b3) * 256 + b4) * 256 + b5) * 256 + b6) * 256 + b7
}

impl Digest {
    /// The thirty-two bytes of the digest, first byte first.
    pub open spec fn spec_to_bytes(self) -> Seq<u8> {
        bytes_of(self.a) + bytes_of(self.b) + bytes_of(self.c) + bytes_of(self.d)
    }

    /// The digest that thirty-two bytes make.
    pub open spec fn spec_from_bytes(bytes: Seq<u8>) -> Digest
        recommends
            bytes.len() == 32,
    {
        Digest {
            a: limb_of(bytes.subrange(0, 8)) as u64,
            b: limb_of(bytes.subrange(8, 16)) as u64,
            c: limb_of(bytes.subrange(16, 24)) as u64,
            d: limb_of(bytes.subrange(24, 32)) as u64,
        }
    }

    /// The digest whose bytes, first byte first, are `bytes`.
    pub fn from_bytes(bytes: &[u8; 32]) -> (digest: Digest)
        ensures
            digest == Self::spec_from_bytes(bytes@),
    {
        Digest { a: pack(bytes, 0), b: pack(bytes, 8), c: pack(bytes, 16), d: pack(bytes, 24) }
    }

    /// The bytes of the digest, first byte first.
    pub fn to_bytes(&self) -> (bytes: [u8; 32])
        ensures
            bytes@ == self.spec_to_bytes(),
    {
        let mut bytes: [u8; 32] = [0u8; 32];
        let limbs: [u64; 4] = [self.a, self.b, self.c, self.d];
        let mut index: usize = 0;
        while index < 4
            invariant
                index <= 4,
                limbs@ == seq![self.a, self.b, self.c, self.d],
                forall|k: int|
                    0 <= k < index ==> bytes@.subrange(8 * k, 8 * k + 8) == bytes_of(
                        #[trigger] limbs@[k],
                    ),
            decreases 4 - index,
        {
            let limb = limbs[index];
            let at = index * 8;
            let ghost before = bytes@;
            bytes[at] = (limb / 0x0100_0000_0000_0000) as u8;
            bytes[at + 1] = (limb / 0x0001_0000_0000_0000 % 256) as u8;
            bytes[at + 2] = (limb / 0x0000_0100_0000_0000 % 256) as u8;
            bytes[at + 3] = (limb / 0x0000_0001_0000_0000 % 256) as u8;
            bytes[at + 4] = (limb / 0x0000_0000_0100_0000 % 256) as u8;
            bytes[at + 5] = (limb / 0x0000_0000_0001_0000 % 256) as u8;
            bytes[at + 6] = (limb / 0x0000_0000_0000_0100 % 256) as u8;
            bytes[at + 7] = (limb % 256) as u8;
            proof {
                reveal(bytes_of);
                assert(bytes@.subrange(8 * index, 8 * index + 8) =~= bytes_of(limb));
                assert forall|k: int| 0 <= k < index implies bytes@.subrange(8 * k, 8 * k + 8)
                    == bytes_of(#[trigger] limbs@[k]) by {
                    assert(bytes@.subrange(8 * k, 8 * k + 8) =~= before.subrange(8 * k, 8 * k + 8));
                }
            }
            index += 1;
        }
        proof {
            assert(bytes@.subrange(0, 8) == bytes_of(limbs@[0]));
            assert(bytes@.subrange(8, 16) == bytes_of(limbs@[1]));
            assert(bytes@.subrange(16, 24) == bytes_of(limbs@[2]));
            assert(bytes@.subrange(24, 32) == bytes_of(limbs@[3]));
            assert(bytes@ =~= bytes@.subrange(0, 8) + bytes@.subrange(8, 16) + bytes@.subrange(
                16,
                24,
            ) + bytes@.subrange(24, 32));
        }
        bytes
    }
}

/// Packing the bytes of a limb gives the limb back.
pub proof fn lemma_limb_round_trip(limb: u64)
    ensures
        bytes_of(limb).len() == 8,
        limb_of(bytes_of(limb)) == limb,
{
    reveal(bytes_of);
    let x0 = limb as int;
    let x1 = x0 / 256;
    let x2 = x1 / 256;
    let x3 = x2 / 256;
    let x4 = x3 / 256;
    let x5 = x4 / 256;
    let x6 = x5 / 256;
    let x7 = x6 / 256;
    assert(x2 == x0 / 0x0000_0000_0001_0000);
    assert(x3 == x0 / 0x0000_0000_0100_0000);
    assert(x4 == x0 / 0x0000_0001_0000_0000);
    assert(x5 == x0 / 0x0000_0100_0000_0000);
    assert(x6 == x0 / 0x0001_0000_0000_0000);
    assert(x7 == x0 / 0x0100_0000_0000_0000);
    let bytes = bytes_of(limb);
    assert(bytes[0] == x7);
    assert(bytes[1] == x6 % 256);
    assert(bytes[2] == x5 % 256);
    assert(bytes[3] == x4 % 256);
    assert(bytes[4] == x3 % 256);
    assert(bytes[5] == x2 % 256);
    assert(bytes[6] == x1 % 256);
    assert(bytes[7] == x0 % 256);
    assert(x7 * 256 + x6 % 256 == x6);
    assert(x6 * 256 + x5 % 256 == x5);
    assert(x5 * 256 + x4 % 256 == x4);
    assert(x4 * 256 + x3 % 256 == x3);
    assert(x3 * 256 + x2 % 256 == x2);
    assert(x2 * 256 + x1 % 256 == x1);
    assert(x1 * 256 + x0 % 256 == x0);
}

/// Unpacking the limb that eight bytes make gives the bytes back.
pub proof fn lemma_bytes_round_trip(bytes: Seq<u8>)
    requires
        bytes.len() == 8,
    ensures
        0 <= limb_of(bytes) <= u64::MAX,
        bytes_of(limb_of(bytes) as u64) == bytes,
{
    reveal(bytes_of);
    let y0 = bytes[0] as int;
    let y1 = y0 * 256 + bytes[1];
    let y2 = y1 * 256 + bytes[2];
    let y3 = y2 * 256 + bytes[3];
    let y4 = y3 * 256 + bytes[4];
    let y5 = y4 * 256 + bytes[5];
    let y6 = y5 * 256 + bytes[6];
    let y7 = y6 * 256 + bytes[7];
    assert(y7 == limb_of(bytes));
    assert(0 <= y0 < 0x100);
    assert(0 <= y1 < 0x1_0000);
    assert(0 <= y2 < 0x100_0000);
    assert(0 <= y3 < 0x1_0000_0000);
    assert(0 <= y4 < 0x100_0000_0000);
    assert(0 <= y5 < 0x1_0000_0000_0000);
    assert(0 <= y6 < 0x100_0000_0000_0000);
    assert(0 <= y7 <= u64::MAX);
    assert(y7 / 256 == y6 && y7 % 256 == bytes[7]);
    assert(y6 / 256 == y5 && y6 % 256 == bytes[6]);
    assert(y5 / 256 == y4 && y5 % 256 == bytes[5]);
    assert(y4 / 256 == y3 && y4 % 256 == bytes[4]);
    assert(y3 / 256 == y2 && y3 % 256 == bytes[3]);
    assert(y2 / 256 == y1 && y2 % 256 == bytes[2]);
    assert(y1 / 256 == y0 && y1 % 256 == bytes[1]);
    assert(y7 / 0x0000_0000_0001_0000 == y5);
    assert(y7 / 0x0000_0000_0100_0000 == y4);
    assert(y7 / 0x0000_0001_0000_0000 == y3);
    assert(y7 / 0x0000_0100_0000_0000 == y2);
    assert(y7 / 0x0001_0000_0000_0000 == y1);
    assert(y7 / 0x0100_0000_0000_0000 == y0);
    let limb = y7 as u64;
    let unpacked = bytes_of(limb);
    assert(unpacked.len() == 8);
    assert(unpacked[0] == bytes[0]);
    assert(unpacked[1] == bytes[1]);
    assert(unpacked[2] == bytes[2]);
    assert(unpacked[3] == bytes[3]);
    assert(unpacked[4] == bytes[4]);
    assert(unpacked[5] == bytes[5]);
    assert(unpacked[6] == bytes[6]);
    assert(unpacked[7] == bytes[7]);
    assert(unpacked =~= bytes);
}

/// Reading a digest back from its bytes gives the digest, and writing
/// out the digest that thirty-two bytes make gives the bytes.
pub proof fn lemma_digest_round_trip(digest: Digest, bytes: Seq<u8>)
    requires
        bytes.len() == 32,
    ensures
        Digest::spec_from_bytes(digest.spec_to_bytes()) == digest,
        Digest::spec_from_bytes(bytes).spec_to_bytes() == bytes,
{
    let written = digest.spec_to_bytes();
    lemma_limb_round_trip(digest.a);
    lemma_limb_round_trip(digest.b);
    lemma_limb_round_trip(digest.c);
    lemma_limb_round_trip(digest.d);
    assert(written.subrange(0, 8) =~= bytes_of(digest.a));
    assert(written.subrange(8, 16) =~= bytes_of(digest.b));
    assert(written.subrange(16, 24) =~= bytes_of(digest.c));
    assert(written.subrange(24, 32) =~= bytes_of(digest.d));
    lemma_limb_round_trip(digest.a);
    lemma_limb_round_trip(digest.b);
    lemma_limb_round_trip(digest.c);
    lemma_limb_round_trip(digest.d);
    lemma_bytes_round_trip(bytes.subrange(0, 8));
    lemma_bytes_round_trip(bytes.subrange(8, 16));
    lemma_bytes_round_trip(bytes.subrange(16, 24));
    lemma_bytes_round_trip(bytes.subrange(24, 32));
    assert(Digest::spec_from_bytes(bytes).spec_to_bytes() =~= bytes);
}

/// Whether `first` comes before `second` in the order of byte strings:
/// where they first differ, `first` holds the smaller byte.
pub open spec fn lexicographic(first: Seq<u8>, second: Seq<u8>) -> bool {
    exists|at: int|
        0 <= at < first.len() && at < second.len() && #[trigger] first[at] < second[at] && (forall|
            before: int,
        |
            0 <= before < at ==> #[trigger] first[before] == second[before])
}

/// The number that bytes write, the first byte weighing most.
spec fn weight(bytes: Seq<u8>) -> int
    decreases bytes.len(),
{
    if bytes.len() == 0 {
        0
    } else {
        weight(bytes.drop_last()) * 256 + bytes.last()
    }
}

/// Byte strings of one length compare as the numbers that they write.
proof fn lemma_weight_order(first: Seq<u8>, second: Seq<u8>)
    requires
        first.len() == second.len(),
    ensures
        0 <= weight(first),
        weight(first) < weight(second) <==> lexicographic(first, second),
        weight(first) == weight(second) <==> first == second,
    decreases first.len(),
{
    if first.len() == 0 {
        assert(first =~= second);
    } else {
        let a = first.drop_last();
        let b = second.drop_last();
        lemma_weight_order(a, b);
        lemma_weight_order(b, a);
        let last = first.len() - 1;
        if lexicographic(a, b) {
            let at = choose|at: int|
                0 <= at < a.len() && at < b.len() && #[trigger] a[at] < b[at] && (forall|
                    before: int,
                |
                    0 <= before < at ==> #[trigger] a[before] == b[before]);
            assert(first[at] < second[at]);
            assert forall|before: int| 0 <= before < at implies #[trigger] first[before]
                == second[before] by {
                assert(a[before] == b[before]);
            }
            assert(lexicographic(first, second));
        }
        if a == b && first[last] < second[last] {
            assert forall|before: int| 0 <= before < last implies #[trigger] first[before]
                == second[before] by {
                assert(a[before] == b[before]);
            }
            assert(lexicographic(first, second));
        }
        if lexicographic(first, second) {
            let at = choose|at: int|
                0 <= at < first.len() && at < second.len() && #[trigger] first[at] < second[at]
                    && (forall|before: int|
                    0 <= before < at ==> #[trigger] first[before] == second[before]);
            if at < last {
                assert(a[at] < b[at]);
                assert forall|before: int| 0 <= before < at implies #[trigger] a[before]
                    == b[before] by {
                    assert(first[before] == second[before]);
                }
                assert(lexicographic(a, b));
            } else {
                assert(a =~= b) by {
                    assert forall|i: int| 0 <= i < a.len() implies a[i] == b[i] by {
                        assert(first[i] == second[i]);
                    }
                }
            }
        }
        if first == second {
            assert(a == b);
        }
        if a == b && first[last] == second[last] {
            assert(first =~= second) by {
                assert forall|i: int| 0 <= i < first.len() implies first[i] == second[i] by {
                    if i < last {
                        assert(a[i] == b[i]);
                    }
                }
            }
        }
    }
}

/// Limbs compare as their bytes do.
proof fn lemma_limb_order(x: u64, y: u64)
    ensures
        bytes_of(x).len() == 8,
        bytes_of(y).len() == 8,
        x < y <==> lexicographic(bytes_of(x), bytes_of(y)),
        x == y <==> bytes_of(x) == bytes_of(y),
{
    lemma_limb_round_trip(x);
    lemma_limb_round_trip(y);
    lemma_limb_weight(bytes_of(x));
    lemma_limb_weight(bytes_of(y));
    lemma_weight_order(bytes_of(x), bytes_of(y));
}

/// Eight bytes write the limb that they make.
proof fn lemma_limb_weight(bytes: Seq<u8>)
    requires
        bytes.len() == 8,
    ensures
        weight(bytes) == limb_of(bytes),
{
    let b7 = bytes.drop_last();
    let b6 = b7.drop_last();
    let b5 = b6.drop_last();
    let b4 = b5.drop_last();
    let b3 = b4.drop_last();
    let b2 = b3.drop_last();
    let b1 = b2.drop_last();
    let b0 = b1.drop_last();
    assert(weight(b0) == 0);
    assert(weight(b1) == bytes[0]);
    assert(weight(b2) == weight(b1) * 256 + bytes[1]);
    assert(weight(b3) == weight(b2) * 256 + bytes[2]);
    assert(weight(b4) == weight(b3) * 256 + bytes[3]);
    assert(weight(b5) == weight(b4) * 256 + bytes[4]);
    assert(weight(b6) == weight(b5) * 256 + bytes[5]);
    assert(weight(b7) == weight(b6) * 256 + bytes[6]);
    assert(weight(bytes) == weight(b7) * 256 + bytes[7]);
}

/// Bytes in front decide the order; equal bytes in front leave it to the
/// rest.
proof fn lemma_lexicographic_concat(
    first: Seq<u8>,
    rest: Seq<u8>,
    second: Seq<u8>,
    other: Seq<u8>,
)
    requires
        first.len() == second.len(),
    ensures
        lexicographic(first + rest, second + other) <==> lexicographic(first, second) || (first
            == second && lexicographic(rest, other)),
{
    let whole = first + rest;
    let against = second + other;
    let n = first.len() as int;
    if lexicographic(first, second) {
        let at = choose|at: int|
            0 <= at < first.len() && at < second.len() && #[trigger] first[at] < second[at] && (
            forall|before: int| 0 <= before < at ==> #[trigger] first[before] == second[before]);
        assert(whole[at] < against[at]);
        assert forall|before: int| 0 <= before < at implies #[trigger] whole[before]
            == against[before] by {
            assert(first[before] == second[before]);
        }
        assert(lexicographic(whole, against));
    }
    if first == second && lexicographic(rest, other) {
        let at = choose|at: int|
            0 <= at < rest.len() && at < other.len() && #[trigger] rest[at] < other[at] && (forall|
                before: int,
            |
                0 <= before < at ==> #[trigger] rest[before] == other[before]);
        assert(whole[n + at] < against[n + at]);
        assert forall|before: int| 0 <= before < n + at implies #[trigger] whole[before]
            == against[before] by {
            if before >= n {
                assert(rest[before - n] == other[before - n]);
            }
        }
        assert(lexicographic(whole, against));
    }
    if lexicographic(whole, against) {
        let at = choose|at: int|
            0 <= at < whole.len() && at < against.len() && #[trigger] whole[at] < against[at] && (
            forall|before: int| 0 <= before < at ==> #[trigger] whole[before] == against[before]);
        if at < n {
            assert(first[at] < second[at]);
            assert forall|before: int| 0 <= before < at implies #[trigger] first[before]
                == second[before] by {
                assert(whole[before] == against[before]);
            }
            assert(lexicographic(first, second));
        } else {
            assert(first =~= second) by {
                assert forall|i: int| 0 <= i < n implies first[i] == second[i] by {
                    assert(whole[i] == against[i]);
                }
            }
            assert(rest[at - n] < other[at - n]);
            assert forall|before: int| 0 <= before < at - n implies #[trigger] rest[before]
                == other[before] by {
                assert(whole[before + n] == against[before + n]);
            }
            assert(lexicographic(rest, other));
        }
    }
}

/// Four byte strings in a row compare string by string.
proof fn lemma_lexicographic_four(
    a: Seq<u8>,
    b: Seq<u8>,
    c: Seq<u8>,
    d: Seq<u8>,
    e: Seq<u8>,
    f: Seq<u8>,
    g: Seq<u8>,
    h: Seq<u8>,
)
    requires
        a.len() == e.len(),
        b.len() == f.len(),
        c.len() == g.len(),
        d.len() == h.len(),
    ensures
        lexicographic(a + b + c + d, e + f + g + h) <==> lexicographic(a, e) || (a == e && (
        lexicographic(b, f) || (b == f && (lexicographic(c, g) || (c == g && lexicographic(
            d,
            h,
        )))))),
{
    let empty = Seq::<u8>::empty();
    lemma_lexicographic_concat(d, empty, h, empty);
    assert(d + empty =~= d);
    assert(h + empty =~= h);
    assert(!lexicographic(empty, empty));
    lemma_lexicographic_concat(c, d, g, h);
    lemma_lexicographic_concat(b, c + d, f, g + h);
    lemma_lexicographic_concat(a, b + (c + d), e, f + (g + h));
    assert(a + b + c + d =~= a + (b + (c + d)));
    assert(e + f + g + h =~= e + (f + (g + h)));
}

/// The order on digests is the order of their bytes, the first byte
/// weighing most.
pub proof fn lemma_order_is_lexicographic(x: Digest, y: Digest)
    ensures
        x.spec_lt(y) <==> lexicographic(x.spec_to_bytes(), y.spec_to_bytes()),
{
    lemma_limb_order(x.a, y.a);
    lemma_limb_order(x.b, y.b);
    lemma_limb_order(x.c, y.c);
    lemma_limb_order(x.d, y.d);
    lemma_lexicographic_four(
        bytes_of(x.a),
        bytes_of(x.b),
        bytes_of(x.c),
        bytes_of(x.d),
        bytes_of(y.a),
        bytes_of(y.b),
        bytes_of(y.c),
        bytes_of(y.d),
    );
}

/// The order on digests is a strict total order.
pub proof fn lemma_digest_order(x: Digest, y: Digest, z: Digest)
    ensures
        !x.spec_lt(x),
        x.spec_lt(y) && y.spec_lt(z) ==> x.spec_lt(z),
        x.spec_lt(y) || y.spec_lt(x) || x == y,
        !(x.spec_lt(y) && y.spec_lt(x)),
{
}

} // verus!

use vstd::prelude::*;

verus! {

/// A 256-bit identity of an account, a mint or a vault, held as two halves.
///
/// `hi` holds the first sixteen bytes and `lo` the last sixteen, each read
/// big-endian, so that the order of `(hi, lo)` is the lexicographic order of
/// the thirty-two bytes.
#[derive(Clone, Copy, Debug, PartialEq, Eq, Structural)]
pub struct Identity {
    pub hi: u128,
    pub lo: u128,
}

impl Identity {
    /// Whether `self` comes strictly before `other` in lexicographic order.
    pub open spec fn precedes(self, other: Identity) -> bool {
        self.hi < other.hi || (self.hi == other.hi && self.lo < other.lo)
    }

    /// Tells whether `self` comes strictly before `other`.
    pub fn lt(&self, other: &Identity) -> (res: bool)
        ensures
            res == self.precedes(*other),
    {
        self.hi < other.hi || (self.hi == other.hi && self.lo < other.lo)
    }
}

/// The byte of `word` that lies `shift` bits above its lowest.
pub open spec fn byte_at(word: u128, shift: u128) -> u8 {
    ((word >> shift) & 0xff) as u8
}

fn byte_of(word: u128, shift: u128) -> (byte: u8)
    requires
        shift < 128,
    ensures
        byte == byte_at(word, shift),
{
    assert((word >> shift) & 0xff <= 0xff) by (bit_vector);
    ((word >> shift) & 0xff) as u8
}

/// The number that sixteen bytes from `bytes[start]` on spell, read
/// big-endian.
pub open spec fn word_at(bytes: Seq<u8>, start: int) -> u128 {
    ((bytes[start] as u128) << 120) | ((bytes[start + 1] as u128) << 112) | ((bytes[start + 2] as u128) << 104) | ((
    bytes[start + 3] as u128) << 96) | ((bytes[start + 4] as u128) << 88) | ((bytes[start + 5] as u128) << 80) | ((
    bytes[start + 6] as u128) << 72) | ((bytes[start + 7] as u128) << 64) | ((bytes[start + 8] as u128) << 56) | ((
    bytes[start + 9] as u128) << 48) | ((bytes[start + 10] as u128) << 40) | ((bytes[start + 11] as u128) << 32) | ((
    bytes[start + 12] as u128) << 24) | ((bytes[start + 13] as u128) << 16) | ((bytes[start + 14] as u128) << 8) | (
    bytes[start + 15] as u128)
}

impl Identity {
    /// The thirty-two bytes of the identity, the first of `hi` first.
    pub open spec fn bytes(self) -> Seq<u8> {
        seq![
            byte_at(self.hi, 120),
            byte_at(self.hi, 112),
            byte_at(self.hi, 104),
            byte_at(self.hi, 96),
            byte_at(self.hi, 88),
            byte_at(self.hi, 80),
            byte_at(self.hi, 72),
            byte_at(self.hi, 64),
            byte_at(self.hi, 56),
            byte_at(self.hi, 48),
            byte_at(self.hi, 40),
            byte_at(self.hi, 32),
            byte_at(self.hi, 24),
            byte_at(self.hi, 16),
            byte_at(self.hi, 8),
            byte_at(self.hi, 0),
            byte_at(self.lo, 120),
            byte_at(self.lo, 112),
            byte_at(self.lo, 104),
            byte_at(self.lo, 96),
            byte_at(self.lo, 88),
            byte_at(self.lo, 80),
            byte_at(self.lo, 72),
            byte_at(self.lo, 64),
            byte_at(self.lo, 56),
            byte_at(self.lo, 48),
            byte_at(self.lo, 40),
            byte_at(self.lo, 32),
            byte_at(self.lo, 24),
            byte_at(self.lo, 16),
            byte_at(self.lo, 8),
            byte_at(self.lo, 0),
        ]
    }

    /// The identity that thirty-two bytes spell.
    pub open spec fn of_bytes(bytes: Seq<u8>) -> Identity {
        Identity { hi: word_at(bytes, 0), lo: word_at(bytes, 16) }
    }

    /// Writes the identity out as its thirty-two bytes.
    pub fn to_bytes(&self) -> (bytes: [u8; 32])
        ensures
            bytes@ == self.bytes(),
    {
        let bytes: [u8; 32] = [
            byte_of(self.hi, 120),
            byte_of(self.hi, 112),
            byte_of(self.hi, 104),
            byte_of(self.hi, 96),
            byte_of(self.hi, 88),
            byte_of(self.hi, 80),
            byte_of(self.hi, 72),
            byte_of(self.hi, 64),
            byte_of(self.hi, 56),
            byte_of(self.hi, 48),
            byte_of(self.hi, 40),
            byte_of(self.hi, 32),
            byte_of(self.hi, 24),
            byte_of(self.hi, 16),
            byte_of(self.hi, 8),
            byte_of(self.hi, 0),
            byte_of(self.lo, 120),
            byte_of(self.lo, 112),
            byte_of(self.lo, 104),
            byte_of(self.lo, 96),
            byte_of(self.lo, 88),
            byte_of(self.lo, 80),
            byte_of(self.lo, 72),
            byte_of(self.lo, 64),
            byte_of(self.lo, 56),
            byte_of(self.lo, 48),
            byte_of(self.lo, 40),
            byte_of(self.lo, 32),
            byte_of(self.lo, 24),
            byte_of(self.lo, 16),
            byte_of(self.lo, 8),
            byte_of(self.lo, 0),
        ];
        assert(bytes@ =~= self.bytes());
        bytes
    }

    /// Reads an identity from its thirty-two bytes.
    pub fn from_bytes(bytes: &[u8; 32]) -> (identity: Identity)
        ensures
            identity == Identity::of_bytes(bytes@),
    {
        let hi: u128 = ((bytes[0] as u128) << 120)
            | ((bytes[1] as u128) << 112)
            | ((bytes[2] as u128) << 104)
            | ((bytes[3] as u128) << 96)
            | ((bytes[4] as u128) << 88)
            | ((bytes[5] as u128) << 80)
            | ((bytes[6] as u128) << 72)
            | ((bytes[7] as u128) << 64)
            | ((bytes[8] as u128) << 56)
            | ((bytes[9] as u128) << 48)
            | ((bytes[10] as u128) << 40)
            | ((bytes[11] as u128) << 32)
            | ((bytes[12] as u128) << 24)
            | ((bytes[13] as u128) << 16)
            | ((bytes[14] as u128) << 8)
            | (bytes[15] as u128);
        let lo: u128 = ((bytes[16] as u128) << 120)
            | ((bytes[17] as u128) << 112)
            | ((bytes[18] as u128) << 104)
            | ((bytes[19] as u128) << 96)
            | ((bytes[20] as u128) << 88)
            | ((bytes[21] as u128) << 80)
            | ((bytes[22] as u128) << 72)
            | ((bytes[23] as u128) << 64)
            | ((bytes[24] as u128) << 56)
            | ((bytes[25] as u128) << 48)
            | ((bytes[26] as u128) << 40)
            | ((bytes[27] as u128) << 32)
            | ((bytes[28] as u128) << 24)
            | ((bytes[29] as u128) << 16)
            | ((bytes[30] as u128) << 8)
            | (bytes[31] as u128);
        Identity { hi, lo }
    }
}

proof fn lemma_word_of_its_bytes(x: u128)
    by (bit_vector)
    ensures
        x == (((((x >> 120) & 0xff) as u8) as u128) << 120)
            | (((((x >> 112) & 0xff) as u8) as u128) << 112)
            | (((((x >> 104) & 0xff) as u8) as u128) << 104)
            | (((((x >> 96) & 0xff) as u8) as u128) << 96)
            | (((((x >> 88) & 0xff) as u8) as u128) << 88)
            | (((((x >> 80) & 0xff) as u8) as u128) << 80)
            | (((((x >> 72) & 0xff) as u8) as u128) << 72)
            | (((((x >> 64) & 0xff) as u8) as u128) << 64)
            | (((((x >> 56) & 0xff) as u8) as u128) << 56)
            | (((((x >> 48) & 0xff) as u8) as u128) << 48)
            | (((((x >> 40) & 0xff) as u8) as u128) << 40)
            | (((((x >> 32) & 0xff) as u8) as u128) << 32)
            | (((((x >> 24) & 0xff) as u8) as u128) << 24)
            | (((((x >> 16) & 0xff) as u8) as u128) << 16)
            | (((((x >> 8) & 0xff) as u8) as u128) << 8)
            | ((((x >> 0) & 0xff) as u8) as u128),
{
}

proof fn lemma_bytes_of_their_word(b0: u8, b1: u8, b2: u8, b3: u8, b4: u8, b5: u8, b6: u8, b7: u8, b8: u8, b9: u8, b10: u8, b11: u8, b12: u8, b13: u8, b14: u8, b15: u8, word: u128)
    by (bit_vector)
    requires
        word == ((b0 as u128) << 120) | ((b1 as u128) << 112) | ((b2 as u128) << 104) | ((b3 as u128) << 96) | ((b4 as u128) << 88) | ((b5 as u128) << 80) | ((b6 as u128) << 72) | ((b7 as u128) << 64) | ((b8 as u128) << 56) | ((b9 as u128) << 48) | ((b10 as u128) << 40) | ((b11 as u128) << 32) | ((b12 as u128) << 24) | ((b13 as u128) << 16) | ((b14 as u128) << 8) | (b15 as u128),
    ensures
            (((word >> 120) & 0xff) as u8) == b0,
            (((word >> 112) & 0xff) as u8) == b1,
            (((word >> 104) & 0xff) as u8) == b2,
            (((word >> 96) & 0xff) as u8) == b3,
            (((word >> 88) & 0xff) as u8) == b4,
            (((word >> 80) & 0xff) as u8) == b5,
            (((word >> 72) & 0xff) as u8) == b6,
            (((word >> 64) & 0xff) as u8) == b7,
            (((word >> 56) & 0xff) as u8) == b8,
            (((word >> 48) & 0xff) as u8) == b9,
            (((word >> 40) & 0xff) as u8) == b10,
            (((word >> 32) & 0xff) as u8) == b11,
            (((word >> 24) & 0xff) as u8) == b12,
            (((word >> 16) & 0xff) as u8) == b13,
            (((word >> 8) & 0xff) as u8) == b14,
            (((word >> 0) & 0xff) as u8) == b15,
{
}

/// An identity is read back from its bytes, and thirty-two bytes are
/// written back from the identity they spell: the two forms hold the same.
pub proof fn lemma_identity_bytes_round_trip(identity: Identity, bytes: Seq<u8>)
    ensures
        identity.bytes().len() == 32,
        Identity::of_bytes(identity.bytes()) == identity,
        bytes.len() == 32 ==> Identity::of_bytes(bytes).bytes() == bytes,
{
    lemma_word_of_its_bytes(identity.hi);
    lemma_word_of_its_bytes(identity.lo);
    if bytes.len() == 32 {
        lemma_bytes_of_their_word(bytes[0], bytes[1], bytes[2], bytes[3], bytes[4], bytes[5], bytes[6], bytes[7], bytes[8], bytes[9], bytes[10], bytes[11], bytes[12], bytes[13], bytes[14], bytes[15], word_at(bytes, 0));
        lemma_bytes_of_their_word(bytes[16], bytes[17], bytes[18], bytes[19], bytes[20], bytes[21], bytes[22], bytes[23], bytes[24], bytes[25], bytes[26], bytes[27], bytes[28], bytes[29], bytes[30], bytes[31], word_at(bytes, 16));
        assert(Identity::of_bytes(bytes).bytes() =~= bytes);
    }
}

/// An unordered pair of assets, written in its one canonical order: `second`
/// never comes before `first`. A pool is known by the pair of its assets.
#[derive(Clone, Copy, Debug, PartialEq, Eq, Structural)]
pub struct AssetPair {
    pub first: Identity,
    pub second: Identity,
}

impl AssetPair {
    /// The pair is written in canonical order.
    pub open spec fn wf(self) -> bool {
        !self.second.precedes(self.first)
    }

    /// The canonical pair of two assets, whichever is named first.
    pub open spec fn of(mint_a: Identity, mint_b: Identity) -> AssetPair {
        if mint_b.precedes(mint_a) {
            AssetPair { first: mint_b, second: mint_a }
        } else {
            AssetPair { first: mint_a, second: mint_b }
        }
    }

    /// Puts two assets in canonical order.
    pub fn new(mint_a: Identity, mint_b: Identity) -> (pair: AssetPair)
        ensures
            pair == AssetPair::of(mint_a, mint_b),
            pair.wf(),
    {
        if mint_b.lt(&mint_a) {
            AssetPair { first: mint_b, second: mint_a }
        } else {
            AssetPair { first: mint_a, second: mint_b }
        }
    }
}

/// A pair does not depend on the order in which its assets are named, and
/// two pairs are the same only if they hold the same two assets.
pub proof fn lemma_asset_pair_unordered(mint_a: Identity, mint_b: Identity, mint_c: Identity, mint_d: Identity)
    ensures
        AssetPair::of(mint_a, mint_b) == AssetPair::of(mint_b, mint_a),
        AssetPair::of(mint_a, mint_b).wf(),
        AssetPair::of(mint_a, mint_b) == AssetPair::of(mint_c, mint_d) <==> (mint_a == mint_c && mint_b
            == mint_d) || (mint_a == mint_d && mint_b == mint_c),
{
}

} // verus!

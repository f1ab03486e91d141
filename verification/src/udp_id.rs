//! Client identifiers: four opaque bytes that key a session, with a two-byte
//! keyed checksum that may travel with them.

use vstd::prelude::*;

verus! {

/// Number of identifier bytes.
pub const UDP_ID_LEN: usize = 4;

/// Number of checksum bytes.
pub const CHECKSUM_LEN: usize = 2;

/// Length of an identifier followed by its checksum.
pub const UDP_ID_TOTAL_LEN: usize = 6;

/// Length of the shared key.
pub const KEY_LEN: usize = 8;

/// The shared key, fixed when the library is built.
pub open spec fn key() -> Seq<u8> {
    seq![0x3cu8, 0xa7u8, 0x51u8, 0xe9u8, 0x0du8, 0x76u8, 0xb2u8, 0x48u8]
}

fn key_bytes() -> (k: [u8; 8])
    ensures
        k@ == key(),
{
    let k: [u8; 8] = [0x3c, 0xa7, 0x51, 0xe9, 0x0d, 0x76, 0xb2, 0x48];
    assert(k@ =~= key());
    k
}

/// `rand::random`, for four bytes: whatever the thread's generator gives.
#[verifier::external_body]
fn random_id_bytes() -> (id: [u8; 4]) {
    rand::random()
}

/// A 16-bit value rotated left by three bits.
pub open spec fn rotl3(x: u16) -> u16 {
    (x << 3) | (x >> 13)
}

/// One step of the accumulator: add the keyed byte modulo 2^16, then rotate.
pub open spec fn mix(sum: u16, byte: u8, k: u8) -> u16 {
    rotl3(((sum as int + (byte ^ k) as int) % 0x1_0000) as u16)
}

/// The accumulator after the first `n` bytes of `id`.
pub open spec fn accumulate(id: Seq<u8>, n: nat) -> u16
    decreases n,
{
    if n == 0 {
        0
    } else {
        let i = (n - 1) as int;
        mix(accumulate(id, (n - 1) as nat), id[i], key()[i % key().len() as int])
    }
}

/// The 16-bit checksum of an identifier: the accumulator over its bytes,
/// masked with the first and last key byte.
pub open spec fn checksum_value(id: Seq<u8>) -> u16 {
    accumulate(id, id.len()) ^ ((key()[0] as u16) | ((key()[key().len() - 1] as u16) << 8))
}

/// The checksum as it travels: low byte first.
pub open spec fn checksum_bytes(id: Seq<u8>) -> Seq<u8> {
    let v = checksum_value(id);
    seq![(v & 0xff) as u8, (v >> 8) as u8]
}

/// The identifier read as a little-endian 32-bit integer.
pub open spec fn id_value(id: Seq<u8>) -> u32 {
    (id[0] as u32) | ((id[1] as u32) << 8) | ((id[2] as u32) << 16) | ((id[3] as u32) << 24)
}

/// A client identifier with its checksum.
#[derive(Clone, Copy, Debug, PartialEq, Eq, Hash)]
pub struct UdpId {
    id: [u8; 4],
    checksum: [u8; 2],
}

impl UdpId {
    /// The four identifier bytes.
    pub closed spec fn id(&self) -> Seq<u8> {
        self.id@
    }

    /// The two checksum bytes held beside the identifier.
    pub closed spec fn checksum(&self) -> Seq<u8> {
        self.checksum@
    }

    /// The session key: the identifier as a 32-bit integer.
    pub open spec fn key32(&self) -> u32 {
        id_value(self.id())
    }

    /// Whether the held checksum is the one the identifier calls for.
    pub open spec fn is_valid(&self) -> bool {
        self.checksum() == checksum_bytes(self.id())
    }

    /// Both sequences have their fixed lengths.
    pub proof fn lemma_lengths(&self)
        ensures
            self.id().len() == 4,
            self.checksum().len() == 2,
    {
    }

    /// Computes the keyed checksum of four identifier bytes.
    pub fn compute_checksum(id: &[u8; 4]) -> (out: [u8; 2])
        ensures
            out@ == checksum_bytes(id@),
    {
        let k = key_bytes();
        let mut sum: u16 = 0;
        let mut i: usize = 0;
        while i < 4
            invariant
                i <= 4,
                k@ == key(),
                sum == accumulate(id@, i as nat),
            decreases 4 - i,
        {
            let x: u8 = id[i] ^ k[i % KEY_LEN];
            let added: u16 = sum.wrapping_add(x as u16);
            assert(added == ((sum as int + x as int) % 0x1_0000) as u16);
            sum = (added << 3) | (added >> 13);
            i = i + 1;
            assert(sum == accumulate(id@, i as nat));
        }
        let mask: u16 = (k[0] as u16) | ((k[KEY_LEN - 1] as u16) << 8);
        let v: u16 = sum ^ mask;
        let out: [u8; 2] = [(v & 0xff) as u8, (v >> 8) as u8];
        assert(out@ =~= checksum_bytes(id@));
        out
    }

    /// Draws a fresh identifier at random, with its checksum.
    pub fn generate() -> (r: Self)
        ensures
            r.is_valid(),
    {
        Self::from(random_id_bytes())
    }

    /// Builds the identifier for four given bytes, with its checksum.
    pub fn from(data: [u8; 4]) -> (r: Self)
        ensures
            r.id() == data@,
            r.is_valid(),
    {
        let checksum = Self::compute_checksum(&data);
        UdpId { id: data, checksum }
    }

    /// Builds the identifier whose session key is `value`, with its checksum.
    pub fn from_u32(value: u32) -> (r: Self)
        ensures
            r.key32() == value,
            r.is_valid(),
    {
        let b0: u8 = (value & 0xff) as u8;
        let b1: u8 = ((value >> 8) & 0xff) as u8;
        let b2: u8 = ((value >> 16) & 0xff) as u8;
        let b3: u8 = ((value >> 24) & 0xff) as u8;
        assert((b0 as u32) | ((b1 as u32) << 8) | ((b2 as u32) << 16) | ((b3 as u32) << 24)
            == value) by (bit_vector)
            requires
                b0 == (value & 0xff) as u8,
                b1 == ((value >> 8) & 0xff) as u8,
                b2 == ((value >> 16) & 0xff) as u8,
                b3 == ((value >> 24) & 0xff) as u8,
        ;
        Self::from([b0, b1, b2, b3])
    }

    /// Reads an identifier and its checksum from the front of `data_slice`.
    /// The checksum is taken as found, not tested.
    pub fn try_from(data_slice: &[u8]) -> (r: Option<Self>)
        ensures
            r is Some <==> data_slice@.len() >= UDP_ID_TOTAL_LEN,
            r matches Some(u) ==> u.id() == data_slice@.subrange(0, 4) && u.checksum()
                == data_slice@.subrange(4, 6),
    {
        if data_slice.len() < UDP_ID_TOTAL_LEN {
            return None;
        }
        let id: [u8; 4] = [data_slice[0], data_slice[1], data_slice[2], data_slice[3]];
        let checksum: [u8; 2] = [data_slice[4], data_slice[5]];
        assert(id@ =~= data_slice@.subrange(0, 4));
        assert(checksum@ =~= data_slice@.subrange(4, 6));
        Some(UdpId { id, checksum })
    }

    /// Tests the held checksum against the identifier.
    pub fn validate(&self) -> (ok: bool)
        ensures
            ok == self.is_valid(),
    {
        let expected = Self::compute_checksum(&self.id);
        let ok = self.checksum[0] == expected[0] && self.checksum[1] == expected[1];
        assert(ok == (self.checksum@ =~= expected@));
        ok
    }

    /// The identifier as a little-endian 32-bit integer.
    pub fn as_u32(&self) -> (v: u32)
        ensures
            v == self.key32(),
    {
        (self.id[0] as u32) | ((self.id[1] as u32) << 8) | ((self.id[2] as u32) << 16) | ((
        self.id[3] as u32) << 24)
    }

    /// The identifier followed by its checksum, as sent on the wire.
    pub fn as_bytes(&self) -> (out: [u8; 6])
        ensures
            out@ == self.id() + self.checksum(),
    {
        let out: [u8; 6] = [
            self.id[0],
            self.id[1],
            self.id[2],
            self.id[3],
            self.checksum[0],
            self.checksum[1],
        ];
        assert(out@ =~= self.id@ + self.checksum@);
        out
    }
}

} // verus!

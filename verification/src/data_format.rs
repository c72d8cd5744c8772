//! The framing of a serialized engine (a `.dat` file): a fixed header in front of the data,
//! in this order:
//! 1. magic (4 bytes)
//! 2. format version (1 byte)
//! 3. seahash of the data (8 bytes, little-endian)
//! 4. crate version (16 bytes, NUL-padded)
//! 5. the data (the rest of the file)

use vstd::prelude::*;

verus! {

/// The magic bytes that start a file: the leading 4 bytes of the SHA-512 of
/// `brave/adblock-rust`.
pub open spec fn dat_magic() -> Seq<u8> {
    seq![0xd1u8, 0xd9u8, 0x3au8, 0xafu8]
}

/// The format version. Data of another version is incompatible.
pub const ADBLOCK_RUST_DAT_VERSION: u8 = 8;

/// Offset of the checksum within the header.
pub const HASH_OFFSET: usize = 5;

/// Offset of the crate version within the header.
pub const PKG_VERSION_OFFSET: usize = 13;

/// Length of the header.
pub const HEADER_PREFIX_LENGTH: usize = 29;

/// The crate version field: `0.1.0`, NUL-padded to 16 bytes.
pub open spec fn pkg_version_field() -> Seq<u8> {
    seq![0x30u8, 0x2eu8, 0x31u8, 0x2eu8, 0x30u8] + Seq::new(11, |i: int| 0u8)
}

/// The crate version field, as bytes.
pub fn adblock_rust_pkg_version() -> (r: Vec<u8>)
    ensures
        r@ == pkg_version_field(),
{
    let mut r: Vec<u8> = vec![0x30u8, 0x2eu8, 0x31u8, 0x2eu8, 0x30u8];
    let mut i: usize = 0;
    while i < 11
        invariant
            i <= 11,
            r@ == seq![0x30u8, 0x2eu8, 0x31u8, 0x2eu8, 0x30u8] + Seq::new(i as nat, |j: int| 0u8),
        decreases 11 - i,
    {
        r.push(0u8);
        i += 1;
        proof {
            assert(r@ =~= seq![0x30u8, 0x2eu8, 0x31u8, 0x2eu8, 0x30u8] + Seq::new(i as nat, |j: int| 0u8));
        }
    }
    r
}

/// The value that `seahash::hash` gives for `data`.
pub uninterp spec fn seahash_of(data: Seq<u8>) -> u64;

/// `seahash::hash` of `data`; the contract names the result `seahash_of(data)`.
#[verifier::external_body]
fn seahash_hash(data: &[u8]) -> (r: u64)
    ensures
        r == seahash_of(data@),
{
    seahash::hash(data)
}

/// The `n` low bytes of `x`, least significant first.
pub open spec fn le_bytes(x: nat, n: nat) -> Seq<u8>
    decreases n,
{
    if n == 0 {
        Seq::empty()
    } else {
        seq![(x % 256) as u8] + le_bytes(x / 256, (n - 1) as nat)
    }
}

proof fn lemma_le_bytes_len(x: nat, n: nat)
    ensures
        le_bytes(x, n).len() == n,
    decreases n,
{
    if n > 0 {
        lemma_le_bytes_len(x / 256, (n - 1) as nat);
    }
}

/// The checksum field of data whose hash is `h`.
pub open spec fn checksum_field(h: u64) -> Seq<u8> {
    le_bytes(h as nat, 8)
}

/// The 8 bytes of `x`, least significant first.
fn u64_le_bytes(x: u64) -> (r: Vec<u8>)
    ensures
        r@ == checksum_field(x),
{
    let mut r: Vec<u8> = Vec::new();
    let mut y = x;
    let mut i: usize = 0;
    while i < 8
        invariant
            i <= 8,
            r@ + le_bytes(y as nat, (8 - i) as nat) == le_bytes(x as nat, 8),
        decreases 8 - i,
    {
        let ghost before = r@;
        let ghost yy = y;
        r.push((y % 256) as u8);
        y = y / 256;
        i += 1;
        proof {
            assert(le_bytes(yy as nat, (8 - (i - 1)) as nat) == seq![(yy % 256) as u8] + le_bytes(
                y as nat,
                (8 - i) as nat,
            ));
            assert(r@ + le_bytes(y as nat, (8 - i) as nat) =~= before + le_bytes(
                yy as nat,
                (8 - (i - 1)) as nat,
            ));
        }
    }
    proof {
        assert(le_bytes(y as nat, 0) =~= Seq::<u8>::empty());
        assert(r@ =~= r@ + le_bytes(y as nat, 0));
    }
    r
}

/// The file that frames `data`: magic, format version, checksum, crate version, data.
pub open spec fn spec_serialize_dat(data: Seq<u8>) -> Seq<u8> {
    dat_magic() + seq![ADBLOCK_RUST_DAT_VERSION] + checksum_field(seahash_of(data)) + pkg_version_field()
        + data
}

/// Frames `data` as a file.
pub fn serialize_dat_file(data: &[u8]) -> (r: Vec<u8>)
    ensures
        r@ == spec_serialize_dat(data@),
{
    let hash = seahash_hash(data);
    let mut serialized: Vec<u8> = vec![0xd1u8, 0xd9u8, 0x3au8, 0xafu8];
    serialized.push(ADBLOCK_RUST_DAT_VERSION);
    let mut hash_bytes = u64_le_bytes(hash);
    serialized.append(&mut hash_bytes);
    let mut version = adblock_rust_pkg_version();
    serialized.append(&mut version);
    let mut i: usize = 0;
    let ghost header = serialized@;
    while i < data.len()
        invariant
            i <= data@.len(),
            serialized@ == header + data@.subrange(0, i as int),
        decreases data.len() - i,
    {
        serialized.push(data[i]);
        i += 1;
        proof {
            assert(data@.subrange(0, i as int) =~= data@.subrange(0, i - 1).push(data@[i - 1]));
        }
    }
    proof {
        assert(data@.subrange(0, data@.len() as int) =~= data@);
        assert(serialized@ =~= spec_serialize_dat(data@));
    }
    serialized
}

/// Why a file cannot be read back.
#[derive(Debug, PartialEq, Eq)]
pub enum DeserializationError {
    /// The file is shorter than the header or does not start with the magic bytes.
    BadHeader,
    /// The checksum in the header is not that of the data.
    BadChecksum { expected: [u8; 8], actual: [u8; 8] },
    /// The file has another format version, given here; it is to be made again from list text.
    VersionMismatch(u8),
}

/// The data of a file, and whether it was written by this very crate version (a hint for
/// reloading, not proof that the file is authentic).
#[derive(Debug)]
pub struct DatFilePayload<'a> {
    pub data: &'a [u8],
    pub crate_version_matches: bool,
}

/// What reading back a file gives.
pub enum DatOutcome {
    BadHeader,
    BadChecksum(Seq<u8>, Seq<u8>),
    VersionMismatch(u8),
    Payload(Seq<u8>, bool),
}

/// What reading back the file `s` gives: a bad header where it is shorter than the header or
/// lacks the magic; a version mismatch where its version is not this format's; a bad checksum
/// (the header's and the data's) where they differ; otherwise the data after the header, and
/// whether the crate version field is this crate's.
pub open spec fn spec_deserialize_dat(s: Seq<u8>) -> DatOutcome {
    if s.len() < HEADER_PREFIX_LENGTH || s.subrange(0, 4) != dat_magic() {
        DatOutcome::BadHeader
    } else if s[4] != ADBLOCK_RUST_DAT_VERSION {
        DatOutcome::VersionMismatch(s[4])
    } else {
        let data = s.subrange(HEADER_PREFIX_LENGTH as int, s.len() as int);
        let expected = s.subrange(HASH_OFFSET as int, PKG_VERSION_OFFSET as int);
        let actual = checksum_field(seahash_of(data));
        if expected != actual {
            DatOutcome::BadChecksum(expected, actual)
        } else {
            DatOutcome::Payload(
                data,
                s.subrange(PKG_VERSION_OFFSET as int, HEADER_PREFIX_LENGTH as int) == pkg_version_field(),
            )
        }
    }
}

/// The outcome that a result of `deserialize_dat_file` stands for.
pub open spec fn outcome_of(r: Result<DatFilePayload, DeserializationError>) -> DatOutcome {
    match r {
        Ok(p) => DatOutcome::Payload(p.data@, p.crate_version_matches),
        Err(DeserializationError::BadHeader) => DatOutcome::BadHeader,
        Err(DeserializationError::BadChecksum { expected, actual }) => DatOutcome::BadChecksum(
            expected@,
            actual@,
        ),
        Err(DeserializationError::VersionMismatch(v)) => DatOutcome::VersionMismatch(v),
    }
}

/// Whether `a[i..i + n]` and `b` hold the same bytes.
fn bytes_equal_at(a: &[u8], i: usize, b: &[u8]) -> (r: bool)
    requires
        i + b@.len() <= a@.len(),
    ensures
        r == (a@.subrange(i as int, i + b@.len()) == b@),
{
    let n = a.len();
    let mut k: usize = 0;
    while k < b.len()
        invariant
            k <= b@.len(),
            n == a@.len(),
            i + b@.len() <= a@.len(),
            forall|j: int| 0 <= j < k ==> a@[i + j] == b@[j],
        decreases b.len() - k,
    {
        assert(i + k < a@.len());
        if a[i + k] != b[k] {
            proof {
                assert(a@.subrange(i as int, i + b@.len())[k as int] != b@[k as int]);
            }
            return false;
        }
        k += 1;
    }
    proof {
        assert(a@.subrange(i as int, i + b@.len()) =~= b@);
    }
    true
}

/// Reads back a file: checks its header and the checksum of its data.
pub fn deserialize_dat_file(serialized: &[u8]) -> (r: Result<DatFilePayload<'_>, DeserializationError>)
    ensures
        outcome_of(r) == spec_deserialize_dat(serialized@),
{
    let magic: Vec<u8> = vec![0xd1u8, 0xd9u8, 0x3au8, 0xafu8];
    proof {
        assert(magic@ =~= dat_magic());
    }
    if serialized.len() < HEADER_PREFIX_LENGTH || !bytes_equal_at(serialized, 0, magic.as_slice()) {
        return Err(DeserializationError::BadHeader);
    }
    let version = serialized[4];
    if version != ADBLOCK_RUST_DAT_VERSION {
        return Err(DeserializationError::VersionMismatch(version));
    }
    let data = vstd::slice::slice_subrange(serialized, HEADER_PREFIX_LENGTH, serialized.len());
    let hash = seahash_hash(data);
    let actual_hash = u64_le_bytes(hash);
    proof {
        lemma_le_bytes_len(hash as nat, 8);
    }
    let expected: [u8; 8] = [
        serialized[5],
        serialized[6],
        serialized[7],
        serialized[8],
        serialized[9],
        serialized[10],
        serialized[11],
        serialized[12],
    ];
    proof {
        assert(expected@ =~= serialized@.subrange(HASH_OFFSET as int, PKG_VERSION_OFFSET as int));
    }
    if !bytes_equal_at(serialized, HASH_OFFSET, actual_hash.as_slice()) {
        let actual: [u8; 8] = [
            actual_hash[0],
            actual_hash[1],
            actual_hash[2],
            actual_hash[3],
            actual_hash[4],
            actual_hash[5],
            actual_hash[6],
            actual_hash[7],
        ];
        proof {
            assert(actual@ =~= actual_hash@);
        }
        return Err(DeserializationError::BadChecksum { expected, actual });
    }
    let version_field = adblock_rust_pkg_version();
    let crate_version_matches = bytes_equal_at(serialized, PKG_VERSION_OFFSET, version_field.as_slice());
    Ok(DatFilePayload { data, crate_version_matches })
}

/// Different values have different little-endian bytes.
proof fn lemma_le_bytes_injective(x: nat, y: nat, n: nat)
    requires
        x < pow256(n),
        y < pow256(n),
        le_bytes(x, n) == le_bytes(y, n),
    ensures
        x == y,
    decreases n,
{
    if n > 0 {
        lemma_le_bytes_len(x / 256, (n - 1) as nat);
        lemma_le_bytes_len(y / 256, (n - 1) as nat);
        let bx = le_bytes(x, n);
        let by = le_bytes(y, n);
        assert(bx == seq![(x % 256) as u8] + le_bytes(x / 256, (n - 1) as nat));
        assert(by == seq![(y % 256) as u8] + le_bytes(y / 256, (n - 1) as nat));
        assert(bx[0] == (x % 256) as u8);
        assert(by[0] == (y % 256) as u8);
        assert(x % 256 == y % 256);
        assert(le_bytes(x / 256, (n - 1) as nat) =~= le_bytes(x, n).subrange(1, n as int));
        assert(le_bytes(y / 256, (n - 1) as nat) =~= le_bytes(y, n).subrange(1, n as int));
        assert(x / 256 < pow256((n - 1) as nat)) by (nonlinear_arith)
            requires
                x < pow256(n),
                pow256(n) == 256 * pow256((n - 1) as nat),
        ;
        assert(y / 256 < pow256((n - 1) as nat)) by (nonlinear_arith)
            requires
                y < pow256(n),
                pow256(n) == 256 * pow256((n - 1) as nat),
        ;
        lemma_le_bytes_injective(x / 256, y / 256, (n - 1) as nat);
    } else {
        assert(pow256(0) == 1);
    }
}

/// `256` to the power `n`.
pub open spec fn pow256(n: nat) -> nat
    decreases n,
{
    if n == 0 {
        1
    } else {
        256 * pow256((n - 1) as nat)
    }
}

/// A file made from `data` reads back as `data`, written by this crate version.
pub proof fn law_dat_round_trip(data: Seq<u8>)
    ensures
        spec_deserialize_dat(spec_serialize_dat(data)) == DatOutcome::Payload(data, true),
{
    let s = spec_serialize_dat(data);
    let h = checksum_field(seahash_of(data));
    lemma_le_bytes_len(seahash_of(data) as nat, 8);
    assert(s.subrange(0, 4) =~= dat_magic());
    assert(s[4] == ADBLOCK_RUST_DAT_VERSION);
    assert(s.subrange(29, s.len() as int) =~= data);
    assert(s.subrange(5, 13) =~= h);
    assert(s.subrange(13, 29) =~= pkg_version_field());
}

/// A file whose data was changed into data of another checksum is refused with a bad checksum.
pub proof fn law_dat_detects_changed_data(data: Seq<u8>, changed: Seq<u8>)
    requires
        seahash_of(changed) != seahash_of(data),
    ensures
        spec_deserialize_dat(spec_serialize_dat(data).subrange(0, HEADER_PREFIX_LENGTH as int) + changed)
            is BadChecksum,
{
    let s = spec_serialize_dat(data).subrange(0, 29) + changed;
    lemma_le_bytes_len(seahash_of(data) as nat, 8);
    lemma_le_bytes_len(seahash_of(changed) as nat, 8);
    assert(s.subrange(0, 4) =~= dat_magic());
    assert(s[4] == ADBLOCK_RUST_DAT_VERSION);
    assert(s.subrange(29, s.len() as int) =~= changed);
    assert(s.subrange(5, 13) =~= checksum_field(seahash_of(data)));
    reveal_with_fuel(pow256, 9);
    assert(pow256(8) == 0x1_0000_0000_0000_0000);
    if checksum_field(seahash_of(data)) == checksum_field(seahash_of(changed)) {
        lemma_le_bytes_injective(seahash_of(data) as nat, seahash_of(changed) as nat, 8);
    }
}

/// A file whose crate version field was changed still reads back as its data, marked as
/// written by another crate version.
pub proof fn law_dat_other_crate_version(data: Seq<u8>, version: Seq<u8>)
    requires
        version.len() == 16,
        version != pkg_version_field(),
    ensures
        spec_deserialize_dat(spec_serialize_dat(data).subrange(0, PKG_VERSION_OFFSET as int) + version + data)
            == DatOutcome::Payload(data, false),
{
    let s = spec_serialize_dat(data).subrange(0, 13) + version + data;
    lemma_le_bytes_len(seahash_of(data) as nat, 8);
    assert(s.subrange(0, 4) =~= dat_magic());
    assert(s[4] == ADBLOCK_RUST_DAT_VERSION);
    assert(s.subrange(29, s.len() as int) =~= data);
    assert(s.subrange(5, 13) =~= checksum_field(seahash_of(data)));
    assert(s.subrange(13, 29) =~= version);
}

} // verus!

//! The archive container reader: parses the trailing footer, decrypts the
//! entry index with the block cipher, parses the fixed-stride entry records,
//! and serves decrypted entry payloads.
use vstd::prelude::*;
use vstd::slice::slice_subrange;
use crate::cipher::Rijndael;
use crate::cipher::nr_of;
use crate::cipher::spec_decrypt_ecb;
use crate::cipher::spec_expand_key;
use crate::cipher::valid_key_len;
use crate::errors::ParserError;
use crate::hexs::decode_hex;
use crate::hexs::hex_byte;
use crate::hexs::hex_ok;

verus! {

/// Footer magic marking the container format.
pub const PAK_MAGIC: u32 = 0x5a6f12e1;

/// The one container version this reader understands; its index is decrypted
/// with independently chained blocks and no initialization vector.
pub const PAK_VERSION: u32 = 3;

/// Little-endian 32-bit word at p.
pub open spec fn le32(b: Seq<u8>, p: int) -> u32 {
    (b[p] as u32) | (b[p + 1] as u32) << 8 | (b[p + 2] as u32) << 16 | (b[p + 3] as u32) << 24
}

/// Little-endian 64-bit word at p.
pub open spec fn le64(b: Seq<u8>, p: int) -> u64 {
    (b[p] as u64) | (b[p + 1] as u64) << 8 | (b[p + 2] as u64) << 16 | (b[p + 3] as u64) << 24
        | (b[p + 4] as u64) << 32 | (b[p + 5] as u64) << 40 | (b[p + 6] as u64) << 48 | (b[p
        + 7] as u64) << 56
}

/// Little-endian 32-bit read.
pub fn read_le32(b: &[u8], p: usize) -> (r: u32)
    requires
        p + 4 <= b@.len(),
    ensures
        r == le32(b@, p as int),
{
    (b[p] as u32) | (b[p + 1] as u32) << 8 | (b[p + 2] as u32) << 16 | (b[p + 3] as u32) << 24
}

/// Little-endian 64-bit read.
pub fn read_le64(b: &[u8], p: usize) -> (r: u64)
    requires
        p + 8 <= b@.len(),
    ensures
        r == le64(b@, p as int),
{
    (b[p] as u64) | (b[p + 1] as u64) << 8 | (b[p + 2] as u64) << 16 | (b[p + 3] as u64) << 24
        | (b[p + 4] as u64) << 32 | (b[p + 5] as u64) << 40 | (b[p + 6] as u64) << 48 | (b[p
        + 7] as u64) << 56
}

/// One named file record of the index.
pub struct FPakEntry {
    pub name: Vec<u8>,
    pub offset: u64,
    pub compressed_size: u64,
    pub uncompressed_size: u64,
    pub compression_method: u32,
    pub encrypted: bool,
}

/// The decoded key bytes of well-formed hex text.
pub open spec fn key_of_hex(kh: Seq<u8>) -> Seq<u8> {
    Seq::new((kh.len() / 2) as nat, |i: int| hex_byte(kh, i) as u8)
}

/// The key text decodes to a key of an accepted length.
pub open spec fn key_ok(kh: Seq<u8>) -> bool {
    hex_ok(kh) && valid_key_len(kh.len() / 2)
}

/// The trailing fixed-size footer: magic, version, index offset and size,
/// and an index hash that this reader carries but does not check.
pub open spec fn footer_ok(data: Seq<u8>) -> bool {
    let f = data.len() - 44;
    &&& data.len() >= 44
    &&& le32(data, f) == PAK_MAGIC
    &&& le32(data, f + 4) == PAK_VERSION
    &&& le64(data, f + 8) + le64(data, f + 16) <= f
}

/// Index region start within the archive.
pub open spec fn index_off(data: Seq<u8>) -> int {
    le64(data, data.len() - 36) as int
}

/// Index region length within the archive.
pub open spec fn index_len(data: Seq<u8>) -> int {
    le64(data, data.len() - 28) as int
}

/// The decrypted index bytes under a key.
pub open spec fn index_plain(data: Seq<u8>, key: Seq<u8>) -> Seq<u8> {
    spec_decrypt_ecb(
        spec_expand_key(key),
        nr_of(key.len() as int),
        data.subrange(index_off(data), index_off(data) + index_len(data)),
    )
}

/// Entry count declared at the head of the decrypted index.
pub open spec fn entry_count(plain: Seq<u8>) -> int {
    le32(plain, 0) as int
}

/// Byte length of the first NUL-terminated prefix of the 32-byte name field.
pub open spec fn name_end(rec: Seq<u8>, i: int) -> int
    decreases 32 - i,
{
    if i < 0 || i >= 32 || rec[i] == 0 {
        i
    } else {
        name_end(rec, i + 1)
    }
}

/// Record i of the decrypted index.
pub open spec fn record_at(plain: Seq<u8>, i: int) -> Seq<u8> {
    plain.subrange(16 + 64 * i, 16 + 64 * i + 64)
}

/// Name of record i.
pub open spec fn name_at(plain: Seq<u8>, i: int) -> Seq<u8> {
    record_at(plain, i).subrange(0, name_end(record_at(plain, i), 0))
}

/// The parsed entry equals record i of the decrypted index.
pub open spec fn entry_matches(e: FPakEntry, plain: Seq<u8>, i: int) -> bool {
    let rec = record_at(plain, i);
    &&& e.name@ == name_at(plain, i)
    &&& e.offset == le64(rec, 32)
    &&& e.compressed_size == le64(rec, 40)
    &&& e.uncompressed_size == le64(rec, 48)
    &&& e.compression_method == le32(rec, 56)
    &&& e.encrypted == (rec[60] != 0)
}

/// The decrypted index is whole: the declared count at its fixed stride
/// accounts for the whole index, every payload range lies inside the archive
/// body, and entry names are pairwise distinct.
pub open spec fn index_ok(data: Seq<u8>, plain: Seq<u8>) -> bool {
    &&& plain.len() >= 16
    &&& plain.len() == 16 + 64 * entry_count(plain)
    &&& forall|i: int|
        0 <= i < entry_count(plain) ==> le64(#[trigger] record_at(plain, i), 32) + le64(
            record_at(plain, i),
            40,
        ) <= data.len()
    &&& forall|i: int, j: int|
        0 <= i < j < entry_count(plain) ==> name_at(plain, i) != name_at(plain, j)
}

/// Everything open checks before it accepts an archive.
pub open spec fn open_ok(data: Seq<u8>, kh: Seq<u8>) -> bool {
    &&& key_ok(kh)
    &&& footer_ok(data)
    &&& index_len(data) % 16 == 0
    &&& index_ok(data, index_plain(data, key_of_hex(kh)))
}

/// A failure of open that is a key or block-length violation rather than a
/// structural one.
pub open spec fn open_crypto_cause(data: Seq<u8>, kh: Seq<u8>) -> bool {
    !key_ok(kh) || (footer_ok(data) && index_len(data) % 16 != 0)
}

/// The archive reader: owns the raw bytes, the cipher for the key it was
/// opened with, and the parsed entry index in on-disk order.
pub struct PakExtractor {
    pub data: Vec<u8>,
    pub cipher: Rijndael,
    pub entries: Vec<FPakEntry>,
}

impl PakExtractor {
    /// The reader's cipher schedule is whole and every entry's payload range
    /// lies inside the archive body.
    pub open spec fn wf(&self) -> bool {
        &&& self.cipher.wf()
        &&& forall|i: int|
            0 <= i < self.entries@.len() ==> (#[trigger] self.entries@[i]).offset
                + self.entries@[i].compressed_size <= self.data@.len()
    }

    /// The read-only entry index, in on-disk index order.
    pub fn get_entries(&self) -> (r: &Vec<FPakEntry>)
        ensures
            r == &self.entries,
    {
        &self.entries
    }
}


/// If a name field holds no NUL before j and stops at j, the scan result is j.
proof fn lemma_name_end(rec: Seq<u8>, k: int, j: int)
    requires
        0 <= k <= j <= 32,
        forall|t: int| k <= t < j ==> rec[t] != 0,
        j == 32 || rec[j] == 0,
    ensures
        name_end(rec, k) == j,
    decreases j - k,
{
    if k < j {
        lemma_name_end(rec, k + 1, j);
    }
}

/// Bytewise equality of two byte vectors.
fn bytes_eq(a: &Vec<u8>, b: &Vec<u8>) -> (r: bool)
    ensures
        r <==> a@ == b@,
{
    if a.len() != b.len() {
        return false;
    }
    let mut i: usize = 0;
    while i < a.len()
        invariant
            i <= a@.len(),
            a@.len() == b@.len(),
            forall|j: int| 0 <= j < i ==> a@[j] == b@[j],
        decreases a@.len() - i,
    {
        if a[i] != b[i] {
            return false;
        }
        i = i + 1;
    }
    proof {
        assert(a@ =~= b@);
    }
    true
}

impl PakExtractor {
    /// Opens an archive held in memory with a hex-encoded key: checks the
    /// footer magic and version, decrypts the index region, and parses the
    /// fixed-stride entry records. A bad key or a block-length violation is a
    /// key condition; every structural violation, a format one.
    #[verifier::spinoff_prover]
    #[verifier::rlimit(100)]
    pub fn new(data: Vec<u8>, key_hex: &[u8]) -> (r: Result<PakExtractor, ParserError>)
        ensures
            r is Ok <==> open_ok(data@, key_hex@),
            r is Ok ==> {
                let p = r->Ok_0;
                &&& p.wf()
                &&& p.data@ == data@
                &&& p.cipher.is_for_key(key_of_hex(key_hex@))
                &&& p.entries@.len() == entry_count(index_plain(data@, key_of_hex(key_hex@)))
                &&& forall|i: int|
                    0 <= i < p.entries@.len() ==> entry_matches(
                        #[trigger] p.entries@[i],
                        index_plain(data@, key_of_hex(key_hex@)),
                        i,
                    )
            },
            r is Err ==> (r->Err_0 is Crypto || r->Err_0 is Format),
            r is Err ==> (r->Err_0 is Crypto <==> open_crypto_cause(data@, key_hex@)),
    {
        let key = match decode_hex(key_hex) {
            Ok(k) => k,
            Err(_) => {
                return Err(ParserError::Crypto);
            },
        };
        proof {
            assert(key@ =~= key_of_hex(key_hex@));
        }
        let cipher = match Rijndael::new(key.as_slice()) {
            Ok(c) => c,
            Err(_) => {
                return Err(ParserError::Crypto);
            },
        };
        if data.len() < 44 {
            return Err(ParserError::Format);
        }
        let f = data.len() - 44;
        let magic = read_le32(data.as_slice(), f);
        let version = read_le32(data.as_slice(), f + 4);
        if magic != PAK_MAGIC || version != PAK_VERSION {
            return Err(ParserError::Format);
        }
        let ioff = read_le64(data.as_slice(), f + 8);
        let isize = read_le64(data.as_slice(), f + 16);
        if isize > f as u64 || ioff > f as u64 - isize {
            return Err(ParserError::Format);
        }
        if isize % 16 != 0 {
            return Err(ParserError::Crypto);
        }
        proof {
            assert(footer_ok(data@));
            assert(index_off(data@) == ioff as int && index_len(data@) == isize as int);
        }
        let islice = slice_subrange(data.as_slice(), ioff as usize, (ioff + isize) as usize);
        let plain = match cipher.decrypt(islice) {
            Ok(p) => p,
            Err(_) => {
                return Err(ParserError::Crypto);
            },
        };
        let ghost pl = index_plain(data@, key_of_hex(key_hex@));
        proof {
            assert(islice@ == data@.subrange(index_off(data@), index_off(data@) + index_len(
                data@,
            )));
            assert(plain@ == pl);
            assert(key_ok(key_hex@));
            assert(!open_crypto_cause(data@, key_hex@));
        }
        if plain.len() < 16 {
            return Err(ParserError::Format);
        }
        let count = read_le32(plain.as_slice(), 0);
        if (plain.len() as u64) != 16u64 + 64u64 * (count as u64) {
            return Err(ParserError::Format);
        }
        let n = count as usize;
        proof {
            assert(plain@.len() == 16 + 64 * entry_count(pl));
        }
        let mut entries: Vec<FPakEntry> = Vec::new();
        let mut i: usize = 0;
        while i < n
            invariant
                i <= n,
                n == entry_count(pl),
                plain@ == pl,
                pl == index_plain(data@, key_of_hex(key_hex@)),
                plain@.len() == 16 + 64 * entry_count(pl),
                data@.len() >= 44,
                key_ok(key_hex@),
                footer_ok(data@),
                index_len(data@) % 16 == 0,
                entries@.len() == i,
                forall|j: int| 0 <= j < i ==> entry_matches(#[trigger] entries@[j], pl, j),
                forall|j: int, k: int| 0 <= j < k < i ==> name_at(pl, j) != name_at(pl, k),
                forall|j: int|
                    0 <= j < i ==> (#[trigger] entries@[j]).offset
                        + entries@[j].compressed_size <= data@.len(),
            decreases n - i,
        {
            let base = 16 + 64 * i;
            let ghost rec = record_at(pl, i as int);
            proof {
                assert(base + 64 <= plain@.len());
            }
            let mut nend: usize = 0;
            while nend < 32 && plain[base + nend] != 0
                invariant
                    nend <= 32,
                    base == 16 + 64 * i,
                    base + 64 <= plain@.len(),
                    rec == record_at(pl, i as int),
                    plain@ == pl,
                    i < n,
                    n == entry_count(pl),
                    forall|t: int| 0 <= t < nend ==> rec[t] != 0,
                decreases 32 - nend,
            {
                nend = nend + 1;
            }
            proof {
                lemma_name_end(rec, 0, nend as int);
                assert(name_end(rec, 0) == nend as int);
            }
            let mut name: Vec<u8> = Vec::new();
            let mut k: usize = 0;
            while k < nend
                invariant
                    k <= nend,
                    nend <= 32,
                    base == 16 + 64 * i,
                    base + 64 <= plain@.len(),
                    rec == record_at(pl, i as int),
                    plain@ == pl,
                    name@.len() == k,
                    forall|t: int| 0 <= t < k ==> name@[t] == rec[t],
                decreases nend - k,
            {
                name.push(plain[base + k]);
                k = k + 1;
            }
            proof {
                assert(name@ =~= name_at(pl, i as int));
            }
            let offset = read_le64(plain.as_slice(), base + 32);
            let compressed_size = read_le64(plain.as_slice(), base + 40);
            let uncompressed_size = read_le64(plain.as_slice(), base + 48);
            let compression_method = read_le32(plain.as_slice(), base + 56);
            let encrypted = plain[base + 60] != 0;
            proof {
                assert(offset == le64(rec, 32) && compressed_size == le64(rec, 40)
                    && uncompressed_size == le64(rec, 48) && compression_method == le32(rec, 56)
                    && encrypted == (rec[60] != 0));
            }
            if offset > data.len() as u64 || compressed_size > data.len() as u64 - offset {
                proof {
                    assert(le64(record_at(pl, i as int), 32) + le64(record_at(pl, i as int), 40)
                        > data@.len());
                    assert(!index_ok(data@, pl));
                }
                return Err(ParserError::Format);
            }
            let mut j: usize = 0;
            while j < i
                invariant
                    j <= i,
                    i < n,
                    n == entry_count(pl),
                    plain@ == pl,
                    pl == index_plain(data@, key_of_hex(key_hex@)),
                    key_ok(key_hex@),
                    footer_ok(data@),
                    index_len(data@) % 16 == 0,
                    entries@.len() == i,
                    name@ == name_at(pl, i as int),
                    forall|t: int| 0 <= t < i ==> entry_matches(#[trigger] entries@[t], pl, t),
                    forall|t: int| 0 <= t < j ==> name_at(pl, t) != name_at(pl, i as int),
                decreases i - j,
            {
                if bytes_eq(&entries[j].name, &name) {
                    proof {
                        assert(entries@[j as int].name@ == name_at(pl, j as int));
                        assert(name_at(pl, j as int) == name_at(pl, i as int));
                        assert(!index_ok(data@, pl));
                    }
                    return Err(ParserError::Format);
                }
                j = j + 1;
            }
            let e = FPakEntry { name, offset, compressed_size, uncompressed_size, compression_method, encrypted };
            entries.push(e);
            i = i + 1;
        }
        proof {
            assert forall|t: int| 0 <= t < entry_count(pl) implies le64(
                #[trigger] record_at(pl, t),
                32,
            ) + le64(record_at(pl, t), 40) <= data@.len() by {
                assert(entry_matches(entries@[t], pl, t));
            }
            assert(index_ok(data@, pl));
            assert(open_ok(data@, key_hex@));
        }
        let p = PakExtractor { data, cipher, entries };
        Ok(p)
    }

    /// What a successful payload read returns: the raw byte range for a plain
    /// entry, its block-by-block decryption for an encrypted one.
    pub open spec fn payload_spec(&self, e: &FPakEntry) -> Seq<u8> {
        let raw = self.data@.subrange(e.offset as int, e.offset + e.compressed_size);
        if e.encrypted {
            spec_decrypt_ecb(self.cipher.schedule@, self.cipher.rounds as int, raw)
        } else {
            raw
        }
    }

    /// Every check get_file makes before it hands out a payload: the range
    /// lies in the archive, only the stored (no-compression) method appears,
    /// an encrypted payload is whole blocks, and the payload byte count is
    /// the entry's uncompressed size.
    pub open spec fn read_ok(&self, e: &FPakEntry) -> bool {
        &&& e.offset + e.compressed_size <= self.data@.len()
        &&& e.compression_method == 0
        &&& (e.encrypted ==> e.compressed_size as int % 16 == 0)
        &&& e.compressed_size == e.uncompressed_size
    }

    /// Reads one entry's payload: seeks to its range, decrypts it block by
    /// block if the entry is encrypted, and hands back exactly the entry's
    /// uncompressed size in bytes. A compression method other than stored is
    /// an unsupported-format condition.
    pub fn get_file(&self, e: &FPakEntry) -> (r: Result<Vec<u8>, ParserError>)
        requires
            self.wf(),
        ensures
            r is Ok <==> self.read_ok(e),
            r is Ok ==> r->Ok_0@ == self.payload_spec(e) && r->Ok_0@.len()
                == e.uncompressed_size,
            r is Err ==> (r->Err_0 is Format <==> !(e.offset + e.compressed_size
                <= self.data@.len()) || (e.compression_method == 0 && (e.encrypted
                ==> e.compressed_size as int % 16 == 0) && e.compressed_size
                != e.uncompressed_size)),
            r is Err ==> (r->Err_0 is Unsupported <==> e.offset + e.compressed_size
                <= self.data@.len() && e.compression_method != 0),
    {
        if e.offset > self.data.len() as u64 || e.compressed_size > self.data.len() as u64
            - e.offset {
            return Err(ParserError::Format);
        }
        if e.compression_method != 0 {
            return Err(ParserError::Unsupported);
        }
        let start = e.offset as usize;
        let endp = (e.offset + e.compressed_size) as usize;
        let raw = slice_subrange(self.data.as_slice(), start, endp);
        let payload: Vec<u8>;
        if e.encrypted {
            payload = match self.cipher.decrypt(raw) {
                Ok(p) => p,
                Err(_) => {
                    return Err(ParserError::Crypto);
                },
            };
        } else {
            let mut v: Vec<u8> = Vec::new();
            let mut k: usize = 0;
            while k < raw.len()
                invariant
                    k <= raw@.len(),
                    v@.len() == k,
                    forall|t: int| 0 <= t < k ==> v@[t] == raw@[t],
                decreases raw@.len() - k,
            {
                v.push(raw[k]);
                k = k + 1;
            }
            proof {
                assert(v@ =~= raw@);
            }
            payload = v;
        }
        if (payload.len() as u64) != e.uncompressed_size {
            return Err(ParserError::Format);
        }
        Ok(payload)
    }
}


/// The needle occurs as a contiguous run somewhere in the haystack.
pub open spec fn is_substring(hay: Seq<u8>, needle: Seq<u8>) -> bool {
    exists|k: int|
        0 <= k <= hay.len() - needle.len() && #[trigger] hay.subrange(k, k + needle.len() as int)
            == needle
}

/// Compares the needle against the haystack at one position.
fn match_at(hay: &Vec<u8>, k: usize, needle: &[u8]) -> (r: bool)
    requires
        k + needle@.len() <= hay@.len(),
    ensures
        r <==> hay@.subrange(k as int, k as int + needle@.len() as int) == needle@,
{
    let n = needle.len();
    let hlen = hay.len();
    let mut j: usize = 0;
    while j < n
        invariant
            n == needle@.len(),
            hlen == hay@.len(),
            k + n <= hay@.len(),
            j <= n,
            forall|t: int| 0 <= t < j ==> hay@[k + t] == needle@[t],
        decreases n - j,
    {
        if hay[k + j] != needle[j] {
            proof {
                assert(hay@.subrange(k as int, k as int + needle@.len() as int)[j as int]
                    != needle@[j as int]);
            }
            return false;
        }
        j = j + 1;
    }
    proof {
        assert(hay@.subrange(k as int, k as int + needle@.len() as int) =~= needle@);
    }
    true
}

/// Substring test used by name-pattern extraction: a linear scan, since the
/// format provides no secondary index over entry names.
pub fn contains_bytes(hay: &Vec<u8>, needle: &[u8]) -> (r: bool)
    ensures
        r <==> is_substring(hay@, needle@),
{
    let n = needle.len();
    let hl = hay.len();
    if n > hl {
        return false;
    }
    if n == 0 {
        proof {
            assert(hay@.subrange(0, 0 + needle@.len() as int) =~= needle@);
        }
        return true;
    }
    let mut k: usize = 0;
    while k <= hl - n
        invariant
            n == needle@.len(),
            hl == hay@.len(),
            1 <= n <= hl,
            k <= hl - n + 1,
            forall|t: int|
                0 <= t < k ==> #[trigger] hay@.subrange(t, t + needle@.len() as int) != needle@,
        decreases hl - k,
    {
        if match_at(hay, k, needle) {
            return true;
        }
        k = k + 1;
    }
    false
}

} // verus!

//! Decoding 32-byte directory records out of a cluster's raw bytes.
use vstd::prelude::*;

use crate::endian::{le16_spec, le32_spec, read_le16, read_le32};
use crate::errors::FatError;

verus! {

/// The fill byte that pads short name fields on the right.
pub const FILL_BYTE: u8 = 0x20;

/// A record whose first byte is this value marks the end of the directory.
pub const END_MARKER: u8 = 0x00;

/// A record whose first byte is this value is a tombstone for a deleted file.
pub const DELETED_MARKER: u8 = 0xE5;

/// `s` with every trailing fill byte removed.
pub open spec fn trim_fill(s: Seq<u8>) -> Seq<u8>
    decreases s.len(),
{
    if s.len() > 0 && s[s.len() - 1] == FILL_BYTE {
        trim_fill(s.drop_last())
    } else {
        s
    }
}

/// The bytes of `s` read as characters, one per byte.
pub open spec fn chars_of(s: Seq<u8>) -> Seq<char> {
    s.map_values(|b: u8| b as char)
}

/// The mathematical value of one decoded directory entry.
#[verifier::ext_equal]
pub struct DirectoryEntryModel {
    /// The rendered name, base and extension joined by a dot.
    pub name: Seq<char>,
    /// Whether the directory attribute bit is set.
    pub is_directory: bool,
    /// The cluster number where the entry's content begins.
    pub start_cluster: u32,
    /// The byte length of the file.
    pub file_size: u32,
}

/// The rendered name of a 32-byte record: the base-name bytes `[0, 8)` with
/// trailing fill removed, a dot, then the three extension bytes unchanged.
pub open spec fn name_spec(rec: Seq<u8>) -> Seq<char> {
    chars_of(trim_fill(rec.subrange(0, 8))) + seq!['.'] + chars_of(rec.subrange(8, 11))
}

/// The starting cluster number of a record: the high 16 bits at offset 0x14
/// shifted into the upper half, plus the low 16 bits at offset 0x1A.
pub open spec fn start_cluster_spec(rec: Seq<u8>) -> int {
    le16_spec(rec, 0x14) * 0x1_0000 + le16_spec(rec, 0x1A)
}

/// The decoded value of one 32-byte record.
pub open spec fn record_model(rec: Seq<u8>) -> DirectoryEntryModel {
    DirectoryEntryModel {
        name: name_spec(rec),
        is_directory: (rec[12] & 0x10) != 0,
        start_cluster: start_cluster_spec(rec) as u32,
        file_size: le32_spec(rec, 0x1C) as u32,
    }
}

/// The decoded entries of buffer `b` from record index `i` on: records are
/// read in order, a record starting with `END_MARKER` ends the directory and
/// everything after it is ignored, records starting with `DELETED_MARKER`
/// are skipped, and a trailing partial record is never read.
pub open spec fn decode_spec(b: Seq<u8>, i: nat) -> Seq<DirectoryEntryModel>
    decreases b.len() - i * 32,
{
    if (i + 1) * 32 > b.len() {
        Seq::empty()
    } else if b[i as int * 32] == END_MARKER {
        Seq::empty()
    } else if b[i as int * 32] == DELETED_MARKER {
        decode_spec(b, i + 1)
    } else {
        seq![record_model(b.subrange(i as int * 32, i as int * 32 + 32))] + decode_spec(b, i + 1)
    }
}

/// Whether record `j` of buffer `b` is a whole record that marks the end of
/// the directory.
pub open spec fn is_end_record(b: Seq<u8>, j: int) -> bool {
    0 <= j && (j + 1) * 32 <= b.len() && b[j * 32] == END_MARKER
}

/// Whether buffer `b` holds an end-of-directory record at all. Decoding
/// visits every record in order until it meets one, so without one it would
/// run past the buffer's end instead of terminating.
pub open spec fn has_end_marker(b: Seq<u8>) -> bool {
    exists|j: int| is_end_record(b, j)
}

/// The models of a sequence of decoded entries, in order.
pub open spec fn models_of(s: Seq<DirectoryEntry>) -> Seq<DirectoryEntryModel> {
    s.map_values(|e: DirectoryEntry| e@)
}

/// Decoding stops at an end-of-directory record: from a record that starts
/// with `END_MARKER` on, no entry is produced, whatever the bytes after that
/// record hold.
pub proof fn lemma_decode_stops_at_end_marker(b: Seq<u8>, i: nat)
    requires
        b[i as int * 32] == END_MARKER,
    ensures
        decode_spec(b, i) == Seq::<DirectoryEntryModel>::empty(),
{
}

/// A deleted record is a tombstone, not a terminator: it contributes no
/// entry, and decoding yields exactly the entries of the records after it.
pub proof fn lemma_deleted_record_skipped(b: Seq<u8>, i: nat)
    requires
        (i + 1) * 32 <= b.len(),
        b[i as int * 32] == DELETED_MARKER,
    ensures
        decode_spec(b, i) == decode_spec(b, i + 1),
{
}

/// A buffer whose first record starts with `END_MARKER` decodes to no
/// entries at all.
pub proof fn lemma_end_marker_first_decodes_empty(b: Seq<u8>)
    requires
        b.len() > 0,
        b[0] == END_MARKER,
    ensures
        decode_spec(b, 0) == Seq::<DirectoryEntryModel>::empty(),
{
    lemma_decode_stops_at_end_marker(b, 0);
}

/// One decoded directory entry, as returned to callers. Entries are
/// independent values with no reference back to the cluster they came from.
#[derive(Debug)]
pub struct DirectoryEntry {
    /// 8.3-style name, base and extension joined by a dot.
    pub name: String,
    /// Whether the directory attribute bit (0x10) is set.
    pub is_directory: bool,
    /// Cluster number where the entry's content or subdirectory begins.
    pub start_cluster: u32,
    /// Byte length; meaningful only for files.
    pub file_size: u32,
}

impl View for DirectoryEntry {
    type V = DirectoryEntryModel;

    open spec fn view(&self) -> DirectoryEntryModel {
        DirectoryEntryModel {
            name: self.name@,
            is_directory: self.is_directory,
            start_cluster: self.start_cluster,
            file_size: self.file_size,
        }
    }
}

/// Relies on `String::push`: appends exactly the one character to the end of
/// the string and changes nothing before it.
#[verifier::external_body]
fn push_char(s: &mut String, c: char)
    ensures
        final(s)@ == old(s)@.push(c),
{
    s.push(c);
}

/// Decodes the record at `index` of a cluster buffer. Returns `None` exactly
/// when the record marks the end of the directory; a deleted record is still
/// decoded, and the caller decides whether to keep it. Reading past the
/// buffer's end is excluded by precondition: a caller index beyond the last
/// whole record is a programming error, not a normal termination condition.
pub fn parse_directory_entry(cluster: &Vec<u8>, index: usize) -> (r: Option<DirectoryEntry>)
    requires
        (index + 1) * 32 <= cluster@.len(),
    ensures
        r is None <==> cluster@[index as int * 32] == END_MARKER,
        r matches Some(e) ==> e@ == record_model(
            cluster@.subrange(index as int * 32, index as int * 32 + 32),
        ),
{
    let n = cluster.len();
    let base = 32 * index;
    assert(base + 32 <= n);
    if cluster[base] == END_MARKER {
        return None;
    }
    let ghost rec = cluster@.subrange(base as int, base as int + 32);

    let mut end: usize = 8;
    while end > 0 && cluster[base + end - 1] == FILL_BYTE
        invariant
            end <= 8,
            base == 32 * index,
            base + 32 <= cluster@.len(),
            rec == cluster@.subrange(base as int, base as int + 32),
            trim_fill(rec.subrange(0, 8)) == trim_fill(rec.subrange(0, end as int)),
        decreases end,
    {
        proof {
            let s = rec.subrange(0, end as int);
            assert(s[end - 1] == cluster@[base + end - 1]);
            assert(s.drop_last() =~= rec.subrange(0, end - 1));
        }
        end = end - 1;
    }
    proof {
        let s = rec.subrange(0, end as int);
        assert(end == 0 || s[end - 1] != FILL_BYTE);
        assert(trim_fill(s) == s);
    }

    let mut name = String::new();
    let mut k: usize = 0;
    while k < end
        invariant
            k <= end,
            end <= 8,
            base == 32 * index,
            base + 32 <= cluster@.len(),
            rec == cluster@.subrange(base as int, base as int + 32),
            name@ == chars_of(rec.subrange(0, k as int)),
        decreases end - k,
    {
        push_char(&mut name, cluster[base + k] as char);
        proof {
            assert(name@ =~= chars_of(rec.subrange(0, k + 1)));
        }
        k = k + 1;
    }
    push_char(&mut name, '.');
    proof {
        assert(rec.subrange(0, end as int) == trim_fill(rec.subrange(0, 8)));
        assert(name@ =~= chars_of(trim_fill(rec.subrange(0, 8))) + seq!['.']);
    }

    let mut k2: usize = 0;
    while k2 < 3
        invariant
            k2 <= 3,
            base == 32 * index,
            base + 32 <= cluster@.len(),
            rec == cluster@.subrange(base as int, base as int + 32),
            name@ == chars_of(trim_fill(rec.subrange(0, 8))) + seq!['.'] + chars_of(
                rec.subrange(8, 8 + k2 as int),
            ),
        decreases 3 - k2,
    {
        push_char(&mut name, cluster[base + 8 + k2] as char);
        proof {
            assert(name@ =~= chars_of(trim_fill(rec.subrange(0, 8))) + seq!['.'] + chars_of(
                rec.subrange(8, 8 + (k2 + 1)),
            ));
        }
        k2 = k2 + 1;
    }

    let attr = cluster[base + 12];
    let high = read_le16(cluster, base + 0x14);
    let low = read_le16(cluster, base + 0x1A);
    let start_cluster = high as u32 * 0x1_0000 + low as u32;
    let file_size = read_le32(cluster, base + 0x1C);
    let entry = DirectoryEntry { name, is_directory: attr & 0x10 != 0, start_cluster, file_size };
    proof {
        assert(rec[12] == cluster@[base + 12]);
        assert(rec[0x14] == cluster@[base + 0x14] && rec[0x15] == cluster@[base + 0x15]);
        assert(rec[0x1A] == cluster@[base + 0x1A] && rec[0x1B] == cluster@[base + 0x1B]);
        assert(rec[0x1C] == cluster@[base + 0x1C] && rec[0x1D] == cluster@[base + 0x1D]
            && rec[0x1E] == cluster@[base + 0x1E] && rec[0x1F] == cluster@[base + 0x1F]);
        assert(name_spec(rec) == entry@.name);
        assert(entry@ =~= record_model(rec));
    }
    Some(entry)
}

/// Decodes every live record of a cluster buffer, in record order: the
/// buffer is read as consecutive 32-byte records, decoding stops at the
/// first end-of-directory record, deleted records are skipped, and every
/// other record contributes one entry. A buffer with no end-of-directory
/// record would send decoding past the buffer's end; that is reported as
/// `IndexOutOfRange`, never as a partial listing. The result is recomputed
/// fresh from the buffer on every call; no decoder state survives between
/// calls.
pub fn get_entries(cluster: &Vec<u8>) -> (r: Result<Vec<DirectoryEntry>, FatError>)
    ensures
        has_end_marker(cluster@) ==> (r matches Ok(v) && models_of(v@) == decode_spec(
            cluster@,
            0,
        )),
        !has_end_marker(cluster@) ==> r == Err::<Vec<DirectoryEntry>, FatError>(
            FatError::IndexOutOfRange,
        ),
{
    let mut entries: Vec<DirectoryEntry> = Vec::new();
    let n = cluster.len();
    if n < 32 {
        proof {
            assert forall|j: int| !is_end_record(cluster@, j) by {
                if is_end_record(cluster@, j) {
                    assert((j + 1) * 32 >= 32);
                    assert(false);
                }
            }
            assert(!has_end_marker(cluster@));
        }
        return Err(FatError::IndexOutOfRange);
    }
    let limit = n - 32;
    let mut ix: usize = 0;
    let mut done = false;
    while !done && 32 * ix <= limit
        invariant
            n == cluster@.len(),
            n >= 32,
            limit == n - 32,
            32 * ix <= cluster@.len(),
            forall|k: int| 0 <= k < ix ==> !is_end_record(cluster@, k),
            done ==> 32 * ix + 32 <= cluster@.len() && cluster@[32 * ix] == END_MARKER,
            decode_spec(cluster@, 0) == models_of(entries@) + decode_spec(cluster@, ix as nat),
        decreases cluster@.len() - 32 * ix + 1 - (done as int),
    {
        let b0 = cluster[32 * ix];
        if b0 == END_MARKER {
            done = true;
        } else {
            let parsed = parse_directory_entry(cluster, ix);
            match parsed {
                Some(e) => {
                    if b0 != DELETED_MARKER {
                        proof {
                            assert(decode_spec(cluster@, ix as nat) == seq![
                                record_model(
                                    cluster@.subrange(ix as int * 32, ix as int * 32 + 32),
                                ),
                            ] + decode_spec(cluster@, ix as nat + 1));
                            assert(models_of(entries@.push(e)) =~= models_of(entries@).push(e@));
                            assert(models_of(entries@).push(e@) + decode_spec(
                                cluster@,
                                ix as nat + 1,
                            ) =~= models_of(entries@) + decode_spec(cluster@, ix as nat));
                        }
                        entries.push(e);
                    } else {
                        proof {
                            assert(decode_spec(cluster@, ix as nat) == decode_spec(
                                cluster@,
                                ix as nat + 1,
                            ));
                        }
                    }
                },
                None => {},
            }
            proof {
                assert(!is_end_record(cluster@, ix as int));
            }
            ix = ix + 1;
        }
    }
    if !done {
        proof {
            assert forall|j: int| !is_end_record(cluster@, j) by {
                if is_end_record(cluster@, j) {
                    assert((j + 1) * 32 <= cluster@.len());
                    assert(j < ix);
                    assert(false);
                }
            }
            assert(!has_end_marker(cluster@));
        }
        return Err(FatError::IndexOutOfRange);
    }
    proof {
        assert(is_end_record(cluster@, ix as int));
        assert(has_end_marker(cluster@));
        assert(decode_spec(cluster@, ix as nat) =~= Seq::<DirectoryEntryModel>::empty());
        assert(models_of(entries@) + decode_spec(cluster@, ix as nat) =~= models_of(entries@));
    }
    Ok(entries)
}

} // verus!

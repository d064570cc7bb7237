//! Message-table files: the fixed header, the 32-byte index records, the
//! hash chain that guards each label, and the null-separated message
//! buffer.

use vstd::prelude::*;

verus! {

use vstd::bytes::{spec_u32_from_le_bytes, spec_u64_from_le_bytes};
use vstd::utf8::{decode_utf8, valid_utf8};
use crate::crc::{crc32, spec_crc32};
use crate::reader::{read_u32_at, read_u64_at};
use crate::text::find_nul;

/// The number of slots of a message file's hash table.
pub const HASH_TABLE_LEN: usize = 256;

/// `"GMD\0"` read little-endian as a `u32`.
pub const GMD_MAGIC: u32 = 0x0044_4d47;

/// The only supported message-file format version.
pub const GMD_VERSION: u32 = 0x10302;

/// The 40-byte message-file header. `update_time` is a Unix timestamp in
/// seconds.
#[derive(Clone, Copy, PartialEq, Eq, Structural, Debug)]
pub struct GuiMessageHeader {
    pub magic: u32,
    pub version: u32,
    pub language_id: u32,
    pub update_time: u64,
    pub index_num: u32,
    pub message_num: u32,
    pub index_name_buf_size: u32,
    pub message_buffer_size: u32,
    pub package_name_len: u32,
}

/// Reads the message-file header at the start of `data`.
pub fn read_gui_message_header(data: &[u8]) -> (r: GuiMessageHeader)
    requires
        data@.len() >= 40,
    ensures
        r.magic == spec_u32_from_le_bytes(data@.subrange(0, 4)),
        r.version == spec_u32_from_le_bytes(data@.subrange(4, 8)),
        r.language_id == spec_u32_from_le_bytes(data@.subrange(8, 12)),
        r.update_time == spec_u64_from_le_bytes(data@.subrange(12, 20)),
        r.index_num == spec_u32_from_le_bytes(data@.subrange(20, 24)),
        r.message_num == spec_u32_from_le_bytes(data@.subrange(24, 28)),
        r.index_name_buf_size == spec_u32_from_le_bytes(data@.subrange(28, 32)),
        r.message_buffer_size == spec_u32_from_le_bytes(data@.subrange(32, 36)),
        r.package_name_len == spec_u32_from_le_bytes(data@.subrange(36, 40)),
{
    GuiMessageHeader {
        magic: read_u32_at(data, 0),
        version: read_u32_at(data, 4),
        language_id: read_u32_at(data, 8),
        update_time: read_u64_at(data, 12),
        index_num: read_u32_at(data, 20),
        message_num: read_u32_at(data, 24),
        index_name_buf_size: read_u32_at(data, 28),
        message_buffer_size: read_u32_at(data, 32),
        package_name_len: read_u32_at(data, 36),
    }
}

/// One 32-byte index record.
#[derive(Clone, Copy, PartialEq, Eq, Structural, Debug)]
pub struct RawGuiMessageIndexItem {
    pub message_index: u32,
    pub hash_a: u32,
    pub hash_b: u32,
    pub padding: u32,
    /// Offset of the record's label inside the label buffer.
    pub label_offset: u64,
    /// The next record of the same hash bucket; zero ends the chain, and
    /// all-ones marks the first record.
    pub hash_link: u64,
}

/// Reads the 32-byte index record at `at`.
pub fn read_gui_message_index_item(data: &[u8], at: usize) -> (r: RawGuiMessageIndexItem)
    requires
        at + 32 <= data@.len(),
    ensures
        r.message_index == spec_u32_from_le_bytes(data@.subrange(at as int, at + 4)),
        r.hash_a == spec_u32_from_le_bytes(data@.subrange(at + 4, at + 8)),
        r.hash_b == spec_u32_from_le_bytes(data@.subrange(at + 8, at + 12)),
        r.padding == spec_u32_from_le_bytes(data@.subrange(at + 12, at + 16)),
        r.label_offset == spec_u64_from_le_bytes(data@.subrange(at + 16, at + 24)),
        r.hash_link == spec_u64_from_le_bytes(data@.subrange(at + 24, at + 32)),
{
    let len = data.len();
    proof {
        assert(at + 32 <= len);
    }
    RawGuiMessageIndexItem {
        message_index: read_u32_at(data, at),
        hash_a: read_u32_at(data, at + 4),
        hash_b: read_u32_at(data, at + 8),
        padding: read_u32_at(data, at + 12),
        label_offset: read_u64_at(data, at + 16),
        hash_link: read_u64_at(data, at + 24),
    }
}

/// The first hash of a label's chain: the plain seeded CRC-32.
pub open spec fn spec_label_hash(label: Seq<u8>) -> u32 {
    spec_crc32(label, 0xffff_ffffu32)
}

/// The second hash: the CRC-32 of the label seeded with the first.
pub open spec fn spec_label_hash_a(label: Seq<u8>) -> u32 {
    spec_crc32(label, spec_label_hash(label))
}

/// The third hash: the CRC-32 of the label seeded with the second.
pub open spec fn spec_label_hash_b(label: Seq<u8>) -> u32 {
    spec_crc32(label, spec_label_hash_a(label))
}

/// Whether an index record carries exactly the hash chain of its label,
/// the invariant every record of a well-formed file obeys.
pub fn index_item_hashes_match(label: &[u8], item: &RawGuiMessageIndexItem) -> (r: bool)
    ensures
        r == (item.hash_a == spec_label_hash_a(label@) && item.hash_b == spec_label_hash_b(
            label@,
        )),
{
    let hash = crc32(label, 0xffff_ffff);
    let hash_a = crc32(label, hash);
    let hash_b = crc32(label, hash_a);
    item.hash_a == hash_a && item.hash_b == hash_b
}

/// The null-separated runs of `buf`, given the run gathered so far: each
/// terminator emits the gathered run, and a trailing unterminated run is
/// dropped.
pub open spec fn spec_split_from(buf: Seq<u8>, i: int, cur: Seq<u8>) -> Seq<Seq<u8>>
    decreases buf.len() - i,
{
    if i < 0 || i >= buf.len() {
        Seq::empty()
    } else if buf[i] == 0 {
        seq![cur] + spec_split_from(buf, i + 1, Seq::empty())
    } else {
        spec_split_from(buf, i + 1, cur.push(buf[i]))
    }
}

/// The null-separated runs of `buf`, in order; a trailing run without a
/// terminator is dropped.
pub open spec fn spec_split_messages(buf: Seq<u8>) -> Seq<Seq<u8>> {
    spec_split_from(buf, 0, Seq::empty())
}

/// Splits the message buffer at its null bytes.
#[verifier::loop_isolation(false)]
pub fn split_message_buffer(buf: &[u8]) -> (r: Vec<Vec<u8>>)
    ensures
        r.deep_view() == spec_split_messages(buf@),
{
    let mut out: Vec<Vec<u8>> = Vec::new();
    let mut cur: Vec<u8> = Vec::new();
    let mut i: usize = 0;
    proof {
        assert(out.deep_view() + spec_split_from(buf@, 0, cur@) =~~= spec_split_messages(buf@));
    }
    while i < buf.len()
        invariant
            i <= buf@.len(),
            out.deep_view() + spec_split_from(buf@, i as int, cur@) == spec_split_messages(buf@),
        decreases buf@.len() - i,
    {
        let b = buf[i];
        if b == 0 {
            let ghost pre_out = out.deep_view();
            let ghost pre_cur = cur@;
            let done = cur;
            cur = Vec::new();
            out.push(done);
            proof {
                assert(out.deep_view() =~~= pre_out.push(pre_cur));
                assert(spec_split_from(buf@, i as int, pre_cur) == seq![pre_cur]
                    + spec_split_from(buf@, i + 1, Seq::empty()));
                assert(out.deep_view() + spec_split_from(buf@, i + 1, cur@) =~~= pre_out
                    + spec_split_from(buf@, i as int, pre_cur));
            }
        } else {
            let ghost pre = cur@;
            cur.push(b);
            proof {
                assert(cur@ == pre.push(b));
                assert(spec_split_from(buf@, i as int, pre) == spec_split_from(
                    buf@,
                    i + 1,
                    pre.push(buf@[i as int]),
                ));
            }
        }
        i = i + 1;
    }
    proof {
        assert(spec_split_from(buf@, i as int, cur@) =~~= Seq::<Seq<u8>>::empty());
        assert(out.deep_view() + Seq::<Seq<u8>>::empty() =~~= out.deep_view());
    }
    out
}

/// The position of the first zero byte of `buf` at or after `start`, if
/// any.
#[verifier::loop_isolation(false)]
fn find_terminator(buf: &[u8], start: usize) -> (r: Option<usize>)
    requires
        start <= buf@.len(),
    ensures
        match r {
            Some(p) => p == find_nul(buf@, start as int) && p < buf@.len(),
            None => find_nul(buf@, start as int) == buf@.len(),
        },
{
    let mut j: usize = start;
    while j < buf.len()
        invariant
            start <= j <= buf@.len(),
            find_nul(buf@, start as int) == find_nul(buf@, j as int),
        decreases buf@.len() - j,
    {
        if buf[j] == 0 {
            return Some(j);
        }
        j = j + 1;
    }
    None
}

/// Relies on `String::from_utf8`: it succeeds exactly on valid UTF-8 and
/// decodes it.
#[verifier::external_body]
fn string_from_utf8(bytes: Vec<u8>) -> (r: Option<String>)
    ensures
        match r {
            Some(s) => valid_utf8(bytes@) && s@ == decode_utf8(bytes@),
            None => !valid_utf8(bytes@),
        },
{
    String::from_utf8(bytes).ok()
}

/// Appends the little-endian bytes of `x`.
fn push_u32_le(out: &mut Vec<u8>, x: u32)
    ensures
        final(out)@ == old(out)@ + vstd::bytes::spec_u32_to_le_bytes(x),
{
    let mut bytes = vstd::bytes::u32_to_le_bytes(x);
    out.append(&mut bytes);
}

/// Appends the little-endian bytes of `x`.
fn push_u64_le(out: &mut Vec<u8>, x: u64)
    ensures
        final(out)@ == old(out)@ + vstd::bytes::spec_u64_to_le_bytes(x),
{
    let mut bytes = vstd::bytes::u64_to_le_bytes(x);
    out.append(&mut bytes);
}

/// One decoded entry: a label and the message it points at.
pub struct GuiMessageIndexItem {
    pub label: String,
    pub message: String,
}

/// Why a message file could not be decoded or rebuilt.
#[derive(Clone, Copy, PartialEq, Eq, Structural, Debug)]
pub enum GmdError {
    /// The input ran short of a declared region.
    Truncated,
    /// The first four bytes are not `"GMD\0"`.
    BadMagic { magic: u32 },
    /// A format version other than the supported one.
    BadVersion { version: u32 },
    /// A string region carries no terminator.
    MissingTerminator,
    /// A label or message is not valid UTF-8.
    InvalidText,
    /// An index record's hash chain does not match its label.
    HashMismatch { index: u32 },
    /// An index record points past the message table.
    MessageIndexOutOfRange { index: u32 },
    /// Two labels land in the same hash-table slot, which the writer does
    /// not support.
    HashCollision,
}

/// A decoded message file: its identity fields and the label-to-message
/// table, in index order.
pub struct GuiMessageFile {
    update_time: u64,
    language_id: u32,
    package_name: String,
    messages: Vec<GuiMessageIndexItem>,
}

/// Two of the file's labels share a hash-table slot: the low byte of
/// their seeded CRC-32 collides.
pub open spec fn spec_label_slots_collide(messages: Seq<GuiMessageIndexItem>) -> bool {
    exists|i: int, j: int|
        0 <= i < j < messages.len() && (#[trigger] spec_label_hash(
            vstd::utf8::encode_utf8(messages[i].label@),
        )) & 0xff == (#[trigger] spec_label_hash(vstd::utf8::encode_utf8(messages[j].label@)))
            & 0xff
}

impl GuiMessageFile {
    /// The stored update time, as a Unix timestamp in seconds.
    pub closed spec fn spec_update_time(&self) -> u64 {
        self.update_time
    }

    /// The stored language id.
    pub closed spec fn spec_language_id(&self) -> u32 {
        self.language_id
    }

    /// The stored package name.
    pub closed spec fn spec_package_name(&self) -> Seq<char> {
        self.package_name@
    }

    /// The stored entries.
    pub closed spec fn spec_messages(&self) -> Seq<GuiMessageIndexItem> {
        self.messages@
    }

    /// The update time, as a Unix timestamp in seconds.
    pub fn update_time(&self) -> (r: u64)
        ensures
            r == self.spec_update_time(),
    {
        self.update_time
    }

    /// The language id.
    pub fn language_id(&self) -> (r: u32)
        ensures
            r == self.spec_language_id(),
    {
        self.language_id
    }

    /// The package name.
    pub fn package_name(&self) -> (r: &str)
        ensures
            r@ == self.spec_package_name(),
    {
        self.package_name.as_str()
    }

    /// The entries, in index order.
    pub fn messages(&self) -> (r: &[GuiMessageIndexItem])
        ensures
            r@ == self.spec_messages(),
    {
        self.messages.as_slice()
    }

    /// Decodes a whole message file: header, package name, index records,
    /// hash table, label buffer and message buffer. Every index record's
    /// hash chain is checked against its label, and every label and
    /// message must be valid UTF-8.
    #[verifier::loop_isolation(false)]
    #[verifier::rlimit(60)]
    pub fn new(data: &[u8]) -> (r: Result<GuiMessageFile, GmdError>)
        ensures
            data@.len() < 40 ==> r == Err::<GuiMessageFile, GmdError>(GmdError::Truncated),
            data@.len() >= 40 ==> ({
                let magic = spec_u32_from_le_bytes(data@.subrange(0, 4));
                (magic != GMD_MAGIC) <==> (r matches Err(GmdError::BadMagic { .. }))
            }),
            data@.len() >= 40 ==> ({
                let magic = spec_u32_from_le_bytes(data@.subrange(0, 4));
                let version = spec_u32_from_le_bytes(data@.subrange(4, 8));
                magic == GMD_MAGIC ==> ((version != GMD_VERSION) <==> (r matches Err(
                    GmdError::BadVersion { .. },
                )))
            }),
            (r matches Ok(f) ==> data@.len() >= 40 && ({
                let name_len = spec_u32_from_le_bytes(data@.subrange(36, 40)) as int;
                let index_num = spec_u32_from_le_bytes(data@.subrange(20, 24)) as int;
                let name_region = data@.subrange(40, 40 + name_len + 1);
                &&& f.spec_language_id() == spec_u32_from_le_bytes(data@.subrange(8, 12))
                &&& f.spec_update_time() == spec_u64_from_le_bytes(data@.subrange(12, 20))
                &&& f.spec_package_name() == decode_utf8(crate::text::nul_run(name_region, 0))
                &&& f.spec_messages().len() == index_num
            })),
    {
        if data.len() < 40 {
            return Err(GmdError::Truncated);
        }
        let header = read_gui_message_header(data);
        if header.magic != GMD_MAGIC {
            return Err(GmdError::BadMagic { magic: header.magic });
        }
        if header.version != GMD_VERSION {
            return Err(GmdError::BadVersion { version: header.version });
        }
        let len = data.len();
        if ((len - 40) as u64) < (header.package_name_len as u64) + 1 {
            return Err(GmdError::Truncated);
        }
        let name_len = header.package_name_len as usize;
        let name_region = vstd::slice::slice_subrange(data, 40, 40 + name_len + 1);
        let package_name = match find_terminator(name_region, 0) {
            None => {
                return Err(GmdError::MissingTerminator);
            },
            Some(p) => {
                let bytes = vstd::slice::slice_to_vec(
                    vstd::slice::slice_subrange(name_region, 0, p),
                );
                match string_from_utf8(bytes) {
                    None => {
                        return Err(GmdError::InvalidText);
                    },
                    Some(s) => s,
                }
            },
        };
        let items_base = 40 + name_len + 1;
        let n = header.index_num as usize;
        if ((len - items_base) as u64) < 32 * (n as u64) {
            return Err(GmdError::Truncated);
        }
        let table_len: usize = if n != 0 {
            8 * HASH_TABLE_LEN
        } else {
            0
        };
        let records_end = items_base + 32 * n;
        if len - records_end < table_len {
            return Err(GmdError::Truncated);
        }
        let namebuf_base = records_end + table_len;
        let nb_size = header.index_name_buf_size as usize;
        if len - namebuf_base < nb_size {
            return Err(GmdError::Truncated);
        }
        let msgbuf_base = namebuf_base + nb_size;
        let mb_size = header.message_buffer_size as usize;
        if len - msgbuf_base < mb_size {
            return Err(GmdError::Truncated);
        }
        let namebuf = vstd::slice::slice_subrange(data, namebuf_base, namebuf_base + nb_size);
        let msgbuf = vstd::slice::slice_subrange(data, msgbuf_base, msgbuf_base + mb_size);
        let segments = split_message_buffer(msgbuf);
        let mut messages_text: Vec<String> = Vec::new();
        let mut k: usize = 0;
        while k < segments.len()
            invariant
                k <= segments@.len(),
                messages_text@.len() == k,
            decreases segments@.len() - k,
        {
            let bytes = vstd::slice::slice_to_vec(segments[k].as_slice());
            match string_from_utf8(bytes) {
                None => {
                    return Err(GmdError::InvalidText);
                },
                Some(s) => messages_text.push(s),
            };
            k = k + 1;
        }
        let mut messages: Vec<GuiMessageIndexItem> = Vec::new();
        let mut i: usize = 0;
        while i < n
            invariant
                i <= n,
                messages@.len() == i,
                n * 32 <= data@.len() - items_base,
            decreases n - i,
        {
            proof {
                lemma_index_item_fits(items_base as int, i as int, n as int, data@.len() as int);
            }
            let item = read_gui_message_index_item(data, items_base + 32 * i);
            if item.label_offset > nb_size as u64 {
                return Err(GmdError::Truncated);
            }
            let label_off = item.label_offset as usize;
            let label = match find_terminator(namebuf, label_off) {
                None => {
                    return Err(GmdError::MissingTerminator);
                },
                Some(p) => {
                    proof {
                        crate::text::lemma_find_nul_bounds(namebuf@, label_off as int);
                    }
                    vstd::slice::slice_subrange(namebuf, label_off, p)
                },
            };
            if !index_item_hashes_match(label, &item) {
                return Err(GmdError::HashMismatch { index: i as u32 });
            }
            let label_text = match string_from_utf8(vstd::slice::slice_to_vec(label)) {
                None => {
                    return Err(GmdError::InvalidText);
                },
                Some(s) => s,
            };
            if item.message_index as usize >= messages_text.len() {
                return Err(GmdError::MessageIndexOutOfRange { index: item.message_index });
            }
            let message = messages_text[item.message_index as usize].clone();
            messages.push(GuiMessageIndexItem { label: label_text, message });
            i = i + 1;
        }
        Ok(
            GuiMessageFile {
                update_time: header.update_time,
                language_id: header.language_id,
                package_name,
                messages,
            },
        )
    }

    /// Rebuilds the on-disk form: header, package name, one index record
    /// per entry, the 256-slot hash table, then the label and message
    /// buffers. Fails exactly when two labels share a hash-table slot,
    /// which this writer does not support.
    #[verifier::loop_isolation(false)]
    #[verifier::rlimit(60)]
    pub fn save(&self) -> (r: Result<Vec<u8>, GmdError>)
        ensures
            (r is Ok) <==> !spec_label_slots_collide(self.spec_messages()),
            (r matches Ok(out) ==> out@.len() >= 40 && spec_u32_from_le_bytes(
                out@.subrange(0, 4),
            ) == GMD_MAGIC && spec_u32_from_le_bytes(out@.subrange(4, 8)) == GMD_VERSION
                && spec_u32_from_le_bytes(out@.subrange(8, 12)) == self.spec_language_id()
                && spec_u64_from_le_bytes(out@.subrange(12, 20)) == self.spec_update_time()
                && spec_u32_from_le_bytes(out@.subrange(20, 24)) == self.spec_messages().len()
                    as u32),
    {
        let mut label_offsets: Vec<usize> = Vec::new();
        label_offsets.push(0);
        let mut label_buf: Vec<u8> = Vec::new();
        let mut message_buf: Vec<u8> = Vec::new();
        let mut i: usize = 0;
        while i < self.messages.len()
            invariant
                i <= self.spec_messages().len(),
                label_offsets@.len() == i + 1,
            decreases self.spec_messages().len() - i,
        {
            let message = &self.messages[i];
            label_buf.extend_from_slice(message.label.as_str().as_bytes());
            label_buf.push(0);
            label_offsets.push(label_buf.len());
            message_buf.extend_from_slice(message.message.as_str().as_bytes());
            message_buf.push(0);
            i = i + 1;
        }
        let mut hash_table: Vec<u64> = Vec::new();
        let mut k: usize = 0;
        while k < HASH_TABLE_LEN
            invariant
                k <= HASH_TABLE_LEN,
                hash_table@.len() == k,
                forall|t: int| 0 <= t < k ==> hash_table@[t] == 0,
            decreases HASH_TABLE_LEN - k,
        {
            hash_table.push(0);
            k = k + 1;
        }
        let mut index: Vec<RawGuiMessageIndexItem> = Vec::new();
        let mut i: usize = 0;
        while i < self.messages.len()
            invariant
                i <= self.spec_messages().len(),
                index@.len() == i,
                label_offsets@.len() == self.spec_messages().len() + 1,
                hash_table@.len() == HASH_TABLE_LEN,
                forall|t: int|
                    0 <= t < HASH_TABLE_LEN ==> ((#[trigger] hash_table@[t]) != 0 <==> (exists|
                        j: int,
                    |
                        0 <= j < i && (#[trigger] spec_label_hash(
                            vstd::utf8::encode_utf8(self.spec_messages()[j].label@),
                        )) & 0xff == t)),
                forall|a: int, b: int|
                    0 <= a < b < i ==> (#[trigger] spec_label_hash(
                        vstd::utf8::encode_utf8(self.spec_messages()[a].label@),
                    )) & 0xff != (#[trigger] spec_label_hash(
                        vstd::utf8::encode_utf8(self.spec_messages()[b].label@),
                    )) & 0xff,
            decreases self.spec_messages().len() - i,
        {
            let message = &self.messages[i];
            let label_bytes = message.label.as_str().as_bytes();
            let hash = crc32(label_bytes, 0xffff_ffff);
            let hash_a = crc32(label_bytes, hash);
            let hash_b = crc32(label_bytes, hash_a);
            proof {
                assert(label_bytes@ == vstd::utf8::encode_utf8(
                    self.spec_messages()[i as int].label@,
                ));
                assert(hash == spec_label_hash(label_bytes@));
            }
            proof {
                assert(hash & 0xff < 256) by (bit_vector);
            }
            let truncated_hash = (hash & 0xff) as usize;
            if hash_table[truncated_hash] != 0 {
                proof {
                    let j = choose|j: int|
                        0 <= j < i && (#[trigger] spec_label_hash(
                            vstd::utf8::encode_utf8(self.spec_messages()[j].label@),
                        )) & 0xff == truncated_hash as int;
                    assert(spec_label_slots_collide(self.spec_messages()));
                }
                return Err(GmdError::HashCollision);
            }
            hash_table[truncated_hash] = if i != 0 {
                i as u64
            } else {
                0xffff_ffff_ffff_ffffu64
            };
            index.push(
                RawGuiMessageIndexItem {
                    message_index: #[verifier::truncate] (i as u32),
                    hash_a,
                    hash_b,
                    padding: 0xcdcdcdcd,
                    label_offset: label_offsets[i] as u64,
                    hash_link: 0,
                },
            );
            i = i + 1;
        }
        let mut out: Vec<u8> = Vec::new();
        push_u32_le(&mut out, GMD_MAGIC);
        push_u32_le(&mut out, GMD_VERSION);
        push_u32_le(&mut out, self.language_id);
        push_u64_le(&mut out, self.update_time);
        let count = #[verifier::truncate] (self.messages.len() as u32);
        push_u32_le(&mut out, count);
        push_u32_le(&mut out, count);
        push_u32_le(&mut out, #[verifier::truncate] (label_buf.len() as u32));
        push_u32_le(&mut out, #[verifier::truncate] (message_buf.len() as u32));
        push_u32_le(&mut out, #[verifier::truncate] (self.package_name.as_str().len() as u32));
        let ghost header_bytes = out@;
        proof {
            vstd::bytes::lemma_auto_spec_u32_to_from_le_bytes();
            vstd::bytes::lemma_auto_spec_u64_to_from_le_bytes();
            assert(header_bytes.subrange(0, 4) =~= vstd::bytes::spec_u32_to_le_bytes(GMD_MAGIC));
            assert(header_bytes.subrange(4, 8) =~= vstd::bytes::spec_u32_to_le_bytes(GMD_VERSION));
            assert(header_bytes.subrange(8, 12) =~= vstd::bytes::spec_u32_to_le_bytes(
                self.language_id,
            ));
            assert(header_bytes.subrange(12, 20) =~= vstd::bytes::spec_u64_to_le_bytes(
                self.update_time,
            ));
            assert(header_bytes.subrange(20, 24) =~= vstd::bytes::spec_u32_to_le_bytes(count));
            assert(spec_u32_from_le_bytes(header_bytes.subrange(0, 4)) == GMD_MAGIC);
            assert(spec_u32_from_le_bytes(header_bytes.subrange(4, 8)) == GMD_VERSION);
            assert(spec_u32_from_le_bytes(header_bytes.subrange(8, 12)) == self.language_id);
            assert(spec_u64_from_le_bytes(header_bytes.subrange(12, 20)) == self.update_time);
            assert(spec_u32_from_le_bytes(header_bytes.subrange(20, 24)) == count);
        }
        out.extend_from_slice(self.package_name.as_str().as_bytes());
        out.push(0);
        proof {
            assert(out@.subrange(0, 40) =~= header_bytes);
        }
        let mut i: usize = 0;
        while i < index.len()
            invariant
                i <= index@.len(),
                out@.len() >= 40,
                out@.subrange(0, 40) == header_bytes,
            decreases index@.len() - i,
        {
            let ghost pre = out@;
            let item = &index[i];
            push_u32_le(&mut out, item.message_index);
            push_u32_le(&mut out, item.hash_a);
            push_u32_le(&mut out, item.hash_b);
            push_u32_le(&mut out, item.padding);
            push_u64_le(&mut out, item.label_offset);
            push_u64_le(&mut out, item.hash_link);
            proof {
                assert(out@.subrange(0, 40) =~= pre.subrange(0, 40));
            }
            i = i + 1;
        }
        let mut k: usize = 0;
        while k < hash_table.len()
            invariant
                k <= hash_table@.len(),
                out@.len() >= 40,
                out@.subrange(0, 40) == header_bytes,
            decreases hash_table@.len() - k,
        {
            let ghost pre = out@;
            push_u64_le(&mut out, hash_table[k]);
            proof {
                assert(out@.subrange(0, 40) =~= pre.subrange(0, 40));
            }
            k = k + 1;
        }
        let ghost pre = out@;
        out.extend_from_slice(label_buf.as_slice());
        out.extend_from_slice(message_buf.as_slice());
        proof {
            assert(out@.subrange(0, 40) =~= pre.subrange(0, 40));
            lemma_header_prefix_fields(out@, header_bytes);
        }
        Ok(out)
    }
}

/// One 32-byte index record sits wholly inside the declared record
/// region.
proof fn lemma_index_item_fits(base: int, i: int, n: int, len: int)
    by (nonlinear_arith)
    requires
        0 <= i < n,
        0 <= base,
        n * 32 <= len - base,
    ensures
        base + 32 * i + 32 <= len,
{
}

/// Field reads through a 40-byte prefix see that prefix alone.
proof fn lemma_header_prefix_fields(out: Seq<u8>, header: Seq<u8>)
    requires
        header.len() == 40,
        out.len() >= 40,
        out.subrange(0, 40) == header,
    ensures
        out.subrange(0, 4) == header.subrange(0, 4),
        out.subrange(4, 8) == header.subrange(4, 8),
        out.subrange(8, 12) == header.subrange(8, 12),
        out.subrange(12, 20) == header.subrange(12, 20),
        out.subrange(20, 24) == header.subrange(20, 24),
{
    assert(out.subrange(0, 4) =~= header.subrange(0, 4));
    assert(out.subrange(4, 8) =~= header.subrange(4, 8));
    assert(out.subrange(8, 12) =~= header.subrange(8, 12));
    assert(out.subrange(12, 20) =~= header.subrange(12, 20));
    assert(out.subrange(20, 24) =~= header.subrange(20, 24));
}

} // verus!

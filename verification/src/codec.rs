//! The binary form of a vault.
//!
//! A number is written in one byte when it is at most 250, and otherwise as a marker byte
//! (251, 252 or 253) followed by its two, four or eight bytes, lowest first. A text is the
//! number of its UTF-8 bytes followed by those bytes. An entry is its identifier and its
//! three texts. A vault is the number of its entries followed by the entries.

use crate::errors::CryptographyError;
use crate::vault::{distinct_ids, Entry, EntryView, UncryptedVault};
use vstd::bytes::*;
use vstd::prelude::*;
use vstd::slice::*;
use vstd::string::StringExecFns;
use vstd::utf8::*;

verus! {

/// The bytes of a number.
pub open spec fn encode_varint(value: u64) -> Seq<u8> {
    if value <= 250 {
        seq![value as u8]
    } else if value <= 0xFFFF {
        seq![251u8] + spec_u16_to_le_bytes(value as u16)
    } else if value <= 0xFFFF_FFFF {
        seq![252u8] + spec_u32_to_le_bytes(value as u32)
    } else {
        seq![253u8] + spec_u64_to_le_bytes(value)
    }
}

/// The number that `bytes` starts with and the bytes after it, or `None` where `bytes` ends
/// too early or starts with a marker that stands for no 64-bit number. A number written in
/// more bytes than it needs is read all the same.
pub open spec fn decode_varint(bytes: Seq<u8>) -> Option<(u64, Seq<u8>)> {
    if bytes.len() == 0 {
        None
    } else if bytes[0] <= 250 {
        Some((bytes[0] as u64, bytes.skip(1)))
    } else if bytes[0] == 251 && bytes.len() >= 3 {
        Some((spec_u16_from_le_bytes(bytes.subrange(1, 3)) as u64, bytes.skip(3)))
    } else if bytes[0] == 252 && bytes.len() >= 5 {
        Some((spec_u32_from_le_bytes(bytes.subrange(1, 5)) as u64, bytes.skip(5)))
    } else if bytes[0] == 253 && bytes.len() >= 9 {
        Some((spec_u64_from_le_bytes(bytes.subrange(1, 9)), bytes.skip(9)))
    } else {
        None
    }
}

/// The bytes of a text.
pub open spec fn encode_text(text: Seq<char>) -> Seq<u8> {
    encode_varint(encode_utf8(text).len() as u64) + encode_utf8(text)
}

/// The text that `bytes` starts with and the bytes after it, or `None` where the length
/// cannot be read, fewer bytes follow than it announces, or they are not UTF-8.
pub open spec fn decode_text(bytes: Seq<u8>) -> Option<(Seq<char>, Seq<u8>)> {
    match decode_varint(bytes) {
        Some((len, rest)) => if len <= rest.len() && valid_utf8(rest.take(len as int)) {
            Some((decode_utf8(rest.take(len as int)), rest.skip(len as int)))
        } else {
            None
        },
        None => None,
    }
}

/// The bytes of an entry.
pub open spec fn encode_entry(entry: EntryView) -> Seq<u8> {
    encode_varint(entry.id) + encode_text(entry.title) + encode_text(entry.username)
        + encode_text(entry.password)
}

/// The entry that `bytes` starts with and the bytes after it.
pub open spec fn decode_entry(bytes: Seq<u8>) -> Option<(EntryView, Seq<u8>)> {
    match decode_varint(bytes) {
        Some((id, after_id)) => match decode_text(after_id) {
            Some((title, after_title)) => match decode_text(after_title) {
                Some((username, after_username)) => match decode_text(after_username) {
                    Some((password, rest)) => Some(
                        (EntryView { id, title, username, password }, rest),
                    ),
                    None => None,
                },
                None => None,
            },
            None => None,
        },
        None => None,
    }
}

/// The bytes of the entries, one after the other.
pub open spec fn encode_entries(entries: Seq<EntryView>) -> Seq<u8>
    decreases entries.len(),
{
    if entries.len() == 0 {
        Seq::empty()
    } else {
        encode_entry(entries.first()) + encode_entries(entries.drop_first())
    }
}

/// `read` with `done` put in front of the entries it holds.
pub open spec fn after(done: Seq<EntryView>, read: Option<(Seq<EntryView>, Seq<u8>)>) -> Option<
    (Seq<EntryView>, Seq<u8>),
> {
    match read {
        Some((entries, rest)) => Some((done + entries, rest)),
        None => None,
    }
}

/// The `count` entries that `bytes` starts with and the bytes after them.
pub open spec fn decode_entries(bytes: Seq<u8>, count: nat) -> Option<(Seq<EntryView>, Seq<u8>)>
    decreases count,
{
    if count == 0 {
        Some((Seq::empty(), bytes))
    } else {
        match decode_entry(bytes) {
            Some((entry, rest)) => after(seq![entry], decode_entries(rest, (count - 1) as nat)),
            None => None,
        }
    }
}

/// The bytes of a vault.
pub open spec fn encode_vault(entries: Seq<EntryView>) -> Seq<u8> {
    encode_varint(entries.len() as u64) + encode_entries(entries)
}

/// The vault that `bytes` starts with, or `None` where the bytes do not hold one or two of
/// its entries share an identifier. Bytes after the vault are not looked at.
pub open spec fn decode_vault(bytes: Seq<u8>) -> Option<Seq<EntryView>> {
    match decode_varint(bytes) {
        Some((count, rest)) => match decode_entries(rest, count as nat) {
            Some((entries, _)) => if distinct_ids(entries) {
                Some(entries)
            } else {
                None
            },
            None => None,
        },
        None => None,
    }
}

/// The sizes of the texts of `entry` fit in 64 bits.
pub open spec fn entry_encodable(entry: EntryView) -> bool {
    &&& encode_utf8(entry.title).len() <= u64::MAX
    &&& encode_utf8(entry.username).len() <= u64::MAX
    &&& encode_utf8(entry.password).len() <= u64::MAX
}

/// The sizes that the format can express: the number of entries and the number of bytes of
/// each text fit in 64 bits. This holds of every vault in memory.
pub open spec fn encodable(entries: Seq<EntryView>) -> bool {
    &&& entries.len() <= u64::MAX
    &&& forall|i: int| 0 <= i < entries.len() ==> entry_encodable(#[trigger] entries[i])
}

/// A number followed by anything reads back as that number, with what followed left over.
pub proof fn lemma_varint_round_trip(value: u64, tail: Seq<u8>)
    ensures
        decode_varint(encode_varint(value) + tail) == Some((value, tail)),
        1 <= encode_varint(value).len() <= 9,
{
    lemma_auto_spec_u16_to_from_le_bytes();
    lemma_auto_spec_u32_to_from_le_bytes();
    lemma_auto_spec_u64_to_from_le_bytes();
    let bytes = encode_varint(value) + tail;
    if value <= 250 {
        assert(bytes.skip(1) == tail);
    } else if value <= 0xFFFF {
        assert(bytes.subrange(1, 3) == spec_u16_to_le_bytes(value as u16));
        assert(bytes.skip(3) == tail);
    } else if value <= 0xFFFF_FFFF {
        assert(bytes.subrange(1, 5) == spec_u32_to_le_bytes(value as u32));
        assert(bytes.skip(5) == tail);
    } else {
        assert(bytes.subrange(1, 9) == spec_u64_to_le_bytes(value));
        assert(bytes.skip(9) == tail);
    }
}

/// A text followed by anything reads back as that text.
pub proof fn lemma_text_round_trip(text: Seq<char>, tail: Seq<u8>)
    requires
        encode_utf8(text).len() <= u64::MAX,
    ensures
        decode_text(encode_text(text) + tail) == Some((text, tail)),
{
    let body = encode_utf8(text);
    lemma_varint_round_trip(body.len() as u64, body + tail);
    assert(encode_text(text) + tail == encode_varint(body.len() as u64) + (body + tail));
    assert((body + tail).take(body.len() as int) == body);
    assert((body + tail).skip(body.len() as int) == tail);
    encode_utf8_valid_utf8(text);
    encode_utf8_decode_utf8(text);
}

/// An entry followed by anything reads back as that entry.
pub proof fn lemma_entry_round_trip(entry: EntryView, tail: Seq<u8>)
    requires
        entry_encodable(entry),
    ensures
        decode_entry(encode_entry(entry) + tail) == Some((entry, tail)),
{
    let password = encode_text(entry.password) + tail;
    let username = encode_text(entry.username) + password;
    let title = encode_text(entry.title) + username;
    assert(encode_entry(entry) + tail =~= encode_varint(entry.id) + title);
    lemma_varint_round_trip(entry.id, title);
    lemma_text_round_trip(entry.title, username);
    lemma_text_round_trip(entry.username, password);
    lemma_text_round_trip(entry.password, tail);
}

/// Reading entries is reading the first entry and then the others.
proof fn lemma_decode_entries_first(
    bytes: Seq<u8>,
    first: EntryView,
    rest: Seq<u8>,
    others: Seq<EntryView>,
    tail: Seq<u8>,
)
    requires
        decode_entry(bytes) == Some((first, rest)),
        decode_entries(rest, others.len()) == Some((others, tail)),
    ensures
        decode_entries(bytes, others.len() + 1) == Some((seq![first] + others, tail)),
{
}

/// The bytes of entries, followed by anything, are the bytes of the first entry followed by
/// the bytes of the others and by that.
proof fn lemma_encode_entries_first(entries: Seq<EntryView>, tail: Seq<u8>)
    requires
        entries.len() > 0,
    ensures
        encode_entries(entries) + tail == encode_entry(entries.first()) + (encode_entries(
            entries.drop_first(),
        ) + tail),
{
    assert(encode_entries(entries) + tail =~= encode_entry(entries.first()) + (encode_entries(
        entries.drop_first(),
    ) + tail));
}

/// What is left of encodable entries without the first is encodable.
proof fn lemma_encodable_rest(entries: Seq<EntryView>)
    requires
        encodable(entries),
        entries.len() > 0,
    ensures
        entry_encodable(entries.first()),
        encodable(entries.drop_first()),
{
    assert(entry_encodable(entries[0]));
    let others = entries.drop_first();
    assert forall|i: int| 0 <= i < others.len() implies entry_encodable(#[trigger] others[i]) by {
        assert(others[i] == entries[i + 1]);
    }
}

/// Entries followed by anything read back as those entries.
pub proof fn lemma_entries_round_trip(entries: Seq<EntryView>, tail: Seq<u8>)
    requires
        encodable(entries),
    ensures
        decode_entries(encode_entries(entries) + tail, entries.len()) == Some((entries, tail)),
    decreases entries.len(),
{
    if entries.len() == 0 {
        assert(encode_entries(entries) + tail =~= tail);
        assert(entries =~= Seq::<EntryView>::empty());
    } else {
        let first = entries.first();
        let others = entries.drop_first();
        let rest = encode_entries(others) + tail;
        lemma_encodable_rest(entries);
        lemma_entry_round_trip(first, rest);
        lemma_entries_round_trip(others, tail);
        lemma_encode_entries_first(entries, tail);
        lemma_decode_entries_first(encode_entries(entries) + tail, first, rest, others, tail);
        assert(seq![first] + others =~= entries);
    }
}

/// Decoding undoes encoding: the bytes of a vault with unique identifiers, followed by
/// anything, read back as that vault.
pub proof fn lemma_decode_inverts_encode(entries: Seq<EntryView>, tail: Seq<u8>)
    requires
        distinct_ids(entries),
        encodable(entries),
    ensures
        decode_vault(encode_vault(entries) + tail) == Some(entries),
{
    let body = encode_entries(entries) + tail;
    assert(encode_vault(entries) + tail == encode_varint(entries.len() as u64) + body);
    lemma_varint_round_trip(entries.len() as u64, body);
    lemma_entries_round_trip(entries, tail);
}

/// Encoding, decoding and encoding again gives the bytes of the first encoding.
pub proof fn lemma_encode_is_stable(entries: Seq<EntryView>)
    requires
        distinct_ids(entries),
        encodable(entries),
    ensures
        decode_vault(encode_vault(entries)) == Some(entries),
        encode_vault(decode_vault(encode_vault(entries))->Some_0) == encode_vault(entries),
{
    lemma_decode_inverts_encode(entries, Seq::empty());
    assert(encode_vault(entries) + Seq::<u8>::empty() == encode_vault(entries));
}

/// The bytes of a list of entries end with the bytes of its last entry.
pub proof fn lemma_encode_entries_push(entries: Seq<EntryView>, entry: EntryView)
    ensures
        encode_entries(entries.push(entry)) == encode_entries(entries) + encode_entry(entry),
    decreases entries.len(),
{
    let all = entries.push(entry);
    if entries.len() == 0 {
        assert(all.drop_first() == Seq::<EntryView>::empty());
        assert(encode_entries(all.drop_first()) == Seq::<u8>::empty());
        assert(encode_entries(all) == encode_entry(entry) + Seq::<u8>::empty());
    } else {
        lemma_encode_entries_push(entries.drop_first(), entry);
        assert(all.drop_first() == entries.drop_first().push(entry));
        assert(all.first() == entries.first());
        assert(encode_entries(all) == encode_entry(entries.first()) + (encode_entries(
            entries.drop_first(),
        ) + encode_entry(entry)));
    }
}

/// Reading `count + 1` entries is reading `count` entries and then one more.
pub proof fn lemma_decode_entries_step(bytes: Seq<u8>, count: nat)
    ensures
        decode_entries(bytes, count + 1) == match decode_entries(bytes, count) {
            Some((entries, rest)) => match decode_entry(rest) {
                Some((entry, tail)) => Some((entries.push(entry), tail)),
                None => None,
            },
            None => None,
        },
    decreases count,
{
    reveal_with_fuel(decode_entries, 2);
    if count == 0 {
        match decode_entry(bytes) {
            Some((entry, tail)) => {
                assert(seq![entry] + Seq::<EntryView>::empty() == Seq::<EntryView>::empty().push(
                    entry,
                ));
            },
            None => {},
        }
    } else {
        match decode_entry(bytes) {
            Some((first, rest)) => {
                lemma_decode_entries_step(rest, (count - 1) as nat);
                match decode_entries(rest, (count - 1) as nat) {
                    Some((entries, middle)) => {
                        match decode_entry(middle) {
                            Some((entry, tail)) => {
                                assert(seq![first] + entries.push(entry) == (seq![first]
                                    + entries).push(entry));
                            },
                            None => {},
                        }
                    },
                    None => {},
                }
            },
            None => {},
        }
    }
}

/// A text takes at least one byte.
proof fn lemma_text_needs_bytes(bytes: Seq<u8>)
    requires
        decode_text(bytes) is Some,
    ensures
        decode_text(bytes)->Some_0.1.len() + 1 <= bytes.len(),
{
}

/// An entry takes at least four bytes.
proof fn lemma_entry_needs_bytes(bytes: Seq<u8>)
    requires
        decode_entry(bytes) is Some,
    ensures
        decode_entry(bytes)->Some_0.1.len() + 4 <= bytes.len(),
{
    let (id, after_id) = decode_varint(bytes)->Some_0;
    let (title, after_title) = decode_text(after_id)->Some_0;
    let (username, after_username) = decode_text(after_title)->Some_0;
    lemma_text_needs_bytes(after_id);
    lemma_text_needs_bytes(after_title);
    lemma_text_needs_bytes(after_username);
}

/// Every entry takes at least four bytes, so `count` entries cannot be read from fewer.
pub proof fn lemma_decode_entries_needs_bytes(bytes: Seq<u8>, count: nat)
    requires
        decode_entries(bytes, count) is Some,
    ensures
        ({
            let (entries, rest) = decode_entries(bytes, count)->Some_0;
            4 * count + rest.len() <= bytes.len() && entries.len() == count
        }),
    decreases count,
{
    if count > 0 {
        let (entry, rest) = decode_entry(bytes)->Some_0;
        lemma_entry_needs_bytes(bytes);
        lemma_decode_entries_needs_bytes(rest, (count - 1) as nat);
    }
}

/// `String::from_utf8` of the standard library: the text that the bytes encode, and `None`
/// exactly where they are not UTF-8.
#[verifier::external_body]
fn text_from_utf8(bytes: Vec<u8>) -> (text: Option<String>)
    ensures
        text is Some <==> valid_utf8(bytes@),
        text is Some ==> text->Some_0@ == decode_utf8(bytes@),
{
    String::from_utf8(bytes).ok()
}

/// Appends the bytes of `value` to `out`.
pub fn write_varint(out: &mut Vec<u8>, value: u64)
    ensures
        final(out)@ == old(out)@ + encode_varint(value),
{
    if value <= 250 {
        out.push(value as u8);
        assert(out@ == old(out)@ + encode_varint(value));
    } else if value <= 0xFFFF {
        out.push(251u8);
        let mut bytes = u16_to_le_bytes(value as u16);
        out.append(&mut bytes);
        assert(out@ == old(out)@ + encode_varint(value));
    } else if value <= 0xFFFF_FFFF {
        out.push(252u8);
        let mut bytes = u32_to_le_bytes(value as u32);
        out.append(&mut bytes);
        assert(out@ == old(out)@ + encode_varint(value));
    } else {
        out.push(253u8);
        let mut bytes = u64_to_le_bytes(value);
        out.append(&mut bytes);
        assert(out@ == old(out)@ + encode_varint(value));
    }
}

/// Reads the number that starts at `pos`, and says where the next item starts.
pub fn read_varint(data: &[u8], pos: usize) -> (read: Option<(u64, usize)>)
    requires
        pos <= data.len(),
    ensures
        match read {
            Some((value, next)) => pos < next <= data.len() && decode_varint(
                data@.skip(pos as int),
            ) == Some((value, data@.skip(next as int))),
            None => decode_varint(data@.skip(pos as int)) is None,
        },
{
    let ghost bytes = data@.skip(pos as int);
    let left = data.len() - pos;
    if left == 0 {
        return None;
    }
    let marker = data[pos];
    assert(marker == bytes[0]);
    if marker <= 250 {
        assert(bytes.skip(1) == data@.skip(pos + 1));
        Some((marker as u64, pos + 1))
    } else if marker == 251 && left >= 3 {
        let value = u16_from_le_bytes(slice_subrange(data, pos + 1, pos + 3));
        assert(bytes.subrange(1, 3) == data@.subrange(pos + 1, pos + 3));
        assert(bytes.skip(3) == data@.skip(pos + 3));
        Some((value as u64, pos + 3))
    } else if marker == 252 && left >= 5 {
        let value = u32_from_le_bytes(slice_subrange(data, pos + 1, pos + 5));
        assert(bytes.subrange(1, 5) == data@.subrange(pos + 1, pos + 5));
        assert(bytes.skip(5) == data@.skip(pos + 5));
        Some((value as u64, pos + 5))
    } else if marker == 253 && left >= 9 {
        let value = u64_from_le_bytes(slice_subrange(data, pos + 1, pos + 9));
        assert(bytes.subrange(1, 9) == data@.subrange(pos + 1, pos + 9));
        assert(bytes.skip(9) == data@.skip(pos + 9));
        Some((value, pos + 9))
    } else {
        None
    }
}

/// Appends the bytes of `text` to `out`.
pub fn write_text(out: &mut Vec<u8>, text: &str)
    ensures
        final(out)@ == old(out)@ + encode_text(text@),
        encode_utf8(text@).len() <= u64::MAX,
{
    let bytes = text.as_bytes();
    write_varint(out, bytes.len() as u64);
    let mut body = slice_to_vec(bytes);
    out.append(&mut body);
    assert(out@ == old(out)@ + encode_text(text@));
}

/// Reads the text that starts at `pos`, and says where the next item starts.
pub fn read_text(data: &[u8], pos: usize) -> (read: Option<(String, usize)>)
    requires
        pos <= data.len(),
    ensures
        match read {
            Some((text, next)) => pos < next <= data.len() && decode_text(data@.skip(pos as int))
                == Some((text@, data@.skip(next as int))),
            None => decode_text(data@.skip(pos as int)) is None,
        },
{
    match read_varint(data, pos) {
        Some((len, start)) => {
            if len > (data.len() - start) as u64 {
                return None;
            }
            let end = start + len as usize;
            let ghost rest = data@.skip(start as int);
            assert(rest.take(len as int) == data@.subrange(start as int, end as int));
            assert(rest.skip(len as int) == data@.skip(end as int));
            match text_from_utf8(slice_to_vec(slice_subrange(data, start, end))) {
                Some(text) => Some((text, end)),
                None => None,
            }
        },
        None => None,
    }
}

/// Appends the bytes of `entry` to `out`.
pub fn write_entry(out: &mut Vec<u8>, entry: &Entry)
    ensures
        final(out)@ == old(out)@ + encode_entry(entry@),
        entry_encodable(entry@),
{
    write_varint(out, entry.id());
    write_text(out, entry.title().as_str());
    write_text(out, entry.username().as_str());
    write_text(out, entry.password().as_str());
    assert(out@ == old(out)@ + encode_entry(entry@));
}

/// Reads the entry that starts at `pos`, and says where the next item starts.
pub fn read_entry(data: &[u8], pos: usize) -> (read: Option<(Entry, usize)>)
    requires
        pos <= data.len(),
    ensures
        match read {
            Some((entry, next)) => pos + 4 <= next <= data.len() && decode_entry(
                data@.skip(pos as int),
            ) == Some((entry@, data@.skip(next as int))),
            None => decode_entry(data@.skip(pos as int)) is None,
        },
{
    let (id, after_id) = match read_varint(data, pos) {
        Some(read) => read,
        None => { return None; },
    };
    let (title, after_title) = match read_text(data, after_id) {
        Some(read) => read,
        None => { return None; },
    };
    let (username, after_username) = match read_text(data, after_title) {
        Some(read) => read,
        None => { return None; },
    };
    let (password, next) = match read_text(data, after_username) {
        Some(read) => read,
        None => { return None; },
    };
    Some((Entry::new(id, title, username, password), next))
}

impl UncryptedVault {
    /// The bytes of the vault. Encoding cannot fail.
    pub fn as_bytes(&self) -> (bytes: Result<Vec<u8>, CryptographyError>)
        ensures
            bytes is Ok,
            bytes->Ok_0@ == encode_vault(self@),
            distinct_ids(self@),
            encodable(self@),
    {
        let entries = self.get_entries();
        let mut out: Vec<u8> = Vec::new();
        write_varint(&mut out, entries.len() as u64);
        let ghost head = out@;
        let mut i: usize = 0;
        while i < entries.len()
            invariant
                i <= entries.len(),
                entries@.map_values(|e: Entry| e@) == self@,
                head == encode_varint(self@.len() as u64),
                out@ == head + encode_entries(self@.take(i as int)),
                encodable(self@.take(i as int)),
            decreases entries.len() - i,
        {
            let ghost done = self@.take(i as int);
            write_entry(&mut out, &entries[i]);
            proof {
                assert(self@.take(i + 1) == done.push(self@[i as int]));
                lemma_encode_entries_push(done, self@[i as int]);
                assert forall|k: int| 0 <= k < done.push(self@[i as int]).len() implies
                    entry_encodable(#[trigger] done.push(self@[i as int])[k]) by {
                    if k < done.len() {
                        assert(done.push(self@[i as int])[k] == done[k]);
                    }
                }
            }
            i = i + 1;
        }
        assert(self@.take(i as int) == self@);
        Ok(out)
    }

    /// Reads a vault from the start of `data`. Bytes after the vault are not looked at.
    /// Fails where `data` does not hold a vault, or holds one in which an identifier occurs
    /// twice.
    pub fn decode(data: &[u8]) -> (vault: Result<Self, CryptographyError>)
        ensures
            match vault {
                Ok(vault) => decode_vault(data@) == Some(vault@),
                Err(error) => decode_vault(data@) is None
                    && error is BinaryDecodingError,
            },
    {
        assert(data@.skip(0) == data@);
        let (count, start) = match read_varint(data, 0) {
            Some(read) => read,
            None => {
                return Err(
                    CryptographyError::BinaryDecodingError(
                        String::from_str("the number of entries cannot be read"),
                    ),
                );
            },
        };
        let ghost body = data@.skip(start as int);
        if count > (data.len() - start) as u64 {
            proof {
                if decode_entries(body, count as nat) is Some {
                    lemma_decode_entries_needs_bytes(body, count as nat);
                }
            }
            return Err(
                CryptographyError::BinaryDecodingError(
                    String::from_str("fewer entries than announced"),
                ),
            );
        }
        let mut entries: Vec<Entry> = Vec::new();
        let mut pos = start;
        let mut i: u64 = 0;
        while i < count
            invariant
                i <= count,
                start <= pos <= data.len(),
                decode_varint(data@) == Some((count, body)),
                decode_entries(body, i as nat) == Some(
                    (entries@.map_values(|e: Entry| e@), data@.skip(pos as int)),
                ),
            decreases count - i,
        {
            proof {
                lemma_decode_entries_step(body, i as nat);
            }
            match read_entry(data, pos) {
                Some((entry, next)) => {
                    proof {
                        assert(entries@.push(entry).map_values(|e: Entry| e@)
                            == entries@.map_values(|e: Entry| e@).push(entry@));
                    }
                    entries.push(entry);
                    pos = next;
                },
                None => {
                    proof {
                        lemma_decode_entries_prefix(body, (i + 1) as nat, count as nat);
                    }
                    return Err(
                        CryptographyError::BinaryDecodingError(
                            String::from_str("an entry cannot be read"),
                        ),
                    );
                },
            }
            i = i + 1;
        }
        match UncryptedVault::from_entries(entries) {
            Some(vault) => Ok(vault),
            None => Err(
                CryptographyError::BinaryDecodingError(
                    String::from_str("two entries share an identifier"),
                ),
            ),
        }
    }
}

/// Where fewer entries cannot be read, more cannot be read either.
pub proof fn lemma_decode_entries_prefix(bytes: Seq<u8>, fewer: nat, count: nat)
    requires
        fewer <= count,
        decode_entries(bytes, fewer) is None,
    ensures
        decode_entries(bytes, count) is None,
    decreases count - fewer,
{
    if fewer < count {
        lemma_decode_entries_step(bytes, fewer);
        lemma_decode_entries_prefix(bytes, fewer + 1, count);
    }
}

} // verus!

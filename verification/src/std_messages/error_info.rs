//! `ErrorInfo`: the cause of an error, with structured details.

use vstd::prelude::*;
use std::collections::HashMap;
use prost::encoding::WireType;
use prost_types::Any;
use crate::error::DecodeFailure;
use crate::error::EncodeFailure;
use crate::message::decode;
use crate::message::decoded;
use crate::message::encode;
use crate::message::lemma_parsed_plain_text;
use crate::message::lemma_parsed_repeated;
use crate::message::lemma_read_nested_of;
use crate::message::lemma_repeated_item_len;
use crate::message::merge_all;
use crate::message::models;
use crate::message::nested_payload;
use crate::message::parsed;
use crate::message::repeated_nested;
use crate::message::write_repeated_nested;
use crate::message::Message;
use crate::message::RoundTrip;
use crate::wire::lemma_read_text_of;
use crate::wire::plain_text_field;
use crate::wire::read_length_delimited;
use crate::wire::read_text;
use crate::wire::skip_unknown;
use crate::wire::skipped;
use crate::wire::take_length_delimited;
use crate::wire::take_text;
use crate::wire::wire_number;
use crate::wire::write_plain_text;

verus! {

/// One entry of the metadata: a key and the text that stands under it.
#[derive(Clone, Debug)]
pub struct MetadataEntry {
    /// The key.
    pub key: String,
    /// The text under the key.
    pub value: String,
}

/// What a `MetadataEntry` stands for.
pub struct MetadataEntryView {
    pub key: Seq<char>,
    pub value: Seq<char>,
}

impl View for MetadataEntry {
    type V = MetadataEntryView;

    open spec fn view(&self) -> MetadataEntryView {
        MetadataEntryView {
            key: self.key@,
            value: self.value@,
        }
    }
}

impl Message for MetadataEntry {
    type Model = MetadataEntryView;

    open spec fn model(&self) -> MetadataEntryView {
        self@
    }

    open spec fn blank() -> MetadataEntryView {
        MetadataEntryView {
            key: Seq::empty(),
            value: Seq::empty(),
        }
    }

    open spec fn merged(m: MetadataEntryView, tag: u32, wire: WireType, bytes: Seq<u8>) -> Option<
        (MetadataEntryView, int),
    > {
        if tag == 1 {
            match read_text(wire, bytes) {
                Some((text, n)) => Some((MetadataEntryView { key: text, ..m }, n)),
                None => None,
            }
        } else if tag == 2 {
            match read_text(wire, bytes) {
                Some((text, n)) => Some((MetadataEntryView { value: text, ..m }, n)),
                None => None,
            }
        } else {
            match skipped(wire_number(wire), tag, bytes) {
                Some(n) => Some((m, n)),
                None => None,
            }
        }
    }

    open spec fn encoded(m: MetadataEntryView) -> Seq<u8> {
        plain_text_field(1, m.key) + plain_text_field(2, m.value)
    }

    fn new_blank() -> (r: Self) {
        MetadataEntry {
            key: String::new(),
            value: String::new(),
        }
    }

    fn merge_field<'a>(&mut self, tag: u32, wire: WireType, buf: &'a [u8]) -> (r: Result<
        &'a [u8],
        DecodeFailure,
    >) {
        if tag == 1 {
            let (text, rest) = take_text(wire, buf)?;
            self.key = text;
            Ok(rest)
        } else if tag == 2 {
            let (text, rest) = take_text(wire, buf)?;
            self.value = text;
            Ok(rest)
        } else {
            skip_unknown(wire, tag, buf)
        }
    }

    fn encode_raw(&self, buf: &mut Vec<u8>) {
        write_plain_text(1, self.key.as_str(), buf);
        write_plain_text(2, self.value.as_str(), buf);
        assert(final(buf)@ =~= old(buf)@ + Self::encoded(self@));
    }
}

impl RoundTrip for MetadataEntry {
    proof fn lemma_round_trip(m: MetadataEntryView) {
        let end = Seq::<u8>::empty();
        let rest1 = plain_text_field(2, m.value) + end;
        let m0 = Self::blank();
        let m1 = MetadataEntryView { key: m.key, ..m0 };
        if m.key.len() > 0 {
            lemma_read_text_of(m.key, rest1);
        } else {
            assert(m.key =~= Seq::empty());
        }
        lemma_parsed_plain_text::<Self>(1, m.key, rest1, m0, m1);
        if m.value.len() > 0 {
            lemma_read_text_of(m.value, end);
        } else {
            assert(m.value =~= Seq::empty());
        }
        lemma_parsed_plain_text::<Self>(2, m.value, end, m1, m);
        assert(Self::encoded(m) =~= plain_text_field(1, m.key) + rest1);
    }
}

/// The texts that a map of metadata holds under its keys.
pub uninterp spec fn metadata_entries(map: HashMap<String, String>) -> Map<Seq<char>, Seq<char>>;

/// The metadata that holds nothing.
pub open spec fn empty_metadata() -> Map<Seq<char>, Seq<char>> {
    Map::empty()
}

/// Whether the metadata holds nothing.
pub open spec fn holds_nothing(map: Map<Seq<char>, Seq<char>>) -> bool {
    forall|key: Seq<char>| !map.contains_key(key)
}

/// Whether `entries` lists what `map` holds: every entry is in the map, no
/// key comes twice, and every key of the map has its entry.
pub open spec fn lists(entries: Seq<MetadataEntryView>, map: Map<Seq<char>, Seq<char>>) -> bool {
    &&& forall|i: int|
        0 <= i < entries.len() ==> map.contains_pair(
            (#[trigger] entries[i]).key,
            entries[i].value,
        )
    &&& forall|i: int, j: int|
        0 <= i < j < entries.len() ==> (#[trigger] entries[i]).key != (#[trigger] entries[j]).key
    &&& forall|key: Seq<char>| #[trigger]
        map.contains_key(key) ==> exists|i: int|
            0 <= i < entries.len() && (#[trigger] entries[i]).key == key
}

/// The map that entries make when they are put into an empty map one after
/// another; of two entries with one key the later one stays.
pub open spec fn map_of(entries: Seq<MetadataEntryView>) -> Map<Seq<char>, Seq<char>> {
    entries.fold_left(
        empty_metadata(),
        |map: Map<Seq<char>, Seq<char>>, entry: MetadataEntryView|
            map.insert(entry.key, entry.value),
    )
}

/// Entries that list a map make that map.
pub proof fn lemma_map_of_listing(entries: Seq<MetadataEntryView>, map: Map<Seq<char>, Seq<char>>)
    requires
        lists(entries, map),
    ensures
        map_of(entries) == map,
    decreases entries.len(),
{
    if entries.len() == 0 {
        assert(map =~= empty_metadata()) by {
            assert forall|key: Seq<char>| !map.contains_key(key) by {
                if map.contains_key(key) {
                    let i = choose|i: int| 0 <= i < entries.len() && (#[trigger] entries[i]).key
                        == key;
                }
            }
        }
    } else {
        let init = entries.drop_last();
        let last = entries.last();
        let rest = map.remove(last.key);
        assert(lists(init, rest)) by {
            assert forall|i: int| 0 <= i < init.len() implies rest.contains_pair(
                (#[trigger] init[i]).key,
                init[i].value,
            ) by {
                assert(init[i] == entries[i]);
                assert(entries[entries.len() - 1] == last);
            }
            assert forall|i: int, j: int| 0 <= i < j < init.len() implies (#[trigger] init[i]).key
                != (#[trigger] init[j]).key by {
                assert(init[i] == entries[i]);
                assert(init[j] == entries[j]);
            }
            assert forall|key: Seq<char>| #[trigger] rest.contains_key(key) implies exists|i: int|
                0 <= i < init.len() && (#[trigger] init[i]).key == key by {
                assert(map.contains_key(key));
                let i = choose|i: int| 0 <= i < entries.len() && (#[trigger] entries[i]).key
                    == key;
                assert(i < init.len());
                assert(init[i] == entries[i]);
            }
        }
        lemma_map_of_listing(init, rest);
        assert(entries[entries.len() - 1] == last);
        assert(map.contains_pair(last.key, last.value));
        assert(rest.insert(last.key, last.value) =~= map);
    }
}

/// `HashMap::new`: a map that holds nothing.
#[verifier::external_body]
pub(crate) fn new_metadata() -> (r: HashMap<String, String>)
    ensures
        metadata_entries(r) == empty_metadata(),
{
    HashMap::new()
}

/// `HashMap::insert`: afterwards the map holds `value` under `key`, and
/// under every other key what it held before.
#[verifier::external_body]
pub(crate) fn insert_metadata(map: &mut HashMap<String, String>, key: String, value: String)
    ensures
        metadata_entries(*final(map)) == metadata_entries(*old(map)).insert(key@, value@),
{
    map.insert(key, value);
}

/// `HashMap::is_empty`: whether the map holds nothing.
#[verifier::external_body]
pub(crate) fn metadata_is_empty(map: &HashMap<String, String>) -> (r: bool)
    ensures
        r == holds_nothing(metadata_entries(*map)),
{
    map.is_empty()
}

/// `HashMap::iter`: the entries of the map, each of them once, in the order
/// in which the map hands them out, which is not determined.
#[verifier::external_body]
pub(crate) fn list_metadata(map: &HashMap<String, String>) -> (entries: Vec<MetadataEntry>)
    ensures
        lists(models::<MetadataEntry>(entries@), metadata_entries(*map)),
{
    map.iter()
        .map(|(key, value)| MetadataEntry { key: key.clone(), value: value.clone() })
        .collect()
}

/// The wire record of an `ErrorInfo`: the two texts and the entries of the
/// metadata in the order in which they stand on the wire.
pub struct ErrorInfoWire {
    pub reason: String,
    pub domain: String,
    pub metadata: Vec<MetadataEntry>,
}

/// What an `ErrorInfoWire` stands for.
pub struct ErrorInfoWireView {
    pub reason: Seq<char>,
    pub domain: Seq<char>,
    pub metadata: Seq<MetadataEntryView>,
}

impl View for ErrorInfoWire {
    type V = ErrorInfoWireView;

    open spec fn view(&self) -> ErrorInfoWireView {
        ErrorInfoWireView {
            reason: self.reason@,
            domain: self.domain@,
            metadata: models::<MetadataEntry>(self.metadata@),
        }
    }
}

/// The value with one more entry at the end.
pub open spec fn with_entry(m: ErrorInfoWireView, entry: MetadataEntryView) -> ErrorInfoWireView {
    ErrorInfoWireView { metadata: m.metadata.push(entry), ..m }
}

impl Message for ErrorInfoWire {
    type Model = ErrorInfoWireView;

    open spec fn model(&self) -> ErrorInfoWireView {
        self@
    }

    open spec fn blank() -> ErrorInfoWireView {
        ErrorInfoWireView { reason: Seq::empty(), domain: Seq::empty(), metadata: Seq::empty() }
    }

    /// The third field is read as a length-delimited entry whatever wire
    /// type its key names.
    open spec fn merged(m: ErrorInfoWireView, tag: u32, wire: WireType, bytes: Seq<u8>) -> Option<
        (ErrorInfoWireView, int),
    > {
        if tag == 1 {
            match read_text(wire, bytes) {
                Some((text, n)) => Some((ErrorInfoWireView { reason: text, ..m }, n)),
                None => None,
            }
        } else if tag == 2 {
            match read_text(wire, bytes) {
                Some((text, n)) => Some((ErrorInfoWireView { domain: text, ..m }, n)),
                None => None,
            }
        } else if tag == 3 {
            match read_length_delimited(bytes) {
                Some((payload, n)) => match parsed::<MetadataEntry>(
                    payload,
                    MetadataEntry::blank(),
                ) {
                    Some(entry) => Some((with_entry(m, entry), n)),
                    None => None,
                },
                None => None,
            }
        } else {
            match skipped(wire_number(wire), tag, bytes) {
                Some(n) => Some((m, n)),
                None => None,
            }
        }
    }

    open spec fn encoded(m: ErrorInfoWireView) -> Seq<u8> {
        plain_text_field(1, m.reason) + plain_text_field(2, m.domain) + repeated_nested::<
            MetadataEntry,
        >(3, m.metadata)
    }

    fn new_blank() -> (r: Self) {
        let r = ErrorInfoWire {
            reason: String::new(),
            domain: String::new(),
            metadata: Vec::new(),
        };
        assert(r@.metadata =~= Seq::empty());
        r
    }

    fn merge_field<'a>(&mut self, tag: u32, wire: WireType, buf: &'a [u8]) -> (r: Result<
        &'a [u8],
        DecodeFailure,
    >) {
        if tag == 1 {
            let (text, rest) = take_text(wire, buf)?;
            self.reason = text;
            Ok(rest)
        } else if tag == 2 {
            let (text, rest) = take_text(wire, buf)?;
            self.domain = text;
            Ok(rest)
        } else if tag == 3 {
            let (payload, rest) = take_length_delimited(buf)?;
            let mut entry = MetadataEntry::new_blank();
            merge_all(&mut entry, payload)?;
            self.metadata.push(entry);
            assert(self@.metadata =~= old(self)@.metadata.push(entry@));
            Ok(rest)
        } else {
            skip_unknown(wire, tag, buf)
        }
    }

    fn encode_raw(&self, buf: &mut Vec<u8>) {
        write_plain_text(1, self.reason.as_str(), buf);
        write_plain_text(2, self.domain.as_str(), buf);
        write_repeated_nested(3, &self.metadata, buf);
        assert(final(buf)@ =~= old(buf)@ + Self::encoded(self@));
    }
}

/// Entries that are added one after another to a value make its metadata
/// longer by the entries.
proof fn lemma_fold_entries(entries: Seq<MetadataEntryView>, start: ErrorInfoWireView)
    ensures
        entries.fold_left(
            start,
            |m: ErrorInfoWireView, entry: MetadataEntryView| with_entry(m, entry),
        ) == (ErrorInfoWireView { metadata: start.metadata + entries, ..start }),
    decreases entries.len(),
{
    if entries.len() == 0 {
        assert(start.metadata + entries =~= start.metadata);
    } else {
        lemma_fold_entries(entries.drop_last(), start);
        assert(start.metadata + entries =~= (start.metadata + entries.drop_last()).push(
            entries.last(),
        ));
    }
}

impl RoundTrip for ErrorInfoWire {
    proof fn lemma_round_trip(m: ErrorInfoWireView) {
        let end = Seq::<u8>::empty();
        let payload = nested_payload::<MetadataEntry>();
        let step = |before: ErrorInfoWireView, entry: MetadataEntryView| with_entry(before, entry);
        let rest2 = repeated_nested::<MetadataEntry>(3, m.metadata) + end;
        let rest1 = plain_text_field(2, m.domain) + rest2;
        let m0 = Self::blank();
        let m1 = ErrorInfoWireView { reason: m.reason, ..m0 };
        let m2 = ErrorInfoWireView { domain: m.domain, ..m1 };
        if m.reason.len() > 0 {
            lemma_read_text_of(m.reason, rest1);
        } else {
            assert(m.reason =~= Seq::empty());
        }
        lemma_parsed_plain_text::<Self>(1, m.reason, rest1, m0, m1);
        if m.domain.len() > 0 {
            lemma_read_text_of(m.domain, rest2);
        } else {
            assert(m.domain =~= Seq::empty());
        }
        lemma_parsed_plain_text::<Self>(2, m.domain, rest2, m1, m2);
        assert forall|before: ErrorInfoWireView, i: int, suffix: Seq<u8>|
            0 <= i < m.metadata.len() implies #[trigger] Self::merged(
            before,
            3,
            WireType::LengthDelimited,
            payload(m.metadata[i]) + suffix,
        ) == Some((step(before, m.metadata[i]), payload(m.metadata[i]).len() as int)) by {
            lemma_repeated_item_len(3, WireType::LengthDelimited, m.metadata, payload, i);
            lemma_read_nested_of::<MetadataEntry>(m.metadata[i], suffix);
        }
        lemma_parsed_repeated::<Self, MetadataEntryView>(
            3,
            WireType::LengthDelimited,
            m.metadata,
            payload,
            step,
            end,
            m2,
        );
        lemma_fold_entries(m.metadata, m2);
        assert(m2.metadata + m.metadata =~= m.metadata);
        assert(Self::encoded(m) =~= plain_text_field(1, m.reason) + rest1);
    }
}

/// The cause of an error: a reason, the domain that the reason belongs to,
/// and further details under keys.
#[derive(Clone, Debug)]
pub struct ErrorInfo {
    /// The reason of the error.
    pub reason: String,
    /// The logical grouping to which the reason belongs.
    pub domain: String,
    /// Additional structured details about this error.
    pub metadata: HashMap<String, String>,
}

/// What an `ErrorInfo` stands for.
pub struct ErrorInfoView {
    pub reason: Seq<char>,
    pub domain: Seq<char>,
    pub metadata: Map<Seq<char>, Seq<char>>,
}

impl ErrorInfoView {
    /// Whether both texts are empty and there is no metadata.
    pub open spec fn is_empty(self) -> bool {
        self.reason.len() == 0 && self.domain.len() == 0 && holds_nothing(self.metadata)
    }
}

impl View for ErrorInfo {
    type V = ErrorInfoView;

    open spec fn view(&self) -> ErrorInfoView {
        ErrorInfoView {
            reason: self.reason@,
            domain: self.domain@,
            metadata: metadata_entries(self.metadata),
        }
    }
}

impl ErrorInfo {
    /// The type identifier of this kind.
    pub const TYPE_URL: &'static str = "type.googleapis.com/google.rpc.ErrorInfo";

    /// The wire record of a value whose metadata is listed by `entries`.
    pub open spec fn wire_form(
        v: ErrorInfoView,
        entries: Seq<MetadataEntryView>,
    ) -> ErrorInfoWireView {
        ErrorInfoWireView { reason: v.reason, domain: v.domain, metadata: entries }
    }

    /// Whether `bytes` are bytes of a value: those of its wire record, with
    /// the entries of the metadata in one order or another.
    pub open spec fn encodes(v: ErrorInfoView, bytes: Seq<u8>) -> bool {
        exists|entries: Seq<MetadataEntryView>| #[trigger]
            lists(entries, v.metadata) && bytes == ErrorInfoWire::encoded(
                Self::wire_form(v, entries),
            )
    }

    /// The value that bytes decode to: that of the wire record they hold,
    /// its entries put into a map one after another.
    pub open spec fn read(bytes: Seq<u8>) -> Option<ErrorInfoView> {
        match decoded::<ErrorInfoWire>(bytes) {
            Some(w) => Some(
                ErrorInfoView { reason: w.reason, domain: w.domain, metadata: map_of(w.metadata) },
            ),
            None => None,
        }
    }

    /// Decoding undoes encoding: bytes of a value, fewer than 2^64, decode
    /// to the value, whatever the order of the entries in them.
    pub proof fn lemma_round_trip(v: ErrorInfoView, bytes: Seq<u8>)
        requires
            Self::encodes(v, bytes),
            bytes.len() <= u64::MAX,
        ensures
            Self::read(bytes) == Some(v),
    {
        let entries = choose|entries: Seq<MetadataEntryView>| #[trigger]
            lists(entries, v.metadata) && bytes == ErrorInfoWire::encoded(
                Self::wire_form(v, entries),
            );
        ErrorInfoWire::lemma_round_trip(Self::wire_form(v, entries));
        lemma_map_of_listing(entries, v.metadata);
    }

    /// A record of the given texts and metadata.
    pub fn new(reason: &str, domain: &str, metadata: HashMap<String, String>) -> (r: Self)
        ensures
            r@ == (ErrorInfoView {
                reason: reason@,
                domain: domain@,
                metadata: metadata_entries(metadata),
            }),
    {
        ErrorInfo { reason: reason.to_owned(), domain: domain.to_owned(), metadata }
    }

    /// A record of empty texts and no metadata.
    pub fn empty() -> (r: Self)
        ensures
            r@ == (ErrorInfoView {
                reason: Seq::empty(),
                domain: Seq::empty(),
                metadata: empty_metadata(),
            }),
    {
        ErrorInfo { reason: String::new(), domain: String::new(), metadata: new_metadata() }
    }

    /// A record of the given texts and metadata.
    pub fn with_data(reason: &str, domain: &str, metadata: HashMap<String, String>) -> (r: Self)
        ensures
            r@ == (ErrorInfoView {
                reason: reason@,
                domain: domain@,
                metadata: metadata_entries(metadata),
            }),
    {
        Self::new(reason, domain, metadata)
    }

    /// Whether both texts are empty and there is no metadata.
    pub fn is_empty(&self) -> (r: bool)
        ensures
            r == self@.is_empty(),
    {
        self.reason.as_str().is_empty() && self.domain.as_str().is_empty() && metadata_is_empty(
            &self.metadata,
        )
    }

    /// The blob of this record: the type identifier of the kind and bytes
    /// of the record, with the entries of the metadata in the order in which
    /// the map hands them out. The payload decodes to the record again.
    pub fn to_any(&self) -> (any: Any)
        ensures
            any.type_url@ == Self::TYPE_URL@,
            Self::encodes(self@, any.value@),
            Self::read(any.value@) == Some(self@),
    {
        let entries = list_metadata(&self.metadata);
        let wire = ErrorInfoWire {
            reason: self.reason.clone(),
            domain: self.domain.clone(),
            metadata: entries,
        };
        let value = encode(&wire);
        let size: usize = value.len();
        proof {
            assert(value@.len() == size);
            assert(wire@ == Self::wire_form(self@, models::<MetadataEntry>(entries@)));
            assert(lists(models::<MetadataEntry>(entries@), self@.metadata));
            Self::lemma_round_trip(self@, value@);
        }
        Any { type_url: Self::TYPE_URL.to_owned(), value }
    }

    /// The blob of this record, as `to_any` gives it. It never fails.
    pub fn into_any(self) -> (r: Result<Any, EncodeFailure>)
        ensures
            r matches Ok(any) && any.type_url@ == Self::TYPE_URL@ && Self::encodes(
                self@,
                any.value@,
            ) && Self::read(any.value@) == Some(self@),
    {
        Ok(self.to_any())
    }

    /// The record that the payload of a blob decodes to. The type identifier
    /// of the blob is not looked at.
    pub fn from_any(any: Any) -> (r: Result<Self, DecodeFailure>)
        ensures
            match r {
                Ok(found) => Self::read(any.value@) == Some(found@),
                Err(_) => Self::read(any.value@) is None,
            },
    {
        Self::from_bytes(any.value.as_slice())
    }

    /// The record that a payload decodes to.
    pub fn from_bytes(payload: &[u8]) -> (r: Result<Self, DecodeFailure>)
        ensures
            match r {
                Ok(found) => Self::read(payload@) == Some(found@),
                Err(_) => Self::read(payload@) is None,
            },
    {
        let wire: ErrorInfoWire = decode(payload)?;
        let ghost entries = models::<MetadataEntry>(wire.metadata@);
        let mut metadata = new_metadata();
        let mut i: usize = 0;
        assert(entries.take(0) =~= Seq::empty());
        while i < wire.metadata.len()
            invariant
                i <= wire.metadata.len(),
                entries == models::<MetadataEntry>(wire.metadata@),
                metadata_entries(metadata) == map_of(entries.take(i as int)),
            decreases wire.metadata.len() - i,
        {
            let key = wire.metadata[i].key.clone();
            let value = wire.metadata[i].value.clone();
            insert_metadata(&mut metadata, key, value);
            proof {
                let done = entries.take(i + 1);
                assert(done.drop_last() =~= entries.take(i as int));
                assert(done.last() == wire.metadata@[i as int]@);
            }
            i += 1;
        }
        assert(entries.take(wire.metadata.len() as int) =~= entries);
        Ok(ErrorInfo { reason: wire.reason, domain: wire.domain, metadata })
    }
}

} // verus!

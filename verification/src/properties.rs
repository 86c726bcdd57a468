//! What is known of a peripheral, and how a batch of reported property
//! changes alters it.

use bytes::BufMut;
use vstd::prelude::*;
use crate::text::same_text;
use crate::types::{address_type_named, AddressType, BDAddr};

verus! {

/// The snapshot of what the daemon has reported of a device.
#[derive(Debug, PartialEq, Eq)]
pub struct PeripheralProperties {
    /// The device address, fixed when the peripheral is created.
    pub address: BDAddr,
    pub address_type: AddressType,
    pub local_name: Option<String>,
    /// The reported signal strength.
    pub tx_power_level: Option<i8>,
    /// The manufacturer data as one blob: for each entry the manufacturer
    /// identifier, low byte first, and then the entry's payload.
    pub manufacturer_data: Option<Vec<u8>>,
    /// How many batches of changes have been merged in.
    pub discovery_count: u32,
}

/// The snapshot with its name as a character sequence and its blob as a byte
/// sequence.
pub struct PropertiesView {
    pub address: BDAddr,
    pub address_type: AddressType,
    pub local_name: Option<Seq<char>>,
    pub tx_power_level: Option<i8>,
    pub manufacturer_data: Option<Seq<u8>>,
    pub discovery_count: u32,
}

impl View for PeripheralProperties {
    type V = PropertiesView;

    open spec fn view(&self) -> PropertiesView {
        PropertiesView {
            address: self.address,
            address_type: self.address_type,
            local_name: match self.local_name {
                Some(name) => Some(name@),
                None => None,
            },
            tx_power_level: self.tx_power_level,
            manufacturer_data: match self.manufacturer_data {
                Some(blob) => Some(blob@),
                None => None,
            },
            discovery_count: self.discovery_count,
        }
    }
}

/// One entry of reported manufacturer data: the manufacturer identifier and
/// the payload, each number as wide as it was read.
#[derive(Debug, PartialEq, Eq)]
pub struct ManufacturerEntry {
    pub id: u64,
    pub data: Vec<u64>,
}

/// An entry with its payload as a sequence.
pub struct ManufacturerEntryView {
    pub id: u64,
    pub data: Seq<u64>,
}

impl View for ManufacturerEntry {
    type V = ManufacturerEntryView;

    open spec fn view(&self) -> ManufacturerEntryView {
        ManufacturerEntryView { id: self.id, data: self.data@ }
    }
}

/// One item of a reported list, as each of the readings that the peripheral
/// makes of items yields it. A reading that the item's type does not allow
/// yields `None`.
#[derive(Debug, PartialEq, Eq)]
pub struct ListItem {
    /// The item read as an unsigned number.
    pub unsigned: Option<u64>,
    /// The item read as an array of unsigned numbers that comes wrapped in a
    /// variant.
    pub numbers: Option<Vec<u64>>,
}

/// An item with its numbers as a sequence.
pub struct ListItemView {
    pub unsigned: Option<u64>,
    pub numbers: Option<Seq<u64>>,
}

impl View for ListItem {
    type V = ListItemView;

    open spec fn view(&self) -> ListItemView {
        ListItemView {
            unsigned: self.unsigned,
            numbers: match self.numbers {
                Some(numbers) => Some(numbers@),
                None => None,
            },
        }
    }
}

/// The views of the items of a list.
pub open spec fn item_views(items: Seq<ListItem>) -> Seq<ListItemView> {
    Seq::new(items.len(), |i: int| items[i]@)
}

/// A reported value, as each of the readings that the peripheral makes of
/// values yields it. A reading that the value's type does not allow yields
/// `None`.
#[derive(Debug, PartialEq, Eq)]
pub struct PropertyValue {
    /// The value read as an unsigned number; a boolean reads as 0 or 1.
    pub unsigned: Option<u64>,
    /// The value read as a signed number.
    pub signed: Option<i64>,
    /// The value read as a string.
    pub text: Option<String>,
    /// The value read as a list, item by item. A dictionary reads as its
    /// keys and values in turn.
    pub items: Option<Vec<ListItem>>,
}

/// A reported value with its text and its items as sequences.
pub struct PropertyValueView {
    pub unsigned: Option<u64>,
    pub signed: Option<i64>,
    pub text: Option<Seq<char>>,
    pub items: Option<Seq<ListItemView>>,
}

impl View for PropertyValue {
    type V = PropertyValueView;

    open spec fn view(&self) -> PropertyValueView {
        PropertyValueView {
            unsigned: self.unsigned,
            signed: self.signed,
            text: match self.text {
                Some(t) => Some(t@),
                None => None,
            },
            items: match self.items {
                Some(items) => Some(item_views(items@)),
                None => None,
            },
        }
    }
}

/// One changed property of a batch: its key and its new value.
#[derive(Debug, PartialEq, Eq)]
pub struct Property {
    pub key: String,
    pub value: PropertyValue,
}

/// A changed property with its key as a character sequence.
pub struct PropertyView {
    pub key: Seq<char>,
    pub value: PropertyValueView,
}

impl View for Property {
    type V = PropertyView;

    open spec fn view(&self) -> PropertyView {
        PropertyView { key: self.key@, value: self.value@ }
    }
}

/// The views of the properties of a batch.
pub open spec fn batch_view(batch: Seq<Property>) -> Seq<PropertyView> {
    Seq::new(batch.len(), |i: int| batch[i]@)
}

/// The key under which the daemon reports whether the device is connected.
pub const KEY_CONNECTED: &'static str = "Connected";

/// The key under which the daemon reports the device's name.
pub const KEY_NAME: &'static str = "Name";

/// The key under which the daemon reports whether the discovery of the
/// device's attributes is complete.
pub const KEY_SERVICES_RESOLVED: &'static str = "ServicesResolved";

/// The key under which the daemon reports the manufacturer data.
pub const KEY_MANUFACTURER_DATA: &'static str = "ManufacturerData";

/// The key under which the daemon reports the type of the device's address.
pub const KEY_ADDRESS_TYPE: &'static str = "AddressType";

/// The key under which the daemon reports the signal strength.
pub const KEY_RSSI: &'static str = "RSSI";

/// One batch of reported changes, by recognized key. `None` says that the
/// batch does not hold the key, or holds it with a value that cannot be used.
/// For a key whose value is replaced by a default when it cannot be read, the
/// inner `None` says that the value was not of the expected type.
#[derive(Debug, PartialEq, Eq)]
pub struct PropertyChanges {
    pub connected: Option<bool>,
    pub name: Option<Option<String>>,
    pub services_resolved: Option<bool>,
    /// The entries in the order in which the batch lists them.
    pub manufacturer_data: Option<Vec<ManufacturerEntry>>,
    pub address_type: Option<Option<String>>,
    pub rssi: Option<Option<i64>>,
}

/// A batch of reported changes with its texts and its entries as sequences.
pub struct PropertyChangesView {
    pub connected: Option<bool>,
    pub name: Option<Option<Seq<char>>>,
    pub services_resolved: Option<bool>,
    pub manufacturer_data: Option<Seq<ManufacturerEntryView>>,
    pub address_type: Option<Option<Seq<char>>>,
    pub rssi: Option<Option<i64>>,
}

/// The views of the entries of a list.
pub open spec fn entry_views(entries: Seq<ManufacturerEntry>) -> Seq<ManufacturerEntryView> {
    Seq::new(entries.len(), |i: int| entries[i]@)
}

/// The characters of a reported string, where the batch holds one.
pub open spec fn reported_text(value: Option<Option<String>>) -> Option<Option<Seq<char>>> {
    match value {
        Some(Some(s)) => Some(Some(s@)),
        Some(None) => Some(None),
        None => None,
    }
}

impl View for PropertyChanges {
    type V = PropertyChangesView;

    open spec fn view(&self) -> PropertyChangesView {
        PropertyChangesView {
            connected: self.connected,
            name: reported_text(self.name),
            services_resolved: self.services_resolved,
            manufacturer_data: match self.manufacturer_data {
                Some(entries) => Some(entry_views(entries@)),
                None => None,
            },
            address_type: reported_text(self.address_type),
            rssi: self.rssi,
        }
    }
}

/// The view of a value that a batch may hold.
pub open spec fn value_view(value: Option<&PropertyValue>) -> Option<PropertyValueView> {
    match value {
        Some(v) => Some(v@),
        None => None,
    }
}

/// The two bytes of `n`, low byte first.
pub open spec fn le_bytes(n: u16) -> Seq<u8> {
    seq![(n % 256) as u8, (n / 256) as u8]
}

/// The low eight bits of each number of a payload.
pub open spec fn payload_bytes(data: Seq<u64>) -> Seq<u8> {
    Seq::new(data.len(), |i: int| (data[i] % 256) as u8)
}

/// The bytes of one entry: the low sixteen bits of its identifier, low byte
/// first, then the low eight bits of each number of its payload.
pub open spec fn encode_entry(entry: ManufacturerEntryView) -> Seq<u8> {
    le_bytes((entry.id % 0x1_0000) as u16) + payload_bytes(entry.data)
}

/// The blob of a list of entries: the bytes of each entry, in the order of
/// the list.
pub open spec fn encode_entries(entries: Seq<ManufacturerEntryView>) -> Seq<u8>
    decreases entries.len(),
{
    if entries.len() == 0 {
        Seq::empty()
    } else {
        encode_entries(entries.drop_last()) + encode_entry(entries.last())
    }
}

/// The length of the blob that a batch's manufacturer data encodes to, or 0
/// where the batch holds none.
pub open spec fn blob_len(changes: PropertyChangesView) -> nat {
    match changes.manufacturer_data {
        Some(entries) => encode_entries(entries).len(),
        None => 0,
    }
}

/// The value that a batch holds under `key`: that of the first property with
/// that key.
pub open spec fn lookup(batch: Seq<PropertyView>, key: Seq<char>) -> Option<PropertyValueView>
    decreases batch.len(),
{
    if batch.len() == 0 {
        None
    } else if batch[0].key == key {
        Some(batch[0].value)
    } else {
        lookup(batch.drop_first(), key)
    }
}

/// A reported flag: set where the value reads as a number above 0. A value
/// that does not read as a number is passed over.
pub open spec fn read_flag(value: Option<PropertyValueView>) -> Option<bool> {
    match value {
        Some(v) => match v.unsigned {
            Some(n) => Some(n > 0),
            None => None,
        },
        None => None,
    }
}

/// A reported string, as far as the value reads as one.
pub open spec fn read_text(value: Option<PropertyValueView>) -> Option<Option<Seq<char>>> {
    match value {
        Some(v) => Some(v.text),
        None => None,
    }
}

/// A reported signed number, as far as the value reads as one.
pub open spec fn read_signed(value: Option<PropertyValueView>) -> Option<Option<i64>> {
    match value {
        Some(v) => Some(v.signed),
        None => None,
    }
}

/// The entries of a dictionary from manufacturer identifier to payload that
/// was read as a list: each two items are the identifier and the payload of
/// one entry, and a last item without a partner is left out. Where an
/// identifier does not read as a number, or a payload not as an array of
/// numbers, the list has no entries to give.
pub open spec fn paired(items: Seq<ListItemView>) -> Option<Seq<ManufacturerEntryView>>
    decreases items.len(),
{
    if items.len() < 2 {
        Some(Seq::empty())
    } else {
        match (items[0].unsigned, items[1].numbers, paired(items.skip(2))) {
            (Some(id), Some(data), Some(rest)) => Some(
                seq![ManufacturerEntryView { id, data }] + rest,
            ),
            _ => None,
        }
    }
}

/// Reported manufacturer data. A value that does not read as a dictionary of
/// identifiers and payloads, and one whose blob would be longer than a vector
/// can be, is passed over.
pub open spec fn read_entries(value: Option<PropertyValueView>) -> Option<
    Seq<ManufacturerEntryView>,
> {
    match value {
        Some(v) => match v.items {
            Some(items) => match paired(items) {
                Some(entries) => if encode_entries(entries).len() <= isize::MAX {
                    Some(entries)
                } else {
                    None
                },
                None => None,
            },
            None => None,
        },
        None => None,
    }
}

/// What a batch reports under the recognized keys. Every other key is
/// ignored.
pub open spec fn decoded(batch: Seq<PropertyView>) -> PropertyChangesView {
    PropertyChangesView {
        connected: read_flag(lookup(batch, KEY_CONNECTED@)),
        name: read_text(lookup(batch, KEY_NAME@)),
        services_resolved: read_flag(lookup(batch, KEY_SERVICES_RESOLVED@)),
        manufacturer_data: read_entries(lookup(batch, KEY_MANUFACTURER_DATA@)),
        address_type: read_text(lookup(batch, KEY_ADDRESS_TYPE@)),
        rssi: read_signed(lookup(batch, KEY_RSSI@)),
    }
}

/// The signed 8-bit number that agrees with `v` in its low eight bits.
pub open spec fn narrowed(v: i64) -> i8 {
    ((v + 128) % 256 - 128) as i8
}

/// The address type that a reported value stands for; the default where the
/// value is unreadable or names none.
pub open spec fn address_type_reported(value: Option<Seq<char>>) -> AddressType {
    match value {
        Some(name) => match address_type_named(name) {
            Some(t) => t,
            None => AddressType::Public,
        },
        None => AddressType::Public,
    }
}

/// The properties after a batch of changes: each key that the batch holds
/// replaces what was known, every other field stays, and the discovery
/// counter goes up by one whatever the batch holds.
pub open spec fn merged(p: PropertiesView, changes: PropertyChangesView) -> PropertiesView {
    PropertiesView {
        address: p.address,
        address_type: match changes.address_type {
            Some(value) => address_type_reported(value),
            None => p.address_type,
        },
        local_name: match changes.name {
            Some(value) => value,
            None => p.local_name,
        },
        tx_power_level: match changes.rssi {
            Some(Some(v)) => Some(narrowed(v)),
            Some(None) => None,
            None => p.tx_power_level,
        },
        manufacturer_data: match changes.manufacturer_data {
            Some(entries) => Some(encode_entries(entries)),
            None => p.manufacturer_data,
        },
        discovery_count: (p.discovery_count + 1) as u32,
    }
}

/// The keys that a peripheral reads.
pub open spec fn is_recognized(key: Seq<char>) -> bool {
    key == KEY_CONNECTED@ || key == KEY_NAME@ || key == KEY_SERVICES_RESOLVED@ || key
        == KEY_MANUFACTURER_DATA@ || key == KEY_ADDRESS_TYPE@ || key == KEY_RSSI@
}

/// A batch that holds no changes at all.
pub open spec fn no_changes() -> PropertyChangesView {
    PropertyChangesView {
        connected: None,
        name: None,
        services_resolved: None,
        manufacturer_data: None,
        address_type: None,
        rssi: None,
    }
}

/// A batch holds nothing under a key that none of its properties has.
pub proof fn lemma_lookup_absent(batch: Seq<PropertyView>, key: Seq<char>)
    requires
        forall|i: int| 0 <= i < batch.len() ==> (#[trigger] batch[i]).key != key,
    ensures
        lookup(batch, key) is None,
    decreases batch.len(),
{
    if batch.len() > 0 {
        let rest = batch.drop_first();
        assert forall|i: int| 0 <= i < rest.len() implies (#[trigger] rest[i]).key != key by {
            assert(rest[i] == batch[i + 1]);
        }
        lemma_lookup_absent(rest, key);
    }
}

/// A batch without a recognized key reports nothing: merged in, it raises
/// the discovery counter and changes nothing else.
pub proof fn lemma_unrecognized_keys_report_nothing(batch: Seq<PropertyView>, p: PropertiesView)
    requires
        forall|i: int| 0 <= i < batch.len() ==> !is_recognized((#[trigger] batch[i]).key),
    ensures
        decoded(batch) == no_changes(),
        merged(p, decoded(batch)) == (PropertiesView {
            discovery_count: (p.discovery_count + 1) as u32,
            ..p
        }),
{
    lemma_lookup_absent(batch, KEY_CONNECTED@);
    lemma_lookup_absent(batch, KEY_NAME@);
    lemma_lookup_absent(batch, KEY_SERVICES_RESOLVED@);
    lemma_lookup_absent(batch, KEY_MANUFACTURER_DATA@);
    lemma_lookup_absent(batch, KEY_ADDRESS_TYPE@);
    lemma_lookup_absent(batch, KEY_RSSI@);
}

/// The blob of the first entries of a list is no longer than the blob of the
/// whole list.
pub proof fn lemma_encode_prefix(entries: Seq<ManufacturerEntryView>, k: int)
    requires
        0 <= k <= entries.len(),
    ensures
        encode_entries(entries.take(k)).len() <= encode_entries(entries).len(),
    decreases entries.len(),
{
    if k == entries.len() {
        assert(entries.take(k) =~= entries);
    } else {
        assert(entries.drop_last().take(k) =~= entries.take(k));
        lemma_encode_prefix(entries.drop_last(), k);
    }
}

/// Appends the two bytes of `n` to `buf`, low byte first, by
/// `bytes::BufMut::put_u16_le`, which for a `Vec<u8>` extends the vector by
/// the little-endian bytes of `n`. It panics where the vector cannot take two
/// more bytes, so such a vector is not passed.
#[verifier::external_body]
fn put_u16_le(buf: &mut Vec<u8>, n: u16)
    requires
        old(buf)@.len() + 2 <= isize::MAX,
    ensures
        final(buf)@ == old(buf)@ + le_bytes(n),
{
    buf.put_u16_le(n);
}

/// Encodes manufacturer data into one blob.
pub fn manufacturer_blob(entries: &Vec<ManufacturerEntry>) -> (blob: Vec<u8>)
    requires
        encode_entries(entry_views(entries@)).len() <= isize::MAX,
    ensures
        blob@ == encode_entries(entry_views(entries@)),
{
    let ghost views = entry_views(entries@);
    let mut blob: Vec<u8> = Vec::new();
    let mut i: usize = 0;
    while i < entries.len()
        invariant
            i <= entries.len(),
            views == entry_views(entries@),
            encode_entries(views).len() <= isize::MAX,
            blob@ == encode_entries(views.take(i as int)),
        decreases entries.len() - i,
    {
        let entry = &entries[i];
        proof {
            lemma_encode_prefix(views, i + 1);
            assert(views.take(i + 1).drop_last() =~= views.take(i as int));
            assert(views.take(i + 1).last() == entry@);
        }
        let id: u16 = (entry.id % 0x1_0000) as u16;
        put_u16_le(&mut blob, id);
        let mut k: usize = 0;
        while k < entry.data.len()
            invariant
                k <= entry.data.len(),
                blob@ == encode_entries(views.take(i as int)) + le_bytes(id) + payload_bytes(
                    entry.data@.take(k as int),
                ),
            decreases entry.data.len() - k,
        {
            let byte: u8 = (entry.data[k] % 256) as u8;
            blob.push(byte);
            assert(payload_bytes(entry.data@.take(k + 1)) =~= payload_bytes(
                entry.data@.take(k as int),
            ).push(byte));
            k += 1;
        }
        assert(entry.data@.take(k as int) =~= entry.data@);
        assert(blob@ =~= encode_entries(views.take(i + 1)));
        i += 1;
    }
    assert(views.take(i as int) =~= views);
    blob
}

/// Whether the blob of `entries` is short enough for `manufacturer_blob`.
pub fn blob_fits(entries: &Vec<ManufacturerEntry>) -> (yes: bool)
    ensures
        yes == (encode_entries(entry_views(entries@)).len() <= isize::MAX),
{
    let ghost views = entry_views(entries@);
    let limit: usize = isize::MAX as usize;
    let mut total: usize = 0;
    let mut i: usize = 0;
    while i < entries.len()
        invariant
            i <= entries.len(),
            views == entry_views(entries@),
            limit == isize::MAX,
            total <= limit,
            total == encode_entries(views.take(i as int)).len(),
        decreases entries.len() - i,
    {
        let size: usize = entries[i].data.len();
        proof {
            lemma_encode_prefix(views, i + 1);
            assert(views.take(i + 1).drop_last() =~= views.take(i as int));
            assert(views.take(i + 1).last() == entries[i as int]@);
        }
        if size > limit - 2 || total > limit - 2 - size {
            return false;
        }
        total = total + 2 + size;
        i += 1;
    }
    assert(views.take(i as int) =~= views);
    true
}

/// The value that `batch` holds under `key`.
pub fn find_value<'a>(batch: &'a Vec<Property>, key: &str) -> (found: Option<&'a PropertyValue>)
    ensures
        match found {
            Some(v) => lookup(batch_view(batch@), key@) == Some(v@),
            None => lookup(batch_view(batch@), key@) is None,
        },
{
    let ghost views = batch_view(batch@);
    let mut i: usize = 0;
    assert(views.skip(0) =~= views);
    while i < batch.len()
        invariant
            i <= batch.len(),
            views == batch_view(batch@),
            lookup(views, key@) == lookup(views.skip(i as int), key@),
        decreases batch.len() - i,
    {
        assert(views.skip(i as int)[0] == batch[i as int]@);
        if same_text(batch[i].key.as_str(), key) {
            return Some(&batch[i].value);
        }
        assert(views.skip(i as int).drop_first() =~= views.skip(i + 1));
        i += 1;
    }
    None
}

/// Pairs the items of a dictionary that was read as a list.
pub fn pair_items(items: &Vec<ListItem>) -> (entries: Option<Vec<ManufacturerEntry>>)
    ensures
        match entries {
            Some(list) => paired(item_views(items@)) == Some(entry_views(list@)),
            None => paired(item_views(items@)) is None,
        },
{
    let ghost views = item_views(items@);
    let mut list: Vec<ManufacturerEntry> = Vec::new();
    let mut i: usize = 0;
    assert(views.skip(0) =~= views);
    while items.len() - i >= 2
        invariant
            i <= items.len(),
            views == item_views(items@),
            match paired(views.skip(i as int)) {
                Some(rest) => paired(views) == Some(entry_views(list@) + rest),
                None => paired(views) is None,
            },
        decreases items.len() - i,
    {
        let ghost tail = views.skip(i as int);
        let ghost before = entry_views(list@);
        assert(tail[0] == items[i as int]@ && tail[1] == items[i + 1]@);
        assert(tail.skip(2) =~= views.skip(i + 2));
        match (items[i].unsigned, &items[i + 1].numbers) {
            (Some(id), Some(numbers)) => {
                list.push(ManufacturerEntry { id, data: numbers.clone() });
                proof {
                    let entry = ManufacturerEntryView { id, data: numbers@ };
                    assert(entry_views(list@) =~= before.push(entry));
                    if paired(views.skip(i + 2)) is Some {
                        let rest = paired(views.skip(i + 2))->0;
                        assert(before + (seq![entry] + rest) =~= before.push(entry) + rest);
                    }
                }
            },
            _ => {
                return None;
            },
        }
        i += 2;
    }
    assert(entry_views(list@) + Seq::<ManufacturerEntryView>::empty() =~= entry_views(list@));
    Some(list)
}

/// A reported flag.
fn flag_of(value: Option<&PropertyValue>) -> (flag: Option<bool>)
    ensures
        flag == read_flag(value_view(value)),
{
    match value {
        Some(v) => match v.unsigned {
            Some(n) => Some(n > 0),
            None => None,
        },
        None => None,
    }
}

/// A reported string.
fn text_of(value: Option<&PropertyValue>) -> (text: Option<Option<String>>)
    ensures
        reported_text(text) == read_text(value_view(value)),
{
    match value {
        Some(v) => match &v.text {
            Some(t) => Some(Some(t.clone())),
            None => Some(None),
        },
        None => None,
    }
}

/// Reported manufacturer data.
fn entries_of(value: Option<&PropertyValue>) -> (entries: Option<Vec<ManufacturerEntry>>)
    ensures
        match entries {
            Some(list) => read_entries(value_view(value)) == Some(entry_views(list@)),
            None => read_entries(value_view(value)) is None,
        },
{
    match value {
        Some(v) => match &v.items {
            Some(items) => match pair_items(items) {
                Some(list) => if blob_fits(&list) {
                    Some(list)
                } else {
                    None
                },
                None => None,
            },
            None => None,
        },
        None => None,
    }
}

/// Reads from a batch what it reports under the recognized keys.
pub fn decode(batch: &Vec<Property>) -> (changes: PropertyChanges)
    ensures
        changes@ == decoded(batch_view(batch@)),
        blob_len(changes@) <= isize::MAX,
{
    let rssi = match find_value(batch, KEY_RSSI) {
        Some(v) => Some(v.signed),
        None => None,
    };
    PropertyChanges {
        connected: flag_of(find_value(batch, KEY_CONNECTED)),
        name: text_of(find_value(batch, KEY_NAME)),
        services_resolved: flag_of(find_value(batch, KEY_SERVICES_RESOLVED)),
        manufacturer_data: entries_of(find_value(batch, KEY_MANUFACTURER_DATA)),
        address_type: text_of(find_value(batch, KEY_ADDRESS_TYPE)),
        rssi,
    }
}

/// Narrows a reported signal strength to eight bits.
pub fn narrow(v: i64) -> (out: i8)
    ensures
        out == narrowed(v),
{
    let shifted: i128 = v as i128 + 128;
    let low: i128 = if shifted >= 0 {
        shifted % 256
    } else {
        255 - ((-(shifted + 1)) % 256)
    };
    (low - 128) as i8
}

impl PeripheralProperties {
    /// What is known of a device of which only the address is known.
    pub open spec fn initial(address: BDAddr) -> PropertiesView {
        PropertiesView {
            address,
            address_type: AddressType::Public,
            local_name: None,
            tx_power_level: None,
            manufacturer_data: None,
            discovery_count: 0,
        }
    }

    /// The snapshot of a device of which only the address is known.
    pub fn new(address: BDAddr) -> (p: PeripheralProperties)
        ensures
            p@ == Self::initial(address),
    {
        PeripheralProperties {
            address,
            address_type: AddressType::Public,
            local_name: None,
            tx_power_level: None,
            manufacturer_data: None,
            discovery_count: 0,
        }
    }

    /// Merges one batch of changes into the snapshot.
    pub fn merge(&mut self, changes: &PropertyChanges)
        requires
            old(self).discovery_count < u32::MAX,
            blob_len(changes@) <= isize::MAX,
        ensures
            final(self)@ == merged(old(self)@, changes@),
    {
        self.discovery_count += 1;
        match &changes.name {
            Some(Some(name)) => {
                self.local_name = Some(name.clone());
            },
            Some(None) => {
                self.local_name = None;
            },
            None => {},
        }
        match &changes.manufacturer_data {
            Some(entries) => {
                self.manufacturer_data = Some(manufacturer_blob(entries));
            },
            None => {},
        }
        match &changes.address_type {
            Some(Some(name)) => {
                self.address_type = match AddressType::from_str(name.as_str()) {
                    Some(t) => t,
                    None => AddressType::Public,
                };
            },
            Some(None) => {
                self.address_type = AddressType::Public;
            },
            None => {},
        }
        match changes.rssi {
            Some(Some(v)) => {
                self.tx_power_level = Some(narrow(v));
            },
            Some(None) => {
                self.tx_power_level = None;
            },
            None => {},
        }
    }
}

impl PropertyChanges {
    /// Whether the batch can be merged: the blob of its manufacturer data,
    /// where it holds any, is short enough for one vector.
    pub fn encodable(&self) -> (yes: bool)
        ensures
            yes == (blob_len(self@) <= isize::MAX),
    {
        match &self.manufacturer_data {
            Some(entries) => blob_fits(entries),
            None => true,
        }
    }
}

impl Clone for PeripheralProperties {
    fn clone(&self) -> (copy: PeripheralProperties)
        ensures
            copy@ == self@,
    {
        PeripheralProperties {
            address: self.address,
            address_type: self.address_type,
            local_name: match &self.local_name {
                Some(name) => Some(name.clone()),
                None => None,
            },
            tx_power_level: self.tx_power_level,
            manufacturer_data: match &self.manufacturer_data {
                Some(blob) => Some(blob.clone()),
                None => None,
            },
            discovery_count: self.discovery_count,
        }
    }
}

} // verus!

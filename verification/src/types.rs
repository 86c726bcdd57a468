//! Value types shared by every part of the peripheral model.

use vstd::prelude::*;
use vstd::string::*;
use crate::text::same_text;

verus! {

/// The destination under which the management daemon answers on the bus.
pub const BLUEZ_DEST: &'static str = "org.bluez";

/// The budget, in seconds, of one command round-trip and of one `connect`.
pub const COMMAND_TIMEOUT_SECS: u64 = 30;

/// The greatest attribute handle; as an end handle it stands for "up to the
/// end of the handle space".
pub const MAX_HANDLE: u16 = 0xFFFF;

/// A Bluetooth device address.
#[derive(Clone, Copy, Debug, PartialEq, Eq, Hash, PartialOrd, Ord)]
pub struct BDAddr {
    pub address: [u8; 6],
}

/// The digits in which an address is written.
pub const HEX_DIGITS: &'static str = "0123456789ABCDEF";

/// The two digits of one octet, the upper one first.
pub open spec fn octet_text(b: u8) -> Seq<char> {
    seq![HEX_DIGITS@[b as int / 16], HEX_DIGITS@[b as int % 16]]
}

/// The text of an address, such as `AA:BB:CC:DD:EE:FF`: its six octets, each
/// as two digits, with a colon between two octets. The address holds its
/// least significant octet first; in text the most significant octet comes
/// first.
pub open spec fn address_text(address: BDAddr) -> Seq<char> {
    octet_text(address.address[5]) + seq![':'] + octet_text(address.address[4]) + seq![':']
        + octet_text(address.address[3]) + seq![':'] + octet_text(address.address[2]) + seq![':']
        + octet_text(address.address[1]) + seq![':'] + octet_text(address.address[0])
}

/// Appends the two digits of `b` to `out`.
fn push_octet(out: &mut String, b: u8)
    ensures
        final(out)@ == old(out)@ + octet_text(b),
{
    proof {
        reveal_strlit("0123456789ABCDEF");
    }
    let high: usize = (b / 16) as usize;
    let low: usize = (b % 16) as usize;
    out.append(HEX_DIGITS.substring_char(high, high + 1));
    out.append(HEX_DIGITS.substring_char(low, low + 1));
    assert(out@ =~= old(out)@ + octet_text(b));
}

/// Appends a colon and the two digits of `b` to `out`.
fn push_next_octet(out: &mut String, b: u8)
    ensures
        final(out)@ == old(out)@ + seq![':'] + octet_text(b),
{
    proof {
        reveal_strlit(":");
    }
    out.append(":");
    assert(out@ =~= old(out)@ + seq![':']);
    push_octet(out, b);
}

impl BDAddr {
    /// The address as text.
    pub fn to_text(&self) -> (text: String)
        ensures
            text@ == address_text(*self),
    {
        let mut text = String::new();
        push_octet(&mut text, self.address[5]);
        assert(text@ =~= octet_text(self.address[5]));
        push_next_octet(&mut text, self.address[4]);
        push_next_octet(&mut text, self.address[3]);
        push_next_octet(&mut text, self.address[2]);
        push_next_octet(&mut text, self.address[1]);
        push_next_octet(&mut text, self.address[0]);
        text
    }
}

/// How a device address was assigned.
#[derive(Clone, Copy, Debug, PartialEq, Eq, Structural, Hash)]
pub enum AddressType {
    Random,
    Public,
}

/// The address type that a name stands for: `public` or `random`.
pub open spec fn address_type_named(name: Seq<char>) -> Option<AddressType> {
    if name == "public"@ {
        Some(AddressType::Public)
    } else if name == "random"@ {
        Some(AddressType::Random)
    } else {
        None
    }
}

impl AddressType {
    /// Reads an address type from its name.
    pub fn from_str(name: &str) -> (t: Option<AddressType>)
        ensures
            t == address_type_named(name@),
    {
        if same_text(name, "public") {
            Some(AddressType::Public)
        } else if same_text(name, "random") {
            Some(AddressType::Random)
        } else {
            None
        }
    }
}

impl Default for AddressType {
    fn default() -> (t: AddressType)
        ensures
            t == AddressType::Public,
    {
        AddressType::Public
    }
}

/// A GATT attribute UUID, in its 16-bit short form or as the full 128-bit
/// number.
#[derive(Clone, Copy, Debug, PartialEq, Eq, Structural, Hash, PartialOrd, Ord)]
pub enum UUID {
    B16(u16),
    B128(u128),
}

/// The access-property bit set of a characteristic.
#[derive(Clone, Copy, Debug, PartialEq, Eq, Structural, Hash, PartialOrd, Ord)]
pub struct CharPropFlags {
    pub bits: u8,
}

/// The value may be broadcast.
pub const BROADCAST: u8 = 0x01;

/// The value may be read.
pub const READ: u8 = 0x02;

/// The value may be written without a response.
pub const WRITE_WITHOUT_RESPONSE: u8 = 0x04;

/// The value may be written.
pub const WRITE: u8 = 0x08;

/// The value is notified without acknowledgement.
pub const NOTIFY: u8 = 0x10;

/// The value is indicated with acknowledgement.
pub const INDICATE: u8 = 0x20;

/// The value may be written with a signature.
pub const AUTHENTICATED_SIGNED_WRITES: u8 = 0x40;

/// More properties stand in a descriptor.
pub const EXTENDED_PROPERTIES: u8 = 0x80;

impl CharPropFlags {
    /// Every bit of `mask` is set in `self`.
    pub open spec fn spec_contains(self, mask: u8) -> bool {
        self.bits & mask == mask
    }

    /// The set with exactly the bits of `bits`.
    pub fn from_bits(bits: u8) -> (flags: CharPropFlags)
        ensures
            flags.bits == bits,
    {
        CharPropFlags { bits }
    }

    /// Whether every bit of `mask` is set.
    #[verifier::when_used_as_spec(spec_contains)]
    pub fn contains(self, mask: u8) -> (yes: bool)
        ensures
            yes == self.spec_contains(mask),
    {
        self.bits & mask == mask
    }
}

/// A GATT data item: its UUID, the handle range it occupies, the handle of
/// its value and its access properties.
///
/// The derived order compares the handles first, so two records with
/// different start handles are ordered by start handle alone.
#[derive(Clone, Copy, Debug, PartialEq, Eq, Structural, Hash, PartialOrd, Ord)]
pub struct Characteristic {
    pub start_handle: u16,
    pub end_handle: u16,
    pub value_handle: u16,
    pub uuid: UUID,
    pub properties: CharPropFlags,
}

/// What a command sink reports when it fails: the category name of the
/// failure and its message, each as far as the sink gave one.
#[derive(Debug, PartialEq, Eq)]
pub struct TransportError {
    pub name: Option<String>,
    pub message: Option<String>,
}

/// A failure report with its texts as character sequences.
pub struct TransportErrorView {
    pub name: Option<Seq<char>>,
    pub message: Option<Seq<char>>,
}

/// The characters of an optional string.
pub open spec fn text_view(s: Option<String>) -> Option<Seq<char>> {
    match s {
        Some(t) => Some(t@),
        None => None,
    }
}

impl View for TransportError {
    type V = TransportErrorView;

    open spec fn view(&self) -> TransportErrorView {
        TransportErrorView { name: text_view(self.name), message: text_view(self.message) }
    }
}

/// A copy of an optional string.
fn copy_text(s: &Option<String>) -> (copy: Option<String>)
    ensures
        text_view(copy) == text_view(*s),
{
    match s {
        Some(t) => Some(t.clone()),
        None => None,
    }
}

impl Clone for TransportError {
    fn clone(&self) -> (copy: TransportError)
        ensures
            copy@ == self@,
    {
        TransportError { name: copy_text(&self.name), message: copy_text(&self.message) }
    }
}

/// Why an operation on a peripheral failed.
#[derive(Debug, PartialEq, Eq)]
pub enum Error {
    /// The device is not connected, or the sink could not connect to it.
    NotConnected,
    /// The operation did not finish within this many seconds.
    TimedOut(u64),
    /// No attribute is registered that the named operation could act on.
    NotSupported(String),
    /// An object path does not name an attribute.
    InvalidPath,
    /// Any other failure of the command sink, as the sink reported it.
    Transport(TransportError),
}

/// A failure with its texts as character sequences.
pub enum ErrorView {
    NotConnected,
    TimedOut(u64),
    NotSupported(Seq<char>),
    InvalidPath,
    Transport(TransportErrorView),
}

impl View for Error {
    type V = ErrorView;

    open spec fn view(&self) -> ErrorView {
        match self {
            Error::NotConnected => ErrorView::NotConnected,
            Error::TimedOut(seconds) => ErrorView::TimedOut(*seconds),
            Error::NotSupported(operation) => ErrorView::NotSupported(operation@),
            Error::InvalidPath => ErrorView::InvalidPath,
            Error::Transport(e) => ErrorView::Transport(e@),
        }
    }
}

impl Clone for Error {
    fn clone(&self) -> (copy: Error)
        ensures
            copy@ == self@,
    {
        match self {
            Error::NotConnected => Error::NotConnected,
            Error::TimedOut(seconds) => Error::TimedOut(*seconds),
            Error::NotSupported(operation) => Error::NotSupported(operation.clone()),
            Error::InvalidPath => Error::InvalidPath,
            Error::Transport(e) => Error::Transport(e.clone()),
        }
    }
}

} // verus!

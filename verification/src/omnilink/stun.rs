//! STUN messages (RFC 5389): their wire encoding and decoding.
//!
//! A message is a 20-byte header (type, length of the attributes with their
//! padding, the magic cookie, the 12-byte transaction id) followed by the
//! attributes. XOR-MAPPED-ADDRESS masks the port with the cookie's high 16
//! bits and the address with the cookie followed by the transaction id.

use vstd::prelude::*;
use vstd::utf8::{valid_utf8, decode_utf8, encode_utf8};
use vstd::std_specs::convert::FromSpecImpl;
use crate::common::net::{IpAddr, SocketAddr, spec_octets};
use crate::common::wire::{
    be16, be32, be128, u16_be, u32_be, u128_be, push_u16_be, push_u32_be, read_u16_be,
    read_u32_be, read_u128_be, lemma_be16_roundtrip, lemma_be32_roundtrip, lemma_be128_roundtrip,
    extend_bytes, utf8_string,
};
use vstd::slice::slice_subrange;
use crate::common::checksum::{crc32, crc32_of};
use crate::common::entropy::random_bytes;

verus! {

/// STUN message type.
#[derive(Debug, Clone, Copy, PartialEq, Eq, Structural)]
pub enum MessageType {
    BindingRequest,
    BindingResponse,
    BindingError,
    SharedSecretRequest,
    SharedSecretResponse,
    SharedSecretError,
    Other(u16),
}

/// The message type that a wire code stands for.
pub open spec fn spec_message_type_from_u16(v: u16) -> MessageType {
    if v == 0x0001 {
        MessageType::BindingRequest
    } else if v == 0x0101 {
        MessageType::BindingResponse
    } else if v == 0x0111 {
        MessageType::BindingError
    } else if v == 0x0002 {
        MessageType::SharedSecretRequest
    } else if v == 0x0102 {
        MessageType::SharedSecretResponse
    } else if v == 0x0112 {
        MessageType::SharedSecretError
    } else {
        MessageType::Other(v)
    }
}

/// The wire code of a message type.
pub open spec fn spec_message_type_code(t: MessageType) -> u16 {
    match t {
        MessageType::BindingRequest => 0x0001,
        MessageType::BindingResponse => 0x0101,
        MessageType::BindingError => 0x0111,
        MessageType::SharedSecretRequest => 0x0002,
        MessageType::SharedSecretResponse => 0x0102,
        MessageType::SharedSecretError => 0x0112,
        MessageType::Other(v) => v,
    }
}

/// A message type is canonical unless it is `Other` of a code that has a name.
pub open spec fn is_canonical_message_type(t: MessageType) -> bool {
    match t {
        MessageType::Other(v) => spec_message_type_from_u16(v) is Other,
        _ => true,
    }
}

impl From<u16> for MessageType {
    fn from(value: u16) -> (t: MessageType) {
        match value {
            0x0001 => MessageType::BindingRequest,
            0x0101 => MessageType::BindingResponse,
            0x0111 => MessageType::BindingError,
            0x0002 => MessageType::SharedSecretRequest,
            0x0102 => MessageType::SharedSecretResponse,
            0x0112 => MessageType::SharedSecretError,
            _ => MessageType::Other(value),
        }
    }
}

impl FromSpecImpl<u16> for MessageType {
    open spec fn obeys_from_spec() -> bool {
        true
    }

    open spec fn from_spec(value: u16) -> MessageType {
        spec_message_type_from_u16(value)
    }
}

impl From<MessageType> for u16 {
    fn from(value: MessageType) -> (v: u16) {
        match value {
            MessageType::BindingRequest => 0x0001,
            MessageType::BindingResponse => 0x0101,
            MessageType::BindingError => 0x0111,
            MessageType::SharedSecretRequest => 0x0002,
            MessageType::SharedSecretResponse => 0x0102,
            MessageType::SharedSecretError => 0x0112,
            MessageType::Other(v) => v,
        }
    }
}

impl FromSpecImpl<MessageType> for u16 {
    open spec fn obeys_from_spec() -> bool {
        true
    }

    open spec fn from_spec(value: MessageType) -> u16 {
        spec_message_type_code(value)
    }
}

impl MessageType {
    /// The message type that a wire code stands for.
    pub fn from_code(value: u16) -> (t: MessageType)
        ensures
            t == spec_message_type_from_u16(value),
    {
        MessageType::from(value)
    }

    /// The wire code of this message type.
    pub fn code(self) -> (v: u16)
        ensures
            v == spec_message_type_code(self),
    {
        u16::from(self)
    }
}

/// Reading a code as a message type and writing it back gives the code.
pub proof fn lemma_message_type_code_roundtrip(v: u16)
    ensures
        spec_message_type_code(spec_message_type_from_u16(v)) == v,
        is_canonical_message_type(spec_message_type_from_u16(v)),
{
}

/// Writing a canonical message type and reading it back gives the type.
pub proof fn lemma_message_type_roundtrip(t: MessageType)
    requires
        is_canonical_message_type(t),
    ensures
        spec_message_type_from_u16(spec_message_type_code(t)) == t,
{
}

/// STUN attribute type.
#[derive(Debug, Clone, Copy, PartialEq, Eq, Structural)]
pub enum AttributeType {
    MappedAddress,
    ResponseAddress,
    ChangeRequest,
    SourceAddress,
    ChangedAddress,
    Username,
    Password,
    MessageIntegrity,
    ErrorCode,
    UnknownAttributes,
    ReflectedFrom,
    Realm,
    Nonce,
    XorMappedAddress,
    Software,
    AlternateServer,
    Fingerprint,
    Other(u16),
}

/// The attribute type that a wire code stands for.
pub open spec fn spec_attribute_type_from_u16(v: u16) -> AttributeType {
    if v == 0x0001 {
        AttributeType::MappedAddress
    } else if v == 0x0002 {
        AttributeType::ResponseAddress
    } else if v == 0x0003 {
        AttributeType::ChangeRequest
    } else if v == 0x0004 {
        AttributeType::SourceAddress
    } else if v == 0x0005 {
        AttributeType::ChangedAddress
    } else if v == 0x0006 {
        AttributeType::Username
    } else if v == 0x0007 {
        AttributeType::Password
    } else if v == 0x0008 {
        AttributeType::MessageIntegrity
    } else if v == 0x0009 {
        AttributeType::ErrorCode
    } else if v == 0x000A {
        AttributeType::UnknownAttributes
    } else if v == 0x000B {
        AttributeType::ReflectedFrom
    } else if v == 0x0014 {
        AttributeType::Realm
    } else if v == 0x0015 {
        AttributeType::Nonce
    } else if v == 0x0020 {
        AttributeType::XorMappedAddress
    } else if v == 0x8022 {
        AttributeType::Software
    } else if v == 0x8023 {
        AttributeType::AlternateServer
    } else if v == 0x8028 {
        AttributeType::Fingerprint
    } else {
        AttributeType::Other(v)
    }
}

/// The wire code of an attribute type.
pub open spec fn spec_attribute_type_code(t: AttributeType) -> u16 {
    match t {
        AttributeType::MappedAddress => 0x0001,
        AttributeType::ResponseAddress => 0x0002,
        AttributeType::ChangeRequest => 0x0003,
        AttributeType::SourceAddress => 0x0004,
        AttributeType::ChangedAddress => 0x0005,
        AttributeType::Username => 0x0006,
        AttributeType::Password => 0x0007,
        AttributeType::MessageIntegrity => 0x0008,
        AttributeType::ErrorCode => 0x0009,
        AttributeType::UnknownAttributes => 0x000A,
        AttributeType::ReflectedFrom => 0x000B,
        AttributeType::Realm => 0x0014,
        AttributeType::Nonce => 0x0015,
        AttributeType::XorMappedAddress => 0x0020,
        AttributeType::Software => 0x8022,
        AttributeType::AlternateServer => 0x8023,
        AttributeType::Fingerprint => 0x8028,
        AttributeType::Other(v) => v,
    }
}

/// An attribute type is canonical unless it is `Other` of a code that has a name.
pub open spec fn is_canonical_attribute_type(t: AttributeType) -> bool {
    match t {
        AttributeType::Other(v) => spec_attribute_type_from_u16(v) is Other,
        _ => true,
    }
}

impl From<u16> for AttributeType {
    fn from(value: u16) -> (t: AttributeType) {
        match value {
            0x0001 => AttributeType::MappedAddress,
            0x0002 => AttributeType::ResponseAddress,
            0x0003 => AttributeType::ChangeRequest,
            0x0004 => AttributeType::SourceAddress,
            0x0005 => AttributeType::ChangedAddress,
            0x0006 => AttributeType::Username,
            0x0007 => AttributeType::Password,
            0x0008 => AttributeType::MessageIntegrity,
            0x0009 => AttributeType::ErrorCode,
            0x000A => AttributeType::UnknownAttributes,
            0x000B => AttributeType::ReflectedFrom,
            0x0014 => AttributeType::Realm,
            0x0015 => AttributeType::Nonce,
            0x0020 => AttributeType::XorMappedAddress,
            0x8022 => AttributeType::Software,
            0x8023 => AttributeType::AlternateServer,
            0x8028 => AttributeType::Fingerprint,
            _ => AttributeType::Other(value),
        }
    }
}

impl FromSpecImpl<u16> for AttributeType {
    open spec fn obeys_from_spec() -> bool {
        true
    }

    open spec fn from_spec(value: u16) -> AttributeType {
        spec_attribute_type_from_u16(value)
    }
}

impl From<AttributeType> for u16 {
    fn from(value: AttributeType) -> (v: u16) {
        match value {
            AttributeType::MappedAddress => 0x0001,
            AttributeType::ResponseAddress => 0x0002,
            AttributeType::ChangeRequest => 0x0003,
            AttributeType::SourceAddress => 0x0004,
            AttributeType::ChangedAddress => 0x0005,
            AttributeType::Username => 0x0006,
            AttributeType::Password => 0x0007,
            AttributeType::MessageIntegrity => 0x0008,
            AttributeType::ErrorCode => 0x0009,
            AttributeType::UnknownAttributes => 0x000A,
            AttributeType::ReflectedFrom => 0x000B,
            AttributeType::Realm => 0x0014,
            AttributeType::Nonce => 0x0015,
            AttributeType::XorMappedAddress => 0x0020,
            AttributeType::Software => 0x8022,
            AttributeType::AlternateServer => 0x8023,
            AttributeType::Fingerprint => 0x8028,
            AttributeType::Other(v) => v,
        }
    }
}

impl FromSpecImpl<AttributeType> for u16 {
    open spec fn obeys_from_spec() -> bool {
        true
    }

    open spec fn from_spec(value: AttributeType) -> u16 {
        spec_attribute_type_code(value)
    }
}

impl AttributeType {
    /// The attribute type that a wire code stands for.
    pub fn from_code(value: u16) -> (t: AttributeType)
        ensures
            t == spec_attribute_type_from_u16(value),
    {
        AttributeType::from(value)
    }

    /// The wire code of this attribute type.
    pub fn code(self) -> (v: u16)
        ensures
            v == spec_attribute_type_code(self),
    {
        u16::from(self)
    }
}

/// Reading a code as an attribute type and writing it back gives the code.
pub proof fn lemma_attribute_type_code_roundtrip(v: u16)
    ensures
        spec_attribute_type_code(spec_attribute_type_from_u16(v)) == v,
        is_canonical_attribute_type(spec_attribute_type_from_u16(v)),
{
}

/// Writing a canonical attribute type and reading it back gives the type.
pub proof fn lemma_attribute_type_roundtrip(t: AttributeType)
    requires
        is_canonical_attribute_type(t),
    ensures
        spec_attribute_type_from_u16(spec_attribute_type_code(t)) == t,
{
}

/// STUN attribute.
#[derive(Debug, Clone)]
pub enum StunAttribute {
    MappedAddress(SocketAddr),
    XorMappedAddress(SocketAddr),
    Software(String),
    Username(String),
    MessageIntegrity([u8; 20]),
    ErrorCode(u16, String),
    Fingerprint(u32),
}

/// The value an attribute stands for: strings as characters, arrays as byte sequences.
pub enum StunAttributeView {
    MappedAddress(SocketAddr),
    XorMappedAddress(SocketAddr),
    Software(Seq<char>),
    Username(Seq<char>),
    MessageIntegrity(Seq<u8>),
    ErrorCode(u16, Seq<char>),
    Fingerprint(u32),
}

impl View for StunAttribute {
    type V = StunAttributeView;

    open spec fn view(&self) -> StunAttributeView {
        match self {
            StunAttribute::MappedAddress(a) => StunAttributeView::MappedAddress(*a),
            StunAttribute::XorMappedAddress(a) => StunAttributeView::XorMappedAddress(*a),
            StunAttribute::Software(s) => StunAttributeView::Software(s@),
            StunAttribute::Username(s) => StunAttributeView::Username(s@),
            StunAttribute::MessageIntegrity(m) => StunAttributeView::MessageIntegrity(m@),
            StunAttribute::ErrorCode(c, s) => StunAttributeView::ErrorCode(*c, s@),
            StunAttribute::Fingerprint(f) => StunAttributeView::Fingerprint(*f),
        }
    }
}

/// The attribute type of an attribute.
pub open spec fn spec_type_of_attribute(a: StunAttributeView) -> AttributeType {
    match a {
        StunAttributeView::MappedAddress(_) => AttributeType::MappedAddress,
        StunAttributeView::XorMappedAddress(_) => AttributeType::XorMappedAddress,
        StunAttributeView::Software(_) => AttributeType::Software,
        StunAttributeView::Username(_) => AttributeType::Username,
        StunAttributeView::MessageIntegrity(_) => AttributeType::MessageIntegrity,
        StunAttributeView::ErrorCode(_, _) => AttributeType::ErrorCode,
        StunAttributeView::Fingerprint(_) => AttributeType::Fingerprint,
    }
}

impl StunAttribute {
    /// The attribute type of this attribute.
    pub fn attribute_type(&self) -> (t: AttributeType)
        ensures
            t == spec_type_of_attribute(self@),
    {
        match self {
            StunAttribute::MappedAddress(_) => AttributeType::MappedAddress,
            StunAttribute::XorMappedAddress(_) => AttributeType::XorMappedAddress,
            StunAttribute::Software(_) => AttributeType::Software,
            StunAttribute::Username(_) => AttributeType::Username,
            StunAttribute::MessageIntegrity(_) => AttributeType::MessageIntegrity,
            StunAttribute::ErrorCode(_, _) => AttributeType::ErrorCode,
            StunAttribute::Fingerprint(_) => AttributeType::Fingerprint,
        }
    }
}

/// STUN message.
#[derive(Debug, Clone)]
pub struct StunMessage {
    pub message_type: MessageType,
    pub transaction_id: [u8; 12],
    pub attributes: Vec<StunAttribute>,
}

/// The value a message stands for.
pub struct StunMessageView {
    pub message_type: MessageType,
    pub transaction_id: Seq<u8>,
    pub attributes: Seq<StunAttributeView>,
}

impl View for StunMessage {
    type V = StunMessageView;

    open spec fn view(&self) -> StunMessageView {
        StunMessageView {
            message_type: self.message_type,
            transaction_id: self.transaction_id@,
            attributes: self.attributes@.map_values(|a: StunAttribute| a@),
        }
    }
}

// ---------------------------------------------------------------------------
// The encoding
// ---------------------------------------------------------------------------

/// The zero bytes that pad `n` bytes to a multiple of four.
pub open spec fn padding(n: int) -> Seq<u8> {
    Seq::new(((4 - n % 4) % 4) as nat, |i: int| 0u8)
}

/// The address family byte: 1 for IPv4, 2 for IPv6.
pub open spec fn family_of(addr: SocketAddr) -> u8 {
    match addr.ip {
        IpAddr::V4(_) => 1u8,
        IpAddr::V6(_) => 2u8,
    }
}

/// The magic cookie that follows the length in every header.
pub const MAGIC_COOKIE: u32 = 0x2112A442;

/// The mask of an XOR-mapped port: the cookie's high 16 bits.
pub const PORT_MASK: u16 = 0x2112;

/// The cookie's four bytes, most significant first.
pub open spec fn cookie_bytes() -> Seq<u8> {
    seq![0x21u8, 0x12u8, 0xA4u8, 0x42u8]
}

/// The bytes an XOR-mapped address is masked with: the cookie, then the
/// transaction id (an IPv4 address uses the first four).
pub open spec fn xor_mask(t: Seq<u8>) -> Seq<u8> {
    cookie_bytes() + t
}

/// Each octet masked with the mask byte at its index.
pub open spec fn xor_octets(o: Seq<u8>, t: Seq<u8>) -> Seq<u8> {
    Seq::new(o.len(), |i: int| o[i] ^ xor_mask(t)[i])
}

/// The value of a (MAPPED-)ADDRESS attribute.
pub open spec fn spec_encode_address(addr: SocketAddr) -> Seq<u8> {
    seq![0u8, family_of(addr)] + be16(addr.port) + spec_octets(addr.ip)
}

/// The value of an XOR-MAPPED-ADDRESS attribute.
pub open spec fn spec_encode_xor_address(addr: SocketAddr, t: Seq<u8>) -> Seq<u8> {
    seq![0u8, family_of(addr)] + be16(addr.port ^ PORT_MASK) + xor_octets(
        spec_octets(addr.ip),
        t,
    )
}

/// The length field of an attribute: the byte length of its value, as a `u16`
/// (strings are counted in UTF-8 bytes without padding, truncated to 16 bits).
pub open spec fn spec_value_length(a: StunAttributeView) -> u16 {
    match a {
        StunAttributeView::Software(s) => (encode_utf8(s).len() % 0x10000) as u16,
        StunAttributeView::MappedAddress(addr) => if addr.ip is V4 { 8 } else { 20 },
        StunAttributeView::XorMappedAddress(addr) => if addr.ip is V4 { 8 } else { 20 },
        StunAttributeView::Username(s) => (encode_utf8(s).len() % 0x10000) as u16,
        StunAttributeView::Fingerprint(_) => 4,
        _ => 0,
    }
}

/// The bytes that follow an attribute's header.
pub open spec fn spec_attribute_body(a: StunAttributeView, t: Seq<u8>) -> Seq<u8> {
    match a {
        StunAttributeView::Software(s) => encode_utf8(s) + padding(encode_utf8(s).len() as int),
        StunAttributeView::MappedAddress(addr) => spec_encode_address(addr),
        StunAttributeView::XorMappedAddress(addr) => spec_encode_xor_address(addr, t),
        StunAttributeView::Username(s) => encode_utf8(s) + padding(encode_utf8(s).len() as int),
        StunAttributeView::Fingerprint(fp) => be32(fp),
        _ => Seq::empty(),
    }
}

/// An attribute on the wire: type, length, value.
pub open spec fn spec_encode_attribute(a: StunAttributeView, t: Seq<u8>) -> Seq<u8> {
    be16(spec_attribute_type_code(spec_type_of_attribute(a))) + be16(spec_value_length(a))
        + spec_attribute_body(a, t)
}

/// The attributes on the wire, one after the other.
pub open spec fn spec_encode_attributes(attrs: Seq<StunAttributeView>, t: Seq<u8>) -> Seq<u8>
    decreases attrs.len(),
{
    if attrs.len() == 0 {
        Seq::empty()
    } else {
        spec_encode_attributes(attrs.drop_last(), t) + spec_encode_attribute(attrs.last(), t)
    }
}

/// `n` rounded up to a multiple of four.
pub open spec fn padded(n: int) -> int {
    n + (4 - n % 4) % 4
}

/// The sum of the attributes' lengths: four header bytes each plus the
/// length field rounded up to a multiple of four.
pub open spec fn spec_attributes_length(attrs: Seq<StunAttributeView>) -> int
    decreases attrs.len(),
{
    if attrs.len() == 0 {
        0
    } else {
        spec_attributes_length(attrs.drop_last()) + 4 + padded(spec_value_length(attrs.last()) as int)
    }
}

/// The attributes other than FINGERPRINT, in order.
pub open spec fn without_fingerprint(attrs: Seq<StunAttributeView>) -> Seq<StunAttributeView>
    decreases attrs.len(),
{
    if attrs.len() == 0 {
        Seq::empty()
    } else if attrs.last() is Fingerprint {
        without_fingerprint(attrs.drop_last())
    } else {
        without_fingerprint(attrs.drop_last()).push(attrs.last())
    }
}

/// A message on the wire: type, total attribute length, magic cookie,
/// transaction id, attributes.
pub open spec fn spec_encode_parts(
    message_type: MessageType,
    t: Seq<u8>,
    attrs: Seq<StunAttributeView>,
) -> Seq<u8> {
    be16(spec_message_type_code(message_type)) + be16(spec_attributes_length(attrs) as u16)
        + cookie_bytes() + t + spec_encode_attributes(attrs, t)
}

/// The encoding of a message.
pub open spec fn spec_encode(m: StunMessageView) -> Seq<u8> {
    spec_encode_parts(m.message_type, m.transaction_id, m.attributes)
}

/// The encoding of a message with its FINGERPRINT attributes left out.
pub open spec fn spec_encode_without_fingerprint(m: StunMessageView) -> Seq<u8> {
    spec_encode_parts(m.message_type, m.transaction_id, without_fingerprint(m.attributes))
}

/// Whether the attributes' total length fits the 16-bit length field.
pub open spec fn encodable(attrs: Seq<StunAttributeView>) -> bool {
    spec_attributes_length(attrs) <= 0xFFFF
}

/// The FINGERPRINT value of a message: the CRC-32 of its encoding without
/// fingerprints, XOR 0x5354554E.
pub open spec fn spec_fingerprint(m: StunMessageView) -> u32 {
    crc32_of(spec_encode_without_fingerprint(m)) ^ 0x5354554Eu32
}

proof fn lemma_take_step<A>(s: Seq<A>, i: int)
    requires
        0 <= i < s.len(),
    ensures
        s.take(i + 1) == s.take(i).push(s[i]),
        s.take(i + 1).drop_last() == s.take(i),
        s.take(i + 1).last() == s[i],
{
    assert(s.take(i + 1) =~= s.take(i).push(s[i]));
    assert(s.take(i + 1).drop_last() =~= s.take(i));
}

proof fn lemma_length_push(s: Seq<StunAttributeView>, x: StunAttributeView)
    ensures
        spec_attributes_length(s.push(x)) == spec_attributes_length(s) + 4 + padded(spec_value_length(x) as int),
{
    assert(s.push(x).drop_last() =~= s);
}

proof fn lemma_encode_push(s: Seq<StunAttributeView>, x: StunAttributeView, t: Seq<u8>)
    ensures
        spec_encode_attributes(s.push(x), t) == spec_encode_attributes(s, t) + spec_encode_attribute(x, t),
{
    assert(s.push(x).drop_last() =~= s);
}

proof fn lemma_without_fingerprint_push(s: Seq<StunAttributeView>, x: StunAttributeView)
    ensures
        without_fingerprint(s.push(x)) == if x is Fingerprint {
            without_fingerprint(s)
        } else {
            without_fingerprint(s).push(x)
        },
{
    assert(s.push(x).drop_last() =~= s);
}

proof fn lemma_length_nonneg(s: Seq<StunAttributeView>)
    ensures
        spec_attributes_length(s) >= 0,
    decreases s.len(),
{
    if s.len() > 0 {
        lemma_length_nonneg(s.drop_last());
    }
}

proof fn lemma_attributes_length_prefix(attrs: Seq<StunAttributeView>, i: int)
    requires
        0 <= i <= attrs.len(),
    ensures
        0 <= spec_attributes_length(attrs.take(i)) <= spec_attributes_length(attrs),
    decreases attrs.len() - i,
{
    lemma_length_nonneg(attrs.take(i));
    if i < attrs.len() {
        lemma_attributes_length_prefix(attrs, i + 1);
        lemma_take_step(attrs, i);
        lemma_length_push(attrs.take(i), attrs[i]);
    } else {
        assert(attrs.take(i) =~= attrs);
    }
}

proof fn lemma_without_fingerprint_length_prefix(attrs: Seq<StunAttributeView>, i: int)
    requires
        0 <= i <= attrs.len(),
    ensures
        0 <= spec_attributes_length(without_fingerprint(attrs.take(i)))
            <= spec_attributes_length(without_fingerprint(attrs)),
    decreases attrs.len() - i,
{
    lemma_length_nonneg(without_fingerprint(attrs.take(i)));
    if i < attrs.len() {
        lemma_without_fingerprint_length_prefix(attrs, i + 1);
        lemma_take_step(attrs, i);
        lemma_without_fingerprint_push(attrs.take(i), attrs[i]);
        lemma_length_push(without_fingerprint(attrs.take(i)), attrs[i]);
    } else {
        assert(attrs.take(i) =~= attrs);
    }
}

/// The mask byte at index `i`: a cookie byte, then a transaction-id byte.
fn mask_byte(t: &[u8; 12], i: usize) -> (b: u8)
    requires
        i < 16,
    ensures
        b == xor_mask(t@)[i as int],
{
    if i == 0 {
        0x21
    } else if i == 1 {
        0x12
    } else if i == 2 {
        0xA4
    } else if i == 3 {
        0x42
    } else {
        t[i - 4]
    }
}

impl StunMessage {
    /// A binding request with a fresh random transaction id and no attributes.
    pub fn new_binding_request() -> (m: StunMessage)
        ensures
            m.message_type == MessageType::BindingRequest,
            m.attributes@.len() == 0,
    {
        let bytes = random_bytes(12);
        let mut transaction_id = [0u8; 12];
        let mut i: usize = 0;
        while i < 12
            invariant
                bytes@.len() == 12,
                i <= 12,
            decreases 12 - i,
        {
            transaction_id.set(i, bytes[i]);
            i = i + 1;
        }
        StunMessage {
            message_type: MessageType::BindingRequest,
            transaction_id,
            attributes: Vec::new(),
        }
    }

    /// Adds a SOFTWARE attribute.
    pub fn add_software(&mut self, software: String)
        ensures
            final(self).message_type == old(self).message_type,
            final(self).transaction_id == old(self).transaction_id,
            final(self)@.attributes == old(self)@.attributes.push(StunAttributeView::Software(software@)),
    {
        let ghost s = software@;
        self.attributes.push(StunAttribute::Software(software));
        assert(final(self)@.attributes =~= old(self)@.attributes.push(StunAttributeView::Software(s)));
    }

    /// Adds a FINGERPRINT attribute computed over the message as it stands.
    pub fn add_fingerprint(&mut self)
        requires
            encodable(without_fingerprint(old(self)@.attributes)),
        ensures
            final(self).message_type == old(self).message_type,
            final(self).transaction_id == old(self).transaction_id,
            final(self)@.attributes == old(self)@.attributes.push(
                StunAttributeView::Fingerprint(spec_fingerprint(old(self)@)),
            ),
    {
        let fingerprint = self.calculate_fingerprint();
        self.attributes.push(StunAttribute::Fingerprint(fingerprint));
        assert(final(self)@.attributes =~= old(self)@.attributes.push(
            StunAttributeView::Fingerprint(fingerprint),
        ));
    }

    /// The FINGERPRINT value of this message.
    pub fn calculate_fingerprint(&self) -> (fp: u32)
        requires
            encodable(without_fingerprint(self@.attributes)),
        ensures
            fp == spec_fingerprint(self@),
    {
        let bytes = self.encode_without_fingerprint();
        crc32(bytes.as_slice()) ^ 0x5354554E
    }

    /// The encoding of this message with its FINGERPRINT attributes left out.
    pub fn encode_without_fingerprint(&self) -> (out: Vec<u8>)
        requires
            encodable(without_fingerprint(self@.attributes)),
        ensures
            out@ == spec_encode_without_fingerprint(self@),
    {
        let ghost attrs = self@.attributes;
        let mut length: u16 = 0;
        let mut i: usize = 0;
        while i < self.attributes.len()
            invariant
                i <= self.attributes@.len(),
                attrs == self@.attributes,
                encodable(without_fingerprint(attrs)),
                length == spec_attributes_length(without_fingerprint(attrs.take(i as int))),
            decreases self.attributes@.len() - i,
        {
            let attr = &self.attributes[i];
            proof {
                lemma_take_step(attrs, i as int);
                lemma_without_fingerprint_length_prefix(attrs, i + 1);
                lemma_without_fingerprint_push(attrs.take(i as int), attrs[i as int]);
                lemma_length_push(without_fingerprint(attrs.take(i as int)), attrs[i as int]);
                lemma_length_nonneg(without_fingerprint(attrs.take(i as int)));
            }
            if !matches!(attr, StunAttribute::Fingerprint(_)) {
                length = length + self.attribute_length(attr);
            }
            i = i + 1;
        }
        assert(attrs.take(attrs.len() as int) =~= attrs);
        self.encode_with_length(length, false)
    }

    /// Encodes this message.
    pub fn encode(&self) -> (out: Vec<u8>)
        requires
            encodable(self@.attributes),
        ensures
            out@ == spec_encode(self@),
    {
        let ghost attrs = self@.attributes;
        let mut length: u16 = 0;
        let mut i: usize = 0;
        while i < self.attributes.len()
            invariant
                i <= self.attributes@.len(),
                attrs == self@.attributes,
                encodable(attrs),
                length == spec_attributes_length(attrs.take(i as int)),
            decreases self.attributes@.len() - i,
        {
            let attr = &self.attributes[i];
            proof {
                lemma_take_step(attrs, i as int);
                lemma_attributes_length_prefix(attrs, i + 1);
                lemma_length_push(attrs.take(i as int), attrs[i as int]);
                lemma_length_nonneg(attrs.take(i as int));
            }
            length = length + self.attribute_length(attr);
            i = i + 1;
        }
        assert(attrs.take(attrs.len() as int) =~= attrs);
        self.encode_with_length(length, true)
    }

    /// Writes the header with the given length field, then the attributes
    /// (all of them, or all but the fingerprints).
    fn encode_with_length(&self, length: u16, include_fingerprint: bool) -> (out: Vec<u8>)
        ensures
            include_fingerprint ==> out@ == be16(spec_message_type_code(self.message_type)) + be16(
                length,
            ) + cookie_bytes() + self.transaction_id@ + spec_encode_attributes(
                self@.attributes,
                self.transaction_id@,
            ),
            !include_fingerprint ==> out@ == be16(spec_message_type_code(self.message_type))
                + be16(length) + cookie_bytes() + self.transaction_id@ + spec_encode_attributes(
                without_fingerprint(self@.attributes),
                self.transaction_id@,
            ),
    {
        let ghost attrs = self@.attributes;
        let ghost t = self.transaction_id@;
        let mut result: Vec<u8> = Vec::new();
        push_u16_be(&mut result, self.message_type.code());
        push_u16_be(&mut result, length);
        push_u32_be(&mut result, MAGIC_COOKIE);
        assert(be32(MAGIC_COOKIE) =~= cookie_bytes());
        extend_bytes(&mut result, &self.transaction_id);
        let ghost header = result@;
        let mut i: usize = 0;
        while i < self.attributes.len()
            invariant
                i <= self.attributes@.len(),
                attrs == self@.attributes,
                t == self.transaction_id@,
                include_fingerprint ==> result@ == header + spec_encode_attributes(
                    attrs.take(i as int),
                    t,
                ),
                !include_fingerprint ==> result@ == header + spec_encode_attributes(
                    without_fingerprint(attrs.take(i as int)),
                    t,
                ),
            decreases self.attributes@.len() - i,
        {
            let attr = &self.attributes[i];
            proof {
                lemma_take_step(attrs, i as int);
                lemma_encode_push(attrs.take(i as int), attrs[i as int], t);
                lemma_without_fingerprint_push(attrs.take(i as int), attrs[i as int]);
                lemma_encode_push(without_fingerprint(attrs.take(i as int)), attrs[i as int], t);
            }
            if include_fingerprint || !matches!(attr, StunAttribute::Fingerprint(_)) {
                self.encode_attribute(attr, &mut result);
            }
            i = i + 1;
        }
        assert(attrs.take(attrs.len() as int) =~= attrs);
        result
    }

    /// Appends one attribute: type, length, value.
    fn encode_attribute(&self, attr: &StunAttribute, result: &mut Vec<u8>)
        ensures
            final(result)@ == old(result)@ + spec_encode_attribute(attr@, self.transaction_id@),
    {
        let attribute_type = attr.attribute_type();
        push_u16_be(result, attribute_type.code());
        let length = self.attribute_value_length(attr);
        push_u16_be(result, length);
        let ghost before = result@;
        match attr {
            StunAttribute::Software(software) => {
                let bytes = software.as_str().as_bytes();
                extend_bytes(result, bytes);
                self.pad_to_4_bytes(result, bytes.len());
            },
            StunAttribute::MappedAddress(addr) => {
                self.encode_address(addr, result);
            },
            StunAttribute::XorMappedAddress(addr) => {
                self.encode_xor_address(addr, result);
            },
            StunAttribute::Username(username) => {
                let bytes = username.as_str().as_bytes();
                extend_bytes(result, bytes);
                self.pad_to_4_bytes(result, bytes.len());
            },
            StunAttribute::Fingerprint(fp) => {
                push_u32_be(result, *fp);
            },
            _ => {},
        }
        assert(final(result)@ =~= old(result)@ + spec_encode_attribute(attr@, self.transaction_id@));
    }

    /// Appends an address value.
    fn encode_address(&self, addr: &SocketAddr, result: &mut Vec<u8>)
        ensures
            final(result)@ == old(result)@ + spec_encode_address(*addr),
    {
        result.push(0x00);
        match addr.ip {
            IpAddr::V4(_) => result.push(0x01),
            IpAddr::V6(_) => result.push(0x02),
        }
        push_u16_be(result, addr.port);
        let octets = addr.ip.octets();
        extend_bytes(result, octets.as_slice());
        assert(final(result)@ =~= old(result)@ + spec_encode_address(*addr));
    }

    /// Appends an XOR-mapped address value.
    fn encode_xor_address(&self, addr: &SocketAddr, result: &mut Vec<u8>)
        ensures
            final(result)@ == old(result)@ + spec_encode_xor_address(*addr, self.transaction_id@),
    {
        let ghost t = self.transaction_id@;
        result.push(0x00);
        match addr.ip {
            IpAddr::V4(_) => result.push(0x01),
            IpAddr::V6(_) => result.push(0x02),
        }
        let xor_port = addr.port ^ PORT_MASK;
        push_u16_be(result, xor_port);
        let octets = addr.ip.octets();
        assert(octets@.len() <= 16);
        let ghost start = result@;
        let mut i: usize = 0;
        while i < octets.len()
            invariant
                i <= octets@.len(),
                octets@.len() <= 16,
                t == self.transaction_id@,
                t.len() == 12,
                result@ == start + xor_octets(octets@, t).take(i as int),
            decreases octets@.len() - i,
        {
            let m = mask_byte(&self.transaction_id, i);
            result.push(octets[i] ^ m);
            i = i + 1;
            assert(xor_octets(octets@, t).take(i as int) =~= xor_octets(octets@, t).take(
                (i - 1) as int,
            ).push(octets@[i - 1] ^ xor_mask(t)[i - 1]));
        }
        assert(xor_octets(octets@, t).take(octets@.len() as int) =~= xor_octets(octets@, t));
        assert(final(result)@ =~= old(result)@ + spec_encode_xor_address(*addr, t));
    }

    /// Appends the zero bytes that pad `current_length` bytes to a multiple of four.
    fn pad_to_4_bytes(&self, result: &mut Vec<u8>, current_length: usize)
        ensures
            final(result)@ == old(result)@ + padding(current_length as int),
    {
        let padding_len = (4 - (current_length % 4)) % 4;
        let mut i: usize = 0;
        while i < padding_len
            invariant
                i <= padding_len,
                padding_len == (4 - current_length % 4) % 4,
                result@ == old(result)@ + Seq::new(i as nat, |j: int| 0u8),
            decreases padding_len - i,
        {
            result.push(0x00);
            i = i + 1;
            assert(Seq::new(i as nat, |j: int| 0u8) =~= Seq::new((i - 1) as nat, |j: int| 0u8).push(0u8));
        }
        assert(padding(current_length as int) =~= Seq::new(padding_len as nat, |j: int| 0u8));
    }

    /// The length field of an attribute.
    fn attribute_value_length(&self, attr: &StunAttribute) -> (len: u16)
        ensures
            len == spec_value_length(attr@),
    {
        match attr {
            StunAttribute::Software(software) => {
                let n = software.as_str().as_bytes().len();
                (n % 0x10000) as u16
            },
            StunAttribute::MappedAddress(addr) => match addr.ip {
                IpAddr::V4(_) => 8,
                IpAddr::V6(_) => 20,
            },
            StunAttribute::XorMappedAddress(addr) => match addr.ip {
                IpAddr::V4(_) => 8,
                IpAddr::V6(_) => 20,
            },
            StunAttribute::Username(username) => {
                let n = username.as_str().as_bytes().len();
                (n % 0x10000) as u16
            },
            StunAttribute::Fingerprint(_) => 4,
            _ => 0,
        }
    }

    /// The attribute's length field rounded up to a multiple of four, plus
    /// its four header bytes.
    fn attribute_length(&self, attr: &StunAttribute) -> (len: u16)
        requires
            padded(spec_value_length(attr@) as int) <= 0xFFFF - 4,
        ensures
            len == 4 + padded(spec_value_length(attr@) as int),
    {
        let v = self.attribute_value_length(attr);
        4 + v + (4 - v % 4) % 4
    }
}

// ---------------------------------------------------------------------------
// The decoding
// ---------------------------------------------------------------------------

/// STUN errors.
#[derive(Debug)]
pub enum StunError {
    Io(std::io::Error),
    InvalidPacket,
    InvalidResponse,
    NoMappedAddress,
}

/// An address value read back.
pub open spec fn spec_decode_address(b: Seq<u8>) -> Option<SocketAddr> {
    if b.len() < 8 {
        None
    } else {
        let port = u16_be(b[2], b[3]);
        if b[1] == 1 {
            Some(SocketAddr { ip: IpAddr::V4(u32_be(b[4], b[5], b[6], b[7])), port })
        } else if b[1] == 2 {
            if b.len() < 20 {
                None
            } else {
                Some(SocketAddr { ip: IpAddr::V6(u128_be(b.subrange(4, 20))), port })
            }
        } else {
            None
        }
    }
}

/// An XOR-mapped address value read back.
pub open spec fn spec_decode_xor_address(b: Seq<u8>, t: Seq<u8>) -> Option<SocketAddr> {
    if b.len() < 8 {
        None
    } else {
        let port = u16_be(b[2], b[3]) ^ PORT_MASK;
        if b[1] == 1 {
            let o = xor_octets(b.subrange(4, 8), t);
            Some(SocketAddr { ip: IpAddr::V4(u32_be(o[0], o[1], o[2], o[3])), port })
        } else if b[1] == 2 {
            if b.len() < 20 {
                None
            } else {
                Some(SocketAddr { ip: IpAddr::V6(u128_be(xor_octets(b.subrange(4, 20), t))), port })
            }
        } else {
            None
        }
    }
}

/// The attribute that a type code and a value stand for, where the decoder
/// keeps it: XOR-MAPPED-ADDRESS, MAPPED-ADDRESS and SOFTWARE that parse.
pub open spec fn spec_parse_attribute(ty: u16, v: Seq<u8>, t: Seq<u8>) -> Option<StunAttributeView> {
    match spec_attribute_type_from_u16(ty) {
        AttributeType::XorMappedAddress => match spec_decode_xor_address(v, t) {
            Some(a) => Some(StunAttributeView::XorMappedAddress(a)),
            None => None,
        },
        AttributeType::MappedAddress => match spec_decode_address(v) {
            Some(a) => Some(StunAttributeView::MappedAddress(a)),
            None => None,
        },
        AttributeType::Software => if valid_utf8(v) {
            Some(StunAttributeView::Software(decode_utf8(v)))
        } else {
            None
        },
        _ => None,
    }
}

/// How far an offset is from the end of the attribute area.
pub open spec fn remaining(end: int, off: int) -> int {
    if off < end {
        end - off
    } else {
        0
    }
}

/// The attributes read from offset `off` up to `end`: each has a 4-byte header
/// and a value padded to four bytes; reading stops at `end` or where the
/// bytes run out, and attributes that do not parse are skipped.
pub open spec fn spec_decode_attributes(b: Seq<u8>, t: Seq<u8>, end: int, off: int) -> Seq<
    StunAttributeView,
>
    decreases remaining(end, off),
{
    if off >= end || off < 0 || off + 4 > b.len() {
        Seq::empty()
    } else {
        let len = u16_be(b[off + 2], b[off + 3]) as int;
        let o2 = off + 4;
        if o2 + len > b.len() {
            Seq::empty()
        } else {
            let next = o2 + len + (4 - len % 4) % 4;
            let rest = spec_decode_attributes(b, t, end, next);
            match spec_parse_attribute(u16_be(b[off], b[off + 1]), b.subrange(o2, o2 + len), t) {
                Some(a) => seq![a] + rest,
                None => rest,
            }
        }
    }
}

/// The message that at least 20 bytes stand for: the transaction id is at
/// bytes 8 to 20, after the cookie, and the attributes follow the header.
pub open spec fn spec_decode(b: Seq<u8>) -> StunMessageView {
    let t = b.subrange(8, 20);
    StunMessageView {
        message_type: spec_message_type_from_u16(u16_be(b[0], b[1])),
        transaction_id: t,
        attributes: spec_decode_attributes(b, t, 20 + u16_be(b[2], b[3]), 20),
    }
}

/// The first XOR-MAPPED-ADDRESS among the attributes.
pub open spec fn spec_first_xor_mapped(attrs: Seq<StunAttributeView>) -> Option<SocketAddr>
    decreases attrs.len(),
{
    if attrs.len() == 0 {
        None
    } else {
        match attrs[0] {
            StunAttributeView::XorMappedAddress(a) => Some(a),
            _ => spec_first_xor_mapped(attrs.drop_first()),
        }
    }
}

/// The reply to a binding request, read from the bytes of the response.
pub open spec fn spec_public_address(b: Seq<u8>) -> Result<SocketAddr, ()> {
    if b.len() < 20 {
        Err(())
    } else {
        let m = spec_decode(b);
        if m.message_type != MessageType::BindingResponse {
            Err(())
        } else {
            match spec_first_xor_mapped(m.attributes) {
                Some(a) => Ok(a),
                None => Err(()),
            }
        }
    }
}

impl StunMessage {
    /// Decodes a STUN message.
    pub fn decode(bytes: &[u8]) -> (r: Result<StunMessage, StunError>)
        ensures
            bytes@.len() < 20 ==> r matches Err(StunError::InvalidPacket),
            bytes@.len() >= 20 ==> (r matches Ok(m) && m@ == spec_decode(bytes@)),
    {
        if bytes.len() < 20 {
            return Err(StunError::InvalidPacket);
        }
        let message_type = MessageType::from_code(read_u16_be(bytes, 0));
        let length = read_u16_be(bytes, 2) as usize;
        let mut transaction_id = [0u8; 12];
        let mut i: usize = 0;
        while i < 12
            invariant
                i <= 12,
                bytes@.len() >= 20,
                forall|j: int| 0 <= j < i ==> transaction_id@[j] == bytes@[8 + j],
            decreases 12 - i,
        {
            transaction_id.set(i, bytes[8 + i]);
            i = i + 1;
        }
        let ghost b = bytes@;
        let ghost t = b.subrange(8, 20);
        assert(transaction_id@ =~= t);
        let end: usize = 20 + length;
        let mut attributes: Vec<StunAttribute> = Vec::new();
        let mut offset: usize = 20;
        assert(attributes@.map_values(|a: StunAttribute| a@) =~= Seq::<StunAttributeView>::empty());
        loop
            invariant
                b == bytes@,
                20 <= offset,
                end == 20 + u16_be(b[2], b[3]),
                end <= 20 + 0xFFFF,
                transaction_id@ == t,
                t == b.subrange(8, 20),
                attributes@.map_values(|a: StunAttribute| a@) + spec_decode_attributes(
                    b,
                    t,
                    end as int,
                    offset as int,
                ) == spec_decode_attributes(b, t, end as int, 20),
            ensures
                attributes@.map_values(|a: StunAttribute| a@) == spec_decode_attributes(
                    b,
                    t,
                    end as int,
                    20,
                ),
            decreases remaining(end as int, offset as int),
        {
            let ghost prefix = attributes@.map_values(|a: StunAttribute| a@);
            if offset >= end || offset + 4 > bytes.len() {
                assert(spec_decode_attributes(b, t, end as int, offset as int) =~= Seq::empty());
                assert(prefix + Seq::<StunAttributeView>::empty() =~= prefix);
                break;
            }
            let attr_type = read_u16_be(bytes, offset);
            let attr_length = read_u16_be(bytes, offset + 2) as usize;
            let o2 = offset + 4;
            if o2 + attr_length > bytes.len() {
                assert(spec_decode_attributes(b, t, end as int, offset as int) =~= Seq::empty());
                assert(prefix + Seq::<StunAttributeView>::empty() =~= prefix);
                break;
            }
            let value = slice_subrange(bytes, o2, o2 + attr_length);
            let next = o2 + attr_length + (4 - attr_length % 4) % 4;
            let ghost rest = spec_decode_attributes(b, t, end as int, next as int);
            let parsed = Self::parse_attribute(attr_type, value, &transaction_id);
            match parsed {
                Some(attr) => {
                    let ghost av = attr@;
                    attributes.push(attr);
                    assert(attributes@.map_values(|a: StunAttribute| a@) =~= prefix.push(av));
                    assert(prefix.push(av) + rest =~= prefix + (seq![av] + rest));
                },
                None => {},
            }
            offset = next;
        }
        let m = StunMessage { message_type, transaction_id, attributes };
        assert(m@.attributes == spec_decode(b).attributes);
        Ok(m)
    }

    /// The attribute that a type code and a value stand for, where the decoder keeps it.
    fn parse_attribute(attr_type: u16, value: &[u8], transaction_id: &[u8; 12]) -> (r: Option<
        StunAttribute,
    >)
        ensures
            r matches Some(a) ==> spec_parse_attribute(attr_type, value@, transaction_id@) == Some(
                a@,
            ),
            r is None ==> spec_parse_attribute(attr_type, value@, transaction_id@) is None,
    {
        match AttributeType::from_code(attr_type) {
            AttributeType::XorMappedAddress => match Self::decode_xor_address(value, transaction_id) {
                Some(addr) => Some(StunAttribute::XorMappedAddress(addr)),
                None => None,
            },
            AttributeType::MappedAddress => match Self::decode_address(value) {
                Some(addr) => Some(StunAttribute::MappedAddress(addr)),
                None => None,
            },
            AttributeType::Software => match utf8_string(value) {
                Some(s) => Some(StunAttribute::Software(s)),
                None => None,
            },
            _ => None,
        }
    }

    /// Reads an address value.
    pub fn decode_address(bytes: &[u8]) -> (r: Option<SocketAddr>)
        ensures
            r == spec_decode_address(bytes@),
    {
        if bytes.len() < 8 {
            return None;
        }
        let family = bytes[1];
        let port = read_u16_be(bytes, 2);
        if family == 0x01 {
            let ip = IpAddr::v4(bytes[4], bytes[5], bytes[6], bytes[7]);
            Some(SocketAddr { ip, port })
        } else if family == 0x02 {
            if bytes.len() < 20 {
                return None;
            }
            let v = read_u128_be(bytes, 4);
            Some(SocketAddr { ip: IpAddr::V6(v), port })
        } else {
            None
        }
    }

    /// Reads an XOR-mapped address value.
    pub fn decode_xor_address(bytes: &[u8], transaction_id: &[u8; 12]) -> (r: Option<SocketAddr>)
        ensures
            r == spec_decode_xor_address(bytes@, transaction_id@),
    {
        if bytes.len() < 8 {
            return None;
        }
        let ghost t = transaction_id@;
        let family = bytes[1];
        let port = read_u16_be(bytes, 2) ^ PORT_MASK;
        if family == 0x01 {
            let ip = IpAddr::v4(
                bytes[4] ^ mask_byte(transaction_id, 0),
                bytes[5] ^ mask_byte(transaction_id, 1),
                bytes[6] ^ mask_byte(transaction_id, 2),
                bytes[7] ^ mask_byte(transaction_id, 3),
            );
            assert(xor_octets(bytes@.subrange(4, 8), t)[0] == bytes@[4] ^ xor_mask(t)[0]);
            assert(xor_octets(bytes@.subrange(4, 8), t)[1] == bytes@[5] ^ xor_mask(t)[1]);
            assert(xor_octets(bytes@.subrange(4, 8), t)[2] == bytes@[6] ^ xor_mask(t)[2]);
            assert(xor_octets(bytes@.subrange(4, 8), t)[3] == bytes@[7] ^ xor_mask(t)[3]);
            Some(SocketAddr { ip, port })
        } else if family == 0x02 {
            if bytes.len() < 20 {
                return None;
            }
            let mut octets: Vec<u8> = Vec::new();
            let mut i: usize = 0;
            while i < 16
                invariant
                    i <= 16,
                    bytes@.len() >= 20,
                    t == transaction_id@,
                    t.len() == 12,
                    octets@ == xor_octets(bytes@.subrange(4, 20), t).take(i as int),
                decreases 16 - i,
            {
                let m = mask_byte(transaction_id, i);
                octets.push(bytes[4 + i] ^ m);
                i = i + 1;
                assert(xor_octets(bytes@.subrange(4, 20), t).take(i as int) =~= xor_octets(
                    bytes@.subrange(4, 20),
                    t,
                ).take((i - 1) as int).push(bytes@[4 + i - 1] ^ xor_mask(t)[i - 1]));
            }
            assert(octets@ =~= xor_octets(bytes@.subrange(4, 20), t));
            let v = read_u128_be(octets.as_slice(), 0);
            assert(octets@.subrange(0, 16) =~= octets@);
            Some(SocketAddr { ip: IpAddr::V6(v), port })
        } else {
            None
        }
    }

    /// The first XOR-MAPPED-ADDRESS of the message.
    pub fn get_xor_mapped_address(&self) -> (r: Option<SocketAddr>)
        ensures
            r == spec_first_xor_mapped(self@.attributes),
    {
        let ghost attrs = self@.attributes;
        let mut i: usize = 0;
        assert(attrs.skip(0) =~= attrs);
        while i < self.attributes.len()
            invariant
                i <= self.attributes@.len(),
                attrs == self@.attributes,
                spec_first_xor_mapped(attrs.skip(i as int)) == spec_first_xor_mapped(attrs),
            decreases self.attributes@.len() - i,
        {
            proof {
                assert(attrs.skip(i as int)[0] == attrs[i as int]);
                assert(attrs.skip(i as int).drop_first() =~= attrs.skip(i + 1));
            }
            if let StunAttribute::XorMappedAddress(addr) = &self.attributes[i] {
                return Some(*addr);
            }
            i = i + 1;
        }
        None
    }

    /// The public address that a STUN server reports in its response to a binding request.
    pub fn public_address_from_response(bytes: &[u8]) -> (r: Result<SocketAddr, StunError>)
        ensures
            bytes@.len() < 20 ==> r matches Err(StunError::InvalidPacket),
            bytes@.len() >= 20 && spec_decode(bytes@).message_type != MessageType::BindingResponse
                ==> r matches Err(StunError::InvalidResponse),
            bytes@.len() >= 20 && spec_decode(bytes@).message_type == MessageType::BindingResponse
                ==> match spec_first_xor_mapped(spec_decode(bytes@).attributes) {
                Some(a) => r == Ok::<SocketAddr, StunError>(a),
                None => r matches Err(StunError::NoMappedAddress),
            },
    {
        let response = match StunMessage::decode(bytes) {
            Ok(m) => m,
            Err(e) => return Err(e),
        };
        if response.message_type != MessageType::BindingResponse {
            return Err(StunError::InvalidResponse);
        }
        match response.get_xor_mapped_address() {
            Some(a) => Ok(a),
            None => Err(StunError::NoMappedAddress),
        }
    }
}

// ---------------------------------------------------------------------------
// Laws
// ---------------------------------------------------------------------------

/// Decoding an encoded message gives back its type and transaction id, for a
/// message whose encoding is long enough to decode and whose type is canonical.
pub proof fn lemma_decode_encode_header(m: StunMessageView)
    requires
        is_canonical_message_type(m.message_type),
        m.transaction_id.len() == 12,
        spec_encode(m).len() >= 20,
    ensures
        spec_decode(spec_encode(m)).message_type == m.message_type,
        spec_decode(spec_encode(m)).transaction_id == m.transaction_id,
{
    let e = spec_encode(m);
    let code = spec_message_type_code(m.message_type);
    lemma_be16_roundtrip(code);
    assert(e[0] == be16(code)[0]);
    assert(e[1] == be16(code)[1]);
    lemma_message_type_roundtrip(m.message_type);
    assert(e.subrange(8, 20) =~= m.transaction_id);
}

proof fn lemma_xor_u8_involution(x: u8, k: u8)
    ensures
        (x ^ k) ^ k == x,
{
    assert((x ^ k) ^ k == x) by (bit_vector);
}

proof fn lemma_xor_u16_involution(x: u16, k: u16)
    ensures
        (x ^ k) ^ k == x,
{
    assert((x ^ k) ^ k == x) by (bit_vector);
}

/// Reading back an encoded address gives the address.
pub proof fn lemma_address_roundtrip(a: SocketAddr)
    ensures
        spec_decode_address(spec_encode_address(a)) == Some(a),
{
    let e = spec_encode_address(a);
    lemma_be16_roundtrip(a.port);
    match a.ip {
        IpAddr::V4(v) => {
            lemma_be32_roundtrip(v);
            assert(e[4] == be32(v)[0] && e[5] == be32(v)[1] && e[6] == be32(v)[2] && e[7] == be32(v)[3]);
        },
        IpAddr::V6(v) => {
            lemma_be128_roundtrip(v);
            assert(e.subrange(4, 20) =~= be128(v));
        },
    }
}

/// Reading back an encoded XOR-mapped address with the same transaction id gives the address.
pub proof fn lemma_xor_address_roundtrip(a: SocketAddr, t: Seq<u8>)
    requires
        t.len() == 12,
    ensures
        spec_decode_xor_address(spec_encode_xor_address(a, t), t) == Some(a),
{
    let e = spec_encode_xor_address(a, t);
    lemma_be16_roundtrip(a.port ^ PORT_MASK);
    lemma_xor_u16_involution(a.port, PORT_MASK);
    let o = spec_octets(a.ip);
    let n: int = if a.ip is V4 { 4 } else { 16 };
    assert(o.len() == n);
    assert(e.subrange(4, 4 + n) =~= xor_octets(o, t));
    assert forall|i: int| 0 <= i < n implies #[trigger] xor_octets(xor_octets(o, t), t)[i] == o[i] by {
        lemma_xor_u8_involution(o[i], xor_mask(t)[i]);
    }
    assert(xor_octets(xor_octets(o, t), t) =~= o);
    match a.ip {
        IpAddr::V4(v) => {
            lemma_be32_roundtrip(v);
        },
        IpAddr::V6(v) => {
            lemma_be128_roundtrip(v);
        },
    }
}

/// The attributes the decoder gives back as they were encoded: SOFTWARE of
/// fewer than 65536 bytes, MAPPED-ADDRESS and XOR-MAPPED-ADDRESS.
pub open spec fn decodes_back(a: StunAttributeView) -> bool {
    match a {
        StunAttributeView::Software(s) => encode_utf8(s).len() < 0x10000,
        StunAttributeView::MappedAddress(_) => true,
        StunAttributeView::XorMappedAddress(_) => true,
        _ => false,
    }
}

proof fn lemma_encode_front(attrs: Seq<StunAttributeView>, t: Seq<u8>)
    requires
        attrs.len() > 0,
    ensures
        spec_encode_attributes(attrs, t) == spec_encode_attribute(attrs[0], t) + spec_encode_attributes(
            attrs.drop_first(),
            t,
        ),
    decreases attrs.len(),
{
    if attrs.len() == 1 {
        assert(attrs.drop_last() =~= Seq::<StunAttributeView>::empty());
        assert(attrs.drop_first() =~= Seq::<StunAttributeView>::empty());
        assert(spec_encode_attributes(attrs.drop_last(), t) == Seq::<u8>::empty());
        assert(spec_encode_attributes(attrs.drop_first(), t) == Seq::<u8>::empty());
        assert(attrs.last() == attrs[0]);
        assert(Seq::<u8>::empty() + spec_encode_attribute(attrs[0], t) =~= spec_encode_attribute(attrs[0], t));
        assert(spec_encode_attribute(attrs[0], t) + Seq::<u8>::empty() =~= spec_encode_attribute(attrs[0], t));
    } else {
        let d = attrs.drop_last();
        lemma_encode_front(d, t);
        assert(attrs.drop_first().drop_last() =~= d.drop_first());
        assert(attrs.drop_first().last() == attrs.last());
        assert(d[0] == attrs[0]);
        assert(spec_encode_attributes(attrs, t) =~= spec_encode_attribute(attrs[0], t) + spec_encode_attributes(
            attrs.drop_first(),
            t,
        ));
    }
}

proof fn lemma_encoded_attribute_length(a: StunAttributeView, t: Seq<u8>)
    requires
        decodes_back(a),
        t.len() == 12,
    ensures
        spec_encode_attribute(a, t).len() == 4 + padded(spec_value_length(a) as int),
        spec_attribute_body(a, t).len() == padded(spec_value_length(a) as int),
{
    match a {
        StunAttributeView::XorMappedAddress(addr) => {
            assert(spec_octets(addr.ip).len() == if addr.ip is V4 { 4int } else { 16int });
        },
        StunAttributeView::MappedAddress(addr) => {
            assert(spec_octets(addr.ip).len() == if addr.ip is V4 { 4int } else { 16int });
        },
        _ => {},
    }
}

proof fn lemma_encoded_length(attrs: Seq<StunAttributeView>, t: Seq<u8>)
    requires
        forall|i: int| 0 <= i < attrs.len() ==> decodes_back(#[trigger] attrs[i]),
        t.len() == 12,
    ensures
        spec_encode_attributes(attrs, t).len() == spec_attributes_length(attrs),
    decreases attrs.len(),
{
    if attrs.len() > 0 {
        let d = attrs.drop_last();
        assert forall|i: int| 0 <= i < d.len() implies decodes_back(#[trigger] d[i]) by {
            assert(d[i] == attrs[i]);
        }
        lemma_encoded_length(d, t);
        lemma_encoded_attribute_length(attrs.last(), t);
    }
}

proof fn lemma_sub_of(b: Seq<u8>, off: int, e: Seq<u8>, x: int, y: int)
    requires
        0 <= off,
        off + e.len() <= b.len(),
        b.subrange(off, off + e.len()) == e,
        0 <= x <= y <= e.len(),
    ensures
        b.subrange(off + x, off + y) == e.subrange(x, y),
{
    assert forall|k: int| 0 <= k < y - x implies #[trigger] b.subrange(off + x, off + y)[k] == e.subrange(x, y)[k] by {
        assert(b.subrange(off, off + e.len())[x + k] == b[off + x + k]);
    }
    assert(b.subrange(off + x, off + y) =~= e.subrange(x, y));
}

proof fn lemma_parse_software(s: Seq<char>)
    requires
        encode_utf8(s).len() < 0x10000,
    ensures
        valid_utf8(encode_utf8(s)),
        decode_utf8(encode_utf8(s)) == s,
{
    vstd::utf8::encode_utf8_valid_utf8(s);
    vstd::utf8::encode_utf8_decode_utf8(s);
}

proof fn lemma_parse_xor(addr: SocketAddr, t: Seq<u8>)
    requires
        t.len() == 12,
    ensures
        spec_parse_attribute(0x0020, spec_encode_xor_address(addr, t), t) == Some(
            StunAttributeView::XorMappedAddress(addr),
        ),
{
    assert(spec_attribute_type_from_u16(0x0020) == AttributeType::XorMappedAddress);
    lemma_xor_address_roundtrip(addr, t);
}

proof fn lemma_parse_mapped(addr: SocketAddr, t: Seq<u8>)
    ensures
        spec_parse_attribute(0x0001, spec_encode_address(addr), t) == Some(StunAttributeView::MappedAddress(addr)),
{
    assert(spec_attribute_type_from_u16(0x0001) == AttributeType::MappedAddress);
    lemma_address_roundtrip(addr);
}

proof fn lemma_parse_text(s: Seq<char>, t: Seq<u8>)
    requires
        encode_utf8(s).len() < 0x10000,
    ensures
        spec_parse_attribute(0x8022, encode_utf8(s), t) == Some(StunAttributeView::Software(s)),
{
    assert(spec_attribute_type_from_u16(0x8022) == AttributeType::Software);
    lemma_parse_software(s);
}

/// The parse of the encoded body of `a`, as the decoder reads it.
pub open spec fn parse_of_encoded(a: StunAttributeView, t: Seq<u8>) -> Option<StunAttributeView> {
    spec_parse_attribute(
        spec_attribute_type_code(spec_type_of_attribute(a)),
        spec_attribute_body(a, t).take(spec_value_length(a) as int),
        t,
    )
}

proof fn lemma_parse_encoded_xor(addr: SocketAddr, t: Seq<u8>)
    requires
        t.len() == 12,
    ensures
        parse_of_encoded(StunAttributeView::XorMappedAddress(addr), t) == Some(StunAttributeView::XorMappedAddress(addr)),
{
    let a = StunAttributeView::XorMappedAddress(addr);
    lemma_encoded_attribute_length(a, t);
    assert(spec_attribute_body(a, t).take(spec_value_length(a) as int) =~= spec_encode_xor_address(addr, t));
    lemma_parse_xor(addr, t);
}

proof fn lemma_parse_encoded_mapped(addr: SocketAddr, t: Seq<u8>)
    requires
        t.len() == 12,
    ensures
        parse_of_encoded(StunAttributeView::MappedAddress(addr), t) == Some(StunAttributeView::MappedAddress(addr)),
{
    let a = StunAttributeView::MappedAddress(addr);
    lemma_encoded_attribute_length(a, t);
    assert(spec_attribute_body(a, t).take(spec_value_length(a) as int) =~= spec_encode_address(addr));
    lemma_parse_mapped(addr, t);
}

proof fn lemma_parse_encoded_text(s: Seq<char>, t: Seq<u8>)
    requires
        t.len() == 12,
        encode_utf8(s).len() < 0x10000,
    ensures
        parse_of_encoded(StunAttributeView::Software(s), t) == Some(StunAttributeView::Software(s)),
{
    let a = StunAttributeView::Software(s);
    assert(spec_attribute_body(a, t).take(spec_value_length(a) as int) =~= encode_utf8(s));
    lemma_parse_text(s, t);
}

proof fn lemma_parse_encoded(a: StunAttributeView, t: Seq<u8>)
    requires
        decodes_back(a),
        t.len() == 12,
    ensures
        parse_of_encoded(a, t) == Some(a),
{
    match a {
        StunAttributeView::Software(s) => lemma_parse_encoded_text(s, t),
        StunAttributeView::MappedAddress(addr) => lemma_parse_encoded_mapped(addr, t),
        StunAttributeView::XorMappedAddress(addr) => lemma_parse_encoded_xor(addr, t),
        _ => {},
    }
}

proof fn lemma_decode_encoded_attributes(b: Seq<u8>, t: Seq<u8>, end: int, off: int, attrs: Seq<StunAttributeView>)
    requires
        0 <= off,
        t.len() == 12,
        end <= b.len(),
        forall|i: int| 0 <= i < attrs.len() ==> decodes_back(#[trigger] attrs[i]),
        off + spec_encode_attributes(attrs, t).len() == end,
        b.subrange(off, end) == spec_encode_attributes(attrs, t),
    ensures
        spec_decode_attributes(b, t, end, off) == attrs,
    decreases attrs.len(),
{
    if attrs.len() == 0 {
        assert(spec_decode_attributes(b, t, end, off) =~= attrs);
    } else {
        let a = attrs[0];
        let rest = attrs.drop_first();
        lemma_encode_front(attrs, t);
        lemma_encoded_attribute_length(a, t);
        let ea = spec_encode_attribute(a, t);
        let code = spec_attribute_type_code(spec_type_of_attribute(a));
        let vl = spec_value_length(a);
        let body = spec_attribute_body(a, t);
        let e = spec_encode_attributes(attrs, t);
        let len = vl as int;
        assert(e.subrange(0, 4) =~= be16(code) + be16(vl));
        assert(e.subrange(4, 4 + len) =~= body.take(len));
        assert(e.subrange(ea.len() as int, e.len() as int) =~= spec_encode_attributes(rest, t));
        lemma_sub_of(b, off, e, 0, 4);
        lemma_sub_of(b, off, e, 4, 4 + len);
        lemma_sub_of(b, off, e, ea.len() as int, e.len() as int);
        assert(b[off] == b.subrange(off, off + 4)[0]);
        assert(b[off + 1] == b.subrange(off, off + 4)[1]);
        assert(b[off + 2] == b.subrange(off, off + 4)[2]);
        assert(b[off + 3] == b.subrange(off, off + 4)[3]);
        lemma_be16_roundtrip(code);
        lemma_be16_roundtrip(vl);
        assert(u16_be(b[off], b[off + 1]) == code);
        assert(u16_be(b[off + 2], b[off + 3]) == vl);
        let o2 = off + 4;
        let next = o2 + len + (4 - len % 4) % 4;
        assert(next == off + ea.len());
        assert forall|i: int| 0 <= i < rest.len() implies decodes_back(#[trigger] rest[i]) by {
            assert(rest[i] == attrs[i + 1]);
        }
        lemma_decode_encoded_attributes(b, t, end, next, rest);
        lemma_parse_encoded(a, t);
        assert(parse_of_encoded(a, t) == spec_parse_attribute(u16_be(b[off], b[off + 1]), b.subrange(o2, o2 + len), t));
        assert(spec_decode_attributes(b, t, end, off) =~= seq![a] + rest);
        assert(seq![a] + rest =~= attrs);
    }
}

/// Decoding an encoded message gives the message back, attributes included,
/// for a canonical type, attributes the decoder keeps (SOFTWARE of fewer
/// than 65536 bytes, MAPPED-ADDRESS, XOR-MAPPED-ADDRESS) and a total
/// length that fits the 16-bit length field.
pub proof fn lemma_decode_encode(m: StunMessageView)
    requires
        is_canonical_message_type(m.message_type),
        m.transaction_id.len() == 12,
        forall|i: int| 0 <= i < m.attributes.len() ==> decodes_back(#[trigger] m.attributes[i]),
        encodable(m.attributes),
    ensures
        spec_decode(spec_encode(m)).message_type == m.message_type,
        spec_decode(spec_encode(m)).transaction_id == m.transaction_id,
        spec_decode(spec_encode(m)).attributes == m.attributes,
{
    let t = m.transaction_id;
    let attrs = m.attributes;
    let e = spec_encode(m);
    lemma_decode_encode_header(m);
    lemma_encoded_length(attrs, t);
    lemma_length_nonneg(attrs);
    let l = spec_attributes_length(attrs) as u16;
    lemma_be16_roundtrip(l);
    assert(e[2] == be16(l)[0] && e[3] == be16(l)[1]);
    assert(e.len() == 20 + spec_attributes_length(attrs));
    assert(e.subrange(20, e.len() as int) =~= spec_encode_attributes(attrs, t));
    assert(e.subrange(8, 20) =~= t);
    lemma_decode_encoded_attributes(e, t, 20 + l, 20, attrs);
}

} // verus!

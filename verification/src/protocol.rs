use vstd::prelude::*;
use crate::{config_view, ConfigModel, InterfaceModel, UsbConfigDescriptor, UsbDevice, UsbSpeed};
use crate::text::decimal;
use crate::registry::{bus_id_text, sysfs_path_text, HostDeviceRegistry};
use vstd::string::StringExecFns;
use vstd::string::StringSliceAdditionalSpecFns;

verus! {

pub const OP_REQ_DEVLIST: u16 = 0x8005;
pub const OP_REP_DEVLIST: u16 = 0x0005;
pub const OP_REQ_IMPORT: u16 = 0x8003;
pub const OP_REP_IMPORT: u16 = 0x0003;

pub const USBIP_VERSION: u16 = 0x0111;

pub const USBIP_CMD_SUBMIT: u32 = 0x0001;
pub const USBIP_CMD_UNLINK: u32 = 0x0002;
pub const USBIP_RET_SUBMIT: u32 = 0x0003;
pub const USBIP_RET_UNLINK: u32 = 0x0004;

pub const SYSFS_PATH_MAX: usize = 256;
pub const SYSFS_BUS_ID_SIZE: usize = 32;

pub const ST_OK: u32 = 0x00;
pub const ST_NA: u32 = 0x01;
pub const ST_DEV_BUSY: u32 = 0x02;

/// The speed code that the USB/IP wire format and the Linux VHCI driver use.
pub open spec fn speed_code(speed: UsbSpeed) -> u32 {
    match speed {
        UsbSpeed::Low => 1,
        UsbSpeed::Full => 2,
        UsbSpeed::High => 3,
        UsbSpeed::Super => 5,
        UsbSpeed::SuperPlus => 6,
        UsbSpeed::Unknown => 0,
    }
}

pub fn map_speed(speed: UsbSpeed) -> (code: u32)
    ensures
        code == speed_code(speed),
{
    match speed {
        UsbSpeed::Low => 1,
        UsbSpeed::Full => 2,
        UsbSpeed::High => 3,
        UsbSpeed::Super => 5,
        UsbSpeed::SuperPlus => 6,
        UsbSpeed::Unknown => 0,
    }
}

/// `bytes` cut to `len` bytes, or filled up to `len` bytes with zeros.
pub open spec fn padded(bytes: Seq<u8>, len: nat) -> Seq<u8> {
    if bytes.len() > len {
        bytes.take(len as int)
    } else {
        bytes + Seq::new((len - bytes.len()) as nat, |i: int| 0u8)
    }
}

/// Appends `tail` to `buf`.
pub fn append_bytes(buf: &mut Vec<u8>, tail: &[u8])
    ensures
        final(buf)@ == old(buf)@ + tail@,
{
    let ghost start = buf@;
    let mut i: usize = 0;
    while i < tail.len()
        invariant
            i <= tail@.len(),
            buf@ == start + tail@.take(i as int),
        decreases tail@.len() - i,
    {
        buf.push(tail[i]);
        i = i + 1;
        assert(tail@.take(i as int) =~= tail@.take(i - 1).push(tail@[i - 1]));
    }
    assert(tail@.take(i as int) =~= tail@);
}

/// The UTF-8 bytes of `s`, cut or zero-padded to exactly `len` bytes.
pub fn pad_string(s: &str, len: usize) -> (v: Vec<u8>)
    ensures
        v@ == padded(s.spec_bytes(), len as nat),
        v@.len() == len,
{
    let bytes = s.as_bytes();
    let mut v: Vec<u8> = Vec::new();
    let n = if bytes.len() > len { len } else { bytes.len() };
    let mut i: usize = 0;
    while i < n
        invariant
            n <= bytes@.len(),
            n <= len,
            i <= n,
            v@ == bytes@.take(i as int),
        decreases n - i,
    {
        v.push(bytes[i]);
        i = i + 1;
        assert(bytes@.take(i as int) =~= bytes@.take(i - 1).push(bytes@[i - 1]));
    }
    while i < len
        invariant
            n <= bytes@.len(),
            n <= len,
            n <= i <= len,
            v@ == bytes@.take(n as int) + Seq::new((i - n) as nat, |k: int| 0u8),
        decreases len - i,
    {
        v.push(0u8);
        i = i + 1;
        assert(bytes@.take(n as int) + Seq::new((i - n) as nat, |k: int| 0u8) =~=
            (bytes@.take(n as int) + Seq::new((i - 1 - n) as nat, |k: int| 0u8)).push(0u8));
    }
    assert(s.spec_bytes() == bytes@);
    if bytes.len() <= len {
        assert(bytes@.take(n as int) =~= bytes@);
    }
    assert(v@ =~= padded(s.spec_bytes(), len as nat));
    v
}

/// The two bytes of `v` in network (big-endian) order.
pub open spec fn be16(v: u16) -> Seq<u8> {
    seq![(v / 256) as u8, (v % 256) as u8]
}

/// The four bytes of `v` in network (big-endian) order.
pub open spec fn be32(v: u32) -> Seq<u8> {
    seq![(v / 0x100_0000) as u8, ((v / 0x1_0000) % 256) as u8, ((v / 256) % 256) as u8, (v % 256) as u8]
}

/// The number whose big-endian encoding is the two bytes `a`, `b`.
pub open spec fn from_be16(a: u8, b: u8) -> u16 {
    (a as int * 256 + b as int) as u16
}

/// The number whose big-endian encoding is the four bytes `a`, `b`, `c`, `d`.
pub open spec fn from_be32(a: u8, b: u8, c: u8, d: u8) -> u32 {
    (a as int * 0x100_0000 + b as int * 0x1_0000 + c as int * 256 + d as int) as u32
}

pub fn u16_to_be(v: u16) -> (r: [u8; 2])
    ensures
        r@ == be16(v),
{
    [(v / 256) as u8, (v % 256) as u8]
}

pub fn u32_to_be(v: u32) -> (r: [u8; 4])
    ensures
        r@ == be32(v),
{
    [(v / 0x100_0000) as u8, ((v / 0x1_0000) % 256) as u8, ((v / 256) % 256) as u8, (v % 256) as u8]
}

pub fn u16_from_be(a: u8, b: u8) -> (r: u16)
    ensures
        r == from_be16(a, b),
{
    (a as u16) * 256 + (b as u16)
}

pub fn u32_from_be(a: u8, b: u8, c: u8, d: u8) -> (r: u32)
    ensures
        r == from_be32(a, b, c, d),
{
    (a as u32) * 0x100_0000 + (b as u32) * 0x1_0000 + (c as u32) * 256 + (d as u32)
}

/// Decoding the big-endian bytes of a 16-bit number gives the number back.
pub proof fn lemma_be16_roundtrip(v: u16)
    ensures
        from_be16(be16(v)[0], be16(v)[1]) == v,
{
}

/// Decoding the big-endian bytes of a 32-bit number gives the number back.
pub proof fn lemma_be32_roundtrip(v: u32)
    ensures
        from_be32(be32(v)[0], be32(v)[1], be32(v)[2], be32(v)[3]) == v,
{
}

/// Encoding the number that two big-endian bytes stand for gives the bytes back.
pub proof fn lemma_from_be16_roundtrip(a: u8, b: u8)
    ensures
        be16(from_be16(a, b)) == seq![a, b],
{
}

/// Encoding the number that four big-endian bytes stand for gives the bytes back.
pub proof fn lemma_from_be32_roundtrip(a: u8, b: u8, c: u8, d: u8)
    ensures
        be32(from_be32(a, b, c, d)) == seq![a, b, c, d],
{
    let v = from_be32(a, b, c, d);
    assert(v == a as int * 0x100_0000 + b as int * 0x1_0000 + c as int * 256 + d as int);
    vstd::arithmetic::div_mod::lemma_fundamental_div_mod_converse(
        v as int, 256, (a as int * 0x1_0000 + b as int * 256 + c as int), d as int);
    vstd::arithmetic::div_mod::lemma_fundamental_div_mod_converse(
        v as int, 0x1_0000, (a as int * 256 + b as int), c as int * 256 + d as int);
    vstd::arithmetic::div_mod::lemma_fundamental_div_mod_converse(
        v as int, 0x100_0000, a as int, b as int * 0x1_0000 + c as int * 256 + d as int);
    vstd::arithmetic::div_mod::lemma_fundamental_div_mod_converse(
        (a as int * 0x1_0000 + b as int * 256 + c as int), 256, (a as int * 256 + b as int), c as int);
    vstd::arithmetic::div_mod::lemma_fundamental_div_mod_converse(
        (a as int * 256 + b as int), 256, a as int, b as int);
    assert(be32(v) =~= seq![a, b, c, d]);
}

} // verus!

verus! {

/// The 312-byte device record of the USB/IP wire format.
#[derive(Debug, Clone, Copy)]
pub struct UsbipUsbDevice {
    pub path: [u8; 256],
    pub busid: [u8; 32],
    pub busnum: u32,
    pub devnum: u32,
    pub speed: u32,
    pub id_vendor: u16,
    pub id_product: u16,
    pub bcd_device: u16,
    pub b_device_class: u8,
    pub b_device_subclass: u8,
    pub b_device_protocol: u8,
    pub b_configuration_value: u8,
    pub b_num_configurations: u8,
    pub b_num_interfaces: u8,
}

impl UsbipUsbDevice {
    /// The wire encoding of the record: every field in order, numbers big-endian.
    pub open spec fn spec_bytes(&self) -> Seq<u8> {
        self.path@ + self.busid@ + be32(self.busnum) + be32(self.devnum) + be32(self.speed)
            + be16(self.id_vendor) + be16(self.id_product) + be16(self.bcd_device)
            + seq![
            self.b_device_class,
            self.b_device_subclass,
            self.b_device_protocol,
            self.b_configuration_value,
            self.b_num_configurations,
            self.b_num_interfaces,
        ]
    }

    pub fn to_bytes(&self) -> (buf: Vec<u8>)
        ensures
            buf@ == self.spec_bytes(),
            buf@.len() == 312,
    {
        let mut buf: Vec<u8> = Vec::with_capacity(312);
        append_bytes(&mut buf, &self.path);
        append_bytes(&mut buf, &self.busid);
        append_bytes(&mut buf, &u32_to_be(self.busnum));
        append_bytes(&mut buf, &u32_to_be(self.devnum));
        append_bytes(&mut buf, &u32_to_be(self.speed));
        append_bytes(&mut buf, &u16_to_be(self.id_vendor));
        append_bytes(&mut buf, &u16_to_be(self.id_product));
        append_bytes(&mut buf, &u16_to_be(self.bcd_device));
        buf.push(self.b_device_class);
        buf.push(self.b_device_subclass);
        buf.push(self.b_device_protocol);
        buf.push(self.b_configuration_value);
        buf.push(self.b_num_configurations);
        buf.push(self.b_num_interfaces);
        assert(buf@ =~= self.spec_bytes());
        buf
    }
}

/// The 4-byte interface record that follows a device record in a device list.
#[derive(Debug, Clone, Copy)]
pub struct UsbipUsbInterface {
    pub b_interface_class: u8,
    pub b_interface_subclass: u8,
    pub b_interface_protocol: u8,
    pub padding: u8,
}

impl UsbipUsbInterface {
    pub fn to_bytes(&self) -> (r: [u8; 4])
        ensures
            r@ == seq![
                self.b_interface_class,
                self.b_interface_subclass,
                self.b_interface_protocol,
                self.padding,
            ],
    {
        [self.b_interface_class, self.b_interface_subclass, self.b_interface_protocol, self.padding]
    }
}

/// The 8-byte header that starts every handshake request and reply.
#[derive(Debug, Clone, Copy, PartialEq, Eq)]
pub struct OpCommon {
    pub version: u16,
    pub code: u16,
    pub status: u32,
}

impl OpCommon {
    pub open spec fn spec_bytes(&self) -> Seq<u8> {
        be16(self.version) + be16(self.code) + be32(self.status)
    }

    pub open spec fn spec_from_bytes(b: Seq<u8>) -> OpCommon {
        OpCommon {
            version: from_be16(b[0], b[1]),
            code: from_be16(b[2], b[3]),
            status: from_be32(b[4], b[5], b[6], b[7]),
        }
    }

    pub fn to_bytes(&self) -> (buf: [u8; 8])
        ensures
            buf@ == self.spec_bytes(),
    {
        let v = u16_to_be(self.version);
        let c = u16_to_be(self.code);
        let s = u32_to_be(self.status);
        let buf = [v[0], v[1], c[0], c[1], s[0], s[1], s[2], s[3]];
        assert(buf@ =~= self.spec_bytes());
        buf
    }

    pub fn from_bytes(bytes: [u8; 8]) -> (r: Self)
        ensures
            r == Self::spec_from_bytes(bytes@),
    {
        OpCommon {
            version: u16_from_be(bytes[0], bytes[1]),
            code: u16_from_be(bytes[2], bytes[3]),
            status: u32_from_be(bytes[4], bytes[5], bytes[6], bytes[7]),
        }
    }
}

/// The count of devices that follows the header of a device-list reply.
#[derive(Debug, Clone, Copy, PartialEq, Eq)]
pub struct OpDevlistReply {
    pub ndev: u32,
}

impl OpDevlistReply {
    pub fn to_bytes(&self) -> (r: [u8; 4])
        ensures
            r@ == be32(self.ndev),
    {
        u32_to_be(self.ndev)
    }

    pub fn from_bytes(bytes: [u8; 4]) -> (r: Self)
        ensures
            r.ndev == from_be32(bytes@[0], bytes@[1], bytes@[2], bytes@[3]),
    {
        OpDevlistReply { ndev: u32_from_be(bytes[0], bytes[1], bytes[2], bytes[3]) }
    }
}

/// The bus id that follows the header of an import request.
#[derive(Debug, Clone, Copy, PartialEq, Eq)]
pub struct OpImportRequest {
    pub busid: [u8; 32],
}

impl OpImportRequest {
    pub fn to_bytes(&self) -> (r: [u8; 32])
        ensures
            r@ == self.busid@,
    {
        self.busid
    }

    pub fn from_bytes(bytes: [u8; 32]) -> (r: Self)
        ensures
            r.busid@ == bytes@,
    {
        OpImportRequest { busid: bytes }
    }
}

/// Decoding the encoding of a handshake header gives the header back.
pub proof fn lemma_op_common_roundtrip(h: OpCommon)
    ensures
        OpCommon::spec_from_bytes(h.spec_bytes()) == h,
{
    lemma_be16_roundtrip(h.version);
    lemma_be16_roundtrip(h.code);
    lemma_be32_roundtrip(h.status);
}

/// Encoding the decoding of eight bytes gives the bytes back.
pub proof fn lemma_op_common_bytes_roundtrip(b: Seq<u8>)
    requires
        b.len() == 8,
    ensures
        OpCommon::spec_from_bytes(b).spec_bytes() == b,
{
    lemma_from_be16_roundtrip(b[0], b[1]);
    lemma_from_be16_roundtrip(b[2], b[3]);
    lemma_from_be32_roundtrip(b[4], b[5], b[6], b[7]);
    assert(OpCommon::spec_from_bytes(b).spec_bytes() =~= b);
}

} // verus!

verus! {

/// The big-endian number in the four bytes of `b` that start at `i`.
pub open spec fn be32_at(b: Seq<u8>, i: int) -> u32 {
    from_be32(b[i], b[i + 1], b[i + 2], b[i + 3])
}

/// The two's-complement reading of a 32-bit pattern.
pub open spec fn to_signed(x: u32) -> i32 {
    if x < 0x8000_0000 {
        x as i32
    } else {
        (x - 0x1_0000_0000) as i32
    }
}

/// The 32-bit two's-complement pattern of `v`.
pub open spec fn to_unsigned(v: i32) -> u32 {
    if v >= 0 {
        v as u32
    } else {
        (v + 0x1_0000_0000) as u32
    }
}

pub fn i32_bits(v: i32) -> (r: u32)
    ensures
        r == to_unsigned(v),
{
    proof {
        if v >= 0 {
            assert(v >= 0 ==> (v as u32) == v) by (bit_vector);
        } else {
            assert(v < 0 ==> (v as u32) as int == v + 0x1_0000_0000) by (bit_vector);
        }
    }
    v as u32
}

pub fn i32_from_bits(x: u32) -> (r: i32)
    ensures
        r == to_signed(x),
{
    proof {
        if x < 0x8000_0000 {
            assert(x < 0x8000_0000 ==> (x as i32) == x) by (bit_vector);
        } else {
            assert(x >= 0x8000_0000 ==> (x as i32) as int == x - 0x1_0000_0000) by (bit_vector);
        }
    }
    x as i32
}

/// Reading a 32-bit pattern as signed and writing it back gives the pattern.
pub proof fn lemma_signed_roundtrip(x: u32)
    ensures
        to_unsigned(to_signed(x)) == x,
{
}

/// Writing a signed number as a 32-bit pattern and reading it back gives the number.
pub proof fn lemma_unsigned_roundtrip(v: i32)
    ensures
        to_signed(to_unsigned(v)) == v,
{
}

pub fn read_be32(b: &[u8], i: usize) -> (r: u32)
    requires
        i + 4 <= b@.len(),
    ensures
        r == be32_at(b@, i as int),
{
    u32_from_be(b[i], b[i + 1], b[i + 2], b[i + 3])
}

pub fn push_be32(buf: &mut Vec<u8>, v: u32)
    ensures
        final(buf)@ == old(buf)@ + be32(v),
{
    let b = u32_to_be(v);
    append_bytes(buf, &b);
}

pub fn push_zeros(buf: &mut Vec<u8>, n: usize)
    ensures
        final(buf)@ == old(buf)@ + Seq::new(n as nat, |i: int| 0u8),
{
    let ghost start = buf@;
    let mut i: usize = 0;
    while i < n
        invariant
            i <= n,
            buf@ == start + Seq::new(i as nat, |k: int| 0u8),
        decreases n - i,
    {
        buf.push(0u8);
        i = i + 1;
        assert(start + Seq::new(i as nat, |k: int| 0u8) =~= (start + Seq::new((i - 1) as nat, |k: int| 0u8)).push(0u8));
    }
}

/// The 20-byte header that starts every transfer-phase command and reply.
#[derive(Debug, Clone, Copy, PartialEq, Eq)]
pub struct UsbipHeaderBasic {
    pub command: u32,
    pub seqnum: u32,
    pub devid: u32,
    pub direction: u32,
    pub ep: u32,
}

impl UsbipHeaderBasic {
    pub open spec fn spec_bytes(&self) -> Seq<u8> {
        be32(self.command) + be32(self.seqnum) + be32(self.devid) + be32(self.direction) + be32(self.ep)
    }

    /// The header in the first 20 bytes of `b`.
    pub open spec fn spec_parse(b: Seq<u8>) -> UsbipHeaderBasic {
        UsbipHeaderBasic {
            command: be32_at(b, 0),
            seqnum: be32_at(b, 4),
            devid: be32_at(b, 8),
            direction: be32_at(b, 12),
            ep: be32_at(b, 16),
        }
    }

    pub fn to_bytes(&self) -> (buf: Vec<u8>)
        ensures
            buf@ == self.spec_bytes(),
    {
        let mut buf: Vec<u8> = Vec::new();
        push_be32(&mut buf, self.command);
        push_be32(&mut buf, self.seqnum);
        push_be32(&mut buf, self.devid);
        push_be32(&mut buf, self.direction);
        push_be32(&mut buf, self.ep);
        assert(buf@ =~= self.spec_bytes());
        buf
    }

    pub fn from_bytes(b: &[u8]) -> (r: Self)
        requires
            b@.len() >= 20,
        ensures
            r == Self::spec_parse(b@),
    {
        UsbipHeaderBasic {
            command: read_be32(b, 0),
            seqnum: read_be32(b, 4),
            devid: read_be32(b, 8),
            direction: read_be32(b, 12),
            ep: read_be32(b, 16),
        }
    }
}

/// The part of a submit command that follows the basic header.
#[derive(Debug, Clone, Copy, PartialEq, Eq)]
pub struct UsbipHeaderCmdSubmit {
    pub transfer_flags: u32,
    pub transfer_buffer_length: i32,
    pub start_frame: i32,
    pub number_of_packets: i32,
    pub interval: i32,
    pub setup: [u8; 8],
}

impl UsbipHeaderCmdSubmit {
    /// `h` holds the submit fields of the 48-byte command header `b`.
    pub open spec fn parsed_from(h: UsbipHeaderCmdSubmit, b: Seq<u8>) -> bool {
        &&& h.transfer_flags == be32_at(b, 20)
        &&& h.transfer_buffer_length == to_signed(be32_at(b, 24))
        &&& h.start_frame == to_signed(be32_at(b, 28))
        &&& h.number_of_packets == to_signed(be32_at(b, 32))
        &&& h.interval == to_signed(be32_at(b, 36))
        &&& h.setup@ == b.subrange(40, 48)
    }
}

/// The part of a submit reply that follows the basic header.
#[derive(Debug, Clone, Copy, PartialEq, Eq)]
pub struct UsbipHeaderRetSubmit {
    pub status: i32,
    pub actual_length: i32,
    pub start_frame: i32,
    pub number_of_packets: i32,
    pub error_count: i32,
}

/// The part of an unlink command that follows the basic header.
#[derive(Debug, Clone, Copy, PartialEq, Eq)]
pub struct UsbipHeaderCmdUnlink {
    pub unlink_seqnum: u32,
}

/// The part of an unlink reply that follows the basic header.
#[derive(Debug, Clone, Copy, PartialEq, Eq)]
pub struct UsbipHeaderRetUnlink {
    pub status: i32,
}

/// One 16-byte isochronous packet descriptor.
#[derive(Debug, Clone, Copy, PartialEq, Eq)]
pub struct UsbipIsoPacketDescriptor {
    pub offset: u32,
    pub length: u32,
    pub actual_length: u32,
    pub status: i32,
}

impl UsbipIsoPacketDescriptor {
    pub open spec fn spec_bytes(&self) -> Seq<u8> {
        be32(self.offset) + be32(self.length) + be32(self.actual_length) + be32(to_unsigned(self.status))
    }

    /// The descriptor in the 16 bytes of `b` that start at `i`.
    pub open spec fn spec_parse_at(b: Seq<u8>, i: int) -> UsbipIsoPacketDescriptor {
        UsbipIsoPacketDescriptor {
            offset: be32_at(b, i),
            length: be32_at(b, i + 4),
            actual_length: be32_at(b, i + 8),
            status: to_signed(be32_at(b, i + 12)),
        }
    }

    pub fn to_bytes(&self) -> (r: [u8; 16])
        ensures
            r@ == self.spec_bytes(),
    {
        let a = u32_to_be(self.offset);
        let b = u32_to_be(self.length);
        let c = u32_to_be(self.actual_length);
        let d = u32_to_be(i32_bits(self.status));
        let r = [a[0], a[1], a[2], a[3], b[0], b[1], b[2], b[3], c[0], c[1], c[2], c[3], d[0], d[1], d[2], d[3]];
        assert(r@ =~= self.spec_bytes());
        r
    }

    pub fn from_bytes(bytes: [u8; 16]) -> (r: Self)
        ensures
            r == Self::spec_parse_at(bytes@, 0),
    {
        Self::parse_at(&bytes, 0)
    }

    pub fn parse_at(b: &[u8], i: usize) -> (r: Self)
        requires
            i + 16 <= b@.len(),
        ensures
            r == Self::spec_parse_at(b@, i as int),
    {
        let _n = b.len();
        UsbipIsoPacketDescriptor {
            offset: read_be32(b, i),
            length: read_be32(b, i + 4),
            actual_length: read_be32(b, i + 8),
            status: i32_from_bits(read_be32(b, i + 12)),
        }
    }
}

/// Decoding the encoding of an isochronous packet descriptor gives the descriptor back.
pub proof fn lemma_iso_descriptor_roundtrip(d: UsbipIsoPacketDescriptor)
    ensures
        UsbipIsoPacketDescriptor::spec_parse_at(d.spec_bytes(), 0) == d,
{
    let b = d.spec_bytes();
    lemma_be32_roundtrip(d.offset);
    lemma_be32_roundtrip(d.length);
    lemma_be32_roundtrip(d.actual_length);
    lemma_be32_roundtrip(to_unsigned(d.status));
    assert(be32_at(b, 0) == d.offset);
    assert(be32_at(b, 4) == d.length);
    assert(be32_at(b, 8) == d.actual_length);
    assert(be32_at(b, 12) == to_unsigned(d.status));
}

/// Decoding the encoding of a basic header gives the header back.
pub proof fn lemma_basic_header_roundtrip(h: UsbipHeaderBasic)
    ensures
        UsbipHeaderBasic::spec_parse(h.spec_bytes()) == h,
{
    let b = h.spec_bytes();
    lemma_be32_roundtrip(h.command);
    lemma_be32_roundtrip(h.seqnum);
    lemma_be32_roundtrip(h.devid);
    lemma_be32_roundtrip(h.direction);
    lemma_be32_roundtrip(h.ep);
    assert(be32_at(b, 0) == h.command);
    assert(be32_at(b, 4) == h.seqnum);
    assert(be32_at(b, 8) == h.devid);
    assert(be32_at(b, 12) == h.direction);
    assert(be32_at(b, 16) == h.ep);
}

} // verus!

verus! {

/// A device record together with the interface records that follow it in a device list.
#[derive(Debug, Clone)]
pub struct UsbipDeviceDetail {
    pub udev: UsbipUsbDevice,
    pub interfaces: Vec<UsbipUsbInterface>,
}

/// A request that a client sends: a handshake request, or a transfer-phase command.
#[derive(Debug)]
pub enum UsbipRequest {
    Devlist,
    Import { busid: String },
    Submit {
        basic: UsbipHeaderBasic,
        submit: UsbipHeaderCmdSubmit,
        data: Vec<u8>,
        iso_descriptors: Vec<UsbipIsoPacketDescriptor>,
    },
    Unlink { basic: UsbipHeaderBasic, unlink: UsbipHeaderCmdUnlink },
}

/// A reply that the host sends: a handshake reply, or a transfer-phase reply.
#[derive(Debug)]
pub enum UsbipResponse {
    Devlist { devices: Vec<UsbipDeviceDetail> },
    Import { status: u32, device: Option<Box<UsbipDeviceDetail>> },
    Submit {
        basic: UsbipHeaderBasic,
        submit: UsbipHeaderRetSubmit,
        data: Vec<u8>,
        iso_descriptors: Vec<UsbipIsoPacketDescriptor>,
    },
    Unlink { basic: UsbipHeaderBasic, unlink: UsbipHeaderRetUnlink },
}

} // verus!

verus! {

/// Why bytes could not be read as a request.
#[derive(Debug, Clone, Copy, PartialEq, Eq)]
pub enum ProtocolError {
    /// A handshake header with an operation code that is neither a device-list nor an import
    /// request.
    UnknownOperation(u16),
    /// A transfer-phase header with a command that is neither submit nor unlink.
    UnknownCommand(u32),
    /// A bus id that is not valid UTF-8.
    InvalidBusId,
    /// A body whose length is not the one that the header announces.
    LengthMismatch,
    /// A header that announces more payload than this machine can address.
    PayloadTooLarge,
}

impl ProtocolError {
    pub open spec fn text(self) -> Seq<char> {
        match self {
            ProtocolError::UnknownOperation(_) => "Unknown handshake operation"@,
            ProtocolError::UnknownCommand(_) => "Unknown transfer command"@,
            ProtocolError::InvalidBusId => "Bus id is not valid UTF-8"@,
            ProtocolError::LengthMismatch => "Body length does not match the header"@,
            ProtocolError::PayloadTooLarge => "Payload too large for this machine"@,
        }
    }

    /// The message that tells a user of the error.
    pub fn message(&self) -> (s: String)
        ensures
            s@ == self.text(),
    {
        match self {
            ProtocolError::UnknownOperation(_) => String::from_str("Unknown handshake operation"),
            ProtocolError::UnknownCommand(_) => String::from_str("Unknown transfer command"),
            ProtocolError::InvalidBusId => String::from_str("Bus id is not valid UTF-8"),
            ProtocolError::LengthMismatch => String::from_str("Body length does not match the header"),
            ProtocolError::PayloadTooLarge => String::from_str("Payload too large for this machine"),
        }
    }
}

/// The number of bytes before the first zero byte of `b`, or all of them.
pub open spec fn nul_index(b: Seq<u8>) -> nat
    decreases b.len(),
{
    if b.len() == 0 {
        0
    } else if b[0] == 0 {
        0
    } else {
        1 + nul_index(b.drop_first())
    }
}

/// The bus id that an import request names: the bytes before the first zero byte, as UTF-8.
pub open spec fn busid_bytes(body: Seq<u8>) -> Seq<u8> {
    body.take(nul_index(body) as int)
}

/// Reads `v` as UTF-8 (`core::str::from_utf8`): a string exactly where `v` is valid UTF-8, and
/// then the string whose UTF-8 encoding is `v`.
#[verifier::external_body]
fn utf8_str(v: &[u8]) -> (r: Option<&str>)
    ensures
        r is Some <==> vstd::utf8::valid_utf8(v@),
        r matches Some(s) ==> s.spec_bytes() == v@,
{
    core::str::from_utf8(v).ok()
}

/// The length of the body that follows a handshake header: none for a device-list request, a
/// 32-byte bus id for an import request.
pub open spec fn spec_handshake_body_len(header: Seq<u8>) -> Option<nat> {
    let code = from_be16(header[2], header[3]);
    if code == OP_REQ_DEVLIST {
        Some(0)
    } else if code == OP_REQ_IMPORT {
        Some(32)
    } else {
        None
    }
}

/// How many bytes follow the 8-byte handshake header `header`.
pub fn handshake_body_len(header: &[u8; 8]) -> (r: Result<usize, ProtocolError>)
    ensures
        match spec_handshake_body_len(header@) {
            Some(n) => r == Ok::<usize, ProtocolError>(n as usize),
            None => r == Err::<usize, ProtocolError>(ProtocolError::UnknownOperation(from_be16(header@[2], header@[3]))),
        },
{
    let code = u16_from_be(header[2], header[3]);
    if code == OP_REQ_DEVLIST {
        Ok(0)
    } else if code == OP_REQ_IMPORT {
        Ok(32)
    } else {
        Err(ProtocolError::UnknownOperation(code))
    }
}

fn nul_position(b: &[u8]) -> (n: usize)
    ensures
        n == nul_index(b@),
        n <= b@.len(),
{
    let mut i: usize = 0;
    assert(b@.skip(0) =~= b@);
    while i < b.len()
        invariant
            i <= b@.len(),
            nul_index(b@) == i + nul_index(b@.skip(i as int)),
        decreases b@.len() - i,
    {
        if b[i] == 0 {
            return i;
        }
        assert(b@.skip(i as int).drop_first() =~= b@.skip(i + 1));
        i = i + 1;
    }
    i
}

/// Reads a handshake request from its header and the body that followed it.
pub fn parse_handshake_request(header: &[u8; 8], body: &[u8]) -> (r: Result<UsbipRequest, ProtocolError>)
    ensures
        match spec_handshake_body_len(header@) {
            None => r == Err::<UsbipRequest, ProtocolError>(ProtocolError::UnknownOperation(from_be16(header@[2], header@[3]))),
            Some(n) => if body@.len() != n {
                r == Err::<UsbipRequest, ProtocolError>(ProtocolError::LengthMismatch)
            } else if n == 0 {
                r matches Ok(UsbipRequest::Devlist)
            } else if vstd::utf8::valid_utf8(busid_bytes(body@)) {
                r matches Ok(UsbipRequest::Import { busid }) && busid@ == vstd::utf8::decode_utf8(busid_bytes(body@))
            } else {
                r == Err::<UsbipRequest, ProtocolError>(ProtocolError::InvalidBusId)
            },
        },
{
    let n = match handshake_body_len(header) {
        Ok(n) => n,
        Err(e) => return Err(e),
    };
    if body.len() != n {
        return Err(ProtocolError::LengthMismatch);
    }
    if n == 0 {
        return Ok(UsbipRequest::Devlist);
    }
    let end = nul_position(body);
    let id_bytes = vstd::slice::slice_subrange(body, 0, end);
    assert(id_bytes@ =~= busid_bytes(body@));
    match utf8_str(id_bytes) {
        Some(s) => {
            let busid = String::from_str(s);
            proof {
                vstd::utf8::encode_utf8_decode_utf8(s@);
            }
            Ok(UsbipRequest::Import { busid })
        },
        None => Err(ProtocolError::InvalidBusId),
    }
}

/// The number of data bytes that follow a submit command: its buffer length for a command that
/// is not a read (direction 1), negative lengths counting as none.
pub open spec fn submit_data_len(header: Seq<u8>) -> nat {
    let tbl = to_signed(be32_at(header, 24));
    if be32_at(header, 12) != 1 && tbl > 0 { tbl as nat } else { 0 }
}

/// The number of isochronous packet descriptors that follow a submit command, negative counts
/// counting as none.
pub open spec fn submit_iso_count(header: Seq<u8>) -> nat {
    let n = to_signed(be32_at(header, 32));
    if n > 0 { n as nat } else { 0 }
}

/// The lengths of the data and of the descriptors that follow the 48-byte transfer-phase
/// header `header`.
pub open spec fn spec_transfer_payload(header: Seq<u8>) -> Result<(nat, nat), ProtocolError> {
    let command = be32_at(header, 0);
    if command == USBIP_CMD_SUBMIT {
        if submit_iso_count(header) * 16 > usize::MAX {
            Err(ProtocolError::PayloadTooLarge)
        } else {
            Ok((submit_data_len(header), submit_iso_count(header) * 16))
        }
    } else if command == USBIP_CMD_UNLINK {
        Ok((0, 0))
    } else {
        Err(ProtocolError::UnknownCommand(command))
    }
}

/// How many data bytes and descriptor bytes follow the 48-byte transfer-phase header `header`.
pub fn transfer_payload_lengths(header: &[u8]) -> (r: Result<(usize, usize), ProtocolError>)
    requires
        header@.len() == 48,
    ensures
        match spec_transfer_payload(header@) {
            Ok((d, i)) => r == Ok::<(usize, usize), ProtocolError>((d as usize, i as usize)),
            Err(e) => r == Err::<(usize, usize), ProtocolError>(e),
        },
{
    let command = read_be32(header, 0);
    if command == USBIP_CMD_SUBMIT {
        let direction = read_be32(header, 12);
        let tbl = i32_from_bits(read_be32(header, 24));
        let count = i32_from_bits(read_be32(header, 32));
        let data_len: usize = if direction != 1 && tbl > 0 { tbl as usize } else { 0 };
        let iso_count: usize = if count > 0 { count as usize } else { 0 };
        if iso_count > usize::MAX / 16 {
            return Err(ProtocolError::PayloadTooLarge);
        }
        Ok((data_len, iso_count * 16))
    } else if command == USBIP_CMD_UNLINK {
        Ok((0, 0))
    } else {
        Err(ProtocolError::UnknownCommand(command))
    }
}

/// The isochronous packet descriptors in `b`, 16 bytes each.
pub open spec fn spec_iso_list(b: Seq<u8>) -> Seq<UsbipIsoPacketDescriptor> {
    Seq::new(b.len() / 16, |k: int| UsbipIsoPacketDescriptor::spec_parse_at(b, 16 * k))
}

fn parse_iso_list(b: &[u8]) -> (r: Vec<UsbipIsoPacketDescriptor>)
    ensures
        r@ == spec_iso_list(b@),
{
    let blen = b.len();
    let count = blen / 16;
    let mut r: Vec<UsbipIsoPacketDescriptor> = Vec::new();
    let mut k: usize = 0;
    while k < count
        invariant
            count == b@.len() / 16,
            blen == b@.len(),
            k <= count,
            r@.len() == k,
            forall|j: int| 0 <= j < k ==> r@[j] == UsbipIsoPacketDescriptor::spec_parse_at(b@, 16 * j),
        decreases count - k,
    {
        assert(16 * k + 16 <= b@.len()) by (nonlinear_arith)
            requires
                k < count,
                count == b@.len() / 16,
        ;
        r.push(UsbipIsoPacketDescriptor::parse_at(b, 16 * k));
        k = k + 1;
    }
    assert(r@ =~= spec_iso_list(b@));
    r
}

/// Reads a transfer-phase command from its 48-byte header and the data and descriptor bytes
/// that followed it.
pub fn parse_transfer_request(header: &[u8], data: &[u8], iso: &[u8]) -> (r: Result<UsbipRequest, ProtocolError>)
    requires
        header@.len() == 48,
    ensures
        match spec_transfer_payload(header@) {
            Err(e) => r == Err::<UsbipRequest, ProtocolError>(e),
            Ok((d, i)) => if data@.len() != d || iso@.len() != i {
                r == Err::<UsbipRequest, ProtocolError>(ProtocolError::LengthMismatch)
            } else if be32_at(header@, 0) == USBIP_CMD_SUBMIT {
                r matches Ok(UsbipRequest::Submit { basic, submit, data: dv, iso_descriptors })
                    && basic == UsbipHeaderBasic::spec_parse(header@)
                    && UsbipHeaderCmdSubmit::parsed_from(submit, header@)
                    && dv@ == data@
                    && iso_descriptors@ == spec_iso_list(iso@)
            } else {
                r matches Ok(UsbipRequest::Unlink { basic, unlink })
                    && basic == UsbipHeaderBasic::spec_parse(header@)
                    && unlink.unlink_seqnum == be32_at(header@, 20)
            },
        },
{
    let (d, i) = match transfer_payload_lengths(header) {
        Ok(p) => p,
        Err(e) => return Err(e),
    };
    if data.len() != d || iso.len() != i {
        return Err(ProtocolError::LengthMismatch);
    }
    let basic = UsbipHeaderBasic::from_bytes(header);
    if basic.command == USBIP_CMD_SUBMIT {
        let setup = [header[40], header[41], header[42], header[43], header[44], header[45], header[46], header[47]];
        let submit = UsbipHeaderCmdSubmit {
            transfer_flags: read_be32(header, 20),
            transfer_buffer_length: i32_from_bits(read_be32(header, 24)),
            start_frame: i32_from_bits(read_be32(header, 28)),
            number_of_packets: i32_from_bits(read_be32(header, 32)),
            interval: i32_from_bits(read_be32(header, 36)),
            setup,
        };
        assert(setup@ =~= header@.subrange(40, 48));
        Ok(UsbipRequest::Submit {
            basic,
            submit,
            data: vstd::slice::slice_to_vec(data),
            iso_descriptors: parse_iso_list(iso),
        })
    } else {
        Ok(UsbipRequest::Unlink { basic, unlink: UsbipHeaderCmdUnlink { unlink_seqnum: read_be32(header, 20) } })
    }
}

} // verus!

verus! {

/// The header of a handshake reply with operation code `code` and status `status`.
pub open spec fn reply_header(code: u16, status: u32) -> Seq<u8> {
    OpCommon { version: USBIP_VERSION, code, status }.spec_bytes()
}

pub open spec fn interfaces_bytes(is: Seq<UsbipUsbInterface>) -> Seq<u8>
    decreases is.len(),
{
    if is.len() == 0 {
        Seq::empty()
    } else {
        let last = is.last();
        interfaces_bytes(is.drop_last()) + seq![
            last.b_interface_class,
            last.b_interface_subclass,
            last.b_interface_protocol,
            last.padding,
        ]
    }
}

/// A device record followed by its interface records.
pub open spec fn detail_bytes(d: UsbipDeviceDetail) -> Seq<u8> {
    d.udev.spec_bytes() + interfaces_bytes(d.interfaces@)
}

pub open spec fn details_bytes(ds: Seq<UsbipDeviceDetail>) -> Seq<u8>
    decreases ds.len(),
{
    if ds.len() == 0 {
        Seq::empty()
    } else {
        details_bytes(ds.drop_last()) + detail_bytes(ds.last())
    }
}

pub open spec fn iso_list_bytes(ds: Seq<UsbipIsoPacketDescriptor>) -> Seq<u8>
    decreases ds.len(),
{
    if ds.len() == 0 {
        Seq::empty()
    } else {
        iso_list_bytes(ds.drop_last()) + ds.last().spec_bytes()
    }
}

pub open spec fn zeros(n: nat) -> Seq<u8> {
    Seq::new(n, |i: int| 0u8)
}

/// The wire encoding of a reply. A device-list reply carries the device count and each device
/// with its interfaces; an import reply carries the device record where it names a device; a
/// submit reply carries its 48-byte header, the data, and the packet descriptors; an unlink
/// reply carries its 48-byte header.
pub open spec fn spec_response_bytes(r: UsbipResponse) -> Seq<u8> {
    match r {
        UsbipResponse::Devlist { devices } => reply_header(OP_REP_DEVLIST, ST_OK) + be32(devices@.len() as u32)
            + details_bytes(devices@),
        UsbipResponse::Import { status, device } => reply_header(OP_REP_IMPORT, status) + match device {
            Some(d) => d.udev.spec_bytes(),
            None => Seq::empty(),
        },
        UsbipResponse::Submit { basic, submit, data, iso_descriptors } => basic.spec_bytes()
            + be32(to_unsigned(submit.status)) + be32(to_unsigned(submit.actual_length))
            + be32(to_unsigned(submit.start_frame)) + be32(to_unsigned(submit.number_of_packets))
            + be32(to_unsigned(submit.error_count)) + zeros(8) + data@ + iso_list_bytes(iso_descriptors@),
        UsbipResponse::Unlink { basic, unlink } => basic.spec_bytes() + be32(to_unsigned(unlink.status))
            + zeros(24),
    }
}

fn push_detail(buf: &mut Vec<u8>, d: &UsbipDeviceDetail)
    ensures
        final(buf)@ == old(buf)@ + detail_bytes(*d),
{
    let udev = d.udev.to_bytes();
    append_bytes(buf, udev.as_slice());
    let ghost mid = buf@;
    let mut i: usize = 0;
    while i < d.interfaces.len()
        invariant
            i <= d.interfaces@.len(),
            buf@ == mid + interfaces_bytes(d.interfaces@.take(i as int)),
        decreases d.interfaces@.len() - i,
    {
        let b = d.interfaces[i].to_bytes();
        append_bytes(buf, &b);
        i = i + 1;
        assert(d.interfaces@.take(i as int).drop_last() =~= d.interfaces@.take(i - 1));
    }
    assert(d.interfaces@.take(i as int) =~= d.interfaces@);
}

/// Encodes a reply for the wire.
pub fn encode_response(resp: &UsbipResponse) -> (buf: Vec<u8>)
    requires
        resp matches UsbipResponse::Devlist { devices } ==> devices@.len() <= u32::MAX,
    ensures
        buf@ == spec_response_bytes(*resp),
{
    let mut buf: Vec<u8> = Vec::new();
    match resp {
        UsbipResponse::Devlist { devices } => {
            let h = OpCommon { version: USBIP_VERSION, code: OP_REP_DEVLIST, status: ST_OK }.to_bytes();
            append_bytes(&mut buf, &h);
            push_be32(&mut buf, devices.len() as u32);
            let ghost mid = buf@;
            let mut i: usize = 0;
            while i < devices.len()
                invariant
                    i <= devices@.len(),
                    buf@ == mid + details_bytes(devices@.take(i as int)),
                decreases devices@.len() - i,
            {
                push_detail(&mut buf, &devices[i]);
                i = i + 1;
                assert(devices@.take(i as int).drop_last() =~= devices@.take(i - 1));
            }
            assert(devices@.take(i as int) =~= devices@);
        },
        UsbipResponse::Import { status, device } => {
            let h = OpCommon { version: USBIP_VERSION, code: OP_REP_IMPORT, status: *status }.to_bytes();
            append_bytes(&mut buf, &h);
            if let Some(d) = device {
                let udev = d.udev.to_bytes();
                append_bytes(&mut buf, udev.as_slice());
            }
        },
        UsbipResponse::Submit { basic, submit, data, iso_descriptors } => {
            let b = basic.to_bytes();
            append_bytes(&mut buf, b.as_slice());
            push_be32(&mut buf, i32_bits(submit.status));
            push_be32(&mut buf, i32_bits(submit.actual_length));
            push_be32(&mut buf, i32_bits(submit.start_frame));
            push_be32(&mut buf, i32_bits(submit.number_of_packets));
            push_be32(&mut buf, i32_bits(submit.error_count));
            push_zeros(&mut buf, 8);
            append_bytes(&mut buf, data.as_slice());
            let ghost mid = buf@;
            let mut i: usize = 0;
            while i < iso_descriptors.len()
                invariant
                    i <= iso_descriptors@.len(),
                    buf@ == mid + iso_list_bytes(iso_descriptors@.take(i as int)),
                decreases iso_descriptors@.len() - i,
            {
                let d = iso_descriptors[i].to_bytes();
                append_bytes(&mut buf, &d);
                i = i + 1;
                assert(iso_descriptors@.take(i as int).drop_last() =~= iso_descriptors@.take(i - 1));
            }
            assert(iso_descriptors@.take(i as int) =~= iso_descriptors@);
        },
        UsbipResponse::Unlink { basic, unlink } => {
            let b = basic.to_bytes();
            append_bytes(&mut buf, b.as_slice());
            push_be32(&mut buf, i32_bits(unlink.status));
            push_zeros(&mut buf, 24);
        },
    }
    assert(buf@ =~= spec_response_bytes(*resp));
    buf
}

} // verus!

verus! {

/// The configuration assumed for a device whose configuration descriptor cannot be read.
pub open spec fn fallback_config() -> ConfigModel {
    ConfigModel {
        num_interfaces: 0,
        configuration_value: 1,
        max_power: 500,
        self_powered: true,
        remote_wakeup: false,
        interfaces: Seq::empty(),
    }
}

pub open spec fn effective_config(c: Option<ConfigModel>) -> ConfigModel {
    match c {
        Some(c) => c,
        None => fallback_config(),
    }
}

/// The configuration used where reading one failed.
pub fn fallback_config_descriptor() -> (c: UsbConfigDescriptor)
    ensures
        c@ == fallback_config(),
{
    let c = UsbConfigDescriptor {
        num_interfaces: 0,
        configuration_value: 1,
        max_power: 500,
        self_powered: true,
        remote_wakeup: false,
        interfaces: Vec::new(),
    };
    assert(c@.interfaces =~= Seq::<InterfaceModel>::empty());
    c
}

/// The interface record of an interface: the class codes of its first setting.
pub open spec fn interface_record(i: InterfaceModel) -> UsbipUsbInterface {
    if i.settings.len() > 0 {
        UsbipUsbInterface {
            b_interface_class: i.settings[0].class_code,
            b_interface_subclass: i.settings[0].sub_class_code,
            b_interface_protocol: i.settings[0].protocol_code,
            padding: 0,
        }
    } else {
        UsbipUsbInterface { b_interface_class: 0, b_interface_subclass: 0, b_interface_protocol: 0, padding: 0 }
    }
}

/// A version pair as a binary-coded-decimal 16-bit number: major byte, then minor byte.
pub open spec fn bcd(v: (u8, u8)) -> u16 {
    (v.0 as int * 256 + v.1 as int) as u16
}

/// `d` is the record that announces `device`: its sysfs path and bus id, zero-padded; bus,
/// address and speed code; the fields of its device descriptor; and the configuration value,
/// interface count and interface records of its first configuration.
pub open spec fn is_detail_of<D: UsbDevice>(d: UsbipDeviceDetail, device: D) -> bool {
    match device.spec_device_descriptor() {
        None => false,
        Some(desc) => {
            let bus = device.spec_bus_number();
            let addr = device.spec_address();
            let c = effective_config(config_view(device.spec_config_descriptor(0)));
            &&& d.udev.path@ == padded(vstd::utf8::encode_utf8(sysfs_path_text(bus, addr)), 256)
            &&& d.udev.busid@ == padded(vstd::utf8::encode_utf8(bus_id_text(bus, addr)), 32)
            &&& d.udev.busnum == bus as u32
            &&& d.udev.devnum == addr as u32
            &&& d.udev.speed == speed_code(device.spec_speed())
            &&& d.udev.id_vendor == desc.vendor_id
            &&& d.udev.id_product == desc.product_id
            &&& d.udev.bcd_device == bcd(desc.device_version)
            &&& d.udev.b_device_class == desc.device_class
            &&& d.udev.b_device_subclass == desc.device_subclass
            &&& d.udev.b_device_protocol == desc.device_protocol
            &&& d.udev.b_configuration_value == c.configuration_value
            &&& d.udev.b_num_configurations == desc.num_configurations
            &&& d.udev.b_num_interfaces == c.num_interfaces
            &&& d.interfaces@ == c.interfaces.map_values(|i: InterfaceModel| interface_record(i))
        },
    }
}

/// The record that announces a device carries its bus number as `busnum` and its address as
/// `devnum`, and as bus id the decimal numerals of `busnum` and `devnum` joined by `-`,
/// zero-padded; its speed is the wire code of the device's speed.
pub proof fn lemma_detail_names_its_device<D: UsbDevice>(d: UsbipDeviceDetail, device: D)
    requires
        is_detail_of(d, device),
    ensures
        d.udev.busnum == device.spec_bus_number() as u32,
        d.udev.devnum == device.spec_address() as u32,
        d.udev.busid@ == padded(
            vstd::utf8::encode_utf8(decimal(d.udev.busnum as nat) + "-"@ + decimal(d.udev.devnum as nat)),
            32,
        ),
        d.udev.speed == speed_code(device.spec_speed()),
{
}

fn array256(v: &Vec<u8>) -> (a: [u8; 256])
    requires
        v@.len() == 256,
    ensures
        a@ == v@,
{
    let mut a = [0u8; 256];
    let mut i: usize = 0;
    while i < 256
        invariant
            v@.len() == 256,
            i <= 256,
            forall|k: int| 0 <= k < i ==> a@[k] == v@[k],
        decreases 256 - i,
    {
        a[i] = v[i];
        i = i + 1;
    }
    assert(a@ =~= v@);
    a
}

fn array32(v: &Vec<u8>) -> (a: [u8; 32])
    requires
        v@.len() == 32,
    ensures
        a@ == v@,
{
    let mut a = [0u8; 32];
    let mut i: usize = 0;
    while i < 32
        invariant
            v@.len() == 32,
            i <= 32,
            forall|k: int| 0 <= k < i ==> a@[k] == v@[k],
        decreases 32 - i,
    {
        a[i] = v[i];
        i = i + 1;
    }
    assert(a@ =~= v@);
    a
}

impl UsbipDeviceDetail {
    /// The record that announces `device`; an error where its device descriptor cannot be read.
    pub fn new<D: UsbDevice>(device: &D) -> (r: Result<Self, DetailError>)
        ensures
            r is Ok <==> device.spec_device_descriptor() is Some,
            r matches Ok(d) ==> is_detail_of(d, *device),
            r matches Ok(d) ==> d.udev.busnum == device.spec_bus_number() as u32
                && d.udev.devnum == device.spec_address() as u32,
    {
        let desc = match device.device_descriptor() {
            Ok(d) => d,
            Err(_) => return Err(DetailError::DescriptorUnavailable),
        };
        let config = match device.config_descriptor(0) {
            Ok(c) => c,
            Err(_) => fallback_config_descriptor(),
        };
        let bus = device.bus_number();
        let addr = device.address();
        let path_text = HostDeviceRegistry::<D>::sysfs_path(bus, addr);
        let busid_text = HostDeviceRegistry::<D>::bus_id(bus, addr);
        let path = array256(&pad_string(path_text.as_str(), 256));
        let busid = array32(&pad_string(busid_text.as_str(), 32));
        let mut interfaces: Vec<UsbipUsbInterface> = Vec::new();
        let mut i: usize = 0;
        while i < config.interfaces.len()
            invariant
                i <= config.interfaces@.len(),
                interfaces@ == config@.interfaces.take(i as int).map_values(|i: InterfaceModel| interface_record(i)),
            decreases config.interfaces@.len() - i,
        {
            let iface = &config.interfaces[i];
            let rec = if iface.settings.len() > 0 {
                UsbipUsbInterface {
                    b_interface_class: iface.settings[0].class_code,
                    b_interface_subclass: iface.settings[0].sub_class_code,
                    b_interface_protocol: iface.settings[0].protocol_code,
                    padding: 0,
                }
            } else {
                UsbipUsbInterface { b_interface_class: 0, b_interface_subclass: 0, b_interface_protocol: 0, padding: 0 }
            };
            assert(rec == interface_record(config@.interfaces[i as int]));
            interfaces.push(rec);
            i = i + 1;
            assert(config@.interfaces.take(i as int).map_values(|i: InterfaceModel| interface_record(i)) =~=
                config@.interfaces.take(i - 1).map_values(|i: InterfaceModel| interface_record(i)).push(rec));
        }
        assert(config@.interfaces.take(i as int) =~= config@.interfaces);
        let udev = UsbipUsbDevice {
            path,
            busid,
            busnum: bus as u32,
            devnum: addr as u32,
            speed: map_speed(device.speed()),
            id_vendor: desc.vendor_id,
            id_product: desc.product_id,
            bcd_device: (desc.device_version.0 as u16) * 256 + (desc.device_version.1 as u16),
            b_device_class: desc.device_class,
            b_device_subclass: desc.device_subclass,
            b_device_protocol: desc.device_protocol,
            b_configuration_value: config.configuration_value,
            b_num_configurations: desc.num_configurations,
            b_num_interfaces: config.num_interfaces,
        };
        Ok(UsbipDeviceDetail { udev, interfaces })
    }
}

/// Why a device record could not be built.
#[derive(Debug, Clone, Copy, PartialEq, Eq)]
pub enum DetailError {
    /// The device descriptor could not be read.
    DescriptorUnavailable,
}

impl DetailError {
    pub open spec fn text(self) -> Seq<char> {
        match self {
            DetailError::DescriptorUnavailable => "Device descriptor unavailable"@,
        }
    }

    /// The message that tells a user of the error.
    pub fn message(&self) -> (s: String)
        ensures
            s@ == self.text(),
    {
        match self {
            DetailError::DescriptorUnavailable => String::from_str("Device descriptor unavailable"),
        }
    }
}

} // verus!

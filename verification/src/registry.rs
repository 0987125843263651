use vstd::prelude::*;
use std::sync::Arc;
use vstd::string::StringExecFns;
use crate::text::{ends_with, decimal, is_digit, lemma_decimal_digits, lemma_decimal_parses, lemma_char_index_at, parse_u32, split_once, hex, zero_padded, strip_hex_prefix, parse_hex_u16, parse_hex_id, push_decimal, push_decimal3, push_hex4, push_str};
use crate::mock::rule_answer;
use crate::{
    ConfigModel, InterfaceModel, SettingModel, UsbEndpointDescriptor,
    MockTransferCallback, MockTransferRule, MockUsbDevice, UsbConfigDescriptor, UsbDevice,
    UsbDeviceDescriptor, UsbDeviceHandle, UsbError, UsbInterfaceDescriptor,
    UsbInterfaceSettingDescriptor, UsbSpeed,
};

verus! {

/// Why a device lookup or a query could not be served.
#[derive(Debug, Clone, Copy, PartialEq, Eq)]
pub enum RegistryError {
    /// A vendor or product id is not a 16-bit hexadecimal number.
    InvalidId,
    /// No device matches the query.
    NoMatchingDevice,
    /// More than one device matches the query.
    MultipleMatchingDevices,
}

impl RegistryError {
    pub open spec fn text(self) -> Seq<char> {
        match self {
            RegistryError::InvalidId => "Invalid vendor or product id"@,
            RegistryError::NoMatchingDevice => "No matching USB device found."@,
            RegistryError::MultipleMatchingDevices => "Multiple matching USB devices found. Please specify more filters."@,
        }
    }

    /// The message that tells a user of the error.
    pub fn message(&self) -> (s: String)
        ensures
            s@ == self.text(),
    {
        match self {
            RegistryError::InvalidId => String::from_str("Invalid vendor or product id"),
            RegistryError::NoMatchingDevice => String::from_str("No matching USB device found."),
            RegistryError::MultipleMatchingDevices => String::from_str("Multiple matching USB devices found. Please specify more filters."),
        }
    }
}

/// The text `bus-address` that names a device on the USB/IP wire, such as `1-2`.
pub open spec fn bus_id_text(bus: u8, address: u8) -> Seq<char> {
    decimal(bus as nat) + "-"@ + decimal(address as nat)
}

/// A bus id names one bus and address: two bus ids that are the same text have the same bus
/// number and the same address.
pub proof fn lemma_bus_id_unique(b1: u8, a1: u8, b2: u8, a2: u8)
    requires
        bus_id_text(b1, a1) == bus_id_text(b2, a2),
    ensures
        b1 == b2,
        a1 == a2,
{
    reveal_strlit("-");
    let s = bus_id_text(b1, a1);
    let x1 = decimal(b1 as nat);
    let x2 = decimal(b2 as nat);
    let y1 = decimal(a1 as nat);
    let y2 = decimal(a2 as nat);
    lemma_decimal_digits(b1 as nat);
    lemma_decimal_digits(b2 as nat);
    lemma_decimal_digits(a1 as nat);
    lemma_decimal_digits(a2 as nat);
    assert(s == x1 + "-"@ + y1);
    assert(s == x2 + "-"@ + y2);
    assert(s[x1.len() as int] == '-');
    assert(s[x2.len() as int] == '-');
    if x1.len() < x2.len() {
        assert(s[x1.len() as int] == x2[x1.len() as int]);
        assert(is_digit(x2[x1.len() as int]));
    }
    if x2.len() < x1.len() {
        assert(s[x2.len() as int] == x1[x2.len() as int]);
        assert(is_digit(x1[x2.len() as int]));
    }
    assert(x1.len() == x2.len());
    assert(x1 =~= s.subrange(0, x1.len() as int));
    assert(x2 =~= s.subrange(0, x2.len() as int));
    assert(y1 =~= s.skip(x1.len() + 1int));
    assert(y2 =~= s.skip(x2.len() + 1int));
}

/// A bus id splits at its `-` into the decimal numerals of the bus number and the address,
/// which parse back to them; the sysfs path of a device ends in `/` and its bus id, which holds
/// no `/`, so the bus id is the last component of the path.
pub proof fn lemma_bus_id_round_trip(b: u8, a: u8)
    ensures
        split_once(bus_id_text(b, a), '-') == Some((decimal(b as nat), decimal(a as nat))),
        parse_u32(decimal(b as nat)) == Some(b as u32),
        parse_u32(decimal(a as nat)) == Some(a as u32),
        ({
            let p = sysfs_path_text(b, a);
            let id = bus_id_text(b, a);
            &&& p.len() > id.len()
            &&& p.skip(p.len() - id.len()) == id
            &&& p[p.len() - id.len() - 1] == '/'
            &&& forall|i: int| 0 <= i < id.len() ==> id[i] != '/'
        }),
{
    reveal_strlit("-");
    reveal_strlit("/");
    lemma_decimal_digits(b as nat);
    lemma_decimal_digits(a as nat);
    lemma_decimal_parses(b as nat);
    lemma_decimal_parses(a as nat);
    let x = decimal(b as nat);
    let y = decimal(a as nat);
    let id = bus_id_text(b, a);
    assert(id == x + "-"@ + y);
    assert(id[x.len() as int] == '-');
    assert forall|i: int| 0 <= i < x.len() implies id[i] != '-' by {
        assert(id[i] == x[i]);
        assert(is_digit(x[i]));
    }
    lemma_char_index_at(id, '-', x.len() as int);
    assert(id.take(x.len() as int) =~= x);
    assert(id.skip(x.len() + 1int) =~= y);
    assert forall|i: int| 0 <= i < id.len() implies id[i] != '/' by {
        if i < x.len() {
            assert(id[i] == x[i]);
            assert(is_digit(x[i]));
        } else if i > x.len() {
            assert(id[i] == y[i - x.len() - 1]);
            assert(is_digit(y[i - x.len() - 1]));
        }
    }
    let p = sysfs_path_text(b, a);
    let head = "/sys/devices/mock/usb"@ + decimal(b as nat) + "/"@;
    assert(p == head + id);
    assert(p.skip(p.len() - id.len()) =~= id);
    assert(p[p.len() - id.len() - 1] == head[head.len() - 1]);
}

/// The sysfs-style path that a shared device is announced under.
pub open spec fn sysfs_path_text(bus: u8, address: u8) -> Seq<char> {
    "/sys/devices/mock/usb"@ + decimal(bus as nat) + "/"@ + bus_id_text(bus, address)
}

/// Criteria that select devices; a criterion that is `None` accepts every device.
#[derive(Debug, Clone, Default, PartialEq, Eq)]
pub struct DeviceQuery {
    pub vendor_id: Option<u16>,
    pub product_id: Option<u16>,
    pub bus_number: Option<u8>,
    pub address: Option<u8>,
    pub bus_id: Option<String>,
}

/// `device` meets every criterion of `q`; a vendor or product criterion fails where the device
/// descriptor cannot be read.
pub open spec fn query_accepts<D: UsbDevice>(q: DeviceQuery, device: D) -> bool {
    &&& (q.vendor_id matches Some(v) ==> device.spec_device_descriptor() matches Some(d) && d.vendor_id == v)
    &&& (q.product_id matches Some(p) ==> device.spec_device_descriptor() matches Some(d) && d.product_id == p)
    &&& (q.bus_number matches Some(b) ==> device.spec_bus_number() == b)
    &&& (q.address matches Some(a) ==> device.spec_address() == a)
    &&& (q.bus_id matches Some(id) ==> id@ == bus_id_text(device.spec_bus_number(), device.spec_address()))
}

/// A query with one criterion accepts a device exactly when the matching field of the device
/// equals it: the vendor or product id of its device descriptor (which must be readable), its
/// bus number, its address, or its bus id; a query with no criterion accepts every device.
pub proof fn lemma_single_criterion<D: UsbDevice>(q: DeviceQuery, device: D)
    ensures
        q.product_id is Some && q.vendor_id is None && q.bus_number is None && q.address is None && q.bus_id is None
            ==> (query_accepts(q, device) <==> device.spec_device_descriptor() is Some
                && device.spec_device_descriptor()->0.product_id == q.product_id->0),
        q.vendor_id is Some && q.product_id is None && q.bus_number is None && q.address is None && q.bus_id is None
            ==> (query_accepts(q, device) <==> device.spec_device_descriptor() is Some
                && device.spec_device_descriptor()->0.vendor_id == q.vendor_id->0),
        q.bus_number is Some && q.vendor_id is None && q.product_id is None && q.address is None && q.bus_id is None
            ==> (query_accepts(q, device) <==> device.spec_bus_number() == q.bus_number->0),
        q.address is Some && q.vendor_id is None && q.product_id is None && q.bus_number is None && q.bus_id is None
            ==> (query_accepts(q, device) <==> device.spec_address() == q.address->0),
        q.bus_id is Some && q.vendor_id is None && q.product_id is None && q.bus_number is None && q.address is None
            ==> (query_accepts(q, device) <==> q.bus_id->0@
                == decimal(device.spec_bus_number() as nat) + "-"@ + decimal(device.spec_address() as nat)),
        q.vendor_id is None && q.product_id is None && q.bus_number is None && q.address is None && q.bus_id is None
            ==> query_accepts(q, device),
{
}

impl DeviceQuery {
    /// A query that accepts every device.
    pub fn any() -> (q: Self)
        ensures
            q.vendor_id is None && q.product_id is None && q.bus_number is None
                && q.address is None && q.bus_id is None,
    {
        DeviceQuery { vendor_id: None, product_id: None, bus_number: None, address: None, bus_id: None }
    }

    /// Builds a query from command-line arguments: vendor and product ids in hexadecimal, with
    /// or without a `0x` prefix.
    pub fn from_cli_args(
        vid: Option<&str>,
        pid: Option<&str>,
        bus_number: Option<u8>,
        address: Option<u8>,
    ) -> (r: Result<Self, RegistryError>)
        ensures
            r is Ok <==> (vid matches Some(v) ==> parse_hex_u16(strip_hex_prefix(v@)) is Some)
                && (pid matches Some(p) ==> parse_hex_u16(strip_hex_prefix(p@)) is Some),
            r is Err ==> r == Err::<Self, RegistryError>(RegistryError::InvalidId),
            r matches Ok(q) ==> {
                &&& q.vendor_id == match vid { Some(v) => parse_hex_u16(strip_hex_prefix(v@)), None => None }
                &&& q.product_id == match pid { Some(p) => parse_hex_u16(strip_hex_prefix(p@)), None => None }
                &&& q.bus_number == bus_number
                &&& q.address == address
                &&& q.bus_id is None
            },
    {
        let vendor_id = match vid {
            Some(s) => match parse_hex_id(s) {
                Some(v) => Some(v),
                None => return Err(RegistryError::InvalidId),
            },
            None => None,
        };
        let product_id = match pid {
            Some(s) => match parse_hex_id(s) {
                Some(v) => Some(v),
                None => return Err(RegistryError::InvalidId),
            },
            None => None,
        };
        Ok(DeviceQuery { vendor_id, product_id, bus_number, address, bus_id: None })
    }

    /// Whether `device` meets every criterion of the query.
    pub fn matches<D: UsbDevice>(&self, device: &D) -> (r: bool)
        ensures
            r == query_accepts(*self, *device),
            r <==> {
                &&& (self.vendor_id is Some ==> device.spec_device_descriptor() is Some
                    && device.spec_device_descriptor()->0.vendor_id == self.vendor_id->0)
                &&& (self.product_id is Some ==> device.spec_device_descriptor() is Some
                    && device.spec_device_descriptor()->0.product_id == self.product_id->0)
                &&& (self.bus_number is Some ==> device.spec_bus_number() == self.bus_number->0)
                &&& (self.address is Some ==> device.spec_address() == self.address->0)
                &&& (self.bus_id is Some ==> self.bus_id->0@
                    == decimal(device.spec_bus_number() as nat) + "-"@ + decimal(device.spec_address() as nat))
            },
    {
        if let Some(vid) = self.vendor_id {
            match device.device_descriptor() {
                Ok(desc) => {
                    if desc.vendor_id != vid {
                        return false;
                    }
                },
                Err(_) => return false,
            }
        }
        if let Some(pid) = self.product_id {
            match device.device_descriptor() {
                Ok(desc) => {
                    if desc.product_id != pid {
                        return false;
                    }
                },
                Err(_) => return false,
            }
        }
        if let Some(bus_num) = self.bus_number {
            if device.bus_number() != bus_num {
                return false;
            }
        }
        if let Some(address) = self.address {
            if device.address() != address {
                return false;
            }
        }
        if let Some(bus_id) = &self.bus_id {
            let actual = bus_id_string(device.bus_number(), device.address());
            if actual != *bus_id {
                return false;
            }
        }
        true
    }
}

fn bus_id_string(bus: u8, address: u8) -> (s: String)
    ensures
        s@ == bus_id_text(bus, address),
{
    let mut s = String::new();
    push_decimal(&mut s, bus as u32);
    push_str(&mut s, "-");
    push_decimal(&mut s, address as u32);
    s
}

/// The start of a device's line in a device listing: `Bus 001 Device 002: ID `.
pub open spec fn cli_prefix(bus: u8, address: u8) -> Seq<char> {
    "Bus "@ + zero_padded(decimal(bus as nat), 3) + " Device "@ + zero_padded(decimal(address as nat), 3) + ": ID "@
}

/// The manufacturer and product names of a listing line, as far as they are known.
pub open spec fn cli_details(manufacturer: Option<Seq<char>>, product: Option<Seq<char>>) -> Seq<char> {
    match (manufacturer, product) {
        (Some(m), Some(p)) => m + " "@ + p,
        (Some(m), None) => m,
        (None, Some(p)) => p,
        (None, None) => Seq::empty(),
    }
}

/// A device's line in a device listing, such as `Bus 001 Device 002: ID 1d6b:0002 Linux
/// Foundation 2.0 root hub`: bus and address in three decimal digits, vendor and product id in
/// four lower-case hexadecimal digits, then the names that are known; `<unknown>` in place of the
/// ids where the device descriptor could not be read.
pub open spec fn cli_info_text(
    bus: u8,
    address: u8,
    desc: Option<UsbDeviceDescriptor>,
    manufacturer: Option<Seq<char>>,
    product: Option<Seq<char>>,
) -> Seq<char> {
    match desc {
        None => cli_prefix(bus, address) + "<unknown>"@,
        Some(d) => {
            let base = cli_prefix(bus, address) + zero_padded(hex(d.vendor_id as nat), 4) + ":"@
                + zero_padded(hex(d.product_id as nat), 4);
            let details = cli_details(manufacturer, product);
            if details.len() == 0 {
                base
            } else {
                base + " "@ + details
            }
        },
    }
}

/// The names that a listing line of a device with descriptor `d` shows, once opening the device
/// gave `opened`. A name without an index in the descriptor is not shown. Where the device could
/// not be opened, each name with an index is `<Access Denied>`; where it could, each name with an
/// index is what reading it from the opened device gives, and not shown where the read fails.
pub open spec fn listing_names_of<H: UsbDeviceHandle>(
    d: UsbDeviceDescriptor,
    opened: Result<H, UsbError>,
) -> (Option<Seq<char>>, Option<Seq<char>>) {
    let m = if d.manufacturer_string_index is None {
        None
    } else {
        match opened {
            Err(_) => Some("<Access Denied>"@),
            Ok(h) => opt_view(h.spec_manufacturer_string(d)),
        }
    };
    let p = if d.product_string_index is None {
        None
    } else {
        match opened {
            Err(_) => Some("<Access Denied>"@),
            Ok(h) => opt_view(h.spec_product_string(d)),
        }
    };
    (m, p)
}

/// `text` is a listing line that `device` gives: `<unknown>` in place of the ids where its
/// device descriptor cannot be read, and otherwise its ids and the names shown for some outcome
/// of opening it (see `listing_names_of`); whether the device opens is its own.
pub open spec fn is_possible_cli_info_of<D: UsbDevice>(text: Seq<char>, device: D) -> bool {
    match device.spec_device_descriptor() {
        None => text == cli_info_text(device.spec_bus_number(), device.spec_address(), None, None, None),
        Some(d) => exists|opened: Result<D::Handle, UsbError>| {
            let names = #[trigger] listing_names_of(d, opened);
            text == cli_info_text(device.spec_bus_number(), device.spec_address(), Some(d), names.0, names.1)
        },
    }
}

pub open spec fn opt_view(s: Option<String>) -> Option<Seq<char>> {
    match s {
        Some(t) => Some(t@),
        None => None,
    }
}

/// A listing line of a device whose descriptor was read ends with the names that are known: a
/// space and the product name wherever that is known and not empty, whether or not the
/// manufacturer name is; a space, the manufacturer name, a space and the product name where both
/// are known; a space and the manufacturer name where only that is known and not empty.
pub proof fn lemma_listing_line_ends_with_names(
    bus: u8,
    address: u8,
    d: UsbDeviceDescriptor,
    manufacturer: Option<Seq<char>>,
    product: Option<Seq<char>>,
)
    ensures
        product is Some && product->0.len() > 0
            ==> ends_with(cli_info_text(bus, address, Some(d), manufacturer, product), " "@ + product->0),
        manufacturer is Some && product is Some
            ==> ends_with(cli_info_text(bus, address, Some(d), manufacturer, product),
                " "@ + manufacturer->0 + " "@ + product->0),
        manufacturer is Some && manufacturer->0.len() > 0 && product is None
            ==> ends_with(cli_info_text(bus, address, Some(d), manufacturer, product), " "@ + manufacturer->0),
{
    reveal_strlit(" ");
    let t = cli_info_text(bus, address, Some(d), manufacturer, product);
    let base = cli_prefix(bus, address) + zero_padded(hex(d.vendor_id as nat), 4) + ":"@
        + zero_padded(hex(d.product_id as nat), 4);
    match (manufacturer, product) {
        (Some(m), Some(p)) => {
            assert(t == base + " "@ + (m + " "@ + p));
            assert(t.skip(t.len() - (" "@ + p).len()) =~= " "@ + p);
            assert(t.skip(t.len() - (" "@ + m + " "@ + p).len()) =~= " "@ + m + " "@ + p);
        },
        (None, Some(p)) => {
            if p.len() > 0 {
                assert(t == base + " "@ + p);
                assert(t.skip(t.len() - (" "@ + p).len()) =~= " "@ + p);
            }
        },
        (Some(m), None) => {
            if m.len() > 0 {
                assert(t == base + " "@ + m);
                assert(t.skip(t.len() - (" "@ + m).len()) =~= " "@ + m);
            }
        },
        (None, None) => {},
    }
}

/// Builds a listing line from what was read of a device.
pub fn cli_info_from(
    bus: u8,
    address: u8,
    desc: Option<UsbDeviceDescriptor>,
    manufacturer: Option<String>,
    product: Option<String>,
) -> (s: String)
    ensures
        s@ == cli_info_text(bus, address, desc, opt_view(manufacturer), opt_view(product)),
        desc is Some && product is Some && product->0@.len() > 0 ==> ends_with(s@, " "@ + product->0@),
{
    proof {
        if desc is Some {
            lemma_listing_line_ends_with_names(bus, address, desc->0, opt_view(manufacturer), opt_view(product));
        }
    }
    let mut s = String::new();
    push_str(&mut s, "Bus ");
    push_decimal3(&mut s, bus);
    push_str(&mut s, " Device ");
    push_decimal3(&mut s, address);
    push_str(&mut s, ": ID ");
    match desc {
        None => {
            push_str(&mut s, "<unknown>");
            s
        },
        Some(d) => {
            push_hex4(&mut s, d.vendor_id);
            push_str(&mut s, ":");
            push_hex4(&mut s, d.product_id);
            let details = match (manufacturer, product) {
                (Some(m), Some(p)) => {
                    let mut t = m;
                    push_str(&mut t, " ");
                    push_str(&mut t, p.as_str());
                    t
                },
                (Some(m), None) => m,
                (None, Some(p)) => p,
                (None, None) => String::new(),
            };
            if details.as_str().unicode_len() > 0 {
                push_str(&mut s, " ");
                push_str(&mut s, details.as_str());
            }
            s
        },
    }
}

/// The names of a listing line. A name without an index in the descriptor is not shown. Where
/// the device could not be opened, each name with an index is `<Access Denied>`; where it could,
/// each name with an index is read from the opened device, and not shown where the read fails.
pub fn listing_names<H: UsbDeviceHandle>(desc: &UsbDeviceDescriptor, opened: &Result<H, UsbError>) -> (r: (
    Option<String>,
    Option<String>,
))
    ensures
        (opt_view(r.0), opt_view(r.1)) == listing_names_of(*desc, *opened),
{
    match opened {
        Ok(handle) => {
            let m = if desc.manufacturer_string_index.is_some() {
                match handle.read_manufacturer_string(desc) {
                    Ok(t) => Some(t),
                    Err(_) => None,
                }
            } else {
                None
            };
            let p = if desc.product_string_index.is_some() {
                match handle.read_product_string(desc) {
                    Ok(t) => Some(t),
                    Err(_) => None,
                }
            } else {
                None
            };
            (m, p)
        },
        Err(_) => {
            let m = if desc.manufacturer_string_index.is_some() {
                Some(String::from_str("<Access Denied>"))
            } else {
                None
            };
            let p = if desc.product_string_index.is_some() {
                Some(String::from_str("<Access Denied>"))
            } else {
                None
            };
            (m, p)
        },
    }
}

/// Wraps a shared device with the names it is announced under.
pub struct RegistryDevice<D: UsbDevice> {
    pub device: Arc<D>,
    pub bus_id: String,
    pub sysfs_path: String,
    pub cli_info: String,
}

/// `entry` describes `device`.
pub open spec fn describes<D: UsbDevice>(entry: RegistryDevice<D>, device: Arc<D>) -> bool {
    &&& entry.device == device
    &&& entry.bus_id@ == bus_id_text(device.spec_bus_number(), device.spec_address())
    &&& entry.sysfs_path@ == sysfs_path_text(device.spec_bus_number(), device.spec_address())
    &&& is_possible_cli_info_of(entry.cli_info@, *device)
}

impl<D: UsbDevice> RegistryDevice<D> {
    pub fn new(device: Arc<D>) -> (r: Self)
        ensures
            describes(r, device),
    {
        let bus = device.bus_number();
        let addr = device.address();
        let bus_id = HostDeviceRegistry::<D>::bus_id(bus, addr);
        let sysfs_path = HostDeviceRegistry::<D>::sysfs_path(bus, addr);
        let cli_info = HostDeviceRegistry::<D>::format_cli_info(&*device);
        RegistryDevice { device, bus_id, sysfs_path, cli_info }
    }
}

/// The devices that a host offers.
pub struct HostDeviceRegistry<D: UsbDevice> {
    devices: Vec<Arc<D>>,
}

/// The devices among `devs` that `q` accepts, in their order.
pub open spec fn matching_devices<D: UsbDevice>(devs: Seq<Arc<D>>, q: DeviceQuery) -> Seq<Arc<D>>
    decreases devs.len(),
{
    if devs.len() == 0 {
        Seq::empty()
    } else {
        let rest = matching_devices(devs.drop_last(), q);
        if query_accepts(q, *devs.last()) { rest.push(devs.last()) } else { rest }
    }
}

impl<D: UsbDevice> HostDeviceRegistry<D> {
    pub closed spec fn devices(&self) -> Seq<Arc<D>> {
        self.devices@
    }

    pub fn new_static(devices: Vec<Arc<D>>) -> (r: Self)
        ensures
            r.devices() == devices@,
    {
        HostDeviceRegistry { devices }
    }

    pub fn sysfs_path(bus: u8, address: u8) -> (s: String)
        ensures
            s@ == sysfs_path_text(bus, address),
    {
        let mut s = String::new();
        push_str(&mut s, "/sys/devices/mock/usb");
        push_decimal(&mut s, bus as u32);
        push_str(&mut s, "/");
        let id = bus_id_string(bus, address);
        push_str(&mut s, id.as_str());
        s
    }

    pub fn bus_id(bus: u8, address: u8) -> (s: String)
        ensures
            s@ == bus_id_text(bus, address),
    {
        bus_id_string(bus, address)
    }

    /// The listing line of a device. Names are read from the device where it can be opened,
    /// and shown as `<Access Denied>` where it cannot.
    pub fn format_cli_info(device: &D) -> (s: String)
        ensures
            is_possible_cli_info_of(s@, *device),
    {
        let bus = device.bus_number();
        let addr = device.address();
        let desc = match device.device_descriptor() {
            Ok(d) => d,
            Err(_) => return cli_info_from(bus, addr, None, None, None),
        };
        let opened = device.open();
        let (manufacturer, product) = listing_names(&desc, &opened);
        let ghost mv = opt_view(manufacturer);
        let ghost pv = opt_view(product);
        let ghost opened0 = opened;
        let s = cli_info_from(bus, addr, Some(desc), manufacturer, product);
        assert(listing_names_of(desc, opened0) == (mv, pv));
        assert(cli_info_text(bus, addr, Some(desc), mv, pv) == s@);
        s
    }

    /// The devices that `query` accepts, in registry order.
    pub fn find_devices(&self, query: &DeviceQuery) -> (r: Result<Vec<RegistryDevice<D>>, RegistryError>)
        ensures
            r matches Ok(v) && v@.len() == matching_devices(self.devices(), *query).len()
                && forall|i: int| 0 <= i < v@.len() ==> describes(#[trigger] v@[i], matching_devices(self.devices(), *query)[i]),
    {
        let mut matched: Vec<RegistryDevice<D>> = Vec::new();
        let mut i: usize = 0;
        while i < self.devices.len()
            invariant
                i <= self.devices@.len(),
                matched@.len() == matching_devices(self.devices@.take(i as int), *query).len(),
                forall|k: int| 0 <= k < matched@.len() ==> describes(#[trigger] matched@[k],
                    matching_devices(self.devices@.take(i as int), *query)[k]),
            decreases self.devices@.len() - i,
        {
            let dev = &self.devices[i];
            assert(self.devices@.take(i + 1).drop_last() =~= self.devices@.take(i as int));
            if query.matches(&**dev) {
                matched.push(RegistryDevice::new(Arc::clone(dev)));
            }
            i = i + 1;
        }
        assert(self.devices@.take(i as int) =~= self.devices@);
        Ok(matched)
    }

    /// The one device that `query` accepts; an error where none or several do.
    pub fn find_single_device(&self, query: &DeviceQuery) -> (r: Result<RegistryDevice<D>, RegistryError>)
        ensures
            matching_devices(self.devices(), *query).len() == 0
                ==> r == Err::<RegistryDevice<D>, RegistryError>(RegistryError::NoMatchingDevice),
            matching_devices(self.devices(), *query).len() > 1
                ==> r == Err::<RegistryDevice<D>, RegistryError>(RegistryError::MultipleMatchingDevices),
            matching_devices(self.devices(), *query).len() == 1
                ==> (r matches Ok(e) && describes(e, matching_devices(self.devices(), *query)[0])),
    {
        let mut matched = match self.find_devices(query) {
            Ok(v) => v,
            Err(e) => return Err(e),
        };
        if matched.len() == 0 {
            Err(RegistryError::NoMatchingDevice)
        } else if matched.len() > 1 {
            Err(RegistryError::MultipleMatchingDevices)
        } else {
            let e = matched.pop();
            match e {
                Some(e) => Ok(e),
                None => Err(RegistryError::NoMatchingDevice),
            }
        }
    }
}

/// The in-memory device that `new_mock` offers: bus 1, address 2, high speed, id 1d6b:0104
/// (USB 2.0, device version 1.0, string indexes 1 to 3), one configuration with one interface of
/// class 0x0a and no endpoints, names `Antigravity`, `E2E_Virtual_Gadget` and `0123456789`; it
/// answers a GET_DESCRIPTOR request for its device descriptor with the 18 bytes of that
/// descriptor, and every other transfer with no data.
pub open spec fn is_mock_gadget(d: MockUsbDevice) -> bool {
    &&& d.bus_num == 1
    &&& d.dev_addr == 2
    &&& d.dev_speed == UsbSpeed::High
    &&& d.descriptor == UsbDeviceDescriptor {
        vendor_id: 0x1d6b,
        product_id: 0x0104,
        device_class: 0x00,
        device_subclass: 0x00,
        device_protocol: 0x00,
        max_packet_size_0: 64,
        num_configurations: 1,
        usb_version: (2, 0),
        device_version: (1, 0),
        manufacturer_string_index: Some(1),
        product_string_index: Some(2),
        serial_number_string_index: Some(3),
    }
    &&& d.config_descriptor@ == ConfigModel {
        num_interfaces: 1,
        configuration_value: 1,
        max_power: 500,
        self_powered: true,
        remote_wakeup: false,
        interfaces: seq![InterfaceModel {
            interface_number: 0,
            settings: seq![SettingModel {
                setting_number: 0,
                class_code: 0x0a,
                sub_class_code: 0,
                protocol_code: 0,
                endpoints: Seq::empty(),
            }],
        }],
    }
    &&& d.transfer_handler matches Some(h) && forall|a: Seq<char>| #[trigger] h.answer(a) == if a == "control_read:128:6:256:0"@ {
        Ok::<Seq<u8>, Seq<char>>(seq![18u8, 1, 0x00, 0x02, 0, 0, 0, 64, 0x6b, 0x1d, 0x04, 0x01, 0x00, 0x01, 1, 2, 3, 1])
    } else {
        Ok::<Seq<u8>, Seq<char>>(Seq::empty())
    }
    &&& d.open_error is None
    &&& d.kernel_drivers is None
    &&& d.claimed_interfaces is None
    &&& d.manufacturer@ == "Antigravity"@
    &&& d.product@ == "E2E_Virtual_Gadget"@
    &&& d.serial_number@ == "0123456789"@
}

impl HostDeviceRegistry<MockUsbDevice> {
    /// A registry that offers one in-memory device: bus 1, address 2, id 1d6b:0104, high speed,
    /// one interface of class 0x0a, answering a GET_DESCRIPTOR request for its device descriptor.
    pub fn new_mock() -> (r: Result<Self, RegistryError>)
        ensures
            r matches Ok(reg) && reg.devices().len() == 1 && is_mock_gadget(*reg.devices()[0]),
    {
        let desc = UsbDeviceDescriptor {
            vendor_id: 0x1d6b,
            product_id: 0x0104,
            device_class: 0x00,
            device_subclass: 0x00,
            device_protocol: 0x00,
            max_packet_size_0: 64,
            num_configurations: 1,
            usb_version: (2, 0),
            device_version: (1, 0),
            manufacturer_string_index: Some(1),
            product_string_index: Some(2),
            serial_number_string_index: Some(3),
        };
        let config = UsbConfigDescriptor {
            num_interfaces: 1,
            configuration_value: 1,
            max_power: 500,
            self_powered: true,
            remote_wakeup: false,
            interfaces: vec![UsbInterfaceDescriptor {
                interface_number: 0,
                settings: vec![UsbInterfaceSettingDescriptor {
                    setting_number: 0,
                    class_code: 0x0a,
                    sub_class_code: 0,
                    protocol_code: 0,
                    endpoints: Vec::new(),
                }],
            }],
        };
        let descriptor_bytes: Vec<u8> = vec![
            18, 1, 0x00, 0x02, 0, 0, 0, 64, 0x6b, 0x1d, 0x04, 0x01, 0x00, 0x01, 1, 2, 3, 1,
        ];
        let handler = MockTransferCallback::new(vec![MockTransferRule {
            action: String::from_str("control_read:128:6:256:0"),
            response: Ok(descriptor_bytes),
        }]);
        let mock_dev = MockUsbDevice {
            bus_num: 1,
            dev_addr: 2,
            dev_speed: UsbSpeed::High,
            descriptor: desc,
            config_descriptor: config,
            transfer_handler: Some(handler),
            open_error: None,
            kernel_drivers: None,
            claimed_interfaces: None,
            manufacturer: String::from_str("Antigravity"),
            product: String::from_str("E2E_Virtual_Gadget"),
            serial_number: String::from_str("0123456789"),
        };
        proof {
            let h = mock_dev.transfer_handler->0;
            assert forall|a: Seq<char>| #[trigger] h.answer(a) == if a == "control_read:128:6:256:0"@ {
                Ok::<Seq<u8>, Seq<char>>(seq![18u8, 1, 0x00, 0x02, 0, 0, 0, 64, 0x6b, 0x1d, 0x04, 0x01, 0x00, 0x01, 1, 2, 3, 1])
            } else {
                Ok::<Seq<u8>, Seq<char>>(Seq::empty())
            } by {
                assert(h.rules@.drop_first() =~= Seq::<MockTransferRule>::empty());
                reveal_with_fuel(rule_answer, 2);
            }
            assert(mock_dev.config_descriptor@.interfaces[0].settings[0].endpoints =~= Seq::<UsbEndpointDescriptor>::empty());
            assert(mock_dev.config_descriptor@.interfaces[0].settings =~= seq![SettingModel {
                setting_number: 0,
                class_code: 0x0a,
                sub_class_code: 0,
                protocol_code: 0,
                endpoints: Seq::empty(),
            }]);
            assert(mock_dev.config_descriptor@.interfaces =~= seq![InterfaceModel {
                interface_number: 0,
                settings: seq![SettingModel {
                    setting_number: 0,
                    class_code: 0x0a,
                    sub_class_code: 0,
                    protocol_code: 0,
                    endpoints: Seq::empty(),
                }],
            }]);
        }
        Ok(HostDeviceRegistry { devices: vec![Arc::new(mock_dev)] })
    }
}

} // verus!

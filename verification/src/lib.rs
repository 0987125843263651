use vstd::prelude::*;
use std::time::Duration;

pub mod protocol;
pub mod text;
pub mod mock;
pub mod engine;
pub mod registry;
pub mod vhci;

pub use registry::{DeviceQuery, HostDeviceRegistry, RegistryDevice};
pub use vhci::VhciController;

pub use mock::{MockTransferCallback, MockTransferRule, MockUsbDevice, MockUsbDeviceHandle};

verus! {

/// Signalling speed of a USB device.
#[derive(Debug, Clone, Copy, PartialEq, Eq, Structural)]
pub enum UsbSpeed {
    Low,
    Full,
    High,
    Super,
    SuperPlus,
    Unknown,
}

/// Direction of an endpoint, seen from the host.
#[derive(Debug, Clone, Copy, PartialEq, Eq, Structural)]
pub enum UsbDirection {
    In,
    Out,
}

/// Transfer type of an endpoint.
#[derive(Debug, Clone, Copy, PartialEq, Eq, Structural)]
pub enum UsbTransferType {
    Control,
    Isochronous,
    Bulk,
    Interrupt,
}

/// The standard device descriptor of a USB device.
#[derive(Debug, Clone, Copy, PartialEq, Eq)]
pub struct UsbDeviceDescriptor {
    pub vendor_id: u16,
    pub product_id: u16,
    pub device_class: u8,
    pub device_subclass: u8,
    pub device_protocol: u8,
    pub max_packet_size_0: u8,
    pub num_configurations: u8,
    pub usb_version: (u8, u8),
    pub device_version: (u8, u8),
    pub manufacturer_string_index: Option<u8>,
    pub product_string_index: Option<u8>,
    pub serial_number_string_index: Option<u8>,
}

/// An endpoint of an interface setting.
#[derive(Debug, Clone, Copy, PartialEq, Eq)]
pub struct UsbEndpointDescriptor {
    pub address: u8,
    pub direction: UsbDirection,
    pub transfer_type: UsbTransferType,
    pub max_packet_size: u16,
    pub interval: u8,
}

/// One alternate setting of an interface.
#[derive(Debug, Clone, PartialEq, Eq)]
pub struct UsbInterfaceSettingDescriptor {
    pub setting_number: u8,
    pub class_code: u8,
    pub sub_class_code: u8,
    pub protocol_code: u8,
    pub endpoints: Vec<UsbEndpointDescriptor>,
}

/// An interface of a configuration, with its alternate settings.
#[derive(Debug, Clone, PartialEq, Eq)]
pub struct UsbInterfaceDescriptor {
    pub interface_number: u8,
    pub settings: Vec<UsbInterfaceSettingDescriptor>,
}

/// A configuration descriptor with its interfaces.
#[derive(Debug, Clone, PartialEq, Eq)]
pub struct UsbConfigDescriptor {
    pub num_interfaces: u8,
    pub configuration_value: u8,
    pub max_power: u16,
    pub self_powered: bool,
    pub remote_wakeup: bool,
    pub interfaces: Vec<UsbInterfaceDescriptor>,
}

/// The mathematical value of an interface setting.
#[verifier::ext_equal]
pub struct SettingModel {
    pub setting_number: u8,
    pub class_code: u8,
    pub sub_class_code: u8,
    pub protocol_code: u8,
    pub endpoints: Seq<UsbEndpointDescriptor>,
}

/// The mathematical value of an interface.
#[verifier::ext_equal]
pub struct InterfaceModel {
    pub interface_number: u8,
    pub settings: Seq<SettingModel>,
}

/// The mathematical value of a configuration.
#[verifier::ext_equal]
pub struct ConfigModel {
    pub num_interfaces: u8,
    pub configuration_value: u8,
    pub max_power: u16,
    pub self_powered: bool,
    pub remote_wakeup: bool,
    pub interfaces: Seq<InterfaceModel>,
}

impl View for UsbInterfaceSettingDescriptor {
    type V = SettingModel;

    open spec fn view(&self) -> SettingModel {
        SettingModel {
            setting_number: self.setting_number,
            class_code: self.class_code,
            sub_class_code: self.sub_class_code,
            protocol_code: self.protocol_code,
            endpoints: self.endpoints@,
        }
    }
}

impl View for UsbInterfaceDescriptor {
    type V = InterfaceModel;

    open spec fn view(&self) -> InterfaceModel {
        InterfaceModel {
            interface_number: self.interface_number,
            settings: self.settings@.map_values(|s: UsbInterfaceSettingDescriptor| s@),
        }
    }
}

impl View for UsbConfigDescriptor {
    type V = ConfigModel;

    open spec fn view(&self) -> ConfigModel {
        ConfigModel {
            num_interfaces: self.num_interfaces,
            configuration_value: self.configuration_value,
            max_power: self.max_power,
            self_powered: self.self_powered,
            remote_wakeup: self.remote_wakeup,
            interfaces: self.interfaces@.map_values(|i: UsbInterfaceDescriptor| i@),
        }
    }
}

/// The mathematical value of a configuration descriptor that may be missing.
pub open spec fn config_view(c: Option<UsbConfigDescriptor>) -> Option<ConfigModel> {
    match c {
        Some(c) => Some(c@),
        None => None,
    }
}

/// An error that a device or its driver reported.
#[derive(Debug, Clone, PartialEq, Eq)]
pub struct UsbError {
    pub message: String,
}

/// The duration of `secs` whole seconds, as `Duration::from_secs` builds it.
pub uninterp spec fn seconds_duration(secs: u64) -> Duration;

/// Builds a `Duration` of `secs` whole seconds (`Duration::from_secs`, which depends on its
/// argument alone); the result is named, as nothing reads a `Duration` here but the driver.
#[verifier::external_body]
pub(crate) fn duration_from_secs(secs: u64) -> (d: Duration)
    ensures
        d == seconds_duration(secs),
{
    Duration::from_secs(secs)
}

/// A USB device that can be shared: its identity, its descriptors, and a way to open it.
///
/// An implementation promises that the identity and the descriptors it reports do not change
/// while it is shared; opening may fail at any time.
pub trait UsbDevice: Send + Sync {
    type Handle: UsbDeviceHandle;

    spec fn spec_bus_number(&self) -> u8;

    spec fn spec_address(&self) -> u8;

    spec fn spec_speed(&self) -> UsbSpeed;

    /// The device descriptor, or `None` where it cannot be read.
    spec fn spec_device_descriptor(&self) -> Option<UsbDeviceDescriptor>;

    /// The configuration descriptor at `index`, or `None` where it cannot be read.
    spec fn spec_config_descriptor(&self, index: u8) -> Option<UsbConfigDescriptor>;

    fn bus_number(&self) -> (r: u8)
        ensures
            r == self.spec_bus_number(),
    ;

    fn address(&self) -> (r: u8)
        ensures
            r == self.spec_address(),
    ;

    fn speed(&self) -> (r: UsbSpeed)
        ensures
            r == self.spec_speed(),
    ;

    fn device_descriptor(&self) -> (r: Result<UsbDeviceDescriptor, UsbError>)
        ensures
            r is Ok <==> self.spec_device_descriptor() is Some,
            r matches Ok(d) ==> self.spec_device_descriptor() == Some(d),
    ;

    fn config_descriptor(&self, index: u8) -> (r: Result<UsbConfigDescriptor, UsbError>)
        ensures
            r is Ok <==> self.spec_config_descriptor(index) is Some,
            r matches Ok(c) ==> config_view(self.spec_config_descriptor(index)) == Some(c@),
    ;

    fn open(&self) -> Result<Self::Handle, UsbError>;
}

/// The device operation that a transfer asks for. A read carries the length of its buffer.
#[derive(Debug, Clone, Copy, PartialEq, Eq)]
pub enum TransferPlan {
    ControlRead { request_type: u8, request: u8, value: u16, index: u16, length: usize },
    ControlWrite { request_type: u8, request: u8, value: u16, index: u16 },
    BulkRead { endpoint: u8, length: usize },
    BulkWrite { endpoint: u8 },
    InterruptRead { endpoint: u8, length: usize },
    InterruptWrite { endpoint: u8 },
}

impl TransferPlan {
    pub open spec fn is_read(self) -> bool {
        match self {
            TransferPlan::ControlRead { .. } | TransferPlan::BulkRead { .. } | TransferPlan::InterruptRead { .. } => true,
            _ => false,
        }
    }

    /// The most bytes that a read may return.
    pub open spec fn read_length(self) -> nat {
        match self {
            TransferPlan::ControlRead { length, .. } => length as nat,
            TransferPlan::BulkRead { length, .. } => length as nat,
            TransferPlan::InterruptRead { length, .. } => length as nat,
            _ => 0,
        }
    }
}

/// A transfer that a handle carried out.
#[derive(Debug)]
pub struct TransferRecord {
    /// The operation, with its parameters; a read's length is that of the buffer it was given.
    pub plan: TransferPlan,
    /// The data handed to a write; empty for a read.
    pub sent: Vec<u8>,
    /// The timeout handed over.
    pub timeout: Duration,
    /// What the handle returned.
    pub result: Result<usize, UsbError>,
    /// The bytes that a read placed at the start of its buffer, as many as it reported; empty
    /// for a write and for a transfer that failed.
    pub received: Vec<u8>,
}

/// The kind of a driver-lifecycle operation.
#[derive(Debug, Clone, Copy, PartialEq, Eq, Structural)]
pub enum DriverOpKind {
    Claim,
    Release,
    Detach,
    Attach,
}

/// A driver-lifecycle operation that a handle carried out on an interface, and whether it
/// succeeded.
#[derive(Debug, Clone, Copy, PartialEq, Eq, Structural)]
pub struct DriverOp {
    pub kind: DriverOpKind,
    pub interface: u8,
    pub ok: bool,
}

/// Two results that are the same: the same count, or errors with the same message.
pub open spec fn same_result(a: Result<usize, UsbError>, b: Result<usize, UsbError>) -> bool {
    match (a, b) {
        (Ok(m), Ok(n)) => m == n,
        (Err(e), Err(f)) => e.message@ == f.message@,
        _ => false,
    }
}

/// The count after `c`, modulo 2^64.
pub open spec fn next_count(c: u64) -> u64 {
    if c == u64::MAX { 0 } else { (c + 1) as u64 }
}

/// `after` has claimed the same interfaces, has the same kernel drivers bound and the same
/// driver-lifecycle log as `before`.
pub open spec fn driver_state_kept<H: UsbDeviceHandle>(before: H, after: H) -> bool {
    &&& forall|i: u8| #[trigger] after.spec_claimed(i) == before.spec_claimed(i)
    &&& forall|i: u8| #[trigger] after.spec_driver_bound(i) == before.spec_driver_bound(i)
    &&& after.spec_driver_ops()@ == before.spec_driver_ops()@
}

/// `after` has carried out the same transfers as `before`.
pub open spec fn transfers_kept<H: UsbDeviceHandle>(before: H, after: H) -> bool {
    &&& after.spec_transfer_count() == before.spec_transfer_count()
    &&& after.spec_last_transfer() == before.spec_last_transfer()
}

/// An open device: interface ownership, kernel driver binding, and transfers.
///
/// The state that the contracts speak of is which interfaces this handle has claimed, which
/// interfaces have a kernel driver bound, the log of claims, releases, detaches and attaches it
/// carried out, and the count of its transfers with the latest one. A claim, release, detach or
/// attach is logged with its success; one that succeeds changes exactly what it names, one that
/// fails changes nothing else. A transfer is counted and recorded and changes nothing else.
pub trait UsbDeviceHandle: Send + Sync + Sized {
    /// Whether this handle has claimed `interface`.
    spec fn spec_claimed(&self, interface: u8) -> bool;

    /// Whether a kernel driver is bound to `interface`.
    spec fn spec_driver_bound(&self, interface: u8) -> bool;

    /// The claims, releases, detaches and attaches carried out on this handle, in order.
    spec fn spec_driver_ops(&self) -> Vec<DriverOp>;

    /// How many transfers this handle carried out, counting modulo 2^64.
    spec fn spec_transfer_count(&self) -> u64;

    /// The latest transfer that this handle carried out.
    spec fn spec_last_transfer(&self) -> Option<TransferRecord>;

    fn active_configuration(&self) -> Result<u8, UsbError>;

    fn set_active_configuration(&mut self, config: u8) -> Result<(), UsbError>;

    fn claim_interface(&mut self, interface: u8) -> (r: Result<(), UsbError>)
        ensures
            final(self).spec_driver_ops()@ == old(self).spec_driver_ops()@.push(
                DriverOp { kind: DriverOpKind::Claim, interface, ok: r is Ok },
            ),
            r is Err ==> forall|i: u8| #[trigger] final(self).spec_claimed(i) == old(self).spec_claimed(i),
            r is Ok ==> forall|i: u8| #[trigger] final(self).spec_claimed(i) == (old(self).spec_claimed(i) || i == interface),
            forall|i: u8| #[trigger] final(self).spec_driver_bound(i) == old(self).spec_driver_bound(i),
            final(self).spec_transfer_count() == old(self).spec_transfer_count(),
            final(self).spec_last_transfer() == old(self).spec_last_transfer(),
    ;

    fn release_interface(&mut self, interface: u8) -> (r: Result<(), UsbError>)
        ensures
            final(self).spec_driver_ops()@ == old(self).spec_driver_ops()@.push(
                DriverOp { kind: DriverOpKind::Release, interface, ok: r is Ok },
            ),
            r is Err ==> forall|i: u8| #[trigger] final(self).spec_claimed(i) == old(self).spec_claimed(i),
            r is Ok ==> forall|i: u8| #[trigger] final(self).spec_claimed(i) == (old(self).spec_claimed(i) && i != interface),
            forall|i: u8| #[trigger] final(self).spec_driver_bound(i) == old(self).spec_driver_bound(i),
            final(self).spec_transfer_count() == old(self).spec_transfer_count(),
            final(self).spec_last_transfer() == old(self).spec_last_transfer(),
    ;

    fn set_alternate_setting(&mut self, interface: u8, setting: u8) -> Result<(), UsbError>;

    fn detach_kernel_driver(&mut self, interface: u8) -> (r: Result<(), UsbError>)
        ensures
            final(self).spec_driver_ops()@ == old(self).spec_driver_ops()@.push(
                DriverOp { kind: DriverOpKind::Detach, interface, ok: r is Ok },
            ),
            r is Err ==> forall|i: u8| #[trigger] final(self).spec_driver_bound(i) == old(self).spec_driver_bound(i),
            r is Ok ==> !final(self).spec_driver_bound(interface),
            r is Ok ==> forall|i: u8| i != interface ==> #[trigger] final(self).spec_driver_bound(i) == old(self).spec_driver_bound(i),
            forall|i: u8| #[trigger] final(self).spec_claimed(i) == old(self).spec_claimed(i),
            final(self).spec_transfer_count() == old(self).spec_transfer_count(),
            final(self).spec_last_transfer() == old(self).spec_last_transfer(),
    ;

    fn attach_kernel_driver(&mut self, interface: u8) -> (r: Result<(), UsbError>)
        ensures
            final(self).spec_driver_ops()@ == old(self).spec_driver_ops()@.push(
                DriverOp { kind: DriverOpKind::Attach, interface, ok: r is Ok },
            ),
            r is Err ==> forall|i: u8| #[trigger] final(self).spec_driver_bound(i) == old(self).spec_driver_bound(i),
            r is Ok ==> final(self).spec_driver_bound(interface),
            r is Ok ==> forall|i: u8| i != interface ==> #[trigger] final(self).spec_driver_bound(i) == old(self).spec_driver_bound(i),
            forall|i: u8| #[trigger] final(self).spec_claimed(i) == old(self).spec_claimed(i),
            final(self).spec_transfer_count() == old(self).spec_transfer_count(),
            final(self).spec_last_transfer() == old(self).spec_last_transfer(),
    ;

    fn kernel_driver_active(&self, interface: u8) -> (r: Result<bool, UsbError>)
        ensures
            r matches Ok(b) ==> b == self.spec_driver_bound(interface),
    ;

    fn read_control(
        &mut self,
        request_type: u8,
        request: u8,
        value: u16,
        index: u16,
        buf: &mut [u8],
        timeout: Duration,
    ) -> (r: Result<usize, UsbError>)
        ensures
            final(buf)@.len() == old(buf)@.len(),
            r matches Ok(n) ==> n <= old(buf)@.len(),
            final(self).spec_transfer_count() == next_count(old(self).spec_transfer_count()),
            final(self).spec_last_transfer() matches Some(t) && t.plan == (TransferPlan::ControlRead { request_type, request, value, index, length: old(buf)@.len() as usize })
                && t.timeout == timeout && t.sent@ == Seq::<u8>::empty() && same_result(t.result, r)
                && ((r is Err || !t.plan.is_read()) ==> t.received@ == Seq::<u8>::empty()),
            r matches Ok(n) ==> final(self).spec_last_transfer() matches Some(t) && t.received@ == final(buf)@.take(n as int),
            forall|i: u8| #[trigger] final(self).spec_claimed(i) == old(self).spec_claimed(i),
            forall|i: u8| #[trigger] final(self).spec_driver_bound(i) == old(self).spec_driver_bound(i),
            final(self).spec_driver_ops()@ == old(self).spec_driver_ops()@,
    ;

    fn write_control(
        &mut self,
        request_type: u8,
        request: u8,
        value: u16,
        index: u16,
        data: &[u8],
        timeout: Duration,
    ) -> (r: Result<usize, UsbError>)
        ensures
            final(self).spec_transfer_count() == next_count(old(self).spec_transfer_count()),
            final(self).spec_last_transfer() matches Some(t) && t.plan == (TransferPlan::ControlWrite { request_type, request, value, index })
                && t.timeout == timeout && t.sent@ == data@ && same_result(t.result, r)
                && ((r is Err || !t.plan.is_read()) ==> t.received@ == Seq::<u8>::empty()),
            forall|i: u8| #[trigger] final(self).spec_claimed(i) == old(self).spec_claimed(i),
            forall|i: u8| #[trigger] final(self).spec_driver_bound(i) == old(self).spec_driver_bound(i),
            final(self).spec_driver_ops()@ == old(self).spec_driver_ops()@,
    ;

    fn read_bulk(&mut self, endpoint: u8, buf: &mut [u8], timeout: Duration) -> (r: Result<usize, UsbError>)
        ensures
            final(buf)@.len() == old(buf)@.len(),
            r matches Ok(n) ==> n <= old(buf)@.len(),
            final(self).spec_transfer_count() == next_count(old(self).spec_transfer_count()),
            final(self).spec_last_transfer() matches Some(t) && t.plan == (TransferPlan::BulkRead { endpoint, length: old(buf)@.len() as usize })
                && t.timeout == timeout && t.sent@ == Seq::<u8>::empty() && same_result(t.result, r)
                && ((r is Err || !t.plan.is_read()) ==> t.received@ == Seq::<u8>::empty()),
            r matches Ok(n) ==> final(self).spec_last_transfer() matches Some(t) && t.received@ == final(buf)@.take(n as int),
            forall|i: u8| #[trigger] final(self).spec_claimed(i) == old(self).spec_claimed(i),
            forall|i: u8| #[trigger] final(self).spec_driver_bound(i) == old(self).spec_driver_bound(i),
            final(self).spec_driver_ops()@ == old(self).spec_driver_ops()@,
    ;

    fn write_bulk(&mut self, endpoint: u8, data: &[u8], timeout: Duration) -> (r: Result<usize, UsbError>)
        ensures
            final(self).spec_transfer_count() == next_count(old(self).spec_transfer_count()),
            final(self).spec_last_transfer() matches Some(t) && t.plan == (TransferPlan::BulkWrite { endpoint })
                && t.timeout == timeout && t.sent@ == data@ && same_result(t.result, r)
                && ((r is Err || !t.plan.is_read()) ==> t.received@ == Seq::<u8>::empty()),
            forall|i: u8| #[trigger] final(self).spec_claimed(i) == old(self).spec_claimed(i),
            forall|i: u8| #[trigger] final(self).spec_driver_bound(i) == old(self).spec_driver_bound(i),
            final(self).spec_driver_ops()@ == old(self).spec_driver_ops()@,
    ;

    fn read_interrupt(&mut self, endpoint: u8, buf: &mut [u8], timeout: Duration) -> (r: Result<usize, UsbError>)
        ensures
            final(buf)@.len() == old(buf)@.len(),
            r matches Ok(n) ==> n <= old(buf)@.len(),
            final(self).spec_transfer_count() == next_count(old(self).spec_transfer_count()),
            final(self).spec_last_transfer() matches Some(t) && t.plan == (TransferPlan::InterruptRead { endpoint, length: old(buf)@.len() as usize })
                && t.timeout == timeout && t.sent@ == Seq::<u8>::empty() && same_result(t.result, r)
                && ((r is Err || !t.plan.is_read()) ==> t.received@ == Seq::<u8>::empty()),
            r matches Ok(n) ==> final(self).spec_last_transfer() matches Some(t) && t.received@ == final(buf)@.take(n as int),
            forall|i: u8| #[trigger] final(self).spec_claimed(i) == old(self).spec_claimed(i),
            forall|i: u8| #[trigger] final(self).spec_driver_bound(i) == old(self).spec_driver_bound(i),
            final(self).spec_driver_ops()@ == old(self).spec_driver_ops()@,
    ;

    fn write_interrupt(&mut self, endpoint: u8, data: &[u8], timeout: Duration) -> (r: Result<usize, UsbError>)
        ensures
            final(self).spec_transfer_count() == next_count(old(self).spec_transfer_count()),
            final(self).spec_last_transfer() matches Some(t) && t.plan == (TransferPlan::InterruptWrite { endpoint })
                && t.timeout == timeout && t.sent@ == data@ && same_result(t.result, r)
                && ((r is Err || !t.plan.is_read()) ==> t.received@ == Seq::<u8>::empty()),
            forall|i: u8| #[trigger] final(self).spec_claimed(i) == old(self).spec_claimed(i),
            forall|i: u8| #[trigger] final(self).spec_driver_bound(i) == old(self).spec_driver_bound(i),
            final(self).spec_driver_ops()@ == old(self).spec_driver_ops()@,
    ;

    /// The manufacturer name that reading it gives, or `None` where the read fails.
    spec fn spec_manufacturer_string(&self, desc: UsbDeviceDescriptor) -> Option<String>;

    /// The product name that reading it gives, or `None` where the read fails.
    spec fn spec_product_string(&self, desc: UsbDeviceDescriptor) -> Option<String>;

    /// The serial number that reading it gives, or `None` where the read fails.
    spec fn spec_serial_number_string(&self, desc: UsbDeviceDescriptor) -> Option<String>;

    fn read_manufacturer_string(&self, desc: &UsbDeviceDescriptor) -> (r: Result<String, UsbError>)
        ensures
            match self.spec_manufacturer_string(*desc) {
                Some(t) => r matches Ok(s) && s@ == t@,
                None => r is Err,
            },
    ;

    fn read_product_string(&self, desc: &UsbDeviceDescriptor) -> (r: Result<String, UsbError>)
        ensures
            match self.spec_product_string(*desc) {
                Some(t) => r matches Ok(s) && s@ == t@,
                None => r is Err,
            },
    ;

    fn read_serial_number_string(&self, desc: &UsbDeviceDescriptor) -> (r: Result<String, UsbError>)
        ensures
            match self.spec_serial_number_string(*desc) {
                Some(t) => r matches Ok(s) && s@ == t@,
                None => r is Err,
            },
    ;
}

} // verus!

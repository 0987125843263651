use vstd::prelude::*;
use std::sync::Arc;
use crate::registry::{describes, matching_devices, DeviceQuery, HostDeviceRegistry};
use crate::text::{contains_str, contains_text};
use crate::protocol::{
    effective_config, fallback_config_descriptor, is_detail_of, UsbipDeviceDetail, ST_DEV_BUSY, ST_NA, ST_OK,
    UsbipHeaderBasic, UsbipHeaderCmdSubmit, UsbipHeaderRetSubmit, UsbipHeaderRetUnlink,
    UsbipIsoPacketDescriptor, UsbipRequest, UsbipResponse, USBIP_RET_SUBMIT, USBIP_RET_UNLINK,
};
pub use crate::TransferPlan;
use std::time::Duration;
use crate::{
    seconds_duration, DriverOp, DriverOpKind, transfers_kept, driver_state_kept, next_count, TransferRecord, config_view, ConfigModel, InterfaceModel, SettingModel, UsbConfigDescriptor, UsbDevice, UsbDeviceHandle,
    UsbEndpointDescriptor, UsbError, UsbInterfaceDescriptor, UsbInterfaceSettingDescriptor,
    UsbTransferType, duration_from_secs,
};

verus! {

/// Why a request could not be served.
#[derive(Debug, Clone, Copy, PartialEq, Eq)]
pub enum SessionError {
    /// A handshake request arrived during the transfer phase.
    InvalidTransferRequest,
    /// A transfer-phase command arrived during the handshake.
    InvalidHandshakeRequest,
    /// The device descriptor of a device could not be read.
    DescriptorUnavailable,
}

impl SessionError {
    pub open spec fn text(self) -> Seq<char> {
        match self {
            SessionError::InvalidTransferRequest => "Invalid transfer phase request"@,
            SessionError::InvalidHandshakeRequest => "Invalid handshake phase request"@,
            SessionError::DescriptorUnavailable => "Device descriptor unavailable"@,
        }
    }

    /// The message that tells a user of the error.
    pub fn message(&self) -> (s: String)
        ensures
            s@ == self.text(),
    {
        match self {
            SessionError::InvalidTransferRequest => String::from_str("Invalid transfer phase request"),
            SessionError::InvalidHandshakeRequest => String::from_str("Invalid handshake phase request"),
            SessionError::DescriptorUnavailable => String::from_str("Device descriptor unavailable"),
        }
    }
}

/// The little-endian number in two bytes of a setup packet.
pub open spec fn le16(lo: u8, hi: u8) -> u16 {
    (hi as int * 256 + lo as int) as u16
}

/// The buffer length that a submit command asks for, negative lengths counting as none.
pub open spec fn requested_length(submit: UsbipHeaderCmdSubmit) -> nat {
    if submit.transfer_buffer_length < 0 { 0 } else { submit.transfer_buffer_length as nat }
}

/// The endpoint address of a bulk or interrupt transfer: the endpoint number, with the high bit
/// set for the IN direction.
pub open spec fn endpoint_address(basic: UsbipHeaderBasic) -> u8 {
    if basic.direction == 1 { (basic.ep as u8) | 0x80u8 } else { (basic.ep as u8) | 0x00u8 }
}

/// The transfer type of the first endpoint with address `addr`, in the order in which the
/// descriptors list them.
pub open spec fn lookup_endpoints(eps: Seq<UsbEndpointDescriptor>, addr: u8) -> Option<UsbTransferType>
    decreases eps.len(),
{
    if eps.len() == 0 {
        None
    } else if eps[0].address == addr {
        Some(eps[0].transfer_type)
    } else {
        lookup_endpoints(eps.drop_first(), addr)
    }
}

pub open spec fn lookup_settings(ss: Seq<SettingModel>, addr: u8) -> Option<UsbTransferType>
    decreases ss.len(),
{
    if ss.len() == 0 {
        None
    } else {
        match lookup_endpoints(ss[0].endpoints, addr) {
            Some(t) => Some(t),
            None => lookup_settings(ss.drop_first(), addr),
        }
    }
}

pub open spec fn lookup_interfaces(is: Seq<InterfaceModel>, addr: u8) -> Option<UsbTransferType>
    decreases is.len(),
{
    if is.len() == 0 {
        None
    } else {
        match lookup_settings(is[0].settings, addr) {
            Some(t) => Some(t),
            None => lookup_interfaces(is.drop_first(), addr),
        }
    }
}

/// Whether the first endpoint of the configuration with address `addr` is an interrupt
/// endpoint; a configuration that could not be read has none.
pub open spec fn is_interrupt_endpoint(config: Option<ConfigModel>, addr: u8) -> bool {
    match config {
        Some(c) => lookup_interfaces(c.interfaces, addr) == Some(UsbTransferType::Interrupt),
        None => false,
    }
}

/// The operation that a submit command asks of the device: endpoint 0 carries control
/// transfers whose parameters come from the setup packet; another endpoint carries interrupt
/// transfers where the configuration lists it as an interrupt endpoint, bulk transfers otherwise.
/// Direction 1 reads; any other direction writes.
pub open spec fn spec_transfer_plan(
    basic: UsbipHeaderBasic,
    submit: UsbipHeaderCmdSubmit,
    config: Option<ConfigModel>,
) -> TransferPlan {
    let len = requested_length(submit) as usize;
    if basic.ep == 0 {
        let s = submit.setup@;
        if basic.direction == 1 {
            TransferPlan::ControlRead { request_type: s[0], request: s[1], value: le16(s[2], s[3]), index: le16(s[4], s[5]), length: len }
        } else {
            TransferPlan::ControlWrite { request_type: s[0], request: s[1], value: le16(s[2], s[3]), index: le16(s[4], s[5]) }
        }
    } else {
        let addr = endpoint_address(basic);
        if is_interrupt_endpoint(config, addr) {
            if basic.direction == 1 {
                TransferPlan::InterruptRead { endpoint: addr, length: len }
            } else {
                TransferPlan::InterruptWrite { endpoint: addr }
            }
        } else {
            if basic.direction == 1 {
                TransferPlan::BulkRead { endpoint: addr, length: len }
            } else {
                TransferPlan::BulkWrite { endpoint: addr }
            }
        }
    }
}

/// The reply header that answers a command header: the same sequence number, device, direction
/// and endpoint, under the reply command `command`.
pub open spec fn reply_basic(basic: UsbipHeaderBasic, command: u32) -> UsbipHeaderBasic {
    UsbipHeaderBasic { command, seqnum: basic.seqnum, devid: basic.devid, direction: basic.direction, ep: basic.ep }
}

/// An isochronous packet descriptor reported back as fully transferred.
pub open spec fn completed_iso(d: UsbipIsoPacketDescriptor) -> UsbipIsoPacketDescriptor {
    UsbipIsoPacketDescriptor { offset: d.offset, length: d.length, actual_length: d.length, status: 0 }
}

/// The status of a submit reply: 0 for success, -EPIPE (-32) where the device reported an error.
pub open spec fn transfer_status(outcome: Result<Seq<u8>, ()>) -> i32 {
    match outcome {
        Ok(_) => 0,
        Err(_) => -32i32,
    }
}

/// The data of a submit reply: what the device returned, nothing where it reported an error.
pub open spec fn transfer_data(outcome: Result<Seq<u8>, ()>) -> Seq<u8> {
    match outcome {
        Ok(d) => d,
        Err(_) => Seq::empty(),
    }
}

/// The fields of `resp` are those of the submit reply to (`basic`, `submit`, `iso`) when the
/// device operation had `outcome`.
pub open spec fn is_submit_reply(
    resp: UsbipResponse,
    basic: UsbipHeaderBasic,
    submit: UsbipHeaderCmdSubmit,
    iso: Seq<UsbipIsoPacketDescriptor>,
    outcome: Result<Seq<u8>, ()>,
) -> bool {
    match resp {
        UsbipResponse::Submit { basic: b, submit: s, data, iso_descriptors } => {
            &&& b == reply_basic(basic, USBIP_RET_SUBMIT)
            &&& s == UsbipHeaderRetSubmit {
                status: transfer_status(outcome),
                actual_length: transfer_data(outcome).len() as i32,
                start_frame: 0,
                number_of_packets: submit.number_of_packets,
                error_count: 0,
            }
            &&& data@ == transfer_data(outcome)
            &&& iso_descriptors@ == iso.map_values(|d: UsbipIsoPacketDescriptor| completed_iso(d))
        },
        _ => false,
    }
}

/// A submit reply answers its command: it is a submit reply (command 3) for the same sequence
/// number, device, direction and endpoint. Where the device returned data, the status is 0 and
/// the reply carries exactly that data with its length; where the device reported an error, the
/// status is -EPIPE (-32) and the reply carries no data. Each packet descriptor comes back with
/// its offset and length, fully transferred, without error.
pub proof fn lemma_submit_reply_answers(
    resp: UsbipResponse,
    basic: UsbipHeaderBasic,
    submit: UsbipHeaderCmdSubmit,
    iso: Seq<UsbipIsoPacketDescriptor>,
    outcome: Result<Seq<u8>, ()>,
)
    requires
        is_submit_reply(resp, basic, submit, iso, outcome),
        outcome matches Ok(d) ==> d.len() <= i32::MAX,
    ensures
        resp matches UsbipResponse::Submit { basic: b, submit: r, data, iso_descriptors } && {
            &&& b.command == 3 && b.seqnum == basic.seqnum && b.devid == basic.devid
            &&& b.direction == basic.direction && b.ep == basic.ep
            &&& r.number_of_packets == submit.number_of_packets
            &&& (outcome is Ok ==> r.status == 0 && data@ == outcome->Ok_0 && r.actual_length as int == data@.len())
            &&& (outcome is Err ==> r.status == -32 && data@.len() == 0 && r.actual_length == 0)
            &&& iso_descriptors@.len() == iso.len()
            &&& forall|k: int| 0 <= k < iso.len() ==> {
                let o = #[trigger] iso_descriptors@[k];
                o.offset == iso[k].offset && o.length == iso[k].length && o.actual_length == iso[k].length && o.status == 0
            }
        },
{
}

/// An import whose device could not be opened is answered with status 2 (device busy) where the
/// error's message mentions `busy`, and with status 1 (not available) otherwise.
pub proof fn lemma_open_failure_status(message: Seq<char>)
    ensures
        contains_text(message, "busy"@) ==> open_failure_status(message) == 2,
        !contains_text(message, "busy"@) ==> open_failure_status(message) == 1,
{
}

/// `outcome` is a result that a device operation following `plan` can give: a read returns at
/// most the requested number of bytes, a write returns no data.
pub open spec fn outcome_fits(plan: TransferPlan, outcome: Result<Seq<u8>, ()>) -> bool {
    match outcome {
        Ok(d) => if plan.is_read() { d.len() <= plan.read_length() } else { d.len() == 0 },
        Err(_) => true,
    }
}

} // verus!

verus! {

fn find_in_endpoints(eps: &Vec<UsbEndpointDescriptor>, addr: u8) -> (r: Option<UsbTransferType>)
    ensures
        r == lookup_endpoints(eps@, addr),
{
    let mut i: usize = 0;
    assert(eps@.skip(0) =~= eps@);
    while i < eps.len()
        invariant
            i <= eps@.len(),
            lookup_endpoints(eps@, addr) == lookup_endpoints(eps@.skip(i as int), addr),
        decreases eps@.len() - i,
    {
        if eps[i].address == addr {
            return Some(eps[i].transfer_type);
        }
        assert(eps@.skip(i as int).drop_first() =~= eps@.skip(i + 1));
        i = i + 1;
    }
    None
}

fn find_in_settings(ss: &Vec<UsbInterfaceSettingDescriptor>, addr: u8) -> (r: Option<UsbTransferType>)
    ensures
        r == lookup_settings(ss@.map_values(|s: UsbInterfaceSettingDescriptor| s@), addr),
{
    let ghost m = ss@.map_values(|s: UsbInterfaceSettingDescriptor| s@);
    let mut i: usize = 0;
    assert(m.skip(0) =~= m);
    while i < ss.len()
        invariant
            i <= ss@.len(),
            m == ss@.map_values(|s: UsbInterfaceSettingDescriptor| s@),
            lookup_settings(m, addr) == lookup_settings(m.skip(i as int), addr),
        decreases ss@.len() - i,
    {
        let found = find_in_endpoints(&ss[i].endpoints, addr);
        assert(m.skip(i as int)[0] == ss@[i as int]@);
        if found.is_some() {
            return found;
        }
        assert(m.skip(i as int).drop_first() =~= m.skip(i + 1));
        i = i + 1;
    }
    None
}

fn find_in_interfaces(is: &Vec<UsbInterfaceDescriptor>, addr: u8) -> (r: Option<UsbTransferType>)
    ensures
        r == lookup_interfaces(is@.map_values(|i: UsbInterfaceDescriptor| i@), addr),
{
    let ghost m = is@.map_values(|i: UsbInterfaceDescriptor| i@);
    let mut i: usize = 0;
    assert(m.skip(0) =~= m);
    while i < is.len()
        invariant
            i <= is@.len(),
            m == is@.map_values(|i: UsbInterfaceDescriptor| i@),
            lookup_interfaces(m, addr) == lookup_interfaces(m.skip(i as int), addr),
        decreases is@.len() - i,
    {
        let found = find_in_settings(&is[i].settings, addr);
        assert(m.skip(i as int)[0] == is@[i as int]@);
        if found.is_some() {
            return found;
        }
        assert(m.skip(i as int).drop_first() =~= m.skip(i + 1));
        i = i + 1;
    }
    None
}

/// The model of a configuration that was read, `None` where reading failed.
pub open spec fn config_model(config: Result<UsbConfigDescriptor, UsbError>) -> Option<ConfigModel> {
    match config {
        Ok(c) => Some(c@),
        Err(_) => None,
    }
}

/// A submit on endpoint 0 is a control transfer: a read where its direction is 1 and a write
/// otherwise, whose request type and request are the first two bytes of the setup packet and
/// whose value and index are the next two 16-bit words, least significant byte first; a read
/// asks for the submit's buffer length, none where it is negative. A submit on another endpoint
/// reads exactly where its direction is 1, on the endpoint with the command's endpoint number
/// whose direction bit is set for a read.
pub proof fn lemma_transfer_plan_from_headers(
    basic: UsbipHeaderBasic,
    submit: UsbipHeaderCmdSubmit,
    config: Option<ConfigModel>,
)
    ensures
        ({
            let s = submit.setup@;
            let len: int = if submit.transfer_buffer_length < 0 { 0 } else { submit.transfer_buffer_length as int };
            basic.ep == 0 ==> match spec_transfer_plan(basic, submit, config) {
                TransferPlan::ControlRead { request_type, request, value, index, length } => {
                    &&& basic.direction == 1
                    &&& request_type == s[0] && request == s[1]
                    &&& value as int == s[2] as int + 256 * (s[3] as int)
                    &&& index as int == s[4] as int + 256 * (s[5] as int)
                    &&& length as int == len
                },
                TransferPlan::ControlWrite { request_type, request, value, index } => {
                    &&& basic.direction != 1
                    &&& request_type == s[0] && request == s[1]
                    &&& value as int == s[2] as int + 256 * (s[3] as int)
                    &&& index as int == s[4] as int + 256 * (s[5] as int)
                },
                _ => false,
            }
        }),
        basic.ep != 0 ==> (spec_transfer_plan(basic, submit, config).is_read() <==> basic.direction == 1),
        ({
            let e = (basic.ep as u8);
            basic.ep != 0 ==> match spec_transfer_plan(basic, submit, config) {
                TransferPlan::BulkRead { endpoint, .. } | TransferPlan::BulkWrite { endpoint }
                | TransferPlan::InterruptRead { endpoint, .. } | TransferPlan::InterruptWrite { endpoint } => {
                    &&& endpoint & 0x7f == e & 0x7f
                    &&& (endpoint & 0x80 == 0x80 <==> (basic.direction == 1 || e & 0x80 == 0x80))
                },
                _ => false,
            }
        }),
{
    let e = (basic.ep as u8);
    assert((e | 0x80u8) & 0x7f == e & 0x7f && (e | 0x80u8) & 0x80 == 0x80) by (bit_vector);
    assert((e | 0x00u8) == e) by (bit_vector);
}

/// Decides which device operation a submit command asks for; `config` is what reading the
/// device's first configuration descriptor gave.
pub fn plan_transfer(
    basic: &UsbipHeaderBasic,
    submit: &UsbipHeaderCmdSubmit,
    config: &Result<UsbConfigDescriptor, UsbError>,
) -> (plan: TransferPlan)
    ensures
        plan == spec_transfer_plan(*basic, *submit, config_model(*config)),
        ({
            let s = submit.setup@;
            let len: int = if submit.transfer_buffer_length < 0 { 0 } else { submit.transfer_buffer_length as int };
            basic.ep == 0 ==> match plan {
                TransferPlan::ControlRead { request_type, request, value, index, length } => {
                    &&& basic.direction == 1
                    &&& request_type == s[0] && request == s[1]
                    &&& value as int == s[2] as int + 256 * (s[3] as int)
                    &&& index as int == s[4] as int + 256 * (s[5] as int)
                    &&& length as int == len
                },
                TransferPlan::ControlWrite { request_type, request, value, index } => {
                    &&& basic.direction != 1
                    &&& request_type == s[0] && request == s[1]
                    &&& value as int == s[2] as int + 256 * (s[3] as int)
                    &&& index as int == s[4] as int + 256 * (s[5] as int)
                },
                _ => false,
            }
        }),
        basic.ep != 0 ==> (plan.is_read() <==> basic.direction == 1),
        basic.ep != 0 && plan.is_read() ==> plan.read_length() == if submit.transfer_buffer_length < 0 {
            0
        } else {
            submit.transfer_buffer_length as int
        },
({
            let e = (basic.ep as u8);
            basic.ep != 0 ==> match plan {
                TransferPlan::BulkRead { endpoint, .. } | TransferPlan::BulkWrite { endpoint }
                | TransferPlan::InterruptRead { endpoint, .. } | TransferPlan::InterruptWrite { endpoint } => {
                    &&& endpoint & 0x7f == e & 0x7f
                    &&& (endpoint & 0x80 == 0x80 <==> (basic.direction == 1 || e & 0x80 == 0x80))
                },
                _ => false,
            }
        }),
{
    proof {
        lemma_transfer_plan_from_headers(*basic, *submit, config_model(*config));
    }
    let len: usize = if submit.transfer_buffer_length < 0 { 0 } else { submit.transfer_buffer_length as usize };
    if basic.ep == 0 {
        let s = submit.setup;
        let value = (s[3] as u16) * 256 + (s[2] as u16);
        let index = (s[5] as u16) * 256 + (s[4] as u16);
        if basic.direction == 1 {
            TransferPlan::ControlRead { request_type: s[0], request: s[1], value, index, length: len }
        } else {
            TransferPlan::ControlWrite { request_type: s[0], request: s[1], value, index }
        }
    } else {
        let addr: u8 = (basic.ep as u8) | if basic.direction == 1 { 0x80u8 } else { 0x00u8 };
        let interrupt = match config {
            Ok(c) => match find_in_interfaces(&c.interfaces, addr) {
                Some(UsbTransferType::Interrupt) => true,
                _ => false,
            },
            Err(_) => false,
        };
        if interrupt {
            if basic.direction == 1 {
                TransferPlan::InterruptRead { endpoint: addr, length: len }
            } else {
                TransferPlan::InterruptWrite { endpoint: addr }
            }
        } else {
            if basic.direction == 1 {
                TransferPlan::BulkRead { endpoint: addr, length: len }
            } else {
                TransferPlan::BulkWrite { endpoint: addr }
            }
        }
    }
}

/// The isochronous packet descriptors of a reply: each reported as fully transferred.
pub fn complete_iso_descriptors(iso: &Vec<UsbipIsoPacketDescriptor>) -> (r: Vec<UsbipIsoPacketDescriptor>)
    ensures
        r@ == iso@.map_values(|d: UsbipIsoPacketDescriptor| completed_iso(d)),
{
    let mut r: Vec<UsbipIsoPacketDescriptor> = Vec::new();
    let mut i: usize = 0;
    while i < iso.len()
        invariant
            i <= iso@.len(),
            r@ == iso@.take(i as int).map_values(|d: UsbipIsoPacketDescriptor| completed_iso(d)),
        decreases iso@.len() - i,
    {
        let d = iso[i];
        r.push(UsbipIsoPacketDescriptor { offset: d.offset, length: d.length, actual_length: d.length, status: 0 });
        i = i + 1;
        assert(iso@.take(i as int).map_values(|d: UsbipIsoPacketDescriptor| completed_iso(d)) =~=
            iso@.take(i - 1).map_values(|d: UsbipIsoPacketDescriptor| completed_iso(d)).push(completed_iso(d)));
    }
    assert(iso@.take(i as int) =~= iso@);
    r
}

/// The view of a device operation's outcome.
pub open spec fn outcome_view(outcome: Result<Vec<u8>, UsbError>) -> Result<Seq<u8>, ()> {
    match outcome {
        Ok(d) => Ok(d@),
        Err(_) => Err(()),
    }
}

/// Builds the reply to a submit command from the outcome of the device operation.
pub fn complete_submit(
    basic: &UsbipHeaderBasic,
    submit: &UsbipHeaderCmdSubmit,
    iso: &Vec<UsbipIsoPacketDescriptor>,
    outcome: Result<Vec<u8>, UsbError>,
) -> (resp: UsbipResponse)
    requires
        outcome matches Ok(d) ==> d@.len() <= i32::MAX,
    ensures
        is_submit_reply(resp, *basic, *submit, iso@, outcome_view(outcome)),
{
    let (status, data): (i32, Vec<u8>) = match outcome {
        Ok(d) => (0, d),
        Err(_) => (-32, Vec::new()),
    };
    let actual_length = data.len() as i32;
    UsbipResponse::Submit {
        basic: UsbipHeaderBasic {
            command: USBIP_RET_SUBMIT,
            seqnum: basic.seqnum,
            devid: basic.devid,
            direction: basic.direction,
            ep: basic.ep,
        },
        submit: UsbipHeaderRetSubmit {
            status,
            actual_length,
            start_frame: 0,
            number_of_packets: submit.number_of_packets,
            error_count: 0,
        },
        data,
        iso_descriptors: complete_iso_descriptors(iso),
    }
}

/// The first `n` bytes of `buf`, as a fresh buffer.
fn prefix(buf: &Vec<u8>, n: usize) -> (r: Vec<u8>)
    requires
        n <= buf@.len(),
    ensures
        r@ == buf@.take(n as int),
{
    let mut r: Vec<u8> = Vec::new();
    let mut i: usize = 0;
    while i < n
        invariant
            n <= buf@.len(),
            i <= n,
            r@ == buf@.take(i as int),
        decreases n - i,
    {
        r.push(buf[i]);
        i = i + 1;
        assert(buf@.take(i as int) =~= buf@.take(i - 1).push(buf@[i - 1]));
    }
    r
}

/// The data that a transfer following `plan` hands to the device: `data` for a write, nothing
/// for a read.
pub open spec fn sent_data(plan: TransferPlan, data: Seq<u8>) -> Seq<u8> {
    if plan.is_read() { Seq::empty() } else { data }
}

/// What a recorded transfer gave: the bytes it received, or an error.
pub open spec fn record_outcome(t: TransferRecord) -> Result<Seq<u8>, ()> {
    match t.result {
        Ok(_) => Ok(t.received@),
        Err(_) => Err(()),
    }
}

/// The timeout that transfers are handed: five seconds.
pub open spec fn transfer_timeout() -> Duration {
    seconds_duration(5)
}

/// The latest transfer of `h` is `plan`, handing over `sent` with the five-second timeout, and
/// it gave `outcome`.
pub open spec fn latest_transfer<H: UsbDeviceHandle>(
    h: H,
    plan: TransferPlan,
    sent: Seq<u8>,
    outcome: Result<Seq<u8>, ()>,
) -> bool {
    h.spec_last_transfer() matches Some(t) && t.plan == plan && t.timeout == transfer_timeout() && t.sent@ == sent
        && record_outcome(t) == outcome
}

/// Carries out `plan` on the device with exactly one call of the handle: the control, bulk or
/// interrupt read or write that the plan names, with its parameters, a buffer of the plan's
/// length for a read and `data` for a write, and a timeout of five seconds. A read gives the bytes
/// that the handle reported, a write gives no data, and an error of the handle is passed on.
/// Whether the device succeeds, and the bytes it returns, are the device's own; the handle's
/// claimed interfaces, kernel driver bindings and driver-lifecycle log stay as they were.
pub fn perform_transfer<H: UsbDeviceHandle>(handle: &mut H, plan: &TransferPlan, data: &[u8]) -> (outcome: Result<Vec<u8>, UsbError>)
    ensures
        outcome_fits(*plan, outcome_view(outcome)),
        final(handle).spec_transfer_count() == next_count(old(handle).spec_transfer_count()),
        latest_transfer(*final(handle), *plan, sent_data(*plan, data@), outcome_view(outcome)),
        driver_state_kept(*old(handle), *final(handle)),
{
    let timeout = duration_from_secs(5);
    match *plan {
        TransferPlan::ControlRead { request_type, request, value, index, length } => {
            let mut buf: Vec<u8> = vec![0u8; length];
            match handle.read_control(request_type, request, value, index, buf.as_mut_slice(), timeout) {
                Ok(n) => Ok(prefix(&buf, if n <= buf.len() { n } else { buf.len() })),
                Err(e) => Err(e),
            }
        },
        TransferPlan::ControlWrite { request_type, request, value, index } => {
            match handle.write_control(request_type, request, value, index, data, timeout) {
                Ok(_) => Ok(Vec::new()),
                Err(e) => Err(e),
            }
        },
        TransferPlan::BulkRead { endpoint, length } => {
            let mut buf: Vec<u8> = vec![0u8; length];
            match handle.read_bulk(endpoint, buf.as_mut_slice(), timeout) {
                Ok(n) => Ok(prefix(&buf, if n <= buf.len() { n } else { buf.len() })),
                Err(e) => Err(e),
            }
        },
        TransferPlan::BulkWrite { endpoint } => {
            match handle.write_bulk(endpoint, data, timeout) {
                Ok(_) => Ok(Vec::new()),
                Err(e) => Err(e),
            }
        },
        TransferPlan::InterruptRead { endpoint, length } => {
            let mut buf: Vec<u8> = vec![0u8; length];
            match handle.read_interrupt(endpoint, buf.as_mut_slice(), timeout) {
                Ok(n) => Ok(prefix(&buf, if n <= buf.len() { n } else { buf.len() })),
                Err(e) => Err(e),
            }
        },
        TransferPlan::InterruptWrite { endpoint } => {
            match handle.write_interrupt(endpoint, data, timeout) {
                Ok(_) => Ok(Vec::new()),
                Err(e) => Err(e),
            }
        },
    }
}

/// What serving the transfer-phase command `req` on `device` gives and does to its handle, from
/// `before` to `after`. A submit command is carried out with exactly one transfer on the handle,
/// following the plan that its headers and the device's first configuration give, and is
/// answered with that transfer's outcome: the bytes received with status 0, or status -EPIPE
/// (-32) and no data where the device reported an error. An unlink command is answered with
/// -ECONNRESET (-104), as transfers complete before the next command is read, and a handshake
/// request is refused; neither touches the handle.
pub open spec fn serves_request<D: UsbDevice, H: UsbDeviceHandle>(
    device: D,
    before: H,
    after: H,
    req: UsbipRequest,
    r: Result<UsbipResponse, SessionError>,
) -> bool {
    match req {
        UsbipRequest::Submit { basic, submit, data, iso_descriptors } => {
            let plan = spec_transfer_plan(basic, submit, config_view(device.spec_config_descriptor(0)));
            &&& after.spec_transfer_count() == next_count(before.spec_transfer_count())
            &&& driver_state_kept(before, after)
            &&& after.spec_last_transfer() matches Some(t) && {
                &&& t.plan == plan
                &&& t.timeout == transfer_timeout()
                &&& t.sent@ == sent_data(plan, data@)
                &&& outcome_fits(plan, record_outcome(t))
                &&& r matches Ok(resp) && is_submit_reply(resp, basic, submit, iso_descriptors@, record_outcome(t))
            }
        },
        UsbipRequest::Unlink { basic, unlink } => {
            &&& r matches Ok(UsbipResponse::Unlink { basic: b, unlink: u })
                && b == reply_basic(basic, USBIP_RET_UNLINK) && u.status == -104
            &&& after == before
        },
        _ => {
            &&& r == Err::<UsbipResponse, SessionError>(SessionError::InvalidTransferRequest)
            &&& after == before
        },
    }
}

/// Serves one transfer-phase command of `device` through its opened `handle`.
pub fn execute_request<D: UsbDevice, H: UsbDeviceHandle>(device: &D, handle: &mut H, req: UsbipRequest) -> (r: Result<UsbipResponse, SessionError>)
    ensures
        serves_request(*device, *old(handle), *final(handle), req, r),
{
    let ghost req0 = req;
    match req {
        UsbipRequest::Submit { basic, submit, data, iso_descriptors } => {
            let config = device.config_descriptor(0);
            let plan = plan_transfer(&basic, &submit, &config);
            let outcome = perform_transfer(handle, &plan, &data);
            assert(outcome matches Ok(d) ==> d@.len() <= i32::MAX);
            let resp = complete_submit(&basic, &submit, &iso_descriptors, outcome);
            assert(is_submit_reply(resp, basic, submit, iso_descriptors@, outcome_view(outcome)));
            Ok(resp)
        },
        UsbipRequest::Unlink { basic, unlink } => {
            Ok(UsbipResponse::Unlink {
                basic: UsbipHeaderBasic {
                    command: USBIP_RET_UNLINK,
                    seqnum: basic.seqnum,
                    devid: basic.devid,
                    direction: basic.direction,
                    ep: basic.ep,
                },
                unlink: UsbipHeaderRetUnlink { status: -104 },
            })
        },
        _ => Err(SessionError::InvalidTransferRequest),
    }
}

/// Serves the transfer-phase commands of one imported device.
pub struct TransferRunner<'a, D: UsbDevice, H: UsbDeviceHandle> {
    device: &'a D,
    handle: &'a mut H,
}

impl<'a, D: UsbDevice, H: UsbDeviceHandle> TransferRunner<'a, D, H> {
    pub closed spec fn device(&self) -> &'a D {
        self.device
    }

    /// The state of the handle that the runner serves through.
    pub closed spec fn handle(&self) -> H {
        *self.handle
    }

    pub fn new(device: &'a D, handle: &'a mut H) -> (r: Self)
        ensures
            r.device() == device,
            r.handle() == *old(handle),
    {
        TransferRunner { device, handle }
    }

    /// Serves one command (see `serves_request`).
    pub fn execute(&mut self, req: UsbipRequest) -> (r: Result<UsbipResponse, SessionError>)
        ensures
            final(self).device() == old(self).device(),
            serves_request(*old(self).device(), old(self).handle(), final(self).handle(), req, r),
    {
        execute_request(self.device, self.handle, req)
    }
}

} // verus!

verus! {

/// The interfaces that an import took over: those whose kernel driver it detached, and those
/// it claimed. They are handed back when the session ends.
pub struct DriverGuard {
    pub detached_interfaces: Vec<u8>,
    pub claimed_interfaces: Vec<u8>,
}

/// The interface numbers of a configuration, in order.
pub open spec fn interface_numbers(c: ConfigModel) -> Seq<u8> {
    c.interfaces.map_values(|i: InterfaceModel| i.interface_number)
}

/// The log of taking over interface `n`: a detach of its kernel driver where one was tried,
/// with its success, then a claim with its success.
pub open spec fn takeover_step(n: u8, detach: Option<bool>, claim: bool) -> Seq<DriverOp> {
    match detach {
        Some(ok) => seq![
            DriverOp { kind: DriverOpKind::Detach, interface: n, ok },
            DriverOp { kind: DriverOpKind::Claim, interface: n, ok: claim },
        ],
        None => seq![DriverOp { kind: DriverOpKind::Claim, interface: n, ok: claim }],
    }
}

/// The log of taking over the interfaces `nums` in order, with the detach tried (and its
/// success) and the claim success of each.
pub open spec fn takeover_log(nums: Seq<u8>, detach: Seq<Option<bool>>, claim: Seq<bool>) -> Seq<DriverOp>
    decreases nums.len(),
{
    if nums.len() == 0 {
        Seq::empty()
    } else {
        takeover_log(nums.drop_last(), detach.drop_last(), claim.drop_last())
            + takeover_step(nums.last(), detach.last(), claim.last())
    }
}

/// The interfaces among `nums` whose flag in `ok` is set, in order.
pub open spec fn succeeded(nums: Seq<u8>, ok: Seq<bool>) -> Seq<u8>
    decreases nums.len(),
{
    if nums.len() == 0 {
        Seq::empty()
    } else if ok.last() {
        succeeded(nums.drop_last(), ok.drop_last()).push(nums.last())
    } else {
        succeeded(nums.drop_last(), ok.drop_last())
    }
}

/// The interfaces among `nums` whose flag in `ok` is clear, in order.
pub open spec fn failed(nums: Seq<u8>, ok: Seq<bool>) -> Seq<u8>
    decreases nums.len(),
{
    if nums.len() == 0 {
        Seq::empty()
    } else if !ok.last() {
        failed(nums.drop_last(), ok.drop_last()).push(nums.last())
    } else {
        failed(nums.drop_last(), ok.drop_last())
    }
}

/// The interfaces among `nums` whose detach was tried and succeeded, in order.
pub open spec fn detach_succeeded(nums: Seq<u8>, detach: Seq<Option<bool>>) -> Seq<u8>
    decreases nums.len(),
{
    if nums.len() == 0 {
        Seq::empty()
    } else if detach.last() == Some(true) {
        detach_succeeded(nums.drop_last(), detach.drop_last()).push(nums.last())
    } else {
        detach_succeeded(nums.drop_last(), detach.drop_last())
    }
}

/// Taking over the interfaces `nums` turned `before` into `after` and gave the guard `g`: every
/// interface was tried in order, a detach only where a kernel driver was bound, then a claim;
/// the guard lists the detaches and claims that succeeded; transfers are untouched.
pub open spec fn takes_over<H: UsbDeviceHandle>(before: H, after: H, nums: Seq<u8>, g: DriverGuard) -> bool {
    &&& exists|answers: Seq<Option<bool>>, detach: Seq<Option<bool>>, claim: Seq<bool>|
        #![trigger takeover_log(nums, detach, claim), driver_answers(before, nums, answers, detach)]
        {
            &&& detach.len() == nums.len()
            &&& claim.len() == nums.len()
            &&& after.spec_driver_ops()@ == before.spec_driver_ops()@ + takeover_log(nums, detach, claim)
            &&& g.claimed_interfaces@ == succeeded(nums, claim)
            &&& g.detached_interfaces@ == detach_succeeded(nums, detach)
            &&& driver_answers(before, nums, answers, detach)
        }
    &&& transfers_kept(before, after)
}

/// `answers` are what asking whether a kernel driver is bound gave for each of `nums` (`None`
/// where the question failed), and `detach` the detaches tried: exactly where the answer was yes.
/// An answer about an interface that has not come up before is the state of `before`, and a
/// detach is only tried where `before` has a driver bound.
pub open spec fn driver_answers<H: UsbDeviceHandle>(
    before: H,
    nums: Seq<u8>,
    answers: Seq<Option<bool>>,
    detach: Seq<Option<bool>>,
) -> bool {
    &&& answers.len() == nums.len()
    &&& forall|k: int| 0 <= k < nums.len() ==> ((#[trigger] detach[k]) is Some <==> answers[k] == Some(true))
    &&& forall|k: int| 0 <= k < nums.len() && (#[trigger] answers[k]) is Some
        && (forall|j: int| 0 <= j < k ==> nums[j] != nums[k])
        ==> answers[k] == Some(before.spec_driver_bound(nums[k]))
    &&& forall|k: int| 0 <= k < nums.len() && (#[trigger] detach[k]) is Some ==> before.spec_driver_bound(nums[k])
}

/// Takes over interface `iface` of an opened device, given what asking whether a kernel driver
/// is bound to it answered: the driver is detached where the answer was yes, and then the
/// interface is claimed. Gives whether a detach succeeded and whether the claim succeeded.
pub fn take_over_interface<H: UsbDeviceHandle>(handle: &mut H, iface: u8, active: &Result<bool, UsbError>) -> (r: (
    bool,
    bool,
))
    ensures
        final(handle).spec_driver_ops()@ == old(handle).spec_driver_ops()@ + takeover_step(
            iface,
            if *active == Ok::<bool, UsbError>(true) { Some(r.0) } else { None },
            r.1,
        ),
        r.0 ==> *active == Ok::<bool, UsbError>(true),
        r.0 ==> !final(handle).spec_driver_bound(iface),
        forall|i: u8| i != iface || !r.0 ==> #[trigger] final(handle).spec_driver_bound(i) == old(handle).spec_driver_bound(i),
        r.1 ==> forall|i: u8| #[trigger] final(handle).spec_claimed(i) == (old(handle).spec_claimed(i) || i == iface),
        !r.1 ==> forall|i: u8| #[trigger] final(handle).spec_claimed(i) == old(handle).spec_claimed(i),
        transfers_kept(*old(handle), *final(handle)),
{
    let ghost ops0 = handle.spec_driver_ops()@;
    let mut detached = false;
    if let Ok(true) = active {
        detached = handle.detach_kernel_driver(iface).is_ok();
    }
    let claimed = handle.claim_interface(iface).is_ok();
    proof {
        let d = if *active == Ok::<bool, UsbError>(true) { Some(detached) } else { None };
        assert(handle.spec_driver_ops()@ =~= ops0 + takeover_step(iface, d, claimed));
    }
    (detached, claimed)
}

/// Detaches the kernel driver of every interface of `config` that has one bound, and claims
/// every interface. The guard lists the interfaces for which the handle reported success, and
/// the handle changes by exactly what the guard lists: the claimed interfaces are added to those
/// claimed before, the detached interfaces lose their driver, nothing else changes.
pub fn claim_device_interfaces<H: UsbDeviceHandle>(handle: &mut H, config: &UsbConfigDescriptor) -> (g: DriverGuard)
    ensures
        forall|k: int| 0 <= k < g.claimed_interfaces@.len()
            ==> interface_numbers(config@).contains(#[trigger] g.claimed_interfaces@[k]),
        forall|k: int| 0 <= k < g.detached_interfaces@.len()
            ==> interface_numbers(config@).contains(#[trigger] g.detached_interfaces@[k]),
        forall|k: int| 0 <= k < g.claimed_interfaces@.len()
            ==> final(handle).spec_claimed(#[trigger] g.claimed_interfaces@[k]),
        forall|k: int| 0 <= k < g.detached_interfaces@.len()
            ==> !final(handle).spec_driver_bound(#[trigger] g.detached_interfaces@[k]),
        forall|k: int| 0 <= k < g.detached_interfaces@.len()
            ==> old(handle).spec_driver_bound(#[trigger] g.detached_interfaces@[k]),
        forall|n: u8| #[trigger] final(handle).spec_claimed(n)
            == (old(handle).spec_claimed(n) || g.claimed_interfaces@.contains(n)),
        forall|n: u8| #[trigger] final(handle).spec_driver_bound(n)
            == (old(handle).spec_driver_bound(n) && !g.detached_interfaces@.contains(n)),
        takes_over(*old(handle), *final(handle), interface_numbers(config@), g),
{
    let ghost nums = interface_numbers(config@);
    let ghost mut dets: Seq<Option<bool>> = Seq::empty();
    let ghost mut cls: Seq<bool> = Seq::empty();
    let ghost mut answers: Seq<Option<bool>> = Seq::empty();
    let mut detached_interfaces: Vec<u8> = Vec::new();
    let mut claimed_interfaces: Vec<u8> = Vec::new();
    let mut i: usize = 0;
    while i < config.interfaces.len()
        invariant
            i <= config.interfaces@.len(),
            nums == interface_numbers(config@),
            nums.len() == config.interfaces@.len(),
            forall|k: int| 0 <= k < claimed_interfaces@.len() ==> nums.subrange(0, i as int).contains(#[trigger] claimed_interfaces@[k]),
            forall|k: int| 0 <= k < detached_interfaces@.len() ==> nums.subrange(0, i as int).contains(#[trigger] detached_interfaces@[k]),
            forall|k: int| 0 <= k < claimed_interfaces@.len() ==> handle.spec_claimed(#[trigger] claimed_interfaces@[k]),
            forall|k: int| 0 <= k < detached_interfaces@.len() ==> !handle.spec_driver_bound(#[trigger] detached_interfaces@[k]),
            forall|k: int| 0 <= k < detached_interfaces@.len() ==> old(handle).spec_driver_bound(#[trigger] detached_interfaces@[k]),
            forall|j: u8| #[trigger] handle.spec_driver_bound(j) ==> old(handle).spec_driver_bound(j),
            forall|n: u8| #[trigger] handle.spec_claimed(n)
                == (old(handle).spec_claimed(n) || claimed_interfaces@.contains(n)),
            forall|n: u8| #[trigger] handle.spec_driver_bound(n)
                == (old(handle).spec_driver_bound(n) && !detached_interfaces@.contains(n)),
            dets.len() == i,
            cls.len() == i,
            handle.spec_driver_ops()@ == old(handle).spec_driver_ops()@ + takeover_log(nums.subrange(0, i as int), dets, cls),
            claimed_interfaces@ == succeeded(nums.subrange(0, i as int), cls),
            detached_interfaces@ == detach_succeeded(nums.subrange(0, i as int), dets),
            forall|k: int| 0 <= k < i && (#[trigger] dets[k]) is Some ==> old(handle).spec_driver_bound(nums[k]),
            answers.len() == i,
            forall|k: int| 0 <= k < i ==> ((#[trigger] dets[k]) is Some <==> answers[k] == Some(true)),
            forall|k: int| 0 <= k < i && (#[trigger] answers[k]) is Some
                && (forall|j: int| 0 <= j < k ==> nums[j] != nums[k])
                ==> answers[k] == Some(old(handle).spec_driver_bound(nums[k])),
            transfers_kept(*old(handle), *handle),
        decreases config.interfaces@.len() - i,
    {
        let iface_num = config.interfaces[i].interface_number;
        let ghost before = nums.subrange(0, i as int);
        let ghost after = nums.subrange(0, i + 1);
        assert(after =~= before.push(iface_num));
        assert(forall|j: u8| before.contains(j) ==> after.contains(j));
        let ghost ops0 = handle.spec_driver_ops()@;
        let ghost h0 = *handle;
        let active = handle.kernel_driver_active(iface_num);
        let ghost ans: Option<bool> = match active {
            Ok(b) => Some(b),
            Err(_) => None,
        };
        let (det, c) = take_over_interface(handle, iface_num, &active);
        let ghost d: Option<bool> = if active == Ok::<bool, UsbError>(true) { Some(det) } else { None };
        if det {
            let ghost prev = detached_interfaces@;
            detached_interfaces.push(iface_num);
            assert(forall|n: u8| #[trigger] detached_interfaces@.contains(n) <==> (prev.contains(n) || n == iface_num)) by {
                assert forall|n: u8| #[trigger] detached_interfaces@.contains(n) implies (prev.contains(n) || n == iface_num) by {
                    let w = choose|w: int| 0 <= w < detached_interfaces@.len() && detached_interfaces@[w] == n;
                    if w < prev.len() {
                        assert(prev[w] == n);
                    }
                }
                assert forall|n: u8| prev.contains(n) implies #[trigger] detached_interfaces@.contains(n) by {
                    let w = choose|w: int| 0 <= w < prev.len() && prev[w] == n;
                    assert(detached_interfaces@[w] == n);
                }
                assert(detached_interfaces@[prev.len() as int] == iface_num);
            }
        }
        let ghost prev_claimed = claimed_interfaces@;
        if c {
            claimed_interfaces.push(iface_num);
            assert(forall|n: u8| #[trigger] claimed_interfaces@.contains(n) <==> (prev_claimed.contains(n) || n == iface_num)) by {
                assert forall|n: u8| #[trigger] claimed_interfaces@.contains(n) implies (prev_claimed.contains(n) || n == iface_num) by {
                    let w = choose|w: int| 0 <= w < claimed_interfaces@.len() && claimed_interfaces@[w] == n;
                    if w < prev_claimed.len() {
                        assert(prev_claimed[w] == n);
                    }
                }
                assert forall|n: u8| prev_claimed.contains(n) implies #[trigger] claimed_interfaces@.contains(n) by {
                    let w = choose|w: int| 0 <= w < prev_claimed.len() && prev_claimed[w] == n;
                    assert(claimed_interfaces@[w] == n);
                }
                assert(claimed_interfaces@[prev_claimed.len() as int] == iface_num);
            }
        }
        assert(after.contains(iface_num)) by {
            assert(after[i as int] == iface_num);
        }
        proof {
            let dets0 = dets;
            let cls0 = cls;
            let answers0 = answers;
            answers = answers.push(ans);
            assert(forall|k: int| 0 <= k < i ==> answers[k] == answers0[k]);
            if ans is Some && (forall|j: int| 0 <= j < i ==> nums[j] != nums[i as int]) {
                assert(!before.contains(iface_num)) by {
                    if before.contains(iface_num) {
                        let w = choose|w: int| 0 <= w < before.len() && before[w] == iface_num;
                        assert(nums[w] == iface_num);
                    }
                }
                assert(!detached_interfaces@.contains(iface_num) || det);
                assert(h0.spec_driver_bound(iface_num) == old(handle).spec_driver_bound(iface_num));
            }
            assert(handle.spec_driver_ops()@ =~= ops0 + takeover_step(iface_num, d, c));
            dets = dets.push(d);
            cls = cls.push(c);
            assert(after.drop_last() =~= before);
            assert(dets.drop_last() =~= dets0);
            assert(cls.drop_last() =~= cls0);
            assert(after.last() == iface_num);
            assert(takeover_log(after, dets, cls) == takeover_log(before, dets0, cls0) + takeover_step(iface_num, d, c));
            assert(handle.spec_driver_ops()@ =~= old(handle).spec_driver_ops()@ + takeover_log(after, dets, cls));
            assert(succeeded(after, cls) == if c { succeeded(before, cls0).push(iface_num) } else { succeeded(before, cls0) });
            assert(detach_succeeded(after, dets) == if d == Some(true) {
                detach_succeeded(before, dets0).push(iface_num)
            } else {
                detach_succeeded(before, dets0)
            });
            assert forall|k: int| 0 <= k < i + 1 && (#[trigger] dets[k]) is Some implies old(handle).spec_driver_bound(nums[k]) by {
                if k < i {
                    assert(dets[k] == dets0[k]);
                } else {
                    assert(nums[k] == iface_num);
                }
            }
        }
        i = i + 1;
    }
    assert(nums.subrange(0, i as int) =~= nums);
    assert(takeover_log(nums, dets, cls) == takeover_log(nums.subrange(0, i as int), dets, cls));
    assert(driver_answers(*old(handle), nums, answers, dets));
    DriverGuard { detached_interfaces, claimed_interfaces }
}

/// The interfaces whose hand-back the handle refused.
pub struct TeardownReport {
    pub release_failed: Vec<u8>,
    pub reattach_failed: Vec<u8>,
}

/// The log of one kind of operation on each of `ifaces` in order, with the successes `ok`.
pub open spec fn op_log(kind: DriverOpKind, ifaces: Seq<u8>, ok: Seq<bool>) -> Seq<DriverOp> {
    Seq::new(ifaces.len(), |k: int| DriverOp { kind, interface: ifaces[k], ok: ok[k] })
}

/// Handing back what the guard took over turned `before` into `after` and gave `report`: every
/// claimed interface was released in order, then the kernel driver of every detached interface
/// attached again in order; the report lists the releases and attaches that failed; transfers are
/// untouched.
pub open spec fn hands_back<H: UsbDeviceHandle>(before: H, after: H, guard: DriverGuard, report: TeardownReport) -> bool {
    &&& exists|rel: Seq<bool>, att: Seq<bool>|
        #![trigger op_log(DriverOpKind::Release, guard.claimed_interfaces@, rel), op_log(DriverOpKind::Attach, guard.detached_interfaces@, att)]
        {
            &&& rel.len() == guard.claimed_interfaces@.len()
            &&& att.len() == guard.detached_interfaces@.len()
            &&& after.spec_driver_ops()@ == before.spec_driver_ops()@
                + op_log(DriverOpKind::Release, guard.claimed_interfaces@, rel)
                + op_log(DriverOpKind::Attach, guard.detached_interfaces@, att)
            &&& report.release_failed@ == failed(guard.claimed_interfaces@, rel)
            &&& report.reattach_failed@ == failed(guard.detached_interfaces@, att)
        }
    &&& transfers_kept(before, after)
}

/// Releases every interface that the guard claimed and binds the kernel driver again to every
/// interface whose driver it detached. Afterwards every claimed interface whose release did not
/// fail is no longer claimed, and every detached interface whose re-attachment did not fail has
/// its driver bound.
pub fn release_device_interfaces<H: UsbDeviceHandle>(handle: &mut H, guard: DriverGuard) -> (report: TeardownReport)
    ensures
        forall|k: int| 0 <= k < guard.claimed_interfaces@.len()
            && !report.release_failed@.contains(#[trigger] guard.claimed_interfaces@[k])
            ==> !final(handle).spec_claimed(guard.claimed_interfaces@[k]),
        forall|k: int| 0 <= k < guard.detached_interfaces@.len()
            && !report.reattach_failed@.contains(#[trigger] guard.detached_interfaces@[k])
            ==> final(handle).spec_driver_bound(guard.detached_interfaces@[k]),
        forall|k: int| 0 <= k < report.release_failed@.len()
            ==> guard.claimed_interfaces@.contains(#[trigger] report.release_failed@[k]),
        forall|k: int| 0 <= k < report.reattach_failed@.len()
            ==> guard.detached_interfaces@.contains(#[trigger] report.reattach_failed@[k]),
        hands_back(*old(handle), *final(handle), guard, report),
{
    let claimed = guard.claimed_interfaces;
    let detached = guard.detached_interfaces;
    let ghost mut rel: Seq<bool> = Seq::empty();
    let ghost mut att: Seq<bool> = Seq::empty();
    let mut release_failed: Vec<u8> = Vec::new();
    let mut i: usize = 0;
    assert(op_log(DriverOpKind::Release, claimed@.take(0), rel) =~= Seq::<DriverOp>::empty());
    assert(handle.spec_driver_ops()@ =~= old(handle).spec_driver_ops()@ + op_log(DriverOpKind::Release, claimed@.take(0), rel));
    assert(failed(claimed@.take(0), rel) =~= Seq::<u8>::empty());
    while i < claimed.len()
        invariant
            i <= claimed@.len(),
            claimed@ == guard.claimed_interfaces@,
            forall|k: int| 0 <= k < i && !release_failed@.contains(#[trigger] claimed@[k])
                ==> !handle.spec_claimed(claimed@[k]),
            forall|k: int| 0 <= k < release_failed@.len() ==> claimed@.contains(#[trigger] release_failed@[k]),
            rel.len() == i,
            handle.spec_driver_ops()@ == old(handle).spec_driver_ops()@
                + op_log(DriverOpKind::Release, claimed@.take(i as int), rel),
            release_failed@ == failed(claimed@.take(i as int), rel),
            transfers_kept(*old(handle), *handle),
        decreases claimed@.len() - i,
    {
        let iface = claimed[i];
        let ghost prev_failed = release_failed@;
        let ghost ops0 = handle.spec_driver_ops()@;
        let release_result = handle.release_interface(iface);
        let ghost ok: bool = release_result is Ok;
        if release_result.is_err() {
            release_failed.push(iface);
        }
        proof {
            let rel0 = rel;
            rel = rel.push(ok);
            let t1 = claimed@.take(i + 1);
            assert(t1.drop_last() =~= claimed@.take(i as int));
            assert(rel.drop_last() =~= rel0);
            assert(t1.last() == iface);
            assert(op_log(DriverOpKind::Release, t1, rel) =~= op_log(DriverOpKind::Release, claimed@.take(i as int), rel0)
                .push(DriverOp { kind: DriverOpKind::Release, interface: iface, ok }));
            assert(handle.spec_driver_ops()@ =~= old(handle).spec_driver_ops()@ + op_log(DriverOpKind::Release, t1, rel));
            assert(failed(t1, rel) == if !ok { failed(claimed@.take(i as int), rel0).push(iface) } else { failed(claimed@.take(i as int), rel0) });
        }
        assert forall|k: int| 0 <= k < i + 1 && !release_failed@.contains(#[trigger] claimed@[k])
            implies !handle.spec_claimed(claimed@[k]) by {
            if k < i {
                assert(!prev_failed.contains(claimed@[k])) by {
                    if prev_failed.contains(claimed@[k]) {
                        let w = choose|w: int| 0 <= w < prev_failed.len() && prev_failed[w] == claimed@[k];
                        assert(release_failed@[w] == prev_failed[w]);
                    }
                }
            } else {
                if release_failed@.len() > prev_failed.len() {
                    assert(release_failed@[prev_failed.len() as int] == iface);
                }
            }
        }
        assert forall|k: int| 0 <= k < release_failed@.len() implies claimed@.contains(#[trigger] release_failed@[k]) by {
            if k == prev_failed.len() {
                assert(claimed@[i as int] == iface);
            }
        }
        i = i + 1;
    }
    let mut reattach_failed: Vec<u8> = Vec::new();
    let mut j: usize = 0;
    assert(claimed@.take(i as int) =~= claimed@);
    assert(op_log(DriverOpKind::Attach, detached@.take(0), att) =~= Seq::<DriverOp>::empty());
    assert(handle.spec_driver_ops()@ =~= old(handle).spec_driver_ops()@
        + op_log(DriverOpKind::Release, claimed@, rel) + op_log(DriverOpKind::Attach, detached@.take(0), att));
    assert(failed(detached@.take(0), att) =~= Seq::<u8>::empty());
    while j < detached.len()
        invariant
            j <= detached@.len(),
            detached@ == guard.detached_interfaces@,
            forall|k: int| 0 <= k < claimed@.len() && !release_failed@.contains(#[trigger] claimed@[k])
                ==> !handle.spec_claimed(claimed@[k]),
            forall|k: int| 0 <= k < j && !reattach_failed@.contains(#[trigger] detached@[k])
                ==> handle.spec_driver_bound(detached@[k]),
            forall|k: int| 0 <= k < reattach_failed@.len() ==> detached@.contains(#[trigger] reattach_failed@[k]),
            rel.len() == claimed@.len(),
            att.len() == j,
            claimed@ == guard.claimed_interfaces@,
            handle.spec_driver_ops()@ == old(handle).spec_driver_ops()@
                + op_log(DriverOpKind::Release, claimed@, rel)
                + op_log(DriverOpKind::Attach, detached@.take(j as int), att),
            release_failed@ == failed(claimed@, rel),
            reattach_failed@ == failed(detached@.take(j as int), att),
            transfers_kept(*old(handle), *handle),
        decreases detached@.len() - j,
    {
        let iface = detached[j];
        let ghost prev_failed = reattach_failed@;
        let ghost ops0 = handle.spec_driver_ops()@;
        let attach_result = handle.attach_kernel_driver(iface);
        let ghost ok: bool = attach_result is Ok;
        if attach_result.is_err() {
            reattach_failed.push(iface);
        }
        proof {
            let att0 = att;
            att = att.push(ok);
            let t1 = detached@.take(j + 1);
            assert(t1.drop_last() =~= detached@.take(j as int));
            assert(att.drop_last() =~= att0);
            assert(t1.last() == iface);
            assert(op_log(DriverOpKind::Attach, t1, att) =~= op_log(DriverOpKind::Attach, detached@.take(j as int), att0)
                .push(DriverOp { kind: DriverOpKind::Attach, interface: iface, ok }));
            assert(handle.spec_driver_ops()@ =~= old(handle).spec_driver_ops()@
                + op_log(DriverOpKind::Release, claimed@, rel) + op_log(DriverOpKind::Attach, t1, att));
            assert(failed(t1, att) == if !ok { failed(detached@.take(j as int), att0).push(iface) } else { failed(detached@.take(j as int), att0) });
        }
        assert forall|k: int| 0 <= k < j + 1 && !reattach_failed@.contains(#[trigger] detached@[k])
            implies handle.spec_driver_bound(detached@[k]) by {
            if k < j {
                assert(!prev_failed.contains(detached@[k])) by {
                    if prev_failed.contains(detached@[k]) {
                        let w = choose|w: int| 0 <= w < prev_failed.len() && prev_failed[w] == detached@[k];
                        assert(reattach_failed@[w] == prev_failed[w]);
                    }
                }
            } else {
                if reattach_failed@.len() > prev_failed.len() {
                    assert(reattach_failed@[prev_failed.len() as int] == iface);
                }
            }
        }
        assert forall|k: int| 0 <= k < reattach_failed@.len() implies detached@.contains(#[trigger] reattach_failed@[k]) by {
            if k == prev_failed.len() {
                assert(detached@[j as int] == iface);
            }
        }
        j = j + 1;
    }
    assert(detached@.take(j as int) =~= detached@);
    assert(op_log(DriverOpKind::Release, guard.claimed_interfaces@, rel) == op_log(DriverOpKind::Release, claimed@, rel));
    assert(op_log(DriverOpKind::Attach, guard.detached_interfaces@, att) == op_log(DriverOpKind::Attach, detached@, att));
    TeardownReport { release_failed, reattach_failed }
}

} // verus!

verus! {

/// The query that an import request makes: the device with the requested bus id.
pub open spec fn import_query(busid: String) -> DeviceQuery {
    DeviceQuery { vendor_id: None, product_id: None, bus_number: None, address: None, bus_id: Some(busid) }
}

/// The status of an import whose device could not be opened: "device busy" where the error says
/// so, "not available" otherwise.
pub open spec fn open_failure_status(message: Seq<char>) -> u32 {
    if contains_text(message, "busy"@) { ST_DEV_BUSY } else { ST_NA }
}

pub fn import_status_for_open_error(e: &UsbError) -> (status: u32)
    ensures
        status == open_failure_status(e.message@),
{
    if contains_str(e.message.as_str(), "busy") { ST_DEV_BUSY } else { ST_NA }
}

/// A query that accepts every device selects every device.
pub proof fn lemma_match_all<D: UsbDevice>(devs: Seq<Arc<D>>, q: DeviceQuery)
    requires
        q.vendor_id is None && q.product_id is None && q.bus_number is None && q.address is None
            && q.bus_id is None,
    ensures
        matching_devices(devs, q) == devs,
    decreases devs.len(),
{
    if devs.len() > 0 {
        lemma_match_all(devs.drop_last(), q);
        assert(devs.drop_last().push(devs.last()) =~= devs);
    }
}

/// A device that a client imported, with the interfaces the import took over.
pub struct ImportedDevice<D: UsbDevice> {
    pub device: Arc<D>,
    pub handle: D::Handle,
    pub guard: DriverGuard,
}

/// What a handshake request leads to.
pub enum HandshakeOutcome<D: UsbDevice> {
    /// Send the reply and end the session.
    Close(UsbipResponse),
    /// Send the reply, then serve the transfer phase of the imported device.
    Imported { reply: UsbipResponse, session: ImportedDevice<D> },
}

/// `g` took over interfaces of the configuration `c` of an opened handle `h`: every interface it
/// lists as claimed is claimed, every interface it lists as detached has no driver bound.
pub open spec fn guard_holds<H: UsbDeviceHandle>(g: DriverGuard, h: H, c: ConfigModel) -> bool {
    &&& forall|k: int| 0 <= k < g.claimed_interfaces@.len()
        ==> interface_numbers(c).contains(#[trigger] g.claimed_interfaces@[k])
    &&& forall|k: int| 0 <= k < g.detached_interfaces@.len()
        ==> interface_numbers(c).contains(#[trigger] g.detached_interfaces@[k])
    &&& forall|k: int| 0 <= k < g.claimed_interfaces@.len()
        ==> h.spec_claimed(#[trigger] g.claimed_interfaces@[k])
    &&& forall|k: int| 0 <= k < g.detached_interfaces@.len()
        ==> !h.spec_driver_bound(#[trigger] g.detached_interfaces@[k])
}

/// What importing `device` gives once opening it gave `opened`. Where it could not be opened the
/// import is refused with "device busy" or "not available" after the error. Where it was opened,
/// the kernel drivers of the interfaces of its first configuration are detached and the
/// interfaces claimed (see `takes_over`), and the device is imported with its record; where its
/// device descriptor cannot be read there is no record, and the session fails.
pub open spec fn imports<D: UsbDevice>(
    device: Arc<D>,
    opened: Result<D::Handle, UsbError>,
    r: Result<HandshakeOutcome<D>, SessionError>,
) -> bool {
    match opened {
        Err(e) => r matches Ok(HandshakeOutcome::Close(UsbipResponse::Import { status, device: d }))
            && status == open_failure_status(e.message@) && d is None,
        Ok(h) => {
            let c = effective_config(config_view(device.spec_config_descriptor(0)));
            if device.spec_device_descriptor() is Some {
                r matches Ok(HandshakeOutcome::Imported { reply: UsbipResponse::Import { status, device: Some(d) }, session })
                    && status == ST_OK && is_detail_of(*d, *device) && session.device == device
                    && takes_over(h, session.handle, interface_numbers(c), session.guard)
                    && guard_holds(session.guard, session.handle, c)
            } else {
                r == Err::<HandshakeOutcome<D>, SessionError>(SessionError::DescriptorUnavailable)
            }
        },
    }
}

/// Imports `device`, which opening gave `opened` (see `imports`).
pub fn import_opened<D: UsbDevice>(device: Arc<D>, opened: Result<D::Handle, UsbError>) -> (r: Result<HandshakeOutcome<D>, SessionError>)
    ensures
        imports(device, opened, r),
{
    let mut handle = match opened {
        Ok(h) => h,
        Err(e) => {
            let status = import_status_for_open_error(&e);
            return Ok(HandshakeOutcome::Close(UsbipResponse::Import { status, device: None }));
        },
    };
    let config = match device.config_descriptor(0) {
        Ok(c) => c,
        Err(_) => fallback_config_descriptor(),
    };
    let guard = claim_device_interfaces(&mut handle, &config);
    match UsbipDeviceDetail::new(&*device) {
        Ok(detail) => Ok(HandshakeOutcome::Imported {
            reply: UsbipResponse::Import { status: ST_OK, device: Some(Box::new(detail)) },
            session: ImportedDevice { device, handle, guard },
        }),
        Err(_) => {
            let _ = release_device_interfaces(&mut handle, guard);
            Err(SessionError::DescriptorUnavailable)
        },
    }
}

/// Answers a handshake request. A device-list request is answered with the record of every
/// device. An import request for a bus id that no device, or more than one device, has is
/// refused with "not available"; where the device cannot be opened it is refused with "device
/// busy" or "not available" after the error; otherwise the kernel drivers of its interfaces are
/// detached, its interfaces claimed, and it is imported. A transfer-phase command is refused.
/// Either way the session serves one handshake request only.
pub fn serve_handshake<D: UsbDevice>(registry: &HostDeviceRegistry<D>, req: UsbipRequest) -> (r: Result<HandshakeOutcome<D>, SessionError>)
    ensures
        match req {
            UsbipRequest::Devlist => {
                let devs = registry.devices();
                if forall|i: int| 0 <= i < devs.len() ==> (#[trigger] devs[i]).spec_device_descriptor() is Some {
                    r matches Ok(HandshakeOutcome::Close(UsbipResponse::Devlist { devices }))
                        && devices@.len() == devs.len()
                        && forall|i: int| 0 <= i < devs.len() ==> is_detail_of(#[trigger] devices@[i], *devs[i])
                } else {
                    r == Err::<HandshakeOutcome<D>, SessionError>(SessionError::DescriptorUnavailable)
                }
            },
            UsbipRequest::Import { busid } => {
                let m = matching_devices(registry.devices(), import_query(busid));
                if m.len() != 1 {
                    r matches Ok(HandshakeOutcome::Close(UsbipResponse::Import { status, device }))
                        && status == ST_NA && device is None
                } else {
                    exists|opened: Result<D::Handle, UsbError>| #[trigger] imports(m[0], opened, r)
                }
            },
            _ => r == Err::<HandshakeOutcome<D>, SessionError>(SessionError::InvalidHandshakeRequest),
        },
{
    match req {
        UsbipRequest::Devlist => {
            let query = DeviceQuery::any();
            let entries = match registry.find_devices(&query) {
                Ok(v) => v,
                Err(_) => return Err(SessionError::DescriptorUnavailable),
            };
            proof {
                lemma_match_all(registry.devices(), query);
            }
            let ghost devs = registry.devices();
            let mut details: Vec<UsbipDeviceDetail> = Vec::new();
            let mut i: usize = 0;
            while i < entries.len()
                invariant
                    req is Devlist,
                    devs == registry.devices(),
                    entries@.len() == devs.len(),
                    forall|k: int| 0 <= k < entries@.len() ==> describes(#[trigger] entries@[k], devs[k]),
                    i <= entries@.len(),
                    details@.len() == i,
                    forall|k: int| 0 <= k < i ==> is_detail_of(#[trigger] details@[k], *devs[k]),
                    forall|k: int| 0 <= k < i ==> (#[trigger] devs[k]).spec_device_descriptor() is Some,
                decreases entries@.len() - i,
            {
                assert(describes(entries@[i as int], devs[i as int]));
                match UsbipDeviceDetail::new(&*entries[i].device) {
                    Ok(d) => details.push(d),
                    Err(_) => {
                        assert(devs[i as int].spec_device_descriptor() is None);
                        assert(!(forall|k: int| 0 <= k < registry.devices().len() ==> (#[trigger] registry.devices()[k]).spec_device_descriptor() is Some));
                        return Err(SessionError::DescriptorUnavailable);
                    },
                }
                i = i + 1;
            }
            Ok(HandshakeOutcome::Close(UsbipResponse::Devlist { devices: details }))
        },
        UsbipRequest::Import { busid } => {
            let query = DeviceQuery { vendor_id: None, product_id: None, bus_number: None, address: None, bus_id: Some(busid) };
            let entry = match registry.find_single_device(&query) {
                Ok(e) => e,
                Err(_) => return Ok(HandshakeOutcome::Close(UsbipResponse::Import { status: ST_NA, device: None })),
            };
            let device = entry.device;
            let ghost dev0 = device;
            let opened = device.open();
            let ghost opened0 = opened;
            let r = import_opened(device, opened);
            assert(imports(dev0, opened0, r));
            r
        },
        _ => Err(SessionError::InvalidHandshakeRequest),
    }
}

impl<D: UsbDevice> ImportedDevice<D> {
    /// Serves one transfer-phase command of the imported device (see `serves_request`).
    pub fn serve(&mut self, req: UsbipRequest) -> (r: Result<UsbipResponse, SessionError>)
        ensures
            final(self).device == old(self).device,
            final(self).guard == old(self).guard,
            serves_request(*old(self).device, old(self).handle, final(self).handle, req, r),
    {
        execute_request(&*self.device, &mut self.handle, req)
    }

    /// Ends the session: releases the claimed interfaces and binds the detached kernel drivers
    /// again, then hands back the handle. Every interface whose hand-back did not fail is free
    /// afterwards.
    pub fn close(self) -> (r: (D::Handle, TeardownReport))
        ensures
            forall|k: int| 0 <= k < self.guard.claimed_interfaces@.len()
                && !r.1.release_failed@.contains(#[trigger] self.guard.claimed_interfaces@[k])
                ==> !r.0.spec_claimed(self.guard.claimed_interfaces@[k]),
            forall|k: int| 0 <= k < self.guard.detached_interfaces@.len()
                && !r.1.reattach_failed@.contains(#[trigger] self.guard.detached_interfaces@[k])
                ==> r.0.spec_driver_bound(self.guard.detached_interfaces@[k]),
            hands_back(self.handle, r.0, self.guard, r.1),
    {
        let ImportedDevice { device, mut handle, guard } = self;
        let report = release_device_interfaces(&mut handle, guard);
        (handle, report)
    }
}

} // verus!

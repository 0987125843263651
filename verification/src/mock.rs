use vstd::prelude::*;
use std::collections::{HashMap, HashSet};
use std::time::Duration;
use crate::text::{decimal, push_decimal, push_str};
use crate::{
    DriverOp, DriverOpKind, TransferPlan, TransferRecord, next_count, same_result,
    UsbConfigDescriptor, UsbDevice, UsbDeviceDescriptor,
    UsbDeviceHandle, UsbError, UsbInterfaceDescriptor, UsbInterfaceSettingDescriptor, UsbSpeed,
};

verus! {

broadcast use vstd::std_specs::hash::group_hash_axioms;

/// One canned answer of a mock device: the reply to the transfer named `action`.
#[derive(Debug)]
pub struct MockTransferRule {
    pub action: String,
    pub response: Result<Vec<u8>, String>,
}

/// The canned answers of a mock device, looked up by transfer name; the first rule whose name
/// matches answers, and a transfer that no rule names gets an empty successful answer.
#[derive(Debug)]
pub struct MockTransferCallback {
    pub rules: Vec<MockTransferRule>,
}

/// A mock device's answer to the transfer named `action`.
pub open spec fn rule_answer(rules: Seq<MockTransferRule>, action: Seq<char>) -> Result<Seq<u8>, Seq<char>>
    decreases rules.len(),
{
    if rules.len() == 0 {
        Ok(Seq::empty())
    } else if rules[0].action@ == action {
        match rules[0].response {
            Ok(v) => Ok(v@),
            Err(m) => Err(m@),
        }
    } else {
        rule_answer(rules.drop_first(), action)
    }
}

impl MockTransferCallback {
    pub fn new(rules: Vec<MockTransferRule>) -> (r: Self)
        ensures
            r.rules@ == rules@,
    {
        MockTransferCallback { rules }
    }

    pub open spec fn answer(&self, action: Seq<char>) -> Result<Seq<u8>, Seq<char>> {
        rule_answer(self.rules@, action)
    }

    /// The index of the first rule named `action`.
    fn find(&self, action: &String) -> (r: Option<usize>)
        ensures
            match r {
                Some(i) => i < self.rules@.len() && self.rules@[i as int].action@ == action@
                    && self.answer(action@) == rule_answer(self.rules@.skip(i as int), action@),
                None => self.answer(action@) == Ok::<Seq<u8>, Seq<char>>(Seq::empty()),
            },
    {
        let mut i: usize = 0;
        assert(self.rules@.skip(0) =~= self.rules@);
        while i < self.rules.len()
            invariant
                i <= self.rules@.len(),
                self.answer(action@) == rule_answer(self.rules@.skip(i as int), action@),
            decreases self.rules@.len() - i,
        {
            if self.rules[i].action == *action {
                return Some(i);
            }
            assert(self.rules@.skip(i as int).drop_first() =~= self.rules@.skip(i + 1));
            i = i + 1;
        }
        None
    }

    /// The answer to the transfer named `action`, as a fresh buffer.
    pub fn respond(&self, action: &String) -> (r: Result<Vec<u8>, UsbError>)
        ensures
            match self.answer(action@) {
                Ok(v) => r matches Ok(w) && w@ == v,
                Err(m) => r matches Err(e) && e.message@ == m,
            },
    {
        match self.find(action) {
            None => Ok(Vec::new()),
            Some(i) => {
                proof {
                    assert(self.rules@.skip(i as int)[0] == self.rules@[i as int]);
                }
                match &self.rules[i].response {
                    Ok(v) => Ok(copy_bytes(v)),
                    Err(m) => Err(UsbError { message: m.clone() }),
                }
            }
        }
    }
}

/// A fresh copy of `v`.
pub fn copy_bytes(v: &[u8]) -> (r: Vec<u8>)
    ensures
        r@ == v@,
{
    let mut r: Vec<u8> = Vec::new();
    let mut i: usize = 0;
    while i < v.len()
        invariant
            i <= v@.len(),
            r@ == v@.take(i as int),
        decreases v@.len() - i,
    {
        r.push(v[i]);
        i = i + 1;
        assert(v@.take(i as int) =~= v@.take(i - 1).push(v@[i - 1]));
    }
    assert(v@.take(i as int) =~= v@);
    r
}

/// A device that exists only in memory, for tests and demonstrations.
pub struct MockUsbDevice {
    pub bus_num: u8,
    pub dev_addr: u8,
    pub dev_speed: UsbSpeed,
    pub descriptor: UsbDeviceDescriptor,
    pub config_descriptor: UsbConfigDescriptor,
    pub transfer_handler: Option<MockTransferCallback>,
    pub open_error: Option<String>,
    /// Kernel driver bindings that an opened handle starts from.
    pub kernel_drivers: Option<Vec<(u8, bool)>>,
    /// Claimed interfaces that an opened handle starts from.
    pub claimed_interfaces: Option<Vec<u8>>,
    pub manufacturer: String,
    pub product: String,
    pub serial_number: String,
}

/// An opened mock device.
pub struct MockUsbDeviceHandle {
    pub active_config: u8,
    pub claimed_interfaces: HashSet<u8>,
    pub kernel_drivers_active: HashMap<u8, bool>,
    pub manufacturer: String,
    pub product: String,
    pub serial_number: String,
    pub transfer_handler: Option<MockTransferCallback>,
    /// The claims, releases, detaches and attaches carried out, in order.
    pub driver_ops: Vec<DriverOp>,
    /// How many transfers were carried out, modulo 2^64.
    pub transfer_count: u64,
    /// The latest transfer.
    pub last_transfer: Option<TransferRecord>,
}

/// The map that the pairs `entries` describe, later pairs winning.
pub open spec fn pairs_map(entries: Seq<(u8, bool)>) -> Map<u8, bool>
    decreases entries.len(),
{
    if entries.len() == 0 {
        Map::empty()
    } else {
        pairs_map(entries.drop_last()).insert(entries.last().0, entries.last().1)
    }
}

fn copy_callback(c: &MockTransferCallback) -> (r: MockTransferCallback)
    ensures
        forall|a: Seq<char>| #[trigger] r.answer(a) == c.answer(a),
{
    let mut rules: Vec<MockTransferRule> = Vec::new();
    let mut i: usize = 0;
    while i < c.rules.len()
        invariant
            i <= c.rules@.len(),
            rules@.len() == i,
            forall|k: int| 0 <= k < i ==> #[trigger] rules@[k].action@ == c.rules@[k].action@,
            forall|k: int| 0 <= k < i ==> match (#[trigger] rules@[k]).response {
                Ok(v) => c.rules@[k].response matches Ok(w) && v@ == w@,
                Err(m) => c.rules@[k].response matches Err(n) && m@ == n@,
            },
        decreases c.rules@.len() - i,
    {
        let rule = &c.rules[i];
        let response = match &rule.response {
            Ok(v) => Ok(copy_bytes(v)),
            Err(m) => Err(m.clone()),
        };
        rules.push(MockTransferRule { action: rule.action.clone(), response });
        i = i + 1;
    }
    let r = MockTransferCallback { rules };
    assert forall|a: Seq<char>| #[trigger] r.answer(a) == c.answer(a) by {
        lemma_rule_answer_same(r.rules@, c.rules@, a);
    }
    r
}

/// Two rule tables with the same actions and the same responses answer alike.
proof fn lemma_rule_answer_same(x: Seq<MockTransferRule>, y: Seq<MockTransferRule>, a: Seq<char>)
    requires
        x.len() == y.len(),
        forall|k: int| 0 <= k < x.len() ==> #[trigger] x[k].action@ == y[k].action@,
        forall|k: int| 0 <= k < x.len() ==> match (#[trigger] x[k]).response {
            Ok(v) => y[k].response matches Ok(w) && v@ == w@,
            Err(m) => y[k].response matches Err(n) && m@ == n@,
        },
    ensures
        rule_answer(x, a) == rule_answer(y, a),
    decreases x.len(),
{
    if x.len() > 0 {
        assert(x[0].action@ == y[0].action@);
        let x1 = x.drop_first();
        let y1 = y.drop_first();
        assert forall|k: int| 0 <= k < x1.len() implies #[trigger] x1[k].action@ == y1[k].action@ by {
            assert(x1[k] == x[k + 1]);
            assert(y1[k] == y[k + 1]);
        }
        assert forall|k: int| 0 <= k < x1.len() implies match (#[trigger] x1[k]).response {
            Ok(v) => y1[k].response matches Ok(w) && v@ == w@,
            Err(m) => y1[k].response matches Err(n) && m@ == n@,
        } by {
            assert(x1[k] == x[k + 1]);
            assert(y1[k] == y[k + 1]);
        }
        lemma_rule_answer_same(x1, y1, a);
        match x[0].response {
            Ok(v) => {}
            Err(m) => {}
        }
    }
}

/// A fresh copy of a configuration descriptor.
pub fn copy_config(c: &UsbConfigDescriptor) -> (r: UsbConfigDescriptor)
    ensures
        r@ == c@,
{
    let mut interfaces: Vec<UsbInterfaceDescriptor> = Vec::new();
    let mut i: usize = 0;
    while i < c.interfaces.len()
        invariant
            i <= c.interfaces@.len(),
            interfaces@.len() == i,
            forall|k: int| 0 <= k < i ==> (#[trigger] interfaces@[k])@ == c.interfaces@[k]@,
        decreases c.interfaces@.len() - i,
    {
        let iface = &c.interfaces[i];
        let mut settings: Vec<UsbInterfaceSettingDescriptor> = Vec::new();
        let mut j: usize = 0;
        while j < iface.settings.len()
            invariant
                j <= iface.settings@.len(),
                settings@.len() == j,
                forall|k: int| 0 <= k < j ==> (#[trigger] settings@[k])@ == iface.settings@[k]@,
            decreases iface.settings@.len() - j,
        {
            let s = &iface.settings[j];
            let mut endpoints = Vec::new();
            let mut e: usize = 0;
            while e < s.endpoints.len()
                invariant
                    e <= s.endpoints@.len(),
                    endpoints@ == s.endpoints@.take(e as int),
                decreases s.endpoints@.len() - e,
            {
                endpoints.push(s.endpoints[e]);
                e = e + 1;
                assert(s.endpoints@.take(e as int) =~= s.endpoints@.take(e - 1).push(s.endpoints@[e - 1]));
            }
            assert(s.endpoints@.take(e as int) =~= s.endpoints@);
            settings.push(UsbInterfaceSettingDescriptor {
                setting_number: s.setting_number,
                class_code: s.class_code,
                sub_class_code: s.sub_class_code,
                protocol_code: s.protocol_code,
                endpoints,
            });
            j = j + 1;
        }
        let copied = UsbInterfaceDescriptor { interface_number: iface.interface_number, settings };
        assert(copied@.settings =~= iface@.settings);
        interfaces.push(copied);
        i = i + 1;
    }
    let r = UsbConfigDescriptor {
        num_interfaces: c.num_interfaces,
        configuration_value: c.configuration_value,
        max_power: c.max_power,
        self_powered: c.self_powered,
        remote_wakeup: c.remote_wakeup,
        interfaces,
    };
    assert(r@.interfaces =~= c@.interfaces);
    r
}

/// The name under which a mock device looks up a control transfer, such as
/// `control_read:128:6:256:0`.
pub open spec fn control_action(kind: Seq<char>, request_type: u8, request: u8, value: u16, index: u16) -> Seq<char> {
    kind + ":"@ + decimal(request_type as nat) + ":"@ + decimal(request as nat) + ":"@
        + decimal(value as nat) + ":"@ + decimal(index as nat)
}

/// The name under which a mock device looks up a bulk or interrupt transfer, such as
/// `bulk_read:129`.
pub open spec fn endpoint_action(kind: Seq<char>, endpoint: u8) -> Seq<char> {
    kind + ":"@ + decimal(endpoint as nat)
}

pub fn control_action_name(kind: &str, request_type: u8, request: u8, value: u16, index: u16) -> (s: String)
    ensures
        s@ == control_action(kind@, request_type, request, value, index),
{
    let mut s = String::new();
    push_str(&mut s, kind);
    push_str(&mut s, ":");
    push_decimal(&mut s, request_type as u32);
    push_str(&mut s, ":");
    push_decimal(&mut s, request as u32);
    push_str(&mut s, ":");
    push_decimal(&mut s, value as u32);
    push_str(&mut s, ":");
    push_decimal(&mut s, index as u32);
    s
}

pub fn endpoint_action_name(kind: &str, endpoint: u8) -> (s: String)
    ensures
        s@ == endpoint_action(kind@, endpoint),
{
    let mut s = String::new();
    push_str(&mut s, kind);
    push_str(&mut s, ":");
    push_decimal(&mut s, endpoint as u32);
    s
}

/// What a mock handle's read of `len` bytes under `action` returns: the number of bytes of the
/// canned answer that fit, or the canned error.
pub open spec fn mock_read_result(handler: Option<MockTransferCallback>, action: Seq<char>, len: nat) -> Result<nat, Seq<char>> {
    match handler {
        None => Ok(0),
        Some(h) => match h.answer(action) {
            Ok(v) => Ok(if v.len() < len { v.len() } else { len }),
            Err(m) => Err(m),
        },
    }
}

/// What a mock handle's write under `action` returns: the length of the canned answer, or the
/// canned error.
pub open spec fn mock_write_result(handler: Option<MockTransferCallback>, action: Seq<char>) -> Result<nat, Seq<char>> {
    match handler {
        None => Ok(0),
        Some(h) => match h.answer(action) {
            Ok(v) => Ok(v.len()),
            Err(m) => Err(m),
        },
    }
}

/// The bytes of the canned answer that a mock read copies into its buffer.
pub open spec fn mock_read_bytes(handler: Option<MockTransferCallback>, action: Seq<char>) -> Seq<u8> {
    match handler {
        None => Seq::empty(),
        Some(h) => match h.answer(action) {
            Ok(v) => v,
            Err(m) => Seq::empty(),
        },
    }
}

/// `r` is the result that the spec result `s` describes.
pub open spec fn matches_result(r: Result<usize, UsbError>, s: Result<nat, Seq<char>>) -> bool {
    match s {
        Ok(n) => r matches Ok(m) && m as nat == n,
        Err(msg) => r matches Err(e) && e.message@ == msg,
    }
}

impl MockUsbDeviceHandle {
    fn read_answer(&self, action: &String, buf: &mut [u8]) -> (r: Result<usize, UsbError>)
        ensures
            matches_result(r, mock_read_result(self.transfer_handler, action@, old(buf)@.len())),
            final(buf)@.len() == old(buf)@.len(),
            r matches Ok(n) ==> final(buf)@ == mock_read_bytes(self.transfer_handler, action@).take(n as int)
                + old(buf)@.skip(n as int),
            r is Err ==> final(buf)@ == old(buf)@,
    {
        match &self.transfer_handler {
            None => {
                assert(old(buf)@ =~= Seq::<u8>::empty().take(0) + old(buf)@.skip(0));
                Ok(0)
            },
            Some(h) => match h.respond(action) {
                Err(e) => Err(e),
                Ok(res) => {
                    let len = if res.len() < buf.len() { res.len() } else { buf.len() };
                    let mut i: usize = 0;
                    while i < len
                        invariant
                            len <= res@.len(),
                            len <= old(buf)@.len(),
                            buf@.len() == old(buf)@.len(),
                            i <= len,
                            forall|k: int| 0 <= k < i ==> buf@[k] == res@[k],
                            forall|k: int| len <= k < buf@.len() ==> buf@[k] == old(buf)@[k],
                        decreases len - i,
                    {
                        buf[i] = res[i];
                        i = i + 1;
                    }
                    assert(buf@ =~= res@.take(len as int) + old(buf)@.skip(len as int));
                    Ok(len)
                },
            },
        }
    }

    fn write_answer(&self, action: &String) -> (r: Result<usize, UsbError>)
        ensures
            matches_result(r, mock_write_result(self.transfer_handler, action@)),
    {
        match &self.transfer_handler {
            None => Ok(0),
            Some(h) => match h.respond(action) {
                Err(e) => Err(e),
                Ok(res) => Ok(res.len()),
            },
        }
    }

    /// Counts a transfer and records it as the latest.
    fn record_transfer(&mut self, plan: TransferPlan, timeout: Duration, sent: &[u8], r: &Result<usize, UsbError>, received: Vec<u8>)
        ensures
            final(self).transfer_count == next_count(old(self).transfer_count),
            final(self).last_transfer matches Some(t) && t.plan == plan && t.timeout == timeout && t.sent@ == sent@
                && same_result(t.result, *r) && t.received@ == received@,
            final(self).driver_ops == old(self).driver_ops,
            final(self).claimed_interfaces == old(self).claimed_interfaces,
            final(self).kernel_drivers_active == old(self).kernel_drivers_active,
            final(self).transfer_handler == old(self).transfer_handler,
            final(self).active_config == old(self).active_config,
    {
        let result = match r {
            Ok(n) => Ok(*n),
            Err(e) => Err(UsbError { message: e.message.clone() }),
        };
        self.transfer_count = if self.transfer_count == u64::MAX { 0 } else { self.transfer_count + 1 };
        self.last_transfer = Some(TransferRecord { plan, sent: copy_bytes(sent), timeout, result, received });
    }

    fn read_transfer(&mut self, plan: TransferPlan, timeout: Duration, action: &String, buf: &mut [u8]) -> (r: Result<usize, UsbError>)
        ensures
            matches_result(r, mock_read_result(old(self).transfer_handler, action@, old(buf)@.len())),
            final(buf)@.len() == old(buf)@.len(),
            r matches Ok(n) ==> final(buf)@ == mock_read_bytes(old(self).transfer_handler, action@).take(n as int)
                + old(buf)@.skip(n as int),
            r is Err ==> final(buf)@ == old(buf)@,
            final(self).transfer_count == next_count(old(self).transfer_count),
            final(self).last_transfer matches Some(t) && t.plan == plan && t.timeout == timeout && t.sent@ == Seq::<u8>::empty()
                && same_result(t.result, r) && t.received@ == match r {
                    Ok(n) => final(buf)@.take(n as int),
                    Err(_) => Seq::<u8>::empty(),
                },
            final(self).driver_ops == old(self).driver_ops,
            final(self).claimed_interfaces == old(self).claimed_interfaces,
            final(self).kernel_drivers_active == old(self).kernel_drivers_active,
            final(self).transfer_handler == old(self).transfer_handler,
    {
        let r = self.read_answer(action, buf);
        let received = match &r {
            Ok(n) => copy_bytes(vstd::slice::slice_subrange(buf, 0, *n)),
            Err(_) => Vec::new(),
        };
        self.record_transfer(plan, timeout, &[], &r, received);
        r
    }

    fn write_transfer(&mut self, plan: TransferPlan, timeout: Duration, action: &String, data: &[u8]) -> (r: Result<usize, UsbError>)
        ensures
            matches_result(r, mock_write_result(old(self).transfer_handler, action@)),
            final(self).transfer_count == next_count(old(self).transfer_count),
            final(self).last_transfer matches Some(t) && t.plan == plan && t.timeout == timeout && t.sent@ == data@
                && same_result(t.result, r) && t.received@ == Seq::<u8>::empty(),
            final(self).driver_ops == old(self).driver_ops,
            final(self).claimed_interfaces == old(self).claimed_interfaces,
            final(self).kernel_drivers_active == old(self).kernel_drivers_active,
            final(self).transfer_handler == old(self).transfer_handler,
    {
        let r = self.write_answer(action);
        self.record_transfer(plan, timeout, data, &r, Vec::new());
        r
    }
}

impl UsbDeviceHandle for MockUsbDeviceHandle {
    open spec fn spec_claimed(&self, interface: u8) -> bool {
        self.claimed_interfaces@.contains(interface)
    }

    open spec fn spec_driver_bound(&self, interface: u8) -> bool {
        if self.kernel_drivers_active@.contains_key(interface) {
            self.kernel_drivers_active@[interface]
        } else {
            true
        }
    }

    open spec fn spec_driver_ops(&self) -> Vec<DriverOp> {
        self.driver_ops
    }

    open spec fn spec_transfer_count(&self) -> u64 {
        self.transfer_count
    }

    open spec fn spec_last_transfer(&self) -> Option<TransferRecord> {
        self.last_transfer
    }

    open spec fn spec_manufacturer_string(&self, desc: UsbDeviceDescriptor) -> Option<String> {
        Some(self.manufacturer)
    }

    open spec fn spec_product_string(&self, desc: UsbDeviceDescriptor) -> Option<String> {
        Some(self.product)
    }

    open spec fn spec_serial_number_string(&self, desc: UsbDeviceDescriptor) -> Option<String> {
        Some(self.serial_number)
    }

    fn active_configuration(&self) -> (r: Result<u8, UsbError>)
        ensures
            r == Ok::<u8, UsbError>(self.active_config),
    {
        Ok(self.active_config)
    }

    fn set_active_configuration(&mut self, config: u8) -> (r: Result<(), UsbError>)
        ensures
            r is Ok,
            final(self).active_config == config,
    {
        self.active_config = config;
        Ok(())
    }

    fn claim_interface(&mut self, interface: u8) -> (r: Result<(), UsbError>)
        ensures
            r is Ok,
    {
        self.claimed_interfaces.insert(interface);
        self.driver_ops.push(DriverOp { kind: DriverOpKind::Claim, interface, ok: true });
        Ok(())
    }

    fn release_interface(&mut self, interface: u8) -> (r: Result<(), UsbError>)
        ensures
            r is Ok,
    {
        self.claimed_interfaces.remove(&interface);
        self.driver_ops.push(DriverOp { kind: DriverOpKind::Release, interface, ok: true });
        Ok(())
    }

    fn set_alternate_setting(&mut self, interface: u8, setting: u8) -> (r: Result<(), UsbError>)
        ensures
            r is Ok,
    {
        Ok(())
    }

    fn detach_kernel_driver(&mut self, interface: u8) -> (r: Result<(), UsbError>)
        ensures
            r is Ok,
    {
        self.kernel_drivers_active.insert(interface, false);
        self.driver_ops.push(DriverOp { kind: DriverOpKind::Detach, interface, ok: true });
        Ok(())
    }

    fn attach_kernel_driver(&mut self, interface: u8) -> (r: Result<(), UsbError>)
        ensures
            r is Ok,
    {
        self.kernel_drivers_active.insert(interface, true);
        self.driver_ops.push(DriverOp { kind: DriverOpKind::Attach, interface, ok: true });
        Ok(())
    }

    fn kernel_driver_active(&self, interface: u8) -> (r: Result<bool, UsbError>)
        ensures
            r is Ok,
    {
        match self.kernel_drivers_active.get(&interface) {
            Some(b) => Ok(*b),
            None => Ok(true),
        }
    }

    fn read_control(
        &mut self,
        request_type: u8,
        request: u8,
        value: u16,
        index: u16,
        buf: &mut [u8],
        timeout: Duration,
    ) -> (r: Result<usize, UsbError>)
        ensures
            matches_result(r, mock_read_result(old(self).transfer_handler,
                control_action("control_read"@, request_type, request, value, index), old(buf)@.len())),
            r matches Ok(n) ==> final(buf)@ == mock_read_bytes(old(self).transfer_handler,
                control_action("control_read"@, request_type, request, value, index)).take(n as int)
                + old(buf)@.skip(n as int),
            r is Err ==> final(buf)@ == old(buf)@,
    {
        let action = control_action_name("control_read", request_type, request, value, index);
        let plan = TransferPlan::ControlRead { request_type, request, value, index, length: buf.len() };
        self.read_transfer(plan, timeout, &action, buf)
    }

    fn write_control(
        &mut self,
        request_type: u8,
        request: u8,
        value: u16,
        index: u16,
        data: &[u8],
        timeout: Duration,
    ) -> (r: Result<usize, UsbError>)
        ensures
            matches_result(r, mock_write_result(old(self).transfer_handler,
                control_action("control_write"@, request_type, request, value, index))),
    {
        let action = control_action_name("control_write", request_type, request, value, index);
        self.write_transfer(TransferPlan::ControlWrite { request_type, request, value, index }, timeout, &action, data)
    }

    fn read_bulk(&mut self, endpoint: u8, buf: &mut [u8], timeout: Duration) -> (r: Result<usize, UsbError>)
        ensures
            matches_result(r, mock_read_result(old(self).transfer_handler, endpoint_action("bulk_read"@, endpoint), old(buf)@.len())),
            r matches Ok(n) ==> final(buf)@ == mock_read_bytes(old(self).transfer_handler,
                endpoint_action("bulk_read"@, endpoint)).take(n as int) + old(buf)@.skip(n as int),
            r is Err ==> final(buf)@ == old(buf)@,
    {
        let action = endpoint_action_name("bulk_read", endpoint);
        let plan = TransferPlan::BulkRead { endpoint, length: buf.len() };
        self.read_transfer(plan, timeout, &action, buf)
    }

    fn write_bulk(&mut self, endpoint: u8, data: &[u8], timeout: Duration) -> (r: Result<usize, UsbError>)
        ensures
            matches_result(r, mock_write_result(old(self).transfer_handler, endpoint_action("bulk_write"@, endpoint))),
    {
        let action = endpoint_action_name("bulk_write", endpoint);
        self.write_transfer(TransferPlan::BulkWrite { endpoint }, timeout, &action, data)
    }

    fn read_interrupt(&mut self, endpoint: u8, buf: &mut [u8], timeout: Duration) -> (r: Result<usize, UsbError>)
        ensures
            matches_result(r, mock_read_result(old(self).transfer_handler, endpoint_action("interrupt_read"@, endpoint), old(buf)@.len())),
            r matches Ok(n) ==> final(buf)@ == mock_read_bytes(old(self).transfer_handler,
                endpoint_action("interrupt_read"@, endpoint)).take(n as int) + old(buf)@.skip(n as int),
            r is Err ==> final(buf)@ == old(buf)@,
    {
        let action = endpoint_action_name("interrupt_read", endpoint);
        let plan = TransferPlan::InterruptRead { endpoint, length: buf.len() };
        self.read_transfer(plan, timeout, &action, buf)
    }

    fn write_interrupt(&mut self, endpoint: u8, data: &[u8], timeout: Duration) -> (r: Result<usize, UsbError>)
        ensures
            matches_result(r, mock_write_result(old(self).transfer_handler, endpoint_action("interrupt_write"@, endpoint))),
    {
        let action = endpoint_action_name("interrupt_write", endpoint);
        self.write_transfer(TransferPlan::InterruptWrite { endpoint }, timeout, &action, data)
    }

    fn read_manufacturer_string(&self, desc: &UsbDeviceDescriptor) -> (r: Result<String, UsbError>)
        ensures
            r matches Ok(s) && s@ == self.manufacturer@,
    {
        Ok(self.manufacturer.clone())
    }

    fn read_product_string(&self, desc: &UsbDeviceDescriptor) -> (r: Result<String, UsbError>)
        ensures
            r matches Ok(s) && s@ == self.product@,
    {
        Ok(self.product.clone())
    }

    fn read_serial_number_string(&self, desc: &UsbDeviceDescriptor) -> (r: Result<String, UsbError>)
        ensures
            r matches Ok(s) && s@ == self.serial_number@,
    {
        Ok(self.serial_number.clone())
    }
}

impl UsbDevice for MockUsbDevice {
    type Handle = MockUsbDeviceHandle;

    open spec fn spec_bus_number(&self) -> u8 {
        self.bus_num
    }

    open spec fn spec_address(&self) -> u8 {
        self.dev_addr
    }

    open spec fn spec_speed(&self) -> UsbSpeed {
        self.dev_speed
    }

    open spec fn spec_device_descriptor(&self) -> Option<UsbDeviceDescriptor> {
        Some(self.descriptor)
    }

    open spec fn spec_config_descriptor(&self, index: u8) -> Option<UsbConfigDescriptor> {
        Some(self.config_descriptor)
    }

    fn bus_number(&self) -> (r: u8) {
        self.bus_num
    }

    fn address(&self) -> (r: u8) {
        self.dev_addr
    }

    fn speed(&self) -> (r: UsbSpeed) {
        self.dev_speed
    }

    fn device_descriptor(&self) -> (r: Result<UsbDeviceDescriptor, UsbError>) {
        Ok(self.descriptor)
    }

    fn config_descriptor(&self, index: u8) -> (r: Result<UsbConfigDescriptor, UsbError>) {
        Ok(copy_config(&self.config_descriptor))
    }

    fn open(&self) -> (r: Result<MockUsbDeviceHandle, UsbError>)
        ensures
            r is Err <==> self.open_error is Some,
            r matches Err(e) ==> self.open_error matches Some(m) && e.message@ == m@,
            r matches Ok(h) ==> {
                &&& h.active_config == 1
                &&& h.claimed_interfaces@ == match self.claimed_interfaces {
                    Some(v) => v@.to_set(),
                    None => Set::<u8>::empty(),
                }
                &&& h.kernel_drivers_active@ == match self.kernel_drivers {
                    Some(v) => pairs_map(v@),
                    None => Map::<u8, bool>::empty(),
                }
                &&& h.manufacturer@ == self.manufacturer@
                &&& h.product@ == self.product@
                &&& h.serial_number@ == self.serial_number@
                &&& (h.transfer_handler is Some <==> self.transfer_handler is Some)
                &&& forall|a: Seq<char>| #[trigger] mock_read_bytes(h.transfer_handler, a)
                    == mock_read_bytes(self.transfer_handler, a)
                &&& forall|a: Seq<char>, n: nat| #[trigger] mock_read_result(h.transfer_handler, a, n)
                    == mock_read_result(self.transfer_handler, a, n)
                &&& forall|a: Seq<char>| #[trigger] mock_write_result(h.transfer_handler, a)
                    == mock_write_result(self.transfer_handler, a)
            },
    {
        if let Some(msg) = &self.open_error {
            return Err(UsbError { message: msg.clone() });
        }
        let mut kernel_drivers_active: HashMap<u8, bool> = HashMap::new();
        if let Some(entries) = &self.kernel_drivers {
            let mut i: usize = 0;
            while i < entries.len()
                invariant
                    i <= entries@.len(),
                    kernel_drivers_active@ == pairs_map(entries@.take(i as int)),
                decreases entries@.len() - i,
            {
                let (k, v) = entries[i];
                kernel_drivers_active.insert(k, v);
                i = i + 1;
                assert(entries@.take(i as int).drop_last() =~= entries@.take(i - 1));
            }
            assert(entries@.take(i as int) =~= entries@);
        }
        let mut claimed_interfaces: HashSet<u8> = HashSet::new();
        if let Some(entries) = &self.claimed_interfaces {
            let mut i: usize = 0;
            while i < entries.len()
                invariant
                    i <= entries@.len(),
                    claimed_interfaces@ == entries@.take(i as int).to_set(),
                decreases entries@.len() - i,
            {
                claimed_interfaces.insert(entries[i]);
                i = i + 1;
                assert(entries@.take(i as int) =~= entries@.take(i - 1).push(entries@[i - 1]));
                proof {
                    entries@.take(i - 1).lemma_push_to_set_commute(entries@[i - 1]);
                }
            }
            assert(entries@.take(i as int) =~= entries@);
        }
        let transfer_handler = match &self.transfer_handler {
            Some(h) => Some(copy_callback(h)),
            None => None,
        };
        Ok(MockUsbDeviceHandle {
            active_config: 1,
            claimed_interfaces,
            kernel_drivers_active,
            manufacturer: self.manufacturer.clone(),
            product: self.product.clone(),
            serial_number: self.serial_number.clone(),
            transfer_handler,
            driver_ops: Vec::new(),
            transfer_count: 0,
            last_transfer: None,
        })
    }
}

} // verus!

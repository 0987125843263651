use std::sync::Arc;
use iroh_usbip::engine::{serve_handshake, HandshakeOutcome, SessionError, TransferPlan};
use iroh_usbip::protocol::{
    encode_response, pad_string, parse_handshake_request, parse_transfer_request,
    transfer_payload_lengths, UsbipIsoPacketDescriptor, UsbipRequest, UsbipResponse,
};
use iroh_usbip::{
    DriverOpKind, HostDeviceRegistry, MockTransferCallback, MockTransferRule, MockUsbDevice, UsbConfigDescriptor,
    UsbDeviceDescriptor, UsbInterfaceDescriptor, UsbInterfaceSettingDescriptor, UsbSpeed,
};

fn device() -> MockUsbDevice {
    MockUsbDevice {
        bus_num: 1,
        dev_addr: 2,
        dev_speed: UsbSpeed::High,
        descriptor: UsbDeviceDescriptor {
            vendor_id: 0x1234,
            product_id: 0x5678,
            device_class: 0x00,
            device_subclass: 0x00,
            device_protocol: 0x00,
            max_packet_size_0: 64,
            num_configurations: 1,
            usb_version: (2, 0),
            device_version: (1, 0),
            manufacturer_string_index: Some(1),
            product_string_index: Some(2),
            serial_number_string_index: Some(3),
        },
        config_descriptor: UsbConfigDescriptor {
            num_interfaces: 1,
            configuration_value: 1,
            max_power: 500,
            self_powered: true,
            remote_wakeup: false,
            interfaces: vec![],
        },
        transfer_handler: None,
        open_error: None,
        kernel_drivers: None,
        claimed_interfaces: None,
        manufacturer: "Mock Manufacturer".to_string(),
        product: "Mock Product".to_string(),
        serial_number: "Mock Serial".to_string(),
    }
}

fn handshake(registry: &HostDeviceRegistry<MockUsbDevice>, bytes: &[u8]) -> Result<HandshakeOutcome<MockUsbDevice>, SessionError> {
    let mut header = [0u8; 8];
    header.copy_from_slice(&bytes[..8]);
    let req = parse_handshake_request(&header, &bytes[8..]).unwrap();
    serve_handshake(registry, req)
}

fn import_bytes(busid: &str) -> Vec<u8> {
    let mut req = vec![0x01, 0x11, 0x80, 0x03, 0x00, 0x00, 0x00, 0x00];
    req.extend_from_slice(&pad_string(busid, 32));
    req
}

fn reply_bytes(outcome: &HandshakeOutcome<MockUsbDevice>) -> Vec<u8> {
    match outcome {
        HandshakeOutcome::Close(resp) => encode_response(resp),
        HandshakeOutcome::Imported { reply, .. } => encode_response(reply),
    }
}

#[test]
fn op_requests_test_op_req_devlist() {
    let registry = HostDeviceRegistry::new_static(vec![Arc::new(device())]);
    let outcome = handshake(&registry, &[0x01, 0x11, 0x80, 0x05, 0, 0, 0, 0]).unwrap();
    assert!(matches!(outcome, HandshakeOutcome::Close(_)));
    let bytes = reply_bytes(&outcome);
    assert_eq!(&bytes[0..2], &[0x01, 0x11]);
    assert_eq!(&bytes[2..4], &[0x00, 0x05]);
    assert_eq!(&bytes[4..8], &[0x00, 0x00, 0x00, 0x00]);
    assert_eq!(u32::from_be_bytes([bytes[8], bytes[9], bytes[10], bytes[11]]), 1);
    let udev = &bytes[12..12 + 312];
    assert_eq!(u16::from_be_bytes([udev[300], udev[301]]), 0x1234);
    assert_eq!(u16::from_be_bytes([udev[302], udev[303]]), 0x5678);
    assert_eq!(&udev[256..259], b"1-2");
    assert_eq!(&udev[0..26], b"/sys/devices/mock/usb1/1-2");
}

#[test]
fn op_requests_test_op_req_import() {
    let registry = HostDeviceRegistry::new_static(vec![Arc::new(device())]);
    let outcome = handshake(&registry, &import_bytes("1-2")).unwrap();
    let bytes = reply_bytes(&outcome);
    assert!(matches!(outcome, HandshakeOutcome::Imported { .. }));
    assert_eq!(&bytes[0..8], &[0x01, 0x11, 0x00, 0x03, 0, 0, 0, 0]);
    assert_eq!(bytes.len(), 8 + 312);
    assert_eq!(u16::from_be_bytes([bytes[8 + 300], bytes[8 + 301]]), 0x1234);
    assert_eq!(u16::from_be_bytes([bytes[8 + 302], bytes[8 + 303]]), 0x5678);
}

#[test]
fn op_requests_test_op_req_import_device_busy() {
    let mut dev = device();
    dev.open_error = Some("device is busy".to_string());
    let registry = HostDeviceRegistry::new_static(vec![Arc::new(dev)]);
    let outcome = handshake(&registry, &import_bytes("1-2")).unwrap();
    assert_eq!(reply_bytes(&outcome), vec![0x01, 0x11, 0x00, 0x03, 0, 0, 0, 2]);
}

#[test]
fn op_requests_test_op_req_import_device_not_available() {
    let mut dev = device();
    dev.open_error = Some("general permission/hardware error".to_string());
    let registry = HostDeviceRegistry::new_static(vec![Arc::new(dev)]);
    let outcome = handshake(&registry, &import_bytes("1-2")).unwrap();
    assert_eq!(reply_bytes(&outcome), vec![0x01, 0x11, 0x00, 0x03, 0, 0, 0, 1]);
}

#[test]
fn import_of_unknown_bus_id_is_refused() {
    let registry = HostDeviceRegistry::new_static(vec![Arc::new(device())]);
    let outcome = handshake(&registry, &import_bytes("9-9")).unwrap();
    assert!(matches!(outcome, HandshakeOutcome::Close(UsbipResponse::Import { status: 1, device: None })));
}

#[test]
fn transfer_command_during_handshake_is_refused() {
    let registry = HostDeviceRegistry::new_static(vec![Arc::new(device())]);
    let req = UsbipRequest::Unlink {
        basic: iroh_usbip::protocol::UsbipHeaderBasic { command: 2, seqnum: 1, devid: 0, direction: 0, ep: 0 },
        unlink: iroh_usbip::protocol::UsbipHeaderCmdUnlink { unlink_seqnum: 0 },
    };
    assert!(matches!(serve_handshake(&registry, req), Err(SessionError::InvalidHandshakeRequest)));
}

fn submit_bytes(seqnum: u32, direction: u32, ep: u32, len: i32, setup: [u8; 8], iso: &[UsbipIsoPacketDescriptor]) -> Vec<u8> {
    let mut cmd = Vec::new();
    cmd.extend_from_slice(&0x0001u32.to_be_bytes());
    cmd.extend_from_slice(&seqnum.to_be_bytes());
    cmd.extend_from_slice(&0x00010002u32.to_be_bytes());
    cmd.extend_from_slice(&direction.to_be_bytes());
    cmd.extend_from_slice(&ep.to_be_bytes());
    cmd.extend_from_slice(&0u32.to_be_bytes());
    cmd.extend_from_slice(&len.to_be_bytes());
    cmd.extend_from_slice(&0i32.to_be_bytes());
    cmd.extend_from_slice(&(iso.len() as i32).to_be_bytes());
    cmd.extend_from_slice(&0i32.to_be_bytes());
    cmd.extend_from_slice(&setup);
    for d in iso {
        cmd.extend_from_slice(&d.to_bytes());
    }
    cmd
}

fn unlink_bytes(seqnum: u32, unlink_seqnum: u32) -> Vec<u8> {
    let mut cmd = Vec::new();
    cmd.extend_from_slice(&0x0002u32.to_be_bytes());
    cmd.extend_from_slice(&seqnum.to_be_bytes());
    cmd.extend_from_slice(&0x00010002u32.to_be_bytes());
    cmd.extend_from_slice(&0u32.to_be_bytes());
    cmd.extend_from_slice(&0u32.to_be_bytes());
    cmd.extend_from_slice(&unlink_seqnum.to_be_bytes());
    cmd.extend_from_slice(&[0; 24]);
    cmd
}

fn transfer(session: &mut iroh_usbip::engine::ImportedDevice<MockUsbDevice>, bytes: &[u8]) -> Vec<u8> {
    let header = &bytes[..48];
    let (d, i) = transfer_payload_lengths(header).unwrap();
    let req = parse_transfer_request(header, &bytes[48..48 + d], &bytes[48 + d..48 + d + i]).unwrap();
    encode_response(&session.serve(req).unwrap())
}

fn import(dev: MockUsbDevice) -> iroh_usbip::engine::ImportedDevice<MockUsbDevice> {
    let registry = HostDeviceRegistry::new_static(vec![Arc::new(dev)]);
    match handshake(&registry, &import_bytes("1-2")).unwrap() {
        HandshakeOutcome::Imported { session, .. } => session,
        HandshakeOutcome::Close(r) => panic!("not imported: {:?}", r),
    }
}

#[test]
fn transfers_test_urb_transfer() {
    let mut dev = device();
    dev.transfer_handler = Some(MockTransferCallback::new(vec![MockTransferRule {
        action: "control_read:128:6:256:0".to_string(),
        response: Ok(vec![0x12, 0x34, 0x56, 0x78]),
    }]));
    let mut session = import(dev);
    let ret = transfer(&mut session, &submit_bytes(10, 1, 0, 4, [0x80, 0x06, 0x00, 0x01, 0x00, 0x00, 0x04, 0x00], &[]));
    assert_eq!(u32::from_be_bytes([ret[0], ret[1], ret[2], ret[3]]), 3);
    assert_eq!(u32::from_be_bytes([ret[4], ret[5], ret[6], ret[7]]), 10);
    assert_eq!(i32::from_be_bytes([ret[20], ret[21], ret[22], ret[23]]), 0);
    assert_eq!(i32::from_be_bytes([ret[24], ret[25], ret[26], ret[27]]), 4);
    assert_eq!(i32::from_be_bytes([ret[32], ret[33], ret[34], ret[35]]), 0);
    assert_eq!(&ret[48..], &[0x12, 0x34, 0x56, 0x78]);
}

#[test]
fn transfers_test_urb_unlink() {
    let mut session = import(device());
    let ret = transfer(&mut session, &unlink_bytes(20, 10));
    assert_eq!(ret.len(), 48);
    assert_eq!(u32::from_be_bytes([ret[0], ret[1], ret[2], ret[3]]), 4);
    assert_eq!(u32::from_be_bytes([ret[4], ret[5], ret[6], ret[7]]), 20);
    assert_eq!(i32::from_be_bytes([ret[20], ret[21], ret[22], ret[23]]), -104);
}

#[test]
fn transfers_test_isochronous_transfer_dummy_handling() {
    let mut dev = device();
    dev.transfer_handler = Some(MockTransferCallback::new(vec![MockTransferRule {
        action: "bulk_read:129".to_string(),
        response: Ok(vec![0xAA; 64]),
    }]));
    let mut session = import(dev);
    let desc1 = UsbipIsoPacketDescriptor { offset: 0, length: 32, actual_length: 0, status: 0 };
    let desc2 = UsbipIsoPacketDescriptor { offset: 32, length: 32, actual_length: 0, status: 0 };
    let ret = transfer(&mut session, &submit_bytes(10, 1, 1, 64, [0; 8], &[desc1, desc2]));
    assert_eq!(u32::from_be_bytes([ret[4], ret[5], ret[6], ret[7]]), 10);
    assert_eq!(i32::from_be_bytes([ret[20], ret[21], ret[22], ret[23]]), 0);
    assert_eq!(i32::from_be_bytes([ret[24], ret[25], ret[26], ret[27]]), 64);
    assert_eq!(i32::from_be_bytes([ret[32], ret[33], ret[34], ret[35]]), 2);
    assert_eq!(&ret[48..112], &[0xAA; 64][..]);
    let mut b1 = [0u8; 16];
    b1.copy_from_slice(&ret[112..128]);
    let mut b2 = [0u8; 16];
    b2.copy_from_slice(&ret[128..144]);
    let r1 = UsbipIsoPacketDescriptor::from_bytes(b1);
    let r2 = UsbipIsoPacketDescriptor::from_bytes(b2);
    assert_eq!((r1.offset, r1.length, r1.actual_length, r1.status), (0, 32, 32, 0));
    assert_eq!((r2.offset, r2.length, r2.actual_length, r2.status), (32, 32, 32, 0));

    let ret = transfer(&mut session, &unlink_bytes(20, 10));
    assert_eq!(u32::from_be_bytes([ret[0], ret[1], ret[2], ret[3]]), 4);
    assert_eq!(u32::from_be_bytes([ret[4], ret[5], ret[6], ret[7]]), 20);
}

#[test]
fn lifecycle_test_driver_detachment_lifecycle() {
    let iface = |n: u8| UsbInterfaceDescriptor {
        interface_number: n,
        settings: vec![UsbInterfaceSettingDescriptor {
            setting_number: 0,
            class_code: 0,
            sub_class_code: 0,
            protocol_code: 0,
            endpoints: vec![],
        }],
    };
    let mut dev = device();
    dev.config_descriptor = UsbConfigDescriptor {
        num_interfaces: 2,
        configuration_value: 1,
        max_power: 500,
        self_powered: true,
        remote_wakeup: false,
        interfaces: vec![iface(0), iface(1)],
    };
    dev.kernel_drivers = Some(vec![(0, true), (1, true)]);
    let session = import(dev);
    assert_eq!(session.handle.kernel_drivers_active.get(&0), Some(&false));
    assert_eq!(session.handle.kernel_drivers_active.get(&1), Some(&false));
    assert!(session.handle.claimed_interfaces.contains(&0));
    assert!(session.handle.claimed_interfaces.contains(&1));

    let (handle, report) = session.close();
    assert!(report.release_failed.is_empty() && report.reattach_failed.is_empty());
    assert_eq!(handle.kernel_drivers_active.get(&0), Some(&true));
    assert_eq!(handle.kernel_drivers_active.get(&1), Some(&true));
    assert!(!handle.claimed_interfaces.contains(&0));
    assert!(!handle.claimed_interfaces.contains(&1));
}

#[test]
fn driver_operations_are_logged_in_order() {
    let iface = |n: u8| UsbInterfaceDescriptor {
        interface_number: n,
        settings: vec![UsbInterfaceSettingDescriptor {
            setting_number: 0,
            class_code: 0,
            sub_class_code: 0,
            protocol_code: 0,
            endpoints: vec![],
        }],
    };
    let mut dev = device();
    dev.config_descriptor.num_interfaces = 2;
    dev.config_descriptor.interfaces = vec![iface(0), iface(1)];
    dev.kernel_drivers = Some(vec![(0, true), (1, false)]);
    let session = import(dev);
    let kinds: Vec<(DriverOpKind, u8, bool)> =
        session.handle.driver_ops.iter().map(|o| (o.kind, o.interface, o.ok)).collect();
    assert_eq!(
        kinds,
        vec![(DriverOpKind::Detach, 0, true), (DriverOpKind::Claim, 0, true), (DriverOpKind::Claim, 1, true)]
    );
    assert_eq!(session.guard.detached_interfaces, vec![0]);
    assert_eq!(session.guard.claimed_interfaces, vec![0, 1]);
    let (handle, _) = session.close();
    let kinds: Vec<(DriverOpKind, u8, bool)> = handle.driver_ops.iter().map(|o| (o.kind, o.interface, o.ok)).collect();
    assert_eq!(
        &kinds[3..],
        &[(DriverOpKind::Release, 0, true), (DriverOpKind::Release, 1, true), (DriverOpKind::Attach, 0, true)]
    );
}

#[test]
fn transfers_are_recorded_and_unlink_touches_nothing() {
    let mut dev = device();
    dev.transfer_handler = Some(MockTransferCallback::new(vec![MockTransferRule {
        action: "control_read:128:6:256:0".to_string(),
        response: Ok(vec![0xAA, 0xBB]),
    }]));
    let mut session = import(dev);
    transfer(&mut session, &submit_bytes(1, 1, 0, 64, [0x80, 6, 0, 1, 0, 0, 0x40, 0], &[]));
    assert_eq!(session.handle.transfer_count, 1);
    let t = session.handle.last_transfer.as_ref().unwrap();
    assert_eq!(t.plan, TransferPlan::ControlRead { request_type: 0x80, request: 6, value: 0x0100, index: 0, length: 64 });
    assert_eq!(t.received, vec![0xAA, 0xBB]);
    assert_eq!(t.timeout, std::time::Duration::from_secs(5));
    assert!(matches!(t.result, Ok(2)));
    transfer(&mut session, &unlink_bytes(2, 1));
    assert_eq!(session.handle.transfer_count, 1);
}

#[test]
fn session_error_messages() {
    assert_eq!(SessionError::InvalidHandshakeRequest.message(), "Invalid handshake phase request");
    assert_eq!(SessionError::InvalidTransferRequest.message(), "Invalid transfer phase request");
}

#[test]
fn take_over_detaches_only_where_a_driver_is_bound() {
    let mut dev = device();
    dev.kernel_drivers = Some(vec![(3, true)]);
    let mut handle = iroh_usbip::UsbDevice::open(&dev).unwrap();
    let bound: Result<bool, iroh_usbip::UsbError> = Ok(true);
    assert_eq!(iroh_usbip::engine::take_over_interface(&mut handle, 3, &bound), (true, true));
    assert_eq!(handle.kernel_drivers_active.get(&3), Some(&false));
    let free: Result<bool, iroh_usbip::UsbError> = Ok(false);
    assert_eq!(iroh_usbip::engine::take_over_interface(&mut handle, 4, &free), (false, true));
    let kinds: Vec<DriverOpKind> = handle.driver_ops.iter().map(|o| o.kind).collect();
    assert_eq!(kinds, vec![DriverOpKind::Detach, DriverOpKind::Claim, DriverOpKind::Claim]);
}

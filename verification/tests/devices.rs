use iroh_usbip::engine::{
    claim_device_interfaces, release_device_interfaces, TransferPlan, TransferRunner,
};
use iroh_usbip::protocol::{UsbipHeaderBasic, UsbipHeaderCmdSubmit, UsbipHeaderCmdUnlink, UsbipIsoPacketDescriptor, UsbipRequest, UsbipResponse, USBIP_CMD_SUBMIT};
use iroh_usbip::{
    MockTransferCallback, MockTransferRule, MockUsbDevice, UsbConfigDescriptor, UsbDevice,
    UsbDeviceDescriptor, UsbDeviceHandle, UsbDirection, UsbEndpointDescriptor, UsbInterfaceDescriptor,
    UsbInterfaceSettingDescriptor, UsbSpeed, UsbTransferType,
};

fn descriptor() -> UsbDeviceDescriptor {
    UsbDeviceDescriptor {
        vendor_id: 0x1234,
        product_id: 0x5678,
        device_class: 0,
        device_subclass: 0,
        device_protocol: 0,
        max_packet_size_0: 64,
        num_configurations: 1,
        usb_version: (2, 0),
        device_version: (1, 0),
        manufacturer_string_index: Some(1),
        product_string_index: Some(2),
        serial_number_string_index: Some(3),
    }
}

fn empty_config() -> UsbConfigDescriptor {
    UsbConfigDescriptor {
        num_interfaces: 1,
        configuration_value: 1,
        max_power: 500,
        self_powered: true,
        remote_wakeup: false,
        interfaces: vec![],
    }
}

fn mock(config: UsbConfigDescriptor, handler: Option<MockTransferCallback>) -> MockUsbDevice {
    MockUsbDevice {
        bus_num: 1,
        dev_addr: 2,
        dev_speed: UsbSpeed::High,
        descriptor: descriptor(),
        config_descriptor: config,
        transfer_handler: handler,
        open_error: None,
        kernel_drivers: None,
        claimed_interfaces: None,
        manufacturer: "Mock Manufacturer".to_string(),
        product: "Mock Product".to_string(),
        serial_number: "Mock Serial".to_string(),
    }
}

fn rule(action: &str, response: Result<Vec<u8>, String>) -> MockTransferRule {
    MockTransferRule { action: action.to_string(), response }
}

#[test]
fn test_mock_device() {
    let desc = descriptor();
    let config = UsbConfigDescriptor {
        num_interfaces: 1,
        configuration_value: 1,
        max_power: 500,
        self_powered: true,
        remote_wakeup: false,
        interfaces: vec![],
    };
    let dev = MockUsbDevice {
        bus_num: 1,
        dev_addr: 2,
        dev_speed: UsbSpeed::High,
        descriptor: desc.clone(),
        config_descriptor: config,
        transfer_handler: None,
        open_error: None,
        kernel_drivers: None,
        claimed_interfaces: None,
        manufacturer: "Mock Manufacturer".to_string(),
        product: "Mock Product".to_string(),
        serial_number: "Mock Serial".to_string(),
    };

    assert_eq!(dev.bus_number(), 1);
    assert_eq!(dev.address(), 2);
    assert_eq!(dev.speed(), UsbSpeed::High);
    assert_eq!(dev.device_descriptor().unwrap(), desc);

    let handle = dev.open().unwrap();
    assert_eq!(handle.active_configuration().unwrap(), 1);
    assert_eq!(handle.read_manufacturer_string(&desc).unwrap(), "Mock Manufacturer");
    assert_eq!(handle.read_product_string(&desc).unwrap(), "Mock Product");
    assert_eq!(handle.read_serial_number_string(&desc).unwrap(), "Mock Serial");
}

fn control_read_request(seqnum: u32, length: i32, setup: [u8; 8]) -> UsbipRequest {
    UsbipRequest::Submit {
        basic: UsbipHeaderBasic { command: USBIP_CMD_SUBMIT, seqnum, devid: 2, direction: 1, ep: 0 },
        submit: UsbipHeaderCmdSubmit {
            transfer_flags: 0,
            transfer_buffer_length: length,
            start_frame: 0,
            number_of_packets: 0,
            interval: 0,
            setup,
        },
        data: vec![],
        iso_descriptors: vec![],
    }
}

#[test]
fn test_transfer_runner_control_read() {
    let callback = MockTransferCallback::new(vec![rule("control_read:128:6:256:0", Ok(vec![0xAA, 0xBB]))]);
    let dev = mock(empty_config(), Some(callback));

    let mut handle = dev.open().unwrap();
    let mut runner = TransferRunner::new(&dev, &mut handle);

    let req = control_read_request(1, 2, [128, 6, 0, 1, 0, 0, 2, 0]);

    let resp = runner.execute(req).unwrap();
    if let UsbipResponse::Submit { basic: _, submit, data, iso_descriptors: _ } = resp {
        assert_eq!(submit.status, 0);
        assert_eq!(submit.actual_length, 2);
        assert_eq!(data, vec![0xAA, 0xBB]);
    } else {
        panic!("Expected UsbipResponse::Submit");
    }
}

#[test]
fn control_read_is_cut_to_the_requested_length() {
    let callback = MockTransferCallback::new(vec![rule("control_read:128:6:256:0", Ok(vec![1, 2, 3, 4, 5]))]);
    let dev = mock(empty_config(), Some(callback));
    let mut handle = dev.open().unwrap();
    let mut runner = TransferRunner::new(&dev, &mut handle);
    match runner.execute(control_read_request(7, 3, [128, 6, 0, 1, 0, 0, 3, 0])).unwrap() {
        UsbipResponse::Submit { basic, submit, data, .. } => {
            assert_eq!(basic.command, 3);
            assert_eq!(basic.seqnum, 7);
            assert_eq!(submit.actual_length, 3);
            assert_eq!(data, vec![1, 2, 3]);
        }
        other => panic!("unexpected {:?}", other),
    }
}

#[test]
fn device_error_gives_epipe() {
    let callback = MockTransferCallback::new(vec![rule("control_read:128:6:256:0", Err("stall".to_string()))]);
    let dev = mock(empty_config(), Some(callback));
    let mut handle = dev.open().unwrap();
    let mut runner = TransferRunner::new(&dev, &mut handle);
    match runner.execute(control_read_request(8, 4, [128, 6, 0, 1, 0, 0, 4, 0])).unwrap() {
        UsbipResponse::Submit { submit, data, .. } => {
            assert_eq!(submit.status, -32);
            assert_eq!(submit.actual_length, 0);
            assert!(data.is_empty());
        }
        other => panic!("unexpected {:?}", other),
    }
}

#[test]
fn unlink_is_answered_with_connreset() {
    let dev = mock(empty_config(), None);
    let mut handle = dev.open().unwrap();
    let mut runner = TransferRunner::new(&dev, &mut handle);
    let req = UsbipRequest::Unlink {
        basic: UsbipHeaderBasic { command: 2, seqnum: 20, devid: 0x0001_0002, direction: 0, ep: 0 },
        unlink: UsbipHeaderCmdUnlink { unlink_seqnum: 10 },
    };
    match runner.execute(req).unwrap() {
        UsbipResponse::Unlink { basic, unlink } => {
            assert_eq!(basic.command, 4);
            assert_eq!(basic.seqnum, 20);
            assert_eq!(unlink.status, -104);
        }
        other => panic!("unexpected {:?}", other),
    }
    assert!(runner.execute(UsbipRequest::Devlist).is_err());
}

#[test]
fn bulk_read_with_iso_descriptors_reports_them_complete() {
    let callback = MockTransferCallback::new(vec![rule("bulk_read:129", Ok(vec![0xAA; 64]))]);
    let dev = mock(empty_config(), Some(callback));
    let mut handle = dev.open().unwrap();
    let mut runner = TransferRunner::new(&dev, &mut handle);
    let req = UsbipRequest::Submit {
        basic: UsbipHeaderBasic { command: 1, seqnum: 10, devid: 0x0001_0002, direction: 1, ep: 1 },
        submit: UsbipHeaderCmdSubmit {
            transfer_flags: 0,
            transfer_buffer_length: 64,
            start_frame: 0,
            number_of_packets: 2,
            interval: 0,
            setup: [0; 8],
        },
        data: vec![],
        iso_descriptors: vec![
            UsbipIsoPacketDescriptor { offset: 0, length: 32, actual_length: 0, status: 0 },
            UsbipIsoPacketDescriptor { offset: 32, length: 32, actual_length: 0, status: 0 },
        ],
    };
    match runner.execute(req).unwrap() {
        UsbipResponse::Submit { submit, data, iso_descriptors, .. } => {
            assert_eq!(submit.status, 0);
            assert_eq!(submit.actual_length, 64);
            assert_eq!(submit.number_of_packets, 2);
            assert_eq!(data, vec![0xAA; 64]);
            assert_eq!(iso_descriptors[0].actual_length, 32);
            assert_eq!(iso_descriptors[1].offset, 32);
            assert_eq!(iso_descriptors[1].actual_length, 32);
        }
        other => panic!("unexpected {:?}", other),
    }
}

#[test]
fn interrupt_endpoints_are_found_in_the_configuration() {
    let config = UsbConfigDescriptor {
        num_interfaces: 1,
        configuration_value: 1,
        max_power: 100,
        self_powered: false,
        remote_wakeup: false,
        interfaces: vec![UsbInterfaceDescriptor {
            interface_number: 0,
            settings: vec![UsbInterfaceSettingDescriptor {
                setting_number: 0,
                class_code: 3,
                sub_class_code: 0,
                protocol_code: 0,
                endpoints: vec![UsbEndpointDescriptor {
                    address: 0x81,
                    direction: UsbDirection::In,
                    transfer_type: UsbTransferType::Interrupt,
                    max_packet_size: 8,
                    interval: 10,
                }],
            }],
        }],
    };
    let basic = UsbipHeaderBasic { command: 1, seqnum: 1, devid: 2, direction: 1, ep: 1 };
    let submit = UsbipHeaderCmdSubmit {
        transfer_flags: 0,
        transfer_buffer_length: 8,
        start_frame: 0,
        number_of_packets: 0,
        interval: 0,
        setup: [0; 8],
    };
    let plan = iroh_usbip::engine::plan_transfer(&basic, &submit, &Ok(config));
    assert_eq!(plan, TransferPlan::InterruptRead { endpoint: 0x81, length: 8 });
    let out = UsbipHeaderBasic { direction: 0, ..basic };
    let plan = iroh_usbip::engine::plan_transfer(&out, &submit, &Ok(empty_config()));
    assert_eq!(plan, TransferPlan::BulkWrite { endpoint: 0x01 });
    let control = UsbipHeaderBasic { ep: 0, ..basic };
    let setup = UsbipHeaderCmdSubmit { setup: [0x80, 6, 0x00, 0x01, 0x09, 0x04, 0x12, 0], ..submit };
    let plan = iroh_usbip::engine::plan_transfer(&control, &setup, &Ok(empty_config()));
    assert_eq!(plan, TransferPlan::ControlRead { request_type: 0x80, request: 6, value: 0x0100, index: 0x0409, length: 8 });
}

fn two_interface_config() -> UsbConfigDescriptor {
    let iface = |n: u8| UsbInterfaceDescriptor {
        interface_number: n,
        settings: vec![UsbInterfaceSettingDescriptor {
            setting_number: 0,
            class_code: 0,
            sub_class_code: 0,
            protocol_code: 0,
            endpoints: vec![],
        }],
    };
    UsbConfigDescriptor {
        num_interfaces: 2,
        configuration_value: 1,
        max_power: 500,
        self_powered: true,
        remote_wakeup: false,
        interfaces: vec![iface(0), iface(1)],
    }
}

#[test]
fn driver_detachment_lifecycle() {
    let mut dev = mock(two_interface_config(), None);
    dev.kernel_drivers = Some(vec![(0, true), (1, true)]);
    let mut handle = dev.open().unwrap();
    assert_eq!(handle.kernel_driver_active(0).unwrap(), true);

    let guard = claim_device_interfaces(&mut handle, &dev.config_descriptor);
    assert_eq!(guard.detached_interfaces, vec![0, 1]);
    assert_eq!(guard.claimed_interfaces, vec![0, 1]);
    assert_eq!(handle.kernel_drivers_active.get(&0), Some(&false));
    assert_eq!(handle.kernel_drivers_active.get(&1), Some(&false));
    assert!(handle.claimed_interfaces.contains(&0));
    assert!(handle.claimed_interfaces.contains(&1));

    let report = release_device_interfaces(&mut handle, guard);
    assert!(report.release_failed.is_empty());
    assert!(report.reattach_failed.is_empty());
    assert_eq!(handle.kernel_drivers_active.get(&0), Some(&true));
    assert_eq!(handle.kernel_drivers_active.get(&1), Some(&true));
    assert!(!handle.claimed_interfaces.contains(&0));
    assert!(!handle.claimed_interfaces.contains(&1));
}

#[test]
fn interfaces_without_driver_are_claimed_not_detached() {
    let mut dev = mock(two_interface_config(), None);
    dev.kernel_drivers = Some(vec![(0, false)]);
    let mut handle = dev.open().unwrap();
    let guard = claim_device_interfaces(&mut handle, &dev.config_descriptor);
    assert_eq!(guard.detached_interfaces, vec![1]);
    assert_eq!(guard.claimed_interfaces, vec![0, 1]);
}

#[test]
fn mock_open_error_is_reported() {
    let mut dev = mock(empty_config(), None);
    dev.open_error = Some("device is busy".to_string());
    let err = dev.open().err().unwrap();
    assert_eq!(err.message, "device is busy");
}

#[test]
fn mock_transfers_answer_by_name() {
    let callback = MockTransferCallback::new(vec![
        rule("bulk_write:2", Ok(vec![1, 2, 3])),
        rule("interrupt_read:129", Ok(vec![9])),
        rule("control_write:0:9:1:0", Err("nope".to_string())),
    ]);
    let dev = mock(empty_config(), Some(callback));
    let mut handle = dev.open().unwrap();
    let t = std::time::Duration::from_secs(1);
    assert_eq!(handle.write_bulk(2, &[5, 5], t).unwrap(), 3);
    let mut buf = [0u8; 4];
    assert_eq!(handle.read_interrupt(129, &mut buf, t).unwrap(), 1);
    assert_eq!(buf, [9, 0, 0, 0]);
    assert_eq!(handle.write_control(0, 9, 1, 0, &[], t).err().unwrap().message, "nope");
    assert_eq!(handle.read_bulk(5, &mut buf, t).unwrap(), 0);
}

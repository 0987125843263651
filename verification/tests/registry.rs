use std::sync::Arc;
use iroh_usbip::registry::{listing_names, RegistryError};
use iroh_usbip::{
    DeviceQuery, HostDeviceRegistry, MockUsbDevice, RegistryDevice, UsbConfigDescriptor,
    UsbDevice, UsbDeviceDescriptor, UsbError, UsbSpeed,
};

#[test]
fn test_from_cli_args_parsing() {
    let query =
        DeviceQuery::from_cli_args(Some("0x1d6b"), Some("0002"), Some(1), Some(2)).unwrap();
    assert_eq!(query.vendor_id, Some(0x1d6b));
    assert_eq!(query.product_id, Some(0x0002));
    assert_eq!(query.bus_number, Some(1));
    assert_eq!(query.address, Some(2));
}

#[test]
fn cli_args_follow_from_str_radix() {
    let q = DeviceQuery::from_cli_args(Some("0x0xFFFF"), None, None, None).unwrap();
    assert_eq!(q.vendor_id, Some(0xffff));
    assert_eq!(q.product_id, None);
    let q = DeviceQuery::from_cli_args(None, Some("+1A"), None, None).unwrap();
    assert_eq!(q.product_id, Some(0x1a));
    assert_eq!(DeviceQuery::from_cli_args(Some("10000"), None, None, None), Err(RegistryError::InvalidId));
    assert_eq!(DeviceQuery::from_cli_args(Some("0x"), None, None, None), Err(RegistryError::InvalidId));
    assert_eq!(DeviceQuery::from_cli_args(None, Some("12g"), None, None), Err(RegistryError::InvalidId));
    assert_eq!(DeviceQuery::from_cli_args(None, Some("-1"), None, None), Err(RegistryError::InvalidId));
}

fn make_mock_device(bus_num: u8, dev_addr: u8, vendor_id: u16, product_id: u16) -> Arc<MockUsbDevice> {
    Arc::new(plain_device(bus_num, dev_addr, vendor_id, product_id))
}

fn plain_device(bus_num: u8, dev_addr: u8, vendor_id: u16, product_id: u16) -> MockUsbDevice {
    MockUsbDevice {
        bus_num,
        dev_addr,
        dev_speed: UsbSpeed::High,
        descriptor: UsbDeviceDescriptor {
            vendor_id,
            product_id,
            device_class: 0,
            device_subclass: 0,
            device_protocol: 0,
            max_packet_size_0: 64,
            num_configurations: 1,
            usb_version: (2, 0),
            device_version: (1, 0),
            manufacturer_string_index: None,
            product_string_index: None,
            serial_number_string_index: None,
        },
        config_descriptor: UsbConfigDescriptor {
            num_interfaces: 0,
            configuration_value: 1,
            max_power: 500,
            self_powered: true,
            remote_wakeup: false,
            interfaces: vec![],
        },
        transfer_handler: None,
        open_error: None,
        kernel_drivers: None,
        claimed_interfaces: None,
        manufacturer: "Mock Manufacturer".to_string(),
        product: "Mock Product".to_string(),
        serial_number: "Mock Serial".to_string(),
    }
}

#[test]
fn test_registry_matching() {
    let dev1 = make_mock_device(1, 2, 0x1234, 0x5678);
    let dev2 = make_mock_device(1, 3, 0x1234, 0xabcd);
    let dev3 = make_mock_device(2, 1, 0x9999, 0x9999);

    let registry = HostDeviceRegistry::new_static(vec![dev1, dev2, dev3]);

    // 1. Query matching vendor ID
    let query_vid = DeviceQuery {
        vendor_id: Some(0x1234),
        ..Default::default()
    };
    let matches = registry.find_devices(&query_vid).unwrap();
    assert_eq!(matches.len(), 2);

    // 2. Query matching single device uniquely
    let query_unique = DeviceQuery {
        vendor_id: Some(0x1234),
        address: Some(3),
        ..Default::default()
    };
    let unique = registry.find_single_device(&query_unique).unwrap();
    assert_eq!(unique.device.bus_number(), 1);
    assert_eq!(unique.device.address(), 3);

    // 3. Query matching 0 devices
    let query_none = DeviceQuery {
        vendor_id: Some(0x8888),
        ..Default::default()
    };
    assert!(registry.find_single_device(&query_none).is_err());

    // 4. Query matching multiple devices (ambiguity error)
    assert!(registry.find_single_device(&query_vid).is_err());
}

#[test]
fn single_device_errors_are_distinct() {
    let registry = HostDeviceRegistry::new_static(vec![
        make_mock_device(1, 2, 0x1234, 0x5678),
        make_mock_device(1, 3, 0x1234, 0xabcd),
    ]);
    let none = DeviceQuery { product_id: Some(1), ..Default::default() };
    assert_eq!(registry.find_single_device(&none).err(), Some(RegistryError::NoMatchingDevice));
    let many = DeviceQuery { vendor_id: Some(0x1234), ..Default::default() };
    assert_eq!(registry.find_single_device(&many).err(), Some(RegistryError::MultipleMatchingDevices));
    let by_bus_id = DeviceQuery { bus_id: Some("1-3".to_string()), ..Default::default() };
    let found = registry.find_single_device(&by_bus_id).unwrap();
    assert_eq!(found.bus_id, "1-3");
    assert_eq!(found.sysfs_path, "/sys/devices/mock/usb1/1-3");
    assert_eq!(found.cli_info, "Bus 001 Device 003: ID 1234:abcd");
}

#[test]
fn query_criteria() {
    let dev = make_mock_device(2, 17, 0x00ab, 0x0001);
    assert!(DeviceQuery::default().matches(dev.as_ref()));
    assert!(DeviceQuery { bus_number: Some(2), address: Some(17), ..Default::default() }.matches(dev.as_ref()));
    assert!(!DeviceQuery { bus_number: Some(3), ..Default::default() }.matches(dev.as_ref()));
    assert!(DeviceQuery { bus_id: Some("2-17".to_string()), ..Default::default() }.matches(dev.as_ref()));
    assert!(!DeviceQuery { bus_id: Some("2-1".to_string()), ..Default::default() }.matches(dev.as_ref()));
    assert!(!DeviceQuery { product_id: Some(2), ..Default::default() }.matches(dev.as_ref()));
}

#[test]
fn names_of_a_device() {
    assert_eq!(HostDeviceRegistry::<MockUsbDevice>::bus_id(1, 2), "1-2");
    assert_eq!(HostDeviceRegistry::<MockUsbDevice>::bus_id(255, 127), "255-127");
    assert_eq!(HostDeviceRegistry::<MockUsbDevice>::sysfs_path(3, 14), "/sys/devices/mock/usb3/3-14");
}

#[test]
fn listing_lines() {
    let mut dev = plain_device(1, 2, 0x1d6b, 0x0002);
    assert_eq!(HostDeviceRegistry::<MockUsbDevice>::format_cli_info(&dev), "Bus 001 Device 002: ID 1d6b:0002");
    dev.descriptor.manufacturer_string_index = Some(1);
    dev.descriptor.product_string_index = Some(2);
    assert_eq!(
        HostDeviceRegistry::<MockUsbDevice>::format_cli_info(&dev),
        "Bus 001 Device 002: ID 1d6b:0002 Mock Manufacturer Mock Product"
    );
    dev.open_error = Some("denied".to_string());
    assert_eq!(
        HostDeviceRegistry::<MockUsbDevice>::format_cli_info(&dev),
        "Bus 001 Device 002: ID 1d6b:0002 <Access Denied> <Access Denied>"
    );
    dev.descriptor.product_string_index = None;
    dev.open_error = None;
    dev.bus_num = 12;
    dev.dev_addr = 123;
    assert_eq!(
        HostDeviceRegistry::<MockUsbDevice>::format_cli_info(&dev),
        "Bus 012 Device 123: ID 1d6b:0002 Mock Manufacturer"
    );
    let entry = RegistryDevice::new(Arc::new(dev));
    assert_eq!(entry.bus_id, "12-123");
}

#[test]
fn mock_registry() {
    let registry = HostDeviceRegistry::new_mock().unwrap();
    let all = registry.find_devices(&DeviceQuery::default()).unwrap();
    assert_eq!(all.len(), 1);
    assert_eq!(all[0].bus_id, "1-2");
    assert_eq!(all[0].cli_info, "Bus 001 Device 002: ID 1d6b:0104 Antigravity E2E_Virtual_Gadget");
}

#[test]
fn names_when_the_device_cannot_be_opened() {
    let dev = plain_device(1, 2, 0x1d6b, 0x0002);
    let opened: Result<iroh_usbip::MockUsbDeviceHandle, UsbError> = Err(UsbError { message: "denied".to_string() });
    let (m, p) = listing_names(&dev.descriptor, &opened);
    assert_eq!((m, p), (None, None));
    let mut desc = dev.descriptor;
    desc.manufacturer_string_index = Some(1);
    desc.product_string_index = Some(2);
    let (m, p) = listing_names(&desc, &opened);
    assert_eq!(m.as_deref(), Some("<Access Denied>"));
    assert_eq!(p.as_deref(), Some("<Access Denied>"));
    assert_eq!(RegistryError::NoMatchingDevice.message(), "No matching USB device found.");
    assert_eq!(
        RegistryError::MultipleMatchingDevices.message(),
        "Multiple matching USB devices found. Please specify more filters."
    );
}

#[test]
fn bus_id_splits_back_and_ends_the_path() {
    let id = HostDeviceRegistry::<MockUsbDevice>::bus_id(12, 123);
    let (b, a) = id.split_once('-').unwrap();
    assert_eq!((b.parse::<u8>().unwrap(), a.parse::<u8>().unwrap()), (12, 123));
    let path = HostDeviceRegistry::<MockUsbDevice>::sysfs_path(12, 123);
    assert_eq!(path.rsplit('/').next(), Some(id.as_str()));
}

#[test]
fn names_read_from_an_opened_device() {
    let mut dev = plain_device(1, 2, 0x1d6b, 0x0002);
    dev.descriptor.manufacturer_string_index = Some(1);
    let opened = dev.open();
    let (m, p) = listing_names(&dev.descriptor, &opened);
    assert_eq!(m.as_deref(), Some(dev.manufacturer.as_str()));
    assert_eq!(p, None);
}

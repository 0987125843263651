use iroh_usbip::protocol::{
    encode_response, handshake_body_len, map_speed, pad_string, parse_handshake_request,
    parse_transfer_request, transfer_payload_lengths, OpCommon, OpDevlistReply, OpImportRequest,
    ProtocolError, UsbipHeaderBasic, UsbipHeaderRetSubmit, UsbipHeaderRetUnlink,
    UsbipIsoPacketDescriptor, UsbipRequest, UsbipResponse, UsbipUsbDevice, UsbipUsbInterface,
};
use iroh_usbip::UsbSpeed;

#[test]
fn test_op_common_serialization() {
    let common = OpCommon {
        version: 0x0111,
        code: 0x8005,
        status: 42,
    };
    let bytes = common.to_bytes();
    assert_eq!(bytes, [0x01, 0x11, 0x80, 0x05, 0x00, 0x00, 0x00, 0x2a]);

    let deserialized = OpCommon::from_bytes(bytes);
    assert_eq!(deserialized, common);
}

#[test]
fn test_op_devlist_reply_serialization() {
    let reply = OpDevlistReply { ndev: 5 };
    let bytes = reply.to_bytes();
    assert_eq!(bytes, [0x00, 0x00, 0x00, 0x05]);

    let deserialized = OpDevlistReply::from_bytes(bytes);
    assert_eq!(deserialized, reply);
}

#[test]
fn test_op_import_request_serialization() {
    let mut busid = [0u8; 32];
    busid[0..3].copy_from_slice(b"1-2");
    let request = OpImportRequest { busid };
    let bytes = request.to_bytes();
    assert_eq!(bytes, busid);

    let deserialized = OpImportRequest::from_bytes(bytes);
    assert_eq!(deserialized, request);
}

#[test]
fn op_common_decodes_what_it_encodes() {
    for (version, code, status) in [(0u16, 0u16, 0u32), (0xffff, 0x0003, 0xdead_beef), (0x0111, 0x8003, 2)] {
        let h = OpCommon { version, code, status };
        assert_eq!(OpCommon::from_bytes(h.to_bytes()), h);
    }
    let raw = [0xfe, 0xdc, 0xba, 0x98, 0x76, 0x54, 0x32, 0x10];
    assert_eq!(OpCommon::from_bytes(raw).to_bytes(), raw);
}

#[test]
fn speed_codes_follow_the_wire_format() {
    assert_eq!(map_speed(UsbSpeed::Low), 1);
    assert_eq!(map_speed(UsbSpeed::Full), 2);
    assert_eq!(map_speed(UsbSpeed::High), 3);
    assert_eq!(map_speed(UsbSpeed::Super), 5);
    assert_eq!(map_speed(UsbSpeed::SuperPlus), 6);
    assert_eq!(map_speed(UsbSpeed::Unknown), 0);
}

#[test]
fn pad_string_pads_and_truncates() {
    assert_eq!(pad_string("1-2", 5), vec![b'1', b'-', b'2', 0, 0]);
    assert_eq!(pad_string("abcdef", 3), vec![b'a', b'b', b'c']);
    assert_eq!(pad_string("", 2), vec![0, 0]);
    assert_eq!(pad_string("é", 3), vec![0xc3, 0xa9, 0]);
    assert_eq!(pad_string("1-2", 32).len(), 32);
}

#[test]
fn usb_device_record_layout() {
    let mut path = [0u8; 256];
    path[0] = b'/';
    let mut busid = [0u8; 32];
    busid[0] = b'1';
    let udev = UsbipUsbDevice {
        path,
        busid,
        busnum: 1,
        devnum: 2,
        speed: 3,
        id_vendor: 0x1234,
        id_product: 0x5678,
        bcd_device: 0x0100,
        b_device_class: 9,
        b_device_subclass: 8,
        b_device_protocol: 7,
        b_configuration_value: 1,
        b_num_configurations: 1,
        b_num_interfaces: 2,
    };
    let bytes = udev.to_bytes();
    assert_eq!(bytes.len(), 312);
    assert_eq!(bytes[0], b'/');
    assert_eq!(bytes[256], b'1');
    assert_eq!(&bytes[288..292], &[0, 0, 0, 1]);
    assert_eq!(&bytes[292..296], &[0, 0, 0, 2]);
    assert_eq!(&bytes[296..300], &[0, 0, 0, 3]);
    assert_eq!(&bytes[300..302], &[0x12, 0x34]);
    assert_eq!(&bytes[302..304], &[0x56, 0x78]);
    assert_eq!(&bytes[304..306], &[0x01, 0x00]);
    assert_eq!(&bytes[306..312], &[9, 8, 7, 1, 1, 2]);

    let iface = UsbipUsbInterface { b_interface_class: 3, b_interface_subclass: 1, b_interface_protocol: 2, padding: 0 };
    assert_eq!(iface.to_bytes(), [3, 1, 2, 0]);
}

#[test]
fn iso_descriptor_roundtrip() {
    let d = UsbipIsoPacketDescriptor { offset: 32, length: 32, actual_length: 7, status: -18 };
    let bytes = d.to_bytes();
    assert_eq!(bytes, [0, 0, 0, 32, 0, 0, 0, 32, 0, 0, 0, 7, 0xff, 0xff, 0xff, 0xee]);
    assert_eq!(UsbipIsoPacketDescriptor::from_bytes(bytes), d);
}

#[test]
fn basic_header_roundtrip() {
    let h = UsbipHeaderBasic { command: 1, seqnum: 10, devid: 0x0001_0002, direction: 1, ep: 0 };
    let bytes = h.to_bytes();
    assert_eq!(bytes.len(), 20);
    assert_eq!(&bytes[8..12], &[0, 1, 0, 2]);
    assert_eq!(UsbipHeaderBasic::from_bytes(&bytes), h);
}

#[test]
fn handshake_request_parsing() {
    let devlist = [0x01, 0x11, 0x80, 0x05, 0, 0, 0, 0];
    assert_eq!(handshake_body_len(&devlist), Ok(0));
    assert!(matches!(parse_handshake_request(&devlist, &[]), Ok(UsbipRequest::Devlist)));

    let import = [0x01, 0x11, 0x80, 0x03, 0, 0, 0, 0];
    assert_eq!(handshake_body_len(&import), Ok(32));
    let body = pad_string("1-2", 32);
    match parse_handshake_request(&import, &body) {
        Ok(UsbipRequest::Import { busid }) => assert_eq!(busid, "1-2"),
        other => panic!("unexpected {:?}", other),
    }
    assert!(matches!(parse_handshake_request(&import, &body[..31]), Err(ProtocolError::LengthMismatch)));

    let mut bad = [0u8; 32];
    bad[0] = 0xff;
    assert!(matches!(parse_handshake_request(&import, &bad), Err(ProtocolError::InvalidBusId)));

    let other = [0x01, 0x11, 0x12, 0x34, 0, 0, 0, 0];
    assert_eq!(handshake_body_len(&other), Err(ProtocolError::UnknownOperation(0x1234)));
    assert!(matches!(parse_handshake_request(&other, &[]), Err(ProtocolError::UnknownOperation(0x1234))));
}

fn submit_header(seqnum: u32, direction: u32, ep: u32, len: i32, packets: i32, setup: [u8; 8]) -> Vec<u8> {
    let mut cmd = Vec::new();
    cmd.extend_from_slice(&1u32.to_be_bytes());
    cmd.extend_from_slice(&seqnum.to_be_bytes());
    cmd.extend_from_slice(&0x0001_0002u32.to_be_bytes());
    cmd.extend_from_slice(&direction.to_be_bytes());
    cmd.extend_from_slice(&ep.to_be_bytes());
    cmd.extend_from_slice(&0u32.to_be_bytes());
    cmd.extend_from_slice(&len.to_be_bytes());
    cmd.extend_from_slice(&0i32.to_be_bytes());
    cmd.extend_from_slice(&packets.to_be_bytes());
    cmd.extend_from_slice(&0i32.to_be_bytes());
    cmd.extend_from_slice(&setup);
    cmd
}

#[test]
fn transfer_request_parsing() {
    let header = submit_header(10, 1, 0, 4, 0, [0x80, 0x06, 0x00, 0x01, 0x00, 0x00, 0x04, 0x00]);
    assert_eq!(transfer_payload_lengths(&header), Ok((0, 0)));
    match parse_transfer_request(&header, &[], &[]) {
        Ok(UsbipRequest::Submit { basic, submit, data, iso_descriptors }) => {
            assert_eq!(basic.seqnum, 10);
            assert_eq!(basic.devid, 0x0001_0002);
            assert_eq!(submit.transfer_buffer_length, 4);
            assert_eq!(submit.setup, [0x80, 0x06, 0x00, 0x01, 0x00, 0x00, 0x04, 0x00]);
            assert!(data.is_empty());
            assert!(iso_descriptors.is_empty());
        }
        other => panic!("unexpected {:?}", other),
    }

    let out_header = submit_header(11, 0, 2, 3, 1, [0; 8]);
    assert_eq!(transfer_payload_lengths(&out_header), Ok((3, 16)));
    let iso = UsbipIsoPacketDescriptor { offset: 0, length: 3, actual_length: 0, status: 0 }.to_bytes();
    match parse_transfer_request(&out_header, &[7, 8, 9], &iso) {
        Ok(UsbipRequest::Submit { data, iso_descriptors, .. }) => {
            assert_eq!(data, vec![7, 8, 9]);
            assert_eq!(iso_descriptors.len(), 1);
            assert_eq!(iso_descriptors[0].length, 3);
        }
        other => panic!("unexpected {:?}", other),
    }
    assert!(matches!(parse_transfer_request(&out_header, &[7, 8], &iso), Err(ProtocolError::LengthMismatch)));

    let non_iso = submit_header(12, 1, 1, 64, -1, [0; 8]);
    assert_eq!(transfer_payload_lengths(&non_iso), Ok((0, 0)));

    let mut unlink = Vec::new();
    unlink.extend_from_slice(&2u32.to_be_bytes());
    unlink.extend_from_slice(&20u32.to_be_bytes());
    unlink.extend_from_slice(&0x0001_0002u32.to_be_bytes());
    unlink.extend_from_slice(&0u32.to_be_bytes());
    unlink.extend_from_slice(&0u32.to_be_bytes());
    unlink.extend_from_slice(&10u32.to_be_bytes());
    unlink.extend_from_slice(&[0; 24]);
    match parse_transfer_request(&unlink, &[], &[]) {
        Ok(UsbipRequest::Unlink { basic, unlink }) => {
            assert_eq!(basic.seqnum, 20);
            assert_eq!(unlink.unlink_seqnum, 10);
        }
        other => panic!("unexpected {:?}", other),
    }

    let mut unknown = unlink.clone();
    unknown[3] = 9;
    assert_eq!(transfer_payload_lengths(&unknown), Err(ProtocolError::UnknownCommand(9)));
}

#[test]
fn response_encoding() {
    let import_refused = UsbipResponse::Import { status: 2, device: None };
    assert_eq!(encode_response(&import_refused), vec![0x01, 0x11, 0x00, 0x03, 0, 0, 0, 2]);

    let submit = UsbipResponse::Submit {
        basic: UsbipHeaderBasic { command: 3, seqnum: 10, devid: 0x0001_0002, direction: 1, ep: 0 },
        submit: UsbipHeaderRetSubmit { status: 0, actual_length: 2, start_frame: 0, number_of_packets: 0, error_count: 0 },
        data: vec![0xaa, 0xbb],
        iso_descriptors: vec![],
    };
    let bytes = encode_response(&submit);
    assert_eq!(bytes.len(), 50);
    assert_eq!(&bytes[0..4], &[0, 0, 0, 3]);
    assert_eq!(&bytes[4..8], &[0, 0, 0, 10]);
    assert_eq!(&bytes[24..28], &[0, 0, 0, 2]);
    assert_eq!(&bytes[48..50], &[0xaa, 0xbb]);

    let unlink = UsbipResponse::Unlink {
        basic: UsbipHeaderBasic { command: 4, seqnum: 20, devid: 0x0001_0002, direction: 0, ep: 0 },
        unlink: UsbipHeaderRetUnlink { status: -104 },
    };
    let bytes = encode_response(&unlink);
    assert_eq!(bytes.len(), 48);
    assert_eq!(i32::from_be_bytes([bytes[20], bytes[21], bytes[22], bytes[23]]), -104);
}

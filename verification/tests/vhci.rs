use iroh_usbip::vhci::{find_vhci_dir, free_port_in_status, status_file_names, VhciError};
use iroh_usbip::{UsbSpeed, VhciController};

#[test]
fn test_vhci_find_free_port() {
    let controller = VhciController::with_path("/tmp/vhci".to_string());

    // 1. With status file missing/empty
    assert!(controller.find_free_port(&vec![]).is_err());

    // 2. Write status file with some used and some free ports
    let status_content = "\
hub port sta spd dev sockfd local_busid
hs 0000 006 000 00010002 000005 1-1
hs 0001 004 000 00000000 000000 0-0
hs 0002 006 000 00010003 000006 1-2
ss 0003 004 000 00000000 000000 0-0
";
    let free_port = controller.find_free_port(&vec![status_content.to_string()]).unwrap();
    assert_eq!(free_port, 1);

    // 3. Write status file with all ports used
    let all_used_content = "\
hub port sta spd dev sockfd local_busid
hs 0000 006 000 00010002 000005 1-1
hs 0001 006 000 00010003 000006 1-2
";
    assert_eq!(controller.find_free_port(&vec![all_used_content.to_string()]), Err(VhciError::NoFreePort));
}

#[test]
fn free_port_parsing_details() {
    assert_eq!(free_port_in_status("hs 0007 006 000 00010002 000000 1-1\r\n"), Some(7));
    assert_eq!(free_port_in_status("hs 0004 005 000 00010002 000009 1-1"), Some(4));
    assert_eq!(free_port_in_status("hs 0004 006 000 00010002 000009"), None);
    assert_eq!(free_port_in_status("hs x 004 000 00000000 000000 0-0\nhs 0002 004 000 0 0 0-0\n"), Some(2));
    assert_eq!(free_port_in_status(""), None);
    let c = VhciController::with_path("/x".to_string());
    assert_eq!(c.find_free_port(&vec!["".to_string(), "hs 3 4 0 0 0 0-0".to_string()]), Ok(3));
}

#[test]
fn test_vhci_attach() {
    let cmd = VhciController::attach_command(3, 42, 0x00010005, UsbSpeed::High);
    assert_eq!(cmd.trim(), "3 42 65541 3"); // 0x00010005 = 65541, UsbSpeed::High = 3
    assert_eq!(cmd, "3 42 65541 3\n");
    assert_eq!(VhciController::attach_command(0, -1, 0, UsbSpeed::Unknown), "0 -1 0 0\n");
}

#[test]
fn test_vhci_detach() {
    let cmd = VhciController::detach_command(2);
    assert_eq!(cmd.trim(), "2");
    assert_eq!(cmd, "2\n");
}

#[test]
fn vhci_directory_choice() {
    assert_eq!(find_vhci_dir(&[false, true, true, false]).as_deref(), Some("/sys/devices/platform/vhci-hcd.0"));
    assert_eq!(find_vhci_dir(&[false, false, false, false]), None);
    let c = VhciController::new(None);
    assert_eq!(c.sysfs_path(), "/sys/devices/platform/vhci_hcd.0");
    let c = VhciController::new(Some("/sys/x".to_string()));
    assert_eq!(c.sysfs_path(), "/sys/x");
}

#[test]
fn status_files_are_chosen_by_name() {
    let names: Vec<String> = ["attach", "status.1", "status", "statusx", "detach"].iter().map(|s| s.to_string()).collect();
    assert_eq!(status_file_names(&names), vec!["status.1".to_string(), "status".to_string()]);
    let none: Vec<String> = vec!["attach".to_string()];
    assert_eq!(status_file_names(&none), vec!["status".to_string()]);
    assert_eq!(
        VhciError::NoFreePort.message(),
        "No free VHCI ports available or status file missing/unreadable"
    );
}

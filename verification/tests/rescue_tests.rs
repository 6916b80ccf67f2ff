use rescue_proto::modes::ModeMapper;
use rescue_proto::orchestrator::TransferOrchestrator;
use rescue_proto::modes::RescueError;
use rescue_proto::modes::RescueMode;
use rescue_proto::rom_error::ROM_ERROR_OK;
use rescue_proto::rom_error::RomError;
use rescue_proto::spidfu::FlashCall;
use rescue_proto::spidfu::MAILBOX;
use rescue_proto::spidfu::MailboxError;
use rescue_proto::spidfu::ScriptedFlash;
use rescue_proto::spidfu::SetupData;
use rescue_proto::spidfu::SpiDfu;
use rescue_proto::usbdfu::InterfaceDesc;
use rescue_proto::usbdfu::ScriptedUsb;
use rescue_proto::usbdfu::UsbCall;
use rescue_proto::usbdfu::UsbDfu;
use rescue_proto::usbdfu::UsbDfuError;
use rescue_proto::usbdfu::find_dfu_interface;

fn ok_word() -> Vec<u8> {
    vec![0x39, 0x07, 0x00, 0x00]
}

#[test]
fn usb_mapping_yields_the_fixed_alt_settings() {
    assert_eq!(ModeMapper::usb_selector(RescueMode::Rescue).unwrap(), 0);
    assert_eq!(ModeMapper::usb_selector(RescueMode::RescueB).unwrap(), 1);
    assert_eq!(ModeMapper::usb_selector(RescueMode::DeviceId).unwrap(), 2);
    assert_eq!(ModeMapper::usb_selector(RescueMode::BootLog).unwrap(), 3);
    assert_eq!(ModeMapper::usb_selector(RescueMode::BootSvcReq).unwrap(), 4);
    assert_eq!(ModeMapper::usb_selector(RescueMode::BootSvcRsp).unwrap(), 4);
    assert_eq!(ModeMapper::usb_selector(RescueMode::OwnerBlock).unwrap(), 5);
    assert_eq!(ModeMapper::usb_selector(RescueMode::GetOwnerPage0).unwrap(), 5);
}

#[test]
fn spi_mapping_is_its_own_code_space() {
    // The two transports map the same logical mode to unrelated numbers.
    let usb = ModeMapper::usb_selector(RescueMode::BootSvcReq).unwrap();
    let spi = ModeMapper::spi_selector(RescueMode::BootSvcReq).unwrap();
    assert_eq!(usb, 4);
    assert_eq!(spi, 0x42525350);
    assert_ne!(usb as u32, spi);
    // Request and response share a selector on both transports.
    assert_eq!(
        ModeMapper::spi_selector(RescueMode::BootSvcRsp).unwrap(),
        spi
    );
}

#[test]
fn unknown_modes_are_refused_by_both_mappings() {
    match ModeMapper::usb_selector(RescueMode::Other(99)) {
        Err(RescueError::BadMode(RescueMode::Other(99))) => {}
        other => panic!("expected bad mode, got {other:?}"),
    }
    match ModeMapper::spi_selector(RescueMode::Other(99)) {
        Err(RescueError::BadMode(RescueMode::Other(99))) => {}
        other => panic!("expected bad mode, got {other:?}"),
    }
}

#[test]
fn rom_status_word_interprets_only_success() {
    assert!(RomError(ROM_ERROR_OK).is_ok());
    assert!(RomError(ROM_ERROR_OK).into_result().is_ok());
    assert!(!RomError(0).is_ok());
    assert_eq!(RomError(5).into_result(), Err(RomError(5)));
}

#[test]
fn setup_header_serializes_little_endian() {
    let s = SetupData { request_type: 0x21, request: 1, value: 0x1234, index: 0xABCD, length: 0x0102 };
    assert_eq!(
        s.to_bytes(),
        vec![0x21, 0x01, 0x34, 0x12, 0xCD, 0xAB, 0x02, 0x01]
    );
}

#[test]
fn mailbox_download_programs_setup_status_then_payload() {
    let flash = ScriptedFlash::new(vec![ok_word()], Vec::new());
    let mut dfu = SpiDfu::new(flash);
    let n = dfu.download(&[1, 2, 3]).unwrap();
    assert_eq!(n, 3);
    let calls = dfu.flash.calls();
    assert_eq!(calls.len(), 3);
    match &calls[0] {
        FlashCall::Program(addr, bytes) => {
            assert_eq!(*addr, MAILBOX);
            assert_eq!(bytes.as_slice(), &[0x21, 0x01, 0x00, 0x00, 0x00, 0x00, 0x03, 0x00]);
        }
        other => panic!("expected mailbox program, got {other:?}"),
    }
    assert!(matches!(&calls[1], FlashCall::Read(a, 4, _) if *a == MAILBOX));
    match &calls[2] {
        FlashCall::Program(0, bytes) => assert_eq!(bytes.as_slice(), &[1, 2, 3]),
        other => panic!("expected payload program, got {other:?}"),
    }
}

#[test]
fn mailbox_gates_the_payload_on_the_status_word() {
    // A non-success status word stops the transfer before the payload
    // region is touched.
    let flash = ScriptedFlash::new(vec![vec![0x01, 0x00, 0x00, 0x00]], Vec::new());
    let mut dfu = SpiDfu::new(flash);
    match dfu.download(&[9, 9]) {
        Err(MailboxError::Device(e)) => assert_eq!(e, RomError(1)),
        other => panic!("expected device error, got {other:?}"),
    }
    assert_eq!(dfu.flash.calls().len(), 2);
}

#[test]
fn mailbox_get_status_decodes_the_payload_read() {
    let flash = ScriptedFlash::new(
        vec![ok_word()],
        vec![vec![0x00, 0x05, 0x00, 0x00, 0x05, 0x00]],
    );
    let mut dfu = SpiDfu::new(flash);
    let st = dfu.get_status().unwrap();
    assert!(st.status().is_ok());
    assert_eq!(st.poll_timeout(), 5);
    assert_eq!(st.state(), rescue_proto::dfu::DfuState::DnLoadIdle);
}

#[test]
fn mailbox_set_mode_splits_the_identity_code() {
    // The 32-bit mode identity rides in the value (high half) and index
    // (low half) fields of a vendor control write.
    let flash = ScriptedFlash::new(vec![ok_word()], Vec::new());
    let mut dfu = SpiDfu::new(flash);
    dfu.set_mode(RescueMode::BootSvcReq).unwrap();
    match &dfu.flash.calls()[0] {
        FlashCall::Program(addr, bytes) => {
            assert_eq!(*addr, MAILBOX);
            // 0x42525350: value 0x4252, index 0x5350, zero length.
            assert_eq!(bytes.as_slice(), &[0x40, 0x0B, 0x52, 0x42, 0x50, 0x53, 0x00, 0x00]);
        }
        other => panic!("expected mailbox program, got {other:?}"),
    }
}

#[test]
fn mailbox_refuses_an_unknown_mode_before_the_wire() {
    let flash = ScriptedFlash::new(Vec::new(), Vec::new());
    let mut dfu = SpiDfu::new(flash);
    match dfu.set_mode(RescueMode::Other(7)) {
        Err(MailboxError::Mode(RescueMode::Other(7))) => {}
        other => panic!("expected mode error, got {other:?}"),
    }
    assert!(dfu.flash.calls().is_empty());
}

#[test]
fn mailbox_refuses_oversized_payloads() {
    let flash = ScriptedFlash::new(Vec::new(), Vec::new());
    let mut dfu = SpiDfu::new(flash);
    let big = vec![0u8; 0x10000];
    match dfu.download(&big) {
        Err(MailboxError::TooLong) => {}
        other => panic!("expected too-long error, got {other:?}"),
    }
}

#[test]
fn usb_set_mode_applies_the_alternate_setting() {
    let usb = ScriptedUsb::new(Vec::new());
    let mut dfu = UsbDfu::new(usb, 2);
    dfu.set_mode(RescueMode::BootSvcReq).unwrap();
    let calls = dfu.usb.calls();
    assert_eq!(calls.len(), 1);
    assert!(matches!(calls[0], UsbCall::AltSetting(2, 4)));

    match dfu.set_mode(RescueMode::Other(1)) {
        Err(UsbDfuError::Mode(RescueMode::Other(1))) => {}
        other => panic!("expected mode error, got {other:?}"),
    }
}

#[test]
fn usb_requests_carry_the_claimed_interface() {
    let usb = ScriptedUsb::new(vec![vec![0x00, 0x00, 0x00, 0x00, 0x05, 0x00]]);
    let mut dfu = UsbDfu::new(usb, 3);
    let st = dfu.get_status().unwrap();
    assert_eq!(st.state(), rescue_proto::dfu::DfuState::DnLoadIdle);
    dfu.download(&[5, 6]).unwrap();
    dfu.reboot().unwrap();
    let calls = dfu.usb.calls();
    assert!(matches!(&calls[0], UsbCall::In(0xA1, 3, 0, 3, 6, _)));
    match &calls[1] {
        UsbCall::Out(0x21, 1, 0, 3, data) => assert_eq!(data.as_slice(), &[5, 6]),
        other => panic!("expected download, got {other:?}"),
    }
    assert!(matches!(calls[2], UsbCall::Reset));
}

#[test]
fn abort_and_clear_status_use_their_own_request_codes() {
    // Clearing status is request 4; aborting is request 6. Both are
    // zero-length class OUT transfers to the claimed interface.
    let flash = ScriptedFlash::new(vec![ok_word(), ok_word()], Vec::new());
    let mut dfu = SpiDfu::new(flash);
    dfu.clear_status().unwrap();
    dfu.abort().unwrap();
    let calls = dfu.flash.calls();
    match &calls[0] {
        FlashCall::Program(addr, bytes) => {
            assert_eq!(*addr, MAILBOX);
            assert_eq!(bytes.as_slice(), &[0x21, 0x04, 0x00, 0x00, 0x00, 0x00, 0x00, 0x00]);
        }
        other => panic!("expected mailbox program, got {other:?}"),
    }
    match &calls[3] {
        FlashCall::Program(addr, bytes) => {
            assert_eq!(*addr, MAILBOX);
            assert_eq!(bytes.as_slice(), &[0x21, 0x06, 0x00, 0x00, 0x00, 0x00, 0x00, 0x00]);
        }
        other => panic!("expected mailbox program, got {other:?}"),
    }

    let usb = ScriptedUsb::new(Vec::new());
    let mut dfu = UsbDfu::new(usb, 1);
    dfu.clear_status().unwrap();
    dfu.abort().unwrap();
    let calls = dfu.usb.calls();
    match &calls[0] {
        UsbCall::Out(0x21, 4, 0, 1, data) => assert!(data.is_empty()),
        other => panic!("expected clear-status, got {other:?}"),
    }
    match &calls[1] {
        UsbCall::Out(0x21, 6, 0, 1, data) => assert!(data.is_empty()),
        other => panic!("expected abort, got {other:?}"),
    }
}

#[test]
fn orchestrator_drives_the_mailbox_front_end() {
    // The verified orchestrator over the verified mailbox emulation: one
    // data chunk, then the zero-length terminator; the final status
    // reports the manifest state, so a chip reset follows. Each control
    // transfer consumes one status word; each status query one record.
    let idle = vec![0x00, 0x00, 0x00, 0x00, 0x05, 0x00];
    let manifest = vec![0x00, 0x00, 0x00, 0x00, 0x07, 0x00];
    let flash = ScriptedFlash::new(
        vec![ok_word(), ok_word(), ok_word(), ok_word()],
        vec![idle, manifest],
    );
    let mut dfu = SpiDfu::new(flash);
    let orch = TransferOrchestrator::new();
    let data = vec![0x55u8; 10];
    orch.send(&mut dfu, &data).unwrap();
    let calls = dfu.flash.calls();
    match &calls[0] {
        FlashCall::Program(addr, bytes) => {
            assert_eq!(*addr, MAILBOX);
            assert_eq!(bytes.as_slice(), &[0x21, 0x01, 0x00, 0x00, 0x00, 0x00, 0x0A, 0x00]);
        }
        other => panic!("expected download setup, got {other:?}"),
    }
    match &calls[2] {
        FlashCall::Program(0, bytes) => assert_eq!(bytes.as_slice(), &data[..]),
        other => panic!("expected payload program, got {other:?}"),
    }
    assert!(matches!(calls.last().unwrap(), FlashCall::Reset));
}

#[test]
fn orchestrator_drives_the_usb_front_end() {
    // The verified orchestrator over the verified USB front end: one data
    // chunk, then the zero-length terminator; the final status reports the
    // manifest state, so a bus reset follows.
    let idle = vec![0x00, 0x00, 0x00, 0x00, 0x05, 0x00];
    let manifest = vec![0x00, 0x00, 0x00, 0x00, 0x07, 0x00];
    let usb = ScriptedUsb::new(vec![idle, manifest]);
    let mut dfu = UsbDfu::new(usb, 0);
    let orch = TransferOrchestrator::new();
    let data = vec![0x42u8; 100];
    orch.send(&mut dfu, &data).unwrap();
    let calls = dfu.usb.calls();
    assert_eq!(calls.len(), 5);
    match &calls[0] {
        UsbCall::Out(0x21, 1, 0, 0, d) => assert_eq!(d.as_slice(), &data[..]),
        other => panic!("expected download, got {other:?}"),
    }
    assert!(matches!(&calls[1], UsbCall::In(0xA1, 3, 0, 0, 6, _)));
    match &calls[2] {
        UsbCall::Out(0x21, 1, 0, 0, d) => assert!(d.is_empty()),
        other => panic!("expected terminator download, got {other:?}"),
    }
    assert!(matches!(&calls[3], UsbCall::In(0xA1, 3, 0, 0, 6, _)));
    assert!(matches!(&calls[4], UsbCall::Reset));
}

#[test]
fn dfu_interface_discovery_picks_the_first_match() {
    let descs = vec![
        InterfaceDesc { class_code: 0x03, sub_class_code: 0, protocol_code: 0, number: 0 },
        InterfaceDesc { class_code: 0xFE, sub_class_code: 1, protocol_code: 2, number: 4 },
        InterfaceDesc { class_code: 0xFE, sub_class_code: 1, protocol_code: 2, number: 9 },
    ];
    assert_eq!(find_dfu_interface(&descs), Some(4));

    let none = vec![InterfaceDesc { class_code: 0xFE, sub_class_code: 1, protocol_code: 1, number: 1 }];
    assert_eq!(find_dfu_interface(&none), None);
    assert_eq!(find_dfu_interface(&Vec::new()), None);
}

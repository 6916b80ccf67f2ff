use rescue_proto::dfu::DfuCall;
use rescue_proto::dfu::DfuError;
use rescue_proto::dfu::DfuRequest;
use rescue_proto::dfu::DfuRequestType;
use rescue_proto::dfu::DfuState;
use rescue_proto::dfu::DfuStatus;
use rescue_proto::dfu::ScriptedDfu;
use rescue_proto::orchestrator::DfuTransferError;
use rescue_proto::orchestrator::TransferOrchestrator;

fn ok_status(state: DfuState) -> DfuStatus {
    DfuStatus::new(DfuError::Success, 0, state, 0)
}

fn downloads(calls: &[DfuCall]) -> Vec<Vec<u8>> {
    calls
        .iter()
        .filter_map(|c| match c {
            DfuCall::Download(v) => Some(v.clone()),
            _ => None,
        })
        .collect()
}

#[test]
fn status_record_decodes_the_fixed_layout() {
    // Error cause, 24-bit little-endian poll timeout, state, string index.
    let st = DfuStatus::from_bytes(&[0x00, 0x10, 0x27, 0x00, 0x05, 0x07]);
    assert!(st.status().is_ok());
    assert_eq!(st.poll_timeout(), 10000);
    assert_eq!(st.state(), DfuState::DnLoadIdle);
    assert_eq!(st.string(), 7);

    let bad = DfuStatus::from_bytes(&[0x03, 0x01, 0x00, 0x02, 0x0A, 0x00]);
    assert_eq!(bad.status(), Err(DfuError::Write));
    assert_eq!(bad.poll_timeout(), 0x020001);
    assert_eq!(bad.state(), DfuState::Error);
}

#[test]
fn unknown_wire_codes_decode_to_catch_alls() {
    assert_eq!(DfuState::from_byte(11), DfuState::Other(11));
    assert_eq!(DfuState::from_byte(10), DfuState::Error);
    assert_eq!(DfuError::from_byte(16), DfuError::Other(16));
    assert_eq!(DfuError::from_byte(15), DfuError::StalledPkt);
    assert_eq!(DfuError::from_byte(0), DfuError::Success);
}

#[test]
fn request_codes_match_the_wire() {
    assert_eq!(DfuRequest::Detach.code(), 0);
    assert_eq!(DfuRequest::DnLoad.code(), 1);
    assert_eq!(DfuRequest::UpLoad.code(), 2);
    assert_eq!(DfuRequest::GetStatus.code(), 3);
    assert_eq!(DfuRequest::ClrStatus.code(), 4);
    assert_eq!(DfuRequest::GetState.code(), 5);
    assert_eq!(DfuRequest::Abort.code(), 6);
    assert_eq!(DfuRequest::BusReset.code(), 7);
    assert_eq!(DfuRequestType::Out.code(), 0x21);
    assert_eq!(DfuRequestType::In.code(), 0xA1);
}

#[test]
fn send_chunks_payload_and_reboots_after_manifest() {
    // 5000 bytes at 2048-byte chunking: chunks 2048, 2048, 904, then the
    // zero-length terminator; the final status reports the manifest state
    // and no deferred wait was requested, so a reboot follows.
    let data: Vec<u8> = (0..5000u32).map(|i| (i % 241) as u8).collect();
    let statuses = vec![
        ok_status(DfuState::DnLoadIdle),
        ok_status(DfuState::DnLoadIdle),
        ok_status(DfuState::DnLoadIdle),
        ok_status(DfuState::Manifest),
    ];
    let mut dev = ScriptedDfu::new(statuses, Vec::new());
    let orch = TransferOrchestrator::new();
    orch.send(&mut dev, &data).unwrap();

    let calls = dev.calls();
    let dl = downloads(calls);
    assert_eq!(dl.len(), 4);
    assert_eq!(dl[0].len(), 2048);
    assert_eq!(dl[1].len(), 2048);
    assert_eq!(dl[2].len(), 904);
    assert_eq!(dl[3].len(), 0);
    assert_eq!(dl[0].as_slice(), &data[..2048]);
    assert_eq!(dl[1].as_slice(), &data[2048..4096]);
    assert_eq!(dl[2].as_slice(), &data[4096..]);
    assert!(matches!(calls.last().unwrap(), DfuCall::Reboot));
}

#[test]
fn send_defers_reboot_when_wait_requested() {
    let data = vec![1u8; 100];
    let statuses = vec![ok_status(DfuState::DnLoadIdle), ok_status(DfuState::Manifest)];
    let mut dev = ScriptedDfu::new(statuses, Vec::new());
    let mut orch = TransferOrchestrator::new();
    orch.set_wait();
    orch.send(&mut dev, &data).unwrap();
    assert!(!dev.calls().iter().any(|c| matches!(c, DfuCall::Reboot)));
}

#[test]
fn send_skips_reboot_outside_manifest_state() {
    let data = vec![2u8; 10];
    let statuses = vec![ok_status(DfuState::DnLoadIdle), ok_status(DfuState::Idle)];
    let mut dev = ScriptedDfu::new(statuses, Vec::new());
    let orch = TransferOrchestrator::new();
    orch.send(&mut dev, &data).unwrap();
    assert!(!dev.calls().iter().any(|c| matches!(c, DfuCall::Reboot)));
}

#[test]
fn send_polls_with_the_device_chosen_timeout() {
    let data = vec![3u8; 10];
    let statuses = vec![
        DfuStatus::new(DfuError::Success, 25, DfuState::DnLoadBusy, 0),
        DfuStatus::new(DfuError::Success, 7, DfuState::DnLoadSync, 0),
        ok_status(DfuState::DnLoadIdle),
        ok_status(DfuState::Idle),
    ];
    let mut dev = ScriptedDfu::new(statuses, Vec::new());
    let orch = TransferOrchestrator::new();
    orch.send(&mut dev, &data).unwrap();
    let delays: Vec<u32> = dev
        .calls()
        .iter()
        .filter_map(|c| match c {
            DfuCall::Delay(ms) => Some(*ms),
            _ => None,
        })
        .collect();
    assert_eq!(delays, vec![25, 7]);
}

#[test]
fn send_surfaces_a_device_reported_error_and_aborts() {
    // The first chunk settles with a device-reported programming error:
    // the whole transfer aborts, nothing more is downloaded.
    let data = vec![4u8; 4096];
    let statuses = vec![DfuStatus::new(DfuError::Prog, 0, DfuState::Error, 0)];
    let mut dev = ScriptedDfu::new(statuses, Vec::new());
    let orch = TransferOrchestrator::new();
    match orch.send(&mut dev, &data) {
        Err(DfuTransferError::Status(e)) => assert_eq!(e, DfuError::Prog),
        other => panic!("expected device error, got {other:?}"),
    }
    assert_eq!(downloads(dev.calls()).len(), 1);
}

#[test]
fn send_propagates_a_starved_status_stream_as_transport_failure() {
    let data = vec![5u8; 10];
    let mut dev = ScriptedDfu::new(Vec::new(), Vec::new());
    let orch = TransferOrchestrator::new();
    match orch.send(&mut dev, &data) {
        Err(DfuTransferError::Transport(_)) => {}
        other => panic!("expected transport error, got {other:?}"),
    }
}

#[test]
fn recv_is_single_shot_and_zero_filled() {
    let statuses = Vec::new();
    let mut dev = ScriptedDfu::new(statuses, vec![9, 8, 7]);
    let orch = TransferOrchestrator::new();
    let v = orch.recv(&mut dev).unwrap();
    assert_eq!(v.len(), 2048);
    assert_eq!(&v[..3], &[9, 8, 7]);
    assert!(v[3..].iter().all(|b| *b == 0));
    let calls = dev.calls();
    assert_eq!(calls.len(), 1);
    match &calls[0] {
        DfuCall::Upload(max, reply) => {
            assert_eq!(*max, 2048);
            assert_eq!(reply.as_slice(), &[9, 8, 7]);
        }
        other => panic!("expected upload, got {other:?}"),
    }
}

#[test]
fn empty_payload_sends_only_the_terminator() {
    let statuses = vec![ok_status(DfuState::Idle)];
    let mut dev = ScriptedDfu::new(statuses, Vec::new());
    let orch = TransferOrchestrator::new();
    orch.send(&mut dev, &[]).unwrap();
    let dl = downloads(dev.calls());
    assert_eq!(dl.len(), 1);
    assert!(dl[0].is_empty());
}

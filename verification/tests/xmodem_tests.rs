use rescue_proto::crc::crc16;
use rescue_proto::transport::ByteTransport;
use rescue_proto::transport::ScriptedTransport;
use rescue_proto::xmodem::ACK;
use rescue_proto::xmodem::CAN;
use rescue_proto::xmodem::CRC_MODE;
use rescue_proto::xmodem::EOF;
use rescue_proto::xmodem::NAK;
use rescue_proto::xmodem::SOH;
use rescue_proto::xmodem::STX;
use rescue_proto::xmodem::UnsupportedReason;
use rescue_proto::xmodem::Xmodem;
use rescue_proto::xmodem::XmodemError;

fn peer(script: Vec<u8>) -> ScriptedTransport {
    ScriptedTransport::new(script)
}

fn frame_1024(num: u8, payload: &[u8]) -> Vec<u8> {
    assert_eq!(payload.len(), 1024);
    let mut f = vec![STX, num, 255 - num];
    f.extend_from_slice(payload);
    let c = crc16(payload);
    f.push((c >> 8) as u8);
    f.push((c & 0xFF) as u8);
    f
}

#[test]
fn crc16_known_value() {
    assert_eq!(crc16(b"123456789"), 0x31C3);
    assert_eq!(crc16(b""), 0x0000);
}

#[test]
fn crc16_reproducible_across_runs() {
    let data: Vec<u8> = (0..255u32).map(|i| (i * 7 % 256) as u8).collect();
    assert_eq!(crc16(&data), crc16(&data.clone()));
}

#[test]
fn crc16_detects_single_bit_flip() {
    let data: Vec<u8> = (0..64u32).map(|i| i as u8).collect();
    let clean = crc16(&data);
    for i in 0..data.len() {
        for k in 0..8u8 {
            let mut corrupt = data.clone();
            corrupt[i] ^= 1 << k;
            assert_ne!(crc16(&corrupt), clean);
        }
    }
}

#[test]
fn send_two_blocks_with_padding() {
    // 2000 bytes at block length 1024: block 1 carries 1024 real bytes,
    // block 2 carries 976 real bytes and 48 pad bytes.
    let xmodem = Xmodem::new();
    assert_eq!(xmodem.block_len, 1024);
    assert_eq!(xmodem.pad_byte, 0xFF);
    assert_eq!(xmodem.max_errors, 16);
    let data: Vec<u8> = (0..2000u32).map(|i| (i % 251) as u8).collect();
    let mut uart = peer(vec![CRC_MODE, ACK, ACK, ACK]);
    xmodem.send(&mut uart, &data).unwrap();

    let wire = uart.written();
    assert_eq!(wire.len(), 2 * (1024 + 5) + 1);

    let p1 = data[..1024].to_vec();
    let f1 = frame_1024(1, &p1);
    assert_eq!(&wire[..1029], f1.as_slice());

    let mut p2 = data[1024..].to_vec();
    p2.resize(1024, 0xFF);
    let f2 = frame_1024(2, &p2);
    assert_eq!(&wire[1029..2058], f2.as_slice());
    assert_eq!(wire[2058], EOF);
}

#[test]
fn send_round_trips_through_receive() {
    let xmodem = Xmodem::new();
    let data: Vec<u8> = (0..3000u32).map(|i| (i % 199) as u8).collect();
    let mut uart = peer(vec![CRC_MODE, ACK, ACK, ACK, ACK]);
    xmodem.send(&mut uart, &data).unwrap();

    // Feed the sender's wire into the receiver; the sink reproduces the
    // original stream on its meaningful prefix and is block-padded beyond.
    let wire = uart.written().clone();
    let mut back = peer(wire);
    let mut sink: Vec<u8> = Vec::new();
    xmodem.receive(&mut back, &mut sink).unwrap();
    assert_eq!(sink.len(), 3 * 1024);
    assert_eq!(&sink[..3000], data.as_slice());
    assert!(sink[3000..].iter().all(|b| *b == 0xFF));
    // The receiver solicited CRC framing then acknowledged three blocks
    // and the end of transfer.
    assert_eq!(back.written().as_slice(), &[CRC_MODE, ACK, ACK, ACK, ACK]);
}

#[test]
fn send_converges_after_retries() {
    // The peer NAKs the only block three times before acknowledging it:
    // the sender retransmits the identical frame each time and completes.
    let xmodem = Xmodem::new();
    let data = vec![0xAB; 10];
    let mut uart = peer(vec![CRC_MODE, NAK, NAK, NAK, ACK, ACK]);
    xmodem.send(&mut uart, &data).unwrap();

    let wire = uart.written();
    assert_eq!(wire.len(), 4 * 1029 + 1);
    let first = &wire[..1029];
    for copy in 1..4 {
        assert_eq!(&wire[copy * 1029..(copy + 1) * 1029], first);
    }
    let mut padded = data.clone();
    padded.resize(1024, 0xFF);
    assert_eq!(first, frame_1024(1, &padded).as_slice());
    assert_eq!(wire[4 * 1029], EOF);
}

#[test]
fn send_exhausts_retries_exactly_one_past_the_ceiling() {
    let xmodem = Xmodem { max_errors: 3, pad_byte: 0xFF, block_len: 1024 };
    let data = vec![1, 2, 3];
    let mut uart = peer(vec![CRC_MODE, NAK, NAK, NAK, NAK, NAK, NAK]);
    match xmodem.send(&mut uart, &data) {
        Err(XmodemError::ExhaustedRetries(n)) => assert_eq!(n, 4),
        other => panic!("expected exhausted retries, got {other:?}"),
    }
}

#[test]
fn send_cancelled_needs_two_consecutive_cancels() {
    let xmodem = Xmodem::new();
    let data = vec![9; 4];
    // A lone cancel between other responses does not abort.
    let mut uart = peer(vec![CRC_MODE, CAN, NAK, CAN, ACK, ACK]);
    xmodem.send(&mut uart, &data).unwrap();

    // Two in a row do.
    let mut uart2 = peer(vec![CRC_MODE, CAN, CAN]);
    match xmodem.send(&mut uart2, &data) {
        Err(XmodemError::Cancelled) => {}
        other => panic!("expected cancelled, got {other:?}"),
    }
}

#[test]
fn send_start_rejects_checksum_mode() {
    let xmodem = Xmodem::new();
    let mut uart = peer(vec![NAK]);
    match xmodem.send(&mut uart, &[1]) {
        Err(XmodemError::UnsupportedMode(r)) => assert_eq!(r, UnsupportedReason::ChecksumOnly),
        other => panic!("expected unsupported mode, got {other:?}"),
    }
}

#[test]
fn send_start_skips_unknown_bytes() {
    let xmodem = Xmodem::new();
    let mut uart = peer(vec![0x00, 0x7F, CRC_MODE, ACK, ACK]);
    xmodem.send(&mut uart, &[5; 8]).unwrap();
}

#[test]
fn send_rejects_unsupported_block_length() {
    let xmodem = Xmodem { max_errors: 16, pad_byte: 0xFF, block_len: 512 };
    let mut uart = peer(vec![CRC_MODE]);
    match xmodem.send(&mut uart, &[1, 2]) {
        Err(XmodemError::UnsupportedMode(r)) => {
            assert_eq!(r, UnsupportedReason::BlockLength(512));
        }
        other => panic!("expected unsupported mode, got {other:?}"),
    }
}

#[test]
fn receive_naks_bad_crc_then_accepts_resend_once() {
    // Scenario: a 1024-byte frame arrives with a corrupted checksum, then
    // the identical frame arrives clean. The receiver NAKs the first, does
    // not advance, accepts the second exactly once.
    let xmodem = Xmodem::new();
    let payload: Vec<u8> = (0..1024u32).map(|i| (i % 13) as u8).collect();
    let mut bad = frame_1024(1, &payload);
    let last = bad.len() - 1;
    bad[last] ^= 0xFF;
    let good = frame_1024(1, &payload);

    let mut script = bad;
    script.extend_from_slice(&good);
    script.push(EOF);
    let mut uart = peer(script);
    let mut sink: Vec<u8> = Vec::new();
    xmodem.receive(&mut uart, &mut sink).unwrap();
    assert_eq!(sink, payload);
    assert_eq!(uart.written().as_slice(), &[CRC_MODE, NAK, ACK, ACK]);
}

#[test]
fn receive_cancels_on_block_number_mismatch_after_draining() {
    let xmodem = Xmodem::new();
    let payload = vec![7u8; 1024];
    // The frame announces block 2 while block 1 is expected: the receiver
    // drains the whole frame, then writes two cancels.
    let script = frame_1024(2, &payload);
    let mut uart = peer(script);
    let mut sink: Vec<u8> = Vec::new();
    match xmodem.receive(&mut uart, &mut sink) {
        Err(XmodemError::Cancelled) => {}
        other => panic!("expected cancelled, got {other:?}"),
    }
    assert!(sink.is_empty());
    assert_eq!(uart.written().as_slice(), &[CRC_MODE, CAN, CAN]);
    assert_eq!(uart.remaining(), 0);
}

#[test]
fn receive_cancels_on_bad_complement() {
    let xmodem = Xmodem::new();
    let payload = vec![3u8; 1024];
    let mut script = frame_1024(1, &payload);
    script[2] = 200; // complement of block 1 must be 254
    let mut uart = peer(script);
    let mut sink: Vec<u8> = Vec::new();
    match xmodem.receive(&mut uart, &mut sink) {
        Err(XmodemError::Cancelled) => {}
        other => panic!("expected cancelled, got {other:?}"),
    }
    assert_eq!(uart.written().as_slice(), &[CRC_MODE, CAN, CAN]);
}

#[test]
fn receive_exhausts_retries_exactly_one_past_the_ceiling() {
    let xmodem = Xmodem { max_errors: 2, pad_byte: 0xFF, block_len: 1024 };
    let payload = vec![1u8; 1024];
    let mut bad = frame_1024(1, &payload);
    let last = bad.len() - 1;
    bad[last] ^= 0x55;
    let mut script = Vec::new();
    for _ in 0..3 {
        script.extend_from_slice(&bad);
    }
    let mut uart = peer(script);
    let mut sink: Vec<u8> = Vec::new();
    match xmodem.receive(&mut uart, &mut sink) {
        Err(XmodemError::ExhaustedRetries(n)) => assert_eq!(n, 3),
        other => panic!("expected exhausted retries, got {other:?}"),
    }
    assert!(sink.is_empty());
}

#[test]
fn receive_rejects_unknown_packet_start() {
    let xmodem = Xmodem::new();
    let mut uart = peer(vec![0x7F]);
    let mut sink: Vec<u8> = Vec::new();
    match xmodem.receive(&mut uart, &mut sink) {
        Err(XmodemError::UnsupportedMode(r)) => {
            assert_eq!(r, UnsupportedReason::PacketStart(0x7F));
        }
        other => panic!("expected unsupported mode, got {other:?}"),
    }
}

#[test]
fn receive_accepts_short_blocks() {
    // A 128-byte frame under SOH framing.
    let xmodem = Xmodem::new();
    let payload: Vec<u8> = (0..128u32).map(|i| i as u8).collect();
    let mut script = vec![SOH, 1, 254];
    script.extend_from_slice(&payload);
    let c = crc16(&payload);
    script.push((c >> 8) as u8);
    script.push((c & 0xFF) as u8);
    script.push(EOF);
    let mut uart = peer(script);
    let mut sink: Vec<u8> = Vec::new();
    xmodem.receive(&mut uart, &mut sink).unwrap();
    assert_eq!(sink, payload);
}

#[test]
fn block_numbers_wrap_modulo_256() {
    // 256 blocks of 128 bytes: block numbers run 1..=255 then wrap to 0.
    let xmodem = Xmodem { max_errors: 16, pad_byte: 0xFF, block_len: 128 };
    let data = vec![0x5A_u8; 256 * 128];
    let mut script = vec![CRC_MODE];
    script.extend(std::iter::repeat(ACK).take(257));
    let mut uart = peer(script);
    xmodem.send(&mut uart, &data).unwrap();
    let wire = uart.written();
    let frame_len = 128 + 5;
    // Block 255 is numbered 255; block 256 wraps to 0.
    assert_eq!(wire[254 * frame_len + 1], 255);
    assert_eq!(wire[255 * frame_len + 1], 0);
    assert_eq!(wire[255 * frame_len + 2], 255);
}

#[test]
fn transport_failure_propagates() {
    // The peer delivers nothing: the first start-byte read fails.
    let xmodem = Xmodem::new();
    let mut uart = peer(Vec::new());
    match xmodem.send(&mut uart, &[1]) {
        Err(XmodemError::Transport(_)) => {}
        other => panic!("expected transport error, got {other:?}"),
    }
}

use std::cell::RefCell;
use std::rc::Rc;

use pms700x::Command;
use pms700x::CommandWriter;
use pms700x::Pms700X;
use pms700x::SensorData;
use pms700x::SensorReader;
use pms700x::Sleep;
use pms700x::Step;
use pms700x::Transition;
use pms700x::Transport;

/// Scripted serial port: replays `incoming` one byte per read, records every
/// written byte, and optionally fails writes with a fixed error code.
struct ScriptPort {
    incoming: Vec<u8>,
    pos: usize,
    sent: Rc<RefCell<Vec<u8>>>,
    fail_writes: bool,
}

impl ScriptPort {
    fn new(incoming: Vec<u8>) -> (Self, Rc<RefCell<Vec<u8>>>) {
        let sent = Rc::new(RefCell::new(Vec::new()));
        (ScriptPort { incoming, pos: 0, sent: sent.clone(), fail_writes: false }, sent)
    }
}

impl Transport<u8> for ScriptPort {
    fn read(&mut self) -> Step<u8, u8> {
        if self.pos < self.incoming.len() {
            let b = self.incoming[self.pos];
            self.pos += 1;
            Step::Complete(b)
        } else {
            Step::Pending
        }
    }

    fn write(&mut self, byte: u8) -> Step<(), u8> {
        if self.fail_writes {
            Step::Failed(42)
        } else {
            self.sent.borrow_mut().push(byte);
            Step::Complete(())
        }
    }

    fn flush(&mut self) -> Step<(), u8> {
        Step::Complete(())
    }
}

/// The 32-byte measurement frame carrying the twelve fields, with declared
/// length 28 and a trailing checksum over the first 30 bytes.
fn measurement_frame(fields: &[u16; 12]) -> Vec<u8> {
    let mut f = vec![0x42u8, 0x4d, 0x00, 0x1c];
    for v in fields.iter() {
        f.push((v >> 8) as u8);
        f.push((v & 0xff) as u8);
    }
    f.push(0);
    f.push(0);
    let sum: u16 = f.iter().map(|b| *b as u16).sum();
    f.push((sum >> 8) as u8);
    f.push((sum & 0xff) as u8);
    f
}

fn feed_all(reader: &mut SensorReader, bytes: &[u8]) -> Vec<usize> {
    let mut completions = Vec::new();
    for (i, b) in bytes.iter().enumerate() {
        if reader.accept(*b) {
            completions.push(i);
        }
    }
    completions
}

fn emit_frame(writer: &mut CommandWriter, port: &mut ScriptPort) {
    for _ in 0..100 {
        match writer.write(port) {
            Step::Complete(()) => return,
            Step::Pending => {}
            Step::Failed(e) => panic!("unexpected transport error {}", e),
        }
    }
    panic!("command frame never finished");
}

#[test]
fn command_frames_decode_back() {
    let cases = [
        (Command::SetMode, 1u16),
        (Command::SetMode, 0),
        (Command::ReadPassive, 0),
        (Command::SetSleep, 0),
        (Command::SetSleep, 1),
        (Command::SetSleep, 0x1234),
    ];
    for (cmd, payload) in cases.iter() {
        let (mut port, sent) = ScriptPort::new(Vec::new());
        let mut writer = CommandWriter::new(*cmd, *payload);
        emit_frame(&mut writer, &mut port);
        let bytes = sent.borrow().clone();
        assert_eq!(bytes.len(), 7);
        assert_eq!(bytes[0], 0x42);
        assert_eq!(bytes[1], 0x4d);
        assert_eq!(bytes[2], cmd.code());
        let decoded_payload = ((bytes[3] as u16) << 8) | bytes[4] as u16;
        assert_eq!(decoded_payload, *payload);
        let sum: u16 = bytes[..5].iter().map(|b| *b as u16).sum();
        let trailing = ((bytes[5] as u16) << 8) | bytes[6] as u16;
        assert_eq!(trailing, sum);
        for other in [Command::ReadPassive, Command::SetMode, Command::SetSleep, Command::Idle] {
            if other != *cmd {
                assert_ne!(other.code(), cmd.code());
            }
        }
    }
}

#[test]
fn command_frame_exact_bytes() {
    let (mut port, sent) = ScriptPort::new(Vec::new());
    let mut writer = CommandWriter::new(Command::SetMode, 1);
    emit_frame(&mut writer, &mut port);
    assert_eq!(*sent.borrow(), vec![0x42, 0x4d, 0xe1, 0x00, 0x01, 0x01, 0x71]);
}

#[test]
fn noise_then_frame_resynchronizes() {
    let fields = [900u16, 20, 30, 11, 21, 31, 1, 2, 3, 4, 5, 6];
    let frame = measurement_frame(&fields);
    let mut bytes = vec![0x00u8, 0xff, 0x41, 0x4d, 0x13, 0x99];
    let noise_len = bytes.len();
    bytes.extend_from_slice(&frame);
    let mut reader = SensorReader::default();
    let completions = feed_all(&mut reader, &bytes);
    assert_eq!(completions, vec![noise_len + frame.len() - 1]);
    assert!(reader.validate_data());
    let data = SensorData::from_raw(&reader.frame_window());
    assert_eq!(data.pm10, 900);
    assert_eq!(data.pm100_count, 6);
}

#[test]
fn torn_header_resynchronizes() {
    let fields = [1u16, 2, 3, 4, 5, 6, 7, 8, 9, 10, 11, 12];
    let frame = measurement_frame(&fields);
    // A frame start that breaks off after the magic pair, then a good frame.
    let mut bytes = vec![0x42u8, 0x13, 0x42, 0x4d, 0x07];
    let prefix_len = bytes.len();
    bytes.extend_from_slice(&frame);
    let mut reader = SensorReader::default();
    let completions = feed_all(&mut reader, &bytes);
    assert_eq!(completions, vec![prefix_len + frame.len() - 1]);
    assert!(reader.validate_data());
}

#[test]
fn oversize_length_resets_cursor() {
    let fields = [7u16, 0, 0, 0, 0, 0, 0, 0, 0, 0, 0, 7];
    let frame = measurement_frame(&fields);
    // Declared length 33 is over the limit: the reader must resynchronize
    // and still collect the following good frame cleanly.
    let mut bytes = vec![0x42u8, 0x4d, 0x00, 33];
    let prefix_len = bytes.len();
    bytes.extend_from_slice(&frame);
    let mut reader = SensorReader::default();
    let completions = feed_all(&mut reader, &bytes);
    assert_eq!(completions, vec![prefix_len + frame.len() - 1]);
    assert!(reader.validate_data());
}

#[test]
fn largest_declared_length_completes() {
    // Declared length 32, the largest accepted: 4 header bytes plus 32 more.
    let mut frame = vec![0x42u8, 0x4d, 0x00, 32];
    for i in 0..30u8 {
        frame.push(i);
    }
    let sum: u16 = frame.iter().map(|b| *b as u16).sum();
    frame.push((sum >> 8) as u8);
    frame.push((sum & 0xff) as u8);
    assert_eq!(frame.len(), 36);
    let mut reader = SensorReader::default();
    let completions = feed_all(&mut reader, &frame);
    assert_eq!(completions, vec![35]);
    assert!(reader.validate_data());
}

#[test]
fn flipped_checksum_bytes_fail_validation() {
    let fields = [10u16, 20, 30, 11, 21, 31, 1, 2, 3, 4, 5, 6];
    let good = measurement_frame(&fields);

    let mut reader = SensorReader::default();
    feed_all(&mut reader, &good);
    assert!(reader.validate_data());

    let mut high_flipped = good.clone();
    high_flipped[30] = high_flipped[30].wrapping_add(1);
    let mut reader = SensorReader::default();
    let completions = feed_all(&mut reader, &high_flipped);
    assert_eq!(completions, vec![31]);
    assert!(!reader.validate_data());

    let mut low_flipped = good.clone();
    low_flipped[31] = low_flipped[31].wrapping_add(0x80);
    let mut reader = SensorReader::default();
    let completions = feed_all(&mut reader, &low_flipped);
    assert_eq!(completions, vec![31]);
    assert!(!reader.validate_data());
}

#[test]
fn response_frame_round_trips() {
    let fields = [0u16, 65535, 256, 255, 1, 0x1234, 42, 7, 300, 40000, 5, 60000];
    let frame = measurement_frame(&fields);
    let mut reader = SensorReader::default();
    let completions = feed_all(&mut reader, &frame);
    assert_eq!(completions, vec![frame.len() - 1]);
    assert!(reader.validate_data());
    let data = SensorData::from_raw(&reader.frame_window());
    assert_eq!(data.pm10, fields[0]);
    assert_eq!(data.pm25, fields[1]);
    assert_eq!(data.pm100, fields[2]);
    assert_eq!(data.pm10_atmos, fields[3]);
    assert_eq!(data.pm25_atmos, fields[4]);
    assert_eq!(data.pm100_atmos, fields[5]);
    assert_eq!(data.pm03_count, fields[6]);
    assert_eq!(data.pm05_count, fields[7]);
    assert_eq!(data.pm10_count, fields[8]);
    assert_eq!(data.pm25_count, fields[9]);
    assert_eq!(data.pm50_count, fields[10]);
    assert_eq!(data.pm100_count, fields[11]);
}

#[test]
fn broadcast_frame_concrete_scenario() {
    let fields = [10u16, 20, 30, 11, 21, 31, 1, 2, 3, 4, 5, 6];
    let frame = measurement_frame(&fields);
    assert_eq!(&frame[..4], &[0x42, 0x4d, 0x00, 0x1c]);
    let sum: u16 = frame[..30].iter().map(|b| *b as u16).sum();
    assert_eq!(((frame[30] as u16) << 8) | frame[31] as u16, sum);
    let mut reader = SensorReader::default();
    let mut completed_at = None;
    for (i, b) in frame.iter().enumerate() {
        if reader.accept(*b) {
            assert!(completed_at.is_none());
            completed_at = Some(i);
        }
    }
    assert_eq!(completed_at, Some(frame.len() - 1));
    assert!(reader.validate_data());
    let data = SensorData::from_raw(&reader.frame_window());
    assert_eq!(data.pm10, 10);
    assert_eq!(data.pm25, 20);
    assert_eq!(data.pm100, 30);
    assert_eq!(data.pm10_atmos, 11);
    assert_eq!(data.pm25_atmos, 21);
    assert_eq!(data.pm100_atmos, 31);
    assert_eq!(data.pm03_count, 1);
    assert_eq!(data.pm05_count, 2);
    assert_eq!(data.pm10_count, 3);
    assert_eq!(data.pm25_count, 4);
    assert_eq!(data.pm50_count, 5);
    assert_eq!(data.pm100_count, 6);
}

#[test]
fn from_raw_reads_fixed_offsets() {
    let mut raw = [0u8; 32];
    raw[4] = 0x12;
    raw[5] = 0x34;
    raw[26] = 0x01;
    raw[27] = 0x02;
    let data = SensorData::from_raw(&raw);
    assert_eq!(data.pm10, 0x1234);
    assert_eq!(data.pm100_count, 0x0102);
    assert_eq!(data.pm25, 0);
}

/// An acknowledge frame the sensor sends after a mode or sleep command:
/// declared length 4, carrying the echoed command code.
fn ack_frame(code: u8) -> Vec<u8> {
    let mut f = vec![0x42u8, 0x4d, 0x00, 0x04, code, 0x00];
    let sum: u16 = f.iter().map(|b| *b as u16).sum();
    f.push((sum >> 8) as u8);
    f.push((sum & 0xff) as u8);
    f
}

#[test]
fn passive_mode_read_cycle() {
    let fields = [3u16, 1, 4, 1, 5, 9, 2, 6, 5, 3, 5, 8];
    let mut incoming = ack_frame(0xe1);
    incoming.extend_from_slice(&measurement_frame(&fields));
    let (port, sent) = ScriptPort::new(incoming);
    let mut driver = Pms700X::new(port);
    let mut passive = None;
    for _ in 0..1000 {
        match driver.into_passive() {
            Transition::Complete(d) => {
                passive = Some(d);
                break;
            }
            Transition::Pending(p) => driver = p,
            Transition::Failed(e) => panic!("unexpected transport error {}", e),
        }
    }
    let mut passive = passive.expect("mode change never finished");
    assert_eq!(&sent.borrow()[..7], &[0x42, 0x4d, 0xe1, 0x00, 0x00, 0x01, 0x70]);

    let mut result = None;
    for _ in 0..1000 {
        match passive.read() {
            Step::Complete(d) => {
                result = Some(d);
                break;
            }
            Step::Pending => {}
            Step::Failed(e) => panic!("unexpected transport error {}", e),
        }
    }
    let data = result.expect("read never finished");
    assert_eq!(data.pm10, 3);
    assert_eq!(data.pm100_count, 8);
    assert_eq!(&sent.borrow()[7..], &[0x42, 0x4d, 0xe2, 0x00, 0x00, 0x01, 0x71]);
}

#[test]
fn active_mode_read_skips_garbage() {
    let fields = [8u16, 0, 0, 0, 0, 0, 0, 0, 0, 0, 0, 9];
    let mut incoming = ack_frame(0xe1);
    incoming.extend_from_slice(&[0x00, 0x99, 0x41]);
    incoming.extend_from_slice(&measurement_frame(&fields));
    let (port, sent) = ScriptPort::new(incoming);
    let mut driver = Pms700X::new(port);
    let mut active = None;
    for _ in 0..1000 {
        match driver.into_active() {
            Transition::Complete(d) => {
                active = Some(d);
                break;
            }
            Transition::Pending(p) => driver = p,
            Transition::Failed(e) => panic!("unexpected transport error {}", e),
        }
    }
    let mut active = active.expect("mode change never finished");
    assert_eq!(&sent.borrow()[..7], &[0x42, 0x4d, 0xe1, 0x00, 0x01, 0x01, 0x71]);

    let mut result = None;
    for _ in 0..1000 {
        match active.read() {
            Step::Complete(d) => {
                result = Some(d);
                break;
            }
            Step::Pending => {}
            Step::Failed(e) => panic!("unexpected transport error {}", e),
        }
    }
    let data = result.expect("read never finished");
    assert_eq!(data.pm10, 8);
    assert_eq!(data.pm100_count, 9);
    // An active read issues no command of its own.
    assert_eq!(sent.borrow().len(), 7);
}

#[test]
fn wakeup_needs_no_response() {
    let (port, sent) = ScriptPort::new(Vec::new());
    let mut driver = Pms700X::new(port);
    let mut done = false;
    for _ in 0..1000 {
        match driver.set_sleeping(Sleep::Wakeup) {
            Step::Complete(()) => {
                done = true;
                break;
            }
            Step::Pending => {}
            Step::Failed(e) => panic!("unexpected transport error {}", e),
        }
    }
    assert!(done, "wakeup never finished without any incoming byte");
    assert_eq!(*sent.borrow(), vec![0x42, 0x4d, 0xe4, 0x00, 0x01, 0x01, 0x74]);
}

#[test]
fn sleep_waits_for_response() {
    let incoming = ack_frame(0xe4);
    let (port, sent) = ScriptPort::new(incoming);
    let mut driver = Pms700X::new(port);
    let mut done = false;
    for _ in 0..1000 {
        match driver.set_sleeping(Sleep::Sleep) {
            Step::Complete(()) => {
                done = true;
                break;
            }
            Step::Pending => {}
            Step::Failed(e) => panic!("unexpected transport error {}", e),
        }
    }
    assert!(done, "sleep never finished");
    assert_eq!(*sent.borrow(), vec![0x42, 0x4d, 0xe4, 0x00, 0x00, 0x01, 0x73]);
}

#[test]
fn transport_error_is_passed_through() {
    let (mut port, _sent) = ScriptPort::new(Vec::new());
    port.fail_writes = true;
    let driver = Pms700X::new(port);
    match driver.into_active() {
        Transition::Failed(e) => assert_eq!(e, 42),
        _ => panic!("expected the write error to surface"),
    }
}

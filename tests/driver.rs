use nexstar::{
    dec_dms, DateTime, Device, Error, Location, Model, NexStar, SerialRead, SerialWrite, Version,
};

/// Hands out a fixed script of bytes, then fails every read.
struct Script {
    bytes: Vec<u8>,
    pos: usize,
    attempts: usize,
}

impl Script {
    fn new(bytes: &[u8]) -> Script {
        Script { bytes: bytes.to_vec(), pos: 0, attempts: 0 }
    }

    fn left(&self) -> &[u8] {
        &self.bytes[self.pos..]
    }
}

#[derive(Debug, PartialEq)]
struct Exhausted;

impl SerialRead for Script {
    type Error = Exhausted;

    fn read(&mut self) -> Result<u8, Exhausted> {
        self.attempts += 1;
        if self.pos < self.bytes.len() {
            self.pos += 1;
            Ok(self.bytes[self.pos - 1])
        } else {
            Err(Exhausted)
        }
    }
}

#[derive(Debug, PartialEq)]
enum SinkError {
    Write,
    Flush,
}

/// Records what is written, optionally failing writes or flushes.
struct Sink {
    sent: Vec<u8>,
    flushes: usize,
    fail_write: bool,
    fail_flush: bool,
}

impl Sink {
    fn new() -> Sink {
        Sink { sent: Vec::new(), flushes: 0, fail_write: false, fail_flush: false }
    }
}

impl SerialWrite for Sink {
    type Error = SinkError;

    fn write_all(&mut self, bytes: &[u8]) -> Result<(), SinkError> {
        if self.fail_write {
            return Err(SinkError::Write);
        }
        self.sent.extend_from_slice(bytes);
        Ok(())
    }

    fn flush(&mut self) -> Result<(), SinkError> {
        if self.fail_flush {
            return Err(SinkError::Flush);
        }
        self.flushes += 1;
        Ok(())
    }
}

fn driver(reply: &[u8]) -> NexStar<Script, Sink> {
    NexStar::new(Script::new(reply), Sink::new())
}

const ALL_DEVICES: [(Device, u8); 6] = [
    (Device::MainBoard, 0x01),
    (Device::HandController, 0x04),
    (Device::AzmRaMotor, 0x10),
    (Device::AltDecMotor, 0x11),
    (Device::GPSUnit, 0xb0),
    (Device::RTC, 0xb2),
];

#[test]
fn device_version_of_every_device() {
    for (device, address) in ALL_DEVICES {
        let mut n = driver(&[4, 21, b'#']);
        let r = n.device_version(device);
        assert!(matches!(r, Ok(Version { major: 4, minor: 21 })));
        let (rx, tx) = n.free();
        assert_eq!(tx.sent, vec![0x50, 0x01, address, 0xFE, 0x00, 0x00, 0x00, 0x02]);
        assert_eq!(tx.flushes, 1);
        assert_eq!(rx.attempts, 3);
        assert!(rx.left().is_empty());
    }
}

#[test]
fn device_missing_from_bus_is_unexpected() {
    let mut n = driver(&[0, 0, 0x01, 0x7E, 0x99]);
    assert!(matches!(n.device_version(Device::RTC), Err(Error::UnexpectedResponse)));
    let (rx, _) = n.free();
    assert_eq!(rx.left(), &[0x99]);
}

#[test]
fn version_of_hand_controller() {
    let mut n = driver(&[5, 10, b'#']);
    assert!(matches!(n.version(), Ok(Version { major: 5, minor: 10 })));
    let (_, tx) = n.free();
    assert_eq!(tx.sent, vec![b'V']);
}

/// Each operation, run on a reply of `payload` followed by a bad
/// acknowledgment, an error code and one byte that must stay unread.
fn bad_ack_leaves_one_byte(payload: &[u8], op: fn(&mut NexStar<Script, Sink>) -> bool) {
    let mut reply = payload.to_vec();
    reply.extend_from_slice(&[b'!', 0x05, 0xAA]);
    let mut n = driver(&reply);
    assert!(op(&mut n));
    let (rx, _) = n.free();
    assert_eq!(rx.left(), &[0xAA]);
    assert_eq!(rx.attempts, payload.len() + 2);
}

fn unexpected<V>(r: Result<V, Error<Exhausted, SinkError>>) -> bool {
    matches!(r, Err(Error::UnexpectedResponse))
}

#[test]
fn bad_ack_drains_error_code_on_every_operation() {
    bad_ack_leaves_one_byte(&[1, 2], |n| unexpected(n.version()));
    bad_ack_leaves_one_byte(&[1, 2], |n| unexpected(n.device_version(Device::GPSUnit)));
    bad_ack_leaves_one_byte(&[1], |n| unexpected(n.model()));
    bad_ack_leaves_one_byte(&[1], |n| unexpected(n.is_alignment_complete()));
    bad_ack_leaves_one_byte(&[b'1'], |n| unexpected(n.is_goto_in_progress()));
    bad_ack_leaves_one_byte(&[0; 8], |n| unexpected(n.location()));
    bad_ack_leaves_one_byte(&[0; 8], |n| unexpected(n.datetime()));
    bad_ack_leaves_one_byte(&[], |n| {
        unexpected(n.set_location(Location { latitude: 0, longitude: 0 }))
    });
    bad_ack_leaves_one_byte(&[], |n| {
        unexpected(n.set_datetime(DateTime {
            hour: 1,
            minutes: 2,
            seconds: 3,
            zone: 0,
            daylight_saving: false,
            year: 24,
            month: 5,
            day: 6,
        }))
    });
    bad_ack_leaves_one_byte(&[0x42], |n| unexpected(n.echo()));
}

#[test]
fn model_ids() {
    let mut n = driver(&[0x01, b'#']);
    assert_eq!(n.model().unwrap(), Model::GPSSeries);
    let mut n = driver(&[0x99, b'#']);
    assert_eq!(n.model().unwrap(), Model::Unknown(0x99));
    let known = [
        (0x03, Model::ISeries),
        (0x04, Model::ISeriesSE),
        (0x05, Model::CGE),
        (0x06, Model::AdvancedGT),
        (0x07, Model::SLT),
        (0x09, Model::CPC),
        (0x0A, Model::GT),
        (0x0B, Model::Se4_5),
        (0x0C, Model::Se6_8),
        (0x02, Model::Unknown(0x02)),
    ];
    for (id, model) in known {
        assert_eq!(Model::from_id(id), model);
    }
    let (_, tx) = n.free();
    assert_eq!(tx.sent, vec![b'm']);
}

#[test]
fn goto_state_byte() {
    let mut n = driver(&[b'1', b'#']);
    assert_eq!(n.is_goto_in_progress().unwrap(), true);
    let mut n = driver(&[b'0', b'#']);
    assert_eq!(n.is_goto_in_progress().unwrap(), false);
    let (_, tx) = n.free();
    assert_eq!(tx.sent, vec![b'L']);
}

#[test]
fn alignment_state_byte() {
    let mut n = driver(&[0x01, b'#']);
    assert_eq!(n.is_alignment_complete().unwrap(), true);
    let mut n = driver(&[0x00, b'#']);
    assert_eq!(n.is_alignment_complete().unwrap(), false);
    let (_, tx) = n.free();
    assert_eq!(tx.sent, vec![b'J']);
}

#[test]
fn dms_encoding() {
    // -33.865 degrees
    assert_eq!(dec_dms(-121_914_000), [33, 51, 54, 0x00]);
    assert_eq!(dec_dms(0), [0, 0, 0, 0x01]);
    // 151.21 degrees
    assert_eq!(dec_dms(544_356_000), [151, 12, 36, 0x01]);
    // half a second rounds up, just under it rounds down
    assert_eq!(dec_dms(3_600_500), [1, 0, 1, 0x01]);
    assert_eq!(dec_dms(3_600_499), [1, 0, 0, 0x01]);
    assert_eq!(dec_dms(-59_999), [0, 0, 60, 0x00]);
    assert_eq!(dec_dms(648_000_000), [180, 0, 0, 0x01]);
    assert_eq!(dec_dms(-648_000_000), [180, 0, 0, 0x00]);
    let loc = Location { latitude: -121_914_000, longitude: 544_356_000 };
    assert_eq!(loc.lat_dms(), [33, 51, 54, 0x00]);
    assert_eq!(loc.lon_dms(), [151, 12, 36, 0x01]);
}

#[test]
fn location_decoding() {
    let mut n = driver(&[33, 51, 54, 0x00, 151, 12, 36, 0x01, b'#']);
    let loc = n.location().unwrap();
    assert_eq!(loc, Location { latitude: -121_914_000, longitude: 544_356_000 });
    let lat = loc.latitude as f64 / 3_600_000.0;
    let lon = loc.longitude as f64 / 3_600_000.0;
    assert!((lat + 33.865).abs() < 1e-9);
    assert!((lon - 151.21).abs() < 1e-9);
    let (_, tx) = n.free();
    assert_eq!(tx.sent, vec![b'w']);
}

#[test]
fn set_location_frame() {
    let mut n = driver(&[b'#']);
    let loc = Location { latitude: -121_914_000, longitude: 544_356_000 };
    assert!(n.set_location(loc).is_ok());
    let (rx, tx) = n.free();
    assert_eq!(tx.sent, vec![b'W', 33, 51, 54, 0x00, 151, 12, 36, 0x01]);
    assert_eq!(rx.attempts, 1);
}

#[test]
fn datetime_decoding() {
    let mut n = driver(&[13, 45, 7, 11, 30, 23, 251, 1, b'#']);
    let dt = n.datetime().unwrap();
    assert_eq!(
        dt,
        DateTime {
            hour: 13,
            minutes: 45,
            seconds: 7,
            zone: -5,
            daylight_saving: true,
            year: 23,
            month: 11,
            day: 30,
        }
    );
    let (_, tx) = n.free();
    assert_eq!(tx.sent, vec![b'h']);
}

#[test]
fn set_datetime_frame() {
    let mut n = driver(&[b'#']);
    let dt = DateTime {
        hour: 22,
        minutes: 0,
        seconds: 59,
        zone: -8,
        daylight_saving: false,
        year: 24,
        month: 2,
        day: 29,
    };
    assert!(n.set_datetime(dt).is_ok());
    let (_, tx) = n.free();
    assert_eq!(tx.sent, vec![b'H', 22, 0, 59, 2, 29, 24, 248, 0]);
}

#[test]
fn echo_checks_byte() {
    let mut n = driver(&[0x42, b'#']);
    assert!(n.echo().is_ok());
    let mut n = driver(&[0x41, b'#']);
    assert!(matches!(n.echo(), Err(Error::UnexpectedResponse)));
    let (rx, tx) = n.free();
    assert_eq!(tx.sent, vec![b'K', 0x42]);
    assert!(rx.left().is_empty());
}

#[test]
fn read_error_stops_reading() {
    let mut n = driver(&[1]);
    assert!(matches!(n.version(), Err(Error::Read(Exhausted))));
    let (rx, _) = n.free();
    assert_eq!(rx.attempts, 2);

    let mut n = driver(&[3, 4]);
    assert!(matches!(n.version(), Err(Error::Read(Exhausted))));
    let (rx, _) = n.free();
    assert_eq!(rx.attempts, 3);

    // the error code after a bad acknowledgment cannot be read
    let mut n = driver(&[7, b'!']);
    assert!(matches!(n.model(), Err(Error::Read(Exhausted))));
    let (rx, _) = n.free();
    assert_eq!(rx.attempts, 3);
}

#[test]
fn write_error_skips_reply() {
    let mut tx = Sink::new();
    tx.fail_write = true;
    let mut n = NexStar::new(Script::new(&[1, 2, b'#']), tx);
    assert!(matches!(n.version(), Err(Error::Write(SinkError::Write))));
    let (rx, tx) = n.free();
    assert_eq!(rx.attempts, 0);
    assert_eq!(tx.flushes, 0);

    let mut tx = Sink::new();
    tx.fail_flush = true;
    let mut n = NexStar::new(Script::new(&[1, 2, b'#']), tx);
    assert!(matches!(n.device_version(Device::AzmRaMotor), Err(Error::Write(SinkError::Flush))));
    let (rx, _) = n.free();
    assert_eq!(rx.attempts, 0);
}

#[test]
fn operations_in_sequence_stay_in_step() {
    let mut n = driver(&[2, 0, b'#', 0x0B, b'#', 0x55, 0x01, 0x07, 0x0C, b'#']);
    assert!(matches!(n.version(), Ok(Version { major: 2, minor: 0 })));
    assert_eq!(n.model().unwrap(), Model::Se4_5);
    assert!(n.is_alignment_complete().is_err());
    assert_eq!(n.model().unwrap(), Model::Se6_8);
    let (rx, tx) = n.free();
    assert!(rx.left().is_empty());
    assert_eq!(tx.sent, vec![b'V', b'm', b'J', b'm']);
}

#[test]
fn location_sign_byte_other_than_zero_is_positive() {
    let mut n = driver(&[10, 0, 0, 0x05, 20, 30, 0, 0x00, b'#']);
    let loc = n.location().unwrap();
    assert_eq!(loc, Location { latitude: 36_000_000, longitude: -73_800_000 });
}

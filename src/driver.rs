//! The protocol driver: each operation sends one request and reads its reply.
use vstd::prelude::*;

use crate::link::{
    bytes_of, decoded, exchange_result, is_exchange, is_reply, is_request, reply_result, request_result,
    Error, SerialRead, SerialWrite, TxEvent, ACK,
};
use crate::wire::{
    angle_of, datetime_of, ECHO, ECHO_BYTE, GET_DATETIME, GET_LOCATION, GET_MODEL, GET_VERSION,
    GOTO_ACTIVE, IS_ALIGNED, IS_GOTO_ACTIVE, SET_DATETIME, SET_LOCATION, device_version_frame, location_of, model_of, Command, DateTime, Device, Location,
    Model, Version,
};

verus! {

/// A driver that owns both halves of the serial link to a hand controller.
///
/// Beside the halves it keeps, as ghost state, the results of every read and
/// of every write and flush it has made on them; the contracts of the
/// operations speak of what those calls returned.
pub struct NexStar<T: SerialRead, U: SerialWrite> {
    rx: T,
    tx: U,
    received: Ghost<Seq<Result<u8, T::Error>>>,
    sent: Ghost<Seq<TxEvent<U::Error>>>,
}

impl<T: SerialRead, U: SerialWrite> NexStar<T, U> {
    /// The results of all reads made so far, oldest first.
    pub closed spec fn reads(&self) -> Seq<Result<u8, T::Error>> {
        self.received@
    }

    /// All writes and flushes made so far, with their results, oldest first.
    pub closed spec fn writes(&self) -> Seq<TxEvent<U::Error>> {
        self.sent@
    }

    /// The two halves of the link as they now stand.
    pub closed spec fn halves(&self) -> (T, U) {
        (self.rx, self.tx)
    }

    /// The reads made between this state and `after`.
    pub open spec fn new_reads(self, after: Self) -> Seq<Result<u8, T::Error>> {
        after.reads().skip(self.reads().len() as int)
    }

    /// The writes and flushes made between this state and `after`.
    pub open spec fn new_writes(self, after: Self) -> Seq<TxEvent<U::Error>> {
        after.writes().skip(self.writes().len() as int)
    }

    /// Going from this state to `after` took exactly one exchange that sent
    /// `frame` and expected a reply of `n` payload bytes.
    pub open spec fn exchanged(self, after: Self, frame: Seq<u8>, n: nat) -> bool {
        &&& after.reads() == self.reads() + self.new_reads(after)
        &&& after.writes() == self.writes() + self.new_writes(after)
        &&& is_exchange(frame, n, self.new_writes(after), self.new_reads(after))
    }

    /// The outcome of the exchange between this state and `after`.
    pub open spec fn outcome(self, after: Self, n: nat) -> Result<Seq<u8>, Error<T::Error, U::Error>> {
        exchange_result(self.new_writes(after), n, self.new_reads(after))
    }

    /// Takes ownership of the two halves of the link.
    pub fn new(rx: T, tx: U) -> (r: Self)
        ensures
            r.halves() == (rx, tx),
            r.reads() == Seq::<Result<u8, T::Error>>::empty(),
            r.writes() == Seq::<TxEvent<U::Error>>::empty(),
    {
        NexStar { rx, tx, received: Ghost(Seq::empty()), sent: Ghost(Seq::empty()) }
    }

    /// Gives the two halves of the link back.
    pub fn free(self) -> (r: (T, U))
        ensures
            r == self.halves(),
    {
        (self.rx, self.tx)
    }

    /// Gets the location set in the hand controller.
    pub fn location(&mut self) -> (r: Result<Location, Error<T::Error, U::Error>>)
        ensures
            old(self).exchanged(*final(self), seq![GET_LOCATION], 8),
            r == decoded(old(self).outcome(*final(self), 8), |p: Seq<u8>| location_of(p)),
    {
        let frame: [u8; 1] = [GET_LOCATION];
        assert(frame@ =~= seq![GET_LOCATION]);
        let buffer = match self.exchange(frame.as_slice(), 8) {
            Ok(v) => v,
            Err(e) => return Err(e),
        };
        let latitude = Self::angle(buffer[0], buffer[1], buffer[2], buffer[3]);
        let longitude = Self::angle(buffer[4], buffer[5], buffer[6], buffer[7]);
        assert(buffer@.subrange(0, 4) =~= seq![buffer@[0], buffer@[1], buffer@[2], buffer@[3]]);
        assert(buffer@.subrange(4, 8) =~= seq![buffer@[4], buffer@[5], buffer@[6], buffer@[7]]);
        Ok(Location { latitude, longitude })
    }

    /// The angle that degrees, minutes, seconds and a sign byte carry.
    fn angle(deg: u8, min: u8, sec: u8, sign: u8) -> (r: i32)
        ensures
            r == angle_of(seq![deg, min, sec, sign]),
    {
        let m: i32 = (deg as i32 * 3600 + min as i32 * 60 + sec as i32) * 1000;
        if sign == 0x00 {
            -m
        } else {
            m
        }
    }

    /// Sets the location of the hand controller.
    pub fn set_location(&mut self, location: Location) -> (r: Result<(), Error<T::Error, U::Error>>)
        requires
            location.valid(),
        ensures
            old(self).exchanged(*final(self), seq![SET_LOCATION] + location.wire(), 0),
            r == decoded(old(self).outcome(*final(self), 0), |p: Seq<u8>| ()),
    {
        let lat = location.lat_dms();
        let lon = location.lon_dms();
        let frame: [u8; 9] = [SET_LOCATION, lat[0], lat[1], lat[2], lat[3], lon[0], lon[1], lon[2], lon[3]];
        assert(frame@ =~= seq![SET_LOCATION] + location.wire());
        match self.exchange(frame.as_slice(), 0) {
            Ok(_) => Ok(()),
            Err(e) => Err(e),
        }
    }

    /// Gets the date and time set in the hand controller.
    pub fn datetime(&mut self) -> (r: Result<DateTime, Error<T::Error, U::Error>>)
        ensures
            old(self).exchanged(*final(self), seq![GET_DATETIME], 8),
            r == decoded(old(self).outcome(*final(self), 8), |p: Seq<u8>| datetime_of(p)),
    {
        let frame: [u8; 1] = [GET_DATETIME];
        assert(frame@ =~= seq![GET_DATETIME]);
        let buffer = match self.exchange(frame.as_slice(), 8) {
            Ok(v) => v,
            Err(e) => return Err(e),
        };
        Ok(DateTime {
            hour: buffer[0],
            minutes: buffer[1],
            seconds: buffer[2],
            zone: buffer[6] as i8,
            daylight_saving: buffer[7] == 1,
            year: buffer[5],
            month: buffer[3],
            day: buffer[4],
        })
    }

    /// Sets the date and time of the hand controller.
    pub fn set_datetime(&mut self, datetime: DateTime) -> (r: Result<(), Error<T::Error, U::Error>>)
        ensures
            old(self).exchanged(*final(self), seq![SET_DATETIME] + datetime.wire(), 0),
            r == decoded(old(self).outcome(*final(self), 0), |p: Seq<u8>| ()),
    {
        let dst: u8 = if datetime.daylight_saving { 1 } else { 0 };
        let frame: [u8; 9] = [
            SET_DATETIME,
            datetime.hour,
            datetime.minutes,
            datetime.seconds,
            datetime.month,
            datetime.day,
            datetime.year,
            datetime.zone as u8,
            dst,
        ];
        assert(frame@ =~= seq![SET_DATETIME] + datetime.wire());
        match self.exchange(frame.as_slice(), 0) {
            Ok(_) => Ok(()),
            Err(e) => Err(e),
        }
    }

    /// Gets the firmware version of the hand controller.
    pub fn version(&mut self) -> (r: Result<Version, Error<T::Error, U::Error>>)
        ensures
            old(self).exchanged(*final(self), seq![GET_VERSION], 2),
            r == decoded(old(self).outcome(*final(self), 2), |p: Seq<u8>| version_of(p)),
    {
        let frame: [u8; 1] = [GET_VERSION];
        assert(frame@ =~= seq![GET_VERSION]);
        let buffer = match self.exchange(frame.as_slice(), 2) {
            Ok(v) => v,
            Err(e) => return Err(e),
        };
        Ok(Version { major: buffer[0], minor: buffer[1] })
    }

    /// Gets the firmware version of a sub-device. A device that is not on the
    /// bus answers with an acknowledgment byte other than `#`.
    pub fn device_version(&mut self, device: Device) -> (r: Result<Version, Error<T::Error, U::Error>>)
        ensures
            old(self).exchanged(*final(self), device_version_frame(device), 2),
            r == decoded(old(self).outcome(*final(self), 2), |p: Seq<u8>| version_of(p)),
    {
        let frame: [u8; 8] = [
            0x50,
            0x01,
            device.bits(),
            Command::GetDeviceVersion.bits(),
            0x00,
            0x00,
            0x00,
            0x02,
        ];
        assert(frame@ =~= device_version_frame(device));
        let buffer = match self.exchange(frame.as_slice(), 2) {
            Ok(v) => v,
            Err(e) => return Err(e),
        };
        Ok(Version { major: buffer[0], minor: buffer[1] })
    }

    /// Gets the model of the mount; an unknown model id is no error.
    pub fn model(&mut self) -> (r: Result<Model, Error<T::Error, U::Error>>)
        ensures
            old(self).exchanged(*final(self), seq![GET_MODEL], 1),
            r == decoded(old(self).outcome(*final(self), 1), |p: Seq<u8>| model_of(p[0])),
    {
        let frame: [u8; 1] = [GET_MODEL];
        assert(frame@ =~= seq![GET_MODEL]);
        let buffer = match self.exchange(frame.as_slice(), 1) {
            Ok(v) => v,
            Err(e) => return Err(e),
        };
        Ok(Model::from_id(buffer[0]))
    }

    /// Whether the mount is aligned: a state byte of 1 means it is.
    pub fn is_alignment_complete(&mut self) -> (r: Result<bool, Error<T::Error, U::Error>>)
        ensures
            old(self).exchanged(*final(self), seq![IS_ALIGNED], 1),
            r == decoded(old(self).outcome(*final(self), 1), |p: Seq<u8>| p[0] == 0x01),
    {
        let frame: [u8; 1] = [IS_ALIGNED];
        assert(frame@ =~= seq![IS_ALIGNED]);
        let buffer = match self.exchange(frame.as_slice(), 1) {
            Ok(v) => v,
            Err(e) => return Err(e),
        };
        Ok(buffer[0] == 0x01)
    }

    /// Whether a GOTO slew is under way: a state byte of ASCII `1` means it is.
    pub fn is_goto_in_progress(&mut self) -> (r: Result<bool, Error<T::Error, U::Error>>)
        ensures
            old(self).exchanged(*final(self), seq![IS_GOTO_ACTIVE], 1),
            r == decoded(old(self).outcome(*final(self), 1), |p: Seq<u8>| p[0] == GOTO_ACTIVE),
    {
        let frame: [u8; 1] = [IS_GOTO_ACTIVE];
        assert(frame@ =~= seq![IS_GOTO_ACTIVE]);
        let buffer = match self.exchange(frame.as_slice(), 1) {
            Ok(v) => v,
            Err(e) => return Err(e),
        };
        Ok(buffer[0] == GOTO_ACTIVE)
    }

    /// Checks the link: the controller must send back the byte it was given.
    pub fn echo(&mut self) -> (r: Result<(), Error<T::Error, U::Error>>)
        ensures
            old(self).exchanged(*final(self), seq![ECHO, ECHO_BYTE], 1),
            r == match old(self).outcome(*final(self), 1) {
                Ok(p) => if p[0] == ECHO_BYTE {
                    Ok(())
                } else {
                    Err(Error::UnexpectedResponse)
                },
                Err(e) => Err(e),
            },
    {
        let frame: [u8; 2] = [ECHO, ECHO_BYTE];
        assert(frame@ =~= seq![ECHO, ECHO_BYTE]);
        let buffer = match self.exchange(frame.as_slice(), 1) {
            Ok(v) => v,
            Err(e) => return Err(e),
        };
        if buffer[0] == ECHO_BYTE {
            Ok(())
        } else {
            Err(Error::UnexpectedResponse)
        }
    }

    /// Reads one byte.
    fn read(&mut self) -> (r: Result<u8, Error<T::Error, U::Error>>)
        ensures
            final(self).writes() == old(self).writes(),
            final(self).reads() == old(self).reads().push(final(self).reads().last()),
            match final(self).reads().last() {
                Ok(b) => r == Ok::<u8, Error<T::Error, U::Error>>(b),
                Err(e) => r == Err::<u8, Error<T::Error, U::Error>>(Error::Read(e)),
            },
    {
        let res = self.rx.read();
        self.received = Ghost(self.received@.push(res));
        match res {
            Ok(b) => Ok(b),
            Err(e) => Err(Error::Read(e)),
        }
    }

    /// Reads `n` bytes, stopping at the first failed read.
    fn read_multiple(&mut self, n: usize) -> (r: Result<Vec<u8>, Error<T::Error, U::Error>>)
        ensures
            final(self).writes() == old(self).writes(),
            final(self).reads() == old(self).reads() + old(self).new_reads(*final(self)),
            ({
                let rx = old(self).new_reads(*final(self));
                match r {
                    Ok(v) => rx == oks::<T::Error>(v@) && v@.len() == n,
                    Err(e) => {
                        &&& 1 <= rx.len() <= n
                        &&& rx.drop_last() == oks::<T::Error>(bytes_of(rx.drop_last()))
                        &&& rx.last() is Err
                        &&& e == Error::<T::Error, U::Error>::Read(rx.last()->Err_0)
                    },
                }
            }),
    {
        let ghost start = self.reads();
        let mut buffer: Vec<u8> = Vec::new();
        let mut idx: usize = 0;
        while idx < n
            invariant
                idx <= n,
                buffer@.len() == idx,
                start == old(self).reads(),
                self.writes() == old(self).writes(),
                self.reads() == start + oks::<T::Error>(buffer@),
            decreases n - idx,
        {
            match self.read() {
                Ok(b) => {
                    buffer.push(b);
                    assert(oks::<T::Error>(buffer@) =~= oks::<T::Error>(buffer@.drop_last()).push(
                        Ok(b),
                    ));
                },
                Err(e) => {
                    proof {
                        let rx = old(self).new_reads(*self);
                        assert(rx =~= oks::<T::Error>(buffer@).push(self.reads().last()));
                        assert(bytes_of(rx.drop_last()) =~= buffer@);
                        assert(self.reads() =~= start + rx);
                    }
                    return Err(e);
                },
            }
            idx = idx + 1;
        }
        proof {
            let rx = old(self).new_reads(*self);
            assert(rx =~= oks::<T::Error>(buffer@));
        }
        Ok(buffer)
    }

    /// Reads the acknowledgment byte; after any byte but `#` it reads the
    /// error code that follows, so that the link stays in step.
    fn check_ack(&mut self) -> (r: Result<(), Error<T::Error, U::Error>>)
        ensures
            final(self).writes() == old(self).writes(),
            final(self).reads() == old(self).reads() + old(self).new_reads(*final(self)),
            is_reply(0, old(self).new_reads(*final(self))),
            match r {
                Ok(_) => reply_result::<T::Error, U::Error>(0, old(self).new_reads(*final(self))) is Ok,
                Err(e) => reply_result::<T::Error, U::Error>(0, old(self).new_reads(*final(self)))
                    == Err::<Seq<u8>, Error<T::Error, U::Error>>(e),
            },
    {
        let ghost start = self.reads();
        let ack = self.read();
        match ack {
            Ok(b) => {
                if b == ACK {
                    assert(old(self).new_reads(*self) =~= seq![Ok::<u8, T::Error>(ACK)]);
                    Ok(())
                } else {
                    let code = self.read();
                    proof {
                        let rx = old(self).new_reads(*self);
                        assert(rx =~= seq![Ok::<u8, T::Error>(b), self.reads().last()]);
                        assert(self.reads() =~= start + rx);
                    }
                    match code {
                        Ok(_) => Err(Error::UnexpectedResponse),
                        Err(e) => Err(e),
                    }
                }
            },
            Err(e) => {
                assert(old(self).new_reads(*self) =~= seq![self.reads().last()]);
                Err(e)
            },
        }
    }

    /// Reads a reply of `n` payload bytes and its acknowledgment.
    fn reply(&mut self, n: usize) -> (r: Result<Vec<u8>, Error<T::Error, U::Error>>)
        ensures
            final(self).writes() == old(self).writes(),
            final(self).reads() == old(self).reads() + old(self).new_reads(*final(self)),
            is_reply(n as nat, old(self).new_reads(*final(self))),
            match r {
                Ok(v) => reply_result::<T::Error, U::Error>(n as nat, old(self).new_reads(*final(self)))
                    == Ok::<Seq<u8>, Error<T::Error, U::Error>>(v@),
                Err(e) => reply_result::<T::Error, U::Error>(n as nat, old(self).new_reads(*final(self)))
                    == Err::<Seq<u8>, Error<T::Error, U::Error>>(e),
            },
    {
        let ghost start = self.reads();
        let payload = self.read_multiple(n);
        let ghost mid = *self;
        match payload {
            Ok(v) => {
                let ack = self.check_ack();
                proof {
                    let rx1 = old(self).new_reads(mid);
                    let rx2 = mid.new_reads(*self);
                    let rx = old(self).new_reads(*self);
                    assert(self.reads() =~= start + (rx1 + rx2));
                    assert(rx =~= rx1 + rx2);
                    assert(rx.take(n as int) =~= rx1);
                    assert(bytes_of(rx1) =~= v@);
                    assert forall|i: int| 0 <= i < rx.len() - 1 implies (#[trigger] rx[i]) is Ok by {
                        if i >= n {
                            assert(rx[i] == rx2[i - n]);
                        }
                    }
                    if rx2.len() == 2 {
                        assert(rx[n as int] == rx2[0]);
                    }
                }
                match ack {
                    Ok(_) => Ok(v),
                    Err(e) => Err(e),
                }
            },
            Err(e) => {
                proof {
                    let rx = old(self).new_reads(*self);
                    assert forall|i: int| 0 <= i < rx.len() - 1 implies (#[trigger] rx[i]) is Ok by {
                        assert(rx[i] == rx.drop_last()[i]);
                    }
                }
                Err(e)
            },
        }
    }

    /// Writes all of `bytes`, then flushes.
    fn write_all(&mut self, bytes: &[u8]) -> (r: Result<(), Error<T::Error, U::Error>>)
        ensures
            final(self).reads() == old(self).reads(),
            final(self).writes() == old(self).writes() + old(self).new_writes(*final(self)),
            is_request(bytes@, old(self).new_writes(*final(self))),
            match request_result(old(self).new_writes(*final(self))) {
                Ok(_) => r is Ok,
                Err(w) => r == Err::<(), Error<T::Error, U::Error>>(Error::Write(w)),
            },
    {
        let ghost start = self.writes();
        let written = self.tx.write_all(bytes);
        self.sent = Ghost(self.sent@.push(TxEvent::Write(bytes@, written)));
        match written {
            Ok(_) => {},
            Err(e) => {
                assert(old(self).new_writes(*self) =~= seq![TxEvent::Write(bytes@, written)]);
                return Err(Error::Write(e));
            },
        }
        let flushed = self.tx.flush();
        self.sent = Ghost(self.sent@.push(TxEvent::Flush(flushed)));
        assert(old(self).new_writes(*self) =~= seq![TxEvent::Write(bytes@, written), TxEvent::Flush(flushed)]);
        assert(self.writes() =~= start + old(self).new_writes(*self));
        match flushed {
            Ok(_) => Ok(()),
            Err(e) => Err(Error::Write(e)),
        }
    }

    /// Sends `frame`, then reads a reply of `n` payload bytes.
    fn exchange(&mut self, frame: &[u8], n: usize) -> (r: Result<Vec<u8>, Error<T::Error, U::Error>>)
        ensures
            old(self).exchanged(*final(self), frame@, n as nat),
            match r {
                Ok(v) => old(self).outcome(*final(self), n as nat) == Ok::<Seq<u8>, Error<T::Error, U::Error>>(v@),
                Err(e) => old(self).outcome(*final(self), n as nat) == Err::<Seq<u8>, Error<T::Error, U::Error>>(e),
            },
    {
        let sent = self.write_all(frame);
        let ghost mid = *self;
        match sent {
            Ok(_) => {},
            Err(e) => {
                assert(old(self).new_reads(*self) =~= Seq::empty());
                return Err(e);
            },
        }
        let res = self.reply(n);
        assert(old(self).new_writes(*self) =~= old(self).new_writes(mid));
        assert(old(self).new_reads(*self) =~= mid.new_reads(*self));
        res
    }
}

/// `rx` are reads that a transport scripted with `script` returned: it hands
/// out the script's bytes in order, and the reads did not run past its end.
pub open spec fn answered<E>(rx: Seq<Result<u8, E>>, script: Seq<u8>) -> bool {
    &&& rx.len() <= script.len()
    &&& forall|i: int| 0 <= i < rx.len() ==> rx[i] == Ok::<u8, E>(#[trigger] script[i])
}

/// A sub-device that answers its version request with `major`, `minor` and
/// `#` is read exactly that far, and its version is `major.minor`.
pub proof fn lemma_device_version_answered<T: SerialRead, U: SerialWrite>(
    before: NexStar<T, U>,
    after: NexStar<T, U>,
    device: Device,
    major: u8,
    minor: u8,
)
    requires
        before.exchanged(after, device_version_frame(device), 2),
        request_result(before.new_writes(after)) is Ok,
        answered(before.new_reads(after), seq![major, minor, ACK]),
    ensures
        before.new_reads(after).len() == 3,
        decoded(before.outcome(after, 2), |p: Seq<u8>| version_of(p)) == Ok::<
            Version,
            Error<T::Error, U::Error>,
        >(Version { major, minor }),
{
    let rx = before.new_reads(after);
    let script = seq![major, minor, ACK];
    assert(rx[rx.len() - 1] == Ok::<u8, T::Error>(script[rx.len() - 1]));
    assert(rx.len() == 3);
    assert(rx[0] == Ok::<u8, T::Error>(script[0]));
    assert(rx[1] == Ok::<u8, T::Error>(script[1]));
    assert(bytes_of(rx.take(2)) =~= seq![major, minor]);
}

/// When the acknowledgment byte after the `n` payload bytes is anything but
/// `#`, the exchange fails with an unexpected response, and exactly one more
/// byte, the error code, is read after it.
pub proof fn lemma_bad_ack_drains<T: SerialRead, U: SerialWrite>(
    before: NexStar<T, U>,
    after: NexStar<T, U>,
    frame: Seq<u8>,
    n: nat,
    script: Seq<u8>,
)
    requires
        before.exchanged(after, frame, n),
        request_result(before.new_writes(after)) is Ok,
        answered(before.new_reads(after), script),
        script.len() == n + 2,
        script[n as int] != ACK,
    ensures
        before.new_reads(after).len() == n + 2,
        before.outcome(after, n) == Err::<Seq<u8>, Error<T::Error, U::Error>>(
            Error::UnexpectedResponse,
        ),
{
    let rx = before.new_reads(after);
    let k = rx.len();
    assert(rx[k - 1] == Ok::<u8, T::Error>(script[k - 1]));
    if k == n + 1 {
        assert(rx[n as int] == Ok::<u8, T::Error>(script[n as int]));
    }
}

/// A failed read is the last read of its exchange, and its error is the
/// exchange's outcome.
pub proof fn lemma_read_error_stops<T: SerialRead, U: SerialWrite>(
    before: NexStar<T, U>,
    after: NexStar<T, U>,
    frame: Seq<u8>,
    n: nat,
    i: int,
)
    requires
        before.exchanged(after, frame, n),
        0 <= i < before.new_reads(after).len(),
        before.new_reads(after)[i] is Err,
    ensures
        i == before.new_reads(after).len() - 1,
        before.outcome(after, n) == Err::<Seq<u8>, Error<T::Error, U::Error>>(
            Error::Read(before.new_reads(after)[i]->Err_0),
        ),
{
}

/// A failed write or flush is the exchange's outcome, and nothing is read:
/// after a failed write the link is not even flushed.
pub proof fn lemma_write_error_skips_reply<T: SerialRead, U: SerialWrite>(
    before: NexStar<T, U>,
    after: NexStar<T, U>,
    frame: Seq<u8>,
    n: nat,
)
    requires
        before.exchanged(after, frame, n),
        request_result(before.new_writes(after)) is Err,
    ensures
        before.new_reads(after).len() == 0,
        before.new_writes(after)[0] matches TxEvent::Write(_, Err(_)) ==> before.new_writes(after).len() == 1,
        before.outcome(after, n) == Err::<Seq<u8>, Error<T::Error, U::Error>>(
            Error::Write(request_result(before.new_writes(after))->Err_0),
        ),
{
}

/// The version that a two-byte payload holds: major, then minor.
pub open spec fn version_of(p: Seq<u8>) -> Version {
    Version { major: p[0], minor: p[1] }
}

/// Each byte of `s` as the result of a successful read.
pub open spec fn oks<E>(s: Seq<u8>) -> Seq<Result<u8, E>> {
    s.map_values(|b: u8| Ok::<u8, E>(b))
}

} // verus!

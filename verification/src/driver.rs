//! The mode-state driver: owns the transport, one command framer and one
//! frame collector, and exposes operations gated by a compile-time mode tag.
//! Mode transitions consume the driver and return a differently-tagged one,
//! so an illegal operation sequence does not compile.

use vstd::prelude::*;
use core::marker::PhantomData;
use crate::command::Command;
use crate::data::SensorData;
use crate::data::decoded_fields;
use crate::frame::checksum_ok;
use crate::modes::Active;
use crate::modes::Mode;
use crate::modes::Passive;
use crate::modes::UnInitialized;
use crate::reader::ReaderModel;
use crate::reader::SensorReader;
use crate::reader::lemma_completion_shape;
use crate::reader::reader_step;
use crate::transport::Step;
use crate::transport::Transport;
use crate::writer::CommandWriter;

verus! {

/// Sleep or wake request for the sensor.
#[derive(Debug, Eq, PartialEq, Copy, Clone, Structural)]
pub enum Sleep {
    /// Put the sensor to sleep. The sensor answers with a response frame.
    Sleep,
    /// Wake the sensor. No response is collected: the sensor cannot be read
    /// from while it boots, and callers must wait for it to stabilize.
    Wakeup,
}

/// The 16-bit payload a sleep request travels with.
pub open spec fn sleep_payload(s: Sleep) -> u16 {
    match s {
        Sleep::Sleep => 0,
        Sleep::Wakeup => 1,
    }
}

/// Outcome of one step of a mode transition. The transition consumes the
/// driver: on completion the driver comes back under its new mode tag, a
/// pending step hands it back for the next retry, and a transport error
/// ends the transition.
pub enum Transition<D, R, E> {
    /// The mode change finished: the re-tagged driver.
    Complete(D),
    /// The exchange has not finished: the driver, handed back to retry
    /// with. The step may well have made progress — emitted a frame byte,
    /// consumed a response byte — it only has not completed the exchange.
    Pending(R),
    /// The transport failed; the error is passed through verbatim.
    Failed(E),
}

/// Driver for the sensor family: the transport it owns, the mode tag, one
/// outgoing command framer and one incoming frame collector.
pub struct Pms700X<E, Serial: Transport<E>, M: Mode> {
    serial: Serial,
    mode: PhantomData<(E, M)>,
    command_writer: CommandWriter,
    reader: SensorReader,
}

impl<E, Serial: Transport<E>, M: Mode> Pms700X<E, Serial, M> {
    /// The command framer's state.
    pub closed spec fn writer(self) -> CommandWriter {
        self.command_writer
    }

    /// The frame collector's state.
    pub closed spec fn reader_model(self) -> ReaderModel {
        self.reader@
    }

    /// Well-formed driver: framer and collector each hold their invariant.
    pub closed spec fn wf(self) -> bool {
        &&& self.command_writer.wf()
        &&& self.reader@.inv()
    }

    /// Drive the in-flight command one non-blocking step: frame the command
    /// if none is in flight, emit the next pending frame byte, flush, and,
    /// where an answer is owed, collect one byte of it. `Complete` only
    /// after the whole frame went out and — if expected — a whole response
    /// frame was collected; the command slot is then reset so the next
    /// command can start.
    fn send_command(&mut self, command: Command, data: u16, expect_answer: bool) -> (r: Step<
        (),
        E,
    >)
        requires
            old(self).wf(),
            command != Command::Idle,
        ensures
            final(self).wf(),
            r matches Step::Complete(_) ==> final(self).writer().cmd() == Command::Idle,
            (r matches Step::Complete(_) && expect_answer) ==> exists|b: u8|
                reader_step(old(self).reader_model(), b) == (final(self).reader_model(), true),
            (r matches Step::Complete(_) && !expect_answer) ==> final(self).reader_model() == old(self).reader_model(),
            r matches Step::Pending ==> final(self).reader_model() == old(self).reader_model()
                || exists|b: u8|
                reader_step(old(self).reader_model(), b) == (final(self).reader_model(), false),
            r matches Step::Failed(_) ==> final(self).reader_model() == old(self).reader_model(),
            (!(r matches Step::Complete(_)) && old(self).writer().cmd() == Command::Idle) ==> final(self).writer().cmd() == command && final(self).writer().payload() == data,
            (!(r matches Step::Complete(_)) && old(self).writer().cmd() != Command::Idle) ==> final(self).writer().cmd() == old(self).writer().cmd() && final(self).writer().payload() == old(self).writer().payload(),
    {
        if self.command_writer.command() == Command::Idle {
            self.command_writer = CommandWriter::new(command, data);
        }
        match self.command_writer.write(&mut self.serial) {
            Step::Complete(_) => {}
            Step::Pending => {
                return Step::Pending;
            }
            Step::Failed(e) => {
                return Step::Failed(e);
            }
        }
        match self.serial.flush() {
            Step::Complete(_) => {}
            Step::Pending => {
                return Step::Pending;
            }
            Step::Failed(e) => {
                return Step::Failed(e);
            }
        }
        if expect_answer {
            let ghost pre_reader = self.reader@;
            match self.reader.fill_data(&mut self.serial) {
                Step::Complete(_) => {
                    proof {
                        let b = choose|b: u8| reader_step(pre_reader, b) == (self.reader@, true);
                        assert(reader_step(old(self).reader_model(), b) == (
                            self.reader@,
                            true,
                        ));
                    }
                }
                Step::Pending => {
                    return Step::Pending;
                }
                Step::Failed(e) => {
                    return Step::Failed(e);
                }
            }
        }
        self.command_writer = CommandWriter::default();
        Step::Complete(())
    }

    /// Re-tag the driver without touching any state.
    fn into_mode<NewMode: Mode>(self) -> (r: Pms700X<E, Serial, NewMode>)
        ensures
            r.writer() == self.writer(),
            r.reader_model() == self.reader_model(),
            r.wf() == self.wf(),
    {
        Pms700X {
            serial: self.serial,
            mode: PhantomData,
            command_writer: self.command_writer,
            reader: self.reader,
        }
    }

    /// Ask the sensor to sleep or wake, one non-blocking step per call.
    /// Only the sleep direction collects the sensor's response frame:
    /// a waking sensor cannot be read from.
    pub fn set_sleeping(&mut self, sleeping: Sleep) -> (r: Step<(), E>)
        requires
            old(self).wf(),
        ensures
            final(self).wf(),
            r matches Step::Complete(_) ==> final(self).writer().cmd() == Command::Idle,
            (r matches Step::Complete(_) && sleeping == Sleep::Sleep) ==> exists|b: u8|
                reader_step(old(self).reader_model(), b) == (final(self).reader_model(), true),
            (r matches Step::Complete(_) && sleeping == Sleep::Wakeup) ==> final(self).reader_model() == old(self).reader_model(),
            r matches Step::Failed(_) ==> final(self).reader_model() == old(self).reader_model(),
            (!(r matches Step::Complete(_)) && old(self).writer().cmd() == Command::Idle) ==> final(self).writer().cmd() == Command::SetSleep && final(self).writer().payload()
                == sleep_payload(sleeping),
    {
        let data: u16 = match sleeping {
            Sleep::Sleep => 0,
            Sleep::Wakeup => 1,
        };
        self.send_command(Command::SetSleep, data, sleeping == Sleep::Sleep)
    }
}

impl<E, Serial: Transport<E>> Pms700X<E, Serial, UnInitialized> {
    /// Take ownership of the transport; the sensor has no mode yet.
    pub fn new(serial: Serial) -> (r: Self)
        ensures
            r.wf(),
            r.writer().cmd() == Command::Idle,
            r.writer().cursor() == 0,
            r.reader_model().cursor == 0,
            r.reader_model().length == 0,
    {
        Pms700X {
            serial,
            mode: PhantomData,
            command_writer: CommandWriter::default(),
            reader: SensorReader::default(),
        }
    }

    /// One non-blocking step of switching the sensor to active mode: drives
    /// a mode-set command with payload 1 and collects the forced response.
    /// Consumes the driver; only a completed step yields the active-tagged
    /// one, so no access to the pre-transition driver survives.
    pub fn into_active(self) -> (r: Transition<Pms700X<E, Serial, Active>, Self, E>)
        requires
            self.wf(),
        ensures
            r matches Transition::Complete(d) ==> d.wf() && d.writer().cmd() == Command::Idle
                && d.reader_model().cursor == 0,
            r matches Transition::Complete(d) ==> exists|b: u8|
                reader_step(self.reader_model(), b) == (d.reader_model(), true),
            r matches Transition::Pending(p) ==> p.wf() && (self.writer().cmd() == Command::Idle
                ==> p.writer().cmd() == Command::SetMode && p.writer().payload() == 1),
    {
        let mut this = self;
        let ghost pre = this.reader_model();
        match this.send_command(Command::SetMode, 1, true) {
            Step::Complete(_) => {
                proof {
                    let b = choose|b: u8| reader_step(pre, b) == (this.reader_model(), true);
                    lemma_completion_shape(pre, b);
                    assert(reader_step(self.reader_model(), b) == (this.reader_model(), true));
                }
                Transition::Complete(this.into_mode())
            }
            Step::Pending => Transition::Pending(this),
            Step::Failed(e) => Transition::Failed(e),
        }
    }

    /// One non-blocking step of switching the sensor to passive mode: the
    /// same exchange as [`Self::into_active`] with payload 0. After it
    /// completes, wait the documented 30–50ms before reading, or the sensor
    /// will not answer.
    pub fn into_passive(self) -> (r: Transition<Pms700X<E, Serial, Passive>, Self, E>)
        requires
            self.wf(),
        ensures
            r matches Transition::Complete(d) ==> d.wf() && d.writer().cmd() == Command::Idle
                && d.reader_model().cursor == 0,
            r matches Transition::Complete(d) ==> exists|b: u8|
                reader_step(self.reader_model(), b) == (d.reader_model(), true),
            r matches Transition::Pending(p) ==> p.wf() && (self.writer().cmd() == Command::Idle
                ==> p.writer().cmd() == Command::SetMode && p.writer().payload() == 0),
    {
        let mut this = self;
        let ghost pre = this.reader_model();
        match this.send_command(Command::SetMode, 0, true) {
            Step::Complete(_) => {
                proof {
                    let b = choose|b: u8| reader_step(pre, b) == (this.reader_model(), true);
                    lemma_completion_shape(pre, b);
                    assert(reader_step(self.reader_model(), b) == (this.reader_model(), true));
                }
                Transition::Complete(this.into_mode())
            }
            Step::Pending => Transition::Pending(this),
            Step::Failed(e) => Transition::Failed(e),
        }
    }
}

impl<E, Serial: Transport<E>> Pms700X<E, Serial, Active> {
    /// Opportunistically collect one byte of the sensor's continuous
    /// broadcast. Returns a measurement exactly when that byte completed a
    /// frame that also passes the checksum test; otherwise the caller is
    /// told to poll again. Protocol anomalies are never errors: only the
    /// transport can fail.
    pub fn read(&mut self) -> (r: Step<SensorData, E>)
        requires
            old(self).wf(),
        ensures
            final(self).wf(),
            r matches Step::Complete(d) ==> ({
                &&& final(self).reader_model().cursor == 0
                &&& checksum_ok(final(self).reader_model().data, final(self).reader_model().length)
                &&& d == decoded_fields(final(self).reader_model().data)
            }),
            r matches Step::Pending ==> final(self).reader_model() == old(self).reader_model()
                || (exists|b: u8|
                reader_step(old(self).reader_model(), b) == (final(self).reader_model(), false))
                || ((exists|b: u8|
                reader_step(old(self).reader_model(), b) == (final(self).reader_model(), true))
                && !checksum_ok(final(self).reader_model().data, final(self).reader_model().length)),
            r matches Step::Failed(_) ==> final(self).reader_model() == old(self).reader_model(),
    {
        let ghost pre = self.reader_model();
        match self.reader.fill_data(&mut self.serial) {
            Step::Complete(_) => {}
            Step::Pending => {
                return Step::Pending;
            }
            Step::Failed(e) => {
                return Step::Failed(e);
            }
        }
        proof {
            let b = choose|b: u8| reader_step(pre, b) == (self.reader@, true);
            lemma_completion_shape(pre, b);
        }
        if self.reader.validate_data() {
            let w = self.reader.frame_window();
            let d = SensorData::from_raw(&w);
            proof {
                assert(forall|j: int| 0 <= j < 32 ==> w@[j] == self.reader@.data[j]);
                assert(decoded_fields(w@) == decoded_fields(self.reader@.data));
            }
            Step::Complete(d)
        } else {
            Step::Pending
        }
    }
}

impl<E, Serial: Transport<E>> Pms700X<E, Serial, Passive> {
    /// Ask the sensor for one measurement, one non-blocking step per call:
    /// drives the read command out and collects the forced response, then
    /// decodes the buffered frame. The frame was already collected by the
    /// completed exchange; no checksum re-check happens on this path.
    pub fn read(&mut self) -> (r: Step<SensorData, E>)
        requires
            old(self).wf(),
        ensures
            final(self).wf(),
            r matches Step::Complete(d) ==> ({
                &&& final(self).reader_model().cursor == 0
                &&& final(self).writer().cmd() == Command::Idle
                &&& d == decoded_fields(final(self).reader_model().data)
            }),
            r matches Step::Complete(_) ==> exists|b: u8|
                reader_step(old(self).reader_model(), b) == (final(self).reader_model(), true),
            (!(r matches Step::Complete(_)) && old(self).writer().cmd() == Command::Idle) ==> final(self).writer().cmd() == Command::ReadPassive && final(self).writer().payload() == 0,
            r matches Step::Failed(_) ==> final(self).reader_model() == old(self).reader_model(),
    {
        let ghost pre = self.reader_model();
        match self.send_command(Command::ReadPassive, 0, true) {
            Step::Complete(_) => {}
            Step::Pending => {
                return Step::Pending;
            }
            Step::Failed(e) => {
                return Step::Failed(e);
            }
        }
        proof {
            let b = choose|b: u8| reader_step(pre, b) == (self.reader@, true);
            lemma_completion_shape(pre, b);
        }
        let w = self.reader.frame_window();
        let d = SensorData::from_raw(&w);
        proof {
            assert(forall|j: int| 0 <= j < 32 ==> w@[j] == self.reader@.data[j]);
            assert(decoded_fields(w@) == decoded_fields(self.reader@.data));
        }
        Step::Complete(d)
    }
}

} // verus!

//! Hynitron CST816 capacitive touch controller (CST816S/T/D), as fitted to
//! the Waveshare 1.69" boards: I2C address 0x15, one finger, coordinates in
//! the panel's native portrait frame.
//!
//! Register map from Hynitron's CST816T register description as shipped in
//! Waveshare's demos.
//!
//! The driver says what to do with the bus and the reset pin, one step at a
//! time, and takes what came of it.

use vstd::prelude::*;

pub mod chip;
pub mod irq;
pub mod reg;

verus! {

pub const ADDRESS: u8 = 0x15;

#[derive(Clone, Copy, Debug, PartialEq, Eq, Structural)]
pub struct Point {
    pub x: u16,
    pub y: u16,
}

#[derive(Debug, PartialEq, Eq)]
pub enum Error<E> {
    I2c(E),
    /// The chip ID register held something other than a CST816.
    UnknownChip(u8),
}

impl<E> From<E> for Error<E> {
    fn from(e: E) -> (r: Self) {
        Error::I2c(e)
    }
}

impl<E> vstd::std_specs::convert::FromSpecImpl<E> for Error<E> {
    open spec fn obeys_from_spec() -> bool {
        true
    }

    open spec fn from_spec(e: E) -> Self {
        Error::I2c(e)
    }
}

/// The finger's position in the registers `FINGER_NUM` through `YPOS_L`: 12
/// bits each, the high ones in the low nibble of the first byte. The top bits
/// of `XPOS_H` are the event flag (press, lift, contact).
pub open spec fn point_in(regs: Seq<u8>) -> Option<Point> {
    if regs[0] == 0 {
        None
    } else {
        Some(
            Point {
                x: (regs[1] % 16 * 256 + regs[2]) as u16,
                y: (regs[3] % 16 * 256 + regs[4]) as u16,
            },
        )
    }
}

/// Decodes `FINGER_NUM` through `YPOS_L` read as one block.
pub fn parse_point(regs: &[u8; 5]) -> (p: Option<Point>)
    ensures
        p == point_in(regs@),
{
    if regs[0] == 0 {
        return None;
    }
    Some(
        Point {
            x: (regs[1] % 16) as u16 * 256 + regs[2] as u16,
            y: (regs[3] % 16) as u16 * 256 + regs[4] as u16,
        },
    )
}

/// One thing to do with the controller.
#[derive(Clone, Copy, Debug, PartialEq, Eq, Structural)]
pub enum BusStep {
    /// Set the reset pin, high or low; a failure is ignored.
    Reset(bool),
    DelayMs(u32),
    /// Read this register.
    Read(u8),
    /// Write this register.
    Write(u8, u8),
}

/// What came of a step.
#[derive(Debug, PartialEq, Eq)]
pub enum Answer<E> {
    /// It is done.
    Done,
    /// The register held this.
    Value(u8),
    /// The bus failed.
    Failed(E),
}

/// How initialisation goes on.
#[derive(Debug, PartialEq, Eq)]
pub enum Init<E> {
    Step(BusStep),
    /// The chip's ID, or why there is none.
    Finished(Result<u8, Error<E>>),
}

/// The IDs of the chips that the driver knows.
pub open spec fn known(id: u8) -> bool {
    id == chip::CST816S || id == chip::CST816T || id == chip::CST816D
}

/// Hardware reset, identification, then point mode: INT pulses on every
/// change and every scan while touched, auto-sleep off so the chip can
/// always be read.
pub open spec fn init_steps() -> Seq<BusStep> {
    seq![
        BusStep::Reset(false),
        BusStep::DelayMs(10),
        BusStep::Reset(true),
        // The firmware needs a moment after reset before it answers.
        BusStep::DelayMs(100),
        BusStep::Read(reg::CHIP_ID),
        BusStep::Write(reg::DIS_AUTO_SLEEP, 0x01),
        BusStep::Write(reg::IRQ_CTL, (irq::EN_TOUCH + irq::EN_CHANGE) as u8),
    ]
}

/// Which of the steps was read from.
pub open spec fn read_step() -> int {
    4
}

/// The controller's initialisation: how many steps were started, and the ID
/// once it was read.
pub struct Cst816 {
    started: u8,
    id: u8,
}

/// An initialisation of which `started` steps were started.
pub struct Progress {
    pub started: int,
    pub id: u8,
}

impl View for Cst816 {
    type V = Progress;

    closed spec fn view(&self) -> Progress {
        Progress { started: self.started as int, id: self.id }
    }
}

impl Progress {
    /// What comes next when the step before went well: the step after it, or
    /// the end.
    pub open spec fn next<E>(self) -> Init<E> {
        if self.started < init_steps().len() {
            Init::Step(init_steps()[self.started])
        } else {
            Init::Finished(Ok(self.id))
        }
    }

    /// How it goes on after the answer to the step that was started last. A
    /// failing bus and a stranger's ID end it.
    pub open spec fn answered<E>(self, answer: Answer<E>) -> Init<E> {
        match answer {
            Answer::Failed(e) => Init::Finished(Err(Error::I2c(e))),
            Answer::Value(id) => if self.started == read_step() + 1 && !known(id) {
                Init::Finished(Err(Error::UnknownChip(id)))
            } else {
                self.with_answer(answer).next()
            },
            Answer::Done => self.next(),
        }
    }

    /// With the ID that the answer holds.
    pub open spec fn with_answer<E>(self, answer: Answer<E>) -> Progress {
        match answer {
            Answer::Value(id) => if self.started == read_step() + 1 {
                Progress { id, ..self }
            } else {
                self
            },
            _ => self,
        }
    }

    /// With one more step started, unless it is at the end.
    pub open spec fn stepped<E>(self, init: Init<E>) -> Progress {
        if init is Step {
            Progress { started: self.started + 1, ..self }
        } else {
            self
        }
    }
}

impl Cst816 {
    #[verifier::type_invariant]
    spec fn within(self) -> bool {
        self.started <= init_steps().len()
    }

    pub fn new() -> (c: Self)
        ensures
            c@ == (Progress { started: 0, id: 0 }),
    {
        Cst816 { started: 0, id: 0 }
    }

    /// Starts the initialisation. Returns the first thing to do.
    pub fn init<E>(&mut self) -> (next: Init<E>)
        ensures
            next == Init::<E>::Step(init_steps()[0]),
            final(self)@ == (Progress { started: 1, id: 0 }),
    {
        self.started = 0;
        self.id = 0;
        self.next()
    }

    /// Takes what came of the last step. Returns the next thing to do, or how
    /// it ended.
    pub fn answer<E>(&mut self, answer: Answer<E>) -> (next: Init<E>)
        ensures
            next == old(self)@.answered(answer),
            final(self)@ == (if next matches Init::Finished(Err(_)) {
                old(self)@
            } else {
                old(self)@.with_answer(answer).stepped(next)
            }),
    {
        match answer {
            Answer::Failed(e) => Init::Finished(Err(Error::from(e))),
            Answer::Value(id) => {
                if self.started == 5 {
                    if id != chip::CST816S && id != chip::CST816T && id != chip::CST816D {
                        return Init::Finished(Err(Error::UnknownChip(id)));
                    }
                    proof {
                        use_type_invariant(&*self);
                    }
                    self.id = id;
                }
                self.next()
            },
            Answer::Done => self.next(),
        }
    }

    /// Starts the next step, if there is one.
    fn next<E>(&mut self) -> (next: Init<E>)
        ensures
            next == old(self)@.next::<E>(),
            final(self)@ == old(self)@.stepped(next),
    {
        proof {
            use_type_invariant(&*self);
        }
        let step = match self.started {
            0 => BusStep::Reset(false),
            1 => BusStep::DelayMs(10),
            2 => BusStep::Reset(true),
            3 => BusStep::DelayMs(100),
            4 => BusStep::Read(reg::CHIP_ID),
            5 => BusStep::Write(reg::DIS_AUTO_SLEEP, 0x01),
            6 => BusStep::Write(reg::IRQ_CTL, irq::EN_TOUCH + irq::EN_CHANGE),
            _ => return Init::Finished(Ok(self.id)),
        };
        self.started = self.started + 1;
        Init::Step(step)
    }

    /// The step whose answer is the version of the chip's firmware.
    pub fn firmware_version() -> (step: BusStep)
        ensures
            step == BusStep::Read(reg::FW_VERSION),
    {
        BusStep::Read(reg::FW_VERSION)
    }

    /// The finger's position, or `None` when nothing touches the glass, from
    /// what came of reading five registers from `FINGER_NUM` on.
    pub fn read<E>(regs: Result<[u8; 5], E>) -> (p: Result<Option<Point>, E>)
        ensures
            p == match regs {
                Ok(regs) => Ok::<Option<Point>, E>(point_in(regs@)),
                Err(e) => Err(e),
            },
    {
        match regs {
            Ok(regs) => Ok(parse_point(&regs)),
            Err(e) => Err(e),
        }
    }
}

/// The state and the outcome after the answers to the first steps, one after
/// the other.
pub open spec fn after_answers<E>(answers: Seq<Answer<E>>) -> (Progress, Init<E>)
    decreases answers.len(),
{
    let begun = Progress { started: 0, id: 0 };
    if answers.len() == 0 {
        (begun.stepped(begun.next::<E>()), begun.next::<E>())
    } else {
        let (p, earlier) = after_answers(answers.drop_last());
        if earlier is Finished {
            (p, earlier)
        } else {
            let next = p.answered(answers.last());
            (p.with_answer(answers.last()).stepped(next), next)
        }
    }
}

/// A chip of a known kind on a bus that works: the answers to the seven steps.
pub open spec fn good_answers<E>(id: u8) -> Seq<Answer<E>> {
    seq![
        Answer::Done,
        Answer::Done,
        Answer::Done,
        Answer::Done,
        Answer::Value(id),
        Answer::Done,
        Answer::Done,
    ]
}

/// As long as the bus works and the ID is known, the steps come one after the
/// other, and the last answer ends it with the ID.
pub proof fn a_known_chip_is_set_up<E>(id: u8, k: int)
    requires
        known(id),
        0 <= k <= init_steps().len(),
    ensures
        after_answers(good_answers::<E>(id).take(k)).1 == (if k < init_steps().len() {
            Init::<E>::Step(init_steps()[k])
        } else {
            Init::<E>::Finished(Ok(id))
        }),
    decreases k,
{
    follows_the_steps::<E>(id, k);
}

proof fn follows_the_steps<E>(id: u8, k: int)
    requires
        known(id),
        0 <= k <= init_steps().len(),
    ensures
        after_answers(good_answers::<E>(id).take(k)) == (
            Progress {
                started: if k < init_steps().len() {
                    k + 1
                } else {
                    k
                },
                id: if k > read_step() {
                    id
                } else {
                    0
                },
            },
            if k < init_steps().len() {
                Init::<E>::Step(init_steps()[k])
            } else {
                Init::<E>::Finished(Ok(id))
            },
        ),
    decreases k,
{
    if k > 0 {
        follows_the_steps::<E>(id, k - 1);
        assert(good_answers::<E>(id).take(k).drop_last() =~= good_answers::<E>(id).take(k - 1));
        assert(good_answers::<E>(id).take(k).last() == good_answers::<E>(id)[k - 1]);
    }
}

/// A stranger is not written to: its ID ends the initialisation.
pub proof fn a_stranger_is_rejected<E>(id: u8)
    requires
        !known(id),
    ensures
        after_answers(good_answers::<E>(id).take(5)).1 == Init::<E>::Finished(
            Err(Error::UnknownChip(id)),
        ),
        forall|k: int|
            0 <= k < 5 ==> after_answers(#[trigger] good_answers::<E>(id).take(k)).1
                == Init::<E>::Step(init_steps()[k]) && !(init_steps()[k] is Write),
{
    let other = chip::CST816T;
    assert forall|k: int| 0 <= k < 5 implies after_answers(
        #[trigger] good_answers::<E>(id).take(k),
    ).1 == Init::<E>::Step(init_steps()[k]) && !(init_steps()[k] is Write) by {
        follows_the_steps::<E>(other, k);
        assert(good_answers::<E>(id).take(k) =~= good_answers::<E>(other).take(k));
    }
    follows_the_steps::<E>(other, 4);
    assert(good_answers::<E>(id).take(4) =~= good_answers::<E>(other).take(4));
    assert(good_answers::<E>(id).take(5).drop_last() =~= good_answers::<E>(id).take(4));
    assert(good_answers::<E>(id).take(5).last() == good_answers::<E>(id)[4]);
}

} // verus!

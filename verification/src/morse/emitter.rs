//! The emitter: turns timed operations into signals for an indicator line
//! or for a text console, at the same pace either way.
//!
//! The emitter drives no device itself. What it would do to one it records,
//! in order, as signals; whoever owns the devices takes the signals and
//! carries them out.

use vstd::prelude::*;
use vstd::std_specs::iter::IteratorSpec;

verus! {

/// The length of one time unit, in milliseconds.
pub const UNIT: u16 = 1000;

/// The three lengths that International Morse timing is built from.
pub enum Time {
    /// One unit.
    T1,
    /// Three units.
    T2,
    /// Seven units.
    T3,
}

impl Time {
    pub const DOT: u16 = 1 * UNIT;

    pub const DASH: u16 = 3 * UNIT;

    pub const INTRA_SYM_GAP: u16 = 1 * UNIT;

    pub const INTRA_ASCII_GAP: u16 = 3 * UNIT;

    pub const WORD_GAP: u16 = 7 * UNIT;

    /// The length in time units.
    pub open spec fn units(self) -> nat {
        match self {
            Time::T1 => 1,
            Time::T2 => 3,
            Time::T3 => 7,
        }
    }

    /// The length in milliseconds.
    pub fn millis(&self) -> (ms: u16)
        ensures
            ms == self.units() * UNIT,
    {
        match self {
            Time::T1 => Time::DOT,
            Time::T2 => Time::DASH,
            Time::T3 => Time::WORD_GAP,
        }
    }
}

/// Where operations are sent.
#[derive(Clone, Copy, Debug, PartialEq, Eq, Structural)]
pub enum EmitterKind {
    /// The indicator line: marks light it, gaps leave it dark.
    LED,
    /// The text console: every operation is named on a line of its own.
    CONSOLE,
}

impl EmitterKind {
    /// The backend's name.
    pub open spec fn name(self) -> Seq<char> {
        match self {
            EmitterKind::LED => "EmitterKind::LED"@,
            EmitterKind::CONSOLE => "EmitterKind::CONSOLE"@,
        }
    }

    /// The other backend.
    pub open spec fn other(self) -> EmitterKind {
        match self {
            EmitterKind::LED => EmitterKind::CONSOLE,
            EmitterKind::CONSOLE => EmitterKind::LED,
        }
    }

    /// The backend's name.
    pub fn to_str(&self) -> (r: &'static str)
        ensures
            r@ == self.name(),
    {
        match self {
            EmitterKind::LED => "EmitterKind::LED",
            EmitterKind::CONSOLE => "EmitterKind::CONSOLE",
        }
    }
}

/// A timed action: a mark or one of the three pauses.
#[derive(Clone, Copy, Debug, PartialEq, Eq, Structural)]
pub enum EmitterOp {
    Dot,
    Dash,
    SymbolGap,
    CharacterGap,
    WordGap,
}

impl EmitterOp {
    /// How long the operation lasts, in milliseconds.
    pub open spec fn duration(self) -> u16 {
        match self {
            EmitterOp::Dot => Time::DOT,
            EmitterOp::Dash => Time::DASH,
            EmitterOp::SymbolGap => Time::INTRA_SYM_GAP,
            EmitterOp::CharacterGap => Time::INTRA_ASCII_GAP,
            EmitterOp::WordGap => Time::WORD_GAP,
        }
    }

    /// Whether the operation is a mark, which lights the indicator.
    pub open spec fn is_mark(self) -> bool {
        self == EmitterOp::Dot || self == EmitterOp::Dash
    }

    /// The line that names the operation on the console.
    pub open spec fn name(self) -> Seq<char> {
        match self {
            EmitterOp::Dot => "EmitterOp::Dot"@,
            EmitterOp::Dash => "EmitterOp::Dash"@,
            EmitterOp::SymbolGap => "EmitterOp::SymbolGap"@,
            EmitterOp::CharacterGap => "EmitterOp::CharacterGap"@,
            EmitterOp::WordGap => "EmitterOp::WordGap"@,
        }
    }

    /// The operation's name, as the console shows it.
    pub fn to_str(&self) -> (r: &'static str)
        ensures
            r@ == self.name(),
    {
        match self {
            EmitterOp::Dot => "EmitterOp::Dot",
            EmitterOp::Dash => "EmitterOp::Dash",
            EmitterOp::SymbolGap => "EmitterOp::SymbolGap",
            EmitterOp::CharacterGap => "EmitterOp::CharacterGap",
            EmitterOp::WordGap => "EmitterOp::WordGap",
        }
    }

    /// The durations stand in the ratio 1 : 3 : 7, a symbol gap lasting as
    /// long as a dot and a character gap as long as a dash.
    pub proof fn lemma_timing_ratios()
        ensures
            EmitterOp::Dot.duration() == 1 * UNIT,
            EmitterOp::Dash.duration() == 3 * EmitterOp::Dot.duration(),
            EmitterOp::WordGap.duration() == 7 * EmitterOp::Dot.duration(),
            EmitterOp::SymbolGap.duration() == EmitterOp::Dot.duration(),
            EmitterOp::CharacterGap.duration() == EmitterOp::Dash.duration(),
    {
    }
}

/// One thing for the devices to do.
#[derive(Clone, Copy, Debug, PartialEq, Eq, Structural)]
pub enum Signal {
    /// Assert the indicator line.
    SetHigh,
    /// Release the indicator line.
    SetLow,
    /// Do nothing for so many milliseconds.
    DelayMs(u16),
    /// Write one character to the text console.
    Write(char),
}

impl Signal {
    /// `Signal::Write(c)`, as a function that can be mapped over text.
    pub open spec fn put(c: char) -> Signal {
        Signal::Write(c)
    }

    /// The time the signal takes, in milliseconds.
    pub open spec fn delay(self) -> nat {
        match self {
            Signal::DelayMs(ms) => ms as nat,
            _ => 0,
        }
    }
}

/// Writing `s` to the console, character by character.
pub open spec fn text(s: Seq<char>) -> Seq<Signal> {
    s.map_values(|c: char| Signal::put(c))
}

/// What one operation comes to on each backend. The console names the
/// operation on a line and then waits; the indicator is lit for a mark and
/// left dark for a gap. The wait is the operation's duration in both.
pub open spec fn signals(kind: EmitterKind, op: EmitterOp) -> Seq<Signal> {
    match kind {
        EmitterKind::CONSOLE => text(op.name()) + text("\r\n"@) + seq![
            Signal::DelayMs(op.duration()),
        ],
        EmitterKind::LED => if op.is_mark() {
            seq![Signal::SetHigh, Signal::DelayMs(op.duration()), Signal::SetLow]
        } else {
            seq![Signal::DelayMs(op.duration())]
        },
    }
}

/// The signals of a run of operations, one operation after the other.
pub open spec fn render(kind: EmitterKind, ops: Seq<EmitterOp>) -> Seq<Signal>
    decreases ops.len(),
{
    if ops.len() == 0 {
        Seq::empty()
    } else {
        render(kind, ops.drop_last()) + signals(kind, ops.last())
    }
}

/// The time a run of signals takes, in milliseconds.
pub open spec fn elapsed(sigs: Seq<Signal>) -> nat
    decreases sigs.len(),
{
    if sigs.len() == 0 {
        0
    } else {
        elapsed(sigs.drop_last()) + sigs.last().delay()
    }
}

/// The time a run of operations is meant to take, in milliseconds.
pub open spec fn total_duration(ops: Seq<EmitterOp>) -> nat
    decreases ops.len(),
{
    if ops.len() == 0 {
        0
    } else {
        total_duration(ops.drop_last()) + ops.last().duration() as nat
    }
}

/// Time adds up over concatenation.
pub proof fn lemma_elapsed_concat(a: Seq<Signal>, b: Seq<Signal>)
    ensures
        elapsed(a + b) == elapsed(a) + elapsed(b),
    decreases b.len(),
{
    if b.len() == 0 {
        assert(a + b =~= a);
    } else {
        lemma_elapsed_concat(a, b.drop_last());
        assert((a + b).drop_last() =~= a + b.drop_last());
    }
}

/// Writing text takes no time.
pub proof fn lemma_elapsed_text(s: Seq<char>)
    ensures
        elapsed(text(s)) == 0,
    decreases s.len(),
{
    if s.len() > 0 {
        lemma_elapsed_text(s.drop_last());
        assert(text(s).drop_last() =~= text(s.drop_last()));
    }
}

/// On either backend an operation takes exactly its duration.
pub proof fn lemma_elapsed_signals(kind: EmitterKind, op: EmitterOp)
    ensures
        elapsed(signals(kind, op)) == op.duration(),
{
    let wait = seq![Signal::DelayMs(op.duration())];
    assert(wait.drop_last() =~= Seq::<Signal>::empty());
    assert(elapsed(Seq::<Signal>::empty()) == 0);
    match kind {
        EmitterKind::CONSOLE => {
            lemma_elapsed_text(op.name());
            lemma_elapsed_text("\r\n"@);
            lemma_elapsed_concat(text(op.name()), text("\r\n"@));
            lemma_elapsed_concat(text(op.name()) + text("\r\n"@), wait);
        },
        EmitterKind::LED => {
            if op.is_mark() {
                let lit = seq![Signal::SetHigh];
                let dark = seq![Signal::SetLow];
                assert(lit.drop_last() =~= Seq::<Signal>::empty());
                assert(dark.drop_last() =~= Seq::<Signal>::empty());
                lemma_elapsed_concat(lit, wait);
                lemma_elapsed_concat(lit + wait, dark);
                assert(signals(kind, op) =~= lit + wait + dark);
            }
        },
    }
}

/// Rendering distributes over concatenation.
pub proof fn lemma_render_concat(kind: EmitterKind, a: Seq<EmitterOp>, b: Seq<EmitterOp>)
    ensures
        render(kind, a + b) == render(kind, a) + render(kind, b),
    decreases b.len(),
{
    if b.len() == 0 {
        assert(a + b =~= a);
        assert(render(kind, a) + render(kind, b) =~= render(kind, a));
    } else {
        lemma_render_concat(kind, a, b.drop_last());
        assert((a + b).drop_last() =~= a + b.drop_last());
    }
}

/// A run of one operation renders as that operation's signals.
pub proof fn lemma_render_one(kind: EmitterKind, op: EmitterOp)
    ensures
        render(kind, seq![op]) == signals(kind, op),
{
    assert(seq![op].drop_last() =~= Seq::<EmitterOp>::empty());
    assert(render(kind, Seq::<EmitterOp>::empty()) =~= Seq::<Signal>::empty());
}

/// A rendered run takes the time the operations are meant to take,
/// whichever the backend.
pub proof fn lemma_elapsed_render(kind: EmitterKind, ops: Seq<EmitterOp>)
    ensures
        elapsed(render(kind, ops)) == total_duration(ops),
    decreases ops.len(),
{
    if ops.len() > 0 {
        lemma_elapsed_render(kind, ops.drop_last());
        lemma_elapsed_signals(kind, ops.last());
        lemma_elapsed_concat(render(kind, ops.drop_last()), signals(kind, ops.last()));
    }
}

/// The backend changes what a run of operations looks like, never how long
/// it takes.
pub proof fn lemma_backend_keeps_time(ops: Seq<EmitterOp>)
    ensures
        elapsed(render(EmitterKind::LED, ops)) == elapsed(render(EmitterKind::CONSOLE, ops)),
{
    lemma_elapsed_render(EmitterKind::LED, ops);
    lemma_elapsed_render(EmitterKind::CONSOLE, ops);
}

/// What an emitter is, as mathematics: the active backend and the signals
/// issued so far that nobody has taken yet.
pub struct EmitterState {
    pub kind: EmitterKind,
    pub sent: Seq<Signal>,
}

impl EmitterState {
    /// A new emitter: on the console, with nothing issued.
    pub open spec fn start() -> EmitterState {
        EmitterState { kind: EmitterKind::CONSOLE, sent: Seq::empty() }
    }

    pub open spec fn switch_to(self, kind: EmitterKind) -> EmitterState {
        EmitterState { kind, sent: self.sent }
    }

    pub open spec fn send(self, sigs: Seq<Signal>) -> EmitterState {
        EmitterState { kind: self.kind, sent: self.sent + sigs }
    }

    pub open spec fn write(self, s: Seq<char>) -> EmitterState {
        self.send(text(s))
    }

    pub open spec fn perform(self, op: EmitterOp) -> EmitterState {
        self.send(signals(self.kind, op))
    }

    pub open spec fn perform_all(self, ops: Seq<EmitterOp>) -> EmitterState {
        self.send(render(self.kind, ops))
    }

    pub open spec fn taken(self) -> EmitterState {
        EmitterState { kind: self.kind, sent: Seq::empty() }
    }

    /// Performing a run and then one more operation is performing the
    /// longer run.
    pub proof fn lemma_perform_all_push(self, ops: Seq<EmitterOp>, op: EmitterOp)
        ensures
            self.perform_all(ops).perform(op) == self.perform_all(ops.push(op)),
    {
        assert(ops.push(op).drop_last() =~= ops);
        assert(self.perform_all(ops).perform(op).sent =~= self.perform_all(ops.push(op)).sent);
    }

    /// Performing one run after another is performing their concatenation.
    pub proof fn lemma_perform_all_concat(self, a: Seq<EmitterOp>, b: Seq<EmitterOp>)
        ensures
            self.perform_all(a).perform_all(b) == self.perform_all(a + b),
    {
        lemma_render_concat(self.kind, a, b);
        assert(self.perform_all(a).perform_all(b).sent =~= self.perform_all(a + b).sent);
    }

    /// Performing no operation changes nothing.
    pub proof fn lemma_perform_none(self)
        ensures
            self.perform_all(Seq::empty()) == self,
    {
        assert(self.perform_all(Seq::empty()).sent =~= self.sent);
    }
}

/// The output side of the machine: the active backend, and the signals
/// issued for the devices.
pub struct Emitter {
    emitter: EmitterKind,
    outbox: Vec<Signal>,
}

impl View for Emitter {
    type V = EmitterState;

    closed spec fn view(&self) -> EmitterState {
        EmitterState { kind: self.emitter, sent: self.outbox@ }
    }
}

impl Emitter {
    /// An emitter on the console, with nothing issued yet.
    #[inline(always)]
    pub fn new() -> (r: Emitter)
        ensures
            r@ == EmitterState::start(),
    {
        Emitter { emitter: EmitterKind::CONSOLE, outbox: Vec::new() }
    }

    /// The active backend.
    #[inline(always)]
    pub fn kind(&self) -> (k: EmitterKind)
        ensures
            k == self@.kind,
    {
        self.emitter
    }

    /// Makes `emitter` the active backend. What was issued before stays as
    /// it was issued.
    #[inline(always)]
    pub fn set_emitter(&mut self, emitter: EmitterKind) -> (r: &Self)
        ensures
            r@ == old(self)@.switch_to(emitter),
            *final(self) == *r,
    {
        self.emitter = emitter;
        self
    }

    /// Writes `string` to the console, whichever backend is active.
    #[inline(always)]
    pub fn write(&mut self, string: &str) -> (r: &Self)
        ensures
            r@ == old(self)@.write(string@),
            *final(self) == *r,
    {
        let ghost before = self.outbox@;
        for c in it: string.chars()
            invariant
                it.seq() == string@,
                self.emitter == old(self).emitter,
                self.outbox@ =~= before + text(string@.take(it.index())),
        {
            self.outbox.push(Signal::Write(c));
            assert(text(string@.take(it.index() + 1)) =~= text(string@.take(it.index())).push(
                Signal::put(c),
            ));
        }
        assert(string@.take(string@.len() as int) =~= string@);
        self
    }

    /// Writes the single character `c` to the console.
    #[inline(always)]
    pub fn write_char(&mut self, c: char) -> (r: &Self)
        ensures
            r@ == old(self)@.write(seq![c]),
            *final(self) == *r,
    {
        self.outbox.push(Signal::Write(c));
        assert(self.outbox@ =~= old(self).outbox@ + text(seq![c]));
        self
    }

    /// Performs `op` on the active backend.
    #[inline(always)]
    pub fn do_op(&mut self, op: EmitterOp) -> (r: &mut Self)
        ensures
            r@ == old(self)@.perform(op),
            *final(self) == *final(r),
    {
        let op_duration = match op {
            EmitterOp::Dot => Time::DOT,
            EmitterOp::Dash => Time::DASH,
            EmitterOp::SymbolGap => Time::INTRA_SYM_GAP,
            EmitterOp::CharacterGap => Time::INTRA_ASCII_GAP,
            EmitterOp::WordGap => Time::WORD_GAP,
        };
        match self.emitter {
            EmitterKind::CONSOLE => {
                self.write(op.to_str());
                self.write("\r\n");
                self.outbox.push(Signal::DelayMs(op_duration));
            },
            EmitterKind::LED => {
                match op {
                    EmitterOp::Dot | EmitterOp::Dash => {
                        self.outbox.push(Signal::SetHigh);
                        self.outbox.push(Signal::DelayMs(op_duration));
                        self.outbox.push(Signal::SetLow);
                    },
                    EmitterOp::WordGap | EmitterOp::SymbolGap | EmitterOp::CharacterGap => {
                        self.outbox.push(Signal::DelayMs(op_duration));
                    },
                }
            },
        }
        assert(self@.sent =~= old(self)@.sent + signals(old(self)@.kind, op));
        self
    }

    /// Performs a dot.
    #[inline(always)]
    pub fn dot(&mut self) -> (r: &Self)
        ensures
            r@ == old(self)@.perform(EmitterOp::Dot),
            *final(self) == *r,
    {
        self.do_op(EmitterOp::Dot)
    }

    /// Performs a dash.
    #[inline(always)]
    pub fn dash(&mut self) -> (r: &Self)
        ensures
            r@ == old(self)@.perform(EmitterOp::Dash),
            *final(self) == *r,
    {
        self.do_op(EmitterOp::Dash)
    }

    /// Performs the pause between two marks of a character.
    #[inline(always)]
    pub fn symbol_gap(&mut self) -> (r: &Self)
        ensures
            r@ == old(self)@.perform(EmitterOp::SymbolGap),
            *final(self) == *r,
    {
        self.do_op(EmitterOp::SymbolGap)
    }

    /// Performs the pause between two characters.
    #[inline(always)]
    pub fn character_gap(&mut self) -> (r: &Self)
        ensures
            r@ == old(self)@.perform(EmitterOp::CharacterGap),
            *final(self) == *r,
    {
        self.do_op(EmitterOp::CharacterGap)
    }

    /// Performs the pause between two words.
    #[inline(always)]
    pub fn word_gap(&mut self) -> (r: &Self)
        ensures
            r@ == old(self)@.perform(EmitterOp::WordGap),
            *final(self) == *r,
    {
        self.do_op(EmitterOp::WordGap)
    }

    /// Hands over the signals issued since the last call, oldest first, and
    /// starts collecting afresh.
    pub fn take(&mut self) -> (r: Vec<Signal>)
        ensures
            r@ == old(self)@.sent,
            final(self)@ == old(self)@.taken(),
    {
        let mut out: Vec<Signal> = Vec::new();
        core::mem::swap(&mut self.outbox, &mut out);
        out
    }
}

} // verus!

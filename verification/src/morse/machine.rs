//! The machine: one tape, one emitter, and the two ways of playing the tape
//! back: all of it in one pass, or one character per call.

use vstd::prelude::*;
use vstd::arithmetic::div_mod::{
    lemma_add_mod_noop, lemma_mod_add_multiples_vanish, lemma_mod_self_0, lemma_small_mod,
};
use vstd::std_specs::iter::IteratorSpec;
use vstd::string::{is_ascii_spec_bytes, StringSliceAdditionalSpecFns};
use crate::morse::code::{Code, Symbols};
use crate::morse::emitter::{
    elapsed, lemma_elapsed_concat, lemma_elapsed_render, lemma_render_one, render, Emitter,
    EmitterKind, EmitterOp, EmitterState, Signal,
};
use crate::morse::tape::{CircularBuffer, TapeState};

verus! {

/// The operation one character of a symbol string stands for: a dot, a
/// dash, or nothing at all for anything else.
pub open spec fn mark_ops(c: char) -> Seq<EmitterOp> {
    if c == Symbols::DOT {
        seq![EmitterOp::Dot]
    } else if c == Symbols::DASH {
        seq![EmitterOp::Dash]
    } else {
        Seq::empty()
    }
}

/// The operations of a symbol string: its marks in order, with a symbol gap
/// before every mark but the first.
pub open spec fn symbol_ops(symbols: Seq<char>) -> Seq<EmitterOp>
    decreases symbols.len(),
{
    if symbols.len() == 0 {
        Seq::empty()
    } else {
        symbol_ops(symbols.drop_last()) + (if symbols.len() > 1 {
            seq![EmitterOp::SymbolGap]
        } else {
            Seq::empty()
        }) + mark_ops(symbols.last())
    }
}

/// The operations that spell the character `c`.
pub open spec fn character_ops(c: char) -> Seq<EmitterOp> {
    symbol_ops(Code::symbols(c))
}

/// What a full pass plays for one slot: nothing for an empty slot, a word
/// gap for a space, and for any other character its marks followed by a
/// character gap.
pub open spec fn slot_ops(c: char) -> Seq<EmitterOp> {
    if c == CircularBuffer::EMPTY {
        Seq::empty()
    } else if c == ' ' {
        seq![EmitterOp::WordGap]
    } else {
        character_ops(c) + seq![EmitterOp::CharacterGap]
    }
}

/// What a full pass plays for the slots `slots`, taken in slot order.
pub open spec fn tape_ops(slots: Seq<char>) -> Seq<EmitterOp>
    decreases slots.len(),
{
    if slots.len() == 0 {
        Seq::empty()
    } else {
        tape_ops(slots.drop_last()) + slot_ops(slots.last())
    }
}

/// What a single step plays for the character `c` when the cursor moves
/// from `play` to `next`: a word gap for a space, the character's marks
/// otherwise, and then a character gap unless the cursor came back to where
/// it was.
pub open spec fn step_ops(c: char, play: nat, next: nat) -> Seq<EmitterOp> {
    (if c == ' ' {
        seq![EmitterOp::WordGap]
    } else {
        character_ops(c)
    }) + (if next != play {
        seq![EmitterOp::CharacterGap]
    } else {
        Seq::empty()
    })
}

/// The number of word gaps in a run of operations.
pub open spec fn word_gaps(ops: Seq<EmitterOp>) -> nat
    decreases ops.len(),
{
    if ops.len() == 0 {
        0
    } else {
        word_gaps(ops.drop_last()) + if ops.last() == EmitterOp::WordGap {
            1nat
        } else {
            0nat
        }
    }
}

/// The number of slots that hold a space.
pub open spec fn spaces(slots: Seq<char>) -> nat
    decreases slots.len(),
{
    if slots.len() == 0 {
        0
    } else {
        spaces(slots.drop_last()) + if slots.last() == ' ' {
            1nat
        } else {
            0nat
        }
    }
}

/// Word gaps add up over concatenation.
pub proof fn lemma_word_gaps_concat(a: Seq<EmitterOp>, b: Seq<EmitterOp>)
    ensures
        word_gaps(a + b) == word_gaps(a) + word_gaps(b),
    decreases b.len(),
{
    if b.len() == 0 {
        assert(a + b =~= a);
    } else {
        lemma_word_gaps_concat(a, b.drop_last());
        assert((a + b).drop_last() =~= a + b.drop_last());
    }
}

/// A run holds no word gap exactly if its count of word gaps is zero.
pub proof fn lemma_word_gaps_none(ops: Seq<EmitterOp>)
    ensures
        word_gaps(ops) == 0 <==> forall|i: int|
            0 <= i < ops.len() ==> ops[i] != EmitterOp::WordGap,
    decreases ops.len(),
{
    if ops.len() > 0 {
        lemma_word_gaps_none(ops.drop_last());
        if word_gaps(ops) == 0 {
            assert forall|i: int| 0 <= i < ops.len() implies ops[i] != EmitterOp::WordGap by {
                if i < ops.len() - 1 {
                    assert(ops.drop_last()[i] == ops[i]);
                }
            }
        } else if ops.last() != EmitterOp::WordGap {
            let i = choose|i: int|
                0 <= i < ops.drop_last().len() && ops.drop_last()[i] == EmitterOp::WordGap;
            assert(ops[i] == EmitterOp::WordGap);
        }
    }
}

/// The operations of a symbol string are dots, dashes and symbol gaps, and
/// nothing else.
pub proof fn lemma_symbol_ops_are_marks_and_symbol_gaps(symbols: Seq<char>)
    ensures
        forall|i: int|
            0 <= i < symbol_ops(symbols).len() ==> {
                let op = #[trigger] symbol_ops(symbols)[i];
                op == EmitterOp::Dot || op == EmitterOp::Dash || op == EmitterOp::SymbolGap
            },
        word_gaps(symbol_ops(symbols)) == 0,
    decreases symbols.len(),
{
    if symbols.len() > 0 {
        lemma_symbol_ops_are_marks_and_symbol_gaps(symbols.drop_last());
    }
    lemma_word_gaps_none(symbol_ops(symbols));
}

/// A full pass plays one word gap for each slot that holds a space, and no
/// other: without a space on the tape there is no word gap in the pass.
pub proof fn lemma_word_gaps_are_spaces(slots: Seq<char>)
    ensures
        word_gaps(tape_ops(slots)) == spaces(slots),
        spaces(slots) == 0 ==> forall|i: int|
            0 <= i < tape_ops(slots).len() ==> tape_ops(slots)[i] != EmitterOp::WordGap,
    decreases slots.len(),
{
    if slots.len() > 0 {
        let c = slots.last();
        lemma_word_gaps_are_spaces(slots.drop_last());
        lemma_word_gaps_concat(tape_ops(slots.drop_last()), slot_ops(c));
        assert(word_gaps(Seq::<EmitterOp>::empty()) == 0);
        if c == CircularBuffer::EMPTY {
            assert(word_gaps(slot_ops(c)) == 0);
        } else if c == ' ' {
            let gap = seq![EmitterOp::WordGap];
            assert(gap.drop_last() =~= Seq::<EmitterOp>::empty());
            assert(word_gaps(gap) == 1);
        } else {
            let gap = seq![EmitterOp::CharacterGap];
            assert(gap.drop_last() =~= Seq::<EmitterOp>::empty());
            assert(word_gaps(gap) == 0);
            lemma_symbol_ops_are_marks_and_symbol_gaps(Code::symbols(c));
            lemma_word_gaps_concat(character_ops(c), gap);
            assert(word_gaps(slot_ops(c)) == 0);
        }
    }
    lemma_word_gaps_none(tape_ops(slots));
}

/// A full pass that plays anything ends in a pause: a character gap or a
/// word gap, and a character gap if no slot holds a space.
pub proof fn lemma_pass_ends_in_a_gap(slots: Seq<char>)
    requires
        tape_ops(slots).len() > 0,
    ensures
        tape_ops(slots).last() == EmitterOp::CharacterGap || tape_ops(slots).last()
            == EmitterOp::WordGap,
        spaces(slots) == 0 ==> tape_ops(slots).last() == EmitterOp::CharacterGap,
    decreases slots.len(),
{
    let c = slots.last();
    if c == CircularBuffer::EMPTY {
        assert(tape_ops(slots) =~= tape_ops(slots.drop_last()));
        lemma_pass_ends_in_a_gap(slots.drop_last());
    }
}

/// What a machine is, as mathematics: its tape, its emitter, the slot that
/// the next single step plays, and the number of recorded characters.
pub struct MachineState {
    pub tape: TapeState,
    pub emitter: EmitterState,
    pub play: nat,
    pub end: nat,
}

impl MachineState {
    /// The machine as it is created.
    pub open spec fn start() -> MachineState {
        MachineState { tape: TapeState::empty(), emitter: EmitterState::start(), play: 0, end: 0 }
    }

    /// The tape is well formed and holds encodable characters in its written
    /// slots, the recorded count is the tape's fill count, and the play
    /// cursor points at a recorded character whenever there is one.
    pub open spec fn wf(self) -> bool {
        &&& self.tape.wf()
        &&& self.end == self.tape.filled
        &&& self.end > 0 ==> self.play < self.end
        &&& self.end == 0 ==> self.play == 0
        &&& forall|i: int| 0 <= i < self.end ==> Code::encodable(#[trigger] self.tape.slots[i])
    }

    /// Records `c` if it is encodable, and does nothing at all otherwise.
    pub open spec fn insert_checked(self, c: char) -> MachineState {
        if Code::encodable(c) {
            MachineState {
                tape: self.tape.insert(c),
                end: if self.end < CircularBuffer::MAX_SLOTS {
                    self.end + 1
                } else {
                    self.end
                },
                ..self
            }
        } else {
            self
        }
    }

    /// Empties the tape and rewinds both counters.
    pub open spec fn reset(self) -> MachineState {
        MachineState { tape: TapeState::empty(), play: 0, end: 0, ..self }
    }

    /// Makes the other backend the active one.
    pub open spec fn switch_emitter(self) -> MachineState {
        MachineState { emitter: self.emitter.switch_to(self.emitter.kind.other()), ..self }
    }

    /// Plays every slot once, in slot order.
    pub open spec fn send_tape(self) -> MachineState {
        MachineState { emitter: self.emitter.perform_all(tape_ops(self.tape.slots)), ..self }
    }

    /// Writes the tape to the console under the heading
    /// `Tape-------------------`.
    pub open spec fn print_tape(self) -> MachineState {
        MachineState {
            emitter: self.emitter.write(self.tape.dump("Tape-------------------"@)),
            ..self
        }
    }

    /// The slot that the step after this one plays.
    pub open spec fn next_play(self) -> nat {
        (self.play + 1) % self.end
    }

    /// Plays the character under the play cursor and moves the cursor on,
    /// back to the first slot after the last recorded one. With nothing
    /// recorded it does nothing.
    pub open spec fn emit_and_step(self) -> MachineState {
        if self.end == 0 {
            self
        } else {
            MachineState {
                emitter: self.emitter.perform_all(
                    step_ops(self.tape.slots[self.play as int], self.play, self.next_play()),
                ),
                play: self.next_play(),
                ..self
            }
        }
    }

    /// `n` single steps in a row.
    pub open spec fn steps(self, n: nat) -> MachineState
        decreases n,
    {
        if n == 0 {
            self
        } else {
            self.steps((n - 1) as nat).emit_and_step()
        }
    }

    /// The number of single steps after which a cursor that stands on
    /// `play` plays slot `j`, of `end` recorded slots.
    pub open spec fn turn_of(j: nat, play: nat, end: nat) -> nat {
        if j >= play {
            (j - play) as nat
        } else {
            (j + end - play) as nat
        }
    }

    /// The characters of `cs` offered to the tape, first element first.
    pub open spec fn record(self, cs: Seq<char>) -> MachineState
        decreases cs.len(),
    {
        if cs.len() == 0 {
            self
        } else {
            self.record(cs.drop_last()).insert_checked(cs.last())
        }
    }

    /// The machine once its signals have been handed over.
    pub open spec fn taken(self) -> MachineState {
        MachineState { emitter: self.emitter.taken(), ..self }
    }

    /// Every operation of the machine keeps it well formed.
    pub proof fn lemma_wf_kept(self, c: char)
        requires
            self.wf(),
        ensures
            MachineState::start().wf(),
            self.insert_checked(c).wf(),
            self.reset().wf(),
            self.switch_emitter().wf(),
            self.send_tape().wf(),
            self.print_tape().wf(),
            self.emit_and_step().wf(),
            self.taken().wf(),
    {
    }

    /// On the printed tape the blank mark stands for the slots that were
    /// never written, and for no others: it is not encodable, so no recorded
    /// character is printed as one.
    pub proof fn lemma_blank_marks_unused(self, i: int)
        requires
            self.wf(),
            0 <= i < CircularBuffer::MAX_SLOTS,
        ensures
            !Code::encodable(CircularBuffer::BLANK),
            !Code::encodable(CircularBuffer::EMPTY),
            self.tape.content_line()[i] == CircularBuffer::BLANK <==> i >= self.end,
            i < self.end ==> self.tape.content_line()[i] == self.tape.slots[i],
    {
    }

    /// A character that is not encodable leaves the machine exactly as it
    /// was: the same tape, the same counters, the same emitter.
    pub proof fn lemma_rejected_changes_nothing(self, c: char)
        requires
            !Code::encodable(c),
        ensures
            self.insert_checked(c) == self,
    {
    }

    /// Of a run of characters offered to the tape, exactly the encodable ones
    /// are written, in the order offered. Nothing else about the machine
    /// changes but the recorded count.
    pub proof fn lemma_record(self, cs: Seq<char>)
        requires
            self.wf(),
        ensures
            self.record(cs).wf(),
            self.record(cs).tape == self.tape.insert_all(
                cs.filter(|c: char| Code::encodable(c)),
            ),
            self.record(cs).emitter == self.emitter,
            self.record(cs).play == self.play,
        decreases cs.len(),
    {
        let accepted = |c: char| Code::encodable(c);
        reveal(Seq::filter);
        if cs.len() > 0 {
            let before = self.record(cs.drop_last());
            self.lemma_record(cs.drop_last());
            before.lemma_wf_kept(cs.last());
            if Code::encodable(cs.last()) {
                let kept = cs.drop_last().filter(accepted);
                assert(kept.push(cs.last()).drop_last() =~= kept);
            }
        }
    }

    /// The recorded count of a new machine is the number of encodable
    /// characters offered to it, capped at the capacity of the tape.
    pub proof fn lemma_recorded_count(cs: Seq<char>)
        ensures
            ({
                let accepted = cs.filter(|c: char| Code::encodable(c)).len();
                MachineState::start().record(cs).end == if accepted < CircularBuffer::MAX_SLOTS {
                    accepted
                } else {
                    CircularBuffer::MAX_SLOTS as nat
                }
            }),
    {
        MachineState::start().lemma_wf_kept(' ');
        MachineState::start().lemma_record(cs);
        TapeState::lemma_insert_all(cs.filter(|c: char| Code::encodable(c)));
    }

    /// Below twice the modulus, the remainder takes at most one subtraction.
    proof fn lemma_mod_below_twice(x: nat, m: nat)
        requires
            0 < m,
            x < 2 * m,
        ensures
            x % m == if x < m {
                x
            } else {
                (x - m) as nat
            },
    {
        if x < m {
            lemma_small_mod(x, m);
        } else {
            lemma_small_mod((x - m) as nat, m);
            lemma_mod_add_multiples_vanish(x - m, m as int);
        }
    }

    /// Single steps touch neither the tape nor the recorded count nor the
    /// backend, and after `n` of them the play cursor has moved on by `n`,
    /// modulo the number of recorded characters.
    pub proof fn lemma_steps(self, n: nat)
        requires
            self.wf(),
            self.end > 0,
        ensures
            self.steps(n).wf(),
            self.steps(n).tape == self.tape,
            self.steps(n).end == self.end,
            self.steps(n).emitter.kind == self.emitter.kind,
            self.steps(n).play == (self.play + n) % self.end,
        decreases n,
    {
        if n == 0 {
            lemma_small_mod(self.play, self.end);
        } else {
            let m = (n - 1) as nat;
            self.lemma_steps(m);
            let before = self.steps(m);
            before.lemma_wf_kept(' ');
            if self.end > 1 {
                lemma_add_mod_noop((self.play + m) as int, 1, self.end as int);
                lemma_small_mod(1, self.end);
            }
        }
    }

    /// Starting on the first slot, as many single steps as there are
    /// recorded characters play the recorded slots in order, each of them
    /// once, and leave the play cursor on the first slot again.
    pub proof fn lemma_round_visits_each_slot_once(self)
        requires
            self.wf(),
            self.end > 0,
            self.play == 0,
        ensures
            forall|k: nat| k < self.end ==> (#[trigger] self.steps(k)).play == k,
            forall|k: nat|
                k < self.end ==> (#[trigger] self.steps(k + 1)).emitter == self.steps(
                    k,
                ).emitter.perform_all(
                    step_ops(self.tape.slots[k as int], k, self.steps(k + 1).play),
                ),
            self.steps(self.end).play == 0,
    {
        assert forall|k: nat| k < self.end implies (#[trigger] self.steps(k)).play == k by {
            self.lemma_steps(k);
            lemma_small_mod(k, self.end);
        }
        assert forall|k: nat| k < self.end implies (#[trigger] self.steps(k + 1)).emitter
            == self.steps(k).emitter.perform_all(
            step_ops(self.tape.slots[k as int], k, self.steps(k + 1).play),
        ) by {
            self.lemma_steps(k);
            lemma_small_mod(k, self.end);
        }
        self.lemma_steps(self.end);
        lemma_mod_self_0(self.end as int);
    }

    /// Wherever the play cursor stands, as many single steps as there are
    /// recorded characters play every recorded slot, none of them twice, and
    /// bring the cursor back to where it stood.
    pub proof fn lemma_round_from_anywhere(self)
        requires
            self.wf(),
            self.end > 0,
        ensures
            forall|j: nat|
                j < self.end ==> (#[trigger] self.steps(Self::turn_of(j, self.play, self.end))).play
                    == j && Self::turn_of(j, self.play, self.end) < self.end,
            forall|k1: nat, k2: nat|
                k1 < k2 < self.end ==> (#[trigger] self.steps(k1)).play != (#[trigger] self.steps(
                    k2,
                )).play,
            self.steps(self.end).play == self.play,
    {
        assert forall|k: nat| k < self.end implies (#[trigger] self.steps(k)).play == if self.play
            + k < self.end {
            self.play + k
        } else {
            (self.play + k - self.end) as nat
        } by {
            self.lemma_steps(k);
            Self::lemma_mod_below_twice(self.play + k, self.end);
        }
        self.lemma_steps(self.end);
        Self::lemma_mod_below_twice(self.play + self.end, self.end);
    }

    /// Switching the backend before a run of single steps changes what the
    /// steps look like and nothing else: the tape and both counters come out
    /// the same, and the signals take the same time in all.
    pub proof fn lemma_switch_keeps_cadence(self, n: nat)
        requires
            self.wf(),
        ensures
            self.switch_emitter().steps(n).tape == self.steps(n).tape,
            self.switch_emitter().steps(n).play == self.steps(n).play,
            self.switch_emitter().steps(n).end == self.steps(n).end,
            self.switch_emitter().steps(n).emitter.kind == self.emitter.kind.other(),
            self.steps(n).emitter.kind == self.emitter.kind,
            elapsed(self.switch_emitter().steps(n).emitter.sent) == elapsed(
                self.steps(n).emitter.sent,
            ),
        decreases n,
    {
        if n > 0 {
            let m = (n - 1) as nat;
            self.lemma_switch_keeps_cadence(m);
            let a = self.steps(m);
            let b = self.switch_emitter().steps(m);
            if a.end > 0 {
                let ops = step_ops(a.tape.slots[a.play as int], a.play, a.next_play());
                lemma_elapsed_render(a.emitter.kind, ops);
                lemma_elapsed_render(b.emitter.kind, ops);
                lemma_elapsed_concat(a.emitter.sent, render(a.emitter.kind, ops));
                lemma_elapsed_concat(b.emitter.sent, render(b.emitter.kind, ops));
            }
        }
    }
}

/// A Morse machine: characters are recorded on its tape and played back
/// through its emitter.
pub struct Machine {
    tape: CircularBuffer,
    emitter: Emitter,
    current_slot: usize,
    end_slot: usize,
}

impl View for Machine {
    type V = MachineState;

    closed spec fn view(&self) -> MachineState {
        MachineState {
            tape: self.tape@,
            emitter: self.emitter@,
            play: self.current_slot as nat,
            end: self.end_slot as nat,
        }
    }
}

impl Machine {
    /// A machine with an empty tape, playing to the console.
    #[inline(always)]
    pub fn new() -> (r: Machine)
        ensures
            r@ == MachineState::start(),
            r@.wf(),
    {
        let tape: CircularBuffer = CircularBuffer::new();
        let emitter: Emitter = Emitter::new();
        Machine { tape, emitter, current_slot: 0, end_slot: 0 }
    }

    /// Records `c` on the tape if it is encodable. Any other character is
    /// dropped without a trace.
    #[inline(always)]
    pub fn checked_insert_into_tape(&mut self, c: char) -> (r: &mut Self)
        requires
            old(self)@.wf(),
        ensures
            r@ == old(self)@.insert_checked(c),
            !Code::encodable(c) ==> r@ == old(self)@,
            r@.wf(),
            *final(self) == *final(r),
    {
        if Code::is_valid_ascii(&c) {
            self.tape.insert(c);
            if self.end_slot < CircularBuffer::MAX_SLOTS {
                self.end_slot += 1;
            }
        }
        proof {
            old(self)@.lemma_wf_kept(c);
        }
        self
    }

    /// Empties the tape and rewinds the play cursor.
    #[inline(always)]
    pub fn reset_tape(&mut self) -> (r: &mut Self)
        ensures
            r@ == old(self)@.reset(),
            r@.wf(),
            *final(self) == *final(r),
    {
        self.tape.clear();
        self.current_slot = 0;
        self.end_slot = 0;
        self
    }

    /// Plays the whole tape once, slot by slot.
    #[inline(always)]
    pub fn send_tape(&mut self) -> (r: &mut Self)
        requires
            old(self)@.wf(),
        ensures
            r@ == old(self)@.send_tape(),
            r@.wf(),
            *final(self) == *final(r),
    {
        self.emit();
        self
    }

    /// Writes the tape to the console: a heading, a line that marks the slot
    /// of the next write, the slots themselves, and a closing rule.
    #[inline(always)]
    pub fn print_tape(&mut self) -> (r: &mut Self)
        requires
            old(self)@.wf(),
        ensures
            r@ == old(self)@.print_tape(),
            r@.wf(),
            *final(self) == *final(r),
    {
        let slot = self.tape.current_slot();
        let ghost tape = self.tape@;
        let ghost start = self.emitter@;
        self.emitter.write("Tape-------------------");
        self.emitter.write("\r\n");
        let ghost head = "Tape-------------------"@ + "\r\n"@;
        assert(self.emitter@.sent =~= start.write(head).sent);
        let mut i: usize = 0;
        while i < CircularBuffer::MAX_SLOTS
            invariant
                i <= CircularBuffer::MAX_SLOTS,
                slot == tape.cursor,
                self.tape == old(self).tape,
                self.current_slot == old(self).current_slot,
                self.end_slot == old(self).end_slot,
                self.emitter@ == start.write(head + tape.marker_line().take(i as int)),
            decreases CircularBuffer::MAX_SLOTS - i,
        {
            let ghost sofar = head + tape.marker_line().take(i as int);
            if i == slot {
                self.emitter.write("V");
            } else {
                self.emitter.write(" ");
            }
            proof {
                reveal_strlit("V");
                reveal_strlit(" ");
                let mark = if i == slot {
                    "V"@
                } else {
                    " "@
                };
                assert(sofar + mark =~= head + tape.marker_line().take(i + 1));
                assert(start.write(sofar).write(mark).sent =~= start.write(sofar + mark).sent);
            }
            i += 1;
        }
        self.emitter.write("\r\n");
        let ghost head = head + tape.marker_line() + "\r\n"@;
        assert(self.emitter@.sent =~= start.write(head).sent);
        let mut i: usize = 0;
        while i < CircularBuffer::MAX_SLOTS
            invariant
                i <= CircularBuffer::MAX_SLOTS,
                tape == self.tape@,
                tape.wf(),
                self.tape == old(self).tape,
                self.current_slot == old(self).current_slot,
                self.end_slot == old(self).end_slot,
                self.emitter@ == start.write(head + tape.content_line().take(i as int)),
            decreases CircularBuffer::MAX_SLOTS - i,
        {
            let ghost sofar = head + tape.content_line().take(i as int);
            let c = self.tape.get(i);
            let shown = if c == CircularBuffer::EMPTY {
                CircularBuffer::BLANK
            } else {
                c
            };
            self.emitter.write_char(shown);
            proof {
                assert(sofar + seq![shown] =~= head + tape.content_line().take(i + 1));
                assert(start.write(sofar).write(seq![shown]).sent =~= start.write(
                    sofar + seq![shown],
                ).sent);
            }
            i += 1;
        }
        self.emitter.write("\r\n");
        self.emitter.write("------------------------\r\n");
        proof {
            let all = tape.dump("Tape-------------------"@);
            assert(self.emitter@.sent =~= start.write(all).sent);
        }
        self
    }

    /// Plays the character under the play cursor and moves the cursor on to
    /// the next recorded character, or back to the first after the last. A
    /// character gap follows unless the tape holds a single character. With
    /// an empty tape nothing happens.
    #[inline(always)]
    pub fn emit_and_step(&mut self) -> (r: &mut Self)
        requires
            old(self)@.wf(),
        ensures
            r@ == old(self)@.emit_and_step(),
            r@.wf(),
            *final(self) == *final(r),
    {
        if self.end_slot == 0 {
            return self;
        }
        let ghost start = self@;
        let current_slot_char: char = self.tape.get(self.current_slot);
        let ghost played = if current_slot_char == ' ' {
            seq![EmitterOp::WordGap]
        } else {
            character_ops(current_slot_char)
        };
        if current_slot_char == ' ' {
            self.emitter.word_gap();
            proof {
                lemma_render_one(start.emitter.kind, EmitterOp::WordGap);
            }
        } else {
            self.emit_character(&current_slot_char);
        }
        let next_slot = (self.current_slot + 1) % self.end_slot;
        if next_slot != self.current_slot {
            self.emitter.character_gap();
            proof {
                start.emitter.lemma_perform_all_push(played, EmitterOp::CharacterGap);
                assert(played.push(EmitterOp::CharacterGap) =~= played + seq![
                    EmitterOp::CharacterGap,
                ]);
            }
        }
        self.current_slot = next_slot;
        proof {
            start.lemma_wf_kept(' ');
        }
        self
    }

    /// Plays the marks of `c`, with a symbol gap between one mark and the
    /// next and none after the last.
    #[inline(always)]
    fn emit_character(&mut self, c: &char) -> (r: &mut Self)
        requires
            Code::encodable(*c),
            *c != ' ',
        ensures
            r@ == (MachineState {
                emitter: old(self)@.emitter.perform_all(character_ops(*c)),
                ..old(self)@
            }),
            *final(self) == *final(r),
    {
        let symbols: &'static str = Code::char_to_symbol(c);
        let num_syms: usize = symbols.len();
        let ghost start = self.emitter@;
        proof {
            Code::lemma_symbols(*c);
            is_ascii_spec_bytes(symbols);
            start.lemma_perform_none();
        }
        let mut i: usize = 0;
        for s in it: symbols.chars()
            invariant
                it.seq() == symbols@,
                symbols@.len() == num_syms,
                num_syms <= 7,
                i == it.index(),
                self.tape == old(self).tape,
                self.current_slot == old(self).current_slot,
                self.end_slot == old(self).end_slot,
                self.emitter@ == start.perform_all(symbol_ops(symbols@.take(i as int))),
        {
            let ghost sofar = symbol_ops(symbols@.take(i as int));
            let ghost gap = if i != 0 {
                seq![EmitterOp::SymbolGap]
            } else {
                Seq::<EmitterOp>::empty()
            };
            if i != 0 && i != num_syms {
                self.emitter.symbol_gap();
                proof {
                    start.lemma_perform_all_push(sofar, EmitterOp::SymbolGap);
                    assert(sofar.push(EmitterOp::SymbolGap) =~= sofar + gap);
                }
            }
            if s == Symbols::DOT {
                self.emitter.dot();
                proof {
                    start.lemma_perform_all_push(sofar + gap, EmitterOp::Dot);
                    assert((sofar + gap).push(EmitterOp::Dot) =~= sofar + gap + mark_ops(s));
                }
            } else if s == Symbols::DASH {
                self.emitter.dash();
                proof {
                    start.lemma_perform_all_push(sofar + gap, EmitterOp::Dash);
                    assert((sofar + gap).push(EmitterOp::Dash) =~= sofar + gap + mark_ops(s));
                }
            }
            proof {
                let longer = symbols@.take(i + 1);
                assert(longer.drop_last() =~= symbols@.take(i as int));
            }
            i += 1;
        }
        assert(symbols@.take(symbols@.len() as int) =~= symbols@);
        self
    }

    /// Makes the other backend the active one. What follows is played
    /// through it; what was played already is not touched.
    #[inline(always)]
    pub fn switch_emitter(&mut self) -> (r: &mut Self)
        ensures
            r@ == old(self)@.switch_emitter(),
            old(self)@.wf() ==> r@.wf(),
            *final(self) == *final(r),
    {
        match self.emitter.kind() {
            EmitterKind::LED => {
                self.emitter.set_emitter(EmitterKind::CONSOLE);
            },
            EmitterKind::CONSOLE => {
                self.emitter.set_emitter(EmitterKind::LED);
            },
        }
        self
    }

    /// One pass over all slots in slot order: nothing for an empty slot, a
    /// word gap for a space, and for any other character its marks and a
    /// character gap.
    #[inline(always)]
    fn emit(&mut self)
        requires
            old(self)@.wf(),
        ensures
            final(self)@ == old(self)@.send_tape(),
    {
        let ghost start = self@;
        proof {
            start.emitter.lemma_perform_none();
        }
        let mut i: usize = 0;
        while i < CircularBuffer::MAX_SLOTS
            invariant
                i <= CircularBuffer::MAX_SLOTS,
                start.wf(),
                start == old(self)@,
                self@ == (MachineState {
                    emitter: start.emitter.perform_all(tape_ops(start.tape.slots.take(i as int))),
                    ..start
                }),
            decreases CircularBuffer::MAX_SLOTS - i,
        {
            let ghost sofar = tape_ops(start.tape.slots.take(i as int));
            let c = self.tape.get(i);
            if c == CircularBuffer::EMPTY {
                // an empty slot is passed over in silence
            } else if c == ' ' {
                self.emitter.word_gap();
                proof {
                    start.emitter.lemma_perform_all_push(sofar, EmitterOp::WordGap);
                }
            } else {
                self.emit_character(&c);
                self.emitter.character_gap();
                proof {
                    start.emitter.lemma_perform_all_concat(sofar, character_ops(c));
                    start.emitter.lemma_perform_all_push(
                        sofar + character_ops(c),
                        EmitterOp::CharacterGap,
                    );
                    assert((sofar + character_ops(c)).push(EmitterOp::CharacterGap) =~= sofar
                        + slot_ops(c));
                }
            }
            proof {
                let longer = start.tape.slots.take(i + 1);
                assert(longer.drop_last() =~= start.tape.slots.take(i as int));
            }
            i += 1;
        }
        assert(start.tape.slots.take(CircularBuffer::MAX_SLOTS as int) =~= start.tape.slots);
    }

    /// The tape.
    pub fn tape(&self) -> (r: &CircularBuffer)
        ensures
            r@ == self@.tape,
    {
        &self.tape
    }

    /// The active backend.
    pub fn emitter_kind(&self) -> (r: EmitterKind)
        ensures
            r == self@.emitter.kind,
    {
        self.emitter.kind()
    }

    /// The slot that the next single step plays.
    pub fn play_cursor(&self) -> (r: usize)
        ensures
            r == self@.play,
    {
        self.current_slot
    }

    /// The number of recorded characters, which single steps cycle through.
    pub fn recorded_end(&self) -> (r: usize)
        ensures
            r == self@.end,
    {
        self.end_slot
    }

    /// Hands over, oldest first, the signals issued since the last call.
    pub fn take_signals(&mut self) -> (r: Vec<Signal>)
        ensures
            r@ == old(self)@.emitter.sent,
            final(self)@ == old(self)@.taken(),
    {
        self.emitter.take()
    }
}

} // verus!

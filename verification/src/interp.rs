//! The sequence interpreter: a resumable executor over an ordered list of
//! timed actions. It computes, for a run starting at any position, the
//! device commands to issue in order and the index at which a later run may
//! resume. Positions past the end of the list behave as an implicit `End`,
//! so every `(sequence, index)` pair has a defined, finite run.

use vstd::prelude::*;

use crate::notes::frequency_for;
use crate::notes::spec_frequency_for;

verus! {

/// One scheduled unit of work in an animation or tune.
#[derive(Clone, Copy, PartialEq, Eq, Structural, Debug)]
pub enum Action {
    /// Terminates the current run.
    End,
    /// Pure delay, in milliseconds.
    Wait(u16),
    /// Select a tone by note-table index; an out-of-range index is a no-op.
    Note(u8),
    /// LED bitmask to present on the shift register's parallel outputs.
    Led(u8),
}

/// One command for the hardware collaborators, in the order issued.
#[derive(Clone, Copy, PartialEq, Eq, Structural, Debug)]
pub enum Command {
    /// Block for this many milliseconds.
    Wait(u16),
    /// Reprogram the tone source to this frequency in Hz.
    Tone(u16),
    /// Push this pattern out to the LED shift register.
    Led(u8),
}

/// The position of the `End` that stops a run from position `i`: the first
/// position at or after `i` that is past the sequence or holds an `End`.
pub open spec fn end_pos(s: Seq<Action>, i: int) -> int
    decreases s.len() - i,
{
    if i >= s.len() || s[i] is End {
        i
    } else {
        end_pos(s, i + 1)
    }
}

/// The index a run from position `i` reports for a later resume: one past
/// the `End` that stopped it.
pub open spec fn resume_of(s: Seq<Action>, i: int) -> int {
    end_pos(s, i) + 1
}

/// The commands a single action issues: none for `End` or an out-of-range
/// note index, one otherwise.
pub open spec fn commands_of(a: Action) -> Seq<Command> {
    match a {
        Action::End => Seq::empty(),
        Action::Wait(ms) => seq![Command::Wait(ms)],
        Action::Note(x) => match spec_frequency_for(x) {
            Some(f) => seq![Command::Tone(f)],
            None => Seq::empty(),
        },
        Action::Led(p) => seq![Command::Led(p)],
    }
}

/// The commands a run from position `i` issues, in order: those of each
/// action before the stopping `End`.
pub open spec fn trace_of(s: Seq<Action>, i: int) -> Seq<Command>
    decreases s.len() - i,
{
    if i >= s.len() || s[i] is End {
        Seq::empty()
    } else {
        commands_of(s[i]) + trace_of(s, i + 1)
    }
}

/// A run never stops before its start position.
proof fn lemma_end_pos_ge(s: Seq<Action>, i: int)
    ensures
        end_pos(s, i) >= i,
    decreases s.len() - i,
{
    if !(i >= s.len() || s[i] is End) {
        lemma_end_pos_ge(s, i + 1);
    }
}

/// A run stops no later than the end of the sequence.
proof fn lemma_end_pos_le(s: Seq<Action>, i: int)
    requires
        i <= s.len(),
    ensures
        end_pos(s, i) <= s.len(),
    decreases s.len() - i,
{
    if !(i >= s.len() || s[i] is End) {
        lemma_end_pos_le(s, i + 1);
    }
}

/// Run the sequence from `index`: issue the commands of each action in
/// order until an `End` — explicit, or implicit past the last element —
/// stops the run, and report the position after that `End` so that a later
/// run may continue the same timeline. On return the caller must mute the
/// tone source; the commands deliberately end short of that, since muting
/// happens unconditionally, not as a scheduled action.
#[verifier::loop_isolation(false)]
pub fn run(seqs: &[Action], index: usize) -> (res: (usize, Vec<Command>))
    requires
        index < usize::MAX,
        seqs@.len() < usize::MAX,
    ensures
        res.0 == resume_of(seqs@, index as int),
        res.1@ == trace_of(seqs@, index as int),
{
    let mut i: usize = index;
    let mut out: Vec<Command> = Vec::new();
    proof {
        lemma_end_pos_ge(seqs@, index as int);
        if index as int <= seqs@.len() {
            lemma_end_pos_le(seqs@, index as int);
        }
    }
    while i < seqs.len() && seqs[i] != Action::End
        invariant
            index <= i <= end_pos(seqs@, index as int),
            end_pos(seqs@, i as int) == end_pos(seqs@, index as int),
            trace_of(seqs@, index as int) == out@ + trace_of(seqs@, i as int),
        decreases end_pos(seqs@, index as int) - i,
    {
        let ghost prev = out@;
        match seqs[i] {
            Action::End => {},
            Action::Wait(ms) => out.push(Command::Wait(ms)),
            Action::Note(x) => {
                if let Some(f) = frequency_for(x) {
                    out.push(Command::Tone(f));
                }
            },
            Action::Led(p) => out.push(Command::Led(p)),
        }
        proof {
            assert(out@ == prev + commands_of(seqs@[i as int]));
            assert(trace_of(seqs@, i as int) == commands_of(seqs@[i as int]) + trace_of(
                seqs@,
                i + 1,
            ));
            assert(out@ + trace_of(seqs@, i + 1) == (prev + commands_of(seqs@[i as int]))
                + trace_of(seqs@, i + 1));
            assert((prev + commands_of(seqs@[i as int])) + trace_of(seqs@, i + 1) =~= prev + (
            commands_of(seqs@[i as int]) + trace_of(seqs@, i + 1)));
            lemma_end_pos_ge(seqs@, i + 1);
        }
        i += 1;
    }
    proof {
        assert(end_pos(seqs@, i as int) == i as int);
        assert(trace_of(seqs@, i as int) =~= Seq::<Command>::empty());
        assert(out@ + Seq::<Command>::empty() =~= out@);
    }
    (i + 1, out)
}

/// The commands of every action of `s` in order, with no stopping `End`
/// inside `s` itself: what a run issues when it consumes `s` whole.
pub open spec fn full_trace(s: Seq<Action>) -> Seq<Command> {
    trace_of(s, 0)
}

/// A run over a sequence whose only `End` stands at position `k` stops
/// right after it: the resume index is `k + 1`, and the commands issued are
/// exactly those of the actions at positions `0..k`, in order.
pub proof fn lemma_single_end_run(s: Seq<Action>, k: int)
    requires
        0 <= k < s.len(),
        s[k] is End,
        forall|j: int| 0 <= j < s.len() && j != k ==> !((#[trigger] s[j]) is End),
    ensures
        resume_of(s, 0) == k + 1,
        trace_of(s, 0) == full_trace(s.subrange(0, k)),
{
    lemma_stop_at_end(s, 0, k);
    lemma_trace_to_prefix(s, 0, k);
}

/// A run from `i` stops at `k`, the first `End` at or after `i`.
proof fn lemma_stop_at_end(s: Seq<Action>, i: int, k: int)
    requires
        0 <= i <= k < s.len(),
        s[k] is End,
        forall|j: int| i <= j < k ==> !((#[trigger] s[j]) is End),
    ensures
        end_pos(s, i) == k,
    decreases k - i,
{
    if i < k {
        lemma_stop_at_end(s, i + 1, k);
    }
}

/// Up to the first `End` at `k`, a run issues the same commands as a run
/// over the prefix before `k` alone.
proof fn lemma_trace_to_prefix(s: Seq<Action>, i: int, k: int)
    requires
        0 <= i <= k <= s.len(),
        k == s.len() || s[k] is End,
        forall|j: int| i <= j < k ==> !((#[trigger] s[j]) is End),
    ensures
        trace_of(s, i) == trace_of(s.subrange(0, k), i),
    decreases k - i,
{
    let t = s.subrange(0, k);
    if i < k {
        lemma_trace_to_prefix(s, i + 1, k);
        assert(trace_of(s, i) == commands_of(s[i]) + trace_of(s, i + 1));
        assert(trace_of(t, i) == commands_of(t[i]) + trace_of(t, i + 1));
    } else {
        assert(trace_of(s, i) =~= Seq::<Command>::empty());
        assert(trace_of(t, i) =~= Seq::<Command>::empty());
    }
}

/// Starting at the `End` of a sequence whose only `End` stands at `k`, or
/// anywhere past the sequence, a run does nothing: the resume index is the
/// start's successor and no commands are issued — end-of-sequence and
/// past-end behave identically. (A start strictly between an `End` and the
/// sequence's end is left out: from there a run would issue the commands of
/// the trailing actions.)
pub proof fn lemma_run_from_end(s: Seq<Action>, k: int, i: int)
    requires
        0 <= k < s.len(),
        s[k] is End,
        forall|j: int| 0 <= j < s.len() && j != k ==> !((#[trigger] s[j]) is End),
        i >= k,
        i == k || i >= s.len(),
    ensures
        resume_of(s, i) == i + 1,
        trace_of(s, i) == Seq::<Command>::empty(),
{
}

} // verus!

//! What holds of the instruction set as a whole, proved of the model
//! that the processor's contracts are stated over.

use vstd::prelude::*;
use crate::decode::{opcode_of, operands_of, Opcode};
use crate::fault::Fault;
use crate::machine::Machine;

verus! {

/// The word `00EE`, repeated `count` times.
pub open spec fn return_words(count: nat) -> Seq<u16> {
    Seq::new(count, |k: int| 0x00EEu16)
}

/// Whether every word of `words` is a `2NNN`.
pub open spec fn all_calls(words: Seq<u16>) -> bool {
    forall|k: int| 0 <= k < words.len() ==> opcode_of(#[trigger] words[k]) == Some(Opcode::Call)
}

/// `8XY4` always succeeds and moves the program counter on by two. It
/// sets `VF` to 1 exactly if the sum of `VX` and `VY` passes 255, and to
/// 0 otherwise; unless `X` is `F`, it leaves that sum modulo 256 in `VX`.
pub proof fn law_add_sets_carry(s: Machine, word: u16, random: u8)
    requires
        s.wf(),
        opcode_of(word) == Some(Opcode::AddReg),
    ensures
        s.cycle(word, random) is Ok,
        s.cycle(word, random)->Ok_0.pc == s.pc + 2,
        operands_of(word).x != 15 ==> s.cycle(word, random)->Ok_0.v[operands_of(word).x as int] == (
        s.v[operands_of(word).x as int] + s.v[operands_of(word).y as int]) % 256,
        s.cycle(word, random)->Ok_0.v[15] == 1 <==> s.v[operands_of(word).x as int]
            + s.v[operands_of(word).y as int] >= 256,
        s.cycle(word, random)->Ok_0.v[15] == 0 || s.cycle(word, random)->Ok_0.v[15] == 1,
{
}

/// `8XY5` always succeeds and moves the program counter on by two. It
/// sets `VF` to 1 exactly if `VX` was at least `VY`, and to 0 otherwise;
/// unless `X` is `F`, it leaves the difference modulo 256 in `VX`.
pub proof fn law_sub_sets_no_borrow(s: Machine, word: u16, random: u8)
    requires
        s.wf(),
        opcode_of(word) == Some(Opcode::SubReg),
    ensures
        s.cycle(word, random) is Ok,
        s.cycle(word, random)->Ok_0.pc == s.pc + 2,
        operands_of(word).x != 15 ==> s.cycle(word, random)->Ok_0.v[operands_of(word).x as int] == (
        s.v[operands_of(word).x as int] - s.v[operands_of(word).y as int]) % 256,
        s.cycle(word, random)->Ok_0.v[15] == 1 <==> s.v[operands_of(word).x as int]
            >= s.v[operands_of(word).y as int],
        s.cycle(word, random)->Ok_0.v[15] == 0 || s.cycle(word, random)->Ok_0.v[15] == 1,
{
}

/// `00E0` always succeeds: it turns every cell off, moves the program
/// counter on by two and changes nothing else.
pub proof fn law_clear_screen(s: Machine, random: u8)
    requires
        s.wf(),
    ensures
        s.cycle(0x00E0, random) is Ok,
        s.cycle(0x00E0, random)->Ok_0 == s.advance().clear_screen(),
        s.cycle(0x00E0, random)->Ok_0.pc == s.pc + 2,
        forall|cell: int| 0 <= cell < 2048 ==> !s.cycle(0x00E0, random)->Ok_0.screen[cell],
{
}

/// Cycles run one after the other: those of `first` followed by those
/// of `second` are the cycles of the two joined.
pub proof fn lemma_cycles_joined(s: Machine, first: Seq<u16>, second: Seq<u16>, random: u8)
    ensures
        s.cycles(first + second, random) == match s.cycles(first, random) {
            Ok(reached) => reached.cycles(second, random),
            Err(fault) => Err(fault),
        },
    decreases second.len(),
{
    if second.len() == 0 {
        assert(first + second =~= first);
    } else {
        assert((first + second).drop_last() =~= first + second.drop_last());
        assert((first + second).last() == second.last());
        lemma_cycles_joined(s, first, second.drop_last(), random);
    }
}

/// Stack discipline: after some calls and as many returns the machine
/// is where the instruction after the first call begins, with the stack
/// and all else as before the first call.
///
/// It holds of any calls that fit on the stack together with those
/// already outstanding.
pub proof fn law_calls_then_returns(s: Machine, calls: Seq<u16>, random: u8)
    requires
        all_calls(calls),
        calls.len() >= 1,
        s.stack.len() + calls.len() <= 16,
    ensures
        s.cycles(calls + return_words(calls.len()), random) == Ok::<Machine, Fault>(s.advance()),
    decreases calls.len(),
{
    let n = calls.len();
    let first = calls.take(1);
    let rest = calls.skip(1);
    let inner = rest + return_words(rest.len());
    let last = return_words(1);
    assert(calls + return_words(n) =~= first + (inner + last));
    assert(first.drop_last() =~= Seq::<u16>::empty());
    assert(first.last() == calls[0]);
    let entered = s.advance().called(operands_of(calls[0]).nnn as int);
    assert(s.cycles(first.drop_last(), random) == Ok::<Machine, Fault>(s));
    assert(s.cycles(first, random) == Ok::<Machine, Fault>(entered));
    lemma_cycles_joined(s, first, inner + last, random);
    lemma_cycles_joined(entered, inner, last, random);
    assert(all_calls(rest)) by {
        assert forall|k: int| 0 <= k < rest.len() implies opcode_of(#[trigger] rest[k]) == Some(
            Opcode::Call,
        ) by {
            assert(rest[k] == calls[k + 1]);
        }
    }
    let back = if rest.len() == 0 {
        entered
    } else {
        entered.advance()
    };
    if rest.len() == 0 {
        assert(inner =~= Seq::<u16>::empty());
    } else {
        law_calls_then_returns(entered, rest, random);
    }
    assert(entered.cycles(inner, random) == Ok::<Machine, Fault>(back));
    assert(last.drop_last() =~= Seq::<u16>::empty());
    assert(last.last() == 0x00EEu16);
    assert(back.cycles(last.drop_last(), random) == Ok::<Machine, Fault>(back));
    assert(back.cycles(last, random) == back.cycle(0x00EE, random));
    assert(back.stack == s.stack.push(s.pc + 2));
    assert(back.stack.drop_last() =~= s.stack);
    assert(back.cycle(0x00EE, random) == Ok::<Machine, Fault>(s.advance()));
}

/// Stack overflow: calls that fit on the stack all succeed and each
/// takes one slot; the call after the sixteenth outstanding one fails
/// with `StackOverflow`.
pub proof fn law_calls_fill_the_stack(s: Machine, calls: Seq<u16>, random: u8)
    requires
        all_calls(calls),
    ensures
        s.stack.len() + calls.len() <= 16 ==> s.cycles(calls, random) is Ok && s.cycles(
            calls,
            random,
        )->Ok_0.stack.len() == s.stack.len() + calls.len(),
        s.stack.len() <= 16 < s.stack.len() + calls.len() ==> s.cycles(calls, random) == Err::<
            Machine,
            Fault,
        >(Fault::StackOverflow),
    decreases calls.len(),
{
    if calls.len() > 0 {
        let before = calls.drop_last();
        assert(all_calls(before)) by {
            assert forall|k: int| 0 <= k < before.len() implies opcode_of(#[trigger] before[k])
                == Some(Opcode::Call) by {
                assert(before[k] == calls[k]);
            }
        }
        law_calls_fill_the_stack(s, before, random);
    }
}

} // verus!

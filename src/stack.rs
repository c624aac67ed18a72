use vstd::prelude::*;
use crate::registers::{Registers, STACK_DEPTH};

verus! {

/// The slots and the pointer of a call stack after pushing `value`.
pub open spec fn push_spec(slots: Seq<u16>, sp: int, value: u16) -> (Seq<u16>, int) {
    (slots.update(sp, value), sp + 1)
}

/// The value popped from a call stack with pointer `sp`, and the pointer after.
pub open spec fn pop_spec(slots: Seq<u16>, sp: int) -> (u16, int) {
    (slots[sp - 1], sp - 1)
}

/// The slots and the pointer after pushing `values`, first to last.
pub open spec fn push_all(slots: Seq<u16>, sp: int, values: Seq<u16>) -> (Seq<u16>, int)
    decreases values.len(),
{
    if values.len() == 0 {
        (slots, sp)
    } else {
        let before = push_all(slots, sp, values.drop_last());
        push_spec(before.0, before.1, values.last())
    }
}

/// The values popped by `k` pops from a call stack with pointer `sp`, in the
/// order they come out, and the pointer after.
pub open spec fn pop_n(slots: Seq<u16>, sp: int, k: nat) -> (Seq<u16>, int)
    decreases k,
{
    if k == 0 {
        (Seq::empty(), sp)
    } else {
        let (top, below) = pop_spec(slots, sp);
        let rest = pop_n(slots, below, (k - 1) as nat);
        (seq![top] + rest.0, rest.1)
    }
}

/// The fixed-depth array of return addresses; the pointer lives in `Registers`.
pub struct Stack {
    pub stack: [u16; STACK_DEPTH],
}

impl Stack {
    pub open spec fn view(&self) -> Seq<u16> {
        self.stack@
    }

    /// An empty call stack with every slot zero.
    pub fn new() -> (r: Self)
        ensures
            r@ == Seq::new(STACK_DEPTH as nat, |k: int| 0u16),
    {
        let r = Stack { stack: [0u16; STACK_DEPTH] };
        assert(r@ =~= Seq::new(STACK_DEPTH as nat, |k: int| 0u16));
        r
    }

    /// Stores `value` at the stack pointer, then moves the pointer up.
    pub fn push(&mut self, registers: &mut Registers, value: u16)
        requires
            old(registers).sp < STACK_DEPTH,
        ensures
            (final(self)@, final(registers).sp as int) == push_spec(
                old(self)@,
                old(registers).sp as int,
                value,
            ),
            *final(registers) == (Registers { sp: final(registers).sp, ..*old(registers) }),
    {
        let stack_pointer = registers.get_sp() as usize;
        self.stack[stack_pointer] = value;
        registers.inc_sp();
    }

    /// Moves the stack pointer down, then returns the value it points at.
    pub fn pop(&mut self, registers: &mut Registers) -> (r: u16)
        requires
            0 < old(registers).sp <= STACK_DEPTH,
        ensures
            (r, final(registers).sp as int) == pop_spec(old(self)@, old(registers).sp as int),
            *final(registers) == (Registers { sp: final(registers).sp, ..*old(registers) }),
            final(self)@ == old(self)@,
    {
        registers.dec_sp();
        self.stack[registers.get_sp() as usize]
    }
}

proof fn lemma_pop_n_ignores_above(slots: Seq<u16>, sp: int, k: nat, p: int, value: u16)
    requires
        k <= sp <= p < slots.len(),
    ensures
        pop_n(slots.update(p, value), sp, k) == pop_n(slots, sp, k),
    decreases k,
{
    if k > 0 {
        lemma_pop_n_ignores_above(slots, sp - 1, (k - 1) as nat, p, value);
        assert(slots.update(p, value)[sp - 1] == slots[sp - 1]);
    }
}

proof fn lemma_push_all_shape(slots: Seq<u16>, sp: int, values: Seq<u16>)
    requires
        0 <= sp,
        sp + values.len() <= slots.len(),
    ensures
        push_all(slots, sp, values).1 == sp + values.len(),
        push_all(slots, sp, values).0.len() == slots.len(),
    decreases values.len(),
{
    if values.len() > 0 {
        lemma_push_all_shape(slots, sp, values.drop_last());
    }
}

/// Pushing values onto the call stack and then popping as many gives them
/// back in reverse order and leaves the pointer where it started.
pub proof fn lemma_stack_balance(slots: Seq<u16>, sp: int, values: Seq<u16>)
    requires
        slots.len() == STACK_DEPTH,
        0 <= sp,
        sp + values.len() <= STACK_DEPTH,
    ensures
        push_all(slots, sp, values).1 == sp + values.len(),
        pop_n(push_all(slots, sp, values).0, sp + values.len(), values.len()) == (
        values.reverse(),
        sp,
        ),
    decreases values.len(),
{
    lemma_push_all_shape(slots, sp, values);
    if values.len() > 0 {
        let k = values.len() - 1;
        let init = values.drop_last();
        let before = push_all(slots, sp, init);
        lemma_push_all_shape(slots, sp, init);
        lemma_stack_balance(slots, sp, init);
        lemma_pop_n_ignores_above(before.0, sp + k, k as nat, sp + k, values.last());
        assert(values.reverse() =~= seq![values.last()] + init.reverse());
    }
}

} // verus!

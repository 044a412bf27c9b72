use vstd::prelude::*;

verus! {

/// Number of bubble slots rising from the air stone.
pub const MAX_BUB: usize = 232;

/// Number of surface pop slots.
pub const MAX_POP: usize = 32;

/// The slot after `cursor` in a ring of `cap` slots, wrapping to the first:
/// the slot the next bubble or pop takes, overwriting the oldest.
pub fn next_slot(cursor: usize, cap: usize) -> (r: usize)
    requires
        cursor < cap,
    ensures
        r == (cursor + 1) % (cap as int),
        r < cap,
{
    proof {
        if cursor + 1 == cap {
            vstd::arithmetic::div_mod::lemma_mod_self_0(cap as int);
        } else {
            vstd::arithmetic::div_mod::lemma_small_mod((cursor + 1) as nat, cap as nat);
        }
    }
    if cursor + 1 == cap {
        0
    } else {
        cursor + 1
    }
}

/// The slot reached from `cursor` after `k` advances in a ring of `cap` slots.
pub open spec fn advanced(cursor: int, cap: int, k: nat) -> int
    decreases k,
{
    if k == 0 {
        cursor
    } else {
        (advanced(cursor, cap, (k - 1) as nat) + 1) % cap
    }
}

proof fn lemma_advanced_is_mod(cursor: int, cap: int, k: nat)
    requires
        0 <= cursor < cap,
    ensures
        advanced(cursor, cap, k) == (cursor + k) % cap,
    decreases k,
{
    if k > 0 {
        lemma_advanced_is_mod(cursor, cap, (k - 1) as nat);
        vstd::arithmetic::div_mod::lemma_add_mod_noop(cursor + k - 1, 1, cap);
        if cap > 1 {
            vstd::arithmetic::div_mod::lemma_small_mod(1nat, cap as nat);
        } else {
            vstd::arithmetic::div_mod::lemma_mod_pos_bound(1, cap);
            vstd::arithmetic::div_mod::lemma_mod_pos_bound(cursor + k, cap);
            vstd::arithmetic::div_mod::lemma_mod_pos_bound(advanced(cursor, cap, (k - 1) as nat) + 1, cap);
        }
        vstd::arithmetic::div_mod::lemma_mod_twice(cursor + k - 1, cap);
    } else {
        vstd::arithmetic::div_mod::lemma_small_mod(cursor as nat, cap as nat);
    }
}

/// Advancing `k` times moves the cursor `k` slots round the ring; after `cap`
/// advances every slot has been taken once and the cursor is back where it
/// started.
pub proof fn lemma_advance_cycles(cursor: int, cap: int, k: nat)
    requires
        0 <= cursor < cap,
    ensures
        advanced(cursor, cap, k) == (cursor + k) % cap,
        advanced(cursor, cap, cap as nat) == cursor,
{
    lemma_advanced_is_mod(cursor, cap, k);
    lemma_advanced_is_mod(cursor, cap, cap as nat);
    vstd::arithmetic::div_mod::lemma_mod_add_multiples_vanish(cursor, cap);
    vstd::arithmetic::div_mod::lemma_small_mod(cursor as nat, cap as nat);
}

} // verus!

//! Properties of the machine that relate several instructions or cycles.
use vstd::prelude::*;

use crate::decode::{decode_spec, Instruction};
use crate::machine::{
    execute_spec, flag, run, step_spec, wrap16, Chip8View, DISPLAY_SIZE, FLAG_REGISTER,
};

verus! {

/// Drawing the same sprite at the same place twice in a row leaves the
/// screen as it was, and the second draw reports a collision exactly when
/// the first one lit some pixel. The sprite's coordinates must not sit in
/// the flag register, which the first draw overwrites.
pub proof fn law_draw_twice_restores(s: Chip8View, x: u8, y: u8, n: u8)
    requires
        s.wf(),
        x < FLAG_REGISTER,
        y < FLAG_REGISTER,
        n < 16,
    ensures
        execute_spec(s, Instruction::Drw(x, y, n), 0) is Ok,
        execute_spec(execute_spec(s, Instruction::Drw(x, y, n), 0)->Ok_0, Instruction::Drw(x, y, n), 0) is Ok,
        ({
            let t = execute_spec(s, Instruction::Drw(x, y, n), 0)->Ok_0;
            let u = execute_spec(t, Instruction::Drw(x, y, n), 0)->Ok_0;
            &&& u.display == s.display
            &&& u.reg(FLAG_REGISTER as u8) == flag(
                exists|p: int| 0 <= p < DISPLAY_SIZE && !s.display[p] && #[trigger] s.sprite_bit(x, y, n, p),
            )
        }),
{
    let t = execute_spec(s, Instruction::Drw(x, y, n), 0)->Ok_0;
    let u = execute_spec(t, Instruction::Drw(x, y, n), 0)->Ok_0;
    assert(t.reg(x) == s.reg(x));
    assert(t.reg(y) == s.reg(y));
    assert forall|p: int| 0 <= p < DISPLAY_SIZE implies #[trigger] t.sprite_bit(x, y, n, p)
        == s.sprite_bit(x, y, n, p) by {}
    assert(u.display =~= s.display);
    if t.collides(x, y, n) {
        let p = choose|p: int| 0 <= p < DISPLAY_SIZE && t.display[p] && #[trigger] t.sprite_bit(x, y, n, p);
        assert(!s.display[p] && s.sprite_bit(x, y, n, p));
    }
    if exists|p: int| 0 <= p < DISPLAY_SIZE && !s.display[p] && #[trigger] s.sprite_bit(x, y, n, p) {
        let p = choose|p: int| 0 <= p < DISPLAY_SIZE && !s.display[p] && #[trigger] s.sprite_bit(x, y, n, p);
        assert(t.display[p] && t.sprite_bit(x, y, n, p));
    }
}

/// `2nnn` is a call to `nnn` and `00EE` a return. A call to `a` from
/// `P` pushes `P` and jumps to `a`; a return from any later state whose
/// stack is the one the call left goes back to `P + 2` and pops it.
pub proof fn law_call_then_return(s: Chip8View, a: u16, u: Chip8View)
    requires
        s.wf(),
        s.sp < 15,
        a < 0x1000,
    ensures
        decode_spec((0x2000 + a) as u16) == Ok::<Instruction, crate::error::Chip8Error>(Instruction::Call(a)),
        decode_spec(0x00EE) == Ok::<Instruction, crate::error::Chip8Error>(Instruction::Ret),
        execute_spec(s, Instruction::Call(a), 0) is Ok,
        ({
            let t = execute_spec(s, Instruction::Call(a), 0)->Ok_0;
            &&& t.pc == a
            &&& t.sp == s.sp + 1
            &&& t.stack[t.sp as int] == s.pc
            &&& (u.sp == t.sp && u.stack == t.stack) ==> execute_spec(u, Instruction::Ret, 0)
                == Ok::<Chip8View, crate::error::Chip8Error>(
                Chip8View { pc: wrap16(s.pc + 2), sp: s.sp, ..u },
            )
        }),
{
}

/// The `j`-th instruction word from the program counter on.
pub open spec fn nth_word(s: Chip8View, j: int) -> u16 {
    s.word_at(s.pc + 2 * j)
}

/// Whether `w` is the ignored native call `0nnn`.
pub open spec fn is_noop(w: u16) -> bool {
    decode_spec(w) matches Ok(Instruction::Sys(_))
}

proof fn lemma_mem_wrap(x: int, y: int)
    requires
        0 <= x,
        0 <= y,
    ensures
        (wrap16(x) + y) % 4096 == (x + y) % 4096,
{
    vstd::arithmetic::div_mod::lemma_fundamental_div_mod(x, 0x10000);
    vstd::arithmetic::div_mod::lemma_mod_bound(x, 0x10000);
    let q = x / 0x10000;
    let r = x % 0x10000;
    assert(x + y == 4096 * (16 * q) + (r + y)) by (nonlinear_arith)
        requires
            x == 0x10000 * q + r,
    ;
    vstd::arithmetic::div_mod::lemma_mod_multiples_vanish(16 * q, r + y, 4096);
}

/// The delay timer runs down by one per cycle and then rests at zero: over
/// `k` cycles of ignored instructions it ends at `max(d - k, 0)`.
pub proof fn law_delay_timer_decays(s: Chip8View, k: nat, rnd: u8)
    requires
        s.wf(),
        forall|j: int| 0 <= j < k ==> is_noop(#[trigger] nth_word(s, j)),
    ensures
        run(s, k, rnd) is Ok,
        run(s, k, rnd)->Ok_0.dreg == if s.dreg >= k {
            s.dreg - k
        } else {
            0
        },
    decreases k,
{
    if k > 0 {
        assert(is_noop(nth_word(s, 0)));
        let t = step_spec(s, rnd)->Ok_0;
        assert(t == s.timers_ticked().advanced(2));
        assert forall|j: int| 0 <= j < k - 1 implies is_noop(#[trigger] nth_word(t, j)) by {
            assert(is_noop(nth_word(s, j + 1)));
            lemma_mem_wrap(s.pc + 2, 2 * j);
            lemma_mem_wrap(s.pc + 2, 2 * j + 1);
            assert(nth_word(t, j) == nth_word(s, j + 1));
        }
        law_delay_timer_decays(t, (k - 1) as nat, rnd);
    }
}

/// Waiting for a key with `Fx0A`: with no key down a cycle changes nothing
/// but the timers, so the next cycle meets the same instruction and waits
/// again; with some key down it puts the lowest such key in `Vx` and moves
/// on by one instruction.
pub proof fn law_wait_for_key(s: Chip8View, rnd: u8)
    requires
        s.wf(),
        decode_spec(s.fetch()) matches Ok(Instruction::Ldk(_)),
    ensures
        step_spec(s, rnd) is Ok,
        ({
            let t = step_spec(s, rnd)->Ok_0;
            let x = decode_spec(s.fetch())->Ok_0->Ldk_0;
            &&& !s.any_key() ==> t == s.timers_ticked() && t.fetch() == s.fetch()
            &&& s.any_key() ==> {
                &&& 0 <= s.first_key() < 16
                &&& s.kb[s.first_key()]
                &&& forall|m: int| 0 <= m < s.first_key() ==> !#[trigger] s.kb[m]
                &&& t == s.timers_ticked().with_reg(x as int, s.first_key() as u8).advanced(2)
            }
        }),
{
    if s.any_key() {
        let k = choose|k: int| 0 <= k < 16 && #[trigger] s.kb[k];
        lemma_lowest_key(s, k);
    }
}

proof fn lemma_lowest_key(s: Chip8View, k: int)
    requires
        s.wf(),
        0 <= k < 16,
        s.kb[k],
    ensures
        0 <= s.first_key() < 16,
        s.kb[s.first_key()],
        forall|m: int| 0 <= m < s.first_key() ==> !#[trigger] s.kb[m],
    decreases k,
{
    if exists|m: int| 0 <= m < k && #[trigger] s.kb[m] {
        let m = choose|m: int| 0 <= m < k && #[trigger] s.kb[m];
        lemma_lowest_key(s, m);
    } else {
        assert(0 <= k < 16 && s.kb[k] && forall|m: int| 0 <= m < k ==> !#[trigger] s.kb[m]);
    }
}

} // verus!

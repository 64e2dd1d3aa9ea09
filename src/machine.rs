//! The virtual machine: its state, the meaning of each instruction over an
//! abstract view of that state, and the executable machine proved against it.
use vstd::prelude::*;

use rand::rngs::ThreadRng;

use crate::decode::{decode, decode_spec, get_nibble, lemma_decode_wf, Instruction};
use crate::error::Chip8Error;
use crate::font::{load_text, text_image, MEMORY_SIZE};
use crate::random::{new_rng, random_byte};

verus! {

/// Width of the screen in pixels.
pub const DISPLAY_WIDTH: u8 = 64;

/// Height of the screen in pixels.
pub const DISPLAY_HEIGHT: u8 = 32;

/// Number of pixels on the screen.
pub const DISPLAY_SIZE: usize = 2048;

/// Where programs start on the usual machines.
pub const PROGRAM_START_LOCATION: u16 = 0x200;

/// Where programs start on the ETI 660.
pub const ETI_PROGRAM_START_LOCATION: u16 = 0x600;

/// Where the font table lives in memory.
pub const TEXT_MEMORY_START: usize = 0x000;

/// The deepest the call stack can go: the stack pointer never exceeds it.
pub const STACK_LIMIT: u8 = 15;

/// The flag register, written by arithmetic, shifts and drawing.
pub const FLAG_REGISTER: usize = 0xF;

/// The machine a program was written for; it decides where the program is
/// loaded and where execution starts.
#[derive(Debug, Clone, Copy, PartialEq, Eq, Structural)]
pub enum Computer {
    /// The usual layout: programs start at 0x200.
    Normal,
    /// The ETI 660 layout: programs start at 0x600.
    Eti,
}

impl Computer {
    pub open spec fn start_spec(self) -> u16 {
        match self {
            Computer::Normal => PROGRAM_START_LOCATION,
            Computer::Eti => ETI_PROGRAM_START_LOCATION,
        }
    }

    /// The address where programs for this machine start.
    pub fn program_start(&self) -> (r: u16)
        ensures
            r == self.start_spec(),
    {
        match self {
            Computer::Normal => PROGRAM_START_LOCATION,
            Computer::Eti => ETI_PROGRAM_START_LOCATION,
        }
    }
}

/// `v` reduced to 16 bits.
pub open spec fn wrap16(v: int) -> u16 {
    (v % 0x10000) as u16
}

/// `v` reduced to 8 bits.
pub open spec fn wrap8(v: int) -> u8 {
    (v % 0x100) as u8
}

/// `1` for true, `0` for false.
pub open spec fn flag(b: bool) -> u8 {
    if b {
        1
    } else {
        0
    }
}

/// Bit `j` of `b`, counted from the most significant bit.
pub open spec fn bit_at(b: u8, j: int) -> bool {
    (b >> ((7 - j) as u8)) & 1u8 == 1u8
}

/// The sprite row that pixel `p` falls in when the sprite's top is at row `vy`,
/// counting around the screen's bottom edge.
pub open spec fn sprite_row(vy: u8, p: int) -> int {
    (p / 64 + 32 - vy as int % 32) % 32
}

/// The sprite column that pixel `p` falls in when the sprite's left edge is at
/// column `vx`, counting around the screen's right edge.
pub open spec fn sprite_col(vx: u8, p: int) -> int {
    (p % 64 + 64 - vx as int % 64) % 64
}

/// The pixel at row `r` and column `c`, row-major.
pub open spec fn pixel_index(r: int, c: int) -> int {
    r * 64 + c
}

/// An abstract view of the machine's state.
pub struct Chip8View {
    /// Memory, 4096 bytes.
    pub ram: Seq<u8>,
    /// The sixteen registers `V0..VF`.
    pub regs: Seq<u8>,
    /// The address register `I`.
    pub ireg: u16,
    /// The delay timer.
    pub dreg: u8,
    /// The sound timer.
    pub sreg: u8,
    /// The program counter.
    pub pc: u16,
    /// The stack pointer: the slot of the latest return address, 0 when empty.
    pub sp: u8,
    /// The sixteen return-address slots; slot 0 is never used.
    pub stack: Seq<u16>,
    /// Which of the sixteen keys are down.
    pub kb: Seq<bool>,
    /// The 64×32 screen, row-major; `true` is lit.
    pub display: Seq<bool>,
    /// Where programs are loaded.
    pub start: u16,
}

impl Chip8View {
    /// Every part has its size, and the stack pointer is within its limit.
    pub open spec fn wf(self) -> bool {
        &&& self.ram.len() == MEMORY_SIZE
        &&& self.regs.len() == 16
        &&& self.stack.len() == 16
        &&& self.kb.len() == 16
        &&& self.display.len() == DISPLAY_SIZE
        &&& self.sp <= STACK_LIMIT
    }

    /// The state of a freshly built machine for `comp`.
    pub open spec fn initial(comp: Computer) -> Chip8View {
        Chip8View {
            ram: text_image(TEXT_MEMORY_START as int),
            regs: Seq::new(16, |i: int| 0u8),
            ireg: 0,
            dreg: 0,
            sreg: 0,
            pc: comp.start_spec(),
            sp: 0,
            stack: Seq::new(16, |i: int| 0u16),
            kb: Seq::new(16, |i: int| false),
            display: Seq::new(DISPLAY_SIZE as nat, |i: int| false),
            start: comp.start_spec(),
        }
    }

    /// Memory with `rom` copied in from the program start; what would fall
    /// past the end of memory is dropped.
    pub open spec fn loaded(self, rom: Seq<u8>) -> Chip8View {
        Chip8View {
            ram: Seq::new(
                MEMORY_SIZE as nat,
                |a: int|
                    if self.start <= a < self.start + rom.len() {
                        rom[a - self.start]
                    } else {
                        self.ram[a]
                    },
            ),
            ..self
        }
    }

    /// Register `x`.
    pub open spec fn reg(self, x: u8) -> u8 {
        self.regs[x as int]
    }

    /// The byte at `addr`, addresses taken modulo 4096.
    pub open spec fn mem(self, addr: int) -> u8 {
        self.ram[addr % 4096]
    }

    /// The word at `addr`: the byte there is the high byte.
    pub open spec fn word_at(self, addr: int) -> u16 {
        (self.mem(addr) as int * 256 + self.mem(addr + 1)) as u16
    }

    /// The word at the program counter.
    pub open spec fn fetch(self) -> u16 {
        self.word_at(self.pc as int)
    }

    /// Register `x` set to `v`.
    pub open spec fn with_reg(self, x: int, v: u8) -> Chip8View {
        Chip8View { regs: self.regs.update(x, v), ..self }
    }

    /// The flag register set to `f`, then register `x` to `v` (so for `x`
    /// the flag register itself, `v` is what remains).
    pub open spec fn with_flag_reg(self, f: bool, x: u8, v: u8) -> Chip8View {
        self.with_reg(FLAG_REGISTER as int, flag(f)).with_reg(x as int, v)
    }

    /// The program counter moved on by `k` bytes.
    pub open spec fn advanced(self, k: int) -> Chip8View {
        Chip8View { pc: wrap16(self.pc + k), ..self }
    }

    /// The program counter moved past the next instruction when `c` holds,
    /// and onto it otherwise.
    pub open spec fn skip_if(self, c: bool) -> Chip8View {
        self.advanced(if c { 4 } else { 2 })
    }

    /// Each timer that is above zero, one lower.
    pub open spec fn timers_ticked(self) -> Chip8View {
        Chip8View {
            dreg: if self.dreg > 0 { (self.dreg - 1) as u8 } else { 0 },
            sreg: if self.sreg > 0 { (self.sreg - 1) as u8 } else { 0 },
            ..self
        }
    }

    /// Whether the key named by the value `v` is down; the key is the low
    /// nibble of `v`.
    pub open spec fn key_down(self, v: u8) -> bool {
        self.kb[v as int % 16]
    }

    /// Whether any key is down.
    pub open spec fn any_key(self) -> bool {
        exists|k: int| 0 <= k < 16 && #[trigger] self.kb[k]
    }

    /// The lowest key that is down.
    pub open spec fn first_key(self) -> int {
        choose|k: int| 0 <= k < 16 && self.kb[k] && forall|m: int| 0 <= m < k ==> !#[trigger] self.kb[m]
    }

    /// Whether the `n`-row sprite at `I`, drawn with its corner at
    /// `(Vx, Vy)`, has a set bit over pixel `p`.
    pub open spec fn sprite_bit(self, x: u8, y: u8, n: u8, p: int) -> bool {
        let i = sprite_row(self.reg(y), p);
        let j = sprite_col(self.reg(x), p);
        i < n && j < 8 && bit_at(self.mem(self.ireg + i), j)
    }

    /// The screen after that sprite is XORed onto it.
    pub open spec fn drawn(self, x: u8, y: u8, n: u8) -> Seq<bool> {
        Seq::new(DISPLAY_SIZE as nat, |p: int| self.display[p] != self.sprite_bit(x, y, n, p))
    }

    /// Whether drawing that sprite turns some lit pixel off.
    pub open spec fn collides(self, x: u8, y: u8, n: u8) -> bool {
        exists|p: int| 0 <= p < DISPLAY_SIZE && self.display[p] && #[trigger] self.sprite_bit(x, y, n, p)
    }

    /// Memory with the hundreds, tens and ones digit of `Vx` at `I`, `I+1`, `I+2`.
    pub open spec fn bcd_stored(self, x: u8) -> Seq<u8> {
        let v = self.reg(x);
        self.ram.update((self.ireg as int) % 4096, v / 100).update(
            (self.ireg + 1) % 4096,
            (v / 10) % 10,
        ).update((self.ireg + 2) % 4096, v % 10)
    }

    /// Memory with `V0..=Vx` written from `I` on.
    pub open spec fn regs_stored(self, x: u8) -> Seq<u8> {
        Seq::new(
            MEMORY_SIZE as nat,
            |a: int|
                {
                    let k = (a + 4096 - self.ireg as int % 4096) % 4096;
                    if k <= x {
                        self.regs[k]
                    } else {
                        self.ram[a]
                    }
                },
        )
    }

    /// Registers with `V0..=Vx` read from memory from `I` on.
    pub open spec fn regs_loaded(self, x: u8) -> Seq<u8> {
        Seq::new(16, |k: int| if k <= x { self.mem(self.ireg + k) } else { self.regs[k] })
    }
}

/// Counting `i` on from `v` around a circle of `m` places lands on `q`
/// exactly when `q` is `i` places on from `v`.
proof fn lemma_wrap_offset(q: int, v: int, i: int, m: int)
    requires
        m == 32 || m == 64,
        0 <= q < m,
        0 <= v,
        0 <= i < m,
    ensures
        ((q + m - v % m) % m == i) == (q == (v + i) % m),
{
    vstd::arithmetic::div_mod::lemma_fundamental_div_mod(v, m);
    vstd::arithmetic::div_mod::lemma_fundamental_div_mod(v + i, m);
    vstd::arithmetic::div_mod::lemma_fundamental_div_mod(q + m - v % m, m);
    vstd::arithmetic::div_mod::lemma_mod_bound(v, m);
    vstd::arithmetic::div_mod::lemma_mod_bound(v + i, m);
    vstd::arithmetic::div_mod::lemma_mod_bound(q + m - v % m, m);
    let a = v / m;
    let b = (v + i) / m;
    let c = (q + m - v % m) / m;
    assert(0 <= c <= 1) by (nonlinear_arith)
        requires
            q + m - v % m == m * c + (q + m - v % m) % m,
            0 <= (q + m - v % m) % m < m,
            0 <= q < m,
            0 <= v % m < m,
    ;
    if (q + m - v % m) % m == i {
        assert(q - (v + i) % m == m * (c - 1 - a + b)) by (nonlinear_arith)
            requires
                v == m * a + v % m,
                v + i == m * b + (v + i) % m,
                q + m - v % m == m * c + i,
        ;
        assert(-m < q - (v + i) % m < m);
        assert(q == (v + i) % m) by (nonlinear_arith)
            requires
                q - (v + i) % m == m * (c - 1 - a + b),
                -m < q - (v + i) % m < m,
                m > 0,
        ;
    }
    if q == (v + i) % m {
        let t = q + m - v % m;
        assert(t == m * (a - b + 1) + i) by (nonlinear_arith)
            requires
                v == m * a + v % m,
                v + i == m * b + q,
                t == q + m - v % m,
        ;
        vstd::arithmetic::div_mod::lemma_mod_multiples_vanish(a - b + 1, i, m);
        vstd::arithmetic::div_mod::lemma_small_mod(i as nat, m as nat);
    }
}

/// Sprite row `i`, column `j`, drawn at `(vx, vy)`, lands on pixel
/// `((vy + i) % 32, (vx + j) % 64)`, and that is the only pixel whose sprite
/// coordinates are `(i, j)`.
proof fn lemma_sprite_pixel(vx: u8, vy: u8, i: int, j: int)
    requires
        0 <= i < 32,
        0 <= j < 64,
    ensures
        ({
            let pos = pixel_index((vy + i) % 32, (vx + j) % 64);
            &&& 0 <= pos < DISPLAY_SIZE
            &&& sprite_row(vy, pos) == i
            &&& sprite_col(vx, pos) == j
            &&& forall|p: int|
                0 <= p < DISPLAY_SIZE && #[trigger] sprite_row(vy, p) == i && #[trigger] sprite_col(vx, p)
                    == j ==> p == pos
        }),
{
    let r = (vy + i) % 32;
    let c = (vx + j) % 64;
    let pos = pixel_index(r, c);
    vstd::arithmetic::div_mod::lemma_fundamental_div_mod_converse(pos, 64, r, c);
    lemma_wrap_offset(r, vy as int, i, 32);
    lemma_wrap_offset(c, vx as int, j, 64);
    assert forall|p: int|
        0 <= p < DISPLAY_SIZE && #[trigger] sprite_row(vy, p) == i && #[trigger] sprite_col(vx, p)
            == j implies p == pos by {
        vstd::arithmetic::div_mod::lemma_fundamental_div_mod(p, 64);
        vstd::arithmetic::div_mod::lemma_div_pos_is_pos(p, 64);
        vstd::arithmetic::div_mod::lemma_div_is_ordered(p, 2047, 64);
        vstd::arithmetic::div_mod::lemma_mod_bound(p, 64);
        lemma_wrap_offset(p / 64, vy as int, i, 32);
        lemma_wrap_offset(p % 64, vx as int, j, 64);
    }
}

/// Whether the sprite bit over pixel `p` comes before row `i`, column `j`
/// in drawing order.
spec fn drawn_before(vx: u8, vy: u8, p: int, i: int, j: int) -> bool {
    sprite_row(vy, p) < i || (sprite_row(vy, p) == i && sprite_col(vx, p) < j)
}

/// What executing `ins` does to the state `s`, given the random byte `rnd`
/// (read only by `Cxkk`). Every instruction moves the program counter on by
/// itself; a call with a full stack and a return with an empty one fail.
pub open spec fn execute_spec(s: Chip8View, ins: Instruction, rnd: u8) -> Result<Chip8View, Chip8Error> {
    match ins {
        Instruction::Sys(_) => Ok(s.advanced(2)),
        Instruction::Cls => Ok(
            Chip8View { display: Seq::new(DISPLAY_SIZE as nat, |p: int| false), ..s }.advanced(2),
        ),
        Instruction::Ret => if s.sp == 0 {
            Err(Chip8Error::StackUnderflow)
        } else {
            Ok(Chip8View { pc: wrap16(s.stack[s.sp as int] + 2), sp: (s.sp - 1) as u8, ..s })
        },
        Instruction::Jp(a) => Ok(Chip8View { pc: a, ..s }),
        Instruction::Call(a) => if s.sp >= STACK_LIMIT {
            Err(Chip8Error::StackOverflow)
        } else {
            Ok(
                Chip8View {
                    sp: (s.sp + 1) as u8,
                    stack: s.stack.update(s.sp + 1, s.pc),
                    pc: a,
                    ..s
                },
            )
        },
        Instruction::Se(x, kk) => Ok(s.skip_if(s.reg(x) == kk)),
        Instruction::Sne(x, kk) => Ok(s.skip_if(s.reg(x) != kk)),
        Instruction::Ser(x, y) => Ok(s.skip_if(s.reg(x) == s.reg(y))),
        Instruction::Ld(x, kk) => Ok(s.with_reg(x as int, kk).advanced(2)),
        Instruction::Add(x, kk) => Ok(s.with_reg(x as int, wrap8(s.reg(x) + kk)).advanced(2)),
        Instruction::Ldr(x, y) => Ok(s.with_reg(x as int, s.reg(y)).advanced(2)),
        Instruction::Or(x, y) => Ok(s.with_reg(x as int, s.reg(x) | s.reg(y)).advanced(2)),
        Instruction::And(x, y) => Ok(s.with_reg(x as int, s.reg(x) & s.reg(y)).advanced(2)),
        Instruction::Xor(x, y) => Ok(s.with_reg(x as int, s.reg(x) ^ s.reg(y)).advanced(2)),
        Instruction::Addr(x, y) => Ok(
            s.with_flag_reg(s.reg(x) + s.reg(y) > 255, x, wrap8(s.reg(x) + s.reg(y))).advanced(2),
        ),
        Instruction::Sub(x, y) => Ok(
            s.with_flag_reg(s.reg(x) > s.reg(y), x, wrap8(s.reg(x) - s.reg(y) + 256)).advanced(2),
        ),
        Instruction::Shr(x, _) => Ok(
            s.with_flag_reg(s.reg(x) % 2 == 1, x, s.reg(x) / 2).advanced(2),
        ),
        Instruction::Subn(x, y) => Ok(
            s.with_flag_reg(s.reg(y) > s.reg(x), x, wrap8(s.reg(y) - s.reg(x) + 256)).advanced(2),
        ),
        Instruction::Shl(x, _) => Ok(
            s.with_flag_reg(s.reg(x) >= 128, x, wrap8(s.reg(x) * 2)).advanced(2),
        ),
        Instruction::Sner(x, y) => Ok(s.skip_if(s.reg(x) != s.reg(y))),
        Instruction::Ldi(a) => Ok(Chip8View { ireg: a, ..s }.advanced(2)),
        Instruction::Jpo(a) => Ok(Chip8View { pc: wrap16(a + s.reg(0)), ..s }),
        Instruction::Rnd(x, kk) => Ok(s.with_reg(x as int, rnd & kk).advanced(2)),
        Instruction::Drw(x, y, n) => Ok(
            Chip8View { display: s.drawn(x, y, n), ..s }.with_reg(
                FLAG_REGISTER as int,
                flag(s.collides(x, y, n)),
            ).advanced(2),
        ),
        Instruction::Skpk(x) => Ok(s.skip_if(s.key_down(s.reg(x)))),
        Instruction::Sknpk(x) => Ok(s.skip_if(!s.key_down(s.reg(x)))),
        Instruction::Ldt(x) => Ok(s.with_reg(x as int, s.dreg).advanced(2)),
        Instruction::Ldk(x) => if s.any_key() {
            Ok(s.with_reg(x as int, s.first_key() as u8).advanced(2))
        } else {
            Ok(s)
        },
        Instruction::Ldd(x) => Ok(Chip8View { dreg: s.reg(x), ..s }.advanced(2)),
        Instruction::Lds(x) => Ok(Chip8View { sreg: s.reg(x), ..s }.advanced(2)),
        Instruction::Addi(x) => Ok(Chip8View { ireg: wrap16(s.ireg + s.reg(x)), ..s }.advanced(2)),
        Instruction::Ldf(x) => Ok(
            Chip8View { ireg: (TEXT_MEMORY_START + s.reg(x) * 5) as u16, ..s }.advanced(2),
        ),
        Instruction::Ldb(x) => Ok(Chip8View { ram: s.bcd_stored(x), ..s }.advanced(2)),
        Instruction::Ldix(x) => Ok(Chip8View { ram: s.regs_stored(x), ..s }.advanced(2)),
        Instruction::Ldrx(x) => Ok(Chip8View { regs: s.regs_loaded(x), ..s }.advanced(2)),
    }
}

/// One cycle: fetch the word at the program counter, tick both timers,
/// then execute what the word decodes to. A word that decodes to nothing,
/// or an instruction that fails, fails the cycle.
pub open spec fn step_spec(s: Chip8View, rnd: u8) -> Result<Chip8View, Chip8Error> {
    match decode_spec(s.fetch()) {
        Ok(ins) => execute_spec(s.timers_ticked(), ins, rnd),
        Err(e) => Err(e),
    }
}

/// Executing `ins` in `s` succeeds and leads to `t`.
pub open spec fn executes_to(s: Chip8View, ins: Instruction, rnd: u8, t: Chip8View) -> bool {
    execute_spec(s, ins, rnd) == Ok::<Chip8View, Chip8Error>(t)
}

/// Executing a well-formed instruction in a well-formed state leads to a
/// well-formed state.
pub proof fn lemma_execute_wf(s: Chip8View, ins: Instruction, rnd: u8)
    requires
        s.wf(),
        ins.wf(),
    ensures
        execute_spec(s, ins, rnd) is Ok ==> execute_spec(s, ins, rnd)->Ok_0.wf(),
{
}

/// One cycle from a well-formed state leads to a well-formed state.
pub proof fn lemma_step_wf(s: Chip8View, rnd: u8)
    requires
        s.wf(),
    ensures
        step_spec(s, rnd) is Ok ==> step_spec(s, rnd)->Ok_0.wf(),
{
    if let Ok(ins) = decode_spec(s.fetch()) {
        lemma_decode_wf(s.fetch());
        lemma_execute_wf(s.timers_ticked(), ins, rnd);
    }
}

/// The outcome of `k` cycles from `s`, each with `rnd` as its random byte;
/// the first failure ends the run.
pub open spec fn run(s: Chip8View, k: nat, rnd: u8) -> Result<Chip8View, Chip8Error>
    decreases k,
{
    if k == 0 {
        Ok(s)
    } else {
        match step_spec(s, rnd) {
            Ok(t) => run(t, (k - 1) as nat, rnd),
            Err(e) => Err(e),
        }
    }
}

/// `after` and `r` are what `expected` describes: on success the new state,
/// on failure the error with the state left as `before`.
pub open spec fn outcome(
    before: Chip8View,
    after: Chip8View,
    r: Result<(), Chip8Error>,
    expected: Result<Chip8View, Chip8Error>,
) -> bool {
    match expected {
        Ok(t) => r is Ok && after == t,
        Err(e) => r == Err::<(), Chip8Error>(e) && after == before,
    }
}


/// A CHIP-8 machine.
pub struct Chip8 {
    ram: [u8; 4096],
    regs: [u8; 16],
    ireg: u16,
    dreg: u8,
    sreg: u8,
    pc: u16,
    sp: u8,
    stack: [u16; 16],
    kb: [bool; 16],
    display: [bool; 2048],
    start: u16,
    rng: ThreadRng,
}

impl View for Chip8 {
    type V = Chip8View;

    closed spec fn view(&self) -> Chip8View {
        Chip8View {
            ram: self.ram@,
            regs: self.regs@,
            ireg: self.ireg,
            dreg: self.dreg,
            sreg: self.sreg,
            pc: self.pc,
            sp: self.sp,
            stack: self.stack@,
            kb: self.kb@,
            display: self.display@,
            start: self.start,
        }
    }
}

impl Chip8 {
    /// The machine's state is well formed.
    pub open spec fn wf(&self) -> bool {
        self@.wf()
    }

    /// A machine for `comp`: the font in memory, everything else zeroed,
    /// and the program counter at the program start.
    pub fn new(comp: Computer) -> (r: Chip8)
        ensures
            r@ == Chip8View::initial(comp),
            r.wf(),
    {
        let r = Chip8 {
            ram: load_text(TEXT_MEMORY_START),
            regs: [0u8; 16],
            ireg: 0,
            dreg: 0,
            sreg: 0,
            pc: comp.program_start(),
            sp: 0,
            stack: [0u16; 16],
            kb: [false; 16],
            display: [false; 2048],
            start: comp.program_start(),
            rng: new_rng(),
        };
        assert(r@.regs =~= Chip8View::initial(comp).regs);
        assert(r@.stack =~= Chip8View::initial(comp).stack);
        assert(r@.kb =~= Chip8View::initial(comp).kb);
        assert(r@.display =~= Chip8View::initial(comp).display);
        r
    }

    /// A machine for `comp` with `rom` loaded at its program start.
    pub fn from_rom(comp: Computer, rom: &[u8]) -> (r: Chip8)
        ensures
            r@ == Chip8View::initial(comp).loaded(rom@),
            r.wf(),
    {
        let mut chip8 = Chip8::new(comp);
        chip8.load(rom);
        chip8
    }

    /// Copies `rom` into memory from the program start, dropping whatever
    /// would fall past the end of memory.
    pub fn load(&mut self, rom: &[u8])
        requires
            old(self).wf(),
        ensures
            final(self)@ == old(self)@.loaded(rom@),
            final(self).wf(),
    {
        let ghost s0 = self@;
        let start = self.start as usize;
        let mut k: usize = 0;
        while k < rom.len() && start + k < MEMORY_SIZE
            invariant
                s0.wf(),
                start == s0.start,
                k <= rom.len(),
                k > 0 ==> start + k <= MEMORY_SIZE,
                self@ == (Chip8View { ram: self@.ram, ..s0 }),
                self@.ram.len() == MEMORY_SIZE,
                forall|a: int|
                    0 <= a < MEMORY_SIZE ==> #[trigger] self@.ram[a] == if start <= a < start + k {
                        rom@[a - start]
                    } else {
                        s0.ram[a]
                    },
            decreases rom.len() - k,
        {
            self.ram[start + k] = rom[k];
            k = k + 1;
        }
        assert(self@.ram =~= s0.loaded(rom@).ram);
    }

    /// The program counter.
    pub fn pc(&self) -> (r: u16)
        ensures
            r == self@.pc,
    {
        self.pc
    }

    /// Register `x`.
    pub fn register(&self, x: u8) -> (r: u8)
        requires
            x < 16,
        ensures
            r == self@.reg(x),
    {
        self.regs[x as usize]
    }

    /// The address register `I`.
    pub fn i_register(&self) -> (r: u16)
        ensures
            r == self@.ireg,
    {
        self.ireg
    }

    /// The delay timer.
    pub fn delay_timer(&self) -> (r: u8)
        ensures
            r == self@.dreg,
    {
        self.dreg
    }

    /// The sound timer: the sound plays while it is above zero.
    pub fn sound_timer(&self) -> (r: u8)
        ensures
            r == self@.sreg,
    {
        self.sreg
    }

    /// The stack pointer.
    pub fn stack_pointer(&self) -> (r: u8)
        ensures
            r == self@.sp,
    {
        self.sp
    }

    /// The byte at `addr`, taken modulo 4096.
    pub fn memory(&self, addr: u16) -> (r: u8)
        ensures
            r == self@.mem(addr as int),
    {
        self.ram[addr as usize % MEMORY_SIZE]
    }

    /// Whether the pixel at column `x`, row `y` is lit.
    pub fn pixel(&self, x: u8, y: u8) -> (r: bool)
        requires
            x < DISPLAY_WIDTH,
            y < DISPLAY_HEIGHT,
        ensures
            r == self@.display[pixel_index(y as int, x as int)],
    {
        let row = y as usize;
        let col = x as usize;
        assert(row < 32 && col < 64);
        self.display[row * 64 + col]
    }

    /// Replaces the state of the keypad: `keys[k]` tells whether key `k` is down.
    pub fn set_keys(&mut self, keys: [bool; 16])
        ensures
            final(self)@ == (Chip8View { kb: keys@, ..old(self)@ }),
    {
        self.kb = keys;
    }

    /// Presses (`down`) or releases key `k`.
    pub fn set_key(&mut self, k: u8, down: bool)
        requires
            k < 16,
        ensures
            final(self)@ == (Chip8View { kb: old(self)@.kb.update(k as int, down), ..old(self)@ }),
    {
        self.kb[k as usize] = down;
    }
}

impl Chip8 {
    /// The word at the program counter.
    fn fetch(&self) -> (w: u16)
        requires
            self.wf(),
        ensures
            w == self@.fetch(),
    {
        let pc = self.pc as usize;
        let hi = self.ram[pc % MEMORY_SIZE] as u16;
        let lo = self.ram[(pc + 1) % MEMORY_SIZE] as u16;
        assert(hi < 256 && lo < 256 ==> (hi << 8u16) | lo == hi * 256 + lo) by (bit_vector);
        (hi << 8u16) | lo
    }

    /// Ticks both timers down by one, each only while above zero.
    fn tick_timers(&mut self)
        ensures
            final(self)@ == old(self)@.timers_ticked(),
    {
        if self.dreg > 0 {
            self.dreg = self.dreg - 1;
        }
        if self.sreg > 0 {
            self.sreg = self.sreg - 1;
        }
    }

    /// Executes `ins`, with `rnd` as the random byte for `Cxkk`. On failure
    /// the machine is left as it was.
    pub fn execute(&mut self, ins: Instruction, rnd: u8) -> (r: Result<(), Chip8Error>)
        requires
            old(self).wf(),
            ins.wf(),
        ensures
            outcome(old(self)@, final(self)@, r, execute_spec(old(self)@, ins, rnd)),
            final(self).wf(),
    {
        proof {
            lemma_execute_wf(self@, ins, rnd);
        }
        match ins {
            Instruction::Sys(a) => self.SYS(a),
            Instruction::Cls => self.CLS(),
            Instruction::Ret => return self.RET(),
            Instruction::Jp(a) => self.JP(a),
            Instruction::Call(a) => return self.CALL(a),
            Instruction::Se(x, kk) => self.SE(x, kk),
            Instruction::Sne(x, kk) => self.SNE(x, kk),
            Instruction::Ser(x, y) => self.SER(x, y),
            Instruction::Ld(x, kk) => self.LD(x, kk),
            Instruction::Add(x, kk) => self.ADD(x, kk),
            Instruction::Ldr(x, y) => self.LDR(x, y),
            Instruction::Or(x, y) => self.OR(x, y),
            Instruction::And(x, y) => self.AND(x, y),
            Instruction::Xor(x, y) => self.XOR(x, y),
            Instruction::Addr(x, y) => self.ADDR(x, y),
            Instruction::Sub(x, y) => self.SUB(x, y),
            Instruction::Shr(x, y) => self.SHR(x, y),
            Instruction::Subn(x, y) => self.SUBN(x, y),
            Instruction::Shl(x, y) => self.SHL(x, y),
            Instruction::Sner(x, y) => self.SNER(x, y),
            Instruction::Ldi(a) => self.LDI(a),
            Instruction::Jpo(a) => self.JPO(a),
            Instruction::Rnd(x, kk) => self.RND(x, kk, rnd),
            Instruction::Drw(x, y, n) => self.DRW(x, y, n),
            Instruction::Skpk(x) => self.SKPK(x),
            Instruction::Sknpk(x) => self.SKNPK(x),
            Instruction::Ldt(x) => self.LDT(x),
            Instruction::Ldk(x) => self.LDK(x),
            Instruction::Ldd(x) => self.LDD(x),
            Instruction::Lds(x) => self.LDS(x),
            Instruction::Addi(x) => self.ADDI(x),
            Instruction::Ldf(x) => self.LDF(x),
            Instruction::Ldb(x) => self.LDB(x),
            Instruction::Ldix(x) => self.LDIX(x),
            Instruction::Ldrx(x) => self.LDRX(x),
        }
        Ok(())
    }

    /// One cycle, with `rnd` as the random byte should the instruction be
    /// `Cxkk`: fetch the word at the program counter, tick the timers,
    /// decode and execute. On failure the machine is left as it was.
    pub fn step(&mut self, rnd: u8) -> (r: Result<(), Chip8Error>)
        requires
            old(self).wf(),
        ensures
            outcome(old(self)@, final(self)@, r, step_spec(old(self)@, rnd)),
            final(self).wf(),
    {
        let w = self.fetch();
        let ins = match decode(w) {
            Ok(ins) => ins,
            Err(e) => return Err(e),
        };
        let delay = self.dreg;
        let sound = self.sreg;
        self.tick_timers();
        let r = self.execute(ins, rnd);
        if let Err(_) = r {
            // a failed instruction leaves the timers as they were too
            self.dreg = delay;
            self.sreg = sound;
        }
        r
    }

    /// One cycle, drawing the random byte for `Cxkk` from the machine's
    /// generator. Whatever byte is drawn, the cycle is the one `step` would
    /// run with it.
    pub fn tick(&mut self) -> (r: Result<(), Chip8Error>)
        requires
            old(self).wf(),
        ensures
            exists|rnd: u8| outcome(old(self)@, final(self)@, r, #[trigger] step_spec(old(self)@, rnd)),
            final(self).wf(),
    {
        let w = self.fetch();
        let rnd = if get_nibble(0, w) == 0xC {
            random_byte(&mut self.rng)
        } else {
            0
        };
        let r = self.step(rnd);
        assert(outcome(old(self)@, self@, r, step_spec(old(self)@, rnd)));
        r
    }

    fn advance(&mut self, k: u16)
        requires
            k == 2 || k == 4,
        ensures
            final(self)@ == old(self)@.advanced(k as int),
    {
        self.pc = self.pc.wrapping_add(k);
    }

    fn set_flag(&mut self, f: bool)
        ensures
            final(self)@ == old(self)@.with_reg(FLAG_REGISTER as int, flag(f)),
    {
        if f {
            self.regs[FLAG_REGISTER] = 1;
        } else {
            self.regs[FLAG_REGISTER] = 0;
        }
    }

    /// 0nnn - SYS addr: a native routine on the first CHIP-8 computers; ignored.
    fn SYS(&mut self, _addr: u16)
        ensures
            executes_to(old(self)@, Instruction::Sys(_addr), 0, final(self)@),
    {
        self.advance(2);
    }

    /// 00E0 - CLS: clear the display.
    fn CLS(&mut self)
        ensures
            executes_to(old(self)@, Instruction::Cls, 0, final(self)@),
    {
        self.display = [false; 2048];
        assert(self@.display =~= Seq::new(DISPLAY_SIZE as nat, |p: int| false));
        self.advance(2);
    }

    /// 00EE - RET: return to the address on top of the stack, then move past
    /// the call.
    fn RET(&mut self) -> (r: Result<(), Chip8Error>)
        requires
            old(self).wf(),
        ensures
            outcome(old(self)@, final(self)@, r, execute_spec(old(self)@, Instruction::Ret, 0)),
    {
        if self.sp == 0 {
            return Err(Chip8Error::StackUnderflow);
        }
        self.pc = self.stack[self.sp as usize];
        self.sp = self.sp - 1;
        self.advance(2);
        Ok(())
    }

    /// 1nnn - JP addr: jump to `addr`.
    pub fn JP(&mut self, addr: u16)
        ensures
            final(self)@ == (Chip8View { pc: addr, ..old(self)@ }),
            executes_to(old(self)@, Instruction::Jp(addr), 0, final(self)@),
    {
        self.pc = addr;
    }

    /// 2nnn - CALL addr: push the program counter and jump to `addr`.
    fn CALL(&mut self, addr: u16) -> (r: Result<(), Chip8Error>)
        requires
            old(self).wf(),
        ensures
            outcome(old(self)@, final(self)@, r, execute_spec(old(self)@, Instruction::Call(addr), 0)),
    {
        if self.sp >= STACK_LIMIT {
            return Err(Chip8Error::StackOverflow);
        }
        self.sp = self.sp + 1;
        self.stack[self.sp as usize] = self.pc;
        self.pc = addr;
        Ok(())
    }

    /// 3xkk - SE Vx, byte: skip the next instruction if `Vx == kk`.
    fn SE(&mut self, x: u8, kk: u8)
        requires
            old(self).wf(),
            x < 16,
        ensures
            executes_to(old(self)@, Instruction::Se(x, kk), 0, final(self)@),
    {
        if self.regs[x as usize] == kk {
            self.advance(4);
        } else {
            self.advance(2);
        }
    }

    /// 4xkk - SNE Vx, byte: skip the next instruction if `Vx != kk`.
    fn SNE(&mut self, x: u8, kk: u8)
        requires
            old(self).wf(),
            x < 16,
        ensures
            executes_to(old(self)@, Instruction::Sne(x, kk), 0, final(self)@),
    {
        if self.regs[x as usize] != kk {
            self.advance(4);
        } else {
            self.advance(2);
        }
    }

    /// 5xy0 - SE Vx, Vy: skip the next instruction if `Vx == Vy`.
    fn SER(&mut self, x: u8, y: u8)
        requires
            old(self).wf(),
            x < 16,
            y < 16,
        ensures
            executes_to(old(self)@, Instruction::Ser(x, y), 0, final(self)@),
    {
        if self.regs[x as usize] == self.regs[y as usize] {
            self.advance(4);
        } else {
            self.advance(2);
        }
    }

    /// 6xkk - LD Vx, byte: `Vx = kk`.
    fn LD(&mut self, x: u8, kk: u8)
        requires
            old(self).wf(),
            x < 16,
        ensures
            executes_to(old(self)@, Instruction::Ld(x, kk), 0, final(self)@),
    {
        self.regs[x as usize] = kk;
        self.advance(2);
    }

    /// 7xkk - ADD Vx, byte: `Vx = Vx + kk`, wrapping; the flag is untouched.
    fn ADD(&mut self, x: u8, kk: u8)
        requires
            old(self).wf(),
            x < 16,
        ensures
            executes_to(old(self)@, Instruction::Add(x, kk), 0, final(self)@),
    {
        self.regs[x as usize] = self.regs[x as usize].wrapping_add(kk);
        self.advance(2);
    }

    /// 8xy0 - LD Vx, Vy: `Vx = Vy`.
    fn LDR(&mut self, x: u8, y: u8)
        requires
            old(self).wf(),
            x < 16,
            y < 16,
        ensures
            executes_to(old(self)@, Instruction::Ldr(x, y), 0, final(self)@),
    {
        self.regs[x as usize] = self.regs[y as usize];
        self.advance(2);
    }

    /// 8xy1 - OR Vx, Vy: `Vx = Vx | Vy`.
    fn OR(&mut self, x: u8, y: u8)
        requires
            old(self).wf(),
            x < 16,
            y < 16,
        ensures
            executes_to(old(self)@, Instruction::Or(x, y), 0, final(self)@),
    {
        self.regs[x as usize] = self.regs[x as usize] | self.regs[y as usize];
        self.advance(2);
    }

    /// 8xy2 - AND Vx, Vy: `Vx = Vx & Vy`.
    fn AND(&mut self, x: u8, y: u8)
        requires
            old(self).wf(),
            x < 16,
            y < 16,
        ensures
            executes_to(old(self)@, Instruction::And(x, y), 0, final(self)@),
    {
        self.regs[x as usize] = self.regs[x as usize] & self.regs[y as usize];
        self.advance(2);
    }

    /// 8xy3 - XOR Vx, Vy: `Vx = Vx ^ Vy`.
    fn XOR(&mut self, x: u8, y: u8)
        requires
            old(self).wf(),
            x < 16,
            y < 16,
        ensures
            executes_to(old(self)@, Instruction::Xor(x, y), 0, final(self)@),
    {
        self.regs[x as usize] = self.regs[x as usize] ^ self.regs[y as usize];
        self.advance(2);
    }

    /// 8xy4 - ADD Vx, Vy: `Vx = Vx + Vy` on the low eight bits; `VF` is 1
    /// when the sum does not fit in eight bits.
    fn ADDR(&mut self, x: u8, y: u8)
        requires
            old(self).wf(),
            x < 16,
            y < 16,
        ensures
            executes_to(old(self)@, Instruction::Addr(x, y), 0, final(self)@),
    {
        let result: u16 = self.regs[x as usize] as u16 + self.regs[y as usize] as u16;
        self.set_flag(result > u8::MAX as u16);
        assert(result & 0x00FF == result % 0x100) by (bit_vector);
        self.regs[x as usize] = (result & 0x00FF) as u8;
        self.advance(2);
    }

    /// 8xy5 - SUB Vx, Vy: `Vx = Vx - Vy`, wrapping; `VF` is 1 when `Vx > Vy`.
    fn SUB(&mut self, x: u8, y: u8)
        requires
            old(self).wf(),
            x < 16,
            y < 16,
        ensures
            executes_to(old(self)@, Instruction::Sub(x, y), 0, final(self)@),
    {
        let vx = self.regs[x as usize];
        let vy = self.regs[y as usize];
        self.set_flag(vx > vy);
        self.regs[x as usize] = vx.wrapping_sub(vy);
        self.advance(2);
    }

    /// 8xy6 - SHR Vx: `Vx = Vx >> 1`; `VF` is the bit shifted out.
    fn SHR(&mut self, x: u8, _y: u8)
        requires
            old(self).wf(),
            x < 16,
        ensures
            executes_to(old(self)@, Instruction::Shr(x, _y), 0, final(self)@),
    {
        let v = self.regs[x as usize];
        assert((v & 0x1 == 0x1) == (v % 2 == 1)) by (bit_vector);
        assert(v >> 1u8 == v / 2) by (bit_vector);
        self.set_flag(v & 0x1 == 0x1);
        self.regs[x as usize] = v >> 1u8;
        self.advance(2);
    }

    /// 8xy7 - SUBN Vx, Vy: `Vx = Vy - Vx`, wrapping; `VF` is 1 when `Vy > Vx`.
    fn SUBN(&mut self, x: u8, y: u8)
        requires
            old(self).wf(),
            x < 16,
            y < 16,
        ensures
            executes_to(old(self)@, Instruction::Subn(x, y), 0, final(self)@),
    {
        let vx = self.regs[x as usize];
        let vy = self.regs[y as usize];
        self.set_flag(vy > vx);
        self.regs[x as usize] = vy.wrapping_sub(vx);
        self.advance(2);
    }

    /// 8xyE - SHL Vx: `Vx = Vx << 1`, wrapping; `VF` is the bit shifted out.
    fn SHL(&mut self, x: u8, _y: u8)
        requires
            old(self).wf(),
            x < 16,
        ensures
            executes_to(old(self)@, Instruction::Shl(x, _y), 0, final(self)@),
    {
        let v = self.regs[x as usize];
        assert((v & 0x80 != 0) == (v >= 128)) by (bit_vector);
        assert((v << 1u8) as int == (v as int * 2) % 0x100) by (bit_vector);
        self.set_flag(v & 0x80 != 0);
        self.regs[x as usize] = v << 1u8;
        self.advance(2);
    }

    /// 9xy0 - SNE Vx, Vy: skip the next instruction if `Vx != Vy`.
    fn SNER(&mut self, x: u8, y: u8)
        requires
            old(self).wf(),
            x < 16,
            y < 16,
        ensures
            executes_to(old(self)@, Instruction::Sner(x, y), 0, final(self)@),
    {
        if self.regs[x as usize] != self.regs[y as usize] {
            self.advance(4);
        } else {
            self.advance(2);
        }
    }

    /// Annn - LD I, addr: `I = addr`.
    fn LDI(&mut self, addr: u16)
        ensures
            executes_to(old(self)@, Instruction::Ldi(addr), 0, final(self)@),
    {
        self.ireg = addr;
        self.advance(2);
    }

    /// Bnnn - JP V0, addr: jump to `addr + V0`.
    fn JPO(&mut self, addr: u16)
        requires
            old(self).wf(),
            addr < 0x1000,
        ensures
            executes_to(old(self)@, Instruction::Jpo(addr), 0, final(self)@),
    {
        self.pc = addr + self.regs[0] as u16;
    }

    /// Cxkk - RND Vx, byte: `Vx = rnd & kk`, for the random byte `rnd`.
    fn RND(&mut self, x: u8, kk: u8, rnd: u8)
        requires
            old(self).wf(),
            x < 16,
        ensures
            executes_to(old(self)@, Instruction::Rnd(x, kk), rnd, final(self)@),
    {
        self.regs[x as usize] = rnd & kk;
        self.advance(2);
    }

    /// Dxyn - DRW Vx, Vy, n: XOR the `n`-row sprite at `I` onto the screen
    /// with its corner at `(Vx, Vy)`, wrapping around both edges; `VF` is 1
    /// when some lit pixel went dark, else 0.
    fn DRW(&mut self, x: u8, y: u8, n: u8)
        requires
            old(self).wf(),
            x < 16,
            y < 16,
            n < 16,
        ensures
            executes_to(old(self)@, Instruction::Drw(x, y, n), 0, final(self)@),
    {
        let ghost s0 = self@;
        let ghost vx = s0.reg(x);
        let ghost vy = s0.reg(y);
        let pos_x = self.regs[x as usize] as u32;
        let pos_y = self.regs[y as usize] as u32;
        let mut set_collision = false;
        let mut i: u32 = 0;
        while i < n as u32
            invariant
                s0 == old(self)@,
                s0.wf(),
                x < 16,
                y < 16,
                n < 16,
                vx == s0.reg(x),
                vy == s0.reg(y),
                pos_x == vx,
                pos_y == vy,
                i <= n,
                self@ == (Chip8View { display: self@.display, ..s0 }),
                self@.display.len() == DISPLAY_SIZE,
                forall|p: int|
                    0 <= p < DISPLAY_SIZE ==> #[trigger] self@.display[p] == (s0.display[p] != (
                    s0.sprite_bit(x, y, n, p) && drawn_before(vx, vy, p, i as int, 0))),
                set_collision == exists|p: int|
                    0 <= p < DISPLAY_SIZE && s0.display[p] && #[trigger] s0.sprite_bit(x, y, n, p)
                        && drawn_before(vx, vy, p, i as int, 0),
            decreases n - i,
        {
            let byte = self.ram[(self.ireg as usize + i as usize) % MEMORY_SIZE];
            let mut j: u32 = 0;
            while j < 8
                invariant
                    s0 == old(self)@,
                    s0.wf(),
                    x < 16,
                    y < 16,
                    n < 16,
                    vx == s0.reg(x),
                    vy == s0.reg(y),
                    pos_x == vx,
                    pos_y == vy,
                    i < n,
                    j <= 8,
                    byte == s0.mem(s0.ireg + i),
                    self@ == (Chip8View { display: self@.display, ..s0 }),
                    self@.display.len() == DISPLAY_SIZE,
                    forall|p: int|
                        0 <= p < DISPLAY_SIZE ==> #[trigger] self@.display[p] == (s0.display[p] != (
                        s0.sprite_bit(x, y, n, p) && drawn_before(vx, vy, p, i as int, j as int))),
                    set_collision == exists|p: int|
                        0 <= p < DISPLAY_SIZE && s0.display[p] && #[trigger] s0.sprite_bit(x, y, n, p)
                            && drawn_before(vx, vy, p, i as int, j as int),
                decreases 8 - j,
            {
                let position = (((pos_y + i) % 32) * 64 + (pos_x + j) % 64) as usize;
                let current_bit = (byte >> ((7 - j) as u8)) & 1u8 == 1u8;
                let ghost before = self@.display;
                let ghost was_set = set_collision;
                proof {
                    lemma_sprite_pixel(vx, vy, i as int, j as int);
                    assert(current_bit == s0.sprite_bit(x, y, n, position as int));
                    assert(before[position as int] == s0.display[position as int]);
                }
                if current_bit {
                    if self.display[position] {
                        set_collision = true;
                    }
                    self.display[position] = !self.display[position];
                }
                proof {
                    assert forall|p: int| 0 <= p < DISPLAY_SIZE && p != position implies
                        drawn_before(vx, vy, p, i as int, j + 1) == drawn_before(
                            vx,
                            vy,
                            p,
                            i as int,
                            j as int,
                        ) by {
                        if sprite_row(vy, p) == i && sprite_col(vx, p) == j {
                            assert(p == position);
                        }
                    }
                    let hit = s0.display[position as int] && s0.sprite_bit(x, y, n, position as int);
                    if hit {
                        assert(drawn_before(vx, vy, position as int, i as int, j + 1));
                    } else if was_set {
                        let q = choose|q: int|
                            0 <= q < DISPLAY_SIZE && s0.display[q] && #[trigger] s0.sprite_bit(x, y, n, q)
                                && drawn_before(vx, vy, q, i as int, j as int);
                        assert(drawn_before(vx, vy, q, i as int, j + 1));
                    } else {
                        assert forall|q: int|
                            0 <= q < DISPLAY_SIZE && s0.display[q] && #[trigger] s0.sprite_bit(x, y, n, q)
                            implies !drawn_before(vx, vy, q, i as int, j + 1) by {
                            if q != position {
                                assert(!drawn_before(vx, vy, q, i as int, j as int));
                            }
                        }
                    }
                }
                j = j + 1;
            }
            proof {
                assert forall|p: int| 0 <= p < DISPLAY_SIZE implies (s0.sprite_bit(x, y, n, p)
                    && drawn_before(vx, vy, p, i as int, 8)) == (s0.sprite_bit(x, y, n, p)
                    && drawn_before(vx, vy, p, i + 1, 0)) by {}
                if set_collision {
                    let q = choose|q: int|
                        0 <= q < DISPLAY_SIZE && s0.display[q] && #[trigger] s0.sprite_bit(x, y, n, q)
                            && drawn_before(vx, vy, q, i as int, 8);
                    assert(drawn_before(vx, vy, q, i + 1, 0));
                } else {
                    assert forall|q: int|
                        0 <= q < DISPLAY_SIZE && s0.display[q] && #[trigger] s0.sprite_bit(x, y, n, q)
                        implies !drawn_before(vx, vy, q, i + 1, 0) by {
                        assert(!drawn_before(vx, vy, q, i as int, 8));
                    }
                }
            }
            i = i + 1;
        }
        proof {
            assert forall|p: int| 0 <= p < DISPLAY_SIZE implies (s0.sprite_bit(x, y, n, p)
                && drawn_before(vx, vy, p, n as int, 0)) == s0.sprite_bit(x, y, n, p) by {}
            if set_collision {
                let q = choose|q: int|
                    0 <= q < DISPLAY_SIZE && s0.display[q] && #[trigger] s0.sprite_bit(x, y, n, q)
                        && drawn_before(vx, vy, q, n as int, 0);
                assert(s0.collides(x, y, n));
            } else {
                assert forall|q: int|
                    0 <= q < DISPLAY_SIZE && s0.display[q] implies !#[trigger] s0.sprite_bit(x, y, n, q) by {
                    assert(!drawn_before(vx, vy, q, n as int, 0) || !s0.sprite_bit(x, y, n, q));
                }
                assert(!s0.collides(x, y, n));
            }
            assert(self@.display =~= s0.drawn(x, y, n));
        }
        self.set_flag(set_collision);
        self.advance(2);
    }

    /// Ex9E - SKP Vx: skip the next instruction if key `Vx` is down.
    fn SKPK(&mut self, x: u8)
        requires
            old(self).wf(),
            x < 16,
        ensures
            executes_to(old(self)@, Instruction::Skpk(x), 0, final(self)@),
    {
        if self.kb[(self.regs[x as usize] % 16) as usize] {
            self.advance(4);
        } else {
            self.advance(2);
        }
    }

    /// ExA1 - SKNP Vx: skip the next instruction if key `Vx` is up.
    fn SKNPK(&mut self, x: u8)
        requires
            old(self).wf(),
            x < 16,
        ensures
            executes_to(old(self)@, Instruction::Sknpk(x), 0, final(self)@),
    {
        if !self.kb[(self.regs[x as usize] % 16) as usize] {
            self.advance(4);
        } else {
            self.advance(2);
        }
    }

    /// Fx07 - LD Vx, DT: `Vx` = the delay timer.
    fn LDT(&mut self, x: u8)
        requires
            old(self).wf(),
            x < 16,
        ensures
            executes_to(old(self)@, Instruction::Ldt(x), 0, final(self)@),
    {
        self.regs[x as usize] = self.dreg;
        self.advance(2);
    }

    /// Fx0A - LD Vx, K: wait for a key. With some key down, the lowest one
    /// goes to `Vx` and execution moves on; with none, the program counter
    /// stays, so the next cycle runs this instruction again.
    fn LDK(&mut self, x: u8)
        requires
            old(self).wf(),
            x < 16,
        ensures
            executes_to(old(self)@, Instruction::Ldk(x), 0, final(self)@),
    {
        let ghost s0 = self@;
        let mut i: usize = 0;
        while i < 16
            invariant
                self@ == s0,
                s0 == old(self)@,
                s0.wf(),
                i <= 16,
                x < 16,
                forall|m: int| 0 <= m < i ==> !#[trigger] s0.kb[m],
            decreases 16 - i,
        {
            if self.kb[i] {
                proof {
                    assert(s0.kb[i as int]);
                    assert(s0.any_key());
                    let k0 = s0.first_key();
                    assert(0 <= k0 < 16 && s0.kb[k0] && forall|m: int|
                        0 <= m < k0 ==> !#[trigger] s0.kb[m]);
                    if k0 < i {
                        assert(!s0.kb[k0]);
                    }
                    if k0 > i {
                        assert(!s0.kb[i as int]);
                    }
                    assert(k0 == i);
                }
                self.regs[x as usize] = i as u8;
                self.advance(2);
                return;
            }
            i = i + 1;
        }
        assert(!s0.any_key()) by {
            if s0.any_key() {
                let k = choose|k: int| 0 <= k < 16 && #[trigger] s0.kb[k];
                assert(!s0.kb[k]);
            }
        }
    }

    /// Fx15 - LD DT, Vx: the delay timer = `Vx`.
    fn LDD(&mut self, x: u8)
        requires
            old(self).wf(),
            x < 16,
        ensures
            executes_to(old(self)@, Instruction::Ldd(x), 0, final(self)@),
    {
        self.dreg = self.regs[x as usize];
        self.advance(2);
    }

    /// Fx18 - LD ST, Vx: the sound timer = `Vx`.
    fn LDS(&mut self, x: u8)
        requires
            old(self).wf(),
            x < 16,
        ensures
            executes_to(old(self)@, Instruction::Lds(x), 0, final(self)@),
    {
        self.sreg = self.regs[x as usize];
        self.advance(2);
    }

    /// Fx1E - ADD I, Vx: `I = I + Vx`, wrapping at 16 bits.
    fn ADDI(&mut self, x: u8)
        requires
            old(self).wf(),
            x < 16,
        ensures
            executes_to(old(self)@, Instruction::Addi(x), 0, final(self)@),
    {
        self.ireg = self.ireg.wrapping_add(self.regs[x as usize] as u16);
        self.advance(2);
    }

    /// Fx29 - LD F, Vx: `I` = the address of the font glyph for the digit `Vx`.
    fn LDF(&mut self, x: u8)
        requires
            old(self).wf(),
            x < 16,
        ensures
            executes_to(old(self)@, Instruction::Ldf(x), 0, final(self)@),
    {
        self.ireg = self.regs[x as usize] as u16 * 5 + TEXT_MEMORY_START as u16;
        self.advance(2);
    }

    /// Fx33 - LD B, Vx: the hundreds, tens and ones digit of `Vx` to
    /// `I`, `I+1` and `I+2`.
    fn LDB(&mut self, x: u8)
        requires
            old(self).wf(),
            x < 16,
        ensures
            executes_to(old(self)@, Instruction::Ldb(x), 0, final(self)@),
    {
        let value = self.regs[x as usize];
        let base = self.ireg as usize;
        self.ram[base % MEMORY_SIZE] = value / 100;
        self.ram[(base + 1) % MEMORY_SIZE] = (value / 10) % 10;
        self.ram[(base + 2) % MEMORY_SIZE] = value % 10;
        self.advance(2);
    }

    /// Fx55 - LD [I], Vx: `V0..=Vx` to memory from `I` on.
    fn LDIX(&mut self, x: u8)
        requires
            old(self).wf(),
            x < 16,
        ensures
            executes_to(old(self)@, Instruction::Ldix(x), 0, final(self)@),
    {
        let ghost s0 = self@;
        let base = self.ireg as usize;
        let mut k: usize = 0;
        while k <= x as usize
            invariant
                s0.wf(),
                x < 16,
                k <= x as usize + 1,
                base == s0.ireg,
                self@ == (Chip8View { ram: self@.ram, ..s0 }),
                self@.ram.len() == MEMORY_SIZE,
                forall|a: int|
                    0 <= a < MEMORY_SIZE ==> #[trigger] self@.ram[a] == {
                        let j = (a + 4096 - base as int % 4096) % 4096;
                        if j < k {
                            s0.regs[j]
                        } else {
                            s0.ram[a]
                        }
                    },
            decreases x as usize + 1 - k,
        {
            let a = (base + k) % MEMORY_SIZE;
            assert((a + 4096 - base as int % 4096) % 4096 == k);
            self.ram[a] = self.regs[k];
            k = k + 1;
        }
        assert(self@.ram =~= s0.regs_stored(x));
        self.advance(2);
    }

    /// Fx65 - LD Vx, [I]: `V0..=Vx` from memory from `I` on.
    fn LDRX(&mut self, x: u8)
        requires
            old(self).wf(),
            x < 16,
        ensures
            executes_to(old(self)@, Instruction::Ldrx(x), 0, final(self)@),
    {
        let ghost s0 = self@;
        let base = self.ireg as usize;
        let mut k: usize = 0;
        while k <= x as usize
            invariant
                s0.wf(),
                x < 16,
                k <= x as usize + 1,
                base == s0.ireg,
                self@ == (Chip8View { regs: self@.regs, ..s0 }),
                self@.regs.len() == 16,
                forall|m: int|
                    0 <= m < 16 ==> #[trigger] self@.regs[m] == if m < k {
                        s0.mem(base + m)
                    } else {
                        s0.regs[m]
                    },
            decreases x as usize + 1 - k,
        {
            self.regs[k] = self.ram[(base + k) % MEMORY_SIZE];
            k = k + 1;
        }
        assert(self@.regs =~= s0.regs_loaded(x));
        self.advance(2);
    }
}

} // verus!

//! A model of the Hack machine, deep enough to run the emitted fragments:
//! 16-bit registers `A` and `D`, a word-addressed memory, and the compute
//! instructions the translator uses.  The arithmetic fragments are restated
//! here as instruction sequences, proved to render to exactly the emitted
//! text, and then proved to compute what the VM operation promises.

use vstd::prelude::*;
use crate::converter::{add_text, and_text, binary_op_text, dec_sp_text, inc_sp_text, neg_text,
    not_text, or_text, pop_d_text, pop_m_text, sub_text, unary_op_text};

verus! {

// ---------------------------------------------------------------------------
// Words.
// ---------------------------------------------------------------------------

/// The signed reading of a 16-bit word.
pub open spec fn signed(x: u16) -> int {
    if x < 0x8000 {
        x as int
    } else {
        x as int - 0x10000
    }
}

/// A mathematical integer reduced to the 16-bit two's-complement range.
pub open spec fn wrap16(x: int) -> int {
    ((x + 0x8000) % 0x10000) - 0x8000
}

/// 16-bit wrapping addition on bit patterns.
pub open spec fn wadd(x: u16, y: u16) -> u16 {
    (((x as int) + (y as int)) % 0x10000) as u16
}

/// 16-bit wrapping subtraction on bit patterns.
pub open spec fn wsub(x: u16, y: u16) -> u16 {
    (((x as int) - (y as int) + 0x10000) % 0x10000) as u16
}

/// 16-bit two's-complement negation.
pub open spec fn wneg(x: u16) -> u16 {
    ((0x10000 - (x as int)) % 0x10000) as u16
}

// ---------------------------------------------------------------------------
// Instructions.
// ---------------------------------------------------------------------------

/// A destination register of a compute instruction.
pub enum Dest {
    RegA,
    RegD,
    RegM,
}

/// The computations the emitted fragments use.
pub enum Comp {
    CZero,
    CNegOne,
    CD,
    CA,
    CM,
    CNotM,
    CNegM,
    CMPlus1,
    CMMinus1,
    CMPlusD,
    CMMinusD,
    CMAndD,
    CMOrD,
    CDPlusA,
    CDMinusA,
    CDPlus1,
}

/// A jump condition, on the computed value.
pub enum Jump {
    JNone,
    JGT,
    JEQ,
    JLT,
    JNE,
    JMP,
}

/// One line of Hack assembly.
pub enum Instr {
    /// `@n` with a numeric constant.
    AtNum(u16),
    /// `@X` with a symbol: a register name or a label.
    AtSym(Seq<char>),
    /// `(X)`: a label definition; skipped at run time.
    Label(Seq<char>),
    /// `dest=comp` (with `JNone`) or `comp;jump` (with no destination).
    C(Option<Dest>, Comp, Jump),
}

// ---------------------------------------------------------------------------
// Rendering: the instruction sequences print to the emitted text.
// ---------------------------------------------------------------------------

pub open spec fn comp_text(c: Comp) -> Seq<char> {
    match c {
        Comp::CZero => "0"@,
        Comp::CNegOne => "-1"@,
        Comp::CD => "D"@,
        Comp::CA => "A"@,
        Comp::CM => "M"@,
        Comp::CNotM => "!M"@,
        Comp::CNegM => "-M"@,
        Comp::CMPlus1 => "M+1"@,
        Comp::CMMinus1 => "M-1"@,
        Comp::CMPlusD => "M+D"@,
        Comp::CMMinusD => "M-D"@,
        Comp::CMAndD => "M&D"@,
        Comp::CMOrD => "M|D"@,
        Comp::CDPlusA => "D+A"@,
        Comp::CDMinusA => "D-A"@,
        Comp::CDPlus1 => "D+1"@,
    }
}

pub open spec fn dest_text(d: Dest) -> Seq<char> {
    match d {
        Dest::RegA => "A="@,
        Dest::RegD => "D="@,
        Dest::RegM => "M="@,
    }
}

pub open spec fn jump_text(j: Jump) -> Seq<char> {
    match j {
        Jump::JNone => Seq::<char>::empty(),
        Jump::JGT => "JGT"@,
        Jump::JEQ => "JEQ"@,
        Jump::JLT => "JLT"@,
        Jump::JNE => "JNE"@,
        Jump::JMP => "JMP"@,
    }
}

pub open spec fn instr_text(i: Instr) -> Seq<char> {
    match i {
        Instr::AtNum(n) => "@"@ + crate::dec::dec_digits(n as nat) + " \n"@,
        Instr::AtSym(s) => "@"@ + s + " \n"@,
        Instr::Label(s) => "("@ + s + ") \n"@,
        Instr::C(d, c, j) => match d {
            Option::Some(dd) => dest_text(dd) + comp_text(c) + " \n"@,
            Option::None => comp_text(c) + ";"@ + jump_text(j) + " \n"@,
        },
    }
}

pub open spec fn render(is: Seq<Instr>) -> Seq<char>
    decreases is.len(),
{
    if is.len() == 0 {
        Seq::<char>::empty()
    } else {
        instr_text(is[0]) + render(is.drop_first())
    }
}

pub proof fn lemma_render_concat(a: Seq<Instr>, b: Seq<Instr>)
    ensures
        render(a + b) == render(a) + render(b),
    decreases a.len(),
{
    if a.len() == 0 {
        assert(a + b =~= b);
        assert(render(a) + render(b) =~= render(b));
    } else {
        assert((a + b).drop_first() =~= a.drop_first() + b);
        lemma_render_concat(a.drop_first(), b);
        assert(render(a + b) =~= render(a) + render(b));
    }
}

// ---------------------------------------------------------------------------
// The fragments as instructions.
// ---------------------------------------------------------------------------

pub open spec fn dec_sp_instrs() -> Seq<Instr> {
    seq![
        Instr::AtSym("SP"@),
        Instr::C(Some(Dest::RegM), Comp::CMMinus1, Jump::JNone),
    ]
}

pub open spec fn inc_sp_instrs() -> Seq<Instr> {
    seq![
        Instr::AtSym("SP"@),
        Instr::C(Some(Dest::RegM), Comp::CMPlus1, Jump::JNone),
    ]
}

pub open spec fn pop_d_instrs() -> Seq<Instr> {
    dec_sp_instrs() + seq![
        Instr::C(Some(Dest::RegA), Comp::CM, Jump::JNone),
        Instr::C(Some(Dest::RegD), Comp::CM, Jump::JNone),
    ]
}

pub open spec fn pop_m_instrs() -> Seq<Instr> {
    dec_sp_instrs() + seq![Instr::C(Some(Dest::RegA), Comp::CM, Jump::JNone)]
}

pub open spec fn binary_op_instrs(op: Comp) -> Seq<Instr> {
    pop_d_instrs() + pop_m_instrs() + seq![Instr::C(Some(Dest::RegM), op, Jump::JNone)]
        + inc_sp_instrs()
}

pub open spec fn unary_op_instrs(op: Comp) -> Seq<Instr> {
    pop_m_instrs() + seq![Instr::C(Some(Dest::RegM), op, Jump::JNone)] + inc_sp_instrs()
}

// ---------------------------------------------------------------------------
// The rendering matches the emitted text.
// ---------------------------------------------------------------------------

proof fn lemma_render_dec_sp()
    ensures
        render(dec_sp_instrs()) == dec_sp_text(),
{
    reveal_with_fuel(render, 5);
    reveal_strlit("@");
    reveal_strlit("SP");
    reveal_strlit(" \n");
    reveal_strlit("@SP \n");
    reveal_strlit("M=");
    reveal_strlit("M-1");
    reveal_strlit("M=M-1 \n");
    assert(render(dec_sp_instrs()) =~= dec_sp_text());
}

proof fn lemma_render_inc_sp()
    ensures
        render(inc_sp_instrs()) == inc_sp_text(),
{
    reveal_with_fuel(render, 5);
    reveal_strlit("@");
    reveal_strlit("SP");
    reveal_strlit(" \n");
    reveal_strlit("@SP \n");
    reveal_strlit("M=");
    reveal_strlit("M+1");
    reveal_strlit("M=M+1 \n");
    assert(render(inc_sp_instrs()) =~= inc_sp_text());
}

proof fn lemma_render_pop_d()
    ensures
        render(pop_d_instrs()) == pop_d_text(),
{
    reveal_with_fuel(render, 5);
    lemma_render_dec_sp();
    reveal_strlit("A=");
    reveal_strlit("D=");
    reveal_strlit("M");
    reveal_strlit(" \n");
    reveal_strlit("A=M \n");
    reveal_strlit("D=M \n");
    assert(render(pop_d_instrs()) =~= dec_sp_text() + ("A=M \n"@ + "D=M \n"@)) by {
        lemma_render_concat(dec_sp_instrs(), seq![
            Instr::C(Some(Dest::RegA), Comp::CM, Jump::JNone),
            Instr::C(Some(Dest::RegD), Comp::CM, Jump::JNone),
        ]);
        assert(render(seq![
            Instr::C(Some(Dest::RegA), Comp::CM, Jump::JNone),
            Instr::C(Some(Dest::RegD), Comp::CM, Jump::JNone),
        ]) =~= "A=M \n"@ + "D=M \n"@);
    }
    assert(render(pop_d_instrs()) =~= pop_d_text());
}

proof fn lemma_render_pop_m()
    ensures
        render(pop_m_instrs()) == pop_m_text(),
{
    reveal_with_fuel(render, 5);
    lemma_render_dec_sp();
    reveal_strlit("A=");
    reveal_strlit("M");
    reveal_strlit(" \n");
    reveal_strlit("A=M \n");
    lemma_render_concat(dec_sp_instrs(), seq![Instr::C(Some(Dest::RegA), Comp::CM, Jump::JNone)]);
    assert(render(seq![Instr::C(Some(Dest::RegA), Comp::CM, Jump::JNone)]) =~= "A=M \n"@);
    assert(render(pop_m_instrs()) =~= pop_m_text());
}

/// The binary-operator template renders to the emitted text, provided the
/// single operator line does.
proof fn lemma_render_binary_op(op: Comp, op_line: Seq<char>)
    requires
        "M="@ + comp_text(op) + " \n"@ == op_line,
    ensures
        render(binary_op_instrs(op)) == binary_op_text(op_line),
{
    reveal_with_fuel(render, 3);
    lemma_render_pop_d();
    lemma_render_pop_m();
    lemma_render_inc_sp();
    let mid = seq![Instr::C(Some(Dest::RegM), op, Jump::JNone)];
    lemma_render_concat(pop_d_instrs(), pop_m_instrs());
    lemma_render_concat(pop_d_instrs() + pop_m_instrs(), mid);
    lemma_render_concat(pop_d_instrs() + pop_m_instrs() + mid, inc_sp_instrs());
    assert(render(mid) =~= "M="@ + comp_text(op) + " \n"@);
    assert(binary_op_instrs(op) == pop_d_instrs() + pop_m_instrs() + mid + inc_sp_instrs());
    assert(render(binary_op_instrs(op)) =~= binary_op_text(op_line));
}

proof fn lemma_render_unary_op(op: Comp, op_line: Seq<char>)
    requires
        "M="@ + comp_text(op) + " \n"@ == op_line,
    ensures
        render(unary_op_instrs(op)) == unary_op_text(op_line),
{
    reveal_with_fuel(render, 3);
    lemma_render_pop_m();
    lemma_render_inc_sp();
    let mid = seq![Instr::C(Some(Dest::RegM), op, Jump::JNone)];
    lemma_render_concat(pop_m_instrs(), mid);
    lemma_render_concat(pop_m_instrs() + mid, inc_sp_instrs());
    assert(render(mid) =~= "M="@ + comp_text(op) + " \n"@);
    assert(unary_op_instrs(op) == pop_m_instrs() + mid + inc_sp_instrs());
    assert(render(unary_op_instrs(op)) =~= unary_op_text(op_line));
}

/// The arithmetic emitters' text is exactly the rendering of the
/// instruction sequences the machine model executes.
pub proof fn lemma_arith_fragments_render()
    ensures
        render(binary_op_instrs(Comp::CMPlusD)) == add_text(),
        render(binary_op_instrs(Comp::CMMinusD)) == sub_text(),
        render(binary_op_instrs(Comp::CMAndD)) == and_text(),
        render(binary_op_instrs(Comp::CMOrD)) == or_text(),
        render(unary_op_instrs(Comp::CNegM)) == neg_text(),
        render(unary_op_instrs(Comp::CNotM)) == not_text(),
{
    reveal_strlit("M=");
    reveal_strlit(" \n");
    reveal_strlit("M+D");
    reveal_strlit("M-D");
    reveal_strlit("M&D");
    reveal_strlit("M|D");
    reveal_strlit("-M");
    reveal_strlit("!M");
    reveal_strlit("M=M+D \n");
    reveal_strlit("M=M-D \n");
    reveal_strlit("M=M&D \n");
    reveal_strlit("M=M|D \n");
    reveal_strlit("M=-M \n");
    reveal_strlit("M=!M \n");
    assert("M="@ + comp_text(Comp::CMPlusD) + " \n"@ =~= "M=M+D \n"@);
    assert("M="@ + comp_text(Comp::CMMinusD) + " \n"@ =~= "M=M-D \n"@);
    assert("M="@ + comp_text(Comp::CMAndD) + " \n"@ =~= "M=M&D \n"@);
    assert("M="@ + comp_text(Comp::CMOrD) + " \n"@ =~= "M=M|D \n"@);
    assert("M="@ + comp_text(Comp::CNegM) + " \n"@ =~= "M=-M \n"@);
    assert("M="@ + comp_text(Comp::CNotM) + " \n"@ =~= "M=!M \n"@);
    lemma_render_binary_op(Comp::CMPlusD, "M=M+D \n"@);
    lemma_render_binary_op(Comp::CMMinusD, "M=M-D \n"@);
    lemma_render_binary_op(Comp::CMAndD, "M=M&D \n"@);
    lemma_render_binary_op(Comp::CMOrD, "M=M|D \n"@);
    lemma_render_unary_op(Comp::CNegM, "M=-M \n"@);
    lemma_render_unary_op(Comp::CNotM, "M=!M \n"@);
}

// ---------------------------------------------------------------------------
// Execution.
// ---------------------------------------------------------------------------

/// The machine: the two registers, the memory, and the program counter.
pub struct MState {
    pub a: u16,
    pub d: u16,
    pub mem: Map<u16, u16>,
    pub pc: int,
}

/// The memory cell an address register value selects; the top bit is not
/// part of the address space.
pub open spec fn addr(a: u16) -> u16 {
    (a % 0x8000) as u16
}

/// First position at which `prog` defines the label `s`, or the length.
pub open spec fn label_pos(prog: Seq<Instr>, s: Seq<char>) -> int
    decreases prog.len(),
{
    if prog.len() == 0 {
        0
    } else if prog[0] == Instr::Label(s) {
        0
    } else {
        1 + label_pos(prog.drop_first(), s)
    }
}

pub proof fn lemma_label_pos_char(prog: Seq<Instr>, s: Seq<char>, i: int)
    requires
        0 <= i < prog.len(),
        prog[i] == Instr::Label(s),
        forall|k: int| 0 <= k < i ==> prog[k] != Instr::Label(s),
    ensures
        label_pos(prog, s) == i,
    decreases prog.len(),
{
    if i > 0 {
        assert(forall|k: int|
            0 <= k < i - 1 ==> prog.drop_first()[k] == prog[k + 1] && prog[k + 1] != Instr::Label(
                s,
            ));
        assert(prog.drop_first()[i - 1] == prog[i]);
        lemma_label_pos_char(prog.drop_first(), s, i - 1);
    }
}

/// What an `@symbol` loads: the fixed registers by name, else the position
/// of the label in the program.
pub open spec fn resolve(prog: Seq<Instr>, s: Seq<char>) -> u16 {
    if s == "SP"@ {
        0
    } else if s == "LCL"@ {
        1
    } else if s == "ARG"@ {
        2
    } else if s == "THIS"@ {
        3
    } else if s == "THAT"@ {
        4
    } else if s == "R5"@ {
        5
    } else if s == "R13"@ {
        13
    } else if s == "R14"@ {
        14
    } else if s == "R15"@ {
        15
    } else {
        (label_pos(prog, s) % 0x8000) as u16
    }
}

/// The value a computation yields in a state.
pub open spec fn comp_val(c: Comp, st: MState) -> u16 {
    let m = st.mem[addr(st.a)];
    match c {
        Comp::CZero => 0,
        Comp::CNegOne => 0xffff,
        Comp::CD => st.d,
        Comp::CA => st.a,
        Comp::CM => m,
        Comp::CNotM => !m,
        Comp::CNegM => wneg(m),
        Comp::CMPlus1 => wadd(m, 1),
        Comp::CMMinus1 => wsub(m, 1),
        Comp::CMPlusD => wadd(m, st.d),
        Comp::CMMinusD => wsub(m, st.d),
        Comp::CMAndD => m & st.d,
        Comp::CMOrD => m | st.d,
        Comp::CDPlusA => wadd(st.d, st.a),
        Comp::CDMinusA => wsub(st.d, st.a),
        Comp::CDPlus1 => wadd(st.d, 1),
    }
}

/// Whether a jump condition holds of the computed value, read signed.
pub open spec fn jump_taken(j: Jump, v: u16) -> bool {
    match j {
        Jump::JNone => false,
        Jump::JGT => signed(v) > 0,
        Jump::JEQ => v == 0,
        Jump::JLT => signed(v) < 0,
        Jump::JNE => v != 0,
        Jump::JMP => true,
    }
}

/// One instruction executed; meaningful for `0 <= pc < prog.len()`.
pub open spec fn do_step(prog: Seq<Instr>, st: MState) -> MState {
    match prog[st.pc] {
        Instr::AtNum(n) => MState { a: n, d: st.d, mem: st.mem, pc: st.pc + 1 },
        Instr::AtSym(s) => MState { a: resolve(prog, s), d: st.d, mem: st.mem, pc: st.pc + 1 },
        Instr::Label(_) => MState { a: st.a, d: st.d, mem: st.mem, pc: st.pc + 1 },
        Instr::C(dest, c, j) => {
            let v = comp_val(c, st);
            MState {
                a: if dest == Some(Dest::RegA) {
                    v
                } else {
                    st.a
                },
                d: if dest == Some(Dest::RegD) {
                    v
                } else {
                    st.d
                },
                mem: if dest == Some(Dest::RegM) {
                    st.mem.insert(addr(st.a), v)
                } else {
                    st.mem
                },
                pc: if jump_taken(j, v) {
                    addr(st.a) as int
                } else {
                    st.pc + 1
                },
            }
        },
    }
}

/// Up to `fuel` instructions executed; stops once the counter leaves the
/// program.
pub open spec fn run_steps(prog: Seq<Instr>, st: MState, fuel: nat) -> MState
    decreases fuel,
{
    if fuel == 0 || st.pc < 0 || st.pc >= prog.len() {
        st
    } else {
        run_steps(prog, do_step(prog, st), (fuel - 1) as nat)
    }
}

/// The result a binary stack operator leaves for operands `x` (pushed
/// first) and `y`.
pub open spec fn binary_result(op: Comp, x: u16, y: u16) -> u16 {
    match op {
        Comp::CMPlusD => wadd(x, y),
        Comp::CMMinusD => wsub(x, y),
        Comp::CMAndD => x & y,
        Comp::CMOrD => x | y,
        _ => 0,
    }
}

/// Running a binary operator fragment on a stack holding `x` then `y` pops
/// both and pushes the operator's result: `add`, `sub`, `and` and `or` are
/// correct for every pair of 16-bit words, with wrap-around semantics, and
/// the second operand popped is the left operand.
pub proof fn theorem_binary_op_correct(st: MState, op: Comp, sp: u16)
    requires
        st.pc == 0,
        op == Comp::CMPlusD || op == Comp::CMMinusD || op == Comp::CMAndD || op == Comp::CMOrD,
        st.mem[0] == sp,
        3 <= sp < 0x8000,
    ensures
        ({
            let fin = run_steps(binary_op_instrs(op), st, 10);
            let x = st.mem[(sp - 2) as u16];
            let y = st.mem[(sp - 1) as u16];
            fin.pc == binary_op_instrs(op).len() && fin.mem[0] == (sp - 1) as u16 && fin.mem[(sp
                - 2) as u16] == binary_result(op, x, y) && (forall|k: u16|
                k != 0 && k != (sp - 2) as u16 ==> fin.mem[k] == st.mem[k])
        }),
{
    let prog = binary_op_instrs(op);
    assert(prog =~= seq![
        Instr::AtSym("SP"@),
        Instr::C(Some(Dest::RegM), Comp::CMMinus1, Jump::JNone),
        Instr::C(Some(Dest::RegA), Comp::CM, Jump::JNone),
        Instr::C(Some(Dest::RegD), Comp::CM, Jump::JNone),
        Instr::AtSym("SP"@),
        Instr::C(Some(Dest::RegM), Comp::CMMinus1, Jump::JNone),
        Instr::C(Some(Dest::RegA), Comp::CM, Jump::JNone),
        Instr::C(Some(Dest::RegM), op, Jump::JNone),
        Instr::AtSym("SP"@),
        Instr::C(Some(Dest::RegM), Comp::CMPlus1, Jump::JNone),
    ]);
    reveal_with_fuel(run_steps, 12);
    assert(addr(0) == 0);
    assert(addr((sp - 1) as u16) == (sp - 1) as u16);
    assert(addr((sp - 2) as u16) == (sp - 2) as u16);
    assert(wsub(sp, 1) == (sp - 1) as u16);
    assert(wsub((sp - 1) as u16, 1) == (sp - 2) as u16);
    assert(wadd((sp - 2) as u16, 1) == (sp - 1) as u16);
    let x = st.mem[(sp - 2) as u16];
    let y = st.mem[(sp - 1) as u16];
    let s1 = do_step(prog, st);
    assert(s1.pc == 1 && s1.a == 0 && s1.d == st.d && s1.mem == st.mem);
    let s2 = do_step(prog, s1);
    assert(s2.pc == 2 && s2.a == 0 && s2.d == st.d);
    assert(s2.mem == st.mem.insert(0, (sp - 1) as u16));
    let s3 = do_step(prog, s2);
    assert(s3.pc == 3 && s3.a == (sp - 1) as u16 && s3.d == st.d && s3.mem == s2.mem);
    let s4 = do_step(prog, s3);
    assert(s4.pc == 4 && s4.a == (sp - 1) as u16 && s4.d == y && s4.mem == s2.mem);
    let s5 = do_step(prog, s4);
    assert(s5.pc == 5 && s5.a == 0 && s5.d == y && s5.mem == s2.mem);
    let s6 = do_step(prog, s5);
    assert(s6.pc == 6 && s6.a == 0 && s6.d == y);
    assert(s6.mem == s2.mem.insert(0, (sp - 2) as u16));
    let s7 = do_step(prog, s6);
    assert(s7.pc == 7 && s7.a == (sp - 2) as u16 && s7.d == y && s7.mem == s6.mem);
    let s8 = do_step(prog, s7);
    assert(s8.pc == 8 && s8.a == (sp - 2) as u16 && s8.d == y);
    assert(s7.mem[addr(s7.a)] == x);
    assert(comp_val(op, s7) == binary_result(op, x, y));
    assert(s8.mem == s6.mem.insert((sp - 2) as u16, binary_result(op, x, y)));
    let s9 = do_step(prog, s8);
    assert(s9.pc == 9 && s9.a == 0 && s9.mem == s8.mem);
    assert(s9.mem[0] == (sp - 2) as u16);
    let s10 = do_step(prog, s9);
    assert(s10.pc == 10);
    assert(s10.mem == s8.mem.insert(0, (sp - 1) as u16));
    assert(run_steps(prog, st, 10) == s10);
    assert(s10.mem[0] == (sp - 1) as u16);
    assert(s10.mem[(sp - 2) as u16] == binary_result(op, x, y));
    assert(forall|k: u16| k != 0 && k != (sp - 2) as u16 ==> s10.mem[k] == st.mem[k]);
}

/// The result a unary operator leaves for its operand.
pub open spec fn unary_result(op: Comp, x: u16) -> u16 {
    match op {
        Comp::CNegM => wneg(x),
        Comp::CNotM => !x,
        _ => 0,
    }
}

/// Running a unary operator fragment negates or complements the top of the
/// stack in place, for every 16-bit word.
pub proof fn theorem_unary_op_correct(st: MState, op: Comp, sp: u16)
    requires
        st.pc == 0,
        op == Comp::CNegM || op == Comp::CNotM,
        st.mem[0] == sp,
        2 <= sp < 0x8000,
    ensures
        ({
            let fin = run_steps(unary_op_instrs(op), st, 6);
            let x = st.mem[(sp - 1) as u16];
            fin.pc == unary_op_instrs(op).len() && fin.mem[0] == sp && fin.mem[(sp - 1) as u16]
                == unary_result(op, x) && (forall|k: u16|
                k != 0 && k != (sp - 1) as u16 ==> fin.mem[k] == st.mem[k])
        }),
{
    let prog = unary_op_instrs(op);
    assert(prog =~= seq![
        Instr::AtSym("SP"@),
        Instr::C(Some(Dest::RegM), Comp::CMMinus1, Jump::JNone),
        Instr::C(Some(Dest::RegA), Comp::CM, Jump::JNone),
        Instr::C(Some(Dest::RegM), op, Jump::JNone),
        Instr::AtSym("SP"@),
        Instr::C(Some(Dest::RegM), Comp::CMPlus1, Jump::JNone),
    ]);
    reveal_with_fuel(run_steps, 8);
    assert(addr(0) == 0);
    assert(addr((sp - 1) as u16) == (sp - 1) as u16);
    assert(wsub(sp, 1) == (sp - 1) as u16);
    assert(wadd((sp - 1) as u16, 1) == sp);
    let x = st.mem[(sp - 1) as u16];
    let s1 = do_step(prog, st);
    assert(s1.pc == 1 && s1.a == 0 && s1.d == st.d && s1.mem == st.mem);
    let s2 = do_step(prog, s1);
    assert(s2.pc == 2 && s2.a == 0 && s2.d == st.d);
    assert(s2.mem == st.mem.insert(0, (sp - 1) as u16));
    let s3 = do_step(prog, s2);
    assert(s3.pc == 3 && s3.a == (sp - 1) as u16 && s3.d == st.d && s3.mem == s2.mem);
    let s4 = do_step(prog, s3);
    assert(s4.pc == 4 && s4.a == (sp - 1) as u16 && s4.d == st.d);
    assert(s3.mem[addr(s3.a)] == x);
    assert(comp_val(op, s3) == unary_result(op, x));
    assert(s4.mem == s2.mem.insert((sp - 1) as u16, unary_result(op, x)));
    let s5 = do_step(prog, s4);
    assert(s5.pc == 5 && s5.a == 0 && s5.mem == s4.mem);
    assert(s5.mem[0] == (sp - 1) as u16);
    let s6 = do_step(prog, s5);
    assert(s6.pc == 6);
    assert(s6.mem == s4.mem.insert(0, sp));
    assert(run_steps(prog, st, 6) == s6);
    assert(s6.mem[0] == sp);
    assert(s6.mem[(sp - 1) as u16] == unary_result(op, x));
    assert(forall|k: u16| k != 0 && k != (sp - 1) as u16 ==> s6.mem[k] == st.mem[k]);
}

// ---------------------------------------------------------------------------
// Comparisons.
// ---------------------------------------------------------------------------

/// The branching idiom of a comparison, as instructions: `label` must be
/// fresh; the idiom defines `{label}-true` and `{label}-false`.
pub open spec fn branch_flag_instrs(jc: Jump, label: Seq<char>) -> Seq<Instr> {
    seq![
        Instr::AtSym(label + "-true"@),
        Instr::C(None, Comp::CD, jc),
        Instr::AtNum(0),
        Instr::C(Some(Dest::RegD), Comp::CA, Jump::JNone),
        Instr::AtSym(label + "-false"@),
        Instr::C(None, Comp::CZero, Jump::JMP),
        Instr::Label(label + "-true"@),
        Instr::C(Some(Dest::RegD), Comp::CNegOne, Jump::JNone),
        Instr::Label(label + "-false"@),
        Instr::AtSym("SP"@),
        Instr::C(Some(Dest::RegA), Comp::CM, Jump::JNone),
        Instr::C(Some(Dest::RegM), Comp::CD, Jump::JNone),
        Instr::AtSym("SP"@),
        Instr::C(Some(Dest::RegM), Comp::CMPlus1, Jump::JNone),
    ]
}

/// A whole comparison: subtract, pop the difference, branch on it.
pub open spec fn compare_instrs(jc: Jump, label: Seq<char>) -> Seq<Instr> {
    binary_op_instrs(Comp::CMMinusD) + pop_d_instrs() + branch_flag_instrs(jc, label)
}

/// First half of the branching idiom: up to the unconditional jump.
proof fn lemma_render_branch_flag_head(jc: Jump, label: Seq<char>)
    ensures
        render(branch_flag_instrs(jc, label).take(6)) == "@"@ + label + "-true \n"@ + "D;"@
            + jump_text(jc) + " \n"@ + "@0 \n"@ + "D=A \n"@ + "@"@ + label + "-false \n"@
            + "0;JMP \n"@,
{
    reveal_with_fuel(render, 8);
    reveal_strlit("@");
    reveal_strlit(" \n");
    reveal_strlit("-true");
    reveal_strlit("-false");
    reveal_strlit("-true \n");
    reveal_strlit("-false \n");
    reveal_strlit("D");
    reveal_strlit("D;");
    reveal_strlit(";");
    reveal_strlit("@0 \n");
    reveal_strlit("0");
    reveal_strlit("D=");
    reveal_strlit("A");
    reveal_strlit("D=A \n");
    reveal_strlit("0;JMP \n");
    reveal_strlit("JMP");
    assert(crate::dec::dec_digits(0) =~= seq!['0']);
    assert(branch_flag_instrs(jc, label).take(6) =~= seq![
        Instr::AtSym(label + "-true"@),
        Instr::C(None, Comp::CD, jc),
        Instr::AtNum(0),
        Instr::C(Some(Dest::RegD), Comp::CA, Jump::JNone),
        Instr::AtSym(label + "-false"@),
        Instr::C(None, Comp::CZero, Jump::JMP),
    ]);
    assert(render(branch_flag_instrs(jc, label).take(6)) =~= "@"@ + label + "-true \n"@ + "D;"@
        + jump_text(jc) + " \n"@ + "@0 \n"@ + "D=A \n"@ + "@"@ + label + "-false \n"@
        + "0;JMP \n"@);
}

/// Second half of the branching idiom: the two arms and the push of `D`.
proof fn lemma_render_branch_flag_tail(jc: Jump, label: Seq<char>)
    ensures
        render(branch_flag_instrs(jc, label).skip(6)) == "("@ + label + "-true) \n"@ + "D=-1 \n"@
            + "("@ + label + "-false) \n"@ + "@SP \n"@ + "A=M \n"@ + "M=D \n"@
            + inc_sp_text(),
{
    reveal_with_fuel(render, 10);
    reveal_strlit("(");
    reveal_strlit(") \n");
    reveal_strlit("-true");
    reveal_strlit("-false");
    reveal_strlit("-true) \n");
    reveal_strlit("-false) \n");
    reveal_strlit("D=");
    reveal_strlit("-1");
    reveal_strlit("D=-1 \n");
    reveal_strlit("@");
    reveal_strlit("SP");
    reveal_strlit(" \n");
    reveal_strlit("@SP \n");
    reveal_strlit("A=");
    reveal_strlit("M");
    reveal_strlit("A=M \n");
    reveal_strlit("M=");
    reveal_strlit("D");
    reveal_strlit("M=D \n");
    reveal_strlit("M+1");
    reveal_strlit("M=M+1 \n");
    assert(branch_flag_instrs(jc, label).skip(6) =~= seq![
        Instr::Label(label + "-true"@),
        Instr::C(Some(Dest::RegD), Comp::CNegOne, Jump::JNone),
        Instr::Label(label + "-false"@),
        Instr::AtSym("SP"@),
        Instr::C(Some(Dest::RegA), Comp::CM, Jump::JNone),
        Instr::C(Some(Dest::RegM), Comp::CD, Jump::JNone),
        Instr::AtSym("SP"@),
        Instr::C(Some(Dest::RegM), Comp::CMPlus1, Jump::JNone),
    ]);
    assert(render(branch_flag_instrs(jc, label).skip(6)) =~= "("@ + label + "-true) \n"@
        + "D=-1 \n"@ + "("@ + label + "-false) \n"@ + "@SP \n"@ + "A=M \n"@ + "M=D \n"@
        + inc_sp_text());
}

proof fn lemma_render_branch_flag(jc: Jump, label: Seq<char>)
    ensures
        render(branch_flag_instrs(jc, label)) == crate::converter::branch_flag_text(
            jump_text(jc),
            label,
        ),
{
    lemma_render_branch_flag_head(jc, label);
    lemma_render_branch_flag_tail(jc, label);
    let b = branch_flag_instrs(jc, label);
    assert(b =~= b.take(6) + b.skip(6));
    lemma_render_concat(b.take(6), b.skip(6));
    assert(render(b) =~= crate::converter::branch_flag_text(jump_text(jc), label));
}

/// The comparison fragments render to exactly the emitted text.
pub proof fn lemma_compare_render(jc: Jump, label: Seq<char>)
    requires
        jc == Jump::JEQ || jc == Jump::JGT || jc == Jump::JLT,
    ensures
        render(compare_instrs(jc, label)) == crate::converter::compare_text(jump_text(jc), label),
{
    assert("M="@ + comp_text(Comp::CMMinusD) + " \n"@ =~= "M=M-D \n"@) by {
        reveal_strlit("M=");
        reveal_strlit("M-D");
        reveal_strlit(" \n");
        reveal_strlit("M=M-D \n");
    }
    lemma_render_binary_op(Comp::CMMinusD, "M=M-D \n"@);
    lemma_render_pop_d();
    lemma_render_branch_flag(jc, label);
    lemma_render_concat(binary_op_instrs(Comp::CMMinusD), pop_d_instrs());
    lemma_render_concat(
        binary_op_instrs(Comp::CMMinusD) + pop_d_instrs(),
        branch_flag_instrs(jc, label),
    );
    assert(render(compare_instrs(jc, label)) =~= crate::converter::compare_text(
        jump_text(jc),
        label,
    ));
}

/// The flag a comparison leaves for operands `x` (pushed first) and `y`.
pub open spec fn cmp_result(jc: Jump, x: u16, y: u16) -> u16 {
    if jump_taken(jc, wsub(x, y)) {
        0xffff
    } else {
        0
    }
}

/// Running a comparison fragment pops its two operands and pushes the flag:
/// all bits set when the branch condition holds of their difference, zero
/// otherwise.
#[verifier::rlimit(100)]
pub proof fn theorem_compare_correct(st: MState, jc: Jump, label: Seq<char>, sp: u16)
    requires
        st.pc == 0,
        jc == Jump::JEQ || jc == Jump::JGT || jc == Jump::JLT,
        st.mem[0] == sp,
        3 <= sp < 0x8000,
    ensures
        ({
            let fin = run_steps(compare_instrs(jc, label), st, 30);
            let x = st.mem[(sp - 2) as u16];
            let y = st.mem[(sp - 1) as u16];
            fin.pc == compare_instrs(jc, label).len() && fin.mem[0] == (sp - 1) as u16
                && fin.mem[(sp - 2) as u16] == cmp_result(jc, x, y) && (forall|k: u16|
                k != 0 && k != (sp - 2) as u16 ==> fin.mem[k] == st.mem[k])
        }),
{
    let prog = compare_instrs(jc, label);
    let lt = label + "-true"@;
    let lf = label + "-false"@;
    assert(prog =~= seq![
        Instr::AtSym("SP"@),
        Instr::C(Some(Dest::RegM), Comp::CMMinus1, Jump::JNone),
        Instr::C(Some(Dest::RegA), Comp::CM, Jump::JNone),
        Instr::C(Some(Dest::RegD), Comp::CM, Jump::JNone),
        Instr::AtSym("SP"@),
        Instr::C(Some(Dest::RegM), Comp::CMMinus1, Jump::JNone),
        Instr::C(Some(Dest::RegA), Comp::CM, Jump::JNone),
        Instr::C(Some(Dest::RegM), Comp::CMMinusD, Jump::JNone),
        Instr::AtSym("SP"@),
        Instr::C(Some(Dest::RegM), Comp::CMPlus1, Jump::JNone),
        Instr::AtSym("SP"@),
        Instr::C(Some(Dest::RegM), Comp::CMMinus1, Jump::JNone),
        Instr::C(Some(Dest::RegA), Comp::CM, Jump::JNone),
        Instr::C(Some(Dest::RegD), Comp::CM, Jump::JNone),
        Instr::AtSym(lt),
        Instr::C(None, Comp::CD, jc),
        Instr::AtNum(0),
        Instr::C(Some(Dest::RegD), Comp::CA, Jump::JNone),
        Instr::AtSym(lf),
        Instr::C(None, Comp::CZero, Jump::JMP),
        Instr::Label(lt),
        Instr::C(Some(Dest::RegD), Comp::CNegOne, Jump::JNone),
        Instr::Label(lf),
        Instr::AtSym("SP"@),
        Instr::C(Some(Dest::RegA), Comp::CM, Jump::JNone),
        Instr::C(Some(Dest::RegM), Comp::CD, Jump::JNone),
        Instr::AtSym("SP"@),
        Instr::C(Some(Dest::RegM), Comp::CMPlus1, Jump::JNone),
    ]);
    assert(prog.len() == 28);
    // The two fresh labels resolve inside the fragment: they are longer
    // than any register name, and they differ from each other in length.
    assert(lt.len() == label.len() + 5 && lf.len() == label.len() + 6) by {
        reveal_strlit("-true");
        reveal_strlit("-false");
    }
    assert(lt != lf);
    proof_register_lengths();
    assert(resolve(prog, lt) == 20) by {
        assert(forall|k: int| 0 <= k < 20 ==> prog[k] != Instr::Label(lt));
        lemma_label_pos_char(prog, lt, 20);
    }
    assert(resolve(prog, lf) == 22) by {
        assert(prog[20] != Instr::Label(lf));
        assert(forall|k: int| 0 <= k < 22 ==> prog[k] != Instr::Label(lf));
        lemma_label_pos_char(prog, lf, 22);
    }
    assert(addr(0) == 0);
    assert(addr(20) == 20);
    assert(addr(22) == 22);
    assert(addr(sp) == sp);
    assert(addr((sp - 1) as u16) == (sp - 1) as u16);
    assert(addr((sp - 2) as u16) == (sp - 2) as u16);
    assert(wsub(sp, 1) == (sp - 1) as u16);
    assert(wsub((sp - 1) as u16, 1) == (sp - 2) as u16);
    assert(wadd((sp - 2) as u16, 1) == (sp - 1) as u16);
    let x = st.mem[(sp - 2) as u16];
    let y = st.mem[(sp - 1) as u16];
    let v = wsub(x, y);
    reveal_with_fuel(run_steps, 31);
    // The subtraction, exactly as in the binary-operator fragment.
    let s1 = do_step(prog, st);
    let s2 = do_step(prog, s1);
    assert(s2.pc == 2 && s2.a == 0 && s2.d == st.d);
    assert(s2.mem == st.mem.insert(0, (sp - 1) as u16));
    let s3 = do_step(prog, s2);
    let s4 = do_step(prog, s3);
    assert(s4.pc == 4 && s4.a == (sp - 1) as u16 && s4.d == y && s4.mem == s2.mem);
    let s5 = do_step(prog, s4);
    let s6 = do_step(prog, s5);
    assert(s6.pc == 6 && s6.a == 0 && s6.d == y);
    assert(s6.mem == s2.mem.insert(0, (sp - 2) as u16));
    let s7 = do_step(prog, s6);
    assert(s7.pc == 7 && s7.a == (sp - 2) as u16 && s7.d == y && s7.mem == s6.mem);
    let s8 = do_step(prog, s7);
    assert(s8.pc == 8 && s8.a == (sp - 2) as u16 && s8.d == y);
    assert(s7.mem[addr(s7.a)] == x);
    assert(s8.mem == s6.mem.insert((sp - 2) as u16, v));
    let s9 = do_step(prog, s8);
    let s10 = do_step(prog, s9);
    assert(s10.pc == 10 && s10.a == 0 && s10.d == y);
    assert(s10.mem == s8.mem.insert(0, (sp - 1) as u16));
    // Pop the difference into D.
    let s11 = do_step(prog, s10);
    let s12 = do_step(prog, s11);
    assert(s12.pc == 12 && s12.a == 0);
    assert(s12.mem == s10.mem.insert(0, (sp - 2) as u16));
    let s13 = do_step(prog, s12);
    assert(s13.pc == 13 && s13.a == (sp - 2) as u16 && s13.mem == s12.mem);
    let s14 = do_step(prog, s13);
    assert(s14.pc == 14 && s14.a == (sp - 2) as u16 && s14.d == v && s14.mem == s12.mem);
    // The branch.
    let s15 = do_step(prog, s14);
    assert(s15.pc == 15 && s15.a == 20 && s15.d == v && s15.mem == s12.mem);
    let s16 = do_step(prog, s15);
    assert(s16.mem == s12.mem && s16.d == v && s16.a == 20);
    let flag = cmp_result(jc, x, y);
    if jump_taken(jc, v) {
        assert(s16.pc == 20);
        let s17 = do_step(prog, s16);
        assert(s17.pc == 21 && s17.mem == s12.mem);
        let s18 = do_step(prog, s17);
        assert(s18.pc == 22 && s18.d == 0xffff && s18.mem == s12.mem);
        let s19 = do_step(prog, s18);
        assert(s19.pc == 23 && s19.d == flag && s19.mem == s12.mem);
        finish_compare(prog, s19, sp, flag, s12.mem, st.mem, x, y, jc, label);
        assert(run_steps(prog, st, 30) == run_steps(prog, s19, 11));
    } else {
        assert(s16.pc == 16);
        let s17 = do_step(prog, s16);
        assert(s17.pc == 17 && s17.a == 0 && s17.mem == s12.mem);
        let s18 = do_step(prog, s17);
        assert(s18.pc == 18 && s18.d == 0 && s18.mem == s12.mem);
        let s19 = do_step(prog, s18);
        assert(s19.pc == 19 && s19.a == 22 && s19.d == 0 && s19.mem == s12.mem);
        let s20 = do_step(prog, s19);
        assert(s20.pc == 22 && s20.d == 0 && s20.mem == s12.mem);
        let s21 = do_step(prog, s20);
        assert(s21.pc == 23 && s21.d == flag && s21.mem == s12.mem);
        finish_compare(prog, s21, sp, flag, s12.mem, st.mem, x, y, jc, label);
        assert(run_steps(prog, st, 30) == run_steps(prog, s21, 10));
    }
}

/// The common tail of a comparison: write the flag and restore `SP`.
#[verifier::rlimit(100)]
proof fn finish_compare(
    prog: Seq<Instr>,
    st: MState,
    sp: u16,
    flag: u16,
    mem12: Map<u16, u16>,
    mem0: Map<u16, u16>,
    x: u16,
    y: u16,
    jc: Jump,
    label: Seq<char>,
)
    requires
        prog == compare_instrs(jc, label),
        st.pc == 23,
        st.d == flag,
        st.mem == mem12,
        3 <= sp < 0x8000,
        mem12 == mem0.insert(0, (sp - 1) as u16).insert(0, (sp - 2) as u16).insert(
            (sp - 2) as u16,
            wsub(x, y),
        ).insert(0, (sp - 1) as u16).insert(0, (sp - 2) as u16),
    ensures
        ({
            let fin = run_steps(prog, st, 11);
            fin.pc == 28 && fin.mem[0] == (sp - 1) as u16 && fin.mem[(sp - 2) as u16] == flag && (
            forall|k: u16| k != 0 && k != (sp - 2) as u16 ==> fin.mem[k] == mem0[k])
        }),
{
    assert(prog =~= binary_op_instrs(Comp::CMMinusD) + pop_d_instrs() + branch_flag_instrs(
        jc,
        label,
    ));
    assert(prog.len() == 28);
    assert(prog[23] == Instr::AtSym("SP"@));
    assert(prog[24] == Instr::C(Some(Dest::RegA), Comp::CM, Jump::JNone));
    assert(prog[25] == Instr::C(Some(Dest::RegM), Comp::CD, Jump::JNone));
    assert(prog[26] == Instr::AtSym("SP"@));
    assert(prog[27] == Instr::C(Some(Dest::RegM), Comp::CMPlus1, Jump::JNone));
    assert(addr(0) == 0);
    assert(addr((sp - 2) as u16) == (sp - 2) as u16);
    assert(wadd((sp - 2) as u16, 1) == (sp - 1) as u16);
    reveal_with_fuel(run_steps, 13);
    let s24 = do_step(prog, st);
    assert(s24.pc == 24 && s24.a == 0 && s24.d == flag && s24.mem == st.mem);
    let s25 = do_step(prog, s24);
    assert(s25.pc == 25 && s25.a == (sp - 2) as u16 && s25.d == flag && s25.mem == st.mem);
    let s26 = do_step(prog, s25);
    assert(s26.pc == 26 && s26.mem == st.mem.insert((sp - 2) as u16, flag));
    let s27 = do_step(prog, s26);
    assert(s27.pc == 27 && s27.a == 0 && s27.mem == s26.mem);
    let s28 = do_step(prog, s27);
    assert(s28.pc == 28);
    assert(s28.mem == s26.mem.insert(0, (sp - 1) as u16));
    assert(run_steps(prog, st, 11) == s28);
}

/// The nine register names are pairwise distinct and shorter than five
/// characters, so the label branch of `resolve` is the one that fires for
/// any generated label.
proof fn proof_register_lengths()
    ensures
        "SP"@.len() == 2,
        "LCL"@.len() == 3,
        "ARG"@.len() == 3,
        "THIS"@.len() == 4,
        "THAT"@.len() == 4,
        "R5"@.len() == 2,
        "R13"@.len() == 3,
        "R14"@.len() == 3,
        "R15"@.len() == 3,
        "SP"@ != "LCL"@ && "SP"@ != "ARG"@ && "SP"@ != "THIS"@ && "SP"@ != "THAT"@ && "SP"@
            != "R5"@ && "SP"@ != "R13"@ && "SP"@ != "R14"@ && "SP"@ != "R15"@,
        "LCL"@ != "ARG"@ && "LCL"@ != "THIS"@ && "LCL"@ != "THAT"@ && "LCL"@ != "R5"@ && "LCL"@
            != "R13"@ && "LCL"@ != "R14"@ && "LCL"@ != "R15"@,
        "ARG"@ != "THIS"@ && "ARG"@ != "THAT"@ && "ARG"@ != "R5"@ && "ARG"@ != "R13"@ && "ARG"@
            != "R14"@ && "ARG"@ != "R15"@,
        "THIS"@ != "THAT"@ && "THIS"@ != "R5"@ && "THIS"@ != "R13"@ && "THIS"@ != "R14"@
            && "THIS"@ != "R15"@,
        "THAT"@ != "R5"@ && "THAT"@ != "R13"@ && "THAT"@ != "R14"@ && "THAT"@ != "R15"@,
        "R5"@ != "R13"@ && "R5"@ != "R14"@ && "R5"@ != "R15"@,
        "R13"@ != "R14"@ && "R13"@ != "R15"@,
        "R14"@ != "R15"@,
{
    reveal_strlit("SP");
    reveal_strlit("LCL");
    reveal_strlit("ARG");
    reveal_strlit("THIS");
    reveal_strlit("THAT");
    reveal_strlit("R5");
    reveal_strlit("R13");
    reveal_strlit("R14");
    reveal_strlit("R15");
    assert("SP"@.len() == 2);
    assert("LCL"@.len() == 3);
    assert("ARG"@.len() == 3);
    assert("THIS"@.len() == 4);
    assert("THAT"@.len() == 4);
    assert("R5"@.len() == 2);
    assert("R13"@.len() == 3);
    assert("R14"@.len() == 3);
    assert("R15"@.len() == 3);
    assert("SP"@[0] == 'S' && "R5"@[0] == 'R');
    assert("LCL"@[0] == 'L' && "ARG"@[0] == 'A' && "R13"@[0] == 'R');
    assert("R13"@[2] == '3' && "R14"@[2] == '4' && "R15"@[2] == '5');
    assert("THIS"@[2] == 'I' && "THAT"@[2] == 'A');
}

// ---------------------------------------------------------------------------
// The flags and sums, read as two's-complement numbers.
// ---------------------------------------------------------------------------

/// Reduction to the representable range is the identity there.
pub proof fn lemma_wrap16_id(z: int)
    requires
        -0x8000 <= z < 0x8000,
    ensures
        wrap16(z) == z,
{
    assert((z + 0x8000) % 0x10000 == z + 0x8000);
}

/// Wrapping subtraction of bit patterns is subtraction of their signed
/// values, up to range reduction.
pub proof fn lemma_wsub_signed(x: u16, y: u16)
    ensures
        signed(wsub(x, y)) == wrap16(signed(x) - signed(y)),
{
    let d = (x as int) - (y as int) + 0x10000;
    assert(0 < d < 0x20000);
    if d < 0x10000 {
        assert(d % 0x10000 == d);
    } else {
        assert(d % 0x10000 == d - 0x10000);
    }
    let sd = signed(x) - signed(y) + 0x8000;
    if 0 <= sd < 0x10000 {
        assert(sd % 0x10000 == sd);
    } else if sd < 0 {
        assert(sd + 0x10000 == (sd % 0x10000)) by {
            assert(0 <= sd + 0x10000 < 0x10000);
        }
    } else {
        assert(sd - 0x10000 == (sd % 0x10000)) by {
            assert(0 <= sd - 0x10000 < 0x10000);
        }
    }
}

/// Wrapping addition of bit patterns is addition of their signed values, up
/// to range reduction.
pub proof fn lemma_wadd_signed(x: u16, y: u16)
    ensures
        signed(wadd(x, y)) == wrap16(signed(x) + signed(y)),
{
    let d = (x as int) + (y as int);
    assert(0 <= d < 0x20000);
    if d < 0x10000 {
        assert(d % 0x10000 == d);
    } else {
        assert(d % 0x10000 == d - 0x10000);
    }
    let sd = signed(x) + signed(y) + 0x8000;
    if 0 <= sd < 0x10000 {
        assert(sd % 0x10000 == sd);
    } else if sd < 0 {
        assert(sd + 0x10000 == (sd % 0x10000)) by {
            assert(0 <= sd + 0x10000 < 0x10000);
        }
    } else {
        assert(sd - 0x10000 == (sd % 0x10000)) by {
            assert(0 <= sd - 0x10000 < 0x10000);
        }
    }
}

/// `eq` leaves all bits set exactly when the operands are equal — for every
/// 16-bit pair, overflow cannot confuse it.
pub proof fn theorem_eq_flag(x: u16, y: u16)
    ensures
        cmp_result(Jump::JEQ, x, y) == (if x == y {
            0xffffu16
        } else {
            0u16
        }),
{
    if x == y {
        assert(wsub(x, y) == 0);
    } else {
        assert(wsub(x, y) != 0);
    }
}

/// `gt` leaves all bits set exactly when the first-pushed operand is the
/// greater, as long as the signed difference is representable.  Outside
/// that range the subtract-and-test idiom overflows: for the pair with
/// signed values 20000 and -20000 the difference wraps negative and the
/// flag comes out wrong, so those pairs are excluded.
pub proof fn theorem_gt_flag(x: u16, y: u16)
    requires
        -0x8000 <= signed(x) - signed(y) < 0x8000,
    ensures
        cmp_result(Jump::JGT, x, y) == (if signed(x) > signed(y) {
            0xffffu16
        } else {
            0u16
        }),
{
    lemma_wsub_signed(x, y);
    lemma_wrap16_id(signed(x) - signed(y));
}

/// `lt`, symmetrically.
pub proof fn theorem_lt_flag(x: u16, y: u16)
    requires
        -0x8000 <= signed(x) - signed(y) < 0x8000,
    ensures
        cmp_result(Jump::JLT, x, y) == (if signed(x) < signed(y) {
            0xffffu16
        } else {
            0u16
        }),
{
    lemma_wsub_signed(x, y);
    lemma_wrap16_id(signed(x) - signed(y));
}

// ---------------------------------------------------------------------------
// The calling convention: call.
// ---------------------------------------------------------------------------

/// Push the contents of the register at cell `r`.
pub open spec fn push_reg_instrs(name: Seq<char>) -> Seq<Instr> {
    seq![
        Instr::AtSym(name),
        Instr::C(Some(Dest::RegD), Comp::CM, Jump::JNone),
        Instr::AtSym("SP"@),
        Instr::C(Some(Dest::RegA), Comp::CM, Jump::JNone),
        Instr::C(Some(Dest::RegM), Comp::CD, Jump::JNone),
        Instr::AtSym("SP"@),
        Instr::C(Some(Dest::RegM), Comp::CMPlus1, Jump::JNone),
    ]
}

/// The `call f n` prologue as instructions; `ra` is the fresh
/// return-address label.
pub open spec fn call_instrs(f: Seq<char>, n: u16, ra: Seq<char>) -> Seq<Instr> {
    seq![
        Instr::AtSym(ra),
        Instr::C(Some(Dest::RegD), Comp::CA, Jump::JNone),
        Instr::AtSym("SP"@),
        Instr::C(Some(Dest::RegA), Comp::CM, Jump::JNone),
        Instr::C(Some(Dest::RegM), Comp::CD, Jump::JNone),
        Instr::AtSym("SP"@),
        Instr::C(Some(Dest::RegM), Comp::CMPlus1, Jump::JNone),
    ] + push_reg_instrs("LCL"@) + push_reg_instrs("ARG"@) + push_reg_instrs("THIS"@)
        + push_reg_instrs("THAT"@) + seq![
        Instr::AtSym("SP"@),
        Instr::C(Some(Dest::RegD), Comp::CM, Jump::JNone),
        Instr::AtNum(n),
        Instr::C(Some(Dest::RegD), Comp::CDMinusA, Jump::JNone),
        Instr::AtNum(5),
        Instr::C(Some(Dest::RegD), Comp::CDMinusA, Jump::JNone),
        Instr::AtSym("ARG"@),
        Instr::C(Some(Dest::RegM), Comp::CD, Jump::JNone),
        Instr::AtSym("SP"@),
        Instr::C(Some(Dest::RegD), Comp::CM, Jump::JNone),
        Instr::AtSym("LCL"@),
        Instr::C(Some(Dest::RegM), Comp::CD, Jump::JNone),
        Instr::AtSym(f),
        Instr::C(None, Comp::CZero, Jump::JMP),
        Instr::Label(ra),
    ]
}

/// One register push executed: seven instructions, advancing `SP`.
proof fn lemma_push_reg_steps(
    prog: Seq<Instr>,
    st: MState,
    name: Seq<char>,
    cell: u16,
    sp: u16,
    fuel: nat,
) -> (r: MState)
    requires
        0 <= st.pc,
        st.pc + 7 <= prog.len(),
        prog.subrange(st.pc, st.pc + 7) == push_reg_instrs(name),
        resolve(prog, name) == cell,
        cell < 16,
        st.mem[0] == sp,
        16 <= sp,
        sp + 1 < 0x8000,
        fuel >= 7,
    ensures
        run_steps(prog, st, fuel) == run_steps(prog, r, (fuel - 7) as nat),
        r.pc == st.pc + 7,
        r.a == 0,
        r.d == st.mem[cell],
        r.mem == st.mem.insert(sp, st.mem[cell]).insert(0, (sp + 1) as u16),
{
    reveal_with_fuel(run_steps, 9);
    assert(addr(0) == 0);
    assert(addr(cell) == cell);
    assert(addr(sp) == sp);
    assert(wadd(sp, 1) == (sp + 1) as u16);
    assert(prog[st.pc] == Instr::AtSym(name));
    assert(prog[st.pc + 1] == Instr::C(Some(Dest::RegD), Comp::CM, Jump::JNone));
    assert(prog[st.pc + 2] == Instr::AtSym("SP"@));
    assert(prog[st.pc + 3] == Instr::C(Some(Dest::RegA), Comp::CM, Jump::JNone));
    assert(prog[st.pc + 4] == Instr::C(Some(Dest::RegM), Comp::CD, Jump::JNone));
    assert(prog[st.pc + 5] == Instr::AtSym("SP"@));
    assert(prog[st.pc + 6] == Instr::C(Some(Dest::RegM), Comp::CMPlus1, Jump::JNone));
    let v = st.mem[cell];
    let s1 = do_step(prog, st);
    assert(s1.pc == st.pc + 1 && s1.a == cell && s1.d == st.d && s1.mem == st.mem);
    let s2 = do_step(prog, s1);
    assert(s2.pc == st.pc + 2 && s2.a == cell && s2.d == v && s2.mem == st.mem);
    let s3 = do_step(prog, s2);
    assert(s3.pc == st.pc + 3 && s3.a == 0 && s3.d == v && s3.mem == st.mem);
    let s4 = do_step(prog, s3);
    assert(s4.pc == st.pc + 4 && s4.a == sp && s4.d == v && s4.mem == st.mem);
    let s5 = do_step(prog, s4);
    assert(s5.pc == st.pc + 5 && s5.a == sp && s5.d == v);
    assert(s5.mem == st.mem.insert(sp, v));
    let s6 = do_step(prog, s5);
    assert(s6.pc == st.pc + 6 && s6.a == 0 && s6.d == v && s6.mem == s5.mem);
    assert(s6.mem[0] == sp);
    let s7 = do_step(prog, s6);
    assert(s7.pc == st.pc + 7 && s7.a == 0 && s7.d == v);
    assert(s7.mem == st.mem.insert(sp, v).insert(0, (sp + 1) as u16));
    assert(run_steps(prog, st, fuel) == run_steps(prog, s7, (fuel - 7) as nat));
    s7
}

/// Running the `call` prologue pushes the five-word frame — return address,
/// then the caller's `LCL`, `ARG`, `THIS`, `THAT` — repoints `ARG` to the
/// first argument and `LCL` to the first local slot, and jumps to the
/// function.
#[verifier::rlimit(100)]
pub proof fn lemma_call_effect(st: MState, f: Seq<char>, n: u16, ra: Seq<char>, sp: u16)
    requires
        st.pc == 0,
        st.mem[0] == sp,
        16 <= sp,
        sp + 5 < 0x8000,
        n + 16 <= sp,
        !is_register_name(f),
        !is_register_name(ra),
        f != ra,
    ensures
        ({
            let prog = call_instrs(f, n, ra);
            let fin = run_steps(prog, st, 50);
            fin.pc == 50 && fin.mem[0] == (sp + 5) as u16 && fin.mem[sp] == resolve(prog, ra)
                && resolve(prog, ra) == 49 && fin.mem[(sp + 1) as u16] == st.mem[1] && fin.mem[(sp
                + 2) as u16] == st.mem[2] && fin.mem[(sp + 3) as u16] == st.mem[3] && fin.mem[(sp
                + 4) as u16] == st.mem[4] && fin.mem[2] == (sp - n) as u16 && fin.mem[1] == (sp
                + 5) as u16 && (forall|k: u16|
                k != 0 && k != 1 && k != 2 && !(sp <= k < sp + 5) ==> fin.mem[k] == st.mem[k])
        }),
{
    let prog = call_instrs(f, n, ra);
    assert(prog =~= seq![
        Instr::AtSym(ra),
        Instr::C(Some(Dest::RegD), Comp::CA, Jump::JNone),
        Instr::AtSym("SP"@),
        Instr::C(Some(Dest::RegA), Comp::CM, Jump::JNone),
        Instr::C(Some(Dest::RegM), Comp::CD, Jump::JNone),
        Instr::AtSym("SP"@),
        Instr::C(Some(Dest::RegM), Comp::CMPlus1, Jump::JNone),
    ] + push_reg_instrs("LCL"@) + push_reg_instrs("ARG"@) + push_reg_instrs("THIS"@)
        + push_reg_instrs("THAT"@) + seq![
        Instr::AtSym("SP"@),
        Instr::C(Some(Dest::RegD), Comp::CM, Jump::JNone),
        Instr::AtNum(n),
        Instr::C(Some(Dest::RegD), Comp::CDMinusA, Jump::JNone),
        Instr::AtNum(5),
        Instr::C(Some(Dest::RegD), Comp::CDMinusA, Jump::JNone),
        Instr::AtSym("ARG"@),
        Instr::C(Some(Dest::RegM), Comp::CD, Jump::JNone),
        Instr::AtSym("SP"@),
        Instr::C(Some(Dest::RegD), Comp::CM, Jump::JNone),
        Instr::AtSym("LCL"@),
        Instr::C(Some(Dest::RegM), Comp::CD, Jump::JNone),
        Instr::AtSym(f),
        Instr::C(None, Comp::CZero, Jump::JMP),
        Instr::Label(ra),
    ]);
    assert(prog.len() == 50);
    assert(resolve(prog, ra) == 49) by {
        assert(forall|k: int| 0 <= k < 49 ==> prog[k] != Instr::Label(ra));
        lemma_label_pos_char(prog, ra, 49);
    }
    assert(resolve(prog, f) == 50) by {
        assert(forall|k: int| 0 <= k < prog.len() ==> prog[k] != Instr::Label(f));
        lemma_label_pos_none(prog, f);
    }
    proof_register_lengths();
    assert(addr(0) == 0);
    assert(addr(sp) == sp);
    assert(wadd(sp, 1) == (sp + 1) as u16);
    reveal_with_fuel(run_steps, 10);
    // Push the return address.
    let s1 = do_step(prog, st);
    assert(s1.pc == 1 && s1.a == 49 && s1.mem == st.mem);
    let s2 = do_step(prog, s1);
    assert(s2.pc == 2 && s2.a == 49 && s2.d == 49 && s2.mem == st.mem);
    let s3 = do_step(prog, s2);
    assert(s3.pc == 3 && s3.a == 0 && s3.d == 49 && s3.mem == st.mem);
    let s4 = do_step(prog, s3);
    assert(s4.pc == 4 && s4.a == sp && s4.d == 49 && s4.mem == st.mem);
    let s5 = do_step(prog, s4);
    assert(s5.pc == 5 && s5.a == sp && s5.d == 49);
    assert(s5.mem == st.mem.insert(sp, 49));
    let s6 = do_step(prog, s5);
    assert(s6.pc == 6 && s6.a == 0 && s6.mem == s5.mem);
    assert(s6.mem[0] == sp);
    let s7 = do_step(prog, s6);
    assert(s7.pc == 7);
    assert(s7.mem == st.mem.insert(sp, 49).insert(0, (sp + 1) as u16));
    assert(run_steps(prog, st, 50) == run_steps(prog, s7, 43));
    // Push the caller's four segment registers.
    assert(prog.subrange(7, 14) =~= push_reg_instrs("LCL"@));
    assert(prog.subrange(14, 21) =~= push_reg_instrs("ARG"@));
    assert(prog.subrange(21, 28) =~= push_reg_instrs("THIS"@));
    assert(prog.subrange(28, 35) =~= push_reg_instrs("THAT"@));
    assert(s7.mem[0] == (sp + 1) as u16 && s7.mem[1] == st.mem[1]);
    let pr1 = lemma_push_reg_steps(prog, s7, "LCL"@, 1, (sp + 1) as u16, 43);
    assert(pr1.mem[0] == (sp + 2) as u16 && pr1.mem[2] == st.mem[2]);
    let pr2 = lemma_push_reg_steps(prog, pr1, "ARG"@, 2, (sp + 2) as u16, 36);
    assert(pr2.mem[0] == (sp + 3) as u16 && pr2.mem[3] == st.mem[3]);
    let pr3 = lemma_push_reg_steps(prog, pr2, "THIS"@, 3, (sp + 3) as u16, 29);
    assert(pr3.mem[0] == (sp + 4) as u16 && pr3.mem[4] == st.mem[4]);
    let pr4 = lemma_push_reg_steps(prog, pr3, "THAT"@, 4, (sp + 4) as u16, 22);
    assert(pr4.pc == 35 && pr4.mem[0] == (sp + 5) as u16);
    assert(run_steps(prog, st, 50) == run_steps(prog, pr4, 15));
    lemma_call_tail(prog, pr4, f, n, ra, (sp + 5) as u16);
    let fin = run_steps(prog, pr4, 15);
    assert(fin.mem == pr4.mem.insert(2, wsub(wsub((sp + 5) as u16, n), 5)).insert(
        1,
        (sp + 5) as u16,
    ));
    assert(wsub(wsub((sp + 5) as u16, n), 5) == (sp - n) as u16);
    assert(run_steps(prog, st, 50) == fin);
    assert(fin.mem[0] == (sp + 5) as u16);
    assert(fin.mem[sp] == 49);
    assert(fin.mem[(sp + 1) as u16] == st.mem[1]);
    assert(fin.mem[(sp + 2) as u16] == st.mem[2]);
    assert(fin.mem[(sp + 3) as u16] == st.mem[3]);
    assert(fin.mem[(sp + 4) as u16] == st.mem[4]);
}

/// The tail of the `call` prologue: set `ARG` and `LCL`, jump to the
/// function.
#[verifier::rlimit(60)]
proof fn lemma_call_tail(
    prog: Seq<Instr>,
    st: MState,
    f: Seq<char>,
    n: u16,
    ra: Seq<char>,
    sp5: u16,
)
    requires
        prog == call_instrs(f, n, ra),
        st.pc == 35,
        st.mem[0] == sp5,
        n + 21 <= sp5,
        sp5 < 0x8000,
        !is_register_name(f),
        f != ra,
    ensures
        ({
            let fin = run_steps(prog, st, 15);
            fin.pc == 50 && fin.mem == st.mem.insert(2, wsub(wsub(sp5, n), 5)).insert(1, sp5)
        }),
{
    assert(prog =~= seq![
        Instr::AtSym(ra),
        Instr::C(Some(Dest::RegD), Comp::CA, Jump::JNone),
        Instr::AtSym("SP"@),
        Instr::C(Some(Dest::RegA), Comp::CM, Jump::JNone),
        Instr::C(Some(Dest::RegM), Comp::CD, Jump::JNone),
        Instr::AtSym("SP"@),
        Instr::C(Some(Dest::RegM), Comp::CMPlus1, Jump::JNone),
    ] + push_reg_instrs("LCL"@) + push_reg_instrs("ARG"@) + push_reg_instrs("THIS"@)
        + push_reg_instrs("THAT"@) + seq![
        Instr::AtSym("SP"@),
        Instr::C(Some(Dest::RegD), Comp::CM, Jump::JNone),
        Instr::AtNum(n),
        Instr::C(Some(Dest::RegD), Comp::CDMinusA, Jump::JNone),
        Instr::AtNum(5),
        Instr::C(Some(Dest::RegD), Comp::CDMinusA, Jump::JNone),
        Instr::AtSym("ARG"@),
        Instr::C(Some(Dest::RegM), Comp::CD, Jump::JNone),
        Instr::AtSym("SP"@),
        Instr::C(Some(Dest::RegD), Comp::CM, Jump::JNone),
        Instr::AtSym("LCL"@),
        Instr::C(Some(Dest::RegM), Comp::CD, Jump::JNone),
        Instr::AtSym(f),
        Instr::C(None, Comp::CZero, Jump::JMP),
        Instr::Label(ra),
    ]);
    assert(prog.len() == 50);
    proof_register_lengths();
    assert(resolve(prog, f) == 50) by {
        assert(forall|k: int| 0 <= k < prog.len() ==> prog[k] != Instr::Label(f));
        lemma_label_pos_none(prog, f);
    }
    assert(addr(0) == 0);
    reveal_with_fuel(run_steps, 17);
    let q1 = do_step(prog, st);
    assert(q1.pc == 36 && q1.a == 0 && q1.mem == st.mem);
    let q2 = do_step(prog, q1);
    assert(q2.pc == 37 && q2.d == sp5 && q2.mem == st.mem);
    let q3 = do_step(prog, q2);
    assert(q3.pc == 38 && q3.a == n && q3.d == sp5 && q3.mem == st.mem);
    let q4 = do_step(prog, q3);
    assert(q4.pc == 39 && q4.d == wsub(sp5, n) && q4.mem == st.mem);
    let q5 = do_step(prog, q4);
    assert(q5.pc == 40 && q5.a == 5 && q5.d == wsub(sp5, n) && q5.mem == st.mem);
    let q6 = do_step(prog, q5);
    assert(q6.pc == 41 && q6.d == wsub(wsub(sp5, n), 5) && q6.mem == st.mem);
    let q7 = do_step(prog, q6);
    assert(q7.pc == 42 && q7.a == 2 && q7.d == wsub(wsub(sp5, n), 5) && q7.mem == st.mem);
    let q8 = do_step(prog, q7);
    assert(q8.pc == 43);
    assert(q8.mem == st.mem.insert(2, wsub(wsub(sp5, n), 5)));
    let q9 = do_step(prog, q8);
    assert(q9.pc == 44 && q9.a == 0 && q9.mem == q8.mem);
    assert(q9.mem[0] == sp5);
    let q10 = do_step(prog, q9);
    assert(q10.pc == 45 && q10.d == sp5 && q10.mem == q8.mem);
    let q11 = do_step(prog, q10);
    assert(q11.pc == 46 && q11.a == 1 && q11.d == sp5 && q11.mem == q8.mem);
    let q12 = do_step(prog, q11);
    assert(q12.pc == 47);
    assert(q12.mem == q8.mem.insert(1, sp5));
    let q13 = do_step(prog, q12);
    assert(q13.pc == 48 && q13.a == 50 && q13.mem == q12.mem);
    let q14 = do_step(prog, q13);
    assert(q14.pc == 50 && q14.mem == q12.mem);
    assert(run_steps(prog, st, 15) == q14);
}

/// The nine names `resolve` treats as registers.
pub open spec fn is_register_name(s: Seq<char>) -> bool {
    s == "SP"@ || s == "LCL"@ || s == "ARG"@ || s == "THIS"@ || s == "THAT"@ || s == "R5"@ || s
        == "R13"@ || s == "R14"@ || s == "R15"@
}

/// A label nowhere defined resolves to the program's length.
proof fn lemma_label_pos_none(prog: Seq<Instr>, s: Seq<char>)
    requires
        forall|k: int| 0 <= k < prog.len() ==> prog[k] != Instr::Label(s),
    ensures
        label_pos(prog, s) == prog.len(),
    decreases prog.len(),
{
    if prog.len() > 0 {
        assert(forall|k: int|
            0 <= k < prog.len() - 1 ==> prog.drop_first()[k] == prog[k + 1] && prog[k + 1]
                != Instr::Label(s));
        lemma_label_pos_none(prog.drop_first(), s);
    }
}

// ---------------------------------------------------------------------------
// The calling convention: return.
// ---------------------------------------------------------------------------

/// Restore one segment register from the frame walked down by `R14`.
pub open spec fn restore_reg_instrs(name: Seq<char>) -> Seq<Instr> {
    seq![
        Instr::AtSym("R14"@),
        Instr::C(Some(Dest::RegM), Comp::CMMinus1, Jump::JNone),
        Instr::C(Some(Dest::RegA), Comp::CM, Jump::JNone),
        Instr::C(Some(Dest::RegD), Comp::CM, Jump::JNone),
        Instr::AtSym(name),
        Instr::C(Some(Dest::RegM), Comp::CD, Jump::JNone),
    ]
}

/// The `return` epilogue as instructions.
pub open spec fn return_instrs() -> Seq<Instr> {
    seq![
        Instr::AtSym("LCL"@),
        Instr::C(Some(Dest::RegD), Comp::CM, Jump::JNone),
        Instr::AtSym("R14"@),
        Instr::C(Some(Dest::RegM), Comp::CD, Jump::JNone),
        Instr::AtSym("R14"@),
        Instr::C(Some(Dest::RegD), Comp::CM, Jump::JNone),
        Instr::AtNum(5),
        Instr::C(Some(Dest::RegA), Comp::CDMinusA, Jump::JNone),
        Instr::C(Some(Dest::RegD), Comp::CM, Jump::JNone),
        Instr::AtSym("R15"@),
        Instr::C(Some(Dest::RegM), Comp::CD, Jump::JNone),
        Instr::AtSym("SP"@),
        Instr::C(Some(Dest::RegM), Comp::CMMinus1, Jump::JNone),
        Instr::C(Some(Dest::RegA), Comp::CM, Jump::JNone),
        Instr::C(Some(Dest::RegD), Comp::CM, Jump::JNone),
        Instr::AtSym("ARG"@),
        Instr::C(Some(Dest::RegA), Comp::CM, Jump::JNone),
        Instr::C(Some(Dest::RegM), Comp::CD, Jump::JNone),
        Instr::AtSym("ARG"@),
        Instr::C(Some(Dest::RegD), Comp::CM, Jump::JNone),
        Instr::C(Some(Dest::RegD), Comp::CDPlus1, Jump::JNone),
        Instr::AtSym("SP"@),
        Instr::C(Some(Dest::RegM), Comp::CD, Jump::JNone),
    ] + restore_reg_instrs("THAT"@) + restore_reg_instrs("THIS"@) + restore_reg_instrs("ARG"@)
        + restore_reg_instrs("LCL"@) + seq![
        Instr::AtSym("R15"@),
        Instr::C(Some(Dest::RegA), Comp::CM, Jump::JNone),
        Instr::C(None, Comp::CZero, Jump::JMP),
    ]
}

/// One register restore executed: six instructions, walking `R14` down.
proof fn lemma_restore_reg_steps(
    prog: Seq<Instr>,
    st: MState,
    name: Seq<char>,
    cell: u16,
    w: u16,
    fuel: nat,
) -> (r: MState)
    requires
        0 <= st.pc,
        st.pc + 6 <= prog.len(),
        prog.subrange(st.pc, st.pc + 6) == restore_reg_instrs(name),
        resolve(prog, name) == cell,
        resolve(prog, "R14"@) == 14,
        cell <= 4,
        st.mem[14] == w,
        17 <= w < 0x8000,
        fuel >= 6,
    ensures
        run_steps(prog, st, fuel) == run_steps(prog, r, (fuel - 6) as nat),
        r.pc == st.pc + 6,
        r.d == st.mem[(w - 1) as u16],
        r.mem == st.mem.insert(14, (w - 1) as u16).insert(cell, st.mem[(w - 1) as u16]),
{
    reveal_with_fuel(run_steps, 8);
    assert(addr(14) == 14);
    assert(addr((w - 1) as u16) == (w - 1) as u16);
    assert(addr(cell) == cell);
    assert(wsub(w, 1) == (w - 1) as u16);
    assert(prog[st.pc] == Instr::AtSym("R14"@));
    assert(prog[st.pc + 1] == Instr::C(Some(Dest::RegM), Comp::CMMinus1, Jump::JNone));
    assert(prog[st.pc + 2] == Instr::C(Some(Dest::RegA), Comp::CM, Jump::JNone));
    assert(prog[st.pc + 3] == Instr::C(Some(Dest::RegD), Comp::CM, Jump::JNone));
    assert(prog[st.pc + 4] == Instr::AtSym(name));
    assert(prog[st.pc + 5] == Instr::C(Some(Dest::RegM), Comp::CD, Jump::JNone));
    let v = st.mem[(w - 1) as u16];
    let s1 = do_step(prog, st);
    assert(s1.pc == st.pc + 1 && s1.a == 14 && s1.d == st.d && s1.mem == st.mem);
    let s2 = do_step(prog, s1);
    assert(s2.pc == st.pc + 2 && s2.a == 14);
    assert(s2.mem == st.mem.insert(14, (w - 1) as u16));
    let s3 = do_step(prog, s2);
    assert(s3.pc == st.pc + 3 && s3.a == (w - 1) as u16 && s3.mem == s2.mem);
    assert(s3.mem[addr(s3.a)] == v);
    let s4 = do_step(prog, s3);
    assert(s4.pc == st.pc + 4 && s4.d == v && s4.mem == s2.mem);
    let s5 = do_step(prog, s4);
    assert(s5.pc == st.pc + 5 && s5.a == cell && s5.d == v && s5.mem == s2.mem);
    let s6 = do_step(prog, s5);
    assert(s6.pc == st.pc + 6 && s6.d == v);
    assert(s6.mem == st.mem.insert(14, (w - 1) as u16).insert(cell, v));
    assert(run_steps(prog, st, fuel) == run_steps(prog, s6, (fuel - 6) as nat));
    s6
}

/// The head of the epilogue: park the frame pointer in `R14` and the return
/// address in `R15`, move the return value to `ARG[0]`, reposition `SP`.
#[verifier::rlimit(100)]
proof fn lemma_return_head(prog: Seq<Instr>, st: MState, sp: u16, lcl: u16, argp: u16, fuel: nat)
 -> (r: MState)
    requires
        prog == return_instrs(),
        st.pc == 0,
        st.mem[0] == sp,
        st.mem[1] == lcl,
        st.mem[2] == argp,
        21 <= lcl < sp,
        sp < 0x8000,
        16 <= argp,
        argp + 5 <= lcl,
        fuel >= 23,
    ensures
        run_steps(prog, st, fuel) == run_steps(prog, r, (fuel - 23) as nat),
        r.pc == 23,
        r.mem == st.mem.insert(14, lcl).insert(15, st.mem[(lcl - 5) as u16]).insert(
            0,
            (sp - 1) as u16,
        ).insert(argp, st.mem[(sp - 1) as u16]).insert(0, (argp + 1) as u16),
{
    proof_register_lengths();
    assert(prog.len() == 50);
    assert(prog[0] == Instr::AtSym("LCL"@));
    assert(prog[6] == Instr::AtNum(5));
    assert(addr(0) == 0);
    assert(addr(1) == 1);
    assert(addr(2) == 2);
    assert(addr(14) == 14);
    assert(addr(15) == 15);
    assert(addr(sp) == sp);
    assert(addr(argp) == argp);
    assert(addr((lcl - 5) as u16) == (lcl - 5) as u16);
    assert(addr((sp - 1) as u16) == (sp - 1) as u16);
    assert(wsub(lcl, 5) == (lcl - 5) as u16);
    assert(wsub(sp, 1) == (sp - 1) as u16);
    assert(wadd(argp, 1) == (argp + 1) as u16);
    let retaddr = st.mem[(lcl - 5) as u16];
    let retval = st.mem[(sp - 1) as u16];
    reveal_with_fuel(run_steps, 25);
    let s1 = do_step(prog, st);
    assert(s1.pc == 1 && s1.a == 1 && s1.mem == st.mem);
    let s2 = do_step(prog, s1);
    assert(s2.pc == 2 && s2.d == lcl && s2.mem == st.mem);
    let s3 = do_step(prog, s2);
    assert(s3.pc == 3 && s3.a == 14 && s3.d == lcl && s3.mem == st.mem);
    let s4 = do_step(prog, s3);
    assert(s4.pc == 4 && s4.d == lcl);
    assert(s4.mem == st.mem.insert(14, lcl));
    let s5 = do_step(prog, s4);
    assert(s5.pc == 5 && s5.a == 14 && s5.mem == s4.mem);
    let s6 = do_step(prog, s5);
    assert(s6.pc == 6 && s6.d == lcl && s6.mem == s4.mem);
    let s7 = do_step(prog, s6);
    assert(s7.pc == 7 && s7.a == 5 && s7.d == lcl && s7.mem == s4.mem);
    let s8 = do_step(prog, s7);
    assert(s8.pc == 8 && s8.a == (lcl - 5) as u16 && s8.mem == s4.mem);
    let s9 = do_step(prog, s8);
    assert(s9.pc == 9 && s9.d == retaddr && s9.mem == s4.mem);
    let s10 = do_step(prog, s9);
    assert(s10.pc == 10 && s10.a == 15 && s10.d == retaddr && s10.mem == s4.mem);
    let s11 = do_step(prog, s10);
    assert(s11.pc == 11 && s11.d == retaddr);
    assert(s11.mem == s4.mem.insert(15, retaddr));
    let s12 = do_step(prog, s11);
    assert(s12.pc == 12 && s12.a == 0 && s12.mem == s11.mem);
    assert(s12.mem[0] == sp);
    let s13 = do_step(prog, s12);
    assert(s13.pc == 13);
    assert(s13.mem == s11.mem.insert(0, (sp - 1) as u16));
    let s14 = do_step(prog, s13);
    assert(s14.pc == 14 && s14.a == (sp - 1) as u16 && s14.mem == s13.mem);
    let s15 = do_step(prog, s14);
    assert(s15.pc == 15 && s15.d == retval && s15.mem == s13.mem);
    let s16 = do_step(prog, s15);
    assert(s16.pc == 16 && s16.a == 2 && s16.d == retval && s16.mem == s13.mem);
    let s17 = do_step(prog, s16);
    assert(s17.pc == 17 && s17.a == argp && s17.d == retval && s17.mem == s13.mem);
    let s18 = do_step(prog, s17);
    assert(s18.pc == 18);
    assert(s18.mem == s13.mem.insert(argp, retval));
    let s19 = do_step(prog, s18);
    assert(s19.pc == 19 && s19.a == 2 && s19.mem == s18.mem);
    let s20 = do_step(prog, s19);
    assert(s20.pc == 20 && s20.d == argp && s20.mem == s18.mem);
    let s21 = do_step(prog, s20);
    assert(s21.pc == 21 && s21.d == (argp + 1) as u16 && s21.mem == s18.mem);
    let s22 = do_step(prog, s21);
    assert(s22.pc == 22 && s22.a == 0 && s22.d == (argp + 1) as u16 && s22.mem == s18.mem);
    let s23 = do_step(prog, s22);
    assert(s23.pc == 23);
    assert(s23.mem == s18.mem.insert(0, (argp + 1) as u16));
    assert(run_steps(prog, st, fuel) == run_steps(prog, s23, (fuel - 23) as nat));
    s23
}

/// Running the `return` epilogue moves the return value below the frame,
/// repositions `SP` right above it, restores the caller's four segment
/// registers from the frame, and jumps to the saved return address.  The
/// return address is read before `LCL` is overwritten, and the value is
/// written before `ARG` is, which is what makes the ordering sound.
#[verifier::rlimit(100)]
pub proof fn lemma_return_effect(st: MState, sp: u16, lcl: u16, argp: u16)
    requires
        st.pc == 0,
        st.mem[0] == sp,
        st.mem[1] == lcl,
        st.mem[2] == argp,
        21 <= lcl < sp,
        sp < 0x8000,
        16 <= argp,
        argp + 5 <= lcl,
    ensures
        ({
            let fin = run_steps(return_instrs(), st, 50);
            fin.pc == addr(st.mem[(lcl - 5) as u16]) as int && fin.mem[0] == (argp + 1) as u16
                && fin.mem[argp] == st.mem[(sp - 1) as u16] && fin.mem[4] == st.mem[(lcl
                - 1) as u16] && fin.mem[3] == st.mem[(lcl - 2) as u16] && fin.mem[2] == st.mem[(lcl
                - 3) as u16] && fin.mem[1] == st.mem[(lcl - 4) as u16] && (forall|k: u16|
                k != 0 && k != 1 && k != 2 && k != 3 && k != 4 && k != 14 && k != 15 && k != argp
                    ==> fin.mem[k] == st.mem[k])
        }),
{
    let prog = return_instrs();
    proof_register_lengths();
    assert(prog.len() == 50);
    let h = lemma_return_head(prog, st, sp, lcl, argp, 50);
    assert(prog.subrange(23, 29) =~= restore_reg_instrs("THAT"@));
    assert(prog.subrange(29, 35) =~= restore_reg_instrs("THIS"@));
    assert(prog.subrange(35, 41) =~= restore_reg_instrs("ARG"@));
    assert(prog.subrange(41, 47) =~= restore_reg_instrs("LCL"@));
    assert(h.mem[14] == lcl);
    assert(h.mem[(lcl - 1) as u16] == st.mem[(lcl - 1) as u16]);
    let r1 = lemma_restore_reg_steps(prog, h, "THAT"@, 4, lcl, 27);
    assert(r1.mem[14] == (lcl - 1) as u16);
    assert(r1.mem[(lcl - 2) as u16] == st.mem[(lcl - 2) as u16]);
    let r2 = lemma_restore_reg_steps(prog, r1, "THIS"@, 3, (lcl - 1) as u16, 21);
    assert(r2.mem[14] == (lcl - 2) as u16);
    assert(r2.mem[(lcl - 3) as u16] == st.mem[(lcl - 3) as u16]);
    let r3 = lemma_restore_reg_steps(prog, r2, "ARG"@, 2, (lcl - 2) as u16, 15);
    assert(r3.mem[14] == (lcl - 3) as u16);
    assert(r3.mem[(lcl - 4) as u16] == st.mem[(lcl - 4) as u16]);
    let r4 = lemma_restore_reg_steps(prog, r3, "LCL"@, 1, (lcl - 3) as u16, 9);
    assert(r4.pc == 47);
    assert(run_steps(prog, st, 50) == run_steps(prog, r4, 3));
    assert(addr(15) == 15);
    reveal_with_fuel(run_steps, 5);
    let t1 = do_step(prog, r4);
    assert(t1.pc == 48 && t1.a == 15 && t1.mem == r4.mem);
    assert(t1.mem[15] == st.mem[(lcl - 5) as u16]);
    let t2 = do_step(prog, t1);
    assert(t2.pc == 49 && t2.a == st.mem[(lcl - 5) as u16] && t2.mem == r4.mem);
    let t3 = do_step(prog, t2);
    assert(t3.pc == addr(st.mem[(lcl - 5) as u16]) as int && t3.mem == r4.mem);
    assert(run_steps(prog, st, 50) == t3);
}

/// The calling-convention round trip.  A caller with `n` arguments already
/// pushed executes `call f n`; the callee later enters the `return`
/// epilogue with its frame intact — `LCL` and `ARG` as the call set them,
/// the five saved words untouched — and one return value on top of its
/// stack.  After the epilogue, `SP` stands at `SP_before - n + 1`, the word
/// below it is the callee's return value, `LCL`, `ARG`, `THIS` and `THAT`
/// hold their pre-call values again, and control sits at the saved
/// return-address label.
pub proof fn theorem_call_round_trip(
    st0: MState,
    f: Seq<char>,
    n: u16,
    ra: Seq<char>,
    sp0: u16,
    st_ret: MState,
    sp_r: u16,
)
    requires
        st0.pc == 0,
        st0.mem[0] == sp0,
        16 <= sp0,
        sp0 + 5 < 0x8000,
        n + 16 <= sp0,
        !is_register_name(f),
        !is_register_name(ra),
        f != ra,
        ({
            let st1 = run_steps(call_instrs(f, n, ra), st0, 50);
            st_ret.pc == 0 && st_ret.mem[0] == sp_r && st_ret.mem[1] == (sp0 + 5) as u16
                && st_ret.mem[2] == (sp0 - n) as u16 && sp0 + 5 < sp_r < 0x8000 && st_ret.mem[sp0]
                == st1.mem[sp0] && st_ret.mem[(sp0 + 1) as u16] == st1.mem[(sp0 + 1) as u16]
                && st_ret.mem[(sp0 + 2) as u16] == st1.mem[(sp0 + 2) as u16] && st_ret.mem[(sp0
                + 3) as u16] == st1.mem[(sp0 + 3) as u16] && st_ret.mem[(sp0 + 4) as u16]
                == st1.mem[(sp0 + 4) as u16]
        }),
    ensures
        ({
            let st2 = run_steps(return_instrs(), st_ret, 50);
            st2.mem[0] == (sp0 - n + 1) as u16 && st2.mem[(sp0 - n) as u16] == st_ret.mem[(sp_r
                - 1) as u16] && st2.mem[1] == st0.mem[1] && st2.mem[2] == st0.mem[2] && st2.mem[3]
                == st0.mem[3] && st2.mem[4] == st0.mem[4] && st2.pc == resolve(
                call_instrs(f, n, ra),
                ra,
            ) as int
        }),
{
    lemma_call_effect(st0, f, n, ra, sp0);
    let lcl = (sp0 + 5) as u16;
    let argp = (sp0 - n) as u16;
    lemma_return_effect(st_ret, sp_r, lcl, argp);
    assert((lcl - 5) as u16 == sp0);
    assert((lcl - 4) as u16 == (sp0 + 1) as u16);
    assert((lcl - 3) as u16 == (sp0 + 2) as u16);
    assert((lcl - 2) as u16 == (sp0 + 3) as u16);
    assert((lcl - 1) as u16 == (sp0 + 4) as u16);
    assert(st_ret.mem[(lcl - 5) as u16] == 49);
    assert(addr(49) == 49);
}

// ---------------------------------------------------------------------------
// The call and return models render to the emitted text.
// ---------------------------------------------------------------------------

proof fn lemma_render_push_reg(name: Seq<char>)
    ensures
        render(push_reg_instrs(name)) == crate::converter::push_reg_text(name),
{
    reveal_with_fuel(render, 9);
    reveal_strlit("@");
    reveal_strlit(" \n");
    reveal_strlit("D=");
    reveal_strlit("M");
    reveal_strlit("D=M \n");
    reveal_strlit("SP");
    reveal_strlit("@SP \n");
    reveal_strlit("A=");
    reveal_strlit("A=M \n");
    reveal_strlit("M=");
    reveal_strlit("D");
    reveal_strlit("M=D \n");
    reveal_strlit("M+1");
    reveal_strlit("M=M+1 \n");
    assert(render(push_reg_instrs(name)) =~= crate::converter::push_reg_text(name));
}

proof fn lemma_render_restore_reg(name: Seq<char>)
    ensures
        render(restore_reg_instrs(name)) == crate::converter::restore_reg_text(name),
{
    reveal_with_fuel(render, 8);
    reveal_strlit("@");
    reveal_strlit(" \n");
    reveal_strlit("R14");
    reveal_strlit("@R14 \n");
    reveal_strlit("M=");
    reveal_strlit("M-1");
    reveal_strlit("M=M-1 \n");
    reveal_strlit("A=");
    reveal_strlit("M");
    reveal_strlit("A=M \n");
    reveal_strlit("D=");
    reveal_strlit("D=M \n");
    reveal_strlit("D");
    reveal_strlit("M=D \n");
    assert(render(restore_reg_instrs(name)) =~= crate::converter::restore_reg_text(name));
}

proof fn lemma_render_call_head(ra: Seq<char>)
    ensures
        render(
            seq![
                Instr::AtSym(ra),
                Instr::C(Some(Dest::RegD), Comp::CA, Jump::JNone),
                Instr::AtSym("SP"@),
                Instr::C(Some(Dest::RegA), Comp::CM, Jump::JNone),
                Instr::C(Some(Dest::RegM), Comp::CD, Jump::JNone),
                Instr::AtSym("SP"@),
                Instr::C(Some(Dest::RegM), Comp::CMPlus1, Jump::JNone),
            ],
        ) == "@"@ + ra + " \n"@ + "D=A \n"@ + crate::converter::push_d_text(),
{
    reveal_with_fuel(render, 9);
    reveal_strlit("@");
    reveal_strlit(" \n");
    reveal_strlit("D=");
    reveal_strlit("A");
    reveal_strlit("D=A \n");
    reveal_strlit("SP");
    reveal_strlit("@SP \n");
    reveal_strlit("A=");
    reveal_strlit("M");
    reveal_strlit("A=M \n");
    reveal_strlit("M=");
    reveal_strlit("D");
    reveal_strlit("M=D \n");
    reveal_strlit("M+1");
    reveal_strlit("M=M+1 \n");
    assert(render(
        seq![
            Instr::AtSym(ra),
            Instr::C(Some(Dest::RegD), Comp::CA, Jump::JNone),
            Instr::AtSym("SP"@),
            Instr::C(Some(Dest::RegA), Comp::CM, Jump::JNone),
            Instr::C(Some(Dest::RegM), Comp::CD, Jump::JNone),
            Instr::AtSym("SP"@),
            Instr::C(Some(Dest::RegM), Comp::CMPlus1, Jump::JNone),
        ],
    ) =~= "@"@ + ra + " \n"@ + "D=A \n"@ + crate::converter::push_d_text());
}

proof fn lemma_render_call_tail(f: Seq<char>, n: u16, ra: Seq<char>)
    ensures
        render(
            seq![
                Instr::AtSym("SP"@),
                Instr::C(Some(Dest::RegD), Comp::CM, Jump::JNone),
                Instr::AtNum(n),
                Instr::C(Some(Dest::RegD), Comp::CDMinusA, Jump::JNone),
                Instr::AtNum(5),
                Instr::C(Some(Dest::RegD), Comp::CDMinusA, Jump::JNone),
                Instr::AtSym("ARG"@),
                Instr::C(Some(Dest::RegM), Comp::CD, Jump::JNone),
                Instr::AtSym("SP"@),
                Instr::C(Some(Dest::RegD), Comp::CM, Jump::JNone),
                Instr::AtSym("LCL"@),
                Instr::C(Some(Dest::RegM), Comp::CD, Jump::JNone),
                Instr::AtSym(f),
                Instr::C(None, Comp::CZero, Jump::JMP),
                Instr::Label(ra),
            ],
        ) == "@SP \n"@ + "D=M \n"@ + "@"@ + crate::dec::dec_digits(n as nat) + " \n"@
            + "D=D-A \n"@ + "@5 \n"@ + "D=D-A \n"@ + "@ARG \n"@ + "M=D \n"@ + "@SP \n"@
            + "D=M \n"@ + "@LCL \n"@ + "M=D \n"@ + "@"@ + f + " \n"@ + "0;JMP \n"@
            + crate::converter::label_def_text(ra),
{
    reveal_with_fuel(render, 17);
    reveal_strlit("@");
    reveal_strlit("(");
    reveal_strlit(") \n");
    reveal_strlit(" \n");
    reveal_strlit("SP");
    reveal_strlit("@SP \n");
    reveal_strlit("D=");
    reveal_strlit("M");
    reveal_strlit("D=M \n");
    reveal_strlit("D-A");
    reveal_strlit("D=D-A \n");
    reveal_strlit("5");
    reveal_strlit("@5 \n");
    reveal_strlit("ARG");
    reveal_strlit("@ARG \n");
    reveal_strlit("M=");
    reveal_strlit("D");
    reveal_strlit("M=D \n");
    reveal_strlit("LCL");
    reveal_strlit("@LCL \n");
    reveal_strlit("0");
    reveal_strlit(";");
    reveal_strlit("JMP");
    reveal_strlit("0;JMP \n");
    assert(crate::dec::dec_digits(5) =~= seq!['5']);
    assert(render(
        seq![
            Instr::AtSym("SP"@),
            Instr::C(Some(Dest::RegD), Comp::CM, Jump::JNone),
            Instr::AtNum(n),
            Instr::C(Some(Dest::RegD), Comp::CDMinusA, Jump::JNone),
            Instr::AtNum(5),
            Instr::C(Some(Dest::RegD), Comp::CDMinusA, Jump::JNone),
            Instr::AtSym("ARG"@),
            Instr::C(Some(Dest::RegM), Comp::CD, Jump::JNone),
            Instr::AtSym("SP"@),
            Instr::C(Some(Dest::RegD), Comp::CM, Jump::JNone),
            Instr::AtSym("LCL"@),
            Instr::C(Some(Dest::RegM), Comp::CD, Jump::JNone),
            Instr::AtSym(f),
            Instr::C(None, Comp::CZero, Jump::JMP),
            Instr::Label(ra),
        ],
    ) =~= "@SP \n"@ + "D=M \n"@ + "@"@ + crate::dec::dec_digits(n as nat) + " \n"@
        + "D=D-A \n"@ + "@5 \n"@ + "D=D-A \n"@ + "@ARG \n"@ + "M=D \n"@ + "@SP \n"@
        + "D=M \n"@ + "@LCL \n"@ + "M=D \n"@ + "@"@ + f + " \n"@ + "0;JMP \n"@
        + crate::converter::label_def_text(ra));
}

/// The `call` model renders to exactly the emitted prologue.
#[verifier::rlimit(100)]
pub proof fn lemma_call_render(f: Seq<char>, n: u16, ra: Seq<char>)
    ensures
        render(call_instrs(f, n, ra)) == crate::converter::call_text(f, n as nat, ra),
{
    let prog = call_instrs(f, n, ra);
    let head = seq![
        Instr::AtSym(ra),
        Instr::C(Some(Dest::RegD), Comp::CA, Jump::JNone),
        Instr::AtSym("SP"@),
        Instr::C(Some(Dest::RegA), Comp::CM, Jump::JNone),
        Instr::C(Some(Dest::RegM), Comp::CD, Jump::JNone),
        Instr::AtSym("SP"@),
        Instr::C(Some(Dest::RegM), Comp::CMPlus1, Jump::JNone),
    ];
    let tail = seq![
        Instr::AtSym("SP"@),
        Instr::C(Some(Dest::RegD), Comp::CM, Jump::JNone),
        Instr::AtNum(n),
        Instr::C(Some(Dest::RegD), Comp::CDMinusA, Jump::JNone),
        Instr::AtNum(5),
        Instr::C(Some(Dest::RegD), Comp::CDMinusA, Jump::JNone),
        Instr::AtSym("ARG"@),
        Instr::C(Some(Dest::RegM), Comp::CD, Jump::JNone),
        Instr::AtSym("SP"@),
        Instr::C(Some(Dest::RegD), Comp::CM, Jump::JNone),
        Instr::AtSym("LCL"@),
        Instr::C(Some(Dest::RegM), Comp::CD, Jump::JNone),
        Instr::AtSym(f),
        Instr::C(None, Comp::CZero, Jump::JMP),
        Instr::Label(ra),
    ];
    lemma_render_call_head(ra);
    lemma_render_call_tail(f, n, ra);
    lemma_render_push_reg("LCL"@);
    lemma_render_push_reg("ARG"@);
    lemma_render_push_reg("THIS"@);
    lemma_render_push_reg("THAT"@);
    lemma_render_concat(head, push_reg_instrs("LCL"@));
    lemma_render_concat(head + push_reg_instrs("LCL"@), push_reg_instrs("ARG"@));
    lemma_render_concat(
        head + push_reg_instrs("LCL"@) + push_reg_instrs("ARG"@),
        push_reg_instrs("THIS"@),
    );
    lemma_render_concat(
        head + push_reg_instrs("LCL"@) + push_reg_instrs("ARG"@) + push_reg_instrs("THIS"@),
        push_reg_instrs("THAT"@),
    );
    lemma_render_concat(
        head + push_reg_instrs("LCL"@) + push_reg_instrs("ARG"@) + push_reg_instrs("THIS"@)
            + push_reg_instrs("THAT"@),
        tail,
    );
    assert(render(prog) =~= crate::converter::call_text(f, n as nat, ra));
}

proof fn lemma_render_return_head1()
    ensures
        render(return_instrs().take(11)) == "@LCL \n"@ + "D=M \n"@ + "@R14 \n"@ + "M=D \n"@
            + "@R14 \n"@ + "D=M \n"@ + "@5 \n"@ + "A=D-A \n"@ + "D=M \n"@ + "@R15 \n"@
            + "M=D \n"@,
{
    reveal_with_fuel(render, 13);
    reveal_strlit("@");
    reveal_strlit(" \n");
    reveal_strlit("LCL");
    reveal_strlit("@LCL \n");
    reveal_strlit("D=");
    reveal_strlit("M");
    reveal_strlit("D=M \n");
    reveal_strlit("R14");
    reveal_strlit("@R14 \n");
    reveal_strlit("M=");
    reveal_strlit("D");
    reveal_strlit("M=D \n");
    reveal_strlit("5");
    reveal_strlit("@5 \n");
    reveal_strlit("A=");
    reveal_strlit("D-A");
    reveal_strlit("A=D-A \n");
    reveal_strlit("R15");
    reveal_strlit("@R15 \n");
    assert(crate::dec::dec_digits(5) =~= seq!['5']);
    assert(return_instrs().take(11) =~= seq![
        Instr::AtSym("LCL"@),
        Instr::C(Some(Dest::RegD), Comp::CM, Jump::JNone),
        Instr::AtSym("R14"@),
        Instr::C(Some(Dest::RegM), Comp::CD, Jump::JNone),
        Instr::AtSym("R14"@),
        Instr::C(Some(Dest::RegD), Comp::CM, Jump::JNone),
        Instr::AtNum(5),
        Instr::C(Some(Dest::RegA), Comp::CDMinusA, Jump::JNone),
        Instr::C(Some(Dest::RegD), Comp::CM, Jump::JNone),
        Instr::AtSym("R15"@),
        Instr::C(Some(Dest::RegM), Comp::CD, Jump::JNone),
    ]);
    assert(render(return_instrs().take(11)) =~= "@LCL \n"@ + "D=M \n"@ + "@R14 \n"@
        + "M=D \n"@ + "@R14 \n"@ + "D=M \n"@ + "@5 \n"@ + "A=D-A \n"@ + "D=M \n"@
        + "@R15 \n"@ + "M=D \n"@);
}

proof fn lemma_render_return_head2()
    ensures
        render(return_instrs().subrange(11, 23)) == crate::converter::pop_d_text() + "@ARG \n"@
            + "A=M \n"@ + "M=D \n"@ + "@ARG \n"@ + "D=M \n"@ + "D=D+1 \n"@ + "@SP \n"@
            + "M=D \n"@,
{
    reveal_with_fuel(render, 14);
    reveal_strlit("@");
    reveal_strlit(" \n");
    reveal_strlit("SP");
    reveal_strlit("@SP \n");
    reveal_strlit("M=");
    reveal_strlit("M-1");
    reveal_strlit("M=M-1 \n");
    reveal_strlit("A=");
    reveal_strlit("M");
    reveal_strlit("A=M \n");
    reveal_strlit("D=");
    reveal_strlit("D=M \n");
    reveal_strlit("ARG");
    reveal_strlit("@ARG \n");
    reveal_strlit("D");
    reveal_strlit("M=D \n");
    reveal_strlit("D+1");
    reveal_strlit("D=D+1 \n");
    assert(return_instrs().subrange(11, 23) =~= seq![
        Instr::AtSym("SP"@),
        Instr::C(Some(Dest::RegM), Comp::CMMinus1, Jump::JNone),
        Instr::C(Some(Dest::RegA), Comp::CM, Jump::JNone),
        Instr::C(Some(Dest::RegD), Comp::CM, Jump::JNone),
        Instr::AtSym("ARG"@),
        Instr::C(Some(Dest::RegA), Comp::CM, Jump::JNone),
        Instr::C(Some(Dest::RegM), Comp::CD, Jump::JNone),
        Instr::AtSym("ARG"@),
        Instr::C(Some(Dest::RegD), Comp::CM, Jump::JNone),
        Instr::C(Some(Dest::RegD), Comp::CDPlus1, Jump::JNone),
        Instr::AtSym("SP"@),
        Instr::C(Some(Dest::RegM), Comp::CD, Jump::JNone),
    ]);
    assert(render(return_instrs().subrange(11, 23)) =~= crate::converter::pop_d_text()
        + "@ARG \n"@ + "A=M \n"@ + "M=D \n"@ + "@ARG \n"@ + "D=M \n"@ + "D=D+1 \n"@
        + "@SP \n"@ + "M=D \n"@);
}

proof fn lemma_render_return_head()
    ensures
        render(return_instrs().take(23)) == "@LCL \n"@ + "D=M \n"@ + "@R14 \n"@ + "M=D \n"@
            + "@R14 \n"@ + "D=M \n"@ + "@5 \n"@ + "A=D-A \n"@ + "D=M \n"@ + "@R15 \n"@
            + "M=D \n"@ + crate::converter::pop_d_text() + "@ARG \n"@ + "A=M \n"@ + "M=D \n"@
            + "@ARG \n"@ + "D=M \n"@ + "D=D+1 \n"@ + "@SP \n"@ + "M=D \n"@,
{
    lemma_render_return_head1();
    lemma_render_return_head2();
    let head = return_instrs().take(23);
    assert(head =~= return_instrs().take(11) + return_instrs().subrange(11, 23));
    lemma_render_concat(return_instrs().take(11), return_instrs().subrange(11, 23));
    assert(render(head) =~= "@LCL \n"@ + "D=M \n"@ + "@R14 \n"@ + "M=D \n"@ + "@R14 \n"@
        + "D=M \n"@ + "@5 \n"@ + "A=D-A \n"@ + "D=M \n"@ + "@R15 \n"@ + "M=D \n"@
        + crate::converter::pop_d_text() + "@ARG \n"@ + "A=M \n"@ + "M=D \n"@ + "@ARG \n"@
        + "D=M \n"@ + "D=D+1 \n"@ + "@SP \n"@ + "M=D \n"@);
}

/// The `return` model renders to exactly the emitted epilogue.
#[verifier::rlimit(100)]
pub proof fn lemma_return_render()
    ensures
        render(return_instrs()) == crate::converter::return_text(),
{
    let head = return_instrs().take(23);
    let tail = return_instrs().skip(47);
    lemma_render_return_head();
    assert(render(tail) =~= "@R15 \n"@ + "A=M \n"@ + "0;JMP \n"@) by {
        reveal_with_fuel(render, 5);
        reveal_strlit("@");
        reveal_strlit(" \n");
        reveal_strlit("R15");
        reveal_strlit("@R15 \n");
        reveal_strlit("A=");
        reveal_strlit("M");
        reveal_strlit("A=M \n");
        reveal_strlit("0");
        reveal_strlit(";");
        reveal_strlit("JMP");
        reveal_strlit("0;JMP \n");
        assert(tail =~= seq![
            Instr::AtSym("R15"@),
            Instr::C(Some(Dest::RegA), Comp::CM, Jump::JNone),
            Instr::C(None, Comp::CZero, Jump::JMP),
        ]);
    }
    lemma_render_restore_reg("THAT"@);
    lemma_render_restore_reg("THIS"@);
    lemma_render_restore_reg("ARG"@);
    lemma_render_restore_reg("LCL"@);
    let mids = return_instrs().subrange(23, 47);
    assert(mids =~= restore_reg_instrs("THAT"@) + restore_reg_instrs("THIS"@)
        + restore_reg_instrs("ARG"@) + restore_reg_instrs("LCL"@));
    lemma_render_concat(restore_reg_instrs("THAT"@), restore_reg_instrs("THIS"@));
    lemma_render_concat(
        restore_reg_instrs("THAT"@) + restore_reg_instrs("THIS"@),
        restore_reg_instrs("ARG"@),
    );
    lemma_render_concat(
        restore_reg_instrs("THAT"@) + restore_reg_instrs("THIS"@) + restore_reg_instrs("ARG"@),
        restore_reg_instrs("LCL"@),
    );
    assert(return_instrs() =~= head + mids + tail);
    lemma_render_concat(head, mids);
    lemma_render_concat(head + mids, tail);
    assert(render(return_instrs()) =~= crate::converter::return_text());
}

// ---------------------------------------------------------------------------
// The calling convention: function entry.
// ---------------------------------------------------------------------------

/// One `push constant 0`, zeroing a local slot.
pub open spec fn push_zero_instrs() -> Seq<Instr> {
    seq![
        Instr::AtNum(0),
        Instr::C(Some(Dest::RegD), Comp::CA, Jump::JNone),
        Instr::AtSym("SP"@),
        Instr::C(Some(Dest::RegA), Comp::CM, Jump::JNone),
        Instr::C(Some(Dest::RegM), Comp::CD, Jump::JNone),
        Instr::AtSym("SP"@),
        Instr::C(Some(Dest::RegM), Comp::CMPlus1, Jump::JNone),
    ]
}

/// `k` zeroed local slots.
pub open spec fn push_zero_blocks(k: nat) -> Seq<Instr>
    decreases k,
{
    if k == 0 {
        Seq::<Instr>::empty()
    } else {
        push_zero_blocks((k - 1) as nat) + push_zero_instrs()
    }
}

/// `function f k`: the entry label, then `k` zeroed locals.
pub open spec fn function_instrs(f: Seq<char>, k: nat) -> Seq<Instr> {
    seq![Instr::Label(f)] + push_zero_blocks(k)
}

/// A run of identical blocks can be peeled from either end.
proof fn lemma_push_zero_blocks_peel(k: nat)
    requires
        k > 0,
    ensures
        push_zero_blocks(k) == push_zero_instrs() + push_zero_blocks((k - 1) as nat),
    decreases k,
{
    if k == 1 {
        assert(push_zero_blocks(1) =~= push_zero_instrs() + push_zero_blocks(0));
    } else {
        lemma_push_zero_blocks_peel((k - 1) as nat);
        assert(push_zero_blocks(k) =~= push_zero_instrs() + push_zero_blocks((k - 1) as nat));
    }
}

proof fn lemma_render_push_zero()
    ensures
        render(push_zero_instrs()) == crate::converter::push_zero_text(),
{
    reveal_with_fuel(render, 9);
    reveal_strlit("@");
    reveal_strlit(" \n");
    reveal_strlit("0");
    reveal_strlit("@0 \n");
    reveal_strlit("D=");
    reveal_strlit("A");
    reveal_strlit("D=A \n");
    reveal_strlit("SP");
    reveal_strlit("@SP \n");
    reveal_strlit("A=");
    reveal_strlit("M");
    reveal_strlit("A=M \n");
    reveal_strlit("M=");
    reveal_strlit("D");
    reveal_strlit("M=D \n");
    reveal_strlit("M+1");
    reveal_strlit("M=M+1 \n");
    assert(crate::dec::dec_digits(0) =~= seq!['0']);
    assert(render(push_zero_instrs()) =~= crate::converter::push_zero_text());
}

/// The `function` model renders to exactly the emitted text.
pub proof fn lemma_function_render(f: Seq<char>, k: nat)
    ensures
        render(function_instrs(f, k)) == crate::converter::function_text(f, k),
    decreases k,
{
    reveal_with_fuel(render, 3);
    if k == 0 {
        assert(render(function_instrs(f, 0)) =~= crate::converter::label_def_text(f)) by {
            reveal_strlit("(");
            reveal_strlit(") \n");
            assert(function_instrs(f, 0) =~= seq![Instr::Label(f)]);
        }
        assert(crate::converter::function_text(f, 0) =~= crate::converter::label_def_text(f));
    } else {
        lemma_function_render(f, (k - 1) as nat);
        lemma_render_push_zero();
        assert(function_instrs(f, k) =~= function_instrs(f, (k - 1) as nat)
            + push_zero_instrs());
        lemma_render_concat(function_instrs(f, (k - 1) as nat), push_zero_instrs());
        assert(render(function_instrs(f, k)) =~= crate::converter::function_text(f, k));
    }
}

/// One zeroing block executed: seven instructions.
proof fn lemma_push_zero_steps(prog: Seq<Instr>, st: MState, sp: u16, fuel: nat) -> (r: MState)
    requires
        0 <= st.pc,
        st.pc + 7 <= prog.len(),
        prog.subrange(st.pc, st.pc + 7) == push_zero_instrs(),
        st.mem[0] == sp,
        16 <= sp,
        sp + 1 < 0x8000,
        fuel >= 7,
    ensures
        run_steps(prog, st, fuel) == run_steps(prog, r, (fuel - 7) as nat),
        r.pc == st.pc + 7,
        r.mem == st.mem.insert(sp, 0).insert(0, (sp + 1) as u16),
{
    reveal_with_fuel(run_steps, 9);
    assert(addr(0) == 0);
    assert(addr(sp) == sp);
    assert(wadd(sp, 1) == (sp + 1) as u16);
    assert(prog[st.pc] == Instr::AtNum(0));
    assert(prog[st.pc + 1] == Instr::C(Some(Dest::RegD), Comp::CA, Jump::JNone));
    assert(prog[st.pc + 2] == Instr::AtSym("SP"@));
    assert(prog[st.pc + 3] == Instr::C(Some(Dest::RegA), Comp::CM, Jump::JNone));
    assert(prog[st.pc + 4] == Instr::C(Some(Dest::RegM), Comp::CD, Jump::JNone));
    assert(prog[st.pc + 5] == Instr::AtSym("SP"@));
    assert(prog[st.pc + 6] == Instr::C(Some(Dest::RegM), Comp::CMPlus1, Jump::JNone));
    let s1 = do_step(prog, st);
    assert(s1.pc == st.pc + 1 && s1.a == 0 && s1.mem == st.mem);
    let s2 = do_step(prog, s1);
    assert(s2.pc == st.pc + 2 && s2.d == 0 && s2.mem == st.mem);
    let s3 = do_step(prog, s2);
    assert(s3.pc == st.pc + 3 && s3.a == 0 && s3.d == 0 && s3.mem == st.mem);
    let s4 = do_step(prog, s3);
    assert(s4.pc == st.pc + 4 && s4.a == sp && s4.d == 0 && s4.mem == st.mem);
    let s5 = do_step(prog, s4);
    assert(s5.pc == st.pc + 5 && s5.d == 0);
    assert(s5.mem == st.mem.insert(sp, 0));
    let s6 = do_step(prog, s5);
    assert(s6.pc == st.pc + 6 && s6.a == 0 && s6.mem == s5.mem);
    assert(s6.mem[0] == sp);
    let s7 = do_step(prog, s6);
    assert(s7.pc == st.pc + 7);
    assert(s7.mem == st.mem.insert(sp, 0).insert(0, (sp + 1) as u16));
    assert(run_steps(prog, st, fuel) == run_steps(prog, s7, (fuel - 7) as nat));
    s7
}

/// A run of `m` zeroing blocks: the slots from `sp` on are cleared and `SP`
/// advances past them.
proof fn lemma_push_zero_blocks_steps(
    prog: Seq<Instr>,
    st: MState,
    m: u16,
    sp: u16,
    fuel: nat,
) -> (r: MState)
    requires
        0 <= st.pc,
        st.pc + 7 * m <= prog.len(),
        prog.subrange(st.pc, st.pc + 7 * m) == push_zero_blocks(m as nat),
        st.mem[0] == sp,
        16 <= sp,
        sp + m < 0x8000,
        fuel >= 7 * m,
    ensures
        run_steps(prog, st, fuel) == run_steps(prog, r, (fuel - 7 * m) as nat),
        r.pc == st.pc + 7 * m,
        r.mem[0] == (sp + m) as u16,
        forall|i: u16| sp <= i < sp + m ==> r.mem[i] == 0,
        forall|i: u16| i != 0 && !(sp <= i < sp + m) ==> r.mem[i] == st.mem[i],
    decreases m,
{
    if m == 0 {
        assert(push_zero_blocks(0) =~= Seq::<Instr>::empty());
        st
    } else {
        lemma_push_zero_blocks_peel(m as nat);
        assert(prog.subrange(st.pc, st.pc + 7) =~= push_zero_instrs()) by {
            assert(forall|j: int|
                0 <= j < 7 ==> #[trigger] prog.subrange(st.pc, st.pc + 7)[j] == prog.subrange(
                    st.pc,
                    st.pc + 7 * m,
                )[j]);
        }
        let s7 = lemma_push_zero_steps(prog, st, sp, fuel);
        assert(prog.subrange(st.pc + 7, st.pc + 7 * m) =~= push_zero_blocks((m - 1) as nat)) by {
            lemma_push_zero_blocks_len((m - 1) as nat);
            let whole = push_zero_instrs() + push_zero_blocks((m - 1) as nat);
            assert(forall|j: int|
                0 <= j < 7 * m - 7 ==> #[trigger] prog.subrange(st.pc + 7, st.pc + 7 * m)[j]
                    == prog.subrange(st.pc, st.pc + 7 * m)[j + 7]);
            assert(forall|j: int|
                0 <= j < 7 * m - 7 ==> #[trigger] whole[j + 7] == push_zero_blocks(
                    (m - 1) as nat,
                )[j]);
        }
        assert(s7.mem[0] == (sp + 1) as u16);
        let r = lemma_push_zero_blocks_steps(prog, s7, (m - 1) as u16, (sp + 1) as u16, (fuel
            - 7) as nat);
        assert(forall|i: u16| sp <= i < sp + m ==> r.mem[i] == 0) by {
            assert(forall|i: u16| sp + 1 <= i < sp + m ==> r.mem[i] == 0);
            assert(r.mem[sp] == s7.mem[sp]);
        }
        r
    }
}

/// Running `function f k` from its entry label zeroes the `k` local slots
/// above the stack pointer and leaves `SP` just past them.
pub proof fn theorem_function_correct(st: MState, f: Seq<char>, k: u16, sp: u16)
    requires
        st.pc == 0,
        st.mem[0] == sp,
        16 <= sp,
        sp + k < 0x8000,
    ensures
        ({
            let fin = run_steps(function_instrs(f, k as nat), st, (1 + 7 * k) as nat);
            fin.pc == function_instrs(f, k as nat).len() && fin.mem[0] == (sp + k) as u16 && (
            forall|i: u16| sp <= i < sp + k ==> fin.mem[i] == 0) && (forall|i: u16|
                i != 0 && !(sp <= i < sp + k) ==> fin.mem[i] == st.mem[i])
        }),
{
    let prog = function_instrs(f, k as nat);
    assert(prog.len() == 1 + 7 * k) by {
        lemma_push_zero_blocks_len(k as nat);
    }
    reveal_with_fuel(run_steps, 3);
    assert(prog[0] == Instr::Label(f));
    let s1 = do_step(prog, st);
    assert(s1.pc == 1 && s1.mem == st.mem);
    assert(run_steps(prog, st, (1 + 7 * k) as nat) == run_steps(prog, s1, (7 * k) as nat));
    assert(prog.subrange(1, 1 + 7 * k) =~= push_zero_blocks(k as nat));
    let r = lemma_push_zero_blocks_steps(prog, s1, k, sp, (7 * k) as nat);
    assert(run_steps(prog, s1, (7 * k) as nat) == run_steps(prog, r, 0));
}

proof fn lemma_push_zero_blocks_len(k: nat)
    ensures
        push_zero_blocks(k).len() == 7 * k,
    decreases k,
{
    if k > 0 {
        lemma_push_zero_blocks_len((k - 1) as nat);
    }
}

// ---------------------------------------------------------------------------
// Push of a constant, and the concrete call-and-return scenario.
// ---------------------------------------------------------------------------

/// `push constant n` as instructions.
pub open spec fn push_constant_instrs(n: u16) -> Seq<Instr> {
    seq![
        Instr::AtNum(n),
        Instr::C(Some(Dest::RegD), Comp::CA, Jump::JNone),
        Instr::AtSym("SP"@),
        Instr::C(Some(Dest::RegA), Comp::CM, Jump::JNone),
        Instr::C(Some(Dest::RegM), Comp::CD, Jump::JNone),
        Instr::AtSym("SP"@),
        Instr::C(Some(Dest::RegM), Comp::CMPlus1, Jump::JNone),
    ]
}

/// The `push constant` model renders to exactly the emitted text.
pub proof fn lemma_push_constant_render(n: u16)
    ensures
        render(push_constant_instrs(n)) == crate::converter::push_constant_text(n as nat),
{
    reveal_with_fuel(render, 9);
    reveal_strlit("@");
    reveal_strlit(" \n");
    reveal_strlit("D=");
    reveal_strlit("A");
    reveal_strlit("D=A \n");
    reveal_strlit("SP");
    reveal_strlit("@SP \n");
    reveal_strlit("A=");
    reveal_strlit("M");
    reveal_strlit("A=M \n");
    reveal_strlit("M=");
    reveal_strlit("D");
    reveal_strlit("M=D \n");
    reveal_strlit("M+1");
    reveal_strlit("M=M+1 \n");
    assert(render(push_constant_instrs(n)) =~= crate::converter::push_constant_text(n as nat));
}

/// Running `push constant n` writes `n` above the stack and advances `SP`.
pub proof fn theorem_push_constant_correct(st: MState, n: u16, sp: u16)
    requires
        st.pc == 0,
        st.mem[0] == sp,
        16 <= sp,
        sp + 1 < 0x8000,
    ensures
        ({
            let fin = run_steps(push_constant_instrs(n), st, 7);
            fin.pc == push_constant_instrs(n).len() && fin.mem[0] == (sp + 1) as u16 && fin.mem[sp]
                == n && (forall|k: u16| k != 0 && k != sp ==> fin.mem[k] == st.mem[k])
        }),
{
    let prog = push_constant_instrs(n);
    reveal_with_fuel(run_steps, 9);
    assert(addr(0) == 0);
    assert(addr(sp) == sp);
    assert(wadd(sp, 1) == (sp + 1) as u16);
    let s1 = do_step(prog, st);
    assert(s1.pc == 1 && s1.a == n && s1.mem == st.mem);
    let s2 = do_step(prog, s1);
    assert(s2.pc == 2 && s2.d == n && s2.mem == st.mem);
    let s3 = do_step(prog, s2);
    assert(s3.pc == 3 && s3.a == 0 && s3.d == n && s3.mem == st.mem);
    let s4 = do_step(prog, s3);
    assert(s4.pc == 4 && s4.a == sp && s4.d == n && s4.mem == st.mem);
    let s5 = do_step(prog, s4);
    assert(s5.pc == 5 && s5.d == n);
    assert(s5.mem == st.mem.insert(sp, n));
    let s6 = do_step(prog, s5);
    assert(s6.pc == 6 && s6.a == 0 && s6.mem == s5.mem);
    assert(s6.mem[0] == sp);
    let s7 = do_step(prog, s6);
    assert(s7.pc == 7);
    assert(s7.mem == st.mem.insert(sp, n).insert(0, (sp + 1) as u16));
    assert(run_steps(prog, st, 7) == s7);
}

/// A state carried from one fragment to the next: the registers and memory
/// survive the jump or fall-through; the counter restarts at the new
/// fragment's first instruction.
pub open spec fn carried(st: MState) -> MState {
    MState { a: st.a, d: st.d, mem: st.mem, pc: 0 }
}

/// The concrete call-and-return scenario, fragment by fragment.  A caller
/// whose stack pointer stands at 261 — as it does right after the
/// bootstrap's implicit call frame — executes `call Foo.main 0`; the call
/// jumps to the function's entry, `function Foo.main 2` falls through to
/// `push constant 9`, which falls through to `return`.  Composing the four
/// fragment effects: afterwards `SP` is 262, one above the caller's
/// pre-call stack, the word below it is the 9 the callee pushed, the four
/// segment registers hold their pre-call values again, and control sits at
/// the call's return-address label.
pub proof fn theorem_call_scenario(st0: MState, f: Seq<char>, ra: Seq<char>)
    requires
        st0.pc == 0,
        st0.mem[0] == 261,
        !is_register_name(f),
        !is_register_name(ra),
        f != ra,
    ensures
        ({
            let st1 = run_steps(call_instrs(f, 0, ra), st0, 50);
            let st2 = run_steps(function_instrs(f, 2), carried(st1), 15);
            let st3 = run_steps(push_constant_instrs(9), carried(st2), 7);
            let st4 = run_steps(return_instrs(), carried(st3), 50);
            st4.mem[0] == 262 && st4.mem[261] == 9 && st4.mem[1] == st0.mem[1] && st4.mem[2]
                == st0.mem[2] && st4.mem[3] == st0.mem[3] && st4.mem[4] == st0.mem[4] && st4.pc
                == resolve(call_instrs(f, 0, ra), ra) as int
        }),
{
    lemma_call_effect(st0, f, 0, ra, 261);
    let st1 = run_steps(call_instrs(f, 0, ra), st0, 50);
    assert(st1.mem[0] == 266 && st1.mem[1] == 266 && st1.mem[2] == 261);
    assert(st1.mem[261] == resolve(call_instrs(f, 0, ra), ra));
    theorem_function_correct(carried(st1), f, 2, 266);
    let st2 = run_steps(function_instrs(f, 2), carried(st1), 15);
    assert(st2.mem[0] == 268);
    assert(st2.mem[1] == 266 && st2.mem[2] == 261);
    assert(st2.mem[261] == st1.mem[261] && st2.mem[262] == st1.mem[262] && st2.mem[263]
        == st1.mem[263] && st2.mem[264] == st1.mem[264] && st2.mem[265] == st1.mem[265]);
    theorem_push_constant_correct(carried(st2), 9, 268);
    let st3 = run_steps(push_constant_instrs(9), carried(st2), 7);
    assert(st3.mem[0] == 269 && st3.mem[268] == 9);
    assert(st3.mem[1] == 266 && st3.mem[2] == 261);
    assert(st3.mem[261] == st1.mem[261] && st3.mem[262] == st1.mem[262] && st3.mem[263]
        == st1.mem[263] && st3.mem[264] == st1.mem[264] && st3.mem[265] == st1.mem[265]);
    lemma_return_effect(carried(st3), 269, 266, 261);
    let st4 = run_steps(return_instrs(), carried(st3), 50);
    assert(st4.mem[0] == 262);
    assert(st4.mem[261] == st3.mem[268]);
    assert(st4.mem[1] == st3.mem[262] && st4.mem[2] == st3.mem[263] && st4.mem[3] == st3.mem[264]
        && st4.mem[4] == st3.mem[265]);
    assert(st1.mem[262] == st0.mem[1] && st1.mem[263] == st0.mem[2] && st1.mem[264] == st0.mem[3]
        && st1.mem[265] == st0.mem[4]);
    assert(st4.pc == addr(st3.mem[261]) as int);
    assert(addr(49) == 49);
}

} // verus!

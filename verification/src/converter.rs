//! Emitter primitives: one pure function per VM opcode family, each returning
//! the Hack assembly fragment for that opcode.  The contract of every
//! function gives the emitted text exactly, character for character, through
//! the `*_text` specification functions.
//!
//! Scratch-register discipline: `R13` holds the target address while a `pop`
//! to a segment runs, `R14` holds the saved frame pointer and `R15` the
//! return address while a `return` runs.  No fragment leaves a meaningful
//! value in `R13`..`R15` behind.

use vstd::prelude::*;
use crate::dec::{dec_digits, dec_string, lemma_dec_digits_injective, lemma_dec_digits_no_char};
use crate::text::{lemma_last_sep_inj, lemma_prefix_cancel};

verus! {

// ---------------------------------------------------------------------------
// The emitted text, stated exactly.
// ---------------------------------------------------------------------------

/// `SP = SP + 1`.
pub open spec fn inc_sp_text() -> Seq<char> {
    "@SP \n"@ + "M=M+1 \n"@
}

/// `SP = SP - 1`.
pub open spec fn dec_sp_text() -> Seq<char> {
    "@SP \n"@ + "M=M-1 \n"@
}

/// Pop the top of the stack into the `D` register.
pub open spec fn pop_d_text() -> Seq<char> {
    dec_sp_text() + "A=M \n"@ + "D=M \n"@
}

/// Decrement `SP` and address the (new) top of the stack, so `M` reads it.
pub open spec fn pop_m_text() -> Seq<char> {
    dec_sp_text() + "A=M \n"@
}

/// Push the `D` register onto the stack.
pub open spec fn push_d_text() -> Seq<char> {
    "@SP \n"@ + "A=M \n"@ + "M=D \n"@ + inc_sp_text()
}

/// A binary stack operator: pop the right operand into `D`, address the left
/// operand, combine in place with `op_line`, restore `SP`.
pub open spec fn binary_op_text(op_line: Seq<char>) -> Seq<char> {
    pop_d_text() + pop_m_text() + op_line + inc_sp_text()
}

pub open spec fn add_text() -> Seq<char> {
    binary_op_text("M=M+D \n"@)
}

pub open spec fn sub_text() -> Seq<char> {
    binary_op_text("M=M-D \n"@)
}

pub open spec fn and_text() -> Seq<char> {
    binary_op_text("M=M&D \n"@)
}

pub open spec fn or_text() -> Seq<char> {
    binary_op_text("M=M|D \n"@)
}

/// A unary stack operator applied in place.
pub open spec fn unary_op_text(op_line: Seq<char>) -> Seq<char> {
    pop_m_text() + op_line + inc_sp_text()
}

pub open spec fn neg_text() -> Seq<char> {
    unary_op_text("M=-M \n"@)
}

pub open spec fn not_text() -> Seq<char> {
    unary_op_text("M=!M \n"@)
}

/// The branching idiom shared by the comparisons: `D` holds a difference;
/// jump on `jump` ('JEQ', 'JGT' or 'JLT') to the true arm, leave `-1` on the
/// stack when the predicate holds and `0` otherwise.  `label` must be fresh
/// for every use: the idiom defines `{label}-true` and `{label}-false`.
pub open spec fn branch_flag_text(jump: Seq<char>, label: Seq<char>) -> Seq<char> {
    "@"@ + label + "-true \n"@ + "D;"@ + jump + " \n"@ + "@0 \n"@ + "D=A \n"@ + "@"@ + label
        + "-false \n"@ + "0;JMP \n"@ + "("@ + label + "-true) \n"@ + "D=-1 \n"@ + "("@ + label
        + "-false) \n"@ + "@SP \n"@ + "A=M \n"@ + "M=D \n"@ + inc_sp_text()
}

/// A comparison: subtract, pop the difference into `D`, then branch on it.
pub open spec fn compare_text(jump: Seq<char>, label: Seq<char>) -> Seq<char> {
    sub_text() + pop_d_text() + branch_flag_text(jump, label)
}

pub open spec fn eq_text(label: Seq<char>) -> Seq<char> {
    compare_text("JEQ"@, label)
}

pub open spec fn gt_text(label: Seq<char>) -> Seq<char> {
    compare_text("JGT"@, label)
}

pub open spec fn lt_text(label: Seq<char>) -> Seq<char> {
    compare_text("JLT"@, label)
}

/// Pop the top of the stack and jump to `label` when it is non-zero.
pub open spec fn if_goto_text(label: Seq<char>) -> Seq<char> {
    pop_d_text() + "@"@ + label + " \n"@ + "D;JNE \n"@
}

/// An unconditional jump to `label`.
pub open spec fn goto_text(label: Seq<char>) -> Seq<char> {
    "@"@ + label + " \n"@ + "0;JMP \n"@
}

/// The definition of an assembly label: `(label)`.
pub open spec fn label_def_text(label: Seq<char>) -> Seq<char> {
    "("@ + label + ") \n"@
}

/// `push constant n`.
pub open spec fn push_constant_text(n: nat) -> Seq<char> {
    "@"@ + dec_digits(n) + " \n"@ + "D=A \n"@ + push_d_text()
}

/// Push `segment[index]` where register `reg` holds the segment's base
/// address (`LCL`, `ARG`, `THIS`, `THAT`).
pub open spec fn push_base_text(reg: Seq<char>, index: nat) -> Seq<char> {
    "@"@ + reg + " \n"@ + "D=M \n"@ + "@"@ + dec_digits(index) + " \n"@ + "A=D+A \n"@ + "D=M \n"@
        + "@SP \n"@ + "A=M \n"@ + "M=D \n"@ + inc_sp_text()
}

/// Push from a fixed-range segment: the index is added to the address of
/// `reg` itself (`R5` for `temp`, `THIS` i.e. `R3` for `pointer`), not to its
/// contents.
pub open spec fn push_fixed_text(reg: Seq<char>, index: nat) -> Seq<char> {
    "@"@ + reg + " \n"@ + "D=A \n"@ + "@"@ + dec_digits(index) + " \n"@ + "A=D+A \n"@ + "D=M \n"@
        + "@SP \n"@ + "A=M \n"@ + "M=D \n"@ + inc_sp_text()
}

/// Pop into `segment[index]` for a base-pointer segment.  The target address
/// is computed first and parked in `R13`, because popping clobbers `A`.
pub open spec fn pop_base_text(reg: Seq<char>, index: nat) -> Seq<char> {
    "@"@ + reg + " \n"@ + "D=M \n"@ + "@"@ + dec_digits(index) + " \n"@ + "D=D+A \n"@ + "@R13 \n"@
        + "M=D \n"@ + pop_d_text() + "@R13 \n"@ + "A=M \n"@ + "M=D \n"@
}

/// Pop into a fixed-range segment (`temp`, `pointer`).
pub open spec fn pop_fixed_text(reg: Seq<char>, index: nat) -> Seq<char> {
    "@"@ + reg + " \n"@ + "D=A \n"@ + "@"@ + dec_digits(index) + " \n"@ + "D=D+A \n"@ + "@R13 \n"@
        + "M=D \n"@ + pop_d_text() + "@R13 \n"@ + "A=M \n"@ + "M=D \n"@
}

/// The assembly symbol for `static index` in the file `file`: `{file}.{index}`.
/// The downstream assembler allocates it.
pub open spec fn static_symbol_text(file: Seq<char>, index: nat) -> Seq<char> {
    file + "."@ + dec_digits(index)
}

pub open spec fn push_static_text(index: nat, file: Seq<char>) -> Seq<char> {
    "@"@ + static_symbol_text(file, index) + " \n"@ + "D=M \n"@ + "@SP \n"@ + "A=M \n"@ + "M=D \n"@
        + inc_sp_text()
}

pub open spec fn pop_static_text(index: nat, file: Seq<char>) -> Seq<char> {
    pop_d_text() + "@"@ + static_symbol_text(file, index) + " \n"@ + "M=D \n"@
}

/// Push the contents of register `reg` (used by `call` to save the caller's
/// `LCL`, `ARG`, `THIS`, `THAT`).
pub open spec fn push_reg_text(reg: Seq<char>) -> Seq<char> {
    "@"@ + reg + " \n"@ + "D=M \n"@ + push_d_text()
}

/// The calling-convention prologue for `call f n`: push the return address
/// and the caller's four segment pointers, set `ARG = SP - n - 5` and
/// `LCL = SP`, jump to the function, and define the return-address label.
pub open spec fn call_text(funcname: Seq<char>, argc: nat, return_address: Seq<char>) -> Seq<
    char,
> {
    "@"@ + return_address + " \n"@ + "D=A \n"@ + push_d_text() + push_reg_text("LCL"@)
        + push_reg_text("ARG"@) + push_reg_text("THIS"@) + push_reg_text("THAT"@) + "@SP \n"@
        + "D=M \n"@ + "@"@ + dec_digits(argc) + " \n"@ + "D=D-A \n"@ + "@5 \n"@ + "D=D-A \n"@
        + "@ARG \n"@ + "M=D \n"@ + "@SP \n"@ + "D=M \n"@ + "@LCL \n"@ + "M=D \n"@ + "@"@ + funcname
        + " \n"@ + "0;JMP \n"@ + label_def_text(return_address)
}

/// One `push constant 0`, used to zero-initialize a local slot.
pub open spec fn push_zero_text() -> Seq<char> {
    "@0 \n"@ + "D=A \n"@ + "@SP \n"@ + "A=M \n"@ + "M=D \n"@ + inc_sp_text()
}

pub open spec fn repeat_push_zero(k: nat) -> Seq<char>
    decreases k,
{
    if k == 0 {
        Seq::<char>::empty()
    } else {
        repeat_push_zero((k - 1) as nat) + push_zero_text()
    }
}

/// `function f k`: define the entry label, then zero `k` local slots.
pub open spec fn function_text(funcname: Seq<char>, locals: nat) -> Seq<char> {
    label_def_text(funcname) + repeat_push_zero(locals)
}

/// Restore one segment register from the frame walked down by `R14`.
pub open spec fn restore_reg_text(reg: Seq<char>) -> Seq<char> {
    "@R14 \n"@ + "M=M-1 \n"@ + "A=M \n"@ + "D=M \n"@ + "@"@ + reg + " \n"@ + "M=D \n"@
}

/// The calling-convention epilogue: save the frame pointer in `R14`, the
/// return address in `R15`, move the return value to `ARG[0]`, reposition
/// `SP`, restore `THAT`/`THIS`/`ARG`/`LCL` from the frame, and jump to the
/// return address.  The return address is captured before `LCL` is restored,
/// and the return value is written before `ARG` is restored; that ordering
/// is what makes the epilogue sound.
pub open spec fn return_text() -> Seq<char> {
    "@LCL \n"@ + "D=M \n"@ + "@R14 \n"@ + "M=D \n"@ + "@R14 \n"@ + "D=M \n"@ + "@5 \n"@
        + "A=D-A \n"@ + "D=M \n"@ + "@R15 \n"@ + "M=D \n"@ + pop_d_text() + "@ARG \n"@ + "A=M \n"@
        + "M=D \n"@ + "@ARG \n"@ + "D=M \n"@ + "D=D+1 \n"@ + "@SP \n"@ + "M=D \n"@
        + restore_reg_text("THAT"@) + restore_reg_text("THIS"@) + restore_reg_text("ARG"@)
        + restore_reg_text("LCL"@) + "@R15 \n"@ + "A=M \n"@ + "0;JMP \n"@
}

// ---------------------------------------------------------------------------
// Shared append helpers.
// ---------------------------------------------------------------------------

fn append_pop_d(s: &mut String)
    ensures
        final(s)@ == old(s)@ + pop_d_text(),
{
    s.append("@SP \n");
    s.append("M=M-1 \n");
    s.append("A=M \n");
    s.append("D=M \n");
    proof {
        assert(s@ =~= old(s)@ + pop_d_text());
    }
}

fn append_pop_m(s: &mut String)
    ensures
        final(s)@ == old(s)@ + pop_m_text(),
{
    s.append("@SP \n");
    s.append("M=M-1 \n");
    s.append("A=M \n");
    proof {
        assert(s@ =~= old(s)@ + pop_m_text());
    }
}

fn append_push_d(s: &mut String)
    ensures
        final(s)@ == old(s)@ + push_d_text(),
{
    s.append("@SP \n");
    s.append("A=M \n");
    s.append("M=D \n");
    s.append("@SP \n");
    s.append("M=M+1 \n");
    proof {
        assert(s@ =~= old(s)@ + push_d_text());
    }
}

fn append_inc_sp(s: &mut String)
    ensures
        final(s)@ == old(s)@ + inc_sp_text(),
{
    s.append("@SP \n");
    s.append("M=M+1 \n");
    proof {
        assert(s@ =~= old(s)@ + inc_sp_text());
    }
}

fn append_binary_op(s: &mut String, op_line: &str)
    ensures
        final(s)@ == old(s)@ + binary_op_text(op_line@),
{
    append_pop_d(s);
    append_pop_m(s);
    s.append(op_line);
    append_inc_sp(s);
    proof {
        assert(s@ =~= old(s)@ + binary_op_text(op_line@));
    }
}

fn append_unary_op(s: &mut String, op_line: &str)
    ensures
        final(s)@ == old(s)@ + unary_op_text(op_line@),
{
    append_pop_m(s);
    s.append(op_line);
    append_inc_sp(s);
    proof {
        assert(s@ =~= old(s)@ + unary_op_text(op_line@));
    }
}

#[verifier::rlimit(50)]
fn append_compare(s: &mut String, jump: &str, label: &str)
    ensures
        final(s)@ == old(s)@ + compare_text(jump@, label@),
{
    append_binary_op(s, "M=M-D \n");
    append_pop_d(s);
    let ghost base = s@;
    proof {
        assert(base =~= old(s)@ + sub_text() + pop_d_text());
    }
    s.append("@");
    s.append(label);
    s.append("-true \n");
    s.append("D;");
    s.append(jump);
    s.append(" \n");
    s.append("@0 \n");
    s.append("D=A \n");
    s.append("@");
    s.append(label);
    s.append("-false \n");
    s.append("0;JMP \n");
    s.append("(");
    s.append(label);
    s.append("-true) \n");
    s.append("D=-1 \n");
    s.append("(");
    s.append(label);
    s.append("-false) \n");
    s.append("@SP \n");
    s.append("A=M \n");
    s.append("M=D \n");
    append_inc_sp(s);
    proof {
        assert(s@ =~= base + branch_flag_text(jump@, label@));
        assert(s@ =~= old(s)@ + compare_text(jump@, label@));
    }
}

// ---------------------------------------------------------------------------
// Arithmetic and logic.
// ---------------------------------------------------------------------------

/// `add`: pop two words and push their sum.
pub fn add() -> (r: String)
    ensures
        r@ == add_text(),
{
    let mut s = String::new();
    append_binary_op(&mut s, "M=M+D \n");
    proof {
        assert(s@ =~= add_text());
    }
    s
}

/// `sub`: pop two words and push their difference; the word pushed first is
/// the left operand.
pub fn sub() -> (r: String)
    ensures
        r@ == sub_text(),
{
    let mut s = String::new();
    append_binary_op(&mut s, "M=M-D \n");
    proof {
        assert(s@ =~= sub_text());
    }
    s
}

/// `neg`: negate the top of the stack in place.
pub fn neg() -> (r: String)
    ensures
        r@ == neg_text(),
{
    let mut s = String::new();
    append_unary_op(&mut s, "M=-M \n");
    proof {
        assert(s@ =~= neg_text());
    }
    s
}

/// `eq`: push `-1` when the two popped words are equal, else `0`.  `label`
/// must be fresh: the fragment defines `{label}-true` and `{label}-false`.
pub fn eq(label: &str) -> (r: String)
    ensures
        r@ == eq_text(label@),
{
    let mut s = String::new();
    append_compare(&mut s, "JEQ", label);
    proof {
        assert(s@ =~= eq_text(label@));
    }
    s
}

/// `gt`: push `-1` when the word pushed first is greater, else `0`.
pub fn gt(label: &str) -> (r: String)
    ensures
        r@ == gt_text(label@),
{
    let mut s = String::new();
    append_compare(&mut s, "JGT", label);
    proof {
        assert(s@ =~= gt_text(label@));
    }
    s
}

/// `lt`: push `-1` when the word pushed first is smaller, else `0`.
pub fn lt(label: &str) -> (r: String)
    ensures
        r@ == lt_text(label@),
{
    let mut s = String::new();
    append_compare(&mut s, "JLT", label);
    proof {
        assert(s@ =~= lt_text(label@));
    }
    s
}

/// `and`: bitwise and of the two top words.
pub fn and() -> (r: String)
    ensures
        r@ == and_text(),
{
    let mut s = String::new();
    append_binary_op(&mut s, "M=M&D \n");
    proof {
        assert(s@ =~= and_text());
    }
    s
}

/// `or`: bitwise or of the two top words.
pub fn or() -> (r: String)
    ensures
        r@ == or_text(),
{
    let mut s = String::new();
    append_binary_op(&mut s, "M=M|D \n");
    proof {
        assert(s@ =~= or_text());
    }
    s
}

/// `not`: bitwise complement of the top word, in place.
pub fn not() -> (r: String)
    ensures
        r@ == not_text(),
{
    let mut s = String::new();
    append_unary_op(&mut s, "M=!M \n");
    proof {
        assert(s@ =~= not_text());
    }
    s
}

// ---------------------------------------------------------------------------
// Branching and functions.
// ---------------------------------------------------------------------------

/// `if-goto`: pop the top of the stack and jump to `label` when non-zero.
pub fn if_goto(label: &str) -> (r: String)
    ensures
        r@ == if_goto_text(label@),
{
    let mut s = String::new();
    append_pop_d(&mut s);
    s.append("@");
    s.append(label);
    s.append(" \n");
    s.append("D;JNE \n");
    proof {
        assert(s@ =~= if_goto_text(label@));
    }
    s
}

/// `call f n`: the full prologue of the calling convention; see `call_text`.
pub fn call(funcname: &str, argc: usize, return_address: &str) -> (r: String)
    ensures
        r@ == call_text(funcname@, argc as nat, return_address@),
{
    let mut s = String::new();
    s.append("@");
    s.append(return_address);
    s.append(" \n");
    s.append("D=A \n");
    append_push_d(&mut s);
    append_push_reg(&mut s, "LCL");
    append_push_reg(&mut s, "ARG");
    append_push_reg(&mut s, "THIS");
    append_push_reg(&mut s, "THAT");
    s.append("@SP \n");
    s.append("D=M \n");
    s.append("@");
    let d = dec_string(argc);
    s.append(d.as_str());
    s.append(" \n");
    s.append("D=D-A \n");
    s.append("@5 \n");
    s.append("D=D-A \n");
    s.append("@ARG \n");
    s.append("M=D \n");
    s.append("@SP \n");
    s.append("D=M \n");
    s.append("@LCL \n");
    s.append("M=D \n");
    s.append("@");
    s.append(funcname);
    s.append(" \n");
    s.append("0;JMP \n");
    s.append("(");
    s.append(return_address);
    s.append(") \n");
    proof {
        assert(s@ =~= call_text(funcname@, argc as nat, return_address@));
    }
    s
}

fn append_push_reg(s: &mut String, reg: &str)
    ensures
        final(s)@ == old(s)@ + push_reg_text(reg@),
{
    s.append("@");
    s.append(reg);
    s.append(" \n");
    s.append("D=M \n");
    append_push_d(s);
    proof {
        assert(s@ =~= old(s)@ + push_reg_text(reg@));
    }
}

/// `function f k`: define the entry label, then zero-initialize `k` locals.
pub fn function(funcname: &str, argc: usize) -> (r: String)
    ensures
        r@ == function_text(funcname@, argc as nat),
{
    let mut s = String::new();
    s.append("(");
    s.append(funcname);
    s.append(") \n");
    proof {
        assert(s@ =~= label_def_text(funcname@) + repeat_push_zero(0));
    }
    let mut i: usize = 0;
    while i < argc
        invariant
            i <= argc,
            s@ == label_def_text(funcname@) + repeat_push_zero(i as nat),
        decreases argc - i,
    {
        s.append("@0 \n");
        s.append("D=A \n");
        s.append("@SP \n");
        s.append("A=M \n");
        s.append("M=D \n");
        append_inc_sp(&mut s);
        i = i + 1;
        proof {
            assert(s@ =~= label_def_text(funcname@) + repeat_push_zero(i as nat));
        }
    }
    s
}

fn append_restore_reg(s: &mut String, reg: &str)
    ensures
        final(s)@ == old(s)@ + restore_reg_text(reg@),
{
    s.append("@R14 \n");
    s.append("M=M-1 \n");
    s.append("A=M \n");
    s.append("D=M \n");
    s.append("@");
    s.append(reg);
    s.append(" \n");
    s.append("M=D \n");
    proof {
        assert(s@ =~= old(s)@ + restore_reg_text(reg@));
    }
}

/// `return`: the full epilogue of the calling convention; see `return_text`.
pub fn ret() -> (r: String)
    ensures
        r@ == return_text(),
{
    let mut s = String::new();
    s.append("@LCL \n");
    s.append("D=M \n");
    s.append("@R14 \n");
    s.append("M=D \n");
    s.append("@R14 \n");
    s.append("D=M \n");
    s.append("@5 \n");
    s.append("A=D-A \n");
    s.append("D=M \n");
    s.append("@R15 \n");
    s.append("M=D \n");
    append_pop_d(&mut s);
    s.append("@ARG \n");
    s.append("A=M \n");
    s.append("M=D \n");
    s.append("@ARG \n");
    s.append("D=M \n");
    s.append("D=D+1 \n");
    s.append("@SP \n");
    s.append("M=D \n");
    append_restore_reg(&mut s, "THAT");
    append_restore_reg(&mut s, "THIS");
    append_restore_reg(&mut s, "ARG");
    append_restore_reg(&mut s, "LCL");
    s.append("@R15 \n");
    s.append("A=M \n");
    s.append("0;JMP \n");
    proof {
        assert(s@ =~= return_text());
    }
    s
}

// ---------------------------------------------------------------------------
// Memory access.
// ---------------------------------------------------------------------------

/// `push constant n`.
pub fn push_constant(n: isize) -> (r: String)
    requires
        0 <= n,
    ensures
        r@ == push_constant_text(n as nat),
{
    let mut s = String::new();
    s.append("@");
    let d = dec_string(n as usize);
    s.append(d.as_str());
    s.append(" \n");
    s.append("D=A \n");
    append_push_d(&mut s);
    proof {
        assert(s@ =~= push_constant_text(n as nat));
    }
    s
}

fn push_base(reg: &str, index: usize) -> (r: String)
    ensures
        r@ == push_base_text(reg@, index as nat),
{
    let mut s = String::new();
    s.append("@");
    s.append(reg);
    s.append(" \n");
    s.append("D=M \n");
    s.append("@");
    let d = dec_string(index);
    s.append(d.as_str());
    s.append(" \n");
    s.append("A=D+A \n");
    s.append("D=M \n");
    s.append("@SP \n");
    s.append("A=M \n");
    s.append("M=D \n");
    append_inc_sp(&mut s);
    proof {
        assert(s@ =~= push_base_text(reg@, index as nat));
    }
    s
}

fn push_fixed(reg: &str, index: usize) -> (r: String)
    ensures
        r@ == push_fixed_text(reg@, index as nat),
{
    let mut s = String::new();
    s.append("@");
    s.append(reg);
    s.append(" \n");
    s.append("D=A \n");
    s.append("@");
    let d = dec_string(index);
    s.append(d.as_str());
    s.append(" \n");
    s.append("A=D+A \n");
    s.append("D=M \n");
    s.append("@SP \n");
    s.append("A=M \n");
    s.append("M=D \n");
    append_inc_sp(&mut s);
    proof {
        assert(s@ =~= push_fixed_text(reg@, index as nat));
    }
    s
}

fn pop_base(reg: &str, index: usize) -> (r: String)
    ensures
        r@ == pop_base_text(reg@, index as nat),
{
    let mut s = String::new();
    s.append("@");
    s.append(reg);
    s.append(" \n");
    s.append("D=M \n");
    s.append("@");
    let d = dec_string(index);
    s.append(d.as_str());
    s.append(" \n");
    s.append("D=D+A \n");
    s.append("@R13 \n");
    s.append("M=D \n");
    append_pop_d(&mut s);
    s.append("@R13 \n");
    s.append("A=M \n");
    s.append("M=D \n");
    proof {
        assert(s@ =~= pop_base_text(reg@, index as nat));
    }
    s
}

fn pop_fixed(reg: &str, index: usize) -> (r: String)
    ensures
        r@ == pop_fixed_text(reg@, index as nat),
{
    let mut s = String::new();
    s.append("@");
    s.append(reg);
    s.append(" \n");
    s.append("D=A \n");
    s.append("@");
    let d = dec_string(index);
    s.append(d.as_str());
    s.append(" \n");
    s.append("D=D+A \n");
    s.append("@R13 \n");
    s.append("M=D \n");
    append_pop_d(&mut s);
    s.append("@R13 \n");
    s.append("A=M \n");
    s.append("M=D \n");
    proof {
        assert(s@ =~= pop_fixed_text(reg@, index as nat));
    }
    s
}

/// `push local index`.
pub fn push_local(index: isize) -> (r: String)
    requires
        0 <= index,
    ensures
        r@ == push_base_text("LCL"@, index as nat),
{
    push_base("LCL", index as usize)
}

/// `pop local index`.
pub fn pop_local(index: isize) -> (r: String)
    requires
        0 <= index,
    ensures
        r@ == pop_base_text("LCL"@, index as nat),
{
    pop_base("LCL", index as usize)
}

/// `push argument index`.
pub fn push_argument(index: isize) -> (r: String)
    requires
        0 <= index,
    ensures
        r@ == push_base_text("ARG"@, index as nat),
{
    push_base("ARG", index as usize)
}

/// `pop argument index`.
pub fn pop_argument(index: isize) -> (r: String)
    requires
        0 <= index,
    ensures
        r@ == pop_base_text("ARG"@, index as nat),
{
    pop_base("ARG", index as usize)
}

/// `push this index`.
pub fn push_this(index: isize) -> (r: String)
    requires
        0 <= index,
    ensures
        r@ == push_base_text("THIS"@, index as nat),
{
    push_base("THIS", index as usize)
}

/// `pop this index`.
pub fn pop_this(index: isize) -> (r: String)
    requires
        0 <= index,
    ensures
        r@ == pop_base_text("THIS"@, index as nat),
{
    pop_base("THIS", index as usize)
}

/// `push that index`.
pub fn push_that(index: isize) -> (r: String)
    requires
        0 <= index,
    ensures
        r@ == push_base_text("THAT"@, index as nat),
{
    push_base("THAT", index as usize)
}

/// `pop that index`.
pub fn pop_that(index: isize) -> (r: String)
    requires
        0 <= index,
    ensures
        r@ == pop_base_text("THAT"@, index as nat),
{
    pop_base("THAT", index as usize)
}

/// `push temp index`: the temp segment is the fixed registers R5..R12.
pub fn push_temp(index: isize) -> (r: String)
    requires
        0 <= index,
    ensures
        r@ == push_fixed_text("R5"@, index as nat),
{
    push_fixed("R5", index as usize)
}

/// `pop temp index`.
pub fn pop_temp(index: isize) -> (r: String)
    requires
        0 <= index,
    ensures
        r@ == pop_fixed_text("R5"@, index as nat),
{
    pop_fixed("R5", index as usize)
}

/// `push pointer index`: pointer 0 is `THIS` (R3), pointer 1 is `THAT` (R4).
pub fn push_pointer(index: isize) -> (r: String)
    requires
        0 <= index,
    ensures
        r@ == push_fixed_text("THIS"@, index as nat),
{
    push_fixed("THIS", index as usize)
}

/// `pop pointer index`.
pub fn pop_pointer(index: isize) -> (r: String)
    requires
        0 <= index,
    ensures
        r@ == pop_fixed_text("THIS"@, index as nat),
{
    pop_fixed("THIS", index as usize)
}

/// `push static index`: reads the per-file symbol `{filename}.{index}`.
pub fn push_static(index: isize, filename: &str) -> (r: String)
    requires
        0 <= index,
    ensures
        r@ == push_static_text(index as nat, filename@),
{
    let mut s = String::new();
    s.append("@");
    s.append(filename);
    s.append(".");
    let d = dec_string(index as usize);
    s.append(d.as_str());
    s.append(" \n");
    s.append("D=M \n");
    s.append("@SP \n");
    s.append("A=M \n");
    s.append("M=D \n");
    append_inc_sp(&mut s);
    proof {
        assert(s@ =~= push_static_text(index as nat, filename@));
    }
    s
}

/// `pop static index`: writes the per-file symbol `{filename}.{index}`.
pub fn pop_static(index: isize, filename: &str) -> (r: String)
    requires
        0 <= index,
    ensures
        r@ == pop_static_text(index as nat, filename@),
{
    let mut s = String::new();
    append_pop_d(&mut s);
    s.append("@");
    s.append(filename);
    s.append(".");
    let d = dec_string(index as usize);
    s.append(d.as_str());
    s.append(" \n");
    s.append("M=D \n");
    proof {
        assert(s@ =~= pop_static_text(index as nat, filename@));
    }
    s
}

// ---------------------------------------------------------------------------
// A comparison is one fixed template around its label.
// ---------------------------------------------------------------------------

pub open spec fn cmp_chunk_head() -> Seq<char> {
    sub_text() + pop_d_text() + "@"@
}

pub open spec fn cmp_chunk_jump(jump: Seq<char>) -> Seq<char> {
    "-true \n"@ + "D;"@ + jump + " \n"@ + "@0 \n"@ + "D=A \n"@ + "@"@
}

pub open spec fn cmp_chunk_branch() -> Seq<char> {
    "-false \n"@ + "0;JMP \n"@ + "("@
}

pub open spec fn cmp_chunk_true_arm() -> Seq<char> {
    "-true) \n"@ + "D=-1 \n"@ + "("@
}

pub open spec fn cmp_chunk_tail() -> Seq<char> {
    "-false) \n"@ + "@SP \n"@ + "A=M \n"@ + "M=D \n"@ + inc_sp_text()
}

/// A comparison's text is one fixed template around the four occurrences of
/// its label: the chunks between them do not depend on the label, so two
/// comparisons emit identical code apart from their freshly minted labels.
pub proof fn lemma_compare_text_template(jump: Seq<char>, label: Seq<char>)
    ensures
        compare_text(jump, label) == cmp_chunk_head() + label + cmp_chunk_jump(jump) + label
            + cmp_chunk_branch() + label + cmp_chunk_true_arm() + label + cmp_chunk_tail(),
{
    assert(compare_text(jump, label) =~= cmp_chunk_head() + label + cmp_chunk_jump(jump) + label
        + cmp_chunk_branch() + label + cmp_chunk_true_arm() + label + cmp_chunk_tail());
}

// ---------------------------------------------------------------------------
// Static symbols never alias across files or indices.
// ---------------------------------------------------------------------------

/// Two `static` references mangle to the same assembly symbol only when they
/// name the same index in the same file: the index's decimal digits carry no
/// dot, so the symbol's last dot separates file from index.
pub proof fn lemma_static_symbols_distinct(
    file1: Seq<char>,
    i1: nat,
    file2: Seq<char>,
    i2: nat,
)
    requires
        file1 != file2 || i1 != i2,
    ensures
        static_symbol_text(file1, i1) != static_symbol_text(file2, i2),
{
    if static_symbol_text(file1, i1) == static_symbol_text(file2, i2) {
        reveal_strlit(".");
        assert("."@ =~= seq!['.']);
        assert(static_symbol_text(file1, i1) =~= file1 + seq!['.'] + dec_digits(i1));
        assert(static_symbol_text(file2, i2) =~= file2 + seq!['.'] + dec_digits(i2));
        lemma_dec_digits_no_char(i1, '.');
        lemma_dec_digits_no_char(i2, '.');
        lemma_last_sep_inj(file1, file2, dec_digits(i1), dec_digits(i2), '.');
        lemma_dec_digits_injective(i1, i2);
    }
}

} // verus!

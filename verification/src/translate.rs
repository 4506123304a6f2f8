//! The translation driver: feeds parsed commands to the code writer, and the
//! spec-level model of a whole run that its contract — and the label
//! uniqueness theorem — are stated over.

use vstd::prelude::*;
use crate::code_writer::{CodeWriter, arith_block, arith_fragment, is_comparison, plain_block,
    push_pop_block, push_pop_error_msg, push_pop_fragment, unknown_command_msg};
use crate::converter::{call_text, function_text, goto_text, if_goto_text, label_def_text,
    return_text};
use crate::dec::dec_digits;
use crate::parser::{CommandType, Parser, arg1_of, arg2_of, classify};
use crate::symbol_manager::{cmp_def_label, function_symbol_text, goto_symbol_text,
    ifd_symbol_text,
    lemma_cmp_def_label_injective, lemma_function_symbol_injective, lemma_goto_symbol_injective,
    lemma_return_symbol_injective, lemma_symbol_family_chars, return_symbol_text};

verus! {

// ---------------------------------------------------------------------------
// The state a run threads through the commands.
// ---------------------------------------------------------------------------

/// The translator state: the current file stem, the current function, the
/// two label counters, and the output text.
pub struct TransState {
    pub file: Seq<char>,
    pub func: Seq<char>,
    pub ifd: nat,
    pub ra: nat,
    pub out: Seq<char>,
}

/// The state a code writer is in.
pub open spec fn state_of(cw: CodeWriter) -> TransState {
    TransState {
        file: cw.file_stem(),
        func: cw.func(),
        ifd: cw.ifd(),
        ra: cw.ra(),
        out: cw.out(),
    }
}

/// The diagnostic for a command with a missing or negative operand.
pub open spec fn malformed_msg() -> Seq<char> {
    "missing or invalid operand"@
}

// ---------------------------------------------------------------------------
// One command applied to the state.
// ---------------------------------------------------------------------------

pub open spec fn arith_step(st: TransState, line: Seq<char>) -> (TransState, Option<Seq<char>>) {
    match arg1_of(line) {
        Option::Some(m) => match arith_fragment(m, st.ifd) {
            Option::Some(frag) => (
                TransState {
                    file: st.file,
                    func: st.func,
                    ifd: st.ifd + (if is_comparison(m) {
                        1nat
                    } else {
                        0nat
                    }),
                    ra: st.ra,
                    out: st.out + arith_block(m, frag),
                },
                None,
            ),
            Option::None => (st, Some(unknown_command_msg(m))),
        },
        Option::None => (st, Some(malformed_msg())),
    }
}

pub open spec fn push_pop_step(st: TransState, line: Seq<char>, dir: Seq<char>) -> (
    TransState,
    Option<Seq<char>>,
) {
    match (arg1_of(line), arg2_of(line)) {
        (Option::Some(seg), Option::Some(idx)) => if idx < 0 {
            (st, Some(malformed_msg()))
        } else {
            match push_pop_fragment(dir, seg, idx as nat, st.file) {
                Option::Some(frag) => (
                    TransState {
                        file: st.file,
                        func: st.func,
                        ifd: st.ifd,
                        ra: st.ra,
                        out: st.out + push_pop_block(dir, seg, idx as nat, frag),
                    },
                    None,
                ),
                Option::None => (st, Some(push_pop_error_msg(dir, seg))),
            }
        },
        _ => (st, Some(malformed_msg())),
    }
}

pub open spec fn label_step(st: TransState, line: Seq<char>) -> (TransState, Option<Seq<char>>) {
    match arg1_of(line) {
        Option::Some(l) => (
            TransState {
                file: st.file,
                func: st.func,
                ifd: st.ifd,
                ra: st.ra,
                out: st.out + plain_block(
                    "label "@ + l,
                    label_def_text(goto_symbol_text(st.func, l)),
                ),
            },
            None,
        ),
        Option::None => (st, Some(malformed_msg())),
    }
}

pub open spec fn goto_step(st: TransState, line: Seq<char>) -> (TransState, Option<Seq<char>>) {
    match arg1_of(line) {
        Option::Some(l) => (
            TransState {
                file: st.file,
                func: st.func,
                ifd: st.ifd,
                ra: st.ra,
                out: st.out + plain_block("goto "@ + l, goto_text(goto_symbol_text(st.func, l))),
            },
            None,
        ),
        Option::None => (st, Some(malformed_msg())),
    }
}

pub open spec fn if_goto_step(st: TransState, line: Seq<char>) -> (TransState, Option<Seq<char>>) {
    match arg1_of(line) {
        Option::Some(l) => (
            TransState {
                file: st.file,
                func: st.func,
                ifd: st.ifd,
                ra: st.ra,
                out: st.out + plain_block(
                    "if-goto "@ + l,
                    if_goto_text(goto_symbol_text(st.func, l)),
                ),
            },
            None,
        ),
        Option::None => (st, Some(malformed_msg())),
    }
}

pub open spec fn function_step(st: TransState, line: Seq<char>) -> (
    TransState,
    Option<Seq<char>>,
) {
    match (arg1_of(line), arg2_of(line)) {
        (Option::Some(f), Option::Some(k)) => if k < 0 {
            (st, Some(malformed_msg()))
        } else {
            (
                TransState {
                    file: st.file,
                    func: f,
                    ifd: st.ifd,
                    ra: st.ra,
                    out: st.out + plain_block(
                        "function "@ + f + " "@ + dec_digits(k as nat),
                        function_text(function_symbol_text(f), k as nat),
                    ),
                },
                None,
            )
        },
        _ => (st, Some(malformed_msg())),
    }
}

pub open spec fn call_step(st: TransState, line: Seq<char>) -> (TransState, Option<Seq<char>>) {
    match (arg1_of(line), arg2_of(line)) {
        (Option::Some(f), Option::Some(n)) => if n < 0 {
            (st, Some(malformed_msg()))
        } else {
            (
                TransState {
                    file: st.file,
                    func: st.func,
                    ifd: st.ifd,
                    ra: st.ra + 1,
                    out: st.out + plain_block(
                        "call "@ + f + " "@ + dec_digits(n as nat),
                        call_text(
                            function_symbol_text(f),
                            n as nat,
                            return_symbol_text(st.func, st.ra),
                        ),
                    ),
                },
                None,
            )
        },
        _ => (st, Some(malformed_msg())),
    }
}

pub open spec fn return_step(st: TransState) -> (TransState, Option<Seq<char>>) {
    (
        TransState {
            file: st.file,
            func: st.func,
            ifd: st.ifd,
            ra: st.ra,
            out: st.out + plain_block("return"@, return_text()),
        },
        None,
    )
}

pub open spec fn unknown_step(st: TransState, line: Seq<char>) -> (TransState, Option<Seq<char>>) {
    match arg1_of(line) {
        Option::Some(w) => (st, Some(unknown_command_msg(w))),
        Option::None => (st, Some(malformed_msg())),
    }
}

/// One command line applied to the state: the state after it, and the error
/// text when the command is rejected (the state is then unchanged).
pub open spec fn step(st: TransState, line: Seq<char>) -> (TransState, Option<Seq<char>>) {
    match classify(line) {
        CommandType::ARITHMETIC => arith_step(st, line),
        CommandType::PUSH => push_pop_step(st, line, "push"@),
        CommandType::POP => push_pop_step(st, line, "pop"@),
        CommandType::LABEL => label_step(st, line),
        CommandType::GOTO => goto_step(st, line),
        CommandType::IF => if_goto_step(st, line),
        CommandType::FUNCTION => function_step(st, line),
        CommandType::RETURN => return_step(st),
        CommandType::CALL => call_step(st, line),
        CommandType::Unknown => unknown_step(st, line),
    }
}

/// A whole run: commands applied in order, stopping at the first rejection.
pub open spec fn run_lines(st: TransState, lines: Seq<Seq<char>>) -> (
    TransState,
    Option<Seq<char>>,
) {
    run_lines_rec(st, lines)
}

pub open spec fn run_lines_rec(st: TransState, lines: Seq<Seq<char>>) -> (
    TransState,
    Option<Seq<char>>,
)
    decreases lines.len(),
{
    if lines.len() == 0 {
        (st, None)
    } else {
        let r = step(st, lines[0]);
        if r.1 is Some {
            r
        } else {
            run_lines_rec(r.0, lines.drop_first())
        }
    }
}

/// A step never decreases a counter, and advances it by at most one.
proof fn lemma_step_counters(st: TransState, line: Seq<char>)
    ensures
        st.ifd <= step(st, line).0.ifd <= st.ifd + 1,
        st.ra <= step(st, line).0.ra <= st.ra + 1,
{
}

// ---------------------------------------------------------------------------
// The driver.
// ---------------------------------------------------------------------------

fn malformed_error() -> (r: String)
    ensures
        r@ == malformed_msg(),
{
    "missing or invalid operand".to_owned()
}

fn unknown_error(w: &str) -> (r: String)
    ensures
        r@ == unknown_command_msg(w@),
{
    let mut s = String::new();
    s.append("unrecognized command: ");
    s.append(w);
    proof {
        assert(s@ =~= unknown_command_msg(w@));
    }
    s
}

/// Translates every command the parser still holds, appending to the code
/// writer's output.  The result is exactly a spec-level run over the
/// remaining command lines: the writer ends in the run's final state, and an
/// error is returned precisely when the run rejects a command, with the
/// run's diagnostic.
pub fn vm_to_asm(p: &mut Parser, cw: &mut CodeWriter) -> (r: Result<(), String>)
    requires
        old(p).wf(),
        old(cw).ifd() + old(p).remaining().len() <= usize::MAX,
        old(cw).ra() + old(p).remaining().len() <= usize::MAX,
    ensures
        final(p).wf(),
        state_of(*final(cw)) == run_lines(state_of(*old(cw)), old(p).remaining()).0,
        run_lines(state_of(*old(cw)), old(p).remaining()).1 is None ==> r is Ok,
        run_lines(state_of(*old(cw)), old(p).remaining()).1 is Some ==> r is Err && r->Err_0@
            == run_lines(state_of(*old(cw)), old(p).remaining()).1->Some_0,
{
    let ghost st0 = state_of(*old(cw));
    let ghost lines0 = old(p).remaining();
    while p.has_more_commands()
        invariant
            p.wf(),
            st0 == state_of(*old(cw)),
            lines0 == old(p).remaining(),
            cw.ifd() + p.remaining().len() <= usize::MAX,
            cw.ra() + p.remaining().len() <= usize::MAX,
            run_lines(st0, lines0) == run_lines(state_of(*cw), p.remaining()),
        decreases p.remaining().len(),
    {
        let ghost st_before = state_of(*cw);
        let ghost lines_before = p.remaining();
        p.advance();
        let ghost line = lines_before[0];
        let t = p.command_type();
        proof {
            lemma_step_counters(st_before, line);
            assert(lines_before.len() > 0);
        }
        let res: Result<(), String> = match t {
            CommandType::ARITHMETIC => {
                match p.arg1() {
                    Option::Some(m) => cw.write_arithmetic(m.as_str()),
                    Option::None => Err(malformed_error()),
                }
            },
            CommandType::PUSH => {
                match (p.arg1(), p.arg2()) {
                    (Option::Some(seg), Option::Some(idx)) => {
                        if idx < 0 {
                            Err(malformed_error())
                        } else {
                            cw.write_push_pop("push", seg.as_str(), idx)
                        }
                    },
                    _ => Err(malformed_error()),
                }
            },
            CommandType::POP => {
                match (p.arg1(), p.arg2()) {
                    (Option::Some(seg), Option::Some(idx)) => {
                        if idx < 0 {
                            Err(malformed_error())
                        } else {
                            cw.write_push_pop("pop", seg.as_str(), idx)
                        }
                    },
                    _ => Err(malformed_error()),
                }
            },
            CommandType::LABEL => {
                match p.arg1() {
                    Option::Some(l) => cw.write_label(l.as_str()),
                    Option::None => Err(malformed_error()),
                }
            },
            CommandType::GOTO => {
                match p.arg1() {
                    Option::Some(l) => cw.write_goto(l.as_str()),
                    Option::None => Err(malformed_error()),
                }
            },
            CommandType::IF => {
                match p.arg1() {
                    Option::Some(l) => cw.write_if_goto(l.as_str()),
                    Option::None => Err(malformed_error()),
                }
            },
            CommandType::FUNCTION => {
                match (p.arg1(), p.arg2()) {
                    (Option::Some(f), Option::Some(k)) => {
                        if k < 0 {
                            Err(malformed_error())
                        } else {
                            cw.write_function(f.as_str(), k as usize)
                        }
                    },
                    _ => Err(malformed_error()),
                }
            },
            CommandType::RETURN => cw.write_return(),
            CommandType::CALL => {
                match (p.arg1(), p.arg2()) {
                    (Option::Some(f), Option::Some(n)) => {
                        if n < 0 {
                            Err(malformed_error())
                        } else {
                            cw.write_call(f.as_str(), n as usize)
                        }
                    },
                    _ => Err(malformed_error()),
                }
            },
            CommandType::Unknown => {
                match p.arg1() {
                    Option::Some(w) => Err(unknown_error(w.as_str())),
                    Option::None => Err(malformed_error()),
                }
            },
        };
        proof {
            assert(run_lines(st0, lines0) == run_lines(st_before, lines_before));
            if res is Ok {
                assert(step(st_before, line).1 is None);
                assert(state_of(*cw) == step(st_before, line).0);
                assert(run_lines(st_before, lines_before) == run_lines_rec(
                    step(st_before, line).0,
                    lines_before.drop_first(),
                ));
                assert(p.remaining() == lines_before.drop_first());
            } else {
                assert(state_of(*cw) == st_before);
                assert(step(st_before, line).1 == Some(res->Err_0@));
                assert(run_lines(st0, lines0) == (st_before, Some(res->Err_0@)));
            }
        }
        match res {
            Ok(()) => {},
            Err(m) => {
                proof {
                    assert(run_lines(st0, lines0).1 == Some(m@));
                    assert(run_lines(st0, lines0).0 == state_of(*cw));
                }
                return Err(m);
            },
        }
    }
    Ok(())
}


// ---------------------------------------------------------------------------
// Label uniqueness over a whole run.
// ---------------------------------------------------------------------------

/// Where a definition-style label in the output came from.
pub enum LabelSource {
    /// The true arm of the `n`-th comparison.
    CmpTrue(nat),
    /// The false arm of the `n`-th comparison.
    CmpFalse(nat),
    /// The `n`-th return address, scoped by the calling function.
    RetAddr(Seq<char>, nat),
    /// A user `label`, scoped by its enclosing function.
    UserLabel(Seq<char>, Seq<char>),
    /// The entry label of a declared function.
    FuncEntry(Seq<char>),
}

/// The label a source renders to.
pub open spec fn label_text(e: LabelSource) -> Seq<char> {
    match e {
        LabelSource::CmpTrue(n) => cmp_def_label(n, true),
        LabelSource::CmpFalse(n) => cmp_def_label(n, false),
        LabelSource::RetAddr(f, n) => return_symbol_text(f, n),
        LabelSource::UserLabel(f, l) => goto_symbol_text(f, l),
        LabelSource::FuncEntry(f) => function_symbol_text(f),
    }
}

/// The definition-style labels one command plants in the output.
pub open spec fn step_events(st: TransState, line: Seq<char>) -> Seq<LabelSource> {
    if step(st, line).1 is Some {
        Seq::<LabelSource>::empty()
    } else {
        match classify(line) {
            CommandType::ARITHMETIC => if is_comparison(arg1_of(line)->Some_0) {
                seq![LabelSource::CmpTrue(st.ifd), LabelSource::CmpFalse(st.ifd)]
            } else {
                Seq::<LabelSource>::empty()
            },
            CommandType::LABEL => seq![LabelSource::UserLabel(st.func, arg1_of(line)->Some_0)],
            CommandType::FUNCTION => seq![LabelSource::FuncEntry(arg1_of(line)->Some_0)],
            CommandType::CALL => seq![LabelSource::RetAddr(st.func, st.ra)],
            _ => Seq::<LabelSource>::empty(),
        }
    }
}

/// All definition-style labels a run plants, in order of emission.
pub open spec fn run_events(st: TransState, lines: Seq<Seq<char>>) -> Seq<LabelSource>
    decreases lines.len(),
{
    if lines.len() == 0 {
        Seq::<LabelSource>::empty()
    } else if step(st, lines[0]).1 is Some {
        step_events(st, lines[0])
    } else {
        step_events(st, lines[0]) + run_events(step(st, lines[0]).0, lines.drop_first())
    }
}

/// No two of the labels coincide.
pub open spec fn distinct_labels(evs: Seq<LabelSource>) -> bool {
    forall|i: int, j: int|
        0 <= i < j < evs.len() ==> label_text(#[trigger] evs[i]) != label_text(#[trigger] evs[j])
}

/// What the program itself must keep apart: no user label defined twice in
/// one function, no function declared twice, and the functions that scope a
/// user label free of hyphens (VM identifier syntax forbids the hyphen).
pub open spec fn scoping_ok(evs: Seq<LabelSource>) -> bool {
    (forall|i: int, j: int|
        0 <= i < j < evs.len() && (#[trigger] evs[i]) is UserLabel && (#[trigger] evs[j])
            is UserLabel ==> evs[i] != evs[j]) && (forall|i: int, j: int|
        0 <= i < j < evs.len() && (#[trigger] evs[i]) is FuncEntry && (#[trigger] evs[j])
            is FuncEntry ==> evs[i] != evs[j]) && (forall|i: int|
        0 <= i < evs.len() && (#[trigger] evs[i]) is UserLabel ==> !evs[i]->UserLabel_0.contains(
            '-',
        ))
}

/// What keeps two sources apart, pair by pair: distinct counters for the
/// generated families, distinct names for the user-controlled ones.
pub open spec fn separated(e1: LabelSource, e2: LabelSource) -> bool {
    match (e1, e2) {
        (LabelSource::CmpTrue(a), LabelSource::CmpTrue(b)) => a != b,
        (LabelSource::CmpFalse(a), LabelSource::CmpFalse(b)) => a != b,
        (LabelSource::RetAddr(_, a), LabelSource::RetAddr(_, b)) => a != b,
        (LabelSource::UserLabel(f1, l1), LabelSource::UserLabel(f2, l2)) => (f1 != f2 || l1 != l2)
            && !f1.contains('-') && !f2.contains('-'),
        (LabelSource::FuncEntry(a), LabelSource::FuncEntry(b)) => a != b,
        _ => true,
    }
}

/// The character right after the shared `symbol-` prefix names the family.
proof fn lemma_family_char(e: LabelSource)
    ensures
        label_text(e).len() > 7,
        label_text(e)[7] == (match e {
            LabelSource::CmpTrue(_) => 'i',
            LabelSource::CmpFalse(_) => 'i',
            LabelSource::RetAddr(_, _) => 'r',
            LabelSource::UserLabel(_, _) => 'g',
            LabelSource::FuncEntry(_) => 'f',
        }),
{
    match e {
        LabelSource::CmpTrue(n) => {
            lemma_symbol_family_chars(n, Seq::empty(), Seq::empty(), true);
        },
        LabelSource::CmpFalse(n) => {
            lemma_symbol_family_chars(n, Seq::empty(), Seq::empty(), false);
        },
        LabelSource::RetAddr(f, n) => {
            lemma_symbol_family_chars(n, f, Seq::empty(), true);
        },
        LabelSource::UserLabel(f, l) => {
            lemma_symbol_family_chars(0, f, l, true);
        },
        LabelSource::FuncEntry(f) => {
            lemma_symbol_family_chars(0, f, Seq::empty(), true);
        },
    }
}

/// Separated sources render to different labels.
pub proof fn lemma_separated_sources(e1: LabelSource, e2: LabelSource)
    requires
        separated(e1, e2),
    ensures
        label_text(e1) != label_text(e2),
{
    if label_text(e1) == label_text(e2) {
        lemma_family_char(e1);
        lemma_family_char(e2);
        match (e1, e2) {
            (LabelSource::CmpTrue(a), LabelSource::CmpTrue(b)) => {
                lemma_cmp_def_label_injective(a, true, b, true);
            },
            (LabelSource::CmpTrue(a), LabelSource::CmpFalse(b)) => {
                lemma_cmp_def_label_injective(a, true, b, false);
            },
            (LabelSource::CmpFalse(a), LabelSource::CmpTrue(b)) => {
                lemma_cmp_def_label_injective(a, false, b, true);
            },
            (LabelSource::CmpFalse(a), LabelSource::CmpFalse(b)) => {
                lemma_cmp_def_label_injective(a, false, b, false);
            },
            (LabelSource::RetAddr(f1, a), LabelSource::RetAddr(f2, b)) => {
                lemma_return_symbol_injective(f1, a, f2, b);
            },
            (LabelSource::UserLabel(f1, l1), LabelSource::UserLabel(f2, l2)) => {
                lemma_goto_symbol_injective(f1, l1, f2, l2);
            },
            (LabelSource::FuncEntry(a), LabelSource::FuncEntry(b)) => {
                lemma_function_symbol_injective(a, b);
            },
            _ => {},
        }
    }
}

/// Every comparison event of a run carries a counter at or above the
/// starting comparison counter, and every return-address event one at or
/// above the starting return counter.
pub open spec fn events_bounded(evs: Seq<LabelSource>, ifd0: nat, ra0: nat) -> bool {
    forall|i: int|
        0 <= i < evs.len() ==> match #[trigger] evs[i] {
            LabelSource::CmpTrue(n) => n >= ifd0,
            LabelSource::CmpFalse(n) => n >= ifd0,
            LabelSource::RetAddr(_, n) => n >= ra0,
            _ => true,
        }
}

proof fn lemma_run_events_bounded(st: TransState, lines: Seq<Seq<char>>)
    ensures
        events_bounded(run_events(st, lines), st.ifd, st.ra),
    decreases lines.len(),
{
    if lines.len() > 0 && step(st, lines[0]).1 is None {
        let st1 = step(st, lines[0]).0;
        lemma_run_events_bounded(st1, lines.drop_first());
        lemma_step_counters(st, lines[0]);
        let se = step_events(st, lines[0]);
        let rest = run_events(st1, lines.drop_first());
        assert forall|i: int| 0 <= i < run_events(st, lines).len() implies match #[trigger] run_events(
            st,
            lines,
        )[i] {
            LabelSource::CmpTrue(n) => n >= st.ifd,
            LabelSource::CmpFalse(n) => n >= st.ifd,
            LabelSource::RetAddr(_, n) => n >= st.ra,
            _ => true,
        } by {
            if i < se.len() {
                assert(run_events(st, lines)[i] == se[i]);
            } else {
                assert(run_events(st, lines)[i] == rest[i - se.len()]);
            }
        }
    }
}

/// Label uniqueness: over one whole run on any command sequence, no two
/// definition-style labels the translator emits share a name, as long as
/// the program itself is well scoped (`scoping_ok`): generated labels are
/// kept apart by the monotone counters, user-scoped labels by the
/// hypotheses, and the families by their distinct prefixes.
#[verifier::rlimit(100)]
pub proof fn theorem_labels_unique(st: TransState, lines: Seq<Seq<char>>)
    requires
        scoping_ok(run_events(st, lines)),
    ensures
        distinct_labels(run_events(st, lines)),
    decreases lines.len(),
{
    let evs = run_events(st, lines);
    if lines.len() == 0 {
    } else {
        let line = lines[0];
        let se = step_events(st, line);
        let r = step(st, line);
        if r.1 is Some {
            assert(se =~= Seq::<LabelSource>::empty());
            assert(evs.len() == 0);
        } else {
            let rest = run_events(r.0, lines.drop_first());
            assert(evs == se + rest);
            assert(se.len() + rest.len() == evs.len());
            assert forall|i: int| 0 <= i < evs.len() implies evs[i] == (if i < se.len() {
                se[i]
            } else {
                rest[i - se.len()]
            }) by {}
            assert(scoping_ok(rest)) by {
                assert forall|i: int, j: int|
                    0 <= i < j < rest.len() && (#[trigger] rest[i]) is UserLabel && (
                    #[trigger] rest[j]) is UserLabel implies rest[i] != rest[j] by {
                    assert(rest[i] == evs[se.len() + i]);
                    assert(rest[j] == evs[se.len() + j]);
                }
                assert forall|i: int, j: int|
                    0 <= i < j < rest.len() && (#[trigger] rest[i]) is FuncEntry && (
                    #[trigger] rest[j]) is FuncEntry implies rest[i] != rest[j] by {
                    assert(rest[i] == evs[se.len() + i]);
                    assert(rest[j] == evs[se.len() + j]);
                }
                assert forall|i: int|
                    0 <= i < rest.len() && (#[trigger] rest[i]) is UserLabel implies !rest[i]
                    ->UserLabel_0.contains('-') by {
                    assert(rest[i] == evs[se.len() + i]);
                }
            }
            theorem_labels_unique(r.0, lines.drop_first());
            lemma_run_events_bounded(r.0, lines.drop_first());
            lemma_step_counters(st, line);
            assert forall|i: int, j: int| 0 <= i < j < evs.len() implies label_text(
                #[trigger] evs[i],
            ) != label_text(#[trigger] evs[j]) by {
                if j < se.len() {
                    // Both labels come from the one command: at most the
                    // true/false pair of a single comparison.
                    assert(i == 0 && j == 1);
                    lemma_separated_sources(se[0], se[1]);
                } else if i >= se.len() {
                    assert(evs[i] == rest[i - se.len()]);
                    assert(evs[j] == rest[j - se.len()]);
                } else {
                    let e1 = evs[i];
                    let e2 = rest[j - se.len()];
                    assert(evs[j] == e2);
                    assert(separated(e1, e2)) by {
                        match (e1, e2) {
                            (LabelSource::CmpTrue(a), LabelSource::CmpTrue(b)) => {
                                assert(a == st.ifd && r.0.ifd == st.ifd + 1 && b >= r.0.ifd);
                            },
                            (LabelSource::CmpTrue(a), LabelSource::CmpFalse(b)) => {},
                            (LabelSource::CmpFalse(a), LabelSource::CmpTrue(b)) => {
                                assert(a == st.ifd && r.0.ifd == st.ifd + 1 && b >= r.0.ifd);
                            },
                            (LabelSource::CmpFalse(a), LabelSource::CmpFalse(b)) => {
                                assert(a == st.ifd && r.0.ifd == st.ifd + 1 && b >= r.0.ifd);
                            },
                            (LabelSource::RetAddr(_, a), LabelSource::RetAddr(_, b)) => {
                                assert(a == st.ra && r.0.ra == st.ra + 1 && b >= r.0.ra);
                            },
                            (LabelSource::UserLabel(f1, l1), LabelSource::UserLabel(f2, l2)) => {},
                            (LabelSource::FuncEntry(a), LabelSource::FuncEntry(b)) => {},
                            _ => {},
                        }
                    }
                    lemma_separated_sources(e1, e2);
                }
            }
        }
    }
}

/// Re-entering a comparison is idempotent in shape and fresh in labels:
/// distinct counter values give four pairwise distinct definition labels,
/// and the two fragments are the same template around their own label
/// (`lemma_compare_text_template`).
pub proof fn lemma_comparison_reentry(n1: nat, n2: nat)
    requires
        n1 != n2,
    ensures
        cmp_def_label(n1, true) != cmp_def_label(n2, true),
        cmp_def_label(n1, false) != cmp_def_label(n2, false),
        cmp_def_label(n1, true) != cmp_def_label(n2, false),
        cmp_def_label(n1, true) != cmp_def_label(n1, false),
        crate::converter::eq_text(ifd_symbol_text(n1)) == crate::converter::cmp_chunk_head()
            + ifd_symbol_text(n1) + crate::converter::cmp_chunk_jump("JEQ"@) + ifd_symbol_text(n1)
            + crate::converter::cmp_chunk_branch() + ifd_symbol_text(n1)
            + crate::converter::cmp_chunk_true_arm() + ifd_symbol_text(n1)
            + crate::converter::cmp_chunk_tail(),
{
    lemma_separated_sources(LabelSource::CmpTrue(n1), LabelSource::CmpTrue(n2));
    lemma_separated_sources(LabelSource::CmpFalse(n1), LabelSource::CmpFalse(n2));
    lemma_separated_sources(LabelSource::CmpTrue(n1), LabelSource::CmpFalse(n2));
    lemma_separated_sources(LabelSource::CmpTrue(n1), LabelSource::CmpFalse(n1));
    crate::converter::lemma_compare_text_template("JEQ"@, ifd_symbol_text(n1));
}

} // verus!

//! The code writer drives the emitter primitives: it owns the output buffer
//! and the symbol manager, dispatches each VM command to the right emitter,
//! and brackets every fragment with `// [start]` / `// [end]` trace comments
//! echoing the command.  The caller hands the finished buffer to whatever
//! sink it likes.

use vstd::prelude::*;
use crate::converter;
use crate::converter::{add_text, and_text, call_text, eq_text, function_text, goto_text, gt_text,
    if_goto_text, label_def_text, lt_text, neg_text, not_text, or_text, pop_base_text,
    pop_fixed_text, pop_static_text, push_base_text, push_constant_text, push_fixed_text,
    push_static_text, return_text, sub_text};
use crate::dec::{dec_digits, dec_string};
use crate::symbol_manager::{SymbolManager, function_symbol_text, goto_symbol_text,
    ifd_symbol_text, return_symbol_text};
use crate::text::str_eq;

verus! {

// ---------------------------------------------------------------------------
// What each write appends, stated exactly.
// ---------------------------------------------------------------------------

/// The bootstrap preamble: `SP = 256`.
pub open spec fn init_text() -> Seq<char> {
    "@256 \n"@ + "D=A \n"@ + "@SP \n"@ + "M=D \n"@
}

/// The trace comment announcing a new input file.
pub open spec fn file_comment_text(stem: Seq<char>) -> Seq<char> {
    "// [file] "@ + stem + " \n"@
}

/// An arithmetic fragment bracketed by its trace comments.
pub open spec fn arith_block(cmd: Seq<char>, frag: Seq<char>) -> Seq<char> {
    "// [start] "@ + cmd + " \n"@ + frag + "// [end] "@ + cmd + " \n"@
}

/// A push/pop fragment bracketed by its trace comments.
pub open spec fn push_pop_block(cmd: Seq<char>, seg: Seq<char>, index: nat, frag: Seq<char>) -> Seq<
    char,
> {
    "// [start] "@ + cmd + " "@ + seg + " "@ + dec_digits(index) + " \n"@ + frag + "// [end] "@
        + cmd + " "@ + seg + " "@ + dec_digits(index) + " \n"@
}

/// A fragment bracketed by trace comments whose text is `head` verbatim.
pub open spec fn plain_block(head: Seq<char>, frag: Seq<char>) -> Seq<char> {
    "// [start] "@ + head + "\n"@ + frag + "// [end] "@ + head + "\n"@
}

/// The three comparison mnemonics consume a fresh comparison label.
pub open spec fn is_comparison(cmd: Seq<char>) -> bool {
    cmd == "eq"@ || cmd == "gt"@ || cmd == "lt"@
}

/// The fragment an arithmetic mnemonic emits, given the current comparison
/// counter; `None` for an unrecognized mnemonic.
pub open spec fn arith_fragment(cmd: Seq<char>, n: nat) -> Option<Seq<char>> {
    if cmd == "add"@ {
        Some(add_text())
    } else if cmd == "sub"@ {
        Some(sub_text())
    } else if cmd == "neg"@ {
        Some(neg_text())
    } else if cmd == "eq"@ {
        Some(eq_text(ifd_symbol_text(n)))
    } else if cmd == "gt"@ {
        Some(gt_text(ifd_symbol_text(n)))
    } else if cmd == "lt"@ {
        Some(lt_text(ifd_symbol_text(n)))
    } else if cmd == "and"@ {
        Some(and_text())
    } else if cmd == "or"@ {
        Some(or_text())
    } else if cmd == "not"@ {
        Some(not_text())
    } else {
        None
    }
}

/// The fragment `push <seg> <index>` emits; `None` for an unknown segment.
pub open spec fn push_fragment(seg: Seq<char>, index: nat, stem: Seq<char>) -> Option<Seq<char>> {
    if seg == "constant"@ {
        Some(push_constant_text(index))
    } else if seg == "local"@ {
        Some(push_base_text("LCL"@, index))
    } else if seg == "argument"@ {
        Some(push_base_text("ARG"@, index))
    } else if seg == "this"@ {
        Some(push_base_text("THIS"@, index))
    } else if seg == "that"@ {
        Some(push_base_text("THAT"@, index))
    } else if seg == "temp"@ {
        Some(push_fixed_text("R5"@, index))
    } else if seg == "pointer"@ {
        Some(push_fixed_text("THIS"@, index))
    } else if seg == "static"@ {
        Some(push_static_text(index, stem))
    } else {
        None
    }
}

/// The fragment `pop <seg> <index>` emits; `None` for an unknown segment,
/// and in particular for `constant`, which cannot be popped into.
pub open spec fn pop_fragment(seg: Seq<char>, index: nat, stem: Seq<char>) -> Option<Seq<char>> {
    if seg == "local"@ {
        Some(pop_base_text("LCL"@, index))
    } else if seg == "argument"@ {
        Some(pop_base_text("ARG"@, index))
    } else if seg == "this"@ {
        Some(pop_base_text("THIS"@, index))
    } else if seg == "that"@ {
        Some(pop_base_text("THAT"@, index))
    } else if seg == "temp"@ {
        Some(pop_fixed_text("R5"@, index))
    } else if seg == "pointer"@ {
        Some(pop_fixed_text("THIS"@, index))
    } else if seg == "static"@ {
        Some(pop_static_text(index, stem))
    } else {
        None
    }
}

/// The fragment a push/pop command emits; `None` when the direction or the
/// direction/segment combination is invalid.
pub open spec fn push_pop_fragment(
    cmd: Seq<char>,
    seg: Seq<char>,
    index: nat,
    stem: Seq<char>,
) -> Option<Seq<char>> {
    if cmd == "push"@ {
        push_fragment(seg, index, stem)
    } else if cmd == "pop"@ {
        pop_fragment(seg, index, stem)
    } else {
        None
    }
}

/// The diagnostic for a command word the dispatcher does not know.
pub open spec fn unknown_command_msg(cmd: Seq<char>) -> Seq<char> {
    "unrecognized command: "@ + cmd
}

/// The diagnostic for a push/pop whose segment is unknown or illegal.
pub open spec fn unknown_segment_msg(cmd: Seq<char>, seg: Seq<char>) -> Seq<char> {
    "invalid segment for "@ + cmd + ": "@ + seg
}

/// The diagnostic `write_push_pop` returns when it emits nothing.
pub open spec fn push_pop_error_msg(cmd: Seq<char>, seg: Seq<char>) -> Seq<char> {
    if cmd == "push"@ || cmd == "pop"@ {
        unknown_segment_msg(cmd, seg)
    } else {
        unknown_command_msg(cmd)
    }
}

fn unknown_command_error(cmd: &str) -> (r: String)
    ensures
        r@ == unknown_command_msg(cmd@),
{
    let mut s = String::new();
    s.append("unrecognized command: ");
    s.append(cmd);
    proof {
        assert(s@ =~= unknown_command_msg(cmd@));
    }
    s
}

fn unknown_segment_error(cmd: &str, seg: &str) -> (r: String)
    ensures
        r@ == unknown_segment_msg(cmd@, seg@),
{
    let mut s = String::new();
    s.append("invalid segment for ");
    s.append(cmd);
    s.append(": ");
    s.append(seg);
    proof {
        assert(s@ =~= unknown_segment_msg(cmd@, seg@));
    }
    s
}

// ---------------------------------------------------------------------------
// The writer itself.
// ---------------------------------------------------------------------------

/// Owns the output buffer and the symbol manager for one whole run; files
/// are translated one after the other into the same buffer.
pub struct CodeWriter {
    filename: String,
    sm: SymbolManager,
    buf: String,
}

impl CodeWriter {
    /// Everything emitted so far.
    pub closed spec fn out(self) -> Seq<char> {
        self.buf@
    }

    /// The stem of the file being translated, used to mangle `static`.
    pub closed spec fn file_stem(self) -> Seq<char> {
        self.filename@
    }

    /// The VM function whose body is being translated.
    pub closed spec fn func(self) -> Seq<char> {
        self.sm.func()
    }

    /// The comparison-label counter.
    pub closed spec fn ifd(self) -> nat {
        self.sm.ifd()
    }

    /// The return-address-label counter.
    pub closed spec fn ra(self) -> nat {
        self.sm.ra()
    }

    pub fn new() -> (r: CodeWriter)
        ensures
            r.out() == Seq::<char>::empty(),
            r.file_stem() == Seq::<char>::empty(),
            r.func() == Seq::<char>::empty(),
            r.ifd() == 0,
            r.ra() == 0,
    {
        CodeWriter { filename: String::new(), sm: SymbolManager::new(), buf: String::new() }
    }

    /// The emitted assembly text.
    pub fn output(&self) -> (r: &String)
        ensures
            r@ == self.out(),
    {
        &self.buf
    }

    /// Records that a new input file begins and emits its trace comment;
    /// subsequent `static` references mangle with this stem.
    pub fn set_file_name(&mut self, filename: &str)
        ensures
            final(self).file_stem() == filename@,
            final(self).out() == old(self).out() + file_comment_text(filename@),
            final(self).func() == old(self).func(),
            final(self).ifd() == old(self).ifd(),
            final(self).ra() == old(self).ra(),
    {
        self.filename = filename.to_owned();
        self.buf.append("// [file] ");
        self.buf.append(filename);
        self.buf.append(" \n");
        proof {
            assert(self.buf@ =~= old(self).out() + file_comment_text(filename@));
        }
    }

    /// Emits the bootstrap: the `SP = 256` preamble followed by the
    /// implicit `call Sys.init 0`, which consumes one return-address label.
    /// It must be called exactly once, before any other write, so that both
    /// precede all file content.
    pub fn write_init(&mut self)
        requires
            old(self).ra() < usize::MAX,
        ensures
            final(self).out() == old(self).out() + init_text() + plain_block(
                "call "@ + "Sys.init"@ + " "@ + dec_digits(0),
                call_text(
                    function_symbol_text("Sys.init"@),
                    0,
                    return_symbol_text(old(self).func(), old(self).ra()),
                ),
            ),
            final(self).ra() == old(self).ra() + 1,
            final(self).file_stem() == old(self).file_stem(),
            final(self).func() == old(self).func(),
            final(self).ifd() == old(self).ifd(),
    {
        self.buf.append("@256 \n");
        self.buf.append("D=A \n");
        self.buf.append("@SP \n");
        self.buf.append("M=D \n");
        proof {
            assert(self.buf@ =~= old(self).out() + init_text());
        }
        let r = self.write_call("Sys.init", 0);
        match r {
            Ok(()) => {},
            Err(_) => {},
        }
        proof {
            assert(self.buf@ =~= old(self).out() + init_text() + plain_block(
                "call "@ + "Sys.init"@ + " "@ + dec_digits(0),
                call_text(
                    function_symbol_text("Sys.init"@),
                    0,
                    return_symbol_text(old(self).func(), old(self).ra()),
                ),
            ));
        }
    }

    /// `label L`: defines the mangled label, scoped to the current
    /// function, bracketed by trace comments echoing the VM text.
    pub fn write_label(&mut self, label: &str) -> (r: Result<(), String>)
        ensures
            r is Ok,
            final(self).out() == old(self).out() + plain_block(
                "label "@ + label@,
                label_def_text(goto_symbol_text(old(self).func(), label@)),
            ),
            final(self).file_stem() == old(self).file_stem(),
            final(self).func() == old(self).func(),
            final(self).ifd() == old(self).ifd(),
            final(self).ra() == old(self).ra(),
    {
        let l = self.sm.get_goto_symbol(label);
        self.buf.append("// [start] ");
        self.buf.append("label ");
        self.buf.append(label);
        self.buf.append("\n");
        self.buf.append("(");
        self.buf.append(l.as_str());
        self.buf.append(") \n");
        self.buf.append("// [end] ");
        self.buf.append("label ");
        self.buf.append(label);
        self.buf.append("\n");
        proof {
            assert(self.buf@ =~= old(self).out() + plain_block(
                "label "@ + label@,
                label_def_text(goto_symbol_text(old(self).func(), label@)),
            ));
        }
        Ok(())
    }

    /// `goto L`: an unconditional jump to the mangled label, bracketed by
    /// trace comments echoing the VM text.
    pub fn write_goto(&mut self, label: &str) -> (r: Result<(), String>)
        ensures
            r is Ok,
            final(self).out() == old(self).out() + plain_block(
                "goto "@ + label@,
                goto_text(goto_symbol_text(old(self).func(), label@)),
            ),
            final(self).file_stem() == old(self).file_stem(),
            final(self).func() == old(self).func(),
            final(self).ifd() == old(self).ifd(),
            final(self).ra() == old(self).ra(),
    {
        let l = self.sm.get_goto_symbol(label);
        self.buf.append("// [start] ");
        self.buf.append("goto ");
        self.buf.append(label);
        self.buf.append("\n");
        self.buf.append("@");
        self.buf.append(l.as_str());
        self.buf.append(" \n");
        self.buf.append("0;JMP \n");
        self.buf.append("// [end] ");
        self.buf.append("goto ");
        self.buf.append(label);
        self.buf.append("\n");
        proof {
            assert(self.buf@ =~= old(self).out() + plain_block(
                "goto "@ + label@,
                goto_text(goto_symbol_text(old(self).func(), label@)),
            ));
        }
        Ok(())
    }

    /// `if-goto L`: pops the top of the stack and jumps to the mangled
    /// label when it is non-zero, bracketed by trace comments echoing the
    /// VM text.
    pub fn write_if_goto(&mut self, label: &str) -> (r: Result<(), String>)
        ensures
            r is Ok,
            final(self).out() == old(self).out() + plain_block(
                "if-goto "@ + label@,
                if_goto_text(goto_symbol_text(old(self).func(), label@)),
            ),
            final(self).file_stem() == old(self).file_stem(),
            final(self).func() == old(self).func(),
            final(self).ifd() == old(self).ifd(),
            final(self).ra() == old(self).ra(),
    {
        let l = self.sm.get_goto_symbol(label);
        let frag = converter::if_goto(l.as_str());
        self.buf.append("// [start] ");
        self.buf.append("if-goto ");
        self.buf.append(label);
        self.buf.append("\n");
        self.buf.append(frag.as_str());
        self.buf.append("// [end] ");
        self.buf.append("if-goto ");
        self.buf.append(label);
        self.buf.append("\n");
        proof {
            assert(self.buf@ =~= old(self).out() + plain_block(
                "if-goto "@ + label@,
                if_goto_text(goto_symbol_text(old(self).func(), label@)),
            ));
        }
        Ok(())
    }

    /// `call f n`: emits the calling-convention prologue with a fresh
    /// return-address label scoped by the calling function.
    #[verifier::rlimit(100)]
    pub fn write_call(&mut self, function: &str, argc: usize) -> (r: Result<(), String>)
        requires
            old(self).ra() < usize::MAX,
        ensures
            r is Ok,
            final(self).out() == old(self).out() + plain_block(
                "call "@ + function@ + " "@ + dec_digits(argc as nat),
                call_text(
                    function_symbol_text(function@),
                    argc as nat,
                    return_symbol_text(old(self).func(), old(self).ra()),
                ),
            ),
            final(self).ra() == old(self).ra() + 1,
            final(self).file_stem() == old(self).file_stem(),
            final(self).func() == old(self).func(),
            final(self).ifd() == old(self).ifd(),
    {
        let funcname = self.sm.get_function_symbol(function);
        let caller = self.sm.current_function().to_owned();
        let return_address = self.sm.get_return_address_symbol(caller.as_str());
        let frag = converter::call(funcname.as_str(), argc, return_address.as_str());
        let n = dec_string(argc);
        self.buf.append("// [start] ");
        self.buf.append("call ");
        self.buf.append(function);
        self.buf.append(" ");
        self.buf.append(n.as_str());
        self.buf.append("\n");
        self.buf.append(frag.as_str());
        self.buf.append("// [end] ");
        self.buf.append("call ");
        self.buf.append(function);
        self.buf.append(" ");
        self.buf.append(n.as_str());
        self.buf.append("\n");
        proof {
            assert(self.buf@ =~= old(self).out() + plain_block(
                "call "@ + function@ + " "@ + dec_digits(argc as nat),
                call_text(
                    function_symbol_text(function@),
                    argc as nat,
                    return_symbol_text(old(self).func(), old(self).ra()),
                ),
            ));
        }
        Ok(())
    }

    /// `function f k`: emits the entry label and `k` zeroed locals, then
    /// makes `f` the current function for label scoping.
    pub fn write_function(&mut self, function: &str, number: usize) -> (r: Result<(), String>)
        ensures
            r is Ok,
            final(self).out() == old(self).out() + plain_block(
                "function "@ + function@ + " "@ + dec_digits(number as nat),
                function_text(function_symbol_text(function@), number as nat),
            ),
            final(self).func() == function@,
            final(self).file_stem() == old(self).file_stem(),
            final(self).ifd() == old(self).ifd(),
            final(self).ra() == old(self).ra(),
    {
        let funcname = self.sm.get_function_symbol(function);
        let frag = converter::function(funcname.as_str(), number);
        let n = dec_string(number);
        self.buf.append("// [start] ");
        self.buf.append("function ");
        self.buf.append(function);
        self.buf.append(" ");
        self.buf.append(n.as_str());
        self.buf.append("\n");
        self.buf.append(frag.as_str());
        self.buf.append("// [end] ");
        self.buf.append("function ");
        self.buf.append(function);
        self.buf.append(" ");
        self.buf.append(n.as_str());
        self.buf.append("\n");
        self.sm.set_function_name(function);
        proof {
            assert(self.buf@ =~= old(self).out() + plain_block(
                "function "@ + function@ + " "@ + dec_digits(number as nat),
                function_text(function_symbol_text(function@), number as nat),
            ));
        }
        Ok(())
    }

    /// `return`: emits the calling-convention epilogue.
    pub fn write_return(&mut self) -> (r: Result<(), String>)
        ensures
            r is Ok,
            final(self).out() == old(self).out() + plain_block("return"@, return_text()),
            final(self).file_stem() == old(self).file_stem(),
            final(self).func() == old(self).func(),
            final(self).ifd() == old(self).ifd(),
            final(self).ra() == old(self).ra(),
    {
        let frag = converter::ret();
        self.buf.append("// [start] ");
        self.buf.append("return");
        self.buf.append("\n");
        self.buf.append(frag.as_str());
        self.buf.append("// [end] ");
        self.buf.append("return");
        self.buf.append("\n");
        proof {
            assert(self.buf@ =~= old(self).out() + plain_block("return"@, return_text()));
        }
        Ok(())
    }

    /// Dispatches one of the nine arithmetic mnemonics; a comparison consumes
    /// a fresh comparison label.  Exactly the unrecognized mnemonics are
    /// rejected, and a rejection leaves no trace in the output.
    #[verifier::rlimit(100)]
    pub fn write_arithmetic(&mut self, command: &str) -> (r: Result<(), String>)
        requires
            old(self).ifd() < usize::MAX,
        ensures
            arith_fragment(command@, old(self).ifd()) is Some ==> r is Ok && final(self).out()
                == old(self).out() + arith_block(
                command@,
                arith_fragment(command@, old(self).ifd())->Some_0,
            ) && final(self).ifd() == old(self).ifd() + (if is_comparison(command@) {
                1int
            } else {
                0int
            }),
            arith_fragment(command@, old(self).ifd()) is None ==> r is Err && r->Err_0@
                == unknown_command_msg(command@) && final(self).out() == old(self).out()
                && final(self).ifd() == old(self).ifd(),
            final(self).file_stem() == old(self).file_stem(),
            final(self).func() == old(self).func(),
            final(self).ra() == old(self).ra(),
    {
        proof {
            reveal_strlit("add");
            reveal_strlit("sub");
            reveal_strlit("neg");
            reveal_strlit("eq");
            reveal_strlit("gt");
            reveal_strlit("lt");
            reveal_strlit("and");
            reveal_strlit("or");
            reveal_strlit("not");
        }
        let frag: String = if str_eq(command, "add") {
            converter::add()
        } else if str_eq(command, "sub") {
            converter::sub()
        } else if str_eq(command, "neg") {
            converter::neg()
        } else if str_eq(command, "eq") {
            let l = self.sm.get_ifd_symbol();
            converter::eq(l.as_str())
        } else if str_eq(command, "gt") {
            let l = self.sm.get_ifd_symbol();
            converter::gt(l.as_str())
        } else if str_eq(command, "lt") {
            let l = self.sm.get_ifd_symbol();
            converter::lt(l.as_str())
        } else if str_eq(command, "and") {
            converter::and()
        } else if str_eq(command, "or") {
            converter::or()
        } else if str_eq(command, "not") {
            converter::not()
        } else {
            return Err(unknown_command_error(command));
        };
        self.buf.append("// [start] ");
        self.buf.append(command);
        self.buf.append(" \n");
        self.buf.append(frag.as_str());
        self.buf.append("// [end] ");
        self.buf.append(command);
        self.buf.append(" \n");
        proof {
            assert(self.buf@ =~= old(self).out() + arith_block(
                command@,
                arith_fragment(command@, old(self).ifd())->Some_0,
            ));
        }
        Ok(())
    }

    /// Dispatches a `push` or `pop` over the eight segments; exactly the
    /// invalid direction/segment combinations are rejected, and a rejection
    /// leaves no trace in the output.
    #[verifier::rlimit(100)]
    pub fn write_push_pop(&mut self, command: &str, segment: &str, index: isize) -> (r: Result<
        (),
        String,
    >)
        requires
            0 <= index,
        ensures
            push_pop_fragment(command@, segment@, index as nat, old(self).file_stem()) is Some
                ==> r is Ok && final(self).out() == old(self).out() + push_pop_block(
                command@,
                segment@,
                index as nat,
                push_pop_fragment(command@, segment@, index as nat, old(self).file_stem())->Some_0,
            ),
            push_pop_fragment(command@, segment@, index as nat, old(self).file_stem()) is None
                ==> r is Err && r->Err_0@ == push_pop_error_msg(command@, segment@)
                && final(self).out() == old(self).out(),
            final(self).file_stem() == old(self).file_stem(),
            final(self).func() == old(self).func(),
            final(self).ifd() == old(self).ifd(),
            final(self).ra() == old(self).ra(),
    {
        proof {
            reveal_strlit("push");
            reveal_strlit("pop");
            reveal_strlit("constant");
            reveal_strlit("local");
            reveal_strlit("argument");
            reveal_strlit("this");
            reveal_strlit("that");
            reveal_strlit("temp");
            reveal_strlit("pointer");
            reveal_strlit("static");
        }
        let frag: String = if str_eq(command, "push") {
            if str_eq(segment, "constant") {
                converter::push_constant(index)
            } else if str_eq(segment, "local") {
                converter::push_local(index)
            } else if str_eq(segment, "argument") {
                converter::push_argument(index)
            } else if str_eq(segment, "this") {
                converter::push_this(index)
            } else if str_eq(segment, "that") {
                converter::push_that(index)
            } else if str_eq(segment, "temp") {
                converter::push_temp(index)
            } else if str_eq(segment, "pointer") {
                converter::push_pointer(index)
            } else if str_eq(segment, "static") {
                converter::push_static(index, self.filename.as_str())
            } else {
                return Err(unknown_segment_error(command, segment));
            }
        } else if str_eq(command, "pop") {
            if str_eq(segment, "local") {
                converter::pop_local(index)
            } else if str_eq(segment, "argument") {
                converter::pop_argument(index)
            } else if str_eq(segment, "this") {
                converter::pop_this(index)
            } else if str_eq(segment, "that") {
                converter::pop_that(index)
            } else if str_eq(segment, "temp") {
                converter::pop_temp(index)
            } else if str_eq(segment, "pointer") {
                converter::pop_pointer(index)
            } else if str_eq(segment, "static") {
                converter::pop_static(index, self.filename.as_str())
            } else {
                return Err(unknown_segment_error(command, segment));
            }
        } else {
            return Err(unknown_command_error(command));
        };
        append_push_pop_block(&mut self.buf, command, segment, index as usize, frag.as_str());
        Ok(())
    }
}

/// Appends one push/pop fragment bracketed by its trace comments.
fn append_push_pop_block(buf: &mut String, command: &str, segment: &str, index: usize, frag: &str)
    ensures
        final(buf)@ == old(buf)@ + push_pop_block(command@, segment@, index as nat, frag@),
{
    let n = dec_string(index);
    buf.append("// [start] ");
    buf.append(command);
    buf.append(" ");
    buf.append(segment);
    buf.append(" ");
    buf.append(n.as_str());
    buf.append(" \n");
    buf.append(frag);
    buf.append("// [end] ");
    buf.append(command);
    buf.append(" ");
    buf.append(segment);
    buf.append(" ");
    buf.append(n.as_str());
    buf.append(" \n");
    proof {
        assert(buf@ =~= old(buf)@ + push_pop_block(command@, segment@, index as nat, frag@));
    }
}

} // verus!

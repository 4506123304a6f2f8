//! End-to-end scenarios: translate VM programs with the library, then run
//! the emitted Hack assembly on a small interpreter and check the machine
//! state the course's CPU emulator would show.

use std::collections::HashMap;
use vm_translator::code_writer::CodeWriter;
use vm_translator::parser::Parser;
use vm_translator::translate::vm_to_asm;

struct Machine {
    mem: Vec<i16>,
}

enum Instr {
    At(i16),
    Comp { dest: String, comp: String, jump: String },
}

fn assemble(text: &str) -> Vec<Instr> {
    let mut labels: HashMap<String, i16> = HashMap::new();
    for (name, addr) in [
        ("SP", 0),
        ("LCL", 1),
        ("ARG", 2),
        ("THIS", 3),
        ("THAT", 4),
    ] {
        labels.insert(name.to_string(), addr);
    }
    for r in 0..16 {
        labels.insert(format!("R{}", r), r as i16);
    }
    let mut lines: Vec<String> = Vec::new();
    for raw in text.lines() {
        let line = match raw.find("//") {
            Some(i) => &raw[..i],
            None => raw,
        };
        let line = line.trim();
        if line.is_empty() {
            continue;
        }
        if line.starts_with('(') {
            let name = line.trim_start_matches('(').trim_end_matches(')').trim();
            labels.insert(name.to_string(), lines.len() as i16);
        } else {
            lines.push(line.to_string());
        }
    }
    let mut next_var: i16 = 16;
    let mut instrs: Vec<Instr> = Vec::new();
    for line in &lines {
        if let Some(sym) = line.strip_prefix('@') {
            let value = match sym.parse::<i16>() {
                Ok(n) => n,
                Err(_) => {
                    if let Some(v) = labels.get(sym) {
                        *v
                    } else {
                        labels.insert(sym.to_string(), next_var);
                        next_var += 1;
                        next_var - 1
                    }
                }
            };
            instrs.push(Instr::At(value));
        } else {
            let (rest, jump) = match line.find(';') {
                Some(i) => (&line[..i], line[i + 1..].trim().to_string()),
                None => (&line[..], String::new()),
            };
            let (dest, comp) = match rest.find('=') {
                Some(i) => (rest[..i].trim().to_string(), rest[i + 1..].trim().to_string()),
                None => (String::new(), rest.trim().to_string()),
            };
            instrs.push(Instr::Comp { dest, comp, jump });
        }
    }
    instrs
}

fn run(text: &str, max_steps: usize) -> Machine {
    let instrs = assemble(text);
    let mut mem = vec![0i16; 32768];
    // The stack pointer starts at 256, as the course's test scripts set it;
    // a translated bootstrap writes the same value itself.
    mem[0] = 256;
    let mut a: i16 = 0;
    let mut d: i16 = 0;
    let mut pc: usize = 0;
    let mut steps = 0;
    while pc < instrs.len() && steps < max_steps {
        steps += 1;
        match &instrs[pc] {
            Instr::At(v) => {
                a = *v;
                pc += 1;
            }
            Instr::Comp { dest, comp, jump } => {
                let addr = (a as u16 as usize) & 0x7fff;
                let m = mem[addr];
                let out: i16 = match comp.as_str() {
                    "0" => 0,
                    "1" => 1,
                    "-1" => -1,
                    "D" => d,
                    "A" => a,
                    "M" => m,
                    "!D" => !d,
                    "!A" => !a,
                    "!M" => !m,
                    "-D" => d.wrapping_neg(),
                    "-A" => a.wrapping_neg(),
                    "-M" => m.wrapping_neg(),
                    "D+1" => d.wrapping_add(1),
                    "A+1" => a.wrapping_add(1),
                    "M+1" => m.wrapping_add(1),
                    "D-1" => d.wrapping_sub(1),
                    "A-1" => a.wrapping_sub(1),
                    "M-1" => m.wrapping_sub(1),
                    "D+A" | "A+D" => d.wrapping_add(a),
                    "D+M" | "M+D" => d.wrapping_add(m),
                    "D-A" => d.wrapping_sub(a),
                    "D-M" => d.wrapping_sub(m),
                    "A-D" => a.wrapping_sub(d),
                    "M-D" => m.wrapping_sub(d),
                    "D&A" | "A&D" => d & a,
                    "D&M" | "M&D" => d & m,
                    "D|A" | "A|D" => d | a,
                    "D|M" | "M|D" => d | m,
                    other => panic!("unsupported computation: {}", other),
                };
                if dest.contains('M') {
                    mem[addr] = out;
                }
                if dest.contains('D') {
                    d = out;
                }
                if dest.contains('A') {
                    a = out;
                }
                let taken = match jump.as_str() {
                    "" => false,
                    "JGT" => out > 0,
                    "JEQ" => out == 0,
                    "JGE" => out >= 0,
                    "JLT" => out < 0,
                    "JNE" => out != 0,
                    "JLE" => out <= 0,
                    "JMP" => true,
                    other => panic!("unsupported jump: {}", other),
                };
                if taken {
                    pc = (a as u16 as usize) & 0x7fff;
                } else {
                    pc += 1;
                }
            }
        }
    }
    Machine { mem }
}

/// Translates the given files in order, as the driver would, and returns the
/// assembly text.  `bootstrap` prepends `write_init`'s output: the `SP=256`
/// preamble and the implicit `call Sys.init 0`.
fn translate(files: &[(&str, &str)], bootstrap: bool) -> String {
    let mut cw = CodeWriter::new();
    if bootstrap {
        cw.write_init();
    }
    for (stem, text) in files {
        cw.set_file_name(stem);
        let mut p = Parser::new(text);
        vm_to_asm(&mut p, &mut cw).unwrap();
    }
    cw.output().clone()
}

#[test]
fn scenario_add_constants() {
    let text = translate(&[("Test", "push constant 7\npush constant 8\nadd\n")], false);
    let m = run(&text, 10_000);
    assert_eq!(m.mem[256], 15);
    assert_eq!(m.mem[0], 257);
}

#[test]
fn scenario_eq_equal_and_unequal() {
    let text = translate(&[("Test", "push constant 17\npush constant 17\neq\n")], false);
    let m = run(&text, 10_000);
    assert_eq!(m.mem[256], -1);
    assert_eq!(m.mem[0], 257);

    let text = translate(&[("Test", "push constant 17\npush constant 18\neq\n")], false);
    let m = run(&text, 10_000);
    assert_eq!(m.mem[256], 0);
    assert_eq!(m.mem[0], 257);
}

#[test]
fn scenario_static_round_trip() {
    let text = translate(
        &[("Foo", "push constant 5\npop static 3\npush static 3\n")],
        false,
    );
    let m = run(&text, 10_000);
    assert_eq!(m.mem[256], 5);
}

#[test]
fn scenario_static_no_aliasing_across_files() {
    let text = translate(
        &[
            ("A", "push constant 1\npop static 0\n"),
            ("B", "push constant 2\npop static 0\n"),
            ("A", "push static 0\n"),
        ],
        false,
    );
    assert!(text.contains("@A.0 \n"));
    assert!(text.contains("@B.0 \n"));
    let m = run(&text, 10_000);
    assert_eq!(m.mem[256], 1);
}

#[test]
fn scenario_call_and_return() {
    let program = "function Sys.init 0\n\
                   call Foo.main 0\n\
                   label HALT\n\
                   goto HALT\n\
                   function Foo.main 2\n\
                   push constant 9\n\
                   return\n";
    let text = translate(&[("Sys", program)], true);
    let m = run(&text, 10_000);
    // Before the inner call SP was 261; zero arguments were pushed, so the
    // calling convention leaves SP at 261 - 0 + 1 with the return value on
    // top of the caller's stack.
    assert_eq!(m.mem[0], 262);
    assert_eq!(m.mem[261], 9);
}

#[test]
fn scenario_sub_operand_order() {
    let text = translate(&[("Test", "push constant 3\npush constant 1\nsub\n")], false);
    let m = run(&text, 10_000);
    assert_eq!(m.mem[256], 2);
    assert_eq!(m.mem[0], 257);
}

#[test]
fn scenario_comparisons_with_negatives() {
    // Stack holds -5 then 3; `gt` asks whether the first-pushed word is
    // greater.
    let text = translate(
        &[("Test", "push constant 5\nneg\npush constant 3\ngt\n")],
        false,
    );
    let m = run(&text, 10_000);
    assert_eq!(m.mem[256], 0);

    let text = translate(
        &[("Test", "push constant 5\nneg\npush constant 3\nlt\n")],
        false,
    );
    let m = run(&text, 10_000);
    assert_eq!(m.mem[256], -1);
}

#[test]
fn scenario_bitwise_ops() {
    let text = translate(&[("Test", "push constant 12\npush constant 10\nand\n")], false);
    assert_eq!(run(&text, 10_000).mem[256], 8);
    let text = translate(&[("Test", "push constant 12\npush constant 10\nor\n")], false);
    assert_eq!(run(&text, 10_000).mem[256], 14);
    let text = translate(&[("Test", "push constant 0\nnot\n")], false);
    assert_eq!(run(&text, 10_000).mem[256], -1);
}

#[test]
fn scenario_segments_and_branching() {
    // Store into temp and pointer, branch on a flag, and read back.
    let program = "push constant 41\n\
                   pop temp 2\n\
                   push constant 1\n\
                   if-goto TAKE\n\
                   push constant 0\n\
                   goto DONE\n\
                   label TAKE\n\
                   push temp 2\n\
                   push constant 1\n\
                   add\n\
                   label DONE\n";
    let text = translate(&[("Test", program)], false);
    let m = run(&text, 10_000);
    assert_eq!(m.mem[256], 42);
    assert_eq!(m.mem[0], 257);
    assert_eq!(m.mem[7], 41);
}

#[test]
fn scenario_label_scoping_across_functions() {
    let program = "function A.f 0\nlabel L\nfunction B.g 0\nlabel L\n";
    let text = translate(&[("Test", program)], false);
    assert!(text.contains("(symbol-goto-A.f-L) \n"));
    assert!(text.contains("(symbol-goto-B.g-L) \n"));
}

#[test]
fn scenario_translation_errors() {
    let mut cw = CodeWriter::new();
    let mut p = Parser::new("frobnicate\n");
    assert_eq!(
        vm_to_asm(&mut p, &mut cw),
        Err("unrecognized command: frobnicate".to_string())
    );

    let mut cw = CodeWriter::new();
    let mut p = Parser::new("push local\n");
    assert_eq!(
        vm_to_asm(&mut p, &mut cw),
        Err("missing or invalid operand".to_string())
    );

    let mut cw = CodeWriter::new();
    let mut p = Parser::new("push constant -3\n");
    assert_eq!(
        vm_to_asm(&mut p, &mut cw),
        Err("missing or invalid operand".to_string())
    );

    let mut cw = CodeWriter::new();
    let mut p = Parser::new("pop constant 3\n");
    assert_eq!(
        vm_to_asm(&mut p, &mut cw),
        Err("invalid segment for pop: constant".to_string())
    );
}

#[test]
fn scenario_local_and_argument_segments() {
    // Give LCL and ARG real bases, then move values through them.
    let program = "function Sys.init 0\n\
                   push constant 11\n\
                   push constant 22\n\
                   call Foo.swap 2\n\
                   label HALT\n\
                   goto HALT\n\
                   function Foo.swap 2\n\
                   push argument 0\n\
                   pop local 1\n\
                   push argument 1\n\
                   pop local 0\n\
                   push local 1\n\
                   return\n";
    let text = translate(&[("Sys", program)], true);
    let m = run(&text, 20_000);
    // Sys.init pushed 11 and 22 at 261 and 262; the call returns one value,
    // the first argument, leaving SP right above it.
    assert_eq!(m.mem[0], 262);
    assert_eq!(m.mem[261], 11);
}

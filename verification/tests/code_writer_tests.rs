use vm_translator::code_writer::CodeWriter;
use vm_translator::symbol_manager::SymbolManager;

#[test]
fn test_code_writer() {
    let _cw = CodeWriter::new();
}

#[test]
fn test_code_writer_write_arithmetic() {
    let mut cw = CodeWriter::new();
    cw.write_push_pop("push", "constant", 1).unwrap();
    cw.write_push_pop("push", "constant", 2).unwrap();

    let mut text = format!(
        "// [start] push constant {n} \n@{n} \nD=A \n@SP \nA=M \nM=D \n@SP \nM=M+1 \n// [end] push constant {n} \n",
        n = 1
    );
    text += &format!(
        "// [start] push constant {n} \n@{n} \nD=A \n@SP \nA=M \nM=D \n@SP \nM=M+1 \n// [end] push constant {n} \n",
        n = 2
    );

    assert_eq!(cw.output(), &text);
    println!("{}", cw.output());

    cw.write_arithmetic("eq").unwrap();
    println!("{}", cw.output());
}

#[test]
fn test_symbol_manager() {
    let _sm = SymbolManager::new();
}

#[test]
fn test_symbol_manager_get_ifd_symbol() {
    let mut sm = SymbolManager::new();
    assert_eq!(&sm.get_ifd_symbol(), "symbol-ifd-0");
    assert_eq!(&sm.get_ifd_symbol(), "symbol-ifd-1");
}

#[test]
fn test_symbol_manager_other_families() {
    let mut sm = SymbolManager::new();
    assert_eq!(&sm.get_function_symbol("Foo.main"), "symbol-function-Foo.main");
    assert_eq!(&sm.get_return_address_symbol("Foo.main"), "symbol-return-address-Foo.main-0");
    assert_eq!(&sm.get_return_address_symbol("Foo.main"), "symbol-return-address-Foo.main-1");
    assert_eq!(&sm.get_goto_symbol("LOOP"), "symbol-goto--LOOP");
    sm.set_function_name("Foo.main");
    assert_eq!(&sm.get_goto_symbol("LOOP"), "symbol-goto-Foo.main-LOOP");
}

#[test]
fn test_write_init_text() {
    let mut cw = CodeWriter::new();
    cw.write_init();
    // The bootstrap: SP = 256, then the implicit `call Sys.init 0` with a
    // fresh return-address label scoped by the (still empty) function.
    let push_d = "@SP \nA=M \nM=D \n@SP \nM=M+1 \n";
    let mut expected = String::from("@256 \nD=A \n@SP \nM=D \n");
    expected += "// [start] call Sys.init 0\n";
    expected += &format!("@symbol-return-address--0 \nD=A \n{}", push_d);
    for reg in ["LCL", "ARG", "THIS", "THAT"] {
        expected += &format!("@{} \nD=M \n{}", reg, push_d);
    }
    expected += "@SP \nD=M \n@0 \nD=D-A \n@5 \nD=D-A \n@ARG \nM=D \n";
    expected += "@SP \nD=M \n@LCL \nM=D \n";
    expected += "@symbol-function-Sys.init \n0;JMP \n";
    expected += "(symbol-return-address--0) \n";
    expected += "// [end] call Sys.init 0\n";
    assert_eq!(cw.output(), &expected);
}

#[test]
fn test_write_label_and_goto_scope() {
    let mut cw = CodeWriter::new();
    cw.write_function("Foo.main", 0).unwrap();
    cw.write_label("LOOP").unwrap();
    cw.write_goto("LOOP").unwrap();
    cw.write_if_goto("LOOP").unwrap();
    let out = cw.output();
    assert!(out.contains("(symbol-goto-Foo.main-LOOP) \n"));
    assert!(out.contains("@symbol-goto-Foo.main-LOOP \n0;JMP \n"));
    assert!(out.contains("@symbol-goto-Foo.main-LOOP \nD;JNE \n"));
    // The trace comments echo the VM command text, not the mangled label.
    assert!(out.contains("// [start] label LOOP\n"));
    assert!(out.contains("// [end] label LOOP\n"));
    assert!(out.contains("// [start] goto LOOP\n"));
    assert!(out.contains("// [start] if-goto LOOP\n"));
    assert!(!out.contains("// [start] goto symbol-goto-"));
}

#[test]
fn test_write_arithmetic_unknown_command() {
    let mut cw = CodeWriter::new();
    let before = cw.output().clone();
    let r = cw.write_arithmetic("bogus");
    assert_eq!(r, Err("unrecognized command: bogus".to_string()));
    assert_eq!(cw.output(), &before);
}

#[test]
fn test_write_push_pop_rejects_pop_constant() {
    let mut cw = CodeWriter::new();
    let r = cw.write_push_pop("pop", "constant", 0);
    assert_eq!(r, Err("invalid segment for pop: constant".to_string()));
    assert_eq!(cw.output().as_str(), "");
}

#[test]
fn test_write_push_pop_rejects_unknown_segment_and_command() {
    let mut cw = CodeWriter::new();
    assert_eq!(
        cw.write_push_pop("push", "stack", 0),
        Err("invalid segment for push: stack".to_string())
    );
    assert_eq!(
        cw.write_push_pop("mov", "local", 0),
        Err("unrecognized command: mov".to_string())
    );
    assert_eq!(cw.output().as_str(), "");
}

#[test]
fn test_write_static_uses_file_stem() {
    let mut cw = CodeWriter::new();
    cw.set_file_name("Foo");
    cw.write_push_pop("pop", "static", 3).unwrap();
    cw.write_push_pop("push", "static", 3).unwrap();
    let out = cw.output();
    assert!(out.starts_with("// [file] Foo \n"));
    assert!(out.contains("@Foo.3 \nM=D \n"));
    assert!(out.contains("@Foo.3 \nD=M \n"));
}

#[test]
fn test_comparison_counter_advances() {
    let mut cw = CodeWriter::new();
    cw.write_arithmetic("eq").unwrap();
    cw.write_arithmetic("eq").unwrap();
    let out = cw.output();
    assert!(out.contains("(symbol-ifd-0-true) \n"));
    assert!(out.contains("(symbol-ifd-1-true) \n"));
    assert!(out.contains("(symbol-ifd-0-false) \n"));
    assert!(out.contains("(symbol-ifd-1-false) \n"));
}

#[test]
fn test_write_call_return_address_scoped_by_caller() {
    let mut cw = CodeWriter::new();
    cw.write_function("Main.run", 0).unwrap();
    cw.write_call("Foo.bar", 2).unwrap();
    let out = cw.output();
    assert!(out.contains("// [start] call Foo.bar 2\n"));
    assert!(out.contains("(symbol-return-address-Main.run-0) \n"));
    assert!(out.contains("@symbol-function-Foo.bar \n0;JMP \n"));
}

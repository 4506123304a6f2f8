use vm_translator::converter;

#[test]
fn test_add() {
    let out = "@SP \nM=M-1 \nA=M \nD=M \n@SP \nM=M-1 \nA=M \nM=M+D \n@SP \nM=M+1 \n".to_string();
    assert_eq!(converter::add(), out);
}

#[test]
fn test_push_constant() {
    let n = 5;
    let out = format!("@{n} \nD=A \n@SP \nA=M \nM=D \n@SP \nM=M+1 \n", n = n);
    assert_eq!(converter::push_constant(n), out);
}

#[test]
fn test_sub_operator_order() {
    let out = "@SP \nM=M-1 \nA=M \nD=M \n@SP \nM=M-1 \nA=M \nM=M-D \n@SP \nM=M+1 \n".to_string();
    assert_eq!(converter::sub(), out);
}

#[test]
fn test_unary_fragments() {
    assert_eq!(converter::neg(), "@SP \nM=M-1 \nA=M \nM=-M \n@SP \nM=M+1 \n");
    assert_eq!(converter::not(), "@SP \nM=M-1 \nA=M \nM=!M \n@SP \nM=M+1 \n");
}

#[test]
fn test_eq_uses_label_twice_per_arm() {
    let text = converter::eq("symbol-ifd-0");
    assert!(text.contains("@symbol-ifd-0-true \n"));
    assert!(text.contains("@symbol-ifd-0-false \n"));
    assert!(text.contains("(symbol-ifd-0-true) \n"));
    assert!(text.contains("(symbol-ifd-0-false) \n"));
    assert!(text.contains("D;JEQ \n"));
    assert!(converter::gt("l").contains("D;JGT \n"));
    assert!(converter::lt("l").contains("D;JLT \n"));
}

#[test]
fn test_push_pop_static_mangling() {
    assert_eq!(
        converter::push_static(3, "Foo"),
        "@Foo.3 \nD=M \n@SP \nA=M \nM=D \n@SP \nM=M+1 \n"
    );
    assert_eq!(
        converter::pop_static(3, "Foo"),
        "@SP \nM=M-1 \nA=M \nD=M \n@Foo.3 \nM=D \n"
    );
}

#[test]
fn test_push_pop_base_segments() {
    assert_eq!(
        converter::push_local(2),
        "@LCL \nD=M \n@2 \nA=D+A \nD=M \n@SP \nA=M \nM=D \n@SP \nM=M+1 \n"
    );
    assert_eq!(
        converter::pop_argument(1),
        "@ARG \nD=M \n@1 \nD=D+A \n@R13 \nM=D \n@SP \nM=M-1 \nA=M \nD=M \n@R13 \nA=M \nM=D \n"
    );
    // Fixed-range segments add the index to the register's address itself.
    assert_eq!(
        converter::push_temp(4),
        "@R5 \nD=A \n@4 \nA=D+A \nD=M \n@SP \nA=M \nM=D \n@SP \nM=M+1 \n"
    );
    assert_eq!(
        converter::pop_pointer(1),
        "@THIS \nD=A \n@1 \nD=D+A \n@R13 \nM=D \n@SP \nM=M-1 \nA=M \nD=M \n@R13 \nA=M \nM=D \n"
    );
}

#[test]
fn test_function_zeroes_locals() {
    let text = converter::function("symbol-function-Foo.main", 2);
    let expected = format!(
        "(symbol-function-Foo.main) \n{z}{z}",
        z = "@0 \nD=A \n@SP \nA=M \nM=D \n@SP \nM=M+1 \n"
    );
    assert_eq!(text, expected);
    assert_eq!(converter::function("symbol-function-f", 0), "(symbol-function-f) \n");
}

#[test]
fn test_call_sequence() {
    let text = converter::call("symbol-function-Foo.main", 2, "symbol-return-address-g-0");
    // Return address pushed first, then the caller's four registers.
    assert!(text.starts_with("@symbol-return-address-g-0 \nD=A \n@SP \nA=M \nM=D \n@SP \nM=M+1 \n@LCL \n"));
    // ARG = SP - argc - 5, LCL = SP, then the jump and the label definition.
    assert!(text.contains("@SP \nD=M \n@2 \nD=D-A \n@5 \nD=D-A \n@ARG \nM=D \n"));
    assert!(text.ends_with("@symbol-function-Foo.main \n0;JMP \n(symbol-return-address-g-0) \n"));
}

#[test]
fn test_return_sequence() {
    let text = converter::ret();
    // The return address is captured from M[R14 - 5] before LCL is restored.
    assert!(text.starts_with("@LCL \nD=M \n@R14 \nM=D \n@R14 \nD=M \n@5 \nA=D-A \nD=M \n@R15 \nM=D \n"));
    // The return value lands in M[ARG] before ARG is restored.
    assert!(text.contains("@SP \nM=M-1 \nA=M \nD=M \n@ARG \nA=M \nM=D \n"));
    assert!(text.ends_with("@R15 \nA=M \n0;JMP \n"));
}

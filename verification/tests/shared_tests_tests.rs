use triton_vm::shared_tests::{
    proof_file_path, proofs_directory, test_halt, test_hash_nop_nop_lt, SourceCodeAndInput,
    FIBONACCI_VIT, FIB_FIXED_7_LT,
};

#[test]
fn without_input_has_empty_inputs() {
    let program = SourceCodeAndInput::without_input("push 1 halt");
    assert_eq!(program.source_code, "push 1 halt");
    assert!(program.input.is_empty());
    assert!(program.secret_input.is_empty());
}

#[test]
fn canned_programs() {
    assert_eq!(test_halt().source_code, "halt");
    assert_eq!(
        test_hash_nop_nop_lt().source_code,
        "hash nop hash nop nop hash push 3 push 2 lt assert halt"
    );
    assert!(test_hash_nop_nop_lt().input.is_empty());
    assert!(FIBONACCI_VIT.contains("write_io"));
    assert!(FIB_FIXED_7_LT.trim_end().ends_with("return"));
}

#[test]
fn proofs_live_in_the_proofs_directory() {
    assert_eq!(proofs_directory(), "proofs/");
    assert_eq!(proof_file_path("halt.proof"), "proofs/halt.proof");
    assert_eq!(proof_file_path(""), "proofs/");
}


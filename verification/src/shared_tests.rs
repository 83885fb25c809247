//! Programs and inputs for exercising the VM, and where proofs are kept on disk.
use vstd::prelude::*;

verus! {

/// Source code and associated input. Primarily for testing of the VM's instructions.
/// The inputs are base field elements, held as their canonical values.
pub struct SourceCodeAndInput {
    pub source_code: String,
    pub input: Vec<u64>,
    pub secret_input: Vec<u64>,
}

impl SourceCodeAndInput {
    /// The given program with empty public and secret input.
    pub fn without_input(source_code: &str) -> (r: Self)
        ensures
            r.source_code@ == source_code@,
            r.input@.len() == 0,
            r.secret_input@.len() == 0,
    {
        Self { source_code: source_code.to_owned(), input: Vec::new(), secret_input: Vec::new() }
    }
}

pub fn test_hash_nop_nop_lt() -> (r: SourceCodeAndInput)
    ensures
        r.source_code@ == "hash nop hash nop nop hash push 3 push 2 lt assert halt"@,
        r.input@.len() == 0,
        r.secret_input@.len() == 0,
{
    SourceCodeAndInput::without_input("hash nop hash nop nop hash push 3 push 2 lt assert halt")
}

pub fn test_halt() -> (r: SourceCodeAndInput)
    ensures
        r.source_code@ == "halt"@,
        r.input@.len() == 0,
        r.secret_input@.len() == 0,
{
    SourceCodeAndInput::without_input("halt")
}

/// The directory, relative to the working directory, in which proofs are stored.
pub fn proofs_directory() -> (dir: String)
    ensures
        dir@ == "proofs/"@,
{
    "proofs/".to_owned()
}

/// The path of the proof file `filename` in the proofs directory.
pub fn proof_file_path(filename: &str) -> (path: String)
    ensures
        path@ == "proofs/"@ + filename@,
{
    proofs_directory().concat(filename)
}

/// `std::path::Path::is_dir` of std: whether `path` names an existing
/// directory. The answer depends on the file system, so nothing is stated of it.
#[verifier::external_body]
fn path_is_dir(path: &str) -> bool {
    std::path::Path::new(path).is_dir()
}

/// Whether the proofs directory exists on disk.
pub fn proofs_directory_exists() -> bool {
    let dir = proofs_directory();
    path_is_dir(dir.as_str())
}

pub const FIBONACCI_VIT: &'static str = "
         push 0
         push 1
         read_io
         dup0
         dup0
         dup0
         mul
         eq
         skiz
         call bar
         call foo
    foo: call bob
         swap1
         push -1
         add
         dup0
         skiz
         recurse
         call baz
    bar: dup0
         push 0
         eq
         skiz
         pop
    baz: pop
         write_io
         halt
    bob: dup2
         dup2
         add
         return
    ";

pub const FIB_SHOOTOUT: &'static str = "
    // Initialize stack: _ 0 1 i
    push 0
    push 1
    divine

    call fib-loop
    write_io  // After loop, this is 0
    write_io  // After loop, this is fib(i)
    halt

    fib-loop:
        dup0 skiz call fib-step
        dup0 skiz recurse
        return

    // Before: _ a b i
    // After: _ b (a+b) (i-1)
    fib-step:
        push -1
        add
        swap2
        dup1
        add
        swap1
        swap2
        return
    ";

pub const MANY_U32_INSTRUCTIONS: &'static str = "
    push 1311768464867721216 split
    push 13387 push 78810 lt
    push     5 push     7 pow
    push 69584 push  6796 xor
    push 64972 push  3915 and
    push 98668 push 15787 div
    push 15787 push 98668 div
    push 98141 push  7397 and
    push 67749 push 60797 lt
    push 49528 split
    push 53483 call lsb
    push 79655 call is_u32
    push 60615 log_2_floor
    push    13 push     5 pow
    push 86323 push 37607 xor
    push 32374 push 20636 pow
    push 97416 log_2_floor
    push 14392 push 31589 div
    halt
    lsb:
        push 2 swap1 div return
    is_u32:
        split pop push 0 eq return";

pub const FIB_FIXED_7_LT: &'static str = "
    push 0
    push 1
    push 7
    push 2
    dup1
    lt
    skiz
    call 29
    call 16
16: call 38
    swap1
    push -1
    add
    dup0
    skiz
    recurse
    call 36
29: dup0
    push 0
    eq
    skiz
    pop
36: pop
    halt
38: dup2
    dup2
    add
    return
";

} // verus!

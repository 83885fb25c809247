# triton_vm (hash table, verified)

The hash table of the Triton VM's algebraic execution trace, written in Verus.

- `src/field.rs`: the base field F_p (p = 2^64 - 2^32 + 1) as canonical `u64`
  values and its cubic extension F_p[x]/(x^3 - x + 1) as `Xfe`; the arithmetic is
  done by `twenty-first` and specified over integers mod p.
- `src/polynomial.rs`: constraint polynomials that are products of linear
  factors (x_i - c), and their evaluation.
- `src/hash_table.rs`: the base and extension tables, the extension of the
  base rows by the two evaluation arguments with the processor table, the
  boundary, transition, consistency and terminal constraints, and proofs that
  honest rows satisfy them and that the consistency polynomials agree with their
  direct evaluation.
- `src/shared_tests.rs`: test programs and the location of stored proofs.
- `app/lib.rs`: reading and writing proofs on disk, and conversions to
  `twenty-first`'s field elements.

Not part of this library, because they rest on parts of the Triton VM that it
does not contain (the VM, the STARK prover, the instruction set, and the
low-degree extension over the FRI domain): parsing, running and simulating
programs and proving their runs. `codeword_table` and `ext_codeword_table` take
the low-degree extended codewords as an argument instead of computing them.

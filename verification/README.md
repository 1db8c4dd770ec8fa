# axkernel

The verified core of a small modular kernel, written in Verus.

`src/` is the library. Its functions carry contracts that Verus proves,
except the small trusted functions described below, whose contracts Verus
believes without proof:

- `addr`, `range`, `iter`: physical and virtual addresses, alignment,
  address ranges and page-by-page iteration.
- `sjf`, `sjf_order`: a shortest-job-first scheduler whose ready queue, a
  `BTreeMap`, is keyed by the moving average of each task's run times, then
  by id.
- `aspace`, `backend`: address-space bounds checks, the fixed-offset mapping
  backend and the decisions of page-by-page frame allocation.
- `flags`, `trap`: mapping flags, page-fault error-code decoding and the
  choice of handler for a trap vector.
- `mem`: the linear physical/virtual mapping and the kernel's physical
  memory regions.
- `elf`: the loadable segments of an ELF image, parsed with `xmas_elf`.
- `task`: per-task extended data.
- `text`: the decimal and hexadecimal text of numbers, for debug output.

Calls into outside crates (`xmas_elf`, `bytemuck`, `x86`, `x86_64`,
`axconfig`) go through small trusted functions, marked
`#[verifier::external_body]`, whose contracts state what the crates'
sources show; nothing but review checks those contracts.

`tests/` exercises the library; `app/` holds the hardware glue (per-CPU
variables, the trap entry, linker symbols, page-table calls) that acts on
the library's decisions.

# standard_udt_contracts

Verified logic of the CKB token scripts: sUDT and xUDT type scripts, their metadata
type scripts, the enhanced sUDT/xUDT variants, and the xUDT AccessList shard script.

Each script is a function from a plain view of the transaction (`chain::TxView`: the
running script's arguments and hash, and the cells of each source) plus what outside
utilities reported (decoded metadata tables, authority checks, token sums, extension runs)
to an outcome, with a specification function stating that outcome exactly. Each authority
result carries the authority it was computed for, and the entry points require it to be the
consumed metadata's own. The call each executed extension is run with (spawn arguments, or
the linked function's inputs) is built by a verified step function that also decides which
extension runs next. Laws about the
scripts (supply tracking is fixed at creation, paused tokens refuse transfers and mints,
holders may always destroy their own tokens, a full-domain AccessList holds every key, ...)
are proof functions next to the rules they speak of.

Layout:

- `src/`: the library, verified with Verus.
  - `bytes`, `byte32`, `molecule`, `ascii`, `domain`: byte strings, 32-byte keys and
    their order and successor, Molecule table headers, text arguments, key ranges.
  - `chain`, `config`, `types`, `sys`, `script`: the transaction view, configuration flags,
    decoded metadata values, syscall and utility errors, and the parts and hash of Molecule
    script bytes.
  - one module per script: `sudt`, `sudt_meta`, `xudt`, `xudt_meta`, `access_list`,
    `enhanced_sudt`, `enhanced_sudt_meta`, `enhanced_xudt`, `enhanced_xudt_meta`.
- `tests/`: scenario tests run against the compiled library.
- `app/`: host glue that reads the transaction through CKB syscalls and performs the
  extension runs the step functions hand out.

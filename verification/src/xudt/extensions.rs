//! xUDT extensions: the script-presence extensions checked against the transaction, and the
//! arguments an executed extension (dynamically linked or spawned) is run with.
use vstd::prelude::*;
use crate::chain::{lock_hash_is, type_hash_is, TxView};
use crate::ascii::{decimal_byte, decimal_text, hex_encode, hex_text};
use crate::script::{parsed_script_hash, parsed_script_parts, script_hash_of, script_parts_of};
use crate::types::{extensions_v, Extension};
use crate::xudt::error::Error;
use crate::xudt::validation::Operation;

verus! {

/// Kind byte of an extension whose script must lock an input.
pub const EXTENSION_INPUT_LOCK: u8 = 0;

/// Kind byte of an extension whose script must type an input.
pub const EXTENSION_INPUT_TYPE: u8 = 1;

/// Kind byte of an extension whose script must type an output.
pub const EXTENSION_OUTPUT_TYPE: u8 = 2;

/// Kind byte of an extension loaded by dynamic linking and asked to validate.
pub const EXTENSION_DYNAMIC_LINKING: u8 = 3;

/// Kind byte of an extension spawned and asked to validate.
pub const EXTENSION_SPAWN: u8 = 4;

/// The code an extension receives for what the flow knows of the mint authority: checked and
/// passed (`1`), checked and failed (`0`), not checked (`2`).
pub open spec fn context_code_of(value: Option<bool>) -> u8 {
    match value {
        Some(true) => 1,
        Some(false) => 0,
        None => 2,
    }
}

/// The outcome of extension `i` (kind byte and script bytes): a script-presence extension needs
/// its script's hash as an input lock, input type or output type; an executed one has the
/// outcome of its run; an unknown kind is invalid metadata.
pub open spec fn extension_outcome(tx: TxView, ext: (u8, Seq<u8>), run: Result<(), Error>) -> Result<(), Error> {
    if ext.0 == EXTENSION_INPUT_LOCK || ext.0 == EXTENSION_INPUT_TYPE || ext.0 == EXTENSION_OUTPUT_TYPE {
        match script_hash_of(ext.1) {
            None => Err(Error::InvalidMetaData),
            Some(h) => if (ext.0 == EXTENSION_INPUT_LOCK && exists|i: int| 0 <= i < tx.inputs@.len() && lock_hash_is(#[trigger] tx.inputs@[i], h))
                || (ext.0 == EXTENSION_INPUT_TYPE && exists|i: int| 0 <= i < tx.inputs@.len() && type_hash_is(#[trigger] tx.inputs@[i], h))
                || (ext.0 == EXTENSION_OUTPUT_TYPE && exists|i: int| 0 <= i < tx.outputs@.len() && type_hash_is(#[trigger] tx.outputs@[i], h)) {
                Ok(())
            } else {
                Err(Error::ExtensionFailed)
            },
        }
    } else if ext.0 == EXTENSION_DYNAMIC_LINKING || ext.0 == EXTENSION_SPAWN {
        match run {
            Ok(_) => Ok(()),
            Err(e) => Err(e),
        }
    } else {
        Err(Error::InvalidMetaData)
    }
}

/// The outcome of the first `n` extensions, in order: the first failure decides.
pub open spec fn extensions_outcome_upto(tx: TxView, exts: Seq<(u8, Seq<u8>)>, runs: Seq<Result<(), Error>>, n: nat) -> Result<(), Error>
    decreases n,
{
    if n == 0 {
        Ok(())
    } else {
        match extensions_outcome_upto(tx, exts, runs, (n - 1) as nat) {
            Err(e) => Err(e),
            Ok(()) => extension_outcome(tx, exts[n - 1], runs[n - 1]),
        }
    }
}

/// The outcome of all the extensions.
pub open spec fn extensions_outcome(tx: TxView, exts: Seq<(u8, Seq<u8>)>, runs: Seq<Result<(), Error>>) -> Result<(), Error> {
    extensions_outcome_upto(tx, exts, runs, exts.len())
}

/// The code an extension receives for what the flow knows of the mint authority.
pub fn mint_authority_context_code(value: Option<bool>) -> (r: u8)
    ensures
        r == context_code_of(value),
{
    match value {
        Some(true) => 1,
        Some(false) => 0,
        None => 2,
    }
}

proof fn lemma_ext_err_sticky(tx: TxView, exts: Seq<(u8, Seq<u8>)>, runs: Seq<Result<(), Error>>, k: nat, m: nat)
    requires
        k <= m,
        extensions_outcome_upto(tx, exts, runs, k) is Err,
    ensures
        extensions_outcome_upto(tx, exts, runs, m) == extensions_outcome_upto(tx, exts, runs, k),
    decreases m - k,
{
    if k < m {
        lemma_ext_err_sticky(tx, exts, runs, k, (m - 1) as nat);
    }
}

/// Runs the metadata's extensions for a flow, in order. `runs[i]` is the outcome of running
/// extension `i`, when it is an executed one, with this operation, its index and the
/// mint-authority context.
pub fn run_extensions(
    tx: &TxView,
    operation: Operation,
    extensions: &Vec<Extension>,
    mint_authority_context: Option<bool>,
    runs: &Vec<Result<(), Error>>,
) -> (r: Result<(), Error>)
    requires
        runs@.len() == extensions@.len(),
    ensures
        r == extensions_outcome(*tx, extensions_v(extensions@), runs@),
{
    let ghost exts = extensions_v(extensions@);
    let mut index: usize = 0;
    while index < extensions.len()
        invariant
            index <= extensions@.len(),
            runs@.len() == extensions@.len(),
            exts == extensions_v(extensions@),
            extensions_outcome_upto(*tx, exts, runs@, index as nat) == Ok::<(), Error>(()),
        decreases extensions@.len() - index,
    {
        let extension = &extensions[index];
        assert(exts[index as int] == (extension.extension_type, extension.script@));
        let kind = extension.extension_type;
        let step = if kind == EXTENSION_INPUT_LOCK {
            require_input_lock_extension(tx, extension)
        } else if kind == EXTENSION_INPUT_TYPE {
            require_type_extension(tx, extension, true)
        } else if kind == EXTENSION_OUTPUT_TYPE {
            require_type_extension(tx, extension, false)
        } else if kind == EXTENSION_DYNAMIC_LINKING || kind == EXTENSION_SPAWN {
            match runs[index] {
                Ok(_) => Ok(()),
                Err(e) => Err(e),
            }
        } else {
            Err(Error::InvalidMetaData)
        };
        match step {
            Ok(()) => {},
            Err(e) => {
                proof {
                    lemma_ext_err_sticky(*tx, exts, runs@, (index + 1) as nat, exts.len());
                }
                return Err(e);
            },
        }
        index = index + 1;
    }
    Ok(())
}

/// The extension's script must lock some input.
pub fn require_input_lock_extension(tx: &TxView, extension: &Extension) -> (r: Result<(), Error>)
    requires
        extension.extension_type == EXTENSION_INPUT_LOCK,
    ensures
        r == extension_outcome(*tx, (extension.extension_type, extension.script@), Err(Error::ExtensionFailed)),
{
    let script_hash = match parsed_script_hash(extension.script.as_slice()) {
        Some(h) => h,
        None => return Err(Error::InvalidMetaData),
    };
    if crate::chain::has_lock_hash(&tx.inputs, &script_hash) {
        Ok(())
    } else {
        Err(Error::ExtensionFailed)
    }
}

/// The extension's script must type some input (`in_inputs`) or some output.
pub fn require_type_extension(tx: &TxView, extension: &Extension, in_inputs: bool) -> (r: Result<(), Error>)
    requires
        extension.extension_type == (if in_inputs { EXTENSION_INPUT_TYPE } else { EXTENSION_OUTPUT_TYPE }),
    ensures
        r == extension_outcome(*tx, (extension.extension_type, extension.script@), Err(Error::ExtensionFailed)),
{
    let script_hash = match parsed_script_hash(extension.script.as_slice()) {
        Some(h) => h,
        None => return Err(Error::InvalidMetaData),
    };
    let cells = if in_inputs { &tx.inputs } else { &tx.outputs };
    if crate::chain::has_type_hash(cells, &script_hash) {
        Ok(())
    } else {
        Err(Error::ExtensionFailed)
    }
}

/// The hash type an executed extension's script is loaded by, from its byte.
#[derive(Clone, Copy, Debug, PartialEq, Eq, Structural)]
pub enum ScriptHashKind {
    Data,
    Type,
    Data1,
    Data2,
}

/// The hash type of a script byte: `0`, `1`, `2` and `4` are known; others are invalid
/// metadata.
pub fn script_hash_type(hash_type: u8) -> (r: Result<ScriptHashKind, Error>)
    ensures
        r == (if hash_type == 0 {
            Ok(ScriptHashKind::Data)
        } else if hash_type == 1 {
            Ok(ScriptHashKind::Type)
        } else if hash_type == 2 {
            Ok(ScriptHashKind::Data1)
        } else if hash_type == 4 {
            Ok(ScriptHashKind::Data2)
        } else {
            Err(Error::InvalidMetaData)
        }),
{
    match hash_type {
        0 => Ok(ScriptHashKind::Data),
        1 => Ok(ScriptHashKind::Type),
        2 => Ok(ScriptHashKind::Data1),
        4 => Ok(ScriptHashKind::Data2),
        _ => Err(Error::InvalidMetaData),
    }
}

/// The hash type a script byte names: `0`, `1`, `2` and `4` are known.
pub open spec fn hash_kind_of(hash_type: u8) -> Option<ScriptHashKind> {
    if hash_type == 0 {
        Some(ScriptHashKind::Data)
    } else if hash_type == 1 {
        Some(ScriptHashKind::Type)
    } else if hash_type == 2 {
        Some(ScriptHashKind::Data1)
    } else if hash_type == 4 {
        Some(ScriptHashKind::Data2)
    } else {
        None
    }
}

/// How an executed extension is run. A spawned one: its script's code hash and hash type, and
/// four text arguments (operation code, extension index, hex of the script's arguments,
/// mint-authority context code, the numbers in decimal). A dynamically linked one: loaded by
/// code hash and hash type, and called with the script's hash, the operation code, the index,
/// the script's raw arguments and the context code.
pub enum ExtensionCall {
    Spawn { code_hash: [u8; 32], hash_type: ScriptHashKind, argv: Vec<Vec<u8>> },
    DynamicLink {
        code_hash: [u8; 32],
        hash_type: ScriptHashKind,
        script_hash: [u8; 32],
        operation_code: u8,
        index_code: u8,
        args: Vec<u8>,
        context_code: u8,
    },
}

/// The value of an extension call.
#[verifier::ext_equal]
pub enum ExtensionCallV {
    Spawn(Seq<u8>, ScriptHashKind, Seq<Seq<u8>>),
    DynamicLink(Seq<u8>, ScriptHashKind, Seq<u8>, u8, u8, Seq<u8>, u8),
}

impl View for ExtensionCall {
    type V = ExtensionCallV;

    open spec fn view(&self) -> ExtensionCallV {
        match self {
            ExtensionCall::Spawn { code_hash, hash_type, argv } => ExtensionCallV::Spawn(
                code_hash@,
                *hash_type,
                argv@.map_values(|a: Vec<u8>| a@),
            ),
            ExtensionCall::DynamicLink { code_hash, hash_type, script_hash, operation_code, index_code, args, context_code } =>
                ExtensionCallV::DynamicLink(code_hash@, *hash_type, script_hash@, *operation_code, *index_code, args@, *context_code),
        }
    }
}

/// The call that runs executed extension `(kind, script)` at index `index`: the script must be
/// a well-formed Molecule script with a known hash type, else the metadata is invalid.
pub open spec fn extension_call_of(kind: u8, script: Seq<u8>, operation: u8, index: u8, context: u8) -> Result<ExtensionCallV, Error> {
    match script_parts_of(script) {
        None => Err(Error::InvalidMetaData),
        Some(parts) => match hash_kind_of(parts.1) {
            None => Err(Error::InvalidMetaData),
            Some(k) => if kind == EXTENSION_SPAWN {
                Ok(ExtensionCallV::Spawn(
                    parts.0,
                    k,
                    seq![decimal_text(operation), decimal_text(index), hex_text(parts.2), decimal_text(context)],
                ))
            } else {
                match script_hash_of(script) {
                    None => Err(Error::InvalidMetaData),
                    Some(h) => Ok(ExtensionCallV::DynamicLink(parts.0, k, h, operation, index, parts.2, context)),
                }
            },
        },
    }
}

/// Builds the call that runs an executed extension for a flow at index `index`.
pub fn extension_call(operation: Operation, index: usize, extension: &Extension, mint_authority_context: Option<bool>) -> (r: Result<ExtensionCall, Error>)
    requires
        extension.extension_type == EXTENSION_DYNAMIC_LINKING || extension.extension_type == EXTENSION_SPAWN,
        extension.script@.len() * 2 <= usize::MAX,
    ensures
        match r {
            Ok(c) => extension_call_of(extension.extension_type, extension.script@, operation.code_of(), index as u8, context_code_of(mint_authority_context)) == Ok::<ExtensionCallV, Error>(c@),
            Err(e) => extension_call_of(extension.extension_type, extension.script@, operation.code_of(), index as u8, context_code_of(mint_authority_context)) == Err::<ExtensionCallV, Error>(e),
        },
{
    let (code_hash, hash_type_byte, args) = match parsed_script_parts(extension.script.as_slice()) {
        Some(p) => p,
        None => return Err(Error::InvalidMetaData),
    };
    let hash_type = script_hash_type(hash_type_byte)?;
    let operation_code = operation.code();
    let index_code = #[verifier::truncate] (index as u8);
    let context_code = mint_authority_context_code(mint_authority_context);
    if extension.extension_type == EXTENSION_SPAWN {
        let mut argv: Vec<Vec<u8>> = Vec::new();
        argv.push(decimal_byte(operation_code));
        argv.push(decimal_byte(index_code));
        argv.push(hex_encode(args.as_slice()));
        argv.push(decimal_byte(context_code));
        assert(argv@.map_values(|a: Vec<u8>| a@) =~= seq![decimal_text(operation_code), decimal_text(index_code), hex_text(args@), decimal_text(context_code)]);
        let c = ExtensionCall::Spawn { code_hash, hash_type, argv };
        assert(c@ == ExtensionCallV::Spawn(code_hash@, hash_type, seq![decimal_text(operation_code), decimal_text(index_code), hex_text(args@), decimal_text(context_code)]));
        Ok(c)
    } else {
        let script_hash = match parsed_script_hash(extension.script.as_slice()) {
            Some(h) => h,
            None => return Err(Error::InvalidMetaData),
        };
        Ok(ExtensionCall::DynamicLink {
            code_hash,
            hash_type,
            script_hash,
            operation_code,
            index_code,
            args,
            context_code,
        })
    }
}

/// What a flow does next with its extensions, from some index on: it is finished (all passed,
/// or the first failure decides), or it must run the executed extension at `index` by `call`.
pub enum NextExtension {
    Finished(Result<(), Error>),
    Execute { index: usize, call: ExtensionCall },
}

/// The value of a next step.
#[verifier::ext_equal]
pub enum NextExtensionV {
    Finished(Result<(), Error>),
    Execute(int, ExtensionCallV),
}

impl View for NextExtension {
    type V = NextExtensionV;

    open spec fn view(&self) -> NextExtensionV {
        match self {
            NextExtension::Finished(r) => NextExtensionV::Finished(*r),
            NextExtension::Execute { index, call } => NextExtensionV::Execute(*index as int, call@),
        }
    }
}

/// The next step from extension `from` on: presence extensions are checked in order, the first
/// failure finishes the flow with its error, an unknown kind finishes it as invalid metadata, an
/// executed extension whose call cannot be built finishes it with that error, and the first
/// executed one that can be run is run; past the last extension the flow is finished and passed.
pub open spec fn next_extension_of(
    tx: TxView,
    exts: Seq<(u8, Seq<u8>)>,
    operation: u8,
    context: u8,
    from: int,
) -> NextExtensionV
    decreases exts.len() - from,
{
    if from < 0 || from >= exts.len() {
        NextExtensionV::Finished(Ok(()))
    } else {
        let kind = exts[from].0;
        if kind == EXTENSION_DYNAMIC_LINKING || kind == EXTENSION_SPAWN {
            match extension_call_of(kind, exts[from].1, operation, from as u8, context) {
                Err(e) => NextExtensionV::Finished(Err(e)),
                Ok(c) => NextExtensionV::Execute(from, c),
            }
        } else {
            match extension_outcome(tx, exts[from], Err(Error::ExtensionFailed)) {
                Err(e) => NextExtensionV::Finished(Err(e)),
                Ok(_) => next_extension_of(tx, exts, operation, context, from + 1),
            }
        }
    }
}

/// The next step of a flow's extensions from index `from` on, for a driver that runs each
/// executed extension it is given and continues after it only when the run passed.
pub fn next_extension(
    tx: &TxView,
    operation: Operation,
    extensions: &Vec<Extension>,
    mint_authority_context: Option<bool>,
    from: usize,
) -> (r: NextExtension)
    requires
        forall|i: int| 0 <= i < extensions@.len() ==> (#[trigger] extensions@[i]).script@.len() * 2 <= usize::MAX,
    ensures
        r@ == next_extension_of(*tx, extensions_v(extensions@), operation.code_of(), context_code_of(mint_authority_context), from as int),
{
    let ghost exts = extensions_v(extensions@);
    let ghost op = operation.code_of();
    let ghost ctx = context_code_of(mint_authority_context);
    let mut index: usize = from;
    while index < extensions.len()
        invariant
            from <= index,
            exts == extensions_v(extensions@),
            op == operation.code_of(),
            ctx == context_code_of(mint_authority_context),
            forall|i: int| 0 <= i < extensions@.len() ==> (#[trigger] extensions@[i]).script@.len() * 2 <= usize::MAX,
            next_extension_of(*tx, exts, op, ctx, from as int) == next_extension_of(*tx, exts, op, ctx, index as int),
        decreases extensions@.len() - index,
    {
        let extension = &extensions[index];
        assert(exts[index as int] == (extension.extension_type, extension.script@));
        let kind = extension.extension_type;
        if kind == EXTENSION_DYNAMIC_LINKING || kind == EXTENSION_SPAWN {
            return match extension_call(operation, index, extension, mint_authority_context) {
                Ok(call) => NextExtension::Execute { index, call },
                Err(e) => NextExtension::Finished(Err(e)),
            };
        }
        let step = if kind == EXTENSION_INPUT_LOCK {
            require_input_lock_extension(tx, extension)
        } else if kind == EXTENSION_INPUT_TYPE {
            require_type_extension(tx, extension, true)
        } else if kind == EXTENSION_OUTPUT_TYPE {
            require_type_extension(tx, extension, false)
        } else {
            Err(Error::InvalidMetaData)
        };
        match step {
            Ok(()) => {},
            Err(e) => {
                return NextExtension::Finished(Err(e));
            },
        }
        index = index + 1;
    }
    NextExtension::Finished(Ok(()))
}

/// The step after the executed extension at `index` reported `run`: a failed run finishes the
/// flow with its error, so no extension after it runs; a passed one continues with the next.
pub fn next_after_run(
    tx: &TxView,
    operation: Operation,
    extensions: &Vec<Extension>,
    mint_authority_context: Option<bool>,
    index: usize,
    run: Result<(), Error>,
) -> (r: NextExtension)
    requires
        forall|i: int| 0 <= i < extensions@.len() ==> (#[trigger] extensions@[i]).script@.len() * 2 <= usize::MAX,
    ensures
        match run {
            Err(e) => r@ == NextExtensionV::Finished(Err(e)),
            Ok(_) => r@ == next_extension_of(*tx, extensions_v(extensions@), operation.code_of(), context_code_of(mint_authority_context), index + 1),
        },
{
    match run {
        Err(e) => NextExtension::Finished(Err(e)),
        Ok(()) => {
            if index < extensions.len() {
                next_extension(tx, operation, extensions, mint_authority_context, index + 1)
            } else {
                NextExtension::Finished(Ok(()))
            }
        },
    }
}

/// Extension `i`, when executed, has its run recorded as the error its call could not be built
/// with.
pub open spec fn call_failure_recorded(
    exts: Seq<(u8, Seq<u8>)>,
    runs: Seq<Result<(), Error>>,
    operation: u8,
    context: u8,
    i: int,
) -> bool {
    (exts[i].0 == EXTENSION_DYNAMIC_LINKING || exts[i].0 == EXTENSION_SPAWN) ==> match extension_call_of(
        exts[i].0,
        exts[i].1,
        operation,
        i as u8,
        context,
    ) {
        Err(e) => runs[i] == Err::<(), Error>(e),
        Ok(_) => true,
    }
}

/// Stepping through the extensions gives the outcome of running them in order: while the
/// extensions before `from` have passed, a finished step carries the outcome of all of them,
/// whatever the runs after the first failure report, and a step that runs extension `i` leaves
/// every extension before `i` passed, so the outcome is decided by that run and the ones after:
/// when that run fails, its error is the outcome.
pub proof fn lemma_steps_follow_outcome(
    tx: TxView,
    exts: Seq<(u8, Seq<u8>)>,
    runs: Seq<Result<(), Error>>,
    operation: u8,
    context: u8,
    from: int,
)
    requires
        runs.len() == exts.len(),
        0 <= from <= exts.len(),
        extensions_outcome_upto(tx, exts, runs, from as nat) is Ok,
        forall|i: int| 0 <= i < exts.len() ==> #[trigger] call_failure_recorded(exts, runs, operation, context, i),
    ensures
        match next_extension_of(tx, exts, operation, context, from) {
            NextExtensionV::Finished(r) => (r is Ok <==> extensions_outcome(tx, exts, runs) is Ok)
                && (r matches Err(e) ==> extensions_outcome(tx, exts, runs) == Err::<(), Error>(e)),
            NextExtensionV::Execute(i, _) => from <= i < exts.len()
                && (exts[i].0 == EXTENSION_DYNAMIC_LINKING || exts[i].0 == EXTENSION_SPAWN)
                && extensions_outcome_upto(tx, exts, runs, i as nat) is Ok
                && (runs[i] matches Err(e) ==> extensions_outcome(tx, exts, runs) == Err::<(), Error>(e)),
        },
    decreases exts.len() - from,
{
    if from < exts.len() {
        let kind = exts[from].0;
        assert(call_failure_recorded(exts, runs, operation, context, from));
        if !(kind == EXTENSION_DYNAMIC_LINKING || kind == EXTENSION_SPAWN) {
            assert(extension_outcome(tx, exts[from], runs[from]) == extension_outcome(tx, exts[from], Err(Error::ExtensionFailed)));
            if extension_outcome(tx, exts[from], Err(Error::ExtensionFailed)) is Ok {
                assert(extensions_outcome_upto(tx, exts, runs, (from + 1) as nat) is Ok);
                lemma_steps_follow_outcome(tx, exts, runs, operation, context, from + 1);
            } else {
                lemma_ext_err_sticky(tx, exts, runs, (from + 1) as nat, exts.len());
            }
        } else if extension_call_of(kind, exts[from].1, operation, from as u8, context) is Err {
            lemma_ext_err_sticky(tx, exts, runs, (from + 1) as nat, exts.len());
        } else if runs[from] is Err {
            lemma_ext_err_sticky(tx, exts, runs, (from + 1) as nat, exts.len());
        }
    }
}

} // verus!

//! Enhanced xUDT extensions: each one is executed (dynamically linked or spawned) and must
//! accept; an extension of another location, or without its script, is invalid metadata.
use vstd::prelude::*;
use crate::enhanced_xudt::run::{attr_v, Operation, ScriptAttr, ScriptAttrV};
use crate::ascii::{decimal_byte, decimal_text, hex_encode, hex_text};
use crate::script::{parsed_script_parts, script_parts_of};
use crate::xudt::error::Error;
use crate::xudt::extensions::{hash_kind_of, script_hash_type, ScriptHashKind};

verus! {

/// Location of an extension loaded by dynamic linking and asked to validate.
pub const LOCATION_DYNAMIC_LINKING: u8 = 3;

/// Location of an extension spawned and asked to validate.
pub const LOCATION_SPAWN: u8 = 4;

/// The outcome of one extension, given what running it reported.
pub open spec fn extension_outcome(ext: ScriptAttrV, run: Result<(), Error>) -> Result<(), Error> {
    if ext.0 == LOCATION_DYNAMIC_LINKING || ext.0 == LOCATION_SPAWN {
        if ext.2 is None {
            Err(Error::InvalidMetaData)
        } else {
            match run {
                Ok(_) => Ok(()),
                Err(e) => Err(e),
            }
        }
    } else {
        Err(Error::InvalidMetaData)
    }
}

/// The outcome of the first `n` extensions, in order: the first failure decides.
pub open spec fn extensions_outcome_upto(exts: Seq<ScriptAttrV>, runs: Seq<Result<(), Error>>, n: nat) -> Result<(), Error>
    decreases n,
{
    if n == 0 {
        Ok(())
    } else {
        match extensions_outcome_upto(exts, runs, (n - 1) as nat) {
            Err(e) => Err(e),
            Ok(()) => extension_outcome(exts[n - 1], runs[n - 1]),
        }
    }
}

/// The outcome of all the extensions.
pub open spec fn extensions_outcome(exts: Seq<ScriptAttrV>, runs: Seq<Result<(), Error>>) -> Result<(), Error> {
    extensions_outcome_upto(exts, runs, exts.len())
}

proof fn lemma_ext_err_sticky(exts: Seq<ScriptAttrV>, runs: Seq<Result<(), Error>>, k: nat, m: nat)
    requires
        k <= m,
        extensions_outcome_upto(exts, runs, k) is Err,
    ensures
        extensions_outcome_upto(exts, runs, m) == extensions_outcome_upto(exts, runs, k),
    decreases m - k,
{
    if k < m {
        lemma_ext_err_sticky(exts, runs, k, (m - 1) as nat);
    }
}

/// Runs the metadata's extensions for a flow, in order. `runs[i]` is what running extension `i`
/// with this operation, its index and whether the mint authority was checked reported.
pub fn run_extensions(
    operation: Operation,
    extensions: &Vec<ScriptAttr>,
    mint_authority_checked: bool,
    runs: &Vec<Result<(), Error>>,
) -> (r: Result<(), Error>)
    requires
        runs@.len() == extensions@.len(),
    ensures
        r == extensions_outcome(extensions@.map_values(|a: ScriptAttr| attr_v(a)), runs@),
{
    let ghost exts = extensions@.map_values(|a: ScriptAttr| attr_v(a));
    let mut index: usize = 0;
    while index < extensions.len()
        invariant
            index <= extensions@.len(),
            runs@.len() == extensions@.len(),
            exts == extensions@.map_values(|a: ScriptAttr| attr_v(a)),
            extensions_outcome_upto(exts, runs@, index as nat) == Ok::<(), Error>(()),
        decreases extensions@.len() - index,
    {
        let extension = &extensions[index];
        assert(exts[index as int] == attr_v(*extension));
        let step = if extension.location == LOCATION_DYNAMIC_LINKING || extension.location == LOCATION_SPAWN {
            if extension.script.is_none() {
                Err(Error::InvalidMetaData)
            } else {
                match runs[index] {
                    Ok(_) => Ok(()),
                    Err(e) => Err(e),
                }
            }
        } else {
            Err(Error::InvalidMetaData)
        };
        assert(attr_v(*extension).2 is None <==> extension.script is None);
        match step {
            Ok(()) => {},
            Err(e) => {
                proof {
                    lemma_ext_err_sticky(exts, runs@, (index + 1) as nat, exts.len());
                }
                return Err(e);
            },
        }
        index = index + 1;
    }
    Ok(())
}

/// How an extension is run. A spawned one: its script's code hash and hash type, and four
/// text arguments (operation code and extension index in decimal, hex of the script's
/// arguments, `1` when the mint authority was checked and `0` otherwise). A dynamically linked
/// one: loaded by code hash, and called with the extension's script hash, the operation code,
/// the index, the script's raw arguments and the checked flag as `1` or `0`.
pub enum EnhancedCall {
    Spawn { code_hash: [u8; 32], hash_type: ScriptHashKind, argv: Vec<Vec<u8>> },
    DynamicLink {
        code_hash: [u8; 32],
        script_hash: [u8; 32],
        operation_code: u8,
        index_code: u8,
        args: Vec<u8>,
        checked: u8,
    },
}

/// The value of an extension call.
#[verifier::ext_equal]
pub enum EnhancedCallV {
    Spawn(Seq<u8>, ScriptHashKind, Seq<Seq<u8>>),
    DynamicLink(Seq<u8>, Seq<u8>, u8, u8, Seq<u8>, u8),
}

impl View for EnhancedCall {
    type V = EnhancedCallV;

    open spec fn view(&self) -> EnhancedCallV {
        match self {
            EnhancedCall::Spawn { code_hash, hash_type, argv } => EnhancedCallV::Spawn(
                code_hash@,
                *hash_type,
                argv@.map_values(|a: Vec<u8>| a@),
            ),
            EnhancedCall::DynamicLink { code_hash, script_hash, operation_code, index_code, args, checked } =>
                EnhancedCallV::DynamicLink(code_hash@, script_hash@, *operation_code, *index_code, args@, *checked),
        }
    }
}

/// The byte a flag is passed as.
pub open spec fn flag_byte(b: bool) -> u8 {
    if b { 1 } else { 0 }
}

/// The call that runs extension `ext` at index `index`: the extension must be executed and
/// carry a well-formed Molecule script (with a known hash type when spawned), else the metadata
/// is invalid.
pub open spec fn enhanced_call_of(ext: ScriptAttrV, operation: u8, index: u8, checked: bool) -> Result<EnhancedCallV, Error> {
    if !(ext.0 == LOCATION_DYNAMIC_LINKING || ext.0 == LOCATION_SPAWN) {
        Err(Error::InvalidMetaData)
    } else {
        match ext.2 {
            None => Err(Error::InvalidMetaData),
            Some(bytes) => match script_parts_of(bytes) {
                None => Err(Error::InvalidMetaData),
                Some(parts) => if ext.0 == LOCATION_SPAWN {
                    match hash_kind_of(parts.1) {
                        None => Err(Error::InvalidMetaData),
                        Some(k) => Ok(EnhancedCallV::Spawn(
                            parts.0,
                            k,
                            seq![decimal_text(operation), decimal_text(index), hex_text(parts.2), decimal_text(flag_byte(checked))],
                        )),
                    }
                } else {
                    Ok(EnhancedCallV::DynamicLink(parts.0, ext.1, operation, index, parts.2, flag_byte(checked)))
                },
            },
        }
    }
}

/// Builds the call that runs extension `extension` for a flow at index `index`.
pub fn extension_call(operation: Operation, index: usize, extension: &ScriptAttr, mint_authority_checked: bool) -> (r: Result<EnhancedCall, Error>)
    requires
        extension.script matches Some(b) ==> b@.len() * 2 <= usize::MAX,
    ensures
        match r {
            Ok(c) => enhanced_call_of(attr_v(*extension), operation.code_of(), index as u8, mint_authority_checked) == Ok::<EnhancedCallV, Error>(c@),
            Err(e) => enhanced_call_of(attr_v(*extension), operation.code_of(), index as u8, mint_authority_checked) == Err::<EnhancedCallV, Error>(e),
        },
{
    if !(extension.location == LOCATION_DYNAMIC_LINKING || extension.location == LOCATION_SPAWN) {
        return Err(Error::InvalidMetaData);
    }
    let bytes = match &extension.script {
        Some(b) => b,
        None => return Err(Error::InvalidMetaData),
    };
    let (code_hash, hash_type_byte, args) = match parsed_script_parts(bytes.as_slice()) {
        Some(p) => p,
        None => return Err(Error::InvalidMetaData),
    };
    let operation_code = operation.code();
    let index_code = #[verifier::truncate] (index as u8);
    let checked: u8 = if mint_authority_checked { 1 } else { 0 };
    if extension.location == LOCATION_SPAWN {
        let hash_type = script_hash_type(hash_type_byte)?;
        let mut argv: Vec<Vec<u8>> = Vec::new();
        argv.push(decimal_byte(operation_code));
        argv.push(decimal_byte(index_code));
        argv.push(hex_encode(args.as_slice()));
        argv.push(decimal_byte(checked));
        assert(argv@.map_values(|a: Vec<u8>| a@) =~= seq![decimal_text(operation_code), decimal_text(index_code), hex_text(args@), decimal_text(checked)]);
        Ok(EnhancedCall::Spawn { code_hash, hash_type, argv })
    } else {
        Ok(EnhancedCall::DynamicLink { code_hash, script_hash: extension.script_hash, operation_code, index_code, args, checked })
    }
}

/// What a flow does next with its extensions, from some index on: finished (all ran and passed,
/// or an extension that cannot be run decides), or it must run extension `index` by `call`.
pub enum NextEnhanced {
    Finished(Result<(), Error>),
    Execute { index: usize, call: EnhancedCall },
}

/// The value of a next step.
#[verifier::ext_equal]
pub enum NextEnhancedV {
    Finished(Result<(), Error>),
    Execute(int, EnhancedCallV),
}

impl View for NextEnhanced {
    type V = NextEnhancedV;

    open spec fn view(&self) -> NextEnhancedV {
        match self {
            NextEnhanced::Finished(r) => NextEnhancedV::Finished(*r),
            NextEnhanced::Execute { index, call } => NextEnhancedV::Execute(*index as int, call@),
        }
    }
}

/// The next step from extension `from` on: past the last extension the flow is finished and
/// passed; an extension whose call cannot be built finishes it with that error; otherwise it is
/// run.
pub open spec fn next_enhanced_of(exts: Seq<ScriptAttrV>, operation: u8, checked: bool, from: int) -> NextEnhancedV {
    if from < 0 || from >= exts.len() {
        NextEnhancedV::Finished(Ok(()))
    } else {
        match enhanced_call_of(exts[from], operation, from as u8, checked) {
            Err(e) => NextEnhancedV::Finished(Err(e)),
            Ok(c) => NextEnhancedV::Execute(from, c),
        }
    }
}

/// The next step of a flow's extensions from index `from` on, for a driver that runs each
/// extension it is given and continues after it only when the run passed.
pub fn next_extension(operation: Operation, extensions: &Vec<ScriptAttr>, mint_authority_checked: bool, from: usize) -> (r: NextEnhanced)
    requires
        forall|i: int| 0 <= i < extensions@.len() ==> ((#[trigger] extensions@[i]).script matches Some(b) ==> b@.len() * 2 <= usize::MAX),
    ensures
        r@ == next_enhanced_of(extensions@.map_values(|a: ScriptAttr| attr_v(a)), operation.code_of(), mint_authority_checked, from as int),
{
    if from >= extensions.len() {
        return NextEnhanced::Finished(Ok(()));
    }
    let extension = &extensions[from];
    assert(extensions@.map_values(|a: ScriptAttr| attr_v(a))[from as int] == attr_v(*extension));
    match extension_call(operation, from, extension, mint_authority_checked) {
        Ok(call) => NextEnhanced::Execute { index: from, call },
        Err(e) => NextEnhanced::Finished(Err(e)),
    }
}

/// The step after the extension at `index` reported `run`: a failed run finishes the flow with
/// its error, so no extension after it runs; a passed one continues with the next.
pub fn next_after_run(
    operation: Operation,
    extensions: &Vec<ScriptAttr>,
    mint_authority_checked: bool,
    index: usize,
    run: Result<(), Error>,
) -> (r: NextEnhanced)
    requires
        forall|i: int| 0 <= i < extensions@.len() ==> ((#[trigger] extensions@[i]).script matches Some(b) ==> b@.len() * 2 <= usize::MAX),
    ensures
        match run {
            Err(e) => r@ == NextEnhancedV::Finished(Err(e)),
            Ok(_) => r@ == next_enhanced_of(extensions@.map_values(|a: ScriptAttr| attr_v(a)), operation.code_of(), mint_authority_checked, index + 1),
        },
{
    match run {
        Err(e) => NextEnhanced::Finished(Err(e)),
        Ok(()) => {
            if index < extensions.len() {
                next_extension(operation, extensions, mint_authority_checked, index + 1)
            } else {
                NextEnhanced::Finished(Ok(()))
            }
        },
    }
}

/// Stepping through the extensions gives the outcome of running them in order: while the
/// extensions before `from` have passed, a finished step carries the outcome of all of them, and
/// a step that runs extension `i` is at `from`, so the outcome is decided by that run and the
/// ones after it: when that run fails, its error is the outcome.
pub proof fn lemma_enhanced_steps_follow_outcome(
    exts: Seq<ScriptAttrV>,
    runs: Seq<Result<(), Error>>,
    operation: u8,
    checked: bool,
    from: int,
)
    requires
        runs.len() == exts.len(),
        0 <= from <= exts.len(),
        extensions_outcome_upto(exts, runs, from as nat) is Ok,
        forall|i: int| 0 <= i < exts.len() ==> (enhanced_call_of(exts[i], operation, i as u8, checked) matches Err(e)
            ==> #[trigger] runs[i] == Err::<(), Error>(e)),
    ensures
        match next_enhanced_of(exts, operation, checked, from) {
            NextEnhancedV::Finished(r) => (r is Ok <==> extensions_outcome(exts, runs) is Ok)
                && (r matches Err(e) ==> extensions_outcome(exts, runs) == Err::<(), Error>(e)),
            NextEnhancedV::Execute(i, _) => i == from && extensions_outcome_upto(exts, runs, i as nat) is Ok
                && (runs[i] matches Err(e) ==> extensions_outcome(exts, runs) == Err::<(), Error>(e)),
        },
{
    if from < exts.len() {
        if enhanced_call_of(exts[from], operation, from as u8, checked) is Err || runs[from] is Err {
            lemma_ext_err_sticky(exts, runs, (from + 1) as nat, exts.len());
        }
    }
}

/// Every extension must accept: when the outcome of the first `n` extensions is success, each
/// of them is executed (dynamically linked or spawned), carries its script, and its run
/// reported success.
pub proof fn lemma_extensions_all_passed_upto(exts: Seq<ScriptAttrV>, runs: Seq<Result<(), Error>>, n: nat)
    requires
        n <= exts.len(),
        n <= runs.len(),
        extensions_outcome_upto(exts, runs, n) is Ok,
    ensures
        forall|i: int| 0 <= i < n ==> (#[trigger] runs[i]) is Ok
            && (exts[i].0 == LOCATION_DYNAMIC_LINKING || exts[i].0 == LOCATION_SPAWN) && exts[i].2 is Some,
    decreases n,
{
    if n > 0 {
        lemma_extensions_all_passed_upto(exts, runs, (n - 1) as nat);
    }
}

/// Every extension must accept: an accepted list of extensions has each one executed, with its
/// script, and its run reporting success.
pub proof fn lemma_extensions_all_passed(exts: Seq<ScriptAttrV>, runs: Seq<Result<(), Error>>)
    requires
        runs.len() == exts.len(),
        extensions_outcome(exts, runs) is Ok,
    ensures
        forall|i: int| 0 <= i < runs.len() ==> (#[trigger] runs[i]) is Ok
            && (exts[i].0 == LOCATION_DYNAMIC_LINKING || exts[i].0 == LOCATION_SPAWN) && exts[i].2 is Some,
{
    lemma_extensions_all_passed_upto(exts, runs, exts.len());
}

} // verus!

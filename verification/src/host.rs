//! The host functions that contracts call to check post-quantum signatures.
//!
//! Parameters are checked first, gas is charged next, memory is read after that,
//! and the signature is checked last. A bad signature is an answer, never a trap.

use vstd::prelude::*;
use vstd::string::StringExecFns;

use crate::signatures::{
    fndsa_accepts, fndsa_valid, mldsa_accepts, mldsa_valid, slhdsa_accepts, slhdsa_valid,
    verify_fndsa, verify_mldsa, verify_slhdsa, FNDSA_PUBLIC_KEY_LEN, FNDSA_SIGNATURE_MAX_LEN,
    MLDSA_PUBLIC_KEY_LEN, MLDSA_SIGNATURE_LEN, SLHDSA_PUBLIC_KEY_LEN, SLHDSA_SIGNATURE_LEN,
};
use crate::text::{decimal, push_decimal};

verus! {

/// Gas for any ML-DSA verification.
pub const MLDSA_VERIFY_BASE_GAS: u64 = 3_000_000_000_000;

/// Gas for each message byte of an ML-DSA verification.
pub const MLDSA_VERIFY_BYTE_GAS: u64 = 5_000_000;

/// Gas for any FN-DSA verification.
pub const FNDSA_VERIFY_BASE_GAS: u64 = 1_400_000_000_000;

/// Gas for each message byte of an FN-DSA verification.
pub const FNDSA_VERIFY_BYTE_GAS: u64 = 5_000_000;

/// Gas for any SLH-DSA verification.
pub const SLHDSA_VERIFY_BASE_GAS: u64 = 8_000_000_000_000;

/// Gas for each message byte of an SLH-DSA verification.
pub const SLHDSA_VERIFY_BYTE_GAS: u64 = 5_000_000;

/// Protocol version from which `ed25519_verify` is banned.
pub const ED25519_VERIFY_BANNED_AT: u32 = 999;

/// Errors returned by host functions; the caller turns them into traps.
#[derive(Debug)]
pub enum HostError {
    /// The gas budget is exhausted.
    OutOfGas,
    /// The bytes asked for do not lie in the contract's memory.
    MemoryOutOfBounds { ptr: u64, len: u64 },
    /// A parameter is not acceptable, for the reason given.
    InvalidParameter(String),
    /// The function no longer exists.
    Deprecated { since: u32 },
}

impl HostError {
    /// The text that describes this error.
    pub open spec fn text(&self) -> Seq<char> {
        match self {
            HostError::OutOfGas => "Out of gas"@,
            HostError::MemoryOutOfBounds { ptr, len } => "Memory access out of bounds: ptr="@
                + decimal(*ptr as nat) + " len="@ + decimal(*len as nat),
            HostError::InvalidParameter(reason) => "Invalid parameter: "@ + reason@,
            HostError::Deprecated { since } => "Host function deprecated in protocol version "@
                + decimal(*since as nat),
        }
    }

    /// Describes this error.
    pub fn message(&self) -> (message: String)
        ensures
            message@ == self.text(),
    {
        let mut message = String::new();
        match self {
            HostError::OutOfGas => {
                message.append("Out of gas");
            },
            HostError::MemoryOutOfBounds { ptr, len } => {
                message.append("Memory access out of bounds: ptr=");
                push_decimal(&mut message, *ptr as u128);
                message.append(" len=");
                push_decimal(&mut message, *len as u128);
            },
            HostError::InvalidParameter(reason) => {
                message.append("Invalid parameter: ");
                message.append(reason.as_str());
            },
            HostError::Deprecated { since } => {
                message.append("Host function deprecated in protocol version ");
                push_decimal(&mut message, *since as u128);
            },
        }
        assert(message@ =~= self.text());
        message
    }
}

/// What the virtual machine offers to a host function.
///
/// The replies of an implementation depend on the context's own state and on the
/// arguments, and the four `spec` functions say how. An implementation that is to be
/// verified has to define all four: their default bodies fix one reply for all
/// arguments, and are there for implementations in ordinary Rust, which cannot
/// define them.
pub trait PqcHostContext: Sized {
    /// The reply to a request to deduct `gas`.
    open spec fn gas_reply(&self, gas: u64) -> Result<(), HostError> {
        arbitrary()
    }

    /// The context after a request to deduct `gas`.
    open spec fn after_gas_request(&self, gas: u64) -> Self {
        arbitrary()
    }

    /// The reply to a request to read `len` bytes at `ptr`.
    open spec fn memory_reply(&self, ptr: u64, len: u64) -> Result<Seq<u8>, HostError> {
        arbitrary()
    }

    /// The protocol version in force.
    open spec fn version_reply(&self) -> u32 {
        arbitrary()
    }

    /// Deduct `gas` from the remaining gas budget.
    /// Returns an error if gas is exhausted.
    fn prepay_gas(&mut self, gas: u64) -> (reply: Result<(), HostError>)
        ensures
            reply == old(self).gas_reply(gas),
            *final(self) == old(self).after_gas_request(gas),
    ;

    /// Read `len` bytes from linear memory at `ptr`.
    /// Returns an error on out-of-bounds.
    fn read_memory(&self, ptr: u64, len: u64) -> (reply: Result<Vec<u8>, HostError>)
        ensures
            match reply {
                Ok(bytes) => self.memory_reply(ptr, len) == Ok::<Seq<u8>, HostError>(bytes@),
                Err(error) => self.memory_reply(ptr, len) == Err::<Seq<u8>, HostError>(error),
            },
    ;

    /// Current protocol version.
    fn protocol_version(&self) -> (version: u32)
        ensures
            version == self.version_reply(),
    ;
}

/// Gas for a verification: a base and a price for each message byte, held at the
/// largest `u64`.
pub open spec fn verification_gas(base: u64, per_byte: u64, msg_len: u64) -> u64 {
    if base + msg_len * per_byte > u64::MAX {
        u64::MAX
    } else {
        (base + msg_len * per_byte) as u64
    }
}

/// The gas that a verification costs.
pub fn gas_for(base: u64, per_byte: u64, msg_len: u64) -> (gas: u64)
    ensures
        gas == verification_gas(base, per_byte, msg_len),
{
    proof {
        assert(0 <= msg_len * per_byte) by (nonlinear_arith);
    }
    match msg_len.checked_mul(per_byte) {
        Some(bytes) => base.saturating_add(bytes),
        None => u64::MAX,
    }
}

/// The signature, message and public key that a host function works on.
pub struct Inputs {
    pub sig: Vec<u8>,
    pub msg: Vec<u8>,
    pub pk: Vec<u8>,
}

/// What a context that has been paid `gas` hands over: the first error among the
/// gas request and the three reads, in that order, or else the three byte strings.
pub open spec fn paid_inputs<C: PqcHostContext>(
    ctx: C,
    gas: u64,
    sig_ptr: u64,
    sig_len: u64,
    msg_ptr: u64,
    msg_len: u64,
    pk_ptr: u64,
    pk_len: u64,
) -> Result<(Seq<u8>, Seq<u8>, Seq<u8>), HostError> {
    match ctx.gas_reply(gas) {
        Err(error) => Err(error),
        Ok(_) => {
            let paid = ctx.after_gas_request(gas);
            match (
                paid.memory_reply(sig_ptr, sig_len),
                paid.memory_reply(msg_ptr, msg_len),
                paid.memory_reply(pk_ptr, pk_len),
            ) {
                (Err(error), _, _) => Err(error),
                (Ok(_), Err(error), _) => Err(error),
                (Ok(_), Ok(_), Err(error)) => Err(error),
                (Ok(sig), Ok(msg), Ok(pk)) => Ok((sig, msg, pk)),
            }
        },
    }
}

/// Charges `gas`, then reads the signature, the message and the public key.
fn pay_and_read<C: PqcHostContext>(
    ctx: &mut C,
    gas: u64,
    sig_ptr: u64,
    sig_len: u64,
    msg_ptr: u64,
    msg_len: u64,
    pk_ptr: u64,
    pk_len: u64,
) -> (result: Result<Inputs, HostError>)
    ensures
        *final(ctx) == old(ctx).after_gas_request(gas),
        match result {
            Ok(inputs) => paid_inputs(
                *old(ctx),
                gas,
                sig_ptr,
                sig_len,
                msg_ptr,
                msg_len,
                pk_ptr,
                pk_len,
            ) == Ok::<(Seq<u8>, Seq<u8>, Seq<u8>), HostError>(
                (inputs.sig@, inputs.msg@, inputs.pk@),
            ),
            Err(error) => paid_inputs(
                *old(ctx),
                gas,
                sig_ptr,
                sig_len,
                msg_ptr,
                msg_len,
                pk_ptr,
                pk_len,
            ) == Err::<(Seq<u8>, Seq<u8>, Seq<u8>), HostError>(error),
        },
{
    match ctx.prepay_gas(gas) {
        Ok(_) => {},
        Err(error) => return Err(error),
    }
    let sig = match ctx.read_memory(sig_ptr, sig_len) {
        Ok(bytes) => bytes,
        Err(error) => return Err(error),
    };
    let msg = match ctx.read_memory(msg_ptr, msg_len) {
        Ok(bytes) => bytes,
        Err(error) => return Err(error),
    };
    let pk = match ctx.read_memory(pk_ptr, pk_len) {
        Ok(bytes) => bytes,
        Err(error) => return Err(error),
    };
    Ok(Inputs { sig, msg, pk })
}

/// The code that a host function answers: one for a valid signature, zero for an
/// invalid one.
pub open spec fn verdict_code(valid: bool) -> u64 {
    if valid {
        1
    } else {
        0
    }
}

/// Answers the code of a verification.
pub fn verdict(valid: bool) -> (code: u64)
    ensures
        code == verdict_code(valid),
{
    if valid {
        1
    } else {
        0
    }
}

/// The reason given for a signature length that is not the one expected.
pub open spec fn wrong_length_text(function: Seq<char>, expected: nat, actual: u64) -> Seq<char> {
    function + ": sig_len must be "@ + decimal(expected) + ", got "@
        + decimal(actual as nat)
}

/// Writes the reason given for a signature length that is not the one expected.
fn wrong_length_message(function: &str, expected: u128, actual: u64) -> (reason: String)
    ensures
        reason@ == wrong_length_text(function@, expected as nat, actual),
{
    let mut reason = String::new();
    reason.append(function);
    reason.append(": sig_len must be ");
    push_decimal(&mut reason, expected);
    reason.append(", got ");
    push_decimal(&mut reason, actual as u128);
    assert(reason@ =~= wrong_length_text(function@, expected as nat, actual));
    reason
}

/// Gas charged by `mldsa_verify` for a message of `msg_len` bytes.
pub open spec fn mldsa_gas(msg_len: u64) -> u64 {
    verification_gas(MLDSA_VERIFY_BASE_GAS, MLDSA_VERIFY_BYTE_GAS, msg_len)
}

/// The answer of `mldsa_verify` to a signature length that it takes: the first
/// error of the context, or else whether the bytes read hold a valid signature.
pub open spec fn mldsa_outcome<C: PqcHostContext>(
    ctx: C,
    sig_len: u64,
    sig_ptr: u64,
    msg_len: u64,
    msg_ptr: u64,
    pk_ptr: u64,
) -> Result<u64, HostError> {
    match paid_inputs(
        ctx,
        mldsa_gas(msg_len),
        sig_ptr,
        sig_len,
        msg_ptr,
        msg_len,
        pk_ptr,
        MLDSA_PUBLIC_KEY_LEN as u64,
    ) {
        Err(error) => Err(error),
        Ok((sig, msg, pk)) => Ok(verdict_code(mldsa_valid(sig, msg, pk))),
    }
}

/// Verify an ML-DSA (Dilithium3 / FIPS 204) detached signature.
///
/// `sig_len` must equal `MLDSA_SIGNATURE_LEN`; the public key takes
/// `MLDSA_PUBLIC_KEY_LEN` bytes at `pk_ptr`.
/// The gas is charged upfront. Answers one for a valid signature and zero for an
/// invalid one.
pub fn mldsa_verify<C: PqcHostContext>(
    ctx: &mut C,
    sig_len: u64,
    sig_ptr: u64,
    msg_len: u64,
    msg_ptr: u64,
    pk_ptr: u64,
) -> (result: Result<u64, HostError>)
    ensures
        sig_len != MLDSA_SIGNATURE_LEN ==> *final(ctx) == *old(ctx) && (result matches Err(
            HostError::InvalidParameter(reason),
        ) && reason@ == wrong_length_text("mldsa_verify"@, MLDSA_SIGNATURE_LEN as nat, sig_len)),
        sig_len == MLDSA_SIGNATURE_LEN ==> *final(ctx) == old(ctx).after_gas_request(
            mldsa_gas(msg_len),
        ) && result == mldsa_outcome(*old(ctx), sig_len, sig_ptr, msg_len, msg_ptr, pk_ptr),
        sig_len == 3293 ==> (match old(ctx).gas_reply(mldsa_gas(msg_len)) {
            Err(error) => result == Err::<u64, HostError>(error),
            Ok(_) => match (
                old(ctx).after_gas_request(mldsa_gas(msg_len)).memory_reply(sig_ptr, sig_len),
                old(ctx).after_gas_request(mldsa_gas(msg_len)).memory_reply(msg_ptr, msg_len),
                old(ctx).after_gas_request(mldsa_gas(msg_len)).memory_reply(pk_ptr, 1952),
            ) {
                (Err(error), _, _) => result == Err::<u64, HostError>(error),
                (Ok(_), Err(error), _) => result == Err::<u64, HostError>(error),
                (Ok(_), Ok(_), Err(error)) => result == Err::<u64, HostError>(error),
                (Ok(sig), Ok(msg), Ok(pk)) => if pk.len() == 1952 && sig.len() <= 3293
                    && mldsa_accepts(sig, msg, pk) {
                    result == Ok::<u64, HostError>(1)
                } else {
                    result == Ok::<u64, HostError>(0)
                },
            },
        }),
{
    if sig_len != MLDSA_SIGNATURE_LEN as u64 {
        return Err(
            HostError::InvalidParameter(
                wrong_length_message("mldsa_verify", MLDSA_SIGNATURE_LEN as u128, sig_len),
            ),
        );
    }
    let gas: u64 = gas_for(MLDSA_VERIFY_BASE_GAS, MLDSA_VERIFY_BYTE_GAS, msg_len);
    match pay_and_read(
        ctx,
        gas,
        sig_ptr,
        sig_len,
        msg_ptr,
        msg_len,
        pk_ptr,
        MLDSA_PUBLIC_KEY_LEN as u64,
    ) {
        Ok(inputs) => Ok(
            verdict(
                verify_mldsa(inputs.sig.as_slice(), inputs.msg.as_slice(), inputs.pk.as_slice()),
            ),
        ),
        Err(error) => Err(error),
    }
}

/// The reason given by `fndsa_verify` for a signature length above the greatest.
pub open spec fn too_long_text(sig_len: u64) -> Seq<char> {
    "fndsa_verify: sig_len "@ + decimal(sig_len as nat) + " exceeds max "@
        + decimal(FNDSA_SIGNATURE_MAX_LEN as nat)
}

/// Writes the reason given by `fndsa_verify` for a signature length above the
/// greatest.
fn too_long_message(sig_len: u64) -> (reason: String)
    ensures
        reason@ == too_long_text(sig_len),
{
    let mut reason = String::new();
    reason.append("fndsa_verify: sig_len ");
    push_decimal(&mut reason, sig_len as u128);
    reason.append(" exceeds max ");
    push_decimal(&mut reason, FNDSA_SIGNATURE_MAX_LEN as u128);
    assert(reason@ =~= too_long_text(sig_len));
    reason
}

/// Gas charged by `fndsa_verify` for a message of `msg_len` bytes.
pub open spec fn fndsa_gas(msg_len: u64) -> u64 {
    verification_gas(FNDSA_VERIFY_BASE_GAS, FNDSA_VERIFY_BYTE_GAS, msg_len)
}

/// The answer of `fndsa_verify` to a signature length that it takes: the first
/// error of the context, or else whether the bytes read hold a valid signature.
pub open spec fn fndsa_outcome<C: PqcHostContext>(
    ctx: C,
    sig_len: u64,
    sig_ptr: u64,
    msg_len: u64,
    msg_ptr: u64,
    pk_ptr: u64,
) -> Result<u64, HostError> {
    match paid_inputs(
        ctx,
        fndsa_gas(msg_len),
        sig_ptr,
        sig_len,
        msg_ptr,
        msg_len,
        pk_ptr,
        FNDSA_PUBLIC_KEY_LEN as u64,
    ) {
        Err(error) => Err(error),
        Ok((sig, msg, pk)) => Ok(verdict_code(fndsa_valid(sig, msg, pk))),
    }
}

/// Verify an FN-DSA (Falcon-512 / FIPS 206) detached signature.
///
/// `sig_len` is variable, from one to `FNDSA_SIGNATURE_MAX_LEN`; the public key
/// takes `FNDSA_PUBLIC_KEY_LEN` bytes at `pk_ptr`.
/// The gas is charged upfront. Answers one for a valid signature and zero for an
/// invalid one.
pub fn fndsa_verify<C: PqcHostContext>(
    ctx: &mut C,
    sig_len: u64,
    sig_ptr: u64,
    msg_len: u64,
    msg_ptr: u64,
    pk_ptr: u64,
) -> (result: Result<u64, HostError>)
    ensures
        sig_len > FNDSA_SIGNATURE_MAX_LEN ==> *final(ctx) == *old(ctx) && (result matches Err(
            HostError::InvalidParameter(reason),
        ) && reason@ == too_long_text(sig_len)),
        sig_len == 0 ==> *final(ctx) == *old(ctx) && (result matches Err(
            HostError::InvalidParameter(reason),
        ) && reason@ == "fndsa_verify: sig_len must be > 0"@),
        0 < sig_len <= FNDSA_SIGNATURE_MAX_LEN ==> *final(ctx) == old(ctx).after_gas_request(
            fndsa_gas(msg_len),
        ) && result == fndsa_outcome(*old(ctx), sig_len, sig_ptr, msg_len, msg_ptr, pk_ptr),
        0 < sig_len <= 752 ==> (match old(ctx).gas_reply(fndsa_gas(msg_len)) {
            Err(error) => result == Err::<u64, HostError>(error),
            Ok(_) => match (
                old(ctx).after_gas_request(fndsa_gas(msg_len)).memory_reply(sig_ptr, sig_len),
                old(ctx).after_gas_request(fndsa_gas(msg_len)).memory_reply(msg_ptr, msg_len),
                old(ctx).after_gas_request(fndsa_gas(msg_len)).memory_reply(pk_ptr, 897),
            ) {
                (Err(error), _, _) => result == Err::<u64, HostError>(error),
                (Ok(_), Err(error), _) => result == Err::<u64, HostError>(error),
                (Ok(_), Ok(_), Err(error)) => result == Err::<u64, HostError>(error),
                (Ok(sig), Ok(msg), Ok(pk)) => if pk.len() == 897 && sig.len() <= 752
                    && fndsa_accepts(sig, msg, pk) {
                    result == Ok::<u64, HostError>(1)
                } else {
                    result == Ok::<u64, HostError>(0)
                },
            },
        }),
{
    if sig_len > FNDSA_SIGNATURE_MAX_LEN as u64 {
        return Err(HostError::InvalidParameter(too_long_message(sig_len)));
    }
    if sig_len == 0 {
        return Err(
            HostError::InvalidParameter("fndsa_verify: sig_len must be > 0".to_owned()),
        );
    }
    let gas: u64 = gas_for(FNDSA_VERIFY_BASE_GAS, FNDSA_VERIFY_BYTE_GAS, msg_len);
    match pay_and_read(
        ctx,
        gas,
        sig_ptr,
        sig_len,
        msg_ptr,
        msg_len,
        pk_ptr,
        FNDSA_PUBLIC_KEY_LEN as u64,
    ) {
        Ok(inputs) => Ok(
            verdict(
                verify_fndsa(inputs.sig.as_slice(), inputs.msg.as_slice(), inputs.pk.as_slice()),
            ),
        ),
        Err(error) => Err(error),
    }
}

/// Gas charged by `slhdsa_verify` for a message of `msg_len` bytes.
pub open spec fn slhdsa_gas(msg_len: u64) -> u64 {
    verification_gas(SLHDSA_VERIFY_BASE_GAS, SLHDSA_VERIFY_BYTE_GAS, msg_len)
}

/// The answer of `slhdsa_verify` to a signature length that it takes: the first
/// error of the context, or else whether the bytes read hold a valid signature.
pub open spec fn slhdsa_outcome<C: PqcHostContext>(
    ctx: C,
    sig_len: u64,
    sig_ptr: u64,
    msg_len: u64,
    msg_ptr: u64,
    pk_ptr: u64,
) -> Result<u64, HostError> {
    match paid_inputs(
        ctx,
        slhdsa_gas(msg_len),
        sig_ptr,
        sig_len,
        msg_ptr,
        msg_len,
        pk_ptr,
        SLHDSA_PUBLIC_KEY_LEN as u64,
    ) {
        Err(error) => Err(error),
        Ok((sig, msg, pk)) => Ok(verdict_code(slhdsa_valid(sig, msg, pk))),
    }
}

/// Verify an SLH-DSA (SPHINCS+-SHA2-128s / FIPS 205) detached signature.
///
/// `sig_len` must equal `SLHDSA_SIGNATURE_LEN`; the public key takes
/// `SLHDSA_PUBLIC_KEY_LEN` bytes at `pk_ptr`.
/// The gas is charged upfront. Answers one for a valid signature and zero for an
/// invalid one.
pub fn slhdsa_verify<C: PqcHostContext>(
    ctx: &mut C,
    sig_len: u64,
    sig_ptr: u64,
    msg_len: u64,
    msg_ptr: u64,
    pk_ptr: u64,
) -> (result: Result<u64, HostError>)
    ensures
        sig_len != SLHDSA_SIGNATURE_LEN ==> *final(ctx) == *old(ctx) && (result matches Err(
            HostError::InvalidParameter(reason),
        ) && reason@ == wrong_length_text("slhdsa_verify"@, SLHDSA_SIGNATURE_LEN as nat, sig_len)),
        sig_len == SLHDSA_SIGNATURE_LEN ==> *final(ctx) == old(ctx).after_gas_request(
            slhdsa_gas(msg_len),
        ) && result == slhdsa_outcome(*old(ctx), sig_len, sig_ptr, msg_len, msg_ptr, pk_ptr),
        sig_len == 7856 ==> (match old(ctx).gas_reply(slhdsa_gas(msg_len)) {
            Err(error) => result == Err::<u64, HostError>(error),
            Ok(_) => match (
                old(ctx).after_gas_request(slhdsa_gas(msg_len)).memory_reply(sig_ptr, sig_len),
                old(ctx).after_gas_request(slhdsa_gas(msg_len)).memory_reply(msg_ptr, msg_len),
                old(ctx).after_gas_request(slhdsa_gas(msg_len)).memory_reply(pk_ptr, 32),
            ) {
                (Err(error), _, _) => result == Err::<u64, HostError>(error),
                (Ok(_), Err(error), _) => result == Err::<u64, HostError>(error),
                (Ok(_), Ok(_), Err(error)) => result == Err::<u64, HostError>(error),
                (Ok(sig), Ok(msg), Ok(pk)) => if pk.len() == 32 && sig.len() <= 7856
                    && slhdsa_accepts(sig, msg, pk) {
                    result == Ok::<u64, HostError>(1)
                } else {
                    result == Ok::<u64, HostError>(0)
                },
            },
        }),
{
    if sig_len != SLHDSA_SIGNATURE_LEN as u64 {
        return Err(
            HostError::InvalidParameter(
                wrong_length_message("slhdsa_verify", SLHDSA_SIGNATURE_LEN as u128, sig_len),
            ),
        );
    }
    let gas: u64 = gas_for(SLHDSA_VERIFY_BASE_GAS, SLHDSA_VERIFY_BYTE_GAS, msg_len);
    match pay_and_read(
        ctx,
        gas,
        sig_ptr,
        sig_len,
        msg_ptr,
        msg_len,
        pk_ptr,
        SLHDSA_PUBLIC_KEY_LEN as u64,
    ) {
        Ok(inputs) => Ok(
            verdict(
                verify_slhdsa(inputs.sig.as_slice(), inputs.msg.as_slice(), inputs.pk.as_slice()),
            ),
        ),
        Err(error) => Err(error),
    }
}

/// The classical `ed25519_verify`, deprecated from protocol version
/// `ED25519_VERIFY_BANNED_AT` on.
///
/// On an earlier chain the answer is zero: the caller forwards to the classical
/// path.
pub fn ed25519_verify_or_deprecate<C: PqcHostContext>(
    ctx: &mut C,
    _sig_len: u64,
    _sig_ptr: u64,
    _msg_len: u64,
    _msg_ptr: u64,
    _pk_ptr: u64,
) -> (result: Result<u64, HostError>)
    ensures
        *final(ctx) == *old(ctx),
        old(ctx).version_reply() >= 999 ==> result == Err::<u64, HostError>(
            HostError::Deprecated { since: 999 },
        ),
        old(ctx).version_reply() < 999 ==> result == Ok::<u64, HostError>(0),
        result == if old(ctx).version_reply() >= ED25519_VERIFY_BANNED_AT {
            Err::<u64, HostError>(HostError::Deprecated { since: ED25519_VERIFY_BANNED_AT })
        } else {
            Ok(0)
        },
{
    if ctx.protocol_version() >= ED25519_VERIFY_BANNED_AT {
        return Err(HostError::Deprecated { since: ED25519_VERIFY_BANNED_AT });
    }
    Ok(0)
}

/// The gas of a verification is the base and the price of every message byte, and the
/// largest number where that is more.
pub proof fn law_verification_gas(base: u64, per_byte: u64, msg_len: u64)
    ensures
        base + msg_len * per_byte <= u64::MAX ==> verification_gas(base, per_byte, msg_len) == base
            + msg_len * per_byte,
        base + msg_len * per_byte > u64::MAX ==> verification_gas(base, per_byte, msg_len)
            == u64::MAX,
{
    assert(0 <= msg_len * per_byte) by (nonlinear_arith);
}

/// A verification costs 3, 1.4 or 8 times a million million for ML-DSA, FN-DSA or
/// SLH-DSA, and five million for every message byte.
pub proof fn law_gas_prices(msg_len: u64)
    ensures
        3_000_000_000_000 + msg_len * 5_000_000 <= u64::MAX ==> mldsa_gas(msg_len)
            == 3_000_000_000_000 + msg_len * 5_000_000,
        3_000_000_000_000 + msg_len * 5_000_000 > u64::MAX ==> mldsa_gas(msg_len) == u64::MAX,
        1_400_000_000_000 + msg_len * 5_000_000 <= u64::MAX ==> fndsa_gas(msg_len)
            == 1_400_000_000_000 + msg_len * 5_000_000,
        1_400_000_000_000 + msg_len * 5_000_000 > u64::MAX ==> fndsa_gas(msg_len) == u64::MAX,
        8_000_000_000_000 + msg_len * 5_000_000 <= u64::MAX ==> slhdsa_gas(msg_len)
            == 8_000_000_000_000 + msg_len * 5_000_000,
        8_000_000_000_000 + msg_len * 5_000_000 > u64::MAX ==> slhdsa_gas(msg_len) == u64::MAX,
{
}

/// What is read is what is asked for after the gas is paid, and the first refusal
/// comes back.
pub proof fn law_inputs_are_read_in_order<C: PqcHostContext>(
    ctx: C,
    gas: u64,
    sig_ptr: u64,
    sig_len: u64,
    msg_ptr: u64,
    msg_len: u64,
    pk_ptr: u64,
    pk_len: u64,
)
    ensures
        match (
            ctx.gas_reply(gas),
            ctx.after_gas_request(gas).memory_reply(sig_ptr, sig_len),
            ctx.after_gas_request(gas).memory_reply(msg_ptr, msg_len),
            ctx.after_gas_request(gas).memory_reply(pk_ptr, pk_len),
        ) {
            (Err(error), _, _, _) | (Ok(_), Err(error), _, _) | (Ok(_), Ok(_), Err(error), _) | (
                Ok(_),
                Ok(_),
                Ok(_),
                Err(error),
            ) => paid_inputs(ctx, gas, sig_ptr, sig_len, msg_ptr, msg_len, pk_ptr, pk_len)
                == Err::<(Seq<u8>, Seq<u8>, Seq<u8>), HostError>(error),
            (Ok(_), Ok(sig), Ok(msg), Ok(pk)) => paid_inputs(
                ctx,
                gas,
                sig_ptr,
                sig_len,
                msg_ptr,
                msg_len,
                pk_ptr,
                pk_len,
            ) == Ok::<(Seq<u8>, Seq<u8>, Seq<u8>), HostError>((sig, msg, pk)),
        },
{
}

/// The texts of errors give the numbers and the reason in full.
pub proof fn law_host_error_texts(
    ptr: u64,
    len: u64,
    reason: String,
    since: u32,
    function: Seq<char>,
    expected: nat,
)
    ensures
        (HostError::MemoryOutOfBounds { ptr, len }).text() == "Memory access out of bounds: ptr="@
            + decimal(ptr as nat) + " len="@ + decimal(len as nat),
        HostError::InvalidParameter(reason).text() == "Invalid parameter: "@ + reason@,
        (HostError::Deprecated { since }).text()
            == "Host function deprecated in protocol version "@ + decimal(since as nat),
        wrong_length_text(function, expected, len) == function + ": sig_len must be "@ + decimal(
            expected,
        ) + ", got "@ + decimal(len as nat),
        too_long_text(len) == "fndsa_verify: sig_len "@ + decimal(len as nat) + " exceeds max "@
            + decimal(752),
{
}

/// A longer message never costs less gas.
pub proof fn law_gas_grows_with_message(base: u64, per_byte: u64, shorter: u64, longer: u64)
    requires
        shorter <= longer,
    ensures
        base <= verification_gas(base, per_byte, shorter) <= verification_gas(
            base,
            per_byte,
            longer,
        ),
{
    assert(0 <= shorter * per_byte <= longer * per_byte) by (nonlinear_arith)
        requires
            0 <= shorter <= longer,
            per_byte >= 0,
    ;
}

/// For one message, SLH-DSA costs the most gas and FN-DSA the least.
pub proof fn law_gas_order(msg_len: u64)
    ensures
        fndsa_gas(msg_len) <= mldsa_gas(msg_len) <= slhdsa_gas(msg_len),
{
}

/// Gas comes before memory: where the gas is refused, that refusal is the answer,
/// whatever the pointers are.
pub proof fn law_gas_before_memory<C: PqcHostContext>(
    ctx: C,
    error: HostError,
    sig_len: u64,
    sig_ptr: u64,
    msg_len: u64,
    msg_ptr: u64,
    pk_ptr: u64,
)
    ensures
        ctx.gas_reply(mldsa_gas(msg_len)) == Err::<(), HostError>(error) ==> mldsa_outcome(
            ctx,
            sig_len,
            sig_ptr,
            msg_len,
            msg_ptr,
            pk_ptr,
        ) == Err::<u64, HostError>(error),
        ctx.gas_reply(fndsa_gas(msg_len)) == Err::<(), HostError>(error) ==> fndsa_outcome(
            ctx,
            sig_len,
            sig_ptr,
            msg_len,
            msg_ptr,
            pk_ptr,
        ) == Err::<u64, HostError>(error),
        ctx.gas_reply(slhdsa_gas(msg_len)) == Err::<(), HostError>(error) ==> slhdsa_outcome(
            ctx,
            sig_len,
            sig_ptr,
            msg_len,
            msg_ptr,
            pk_ptr,
        ) == Err::<u64, HostError>(error),
{
}

/// Bytes never trap: once the gas is paid and the bytes are read, the answer of
/// `mldsa_verify` is one or zero, and it is zero for every signature that is not
/// valid.
pub proof fn law_mldsa_bytes_never_trap<C: PqcHostContext>(
    ctx: C,
    sig_len: u64,
    sig_ptr: u64,
    msg_len: u64,
    msg_ptr: u64,
    pk_ptr: u64,
)
    requires
        ctx.gas_reply(mldsa_gas(msg_len)) is Ok,
        ctx.after_gas_request(mldsa_gas(msg_len)).memory_reply(sig_ptr, sig_len) is Ok,
        ctx.after_gas_request(mldsa_gas(msg_len)).memory_reply(msg_ptr, msg_len) is Ok,
        ctx.after_gas_request(mldsa_gas(msg_len)).memory_reply(
            pk_ptr,
            MLDSA_PUBLIC_KEY_LEN as u64,
        ) is Ok,
    ensures
        mldsa_outcome(ctx, sig_len, sig_ptr, msg_len, msg_ptr, pk_ptr) == Ok::<u64, HostError>(
            verdict_code(
                mldsa_valid(
                    ctx.after_gas_request(mldsa_gas(msg_len)).memory_reply(sig_ptr, sig_len)->Ok_0,
                    ctx.after_gas_request(mldsa_gas(msg_len)).memory_reply(msg_ptr, msg_len)->Ok_0,
                    ctx.after_gas_request(mldsa_gas(msg_len)).memory_reply(
                        pk_ptr,
                        MLDSA_PUBLIC_KEY_LEN as u64,
                    )->Ok_0,
                ),
            ),
        ),
{
}

/// Bytes never trap: once the gas is paid and the bytes are read, the answer of
/// `fndsa_verify` is one or zero, and it is zero for every signature that is not
/// valid.
pub proof fn law_fndsa_bytes_never_trap<C: PqcHostContext>(
    ctx: C,
    sig_len: u64,
    sig_ptr: u64,
    msg_len: u64,
    msg_ptr: u64,
    pk_ptr: u64,
)
    requires
        ctx.gas_reply(fndsa_gas(msg_len)) is Ok,
        ctx.after_gas_request(fndsa_gas(msg_len)).memory_reply(sig_ptr, sig_len) is Ok,
        ctx.after_gas_request(fndsa_gas(msg_len)).memory_reply(msg_ptr, msg_len) is Ok,
        ctx.after_gas_request(fndsa_gas(msg_len)).memory_reply(
            pk_ptr,
            FNDSA_PUBLIC_KEY_LEN as u64,
        ) is Ok,
    ensures
        fndsa_outcome(ctx, sig_len, sig_ptr, msg_len, msg_ptr, pk_ptr) == Ok::<u64, HostError>(
            verdict_code(
                fndsa_valid(
                    ctx.after_gas_request(fndsa_gas(msg_len)).memory_reply(sig_ptr, sig_len)->Ok_0,
                    ctx.after_gas_request(fndsa_gas(msg_len)).memory_reply(msg_ptr, msg_len)->Ok_0,
                    ctx.after_gas_request(fndsa_gas(msg_len)).memory_reply(
                        pk_ptr,
                        FNDSA_PUBLIC_KEY_LEN as u64,
                    )->Ok_0,
                ),
            ),
        ),
{
}

/// Bytes never trap: once the gas is paid and the bytes are read, the answer of
/// `slhdsa_verify` is one or zero, and it is zero for every signature that is not
/// valid.
pub proof fn law_slhdsa_bytes_never_trap<C: PqcHostContext>(
    ctx: C,
    sig_len: u64,
    sig_ptr: u64,
    msg_len: u64,
    msg_ptr: u64,
    pk_ptr: u64,
)
    requires
        ctx.gas_reply(slhdsa_gas(msg_len)) is Ok,
        ctx.after_gas_request(slhdsa_gas(msg_len)).memory_reply(sig_ptr, sig_len) is Ok,
        ctx.after_gas_request(slhdsa_gas(msg_len)).memory_reply(msg_ptr, msg_len) is Ok,
        ctx.after_gas_request(slhdsa_gas(msg_len)).memory_reply(
            pk_ptr,
            SLHDSA_PUBLIC_KEY_LEN as u64,
        ) is Ok,
    ensures
        slhdsa_outcome(ctx, sig_len, sig_ptr, msg_len, msg_ptr, pk_ptr) == Ok::<u64, HostError>(
            verdict_code(
                slhdsa_valid(
                    ctx.after_gas_request(slhdsa_gas(msg_len)).memory_reply(sig_ptr, sig_len)->Ok_0,
                    ctx.after_gas_request(slhdsa_gas(msg_len)).memory_reply(msg_ptr, msg_len)->Ok_0,
                    ctx.after_gas_request(slhdsa_gas(msg_len)).memory_reply(
                        pk_ptr,
                        SLHDSA_PUBLIC_KEY_LEN as u64,
                    )->Ok_0,
                ),
            ),
        ),
{
}

} // verus!

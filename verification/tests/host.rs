use pqc_staking::host::{
    ed25519_verify_or_deprecate, fndsa_verify, gas_for, mldsa_verify, slhdsa_verify, verdict,
    HostError, PqcHostContext, ED25519_VERIFY_BANNED_AT, FNDSA_VERIFY_BASE_GAS,
    FNDSA_VERIFY_BYTE_GAS, MLDSA_VERIFY_BASE_GAS, MLDSA_VERIFY_BYTE_GAS, SLHDSA_VERIFY_BASE_GAS,
    SLHDSA_VERIFY_BYTE_GAS,
};
use pqc_staking::signatures::{
    verify_fndsa, verify_mldsa, verify_slhdsa, FNDSA_PUBLIC_KEY_LEN, FNDSA_SIGNATURE_MAX_LEN,
    MLDSA_PUBLIC_KEY_LEN, MLDSA_SIGNATURE_LEN, SLHDSA_PUBLIC_KEY_LEN, SLHDSA_SIGNATURE_LEN,
};
use pqcrypto_dilithium::dilithium3;
use pqcrypto_falcon::falcon512;
use pqcrypto_sphincsplus::sphincssha2128ssimple;
use pqcrypto_traits::sign::{DetachedSignature, PublicKey};

struct MockCtx {
    memory: Vec<u8>,
    gas_remaining: u64,
    protocol_version: u32,
}

impl MockCtx {
    fn new(gas: u64) -> Self {
        Self {
            memory: vec![0u8; 64 * 1024],
            gas_remaining: gas,
            protocol_version: 999,
        }
    }

    fn write(&mut self, offset: usize, data: &[u8]) {
        self.memory[offset..offset + data.len()].copy_from_slice(data);
    }
}

impl PqcHostContext for MockCtx {
    fn prepay_gas(&mut self, gas: u64) -> Result<(), HostError> {
        if self.gas_remaining < gas {
            return Err(HostError::OutOfGas);
        }
        self.gas_remaining -= gas;
        Ok(())
    }

    fn read_memory(&self, ptr: u64, len: u64) -> Result<Vec<u8>, HostError> {
        let start = ptr as usize;
        let end = start + len as usize;
        if end > self.memory.len() {
            return Err(HostError::MemoryOutOfBounds { ptr, len });
        }
        Ok(self.memory[start..end].to_vec())
    }

    fn protocol_version(&self) -> u32 {
        self.protocol_version
    }
}

#[test]
fn test_mldsa_verify_valid_signature() {
    let (pk, sk) = dilithium3::keypair();
    let msg = b"test message for mldsa host fn";
    let sig = dilithium3::detached_sign(msg, &sk);

    let sig_bytes = sig.as_bytes().to_vec();
    let pk_bytes = pk.as_bytes().to_vec();

    let mut ctx = MockCtx::new(u64::MAX);
    let sig_offset = 0usize;
    let msg_offset = sig_offset + MLDSA_SIGNATURE_LEN;
    let pk_offset = msg_offset + msg.len();

    ctx.write(sig_offset, &sig_bytes);
    ctx.write(msg_offset, msg);
    ctx.write(pk_offset, &pk_bytes);

    let result = mldsa_verify(
        &mut ctx,
        MLDSA_SIGNATURE_LEN as u64,
        sig_offset as u64,
        msg.len() as u64,
        msg_offset as u64,
        pk_offset as u64,
    )
    .expect("mldsa_verify should not trap");

    assert_eq!(result, 1u64, "Valid ML-DSA signature should return 1");
}

#[test]
fn test_mldsa_verify_wrong_message_returns_zero() {
    let (pk, sk) = dilithium3::keypair();
    let sig = dilithium3::detached_sign(b"correct message", &sk);
    let wrong_msg = b"wrong message---";

    let sig_bytes = sig.as_bytes().to_vec();
    let pk_bytes = pk.as_bytes().to_vec();

    let mut ctx = MockCtx::new(u64::MAX);
    ctx.write(0, &sig_bytes);
    ctx.write(MLDSA_SIGNATURE_LEN, wrong_msg);
    ctx.write(MLDSA_SIGNATURE_LEN + wrong_msg.len(), &pk_bytes);

    let result = mldsa_verify(
        &mut ctx,
        MLDSA_SIGNATURE_LEN as u64,
        0,
        wrong_msg.len() as u64,
        MLDSA_SIGNATURE_LEN as u64,
        (MLDSA_SIGNATURE_LEN + wrong_msg.len()) as u64,
    )
    .unwrap();
    assert_eq!(result, 0u64, "Wrong message should return 0");
}

#[test]
fn test_fndsa_verify_valid_signature() {
    let (pk, sk) = falcon512::keypair();
    let msg = b"test message for fndsa host fn";
    let sig = falcon512::detached_sign(msg, &sk);

    let sig_bytes = sig.as_bytes().to_vec();
    let pk_bytes = pk.as_bytes().to_vec();

    let mut ctx = MockCtx::new(u64::MAX);
    ctx.write(0, &sig_bytes);
    ctx.write(sig_bytes.len(), msg);
    ctx.write(sig_bytes.len() + msg.len(), &pk_bytes);

    let result = fndsa_verify(
        &mut ctx,
        sig_bytes.len() as u64,
        0,
        msg.len() as u64,
        sig_bytes.len() as u64,
        (sig_bytes.len() + msg.len()) as u64,
    )
    .unwrap();
    assert_eq!(result, 1u64, "Valid FN-DSA signature should return 1");
}

#[test]
fn test_out_of_gas_traps() {
    let (_pk, sk) = dilithium3::keypair();
    let sig = dilithium3::detached_sign(b"msg", &sk);
    let sig_bytes = sig.as_bytes().to_vec();

    let mut ctx = MockCtx::new(0);
    ctx.write(0, &sig_bytes);

    let result = mldsa_verify(
        &mut ctx,
        MLDSA_SIGNATURE_LEN as u64,
        0,
        3,
        MLDSA_SIGNATURE_LEN as u64,
        (MLDSA_SIGNATURE_LEN + 3) as u64,
    );
    assert!(
        matches!(result, Err(HostError::OutOfGas)),
        "Insufficient gas should trap"
    );
}

#[test]
fn test_memory_out_of_bounds_traps() {
    let mut ctx = MockCtx::new(u64::MAX);
    let result = mldsa_verify(&mut ctx, MLDSA_SIGNATURE_LEN as u64, 100_000, 10, 0, 0);
    assert!(matches!(result, Err(HostError::MemoryOutOfBounds { .. })));
}

#[test]
fn test_wrong_sig_len_traps_mldsa() {
    let mut ctx = MockCtx::new(u64::MAX);
    let result = mldsa_verify(&mut ctx, 64, 0, 10, 0, 4096);
    assert!(matches!(result, Err(HostError::InvalidParameter(_))));
}

#[test]
fn test_wrong_sig_len_traps_slhdsa() {
    let mut ctx = MockCtx::new(u64::MAX);
    let result = slhdsa_verify(&mut ctx, 64, 0, 10, 0, 8192);
    assert!(matches!(result, Err(HostError::InvalidParameter(_))));
}

#[test]
fn test_fndsa_sig_len_too_large_traps() {
    let mut ctx = MockCtx::new(u64::MAX);
    let result = fndsa_verify(&mut ctx, 753, 0, 10, 0, 4096);
    assert!(matches!(result, Err(HostError::InvalidParameter(_))));
}

#[test]
fn test_gas_is_charged_before_memory_read() {
    let mut ctx = MockCtx::new(0);
    let result = mldsa_verify(&mut ctx, MLDSA_SIGNATURE_LEN as u64, 0, 10, 0, 0);
    assert!(
        matches!(result, Err(HostError::OutOfGas)),
        "Gas check must happen before memory reads"
    );
}

#[test]
fn test_all_zero_signature_returns_zero_not_panic() {
    let (pk, _sk) = dilithium3::keypair();
    let pk_bytes = pk.as_bytes().to_vec();

    let mut ctx = MockCtx::new(u64::MAX);
    let msg = b"any message";
    ctx.write(MLDSA_SIGNATURE_LEN, msg);
    ctx.write(MLDSA_SIGNATURE_LEN + msg.len(), &pk_bytes);

    let result = mldsa_verify(
        &mut ctx,
        MLDSA_SIGNATURE_LEN as u64,
        0,
        msg.len() as u64,
        MLDSA_SIGNATURE_LEN as u64,
        (MLDSA_SIGNATURE_LEN + msg.len()) as u64,
    )
    .unwrap();
    assert_eq!(result, 0u64, "All-zero signature must return 0, not panic");
}

#[test]
fn slhdsa_verify_tells_valid_from_invalid() {
    let (pk, sk) = sphincssha2128ssimple::keypair();
    let msg = b"test message for slhdsa host fn";
    let sig_bytes = sphincssha2128ssimple::detached_sign(msg, &sk).as_bytes().to_vec();

    let mut ctx = MockCtx::new(u64::MAX);
    ctx.write(0, &sig_bytes);
    ctx.write(SLHDSA_SIGNATURE_LEN, msg);
    ctx.write(SLHDSA_SIGNATURE_LEN + msg.len(), pk.as_bytes());
    let msg_ptr = SLHDSA_SIGNATURE_LEN as u64;
    let pk_ptr = (SLHDSA_SIGNATURE_LEN + msg.len()) as u64;
    let sig_len = SLHDSA_SIGNATURE_LEN as u64;

    let valid = slhdsa_verify(&mut ctx, sig_len, 0, msg.len() as u64, msg_ptr, pk_ptr);
    assert_eq!(valid.unwrap(), 1);

    ctx.write(0, &[sig_bytes[0] ^ 1]);
    let forged = slhdsa_verify(&mut ctx, sig_len, 0, msg.len() as u64, msg_ptr, pk_ptr);
    assert_eq!(forged.unwrap(), 0);
}

#[test]
fn gas_is_a_base_and_a_price_for_each_message_byte() {
    assert_eq!(gas_for(3, 5, 7), 38);
    assert_eq!(gas_for(MLDSA_VERIFY_BASE_GAS, MLDSA_VERIFY_BYTE_GAS, 10), 3_000_050_000_000);
    assert_eq!(gas_for(FNDSA_VERIFY_BASE_GAS, FNDSA_VERIFY_BYTE_GAS, 10), 1_400_050_000_000);
    assert_eq!(gas_for(SLHDSA_VERIFY_BASE_GAS, SLHDSA_VERIFY_BYTE_GAS, 10), 8_000_050_000_000);
    assert_eq!(gas_for(1, 2, u64::MAX), u64::MAX);
    assert_eq!(gas_for(u64::MAX, 1, 1), u64::MAX);
}

#[test]
fn gas_is_deducted_even_where_a_read_fails() {
    let mut ctx = MockCtx::new(3_000_050_000_000);
    let result = mldsa_verify(&mut ctx, MLDSA_SIGNATURE_LEN as u64, 100_000, 10, 0, 0);
    assert!(matches!(
        result,
        Err(HostError::MemoryOutOfBounds { ptr: 100_000, len: 3293 })
    ));
    assert_eq!(ctx.gas_remaining, 0);
}

#[test]
fn a_refused_parameter_costs_no_gas() {
    let mut ctx = MockCtx::new(77);
    assert!(mldsa_verify(&mut ctx, 64, 0, 10, 0, 4096).is_err());
    assert!(fndsa_verify(&mut ctx, 0, 0, 10, 0, 4096).is_err());
    assert!(slhdsa_verify(&mut ctx, 7857, 0, 10, 0, 4096).is_err());
    assert_eq!(ctx.gas_remaining, 77);
}

#[test]
fn refusals_say_why() {
    let mut ctx = MockCtx::new(u64::MAX);
    let mldsa = mldsa_verify(&mut ctx, 64, 0, 10, 0, 4096).unwrap_err();
    assert_eq!(
        mldsa.message(),
        "Invalid parameter: mldsa_verify: sig_len must be 3293, got 64"
    );
    let slhdsa = slhdsa_verify(&mut ctx, 64, 0, 10, 0, 4096).unwrap_err();
    assert_eq!(
        slhdsa.message(),
        "Invalid parameter: slhdsa_verify: sig_len must be 7856, got 64"
    );
    let long = fndsa_verify(&mut ctx, 753, 0, 10, 0, 4096).unwrap_err();
    assert_eq!(
        long.message(),
        "Invalid parameter: fndsa_verify: sig_len 753 exceeds max 752"
    );
    let empty = fndsa_verify(&mut ctx, 0, 0, 10, 0, 4096).unwrap_err();
    assert_eq!(
        empty.message(),
        "Invalid parameter: fndsa_verify: sig_len must be > 0"
    );
    assert_eq!(HostError::OutOfGas.message(), "Out of gas");
    assert_eq!(
        HostError::MemoryOutOfBounds { ptr: 100, len: 2 }.message(),
        "Memory access out of bounds: ptr=100 len=2"
    );
    assert_eq!(
        HostError::Deprecated { since: 999 }.message(),
        "Host function deprecated in protocol version 999"
    );
}

#[test]
fn ed25519_is_banned_from_its_protocol_version_on() {
    let mut ctx = MockCtx::new(5);
    assert!(matches!(
        ed25519_verify_or_deprecate(&mut ctx, 64, 0, 10, 0, 0),
        Err(HostError::Deprecated { since: ED25519_VERIFY_BANNED_AT })
    ));
    ctx.protocol_version = 998;
    assert_eq!(ed25519_verify_or_deprecate(&mut ctx, 64, 0, 10, 0, 0).unwrap(), 0);
    ctx.protocol_version = 1003;
    assert!(ed25519_verify_or_deprecate(&mut ctx, 64, 0, 10, 0, 0).is_err());
    assert_eq!(ctx.gas_remaining, 5);
}

#[test]
fn verdicts_are_one_and_zero() {
    assert_eq!(verdict(true), 1);
    assert_eq!(verdict(false), 0);
}

#[test]
fn bytes_of_a_wrong_length_are_invalid() {
    let (pk, sk) = dilithium3::keypair();
    let sig = dilithium3::detached_sign(b"m", &sk);
    assert!(verify_mldsa(sig.as_bytes(), b"m", pk.as_bytes()));
    assert!(!verify_mldsa(&sig.as_bytes()[1..], b"m", pk.as_bytes()));
    assert!(!verify_mldsa(&[0u8; MLDSA_SIGNATURE_LEN + 1], b"m", pk.as_bytes()));
    assert!(!verify_mldsa(sig.as_bytes(), b"m", &[0u8; MLDSA_PUBLIC_KEY_LEN - 1]));

    let (pk, sk) = falcon512::keypair();
    let sig = falcon512::detached_sign(b"m", &sk);
    assert!(verify_fndsa(sig.as_bytes(), b"m", pk.as_bytes()));
    assert!(!verify_fndsa(b"", b"m", pk.as_bytes()));
    assert!(!verify_fndsa(&[0u8; FNDSA_SIGNATURE_MAX_LEN + 1], b"m", pk.as_bytes()));
    assert!(!verify_fndsa(sig.as_bytes(), b"m", &[0u8; FNDSA_PUBLIC_KEY_LEN + 1]));

    assert!(!verify_slhdsa(b"", b"m", &[0u8; SLHDSA_PUBLIC_KEY_LEN]));
    assert!(!verify_slhdsa(&[0u8; SLHDSA_SIGNATURE_LEN + 1], b"m", &[0u8; SLHDSA_PUBLIC_KEY_LEN]));
    assert!(!verify_slhdsa(&[0u8; SLHDSA_SIGNATURE_LEN], b"m", &[0u8; SLHDSA_PUBLIC_KEY_LEN - 1]));
}

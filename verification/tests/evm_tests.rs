use fil_actor_states::evm_modexp::modexp;
use fil_actor_states::eam::{compute_address_create, compute_address_create2, compute_address_create_external, create2_preimage, create_preimage, hash_20, EthAddress};
use fil_actor_states::evm_actor::{NATIVE_METHOD_SELECTOR, NATIVE_METHOD_SIGNATURE};
use fil_actor_states::evm_memory::{copy_to_memory, get_memory_region, mload, msize, mstore, mstore8, ExecutionState, Memory, EVM_CONTRACT_ILLEGAL_MEMORY_ACCESS};
use fil_actor_states::evm_precompiles::{address_word_from_digest, blake2f_output, blake2f_parse, ec_recover, ec_recover_internal, ec_recover_signature, identity, in_secp256k1_range, ripemd160, secp256k1_n, PrecompileError};
use fil_actor_states::evm_u256::U256;
use multihash_codetable::{Code, MultihashDigest};

fn word(v: u64) -> U256 {
    U256::from_u64(v)
}

fn keccak(data: Vec<u8>) -> [u8; 32] {
    let hash = Code::Keccak256.digest(&data);
    let mut out = [0u8; 32];
    out.copy_from_slice(hash.digest());
    out
}

fn hex_bytes(s: &str) -> Vec<u8> {
    (0..s.len()).step_by(2).map(|i| u8::from_str_radix(&s[i..i + 2], 16).unwrap()).collect()
}

fn eth(s: &str) -> EthAddress {
    let mut a = [0u8; 20];
    a.copy_from_slice(&hex_bytes(s));
    EthAddress(a)
}

#[test]
fn test_secp_range() {
    assert!(in_secp256k1_range(&word(1)));
    assert!(!in_secp256k1_range(&word(0)));
    assert!(!in_secp256k1_range(&secp256k1_n()));
}

#[test]
fn test_method_selector() {
    let hash = Code::Keccak256.digest(NATIVE_METHOD_SIGNATURE.as_bytes());
    let computed_selector = &hash.digest()[..4];
    assert_eq!(computed_selector, NATIVE_METHOD_SELECTOR);
}

#[test]
fn secp_range_edges() {
    let mut below_n = secp256k1_n().to_big_endian();
    below_n[31] -= 1;
    assert!(in_secp256k1_range(&U256::from_big_endian(&below_n)));
    let mut above_n = secp256k1_n().to_big_endian();
    above_n[31] += 1;
    assert!(!in_secp256k1_range(&U256::from_big_endian(&above_n)));
    assert!(!in_secp256k1_range(&U256::from_big_endian(&[0xff; 32])));
}

#[test]
fn u256_conversions_and_order() {
    let w = U256::from_big_endian(&[0x01, 0x02]);
    assert_eq!(w.low_u64(), 0x0102);
    assert_eq!(w.to_big_endian()[30..], [0x01, 0x02]);
    assert!(w.to_big_endian()[..30].iter().all(|b| *b == 0));
    assert!(word(5).lt(&word(6)));
    assert!(!word(6).lt(&word(6)));
    assert!(!word(7).lt(&word(6)));
    assert!(word(u64::MAX).lt(&U256::from_big_endian(&[1, 0, 0, 0, 0, 0, 0, 0, 0])));
    assert_eq!(word(0x1_0000_0001).to_u32(), None);
    assert_eq!(word(0xffff_ffff).to_u32(), Some(0xffff_ffff));
    assert_eq!(word(0x1_0000_0001).low_u32(), 1);
    assert!(word(9).lt_u64(10));
    assert!(!word(10).lt_u64(10));
}

#[test]
fn ec_recover_signature_layout_and_refusals() {
    let sig = ec_recover_signature(28, &word(1), &word(2)).unwrap();
    let mut expected = [0u8; 65];
    expected[31] = 1;
    expected[63] = 2;
    expected[64] = 1;
    assert_eq!(sig, expected);
    assert_eq!(ec_recover_signature(27, &word(1), &word(2)).unwrap()[64], 0);
    assert_eq!(ec_recover_signature(26, &word(1), &word(2)), Err(PrecompileError::InvalidInput));
    assert_eq!(ec_recover_signature(29, &word(1), &word(2)), Err(PrecompileError::InvalidInput));
    assert_eq!(ec_recover_signature(27, &word(0), &word(2)), Err(PrecompileError::InvalidInput));
    assert_eq!(ec_recover_signature(27, &word(1), &secp256k1_n()), Err(PrecompileError::InvalidInput));
}

#[test]
fn ec_recover_hashes_the_key_without_its_prefix() {
    let recover = |_hash: &[u8; 32], sig: &[u8; 65]| -> Option<[u8; 65]> {
        if sig[64] == 0 {
            let mut key = [7u8; 65];
            key[0] = 4;
            Some(key)
        } else {
            None
        }
    };
    let hasher = |input: &[u8]| -> [u8; 32] { keccak(input.to_vec()) };
    let out = ec_recover_internal(&recover, &hasher, &[0u8; 32], 27, &word(1), &word(1)).unwrap();
    let digest = keccak(vec![7u8; 64]);
    assert_eq!(out[..12], [0u8; 12]);
    assert_eq!(out[12..], digest[12..]);
    assert_eq!(ec_recover_internal(&recover, &hasher, &[0u8; 32], 28, &word(1), &word(1)), Err(PrecompileError::InvalidInput));
    assert_eq!(ec_recover_internal(&recover, &hasher, &[0u8; 32], 27, &word(0), &word(1)), Err(PrecompileError::InvalidInput));
    let raw = |recovery: &[u8], r: u8, s: u8| -> Vec<u8> {
        let mut input = vec![0u8; 128];
        input[64 - recovery.len()..64].copy_from_slice(recovery);
        input[95] = r;
        input[127] = s;
        input
    };
    assert_eq!(ec_recover(&recover, &hasher, &raw(&[27], 1, 1)), out.to_vec());
    assert!(ec_recover(&recover, &hasher, &raw(&[28], 1, 1)).is_empty());
    assert!(ec_recover(&recover, &hasher, &raw(&[29], 1, 1)).is_empty());
    assert!(ec_recover(&recover, &hasher, &raw(&[1, 27], 1, 1)).is_empty());
    assert!(ec_recover(&recover, &hasher, &raw(&[27], 0, 1)).is_empty());
    let mut short = raw(&[27], 1, 1);
    short.truncate(127);
    assert!(ec_recover(&recover, &hasher, &short).is_empty());
    assert!(ec_recover(&recover, &hasher, &[]).is_empty());
}

#[test]
fn address_word_zeroes_the_first_twelve_bytes() {
    let out = address_word_from_digest([0xaa; 32]);
    assert_eq!(out[..12], [0u8; 12]);
    assert_eq!(out[12..], [0xaa; 20]);
}

#[test]
fn identity_copies_input() {
    assert_eq!(identity(&[1, 2, 3]), vec![1, 2, 3]);
    assert_eq!(identity(&[]), Vec::<u8>::new());
}

#[test]
fn ripemd160_pads_digest_to_a_word() {
    let hasher = |input: &[u8]| -> Vec<u8> { vec![input.len() as u8; 20] };
    let out = ripemd160(&hasher, &[9, 9, 9]);
    assert_eq!(out.len(), 32);
    assert_eq!(out[..12], [0u8; 12]);
    assert_eq!(out[12..], [3u8; 20]);
}

fn blake2f_input(rounds: u32, flag: u8) -> Vec<u8> {
    let mut input = Vec::new();
    input.extend_from_slice(&rounds.to_be_bytes());
    for i in 0..8u64 {
        input.extend_from_slice(&(i + 1).to_le_bytes());
    }
    for i in 0..16u64 {
        input.extend_from_slice(&(100 + i).to_le_bytes());
    }
    input.extend_from_slice(&5u64.to_le_bytes());
    input.extend_from_slice(&6u64.to_le_bytes());
    input.push(flag);
    input
}

#[test]
fn blake2f_parses_its_fields() {
    let p = blake2f_parse(&blake2f_input(12, 1)).unwrap();
    assert_eq!(p.rounds, 12);
    assert_eq!(p.h, [1, 2, 3, 4, 5, 6, 7, 8]);
    assert_eq!(p.m[0], 100);
    assert_eq!(p.m[15], 115);
    assert_eq!(p.t, [5, 6]);
    assert!(p.f);
    let p0 = blake2f_parse(&blake2f_input(0x0102_0304, 0)).unwrap();
    assert_eq!(p0.rounds, 0x0102_0304);
    assert!(!p0.f);
}

#[test]
fn blake2f_refuses_bad_input() {
    assert_eq!(blake2f_parse(&blake2f_input(12, 2)).err(), Some(PrecompileError::IncorrectInputSize));
    let mut short = blake2f_input(12, 0);
    short.pop();
    assert_eq!(blake2f_parse(&short).err(), Some(PrecompileError::IncorrectInputSize));
    assert_eq!(blake2f_parse(&[]).err(), Some(PrecompileError::IncorrectInputSize));
}

#[test]
fn blake2f_output_is_little_endian() {
    let out = blake2f_output(&[1, 0x0102, 3, 4, 5, 6, 7, u64::MAX]);
    assert_eq!(out.len(), 64);
    assert_eq!(out[0..8], 1u64.to_le_bytes());
    assert_eq!(out[8..16], 0x0102u64.to_le_bytes());
    assert_eq!(out[56..64], [0xff; 8]);
}

#[test]
fn mstore_then_mload_round_trips() {
    let mut state = ExecutionState { memory: Memory::new() };
    let value = U256::from_big_endian(&[0xde, 0xad, 0xbe, 0xef]);
    mstore(&mut state, &word(3), &value).unwrap();
    assert_eq!(state.memory.len(), 64);
    let back = mload(&mut state, &word(3)).unwrap();
    assert_eq!(back.to_big_endian(), value.to_big_endian());
    assert_eq!(msize(&state).low_u64(), 64);
}

#[test]
fn mstore8_writes_the_low_byte() {
    let mut state = ExecutionState { memory: Memory::new() };
    mstore8(&mut state, &word(5), &word(0x1234)).unwrap();
    assert_eq!(state.memory.len(), 32);
    assert_eq!(state.memory.get(5), 0x34);
    assert_eq!(state.memory.get(4), 0);
}

#[test]
fn memory_access_beyond_u32_is_refused() {
    let mut state = ExecutionState { memory: Memory::new() };
    let far = word(0x1_0000_0000);
    assert_eq!(mload(&mut state, &far).err().map(|e| e.exit_code), Some(EVM_CONTRACT_ILLEGAL_MEMORY_ACCESS));
    assert_eq!(state.memory.len(), 0);
    let near_edge = word(0xffff_ffe0);
    assert!(mstore(&mut state, &near_edge, &word(1)).is_err());
}

#[test]
fn memory_region_of_zero_size_needs_nothing() {
    let mut memory = Memory::new();
    assert!(get_memory_region(&mut memory, &word(0xffff_ffff_ffff), &word(0)).unwrap().is_none());
    assert_eq!(memory.len(), 0);
    let region = get_memory_region(&mut memory, &10usize, &5usize).unwrap().unwrap();
    assert_eq!((region.offset, region.size), (10, 5));
    assert_eq!(memory.len(), 32);
}

#[test]
fn copy_to_memory_zero_fills_past_the_data() {
    let mut memory = Memory::from_bytes(vec![9u8; 8]);
    copy_to_memory(&mut memory, &word(2), &word(4), &word(1), &[1, 2, 3], true).unwrap();
    assert_eq!(memory.len(), 8);
    let got: Vec<u8> = (0..8).map(|i| memory.get(i)).collect();
    assert_eq!(got, vec![9, 9, 2, 3, 0, 0, 9, 9]);
    let mut memory = Memory::from_bytes(vec![9u8; 8]);
    copy_to_memory(&mut memory, &word(2), &word(4), &word(1), &[1, 2, 3], false).unwrap();
    let got: Vec<u8> = (0..8).map(|i| memory.get(i)).collect();
    assert_eq!(got, vec![9, 9, 2, 3, 9, 9, 9, 9]);
}

#[test]
fn create_preimage_is_rlp_of_sender_and_nonce() {
    let from = eth("6ac7ea33f8831ea9dcc53393aaa88b25a785dbf0");
    let p0 = create_preimage(&from, 0);
    let mut expected = vec![0xd6, 0x94];
    expected.extend_from_slice(&from.0);
    expected.push(0x80);
    assert_eq!(p0, expected);
    let p = create_preimage(&from, 0x1234);
    assert_eq!(p[0], 0xd8);
    assert_eq!(p[22..], [0x82, 0x12, 0x34]);
    assert_eq!(create_preimage(&from, 5)[22..], [0x05]);
}

#[test]
fn create_addresses_match_known_vectors() {
    let from = eth("6ac7ea33f8831ea9dcc53393aaa88b25a785dbf0");
    assert_eq!(compute_address_create(&keccak, &from, 0).0.to_vec(), hex_bytes("cd234a471b72ba2f1ccf0a70fcaba648a5eecd8d"));
    assert_eq!(compute_address_create(&keccak, &from, 1).0.to_vec(), hex_bytes("343c43a37d37dff08ae8c4a11544c718abb4fcf8"));
    assert_eq!(compute_address_create_external(&keccak, &from, 2).0.to_vec(), hex_bytes("f778b86fa74e846c4f0a1fbd1335fe81c00a0c91"));
}

#[test]
fn create2_addresses_match_known_vectors() {
    let zero = EthAddress([0u8; 20]);
    assert_eq!(compute_address_create2(&keccak, &zero, &[0u8; 32], &[0x00]).0.to_vec(), hex_bytes("4d1a2e2bb4f88f0250f26ffff098b0b30b26bf38"));
    let deployer = eth("deadbeef00000000000000000000000000000000");
    assert_eq!(compute_address_create2(&keccak, &deployer, &[0u8; 32], &[0x00]).0.to_vec(), hex_bytes("b928f69bb1d91cd65274e3c79d8986362984fda3"));
}

#[test]
fn create2_preimage_layout() {
    let from = EthAddress([1u8; 20]);
    let p = create2_preimage(&from, &[2u8; 32], &[3u8; 32]);
    assert_eq!(p.len(), 85);
    assert_eq!(p[0], 0xff);
    assert_eq!(p[1..21], [1u8; 20]);
    assert_eq!(p[21..53], [2u8; 32]);
    assert_eq!(p[53..], [3u8; 32]);
}

#[test]
fn hash_20_keeps_the_last_twenty_bytes() {
    let mut digest = [0u8; 32];
    for (i, b) in digest.iter_mut().enumerate() {
        *b = i as u8;
    }
    assert_eq!(hash_20(&digest).0.to_vec(), (12u8..32).collect::<Vec<u8>>());
}

fn modexp_input(lens: [u64; 3], rest: &[u8]) -> Vec<u8> {
    let mut input = Vec::new();
    for l in lens {
        let mut w = [0u8; 32];
        w[24..].copy_from_slice(&l.to_be_bytes());
        input.extend_from_slice(&w);
    }
    input.extend_from_slice(rest);
    input
}

#[test]
fn modexp_computes_and_pads_to_the_modulus_length() {
    assert_eq!(modexp(&modexp_input([1, 1, 1], &[3, 5, 7])), Ok(vec![5]));
    assert_eq!(modexp(&modexp_input([1, 1, 2], &[3, 5, 0, 7])), Ok(vec![0, 5]));
    assert_eq!(modexp(&modexp_input([1, 0, 1], &[3, 7])), Ok(vec![1]));
    assert_eq!(modexp(&modexp_input([1, 1, 3], &[2, 8, 1, 0, 0])), Ok(vec![0, 1, 0]));
    assert_eq!(modexp(&modexp_input([1, 1, 2], &[3, 5, 0, 1])), Ok(vec![0, 0]));
    assert_eq!(modexp(&modexp_input([1, 1, 1], &[3, 5])), Ok(vec![0]));
    assert_eq!(modexp(&modexp_input([0, 5, 0], &[1, 2, 3])), Ok(vec![]));
    assert_eq!(modexp(&[]), Ok(vec![]));
    let mut big = modexp_input([0, 0, 0], &[]);
    big[27] = 1;
    assert_eq!(modexp(&big), Err(PrecompileError::InvalidInput));
}

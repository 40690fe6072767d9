//! Numbers, dates and addresses as text and bytes.
use clear_msig::address::Address;
use clear_msig::bytes::{from_u64_bits, get_part, push_le, read_le, to_u64_bits};
use clear_msig::client::{hex_encode, sha256_bytes};
use clear_msig::error::ProgramError;
use clear_msig::pda::{
    find_vault, intent_pda, program_id, proposal_pda, system_program_id, vault_pda, wallet_pda,
};
use clear_msig::text::{decimal_bytes, padded_bytes, same_text, signed_padded_bytes};
use clear_msig::utils::base58::encode_base58;
use clear_msig::utils::datetime::{format_timestamp, timestamp_bytes};
use clear_msig::utils::definition::{param_byte_size, DataEncoding, ParamType};

fn text(bytes: Vec<u8>) -> String {
    String::from_utf8(bytes).unwrap()
}

#[test]
fn numbers_in_decimal() {
    assert_eq!(text(decimal_bytes(0)), "0");
    assert_eq!(text(decimal_bytes(7)), "7");
    assert_eq!(text(decimal_bytes(1024)), "1024");
    assert_eq!(text(decimal_bytes(u64::MAX as u128)), "18446744073709551615");
    assert_eq!(text(decimal_bytes(u128::MAX)), "340282366920938463463374607431768211455");
    assert_eq!(text(padded_bytes(7, 2)), "07");
    assert_eq!(text(padded_bytes(123, 2)), "123");
    assert_eq!(text(signed_padded_bytes(-7, 4)), "-007");
    assert_eq!(text(signed_padded_bytes(33, 4)), "0033");
    assert_eq!(text(signed_padded_bytes(i64::MIN, 1)), "-9223372036854775808");
}

#[test]
fn bytes_in_hexadecimal() {
    assert_eq!(text(hex_encode(&[])), "");
    assert_eq!(text(hex_encode(&[0x00, 0x0f, 0xa0, 0xff])), "000fa0ff");
}

#[test]
fn digest_of_a_known_text() {
    assert_eq!(
        text(hex_encode(&sha256_bytes(b"abc"))),
        "ba7816bf8f01cfea414140de5dae2223b00361a396177a9cb410ff61f20015ad"
    );
}

#[test]
fn texts_are_compared_by_content() {
    assert!(same_text("approve", "approve"));
    assert!(!same_text("approve", "approved"));
    assert!(!same_text("approve", "execute"));
}

#[test]
fn timestamps() {
    assert_eq!(text(format_timestamp(0).unwrap()), "1970-01-01 00:00:00");
    assert_eq!(text(format_timestamp(-1).unwrap()), "1969-12-31 23:59:59");
    assert_eq!(text(format_timestamp(1_000_000_000).unwrap()), "2001-09-09 01:46:40");
    assert_eq!(text(format_timestamp(951_782_400).unwrap()), "2000-02-29 00:00:00");
    assert_eq!(text(format_timestamp(4_107_542_399).unwrap()), "2100-02-28 23:59:59");
    assert_eq!(text(format_timestamp(253_402_300_799).unwrap()), "9999-12-31 23:59:59");
    assert!(format_timestamp(253_402_300_800).is_none());
    assert_eq!(text(timestamp_bytes(253_402_300_800)), "10000-01-01 00:00:00");
    assert_eq!(text(format_timestamp(-62_167_219_200).unwrap()), "0000-01-01 00:00:00");
    assert!(format_timestamp(-62_167_219_201).is_none());
    assert_eq!(text(timestamp_bytes(-62_167_219_201)), "-001-12-31 23:59:59");
}

#[test]
fn extreme_timestamps_have_a_date() {
    assert_eq!(text(timestamp_bytes(i64::MAX)), "292277026596-12-04 15:30:07");
    assert_eq!(text(timestamp_bytes(i64::MIN)), "-292277022657-01-27 08:29:52");
    assert!(format_timestamp(i64::MAX).is_none());
    assert!(format_timestamp(i64::MIN).is_none());
}

#[test]
fn addresses_in_base58() {
    let id = encode_base58(&program_id().bytes, 44).unwrap();
    assert_eq!(text(id), "msigVi8dMnmLQUuCbakipEMZhzen516QRHxGz7iX5Xv");
    let system = encode_base58(&system_program_id().bytes, 44).unwrap();
    assert_eq!(text(system), "11111111111111111111111111111111");
    assert_eq!(text(encode_base58(&[0xff; 32], 44).unwrap()).len(), 44);
    assert!(encode_base58(&[0xff; 32], 43).is_none());
    assert_eq!(text(encode_base58(&[], 44).unwrap()), "");
    assert_eq!(text(encode_base58(b"Hello World!", 44).unwrap()), "2NEpo7TZRRrLZSi2U");
}

#[test]
fn program_addresses_are_those_of_their_texts() {
    let id: solana_pubkey::Pubkey = "msigVi8dMnmLQUuCbakipEMZhzen516QRHxGz7iX5Xv".parse().unwrap();
    assert_eq!(id.to_bytes(), program_id().bytes);
    let system: solana_pubkey::Pubkey = "11111111111111111111111111111111".parse().unwrap();
    assert_eq!(system.to_bytes(), system_program_id().bytes);
}

#[test]
fn derived_addresses_match_the_pubkey_crate() {
    let id = solana_pubkey::Pubkey::new_from_array(program_id().bytes);
    let (wallet, name_hash) = wallet_pda(b"treasury").unwrap();
    assert_eq!(name_hash, sha256_bytes(b"treasury"));
    let find = |seeds: &[&[u8]]| solana_pubkey::Pubkey::find_program_address(seeds, &id);
    assert_eq!(wallet.bytes, find(&[b"clear_wallet", &name_hash]).0.to_bytes());
    let intent = intent_pda(&wallet, 3).unwrap();
    assert_eq!(intent.bytes, find(&[b"intent", &wallet.bytes, &[3]]).0.to_bytes());
    let proposal = proposal_pda(&intent, 258).unwrap();
    let index = 258u64.to_le_bytes();
    assert_eq!(proposal.bytes, find(&[b"proposal", &intent.bytes, &index]).0.to_bytes());
    let vault = vault_pda(&wallet).unwrap();
    let (address, bump) = find(&[b"vault", &wallet.bytes]);
    assert_eq!(vault.bytes, address.to_bytes());
    assert_eq!(find_vault(&wallet).unwrap().1, bump);
    assert!(intent_pda(&wallet, 4).unwrap() != intent);
}

#[test]
fn little_endian_numbers() {
    let mut out = vec![9u8];
    push_le(&mut out, 0x0102_0304, 4);
    push_le(&mut out, 0x01_ffff, 2);
    assert_eq!(out, vec![9, 4, 3, 2, 1, 0xff, 0xff]);
    assert_eq!(read_le(&[4, 3, 2, 1]), 0x0102_0304);
    assert_eq!(read_le(&[]), 0);
    assert_eq!(read_le(&[0xff; 16]), u128::MAX);
    for n in [0, 1, -1, i64::MAX, i64::MIN, -1_000_000] {
        assert_eq!(to_u64_bits(n), n as u64);
        assert_eq!(from_u64_bits(n as u64), n);
    }
}

#[test]
fn parts_lie_within() {
    let bytes = [1u8, 2, 3];
    assert_eq!(get_part(&bytes, 1, 2), Some(&bytes[1..]));
    assert_eq!(get_part(&bytes, 3, 0), Some(&bytes[3..]));
    assert_eq!(get_part(&bytes, 2, 2), None);
    assert_eq!(get_part(&bytes, 4, 0), None);
    assert_eq!(get_part(&bytes, usize::MAX, 2), None);
}

#[test]
fn addresses_are_their_bytes() {
    let mut bytes = vec![5u8; 40];
    bytes[31] = 6;
    let a = Address::from_prefix(&bytes);
    assert_eq!(a.to_vec(), bytes[..32].to_vec());
    assert!(a == Address::new_from_array(a.bytes));
    assert!(a != system_program_id());
}

#[test]
fn sizes_of_parameters() {
    let sizes = [
        (ParamType::Address, 32),
        (ParamType::U64, 8),
        (ParamType::I64, 8),
        (ParamType::Bool, 1),
        (ParamType::U8, 1),
        (ParamType::U16, 2),
        (ParamType::U32, 4),
        (ParamType::U128, 16),
    ];
    for (param_type, size) in sizes {
        assert_eq!(param_byte_size(param_type, &[], 0), Ok(size));
    }
    assert_eq!(param_byte_size(ParamType::String, &[0, 3], 1), Ok(4));
    assert_eq!(
        param_byte_size(ParamType::String, &[0, 3], 2),
        Err(ProgramError::InvalidInstructionData)
    );
}

#[test]
fn sizes_of_encodings() {
    let sizes = [32, 8, 8, 1, 1, 2, 4, 16];
    for (number, size) in sizes.iter().enumerate() {
        assert_eq!(DataEncoding::from_u8(number as u8).unwrap().byte_size(), *size);
    }
    assert!(DataEncoding::from_u8(8).is_none());
}

#[test]
fn later_times_have_later_texts() {
    let times = [
        -62_167_219_200i64,
        -62_167_219_199,
        -62_162_035_200,
        -1,
        0,
        59,
        60,
        3_599,
        3_600,
        86_399,
        86_400,
        951_782_399,
        951_782_400,
        951_868_800,
        1_000_000_000,
        253_402_300_799,
    ];
    let texts: Vec<Vec<u8>> = times.iter().map(|t| format_timestamp(*t).unwrap()).collect();
    for (a, b) in texts.iter().zip(&texts[1..]) {
        assert!(a < b);
        assert_eq!(a.len(), 19);
    }
    assert_eq!(texts[0], b"0000-01-01 00:00:00");
    assert_eq!(texts[15], b"9999-12-31 23:59:59");
    assert_eq!(format_timestamp(-62_167_219_201), None);
    assert_eq!(format_timestamp(253_402_300_800), None);
}

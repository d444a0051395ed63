use coinbacked::error::CoinbackedError;
use coinbacked::instruction::Instruction;
use coinbacked::state::{BackingAccount, TreasuryAccount};

#[test]
fn backing_pack_unpack_round_trip() {
    let rec = BackingAccount { token_key: vec![9u8; 32], rent_excemption: 41_000, bump: 254 };
    let bytes = rec.pack();
    assert_eq!(bytes.len(), 41);
    let back = BackingAccount::unpack(&bytes).unwrap();
    assert_eq!(back.token_key, vec![9u8; 32]);
    assert_eq!(back.rent_excemption, 41_000);
    assert_eq!(back.bump, 254);
}

#[test]
fn treasury_pack_unpack_round_trip() {
    let rec = TreasuryAccount { rent_excemption: 12_345_678, bump: 7 };
    let bytes = rec.pack();
    assert_eq!(bytes.len(), 9);
    let back = TreasuryAccount::unpack(&bytes).unwrap();
    assert_eq!(back, rec);
}

#[test]
fn unpack_short_buffers_fail() {
    assert!(matches!(
        BackingAccount::unpack(&[0u8; 40]),
        Err(CoinbackedError::InvalidAccountData)
    ));
    assert!(TreasuryAccount::unpack(&[0u8; 8]).is_err());
}

fn make_tos_instruction(op: u8, amount: u64) -> Vec<u8> {
    let mut data = vec![op];
    data.extend_from_slice(&amount.to_le_bytes());
    data.extend_from_slice(&[b'x'; 128]);
    data
}

#[test]
fn decode_create_backing_account() {
    let data = make_tos_instruction(0, 1_000_000);
    match Instruction::unpack(&data).unwrap() {
        Instruction::CreateBackingAccount { lamports, signed_tos } => {
            assert_eq!(lamports, 1_000_000);
            assert_eq!(signed_tos, "x".repeat(128));
        }
        _ => panic!("wrong variant"),
    }
}

#[test]
fn decode_add_to_balance() {
    let data = make_tos_instruction(2, 77);
    match Instruction::unpack(&data).unwrap() {
        Instruction::AddToBalanceOfBackingAccount { lamports, .. } => assert_eq!(lamports, 77),
        _ => panic!("wrong variant"),
    }
}

#[test]
fn decode_burn() {
    let data = make_tos_instruction(3, 100);
    match Instruction::unpack(&data).unwrap() {
        Instruction::BurnTokenAndFreeBalanace { amount, .. } => assert_eq!(amount, 100),
        _ => panic!("wrong variant"),
    }
}

#[test]
fn decode_no_field_opcodes() {
    assert!(matches!(Instruction::unpack(&[1u8]).unwrap(), Instruction::ValidateBackingAccount));
    assert!(matches!(
        Instruction::unpack(&[4u8]).unwrap(),
        Instruction::CleanAccountsAfterBurning
    ));
    assert!(matches!(
        Instruction::unpack(&[10u8]).unwrap(),
        Instruction::AdminCreateTreasuryAccount
    ));
}

#[test]
fn decode_admin_transfer() {
    let mut data = vec![11u8];
    data.extend_from_slice(&9_000u64.to_le_bytes());
    match Instruction::unpack(&data).unwrap() {
        Instruction::AdminTransferFromTreasuryAccount { lamports } => assert_eq!(lamports, 9_000),
        _ => panic!("wrong variant"),
    }
}

#[test]
fn decode_rejects_wrong_lengths() {
    // one byte too short / too long, per opcode with fields
    let mut d = make_tos_instruction(0, 5);
    d.pop();
    assert!(matches!(Instruction::unpack(&d), Err(CoinbackedError::InvalidInstructionData)));
    let mut d2 = make_tos_instruction(3, 5);
    d2.push(0);
    assert!(Instruction::unpack(&d2).is_err());
    // fieldless opcodes must be exactly one byte
    assert!(Instruction::unpack(&[1u8, 0]).is_err());
    assert!(Instruction::unpack(&[4u8, 0]).is_err());
    assert!(Instruction::unpack(&[10u8, 0]).is_err());
    assert!(Instruction::unpack(&[11u8; 5]).is_err());
    // empty buffer
    assert!(Instruction::unpack(&[]).is_err());
}

#[test]
fn decode_rejects_unknown_opcode() {
    assert!(matches!(
        Instruction::unpack(&[255u8]),
        Err(CoinbackedError::InvalidInstructionData)
    ));
}

#[test]
fn decode_reports_first_invalid_utf8_offset() {
    let mut data = make_tos_instruction(0, 5);
    // corrupt the terms region: byte 10 of the region is a lone continuation
    data[9 + 10] = 0x80;
    match Instruction::unpack(&data) {
        Err(CoinbackedError::InvalidUtf8 { valid_up_to }) => assert_eq!(valid_up_to, 10),
        other => panic!("expected utf8 error, got {:?}", other),
    }
}

#[test]
fn decode_accepts_multibyte_utf8_terms() {
    let mut data = vec![0u8];
    data.extend_from_slice(&1u64.to_le_bytes());
    let mut terms = "é".repeat(64).into_bytes();
    assert_eq!(terms.len(), 128);
    data.append(&mut terms);
    match Instruction::unpack(&data).unwrap() {
        Instruction::CreateBackingAccount { signed_tos, .. } => {
            assert_eq!(signed_tos, "é".repeat(64));
        }
        _ => panic!("wrong variant"),
    }
}

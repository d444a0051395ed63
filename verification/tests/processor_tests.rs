use coinbacked::ledger::AccountView;
use coinbacked::error::CoinbackedError;
use coinbacked::processor::{
    get_payout_in_lamport, process_admin_transfer_from_treasury_account,
    process_burn_token_and_free_balanace, process_clean_accounts_after_burning,
    process_create_backing_account, token_amount_one_unit,
};
use coinbacked::state::{BackingAccount, TreasuryAccount};
use coinbacked::utils::{rent_sysvar_id_bytes, system_program_id_bytes, token_program_id_bytes};
use solana_program::pubkey::Pubkey;

fn pda(seeds: &[&[u8]], program_id: &[u8; 32]) -> (Vec<u8>, u8) {
    let pid = Pubkey::new_from_array(*program_id);
    let (k, b) = Pubkey::find_program_address(seeds, &pid);
    (k.to_bytes().to_vec(), b)
}

fn account(key: Vec<u8>, lamports: u64, owner: Vec<u8>, data: Vec<u8>) -> AccountView {
    AccountView { key, lamports, owner, data, is_signer: false, is_writable: true }
}

fn token_account_data(mint: &[u8], owner: &[u8], amount: u64) -> Vec<u8> {
    let mut d = vec![0u8; 165];
    d[0..32].copy_from_slice(mint);
    d[32..64].copy_from_slice(owner);
    d[64..72].copy_from_slice(&amount.to_le_bytes());
    d[108] = 1; // initialized
    d
}

fn mint_data(supply: u64, decimals: u8, has_authority: bool) -> Vec<u8> {
    let mut d = vec![0u8; 82];
    if has_authority {
        d[0] = 1;
    }
    d[36..44].copy_from_slice(&supply.to_le_bytes());
    d[44] = decimals;
    d[45] = 1; // initialized
    d
}

#[test]
fn payout_formula_exact() {
    assert_eq!(get_payout_in_lamport(100, 1000, 1_041_000, 41_000), Ok(100_000));
    // balance at the floor pays zero for any positive units and supply
    assert_eq!(get_payout_in_lamport(123, 7, 41_000, 41_000), Ok(0));
    // supply zero is a math error
    assert_eq!(get_payout_in_lamport(1, 0, 2, 1), Err(CoinbackedError::MathError));
    // balance below the floor is a math error
    assert_eq!(get_payout_in_lamport(1, 1, 1, 2), Err(CoinbackedError::MathError));
}

#[test]
fn payout_monotone_in_units_and_supply() {
    let p10 = get_payout_in_lamport(10, 1000, 1_041_000, 41_000).unwrap();
    let p20 = get_payout_in_lamport(20, 1000, 1_041_000, 41_000).unwrap();
    assert!(p10 <= p20);
    let s_small = get_payout_in_lamport(10, 500, 1_041_000, 41_000).unwrap();
    assert!(p10 <= s_small);
}

#[test]
fn one_unit_is_ten_to_the_decimals() {
    assert_eq!(token_amount_one_unit(0), 1);
    assert_eq!(token_amount_one_unit(6), 1_000_000);
    assert_eq!(token_amount_one_unit(19), 10_000_000_000_000_000_000);
}

#[test]
fn create_backing_account_scenario() {
    let program_id = vec![7u8; 32];
    let pid: [u8; 32] = program_id.clone().try_into().unwrap();
    let mint_key = vec![2u8; 32];
    let source_key = vec![3u8; 32];
    let (backing_key, _bump) = pda(&[&mint_key, &program_id, b"COINBACKED"], &pid);
    let (treasury_key, tbump) = pda(&[&program_id, b"COINBACKED-TREASURY"], &pid);

    let mut source = account(source_key.clone(), 10_000_000, vec![0u8; 32], vec![]);
    source.is_signer = true;
    let mint = account(mint_key.clone(), 1, vec![0u8; 32], mint_data(1000, 6, true));
    let token = account(
        vec![4u8; 32],
        1,
        vec![0u8; 32],
        token_account_data(&mint_key, &source_key, 500),
    );
    let backing = account(backing_key, 0, vec![0u8; 32], vec![]);
    let treasury_record = TreasuryAccount { rent_excemption: 5_000, bump: tbump };
    let treasury = account(treasury_key, 5_000, program_id.clone(), treasury_record.pack());
    let system_program = account(system_program_id_bytes(), 1, vec![0u8; 32], vec![]);
    let rent_sysvar = account(rent_sysvar_id_bytes(), 1, vec![0u8; 32], vec![]);

    let eff = process_create_backing_account(
        &program_id,
        &source,
        &mint,
        &token,
        &backing,
        &treasury,
        &system_program,
        &rent_sysvar,
        1_000_000,
        41_000,
    )
    .unwrap();
    assert_eq!(eff.rent_excemption, 41_000);
    assert_eq!(eff.backing_lamports, 41_000 + 1_000_000);
    assert_eq!(eff.fee, 5_000);
    assert_eq!(eff.record.token_key, mint_key);
    assert_eq!(eff.record.rent_excemption, 41_000);
}

#[test]
fn burn_and_free_scenario() {
    let program_id = vec![7u8; 32];
    let pid: [u8; 32] = program_id.clone().try_into().unwrap();
    let mint_key = vec![2u8; 32];
    let owner_key = vec![3u8; 32];
    let (backing_key, bump) = pda(&[&mint_key, &program_id, b"COINBACKED"], &pid);
    let (treasury_key, tbump) = pda(&[&program_id, b"COINBACKED-TREASURY"], &pid);

    let mut owner = account(owner_key.clone(), 1_000_000, vec![0u8; 32], vec![]);
    owner.is_signer = true;
    let mint = account(mint_key.clone(), 1, vec![0u8; 32], mint_data(1000, 6, true));
    let token = account(
        vec![4u8; 32],
        1,
        vec![0u8; 32],
        token_account_data(&mint_key, &owner_key, 500),
    );
    let backing_record =
        BackingAccount { token_key: mint_key.clone(), rent_excemption: 41_000, bump };
    let backing = account(backing_key, 1_041_000, program_id.clone(), backing_record.pack());
    let treasury_record = TreasuryAccount { rent_excemption: 5_000, bump: tbump };
    let treasury = account(treasury_key, 5_000, program_id.clone(), treasury_record.pack());
    let token_program = account(token_program_id_bytes(), 1, vec![0u8; 32], vec![]);

    let eff = process_burn_token_and_free_balanace(
        &program_id,
        &owner,
        &mint,
        &token,
        &backing,
        &treasury,
        &token_program,
        100,
    )
    .unwrap();
    assert_eq!(eff.payout, 100_000);
    assert_eq!(eff.backing_lamports_after, 941_000);
    assert_eq!(eff.owner_lamports_after, 1_000_000 + 100_000 - 5_000);
    assert_eq!(eff.treasury_lamports_after, 5_000 + 5_000);
}

#[test]
fn admin_transfer_insufficient_reports_maximum() {
    let program_id = vec![7u8; 32];
    let pid: [u8; 32] = program_id.clone().try_into().unwrap();
    let (treasury_key, tbump) = pda(&[&program_id, b"COINBACKED-TREASURY"], &pid);
    let owner_key = vec![8u8; 32];
    let pd_key = vec![9u8; 32];

    let owner = account(owner_key.clone(), 1, vec![0u8; 32], vec![]);
    let receiving = account(vec![5u8; 32], 0, vec![0u8; 32], vec![]);
    let treasury_record = TreasuryAccount { rent_excemption: 41_000, bump: tbump };
    let treasury = account(treasury_key, 50_000, program_id.clone(), treasury_record.pack());
    let mut pa_data = vec![0u8; 36];
    pa_data[4..36].copy_from_slice(&pd_key);
    let program_account = account(program_id.clone(), 1, vec![0u8; 32], pa_data);
    let mut pd_data = vec![0u8; 45];
    pd_data[13..45].copy_from_slice(&owner_key);
    let program_data = account(pd_key, 1, vec![0u8; 32], pd_data);

    let r = process_admin_transfer_from_treasury_account(
        &program_id,
        &owner,
        &receiving,
        &treasury,
        &program_account,
        &program_data,
        20_000,
    );
    match r {
        Err(CoinbackedError::InsufficientFunds { maximum_transferable }) => {
            assert_eq!(maximum_transferable, 9_000);
        }
        other => panic!("expected insufficient funds, got {:?}", other.is_ok()),
    }

    // a transfer within the floor succeeds
    let eff = process_admin_transfer_from_treasury_account(
        &program_id,
        &owner,
        &receiving,
        &treasury,
        &program_account,
        &program_data,
        9_000,
    )
    .unwrap();
    assert_eq!(eff.treasury_lamports_after, 41_000);
    assert_eq!(eff.receiver_lamports_after, 9_000);
}

#[test]
fn clean_sweeps_reserve_at_exact_floor() {
    let program_id = vec![7u8; 32];
    let mint_key = vec![2u8; 32];
    let owner_key = vec![3u8; 32];

    let mut owner = account(owner_key.clone(), 1, vec![0u8; 32], vec![]);
    owner.is_signer = true;
    let token = account(
        vec![4u8; 32],
        1,
        vec![0u8; 32],
        token_account_data(&mint_key, &owner_key, 0),
    );
    let backing_record =
        BackingAccount { token_key: mint_key.clone(), rent_excemption: 41_000, bump: 255 };
    let backing = account(vec![6u8; 32], 41_000, program_id.clone(), backing_record.pack());
    let treasury = account(vec![5u8; 32], 10_000, program_id.clone(), vec![]);

    let eff = process_clean_accounts_after_burning(&owner, &token, &backing, &treasury).unwrap();
    assert!(eff.close_token_account);
    assert!(eff.sweep_backing);
    assert_eq!(eff.treasury_lamports_after, 10_000 + 41_000);
}

#[test]
fn missing_signer_is_rejected() {
    let program_id = vec![7u8; 32];
    let owner = account(vec![3u8; 32], 1, vec![0u8; 32], vec![]);
    let token = account(vec![4u8; 32], 1, vec![0u8; 32], vec![]);
    let backing = account(vec![6u8; 32], 0, vec![0u8; 32], vec![]);
    let treasury = account(vec![5u8; 32], 0, program_id.clone(), vec![]);
    let r = process_clean_accounts_after_burning(&owner, &token, &backing, &treasury);
    assert!(matches!(r, Err(CoinbackedError::MissingRequiredSignature)));
}

#[test]
fn dispatch_runs_the_decoded_handler() {
    let program_id = vec![7u8; 32];
    let mint_key = vec![2u8; 32];
    let owner_key = vec![3u8; 32];

    let mut owner = account(owner_key.clone(), 1, vec![0u8; 32], vec![]);
    owner.is_signer = true;
    let token = account(
        vec![4u8; 32],
        1,
        vec![0u8; 32],
        token_account_data(&mint_key, &owner_key, 0),
    );
    let backing_record =
        BackingAccount { token_key: mint_key.clone(), rent_excemption: 41_000, bump: 255 };
    let backing = account(vec![6u8; 32], 41_000, program_id.clone(), backing_record.pack());
    let treasury = account(vec![5u8; 32], 10_000, program_id.clone(), vec![]);
    let token_program = account(token_program_id_bytes(), 1, vec![0u8; 32], vec![]);
    let system_program = account(system_program_id_bytes(), 1, vec![0u8; 32], vec![]);
    let accounts = vec![owner, token, backing, treasury, token_program, system_program];

    match coinbacked::processor::process_instruction(&program_id, &accounts, &[4u8], 1, 1) {
        Ok(coinbacked::processor::ProcessEffects::Cleaned(eff)) => {
            assert!(eff.sweep_backing);
            assert_eq!(eff.treasury_lamports_after, 51_000);
        }
        _ => panic!("expected the cleanup handler's effects"),
    }
}

#[test]
fn dispatch_rejects_too_few_accounts() {
    let program_id = vec![7u8; 32];
    let accounts: Vec<AccountView> = Vec::new();
    let r = coinbacked::processor::process_instruction(&program_id, &accounts, &[4u8], 1, 1);
    assert!(matches!(r, Err(CoinbackedError::NotEnoughAccountKeys)));
    let r2 = coinbacked::processor::process_instruction(&program_id, &accounts, &[1u8], 1, 1);
    assert!(matches!(r2, Err(CoinbackedError::NotEnoughAccountKeys)));
}

#[test]
fn dispatch_propagates_decode_errors() {
    let program_id = vec![7u8; 32];
    let accounts: Vec<AccountView> = Vec::new();
    let r = coinbacked::processor::process_instruction(&program_id, &accounts, &[255u8], 1, 1);
    assert!(matches!(r, Err(CoinbackedError::InvalidInstructionData)));
}

#[test]
fn validate_reports_rate_and_flags() {
    let program_id = vec![7u8; 32];
    let pid: [u8; 32] = program_id.clone().try_into().unwrap();
    let mint_key = vec![2u8; 32];
    let (backing_key, bump) = pda(&[&mint_key, &program_id, b"COINBACKED"], &pid);
    let (treasury_key, tbump) = pda(&[&program_id, b"COINBACKED-TREASURY"], &pid);

    let payer = account(vec![3u8; 32], 1_000_000, vec![0u8; 32], vec![]);
    // one whole token is 10^0 = 1 unit
    let mint = account(mint_key.clone(), 1, vec![0u8; 32], mint_data(1000, 0, false));
    let backing_record =
        BackingAccount { token_key: mint_key.clone(), rent_excemption: 41_000, bump };
    let backing = account(backing_key, 1_041_000, program_id.clone(), backing_record.pack());
    let treasury_record = TreasuryAccount { rent_excemption: 5_000, bump: tbump };
    let treasury = account(treasury_key, 5_000, program_id.clone(), treasury_record.pack());

    let rep = coinbacked::processor::process_validate_backing_account(
        &program_id,
        &payer,
        &mint,
        &backing,
        &treasury,
    )
    .unwrap();
    assert!(rep.pda_ok && rep.mint_match && rep.rent_ok && rep.bump_ok && rep.validation_ok);
    assert_eq!(rep.per_unit_payout, 1_000); // 1 * 1_000_000 / 1000
    assert!(rep.fixed_supply);
    assert_eq!(rep.fee, 5_000);
}

#[test]
fn validate_below_floor_is_advisory() {
    let program_id = vec![7u8; 32];
    let pid: [u8; 32] = program_id.clone().try_into().unwrap();
    let mint_key = vec![2u8; 32];
    let (backing_key, bump) = pda(&[&mint_key, &program_id, b"COINBACKED"], &pid);
    let (treasury_key, tbump) = pda(&[&program_id, b"COINBACKED-TREASURY"], &pid);

    let payer = account(vec![3u8; 32], 1_000_000, vec![0u8; 32], vec![]);
    let mint = account(mint_key.clone(), 1, vec![0u8; 32], mint_data(1000, 0, true));
    let backing_record =
        BackingAccount { token_key: mint_key.clone(), rent_excemption: 41_000, bump };
    // balance sits below the recorded floor: advisory failure, not an error
    let backing = account(backing_key, 40_999, program_id.clone(), backing_record.pack());
    let treasury_record = TreasuryAccount { rent_excemption: 5_000, bump: tbump };
    let treasury = account(treasury_key, 5_000, program_id.clone(), treasury_record.pack());

    let rep = coinbacked::processor::process_validate_backing_account(
        &program_id,
        &payer,
        &mint,
        &backing,
        &treasury,
    )
    .unwrap();
    assert!(!rep.rent_ok);
    assert!(!rep.validation_ok);
    assert_eq!(rep.per_unit_payout, 0);
    assert!(!rep.fixed_supply);
}

#[test]
fn validate_zero_supply_is_advisory() {
    let program_id = vec![7u8; 32];
    let pid: [u8; 32] = program_id.clone().try_into().unwrap();
    let mint_key = vec![2u8; 32];
    let (backing_key, bump) = pda(&[&mint_key, &program_id, b"COINBACKED"], &pid);
    let (treasury_key, tbump) = pda(&[&program_id, b"COINBACKED-TREASURY"], &pid);

    let payer = account(vec![3u8; 32], 1_000_000, vec![0u8; 32], vec![]);
    let mint = account(mint_key.clone(), 1, vec![0u8; 32], mint_data(0, 0, true));
    let backing_record =
        BackingAccount { token_key: mint_key.clone(), rent_excemption: 41_000, bump };
    let backing = account(backing_key, 1_041_000, program_id.clone(), backing_record.pack());
    let treasury_record = TreasuryAccount { rent_excemption: 5_000, bump: tbump };
    let treasury = account(treasury_key, 5_000, program_id.clone(), treasury_record.pack());

    let rep = coinbacked::processor::process_validate_backing_account(
        &program_id,
        &payer,
        &mint,
        &backing,
        &treasury,
    )
    .unwrap();
    assert!(rep.validation_ok);
    assert_eq!(rep.per_unit_payout, 0);
}

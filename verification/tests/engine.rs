use adobe::engine::{
    amount_due, borrow, check_top_level, examine, find_repay, invoker, repay, Borrow, Repay, Sighting,
};
use adobe::error::{AdobeError, Failure};
use adobe::identity::Identity;
use adobe::log::{Instruction, InstructionLog};
use adobe::state::Pool;
use adobe::token::{TokenAccount, TokenAction};
use adobe::wire::encode_repay;
use anchor_lang::prelude::Pubkey;
use anchor_lang::solana_program::sysvar::instructions::{
    construct_instructions_data, BorrowedAccountMeta, BorrowedInstruction,
};

const ENGINE: u8 = 1;
const FORWARDER: u8 = 2;
const USER: u8 = 10;
const STATE: u8 = 11;
const POOL: u8 = 12;
const CUSTODY: u8 = 13;
const USER_TOKEN: u8 = 14;
const ASSET: u8 = 15;
const VOUCHER: u8 = 16;
const OTHER_POOL: u8 = 17;

fn id(n: u8) -> Identity {
    Identity::new([n; 32])
}

fn log_of(entries: &[Instruction], current: u16) -> InstructionLog {
    let programs: Vec<Pubkey> =
        entries.iter().map(|e| Pubkey::new_from_array(e.program_id.bytes)).collect();
    let keys: Vec<Vec<Pubkey>> = entries
        .iter()
        .map(|e| e.accounts.iter().map(|a| Pubkey::new_from_array(a.bytes)).collect())
        .collect();
    let borrowed: Vec<BorrowedInstruction> = (0..entries.len())
        .map(|i| BorrowedInstruction {
            program_id: &programs[i],
            accounts: keys[i]
                .iter()
                .map(|k| BorrowedAccountMeta { pubkey: k, is_signer: false, is_writable: true })
                .collect(),
            data: &entries[i].data,
        })
        .collect();
    let mut bytes = construct_instructions_data(&borrowed);
    let n = bytes.len();
    bytes[n - 2..].copy_from_slice(&current.to_le_bytes());
    InstructionLog::new(bytes).unwrap()
}

fn accounts_for(pool: u8) -> Vec<Identity> {
    vec![id(USER), id(STATE), id(pool), id(CUSTODY), id(USER_TOKEN)]
}

fn repay_ix(program: u8, pool: u8, amount: u64) -> Instruction {
    Instruction { program_id: id(program), accounts: accounts_for(pool), data: encode_repay(amount) }
}

fn borrow_ix(program: u8, amount: u64) -> Instruction {
    let mut data = vec![0xe4, 0xfd, 0x83, 0xca, 0xcf, 0x74, 0x59, 0x12];
    data.extend_from_slice(&amount.to_le_bytes());
    Instruction { program_id: id(program), accounts: accounts_for(POOL), data }
}

fn pool(borrowing: bool, fee_bps: u16) -> Pool {
    Pool {
        bump: 254,
        borrowing,
        token_mint: id(ASSET),
        pool_token: id(CUSTODY),
        voucher_mint: id(VOUCHER),
        fee_bps,
    }
}

fn borrow_ctx(log: InstructionLog, borrowing: bool) -> Borrow {
    Borrow {
        program_id: id(ENGINE),
        user: id(USER),
        state: id(STATE),
        pool_key: id(POOL),
        pool: pool(borrowing, 30),
        pool_token: id(CUSTODY),
        user_token: TokenAccount { key: id(USER_TOKEN), mint: id(ASSET), amount: 0 },
        instructions: log,
    }
}

fn repay_ctx(log: InstructionLog, borrowing: bool, fee_bps: u16) -> Repay {
    Repay {
        program_id: id(ENGINE),
        user: id(USER),
        state: id(STATE),
        pool_key: id(POOL),
        pool: pool(borrowing, fee_bps),
        pool_token: id(CUSTODY),
        user_token: TokenAccount { key: id(USER_TOKEN), mint: id(ASSET), amount: 0 },
        instructions: log,
    }
}

fn engine_failure(e: AdobeError) -> Result<Vec<TokenAction>, Failure> {
    Err(Failure::Engine(e))
}

#[test]
fn the_log_gives_back_the_instructions_it_was_built_from() {
    let entries = vec![borrow_ix(ENGINE, 5), repay_ix(ENGINE, POOL, 5), repay_ix(FORWARDER, OTHER_POOL, 9)];
    let log = log_of(&entries, 1);
    assert_eq!(log.current_index(), 1);
    assert_eq!(log.instruction_at(0), Some(entries[0].clone()));
    assert_eq!(log.instruction_at(1), Some(entries[1].clone()));
    assert_eq!(log.instruction_at(2), Some(entries[2].clone()));
    assert_eq!(log.instruction_at(3), None);
    assert_eq!(log.instruction_at(65535), None);
    assert_eq!(log.instruction_at(usize::MAX), None);
    assert_eq!(invoker(&log), Some(id(ENGINE)));
}

#[test]
fn the_current_index_is_read_from_the_last_two_bytes() {
    let log = log_of(&[borrow_ix(ENGINE, 5)], 0x0102);
    assert_eq!(log.current_index(), 0x0102);
    assert_eq!(invoker(&log), None);
    let bare = InstructionLog::new(vec![0x34, 0x12]).unwrap();
    assert_eq!(bare.current_index(), 0x1234);
    assert_eq!(bare.instruction_at(0), None);
}

#[test]
fn a_log_needs_room_for_its_index() {
    assert!(InstructionLog::new(vec![]).is_none());
    assert!(InstructionLog::new(vec![0]).is_none());
    assert!(InstructionLog::new(vec![0, 0]).is_some());
}

#[test]
fn the_forwarding_check_reads_the_entry_at_the_current_index() {
    let entries = [borrow_ix(FORWARDER, 5), repay_ix(ENGINE, POOL, 5), repay_ix(FORWARDER, POOL, 5)];
    let refusal = AdobeError::CpiRepay;
    let at_forwarder = log_of(&entries, 0);
    assert_eq!(check_top_level(&at_forwarder, &id(ENGINE), refusal), Err(Failure::Engine(refusal)));
    assert_eq!(check_top_level(&at_forwarder, &id(FORWARDER), refusal), Ok(0));
    let at_engine = log_of(&entries, 1);
    assert_eq!(check_top_level(&at_engine, &id(ENGINE), AdobeError::CpiBorrow), Ok(1));
    assert_eq!(
        check_top_level(&at_engine, &id(FORWARDER), AdobeError::CpiBorrow),
        Err(Failure::Engine(AdobeError::CpiBorrow))
    );
    let past_the_end = log_of(&entries, 3);
    assert_eq!(check_top_level(&past_the_end, &id(ENGINE), refusal), Err(Failure::UnreadableLog));
}

#[test]
fn examine_tells_a_matching_repay_from_the_rest() {
    let (engine, pool_key) = (id(ENGINE), id(POOL));
    assert_eq!(examine(&repay_ix(ENGINE, POOL, 7), &engine, &pool_key, 7), Sighting::Matching);
    assert_eq!(examine(&repay_ix(ENGINE, POOL, 8), &engine, &pool_key, 7), Sighting::Mismatched);
    assert_eq!(examine(&repay_ix(ENGINE, OTHER_POOL, 7), &engine, &pool_key, 7), Sighting::Unrelated);
    assert_eq!(examine(&repay_ix(FORWARDER, POOL, 7), &engine, &pool_key, 7), Sighting::Unrelated);
    assert_eq!(examine(&borrow_ix(ENGINE, 7), &engine, &pool_key, 7), Sighting::Unrelated);
}

#[test]
fn examine_reads_short_instructions_without_failing() {
    let (engine, pool_key) = (id(ENGINE), id(POOL));
    let mut short = repay_ix(ENGINE, POOL, 7);
    short.data.truncate(7);
    assert_eq!(examine(&short, &engine, &pool_key, 7), Sighting::Unrelated);
    let mut no_amount = repay_ix(ENGINE, POOL, 7);
    no_amount.data.truncate(12);
    assert_eq!(examine(&no_amount, &engine, &pool_key, 7), Sighting::Mismatched);
    let mut few_accounts = repay_ix(ENGINE, POOL, 7);
    few_accounts.accounts.truncate(2);
    assert_eq!(examine(&few_accounts, &engine, &pool_key, 7), Sighting::Unrelated);
    let mut pool_elsewhere = repay_ix(ENGINE, POOL, 7);
    pool_elsewhere.accounts.swap(1, 2);
    assert_eq!(examine(&pool_elsewhere, &engine, &pool_key, 7), Sighting::Unrelated);
}

#[test]
fn find_repay_stops_at_the_first_repay_to_the_pool() {
    let (engine, pool_key) = (id(ENGINE), id(POOL));
    let log = log_of(
        &[
            borrow_ix(ENGINE, 7),
            repay_ix(ENGINE, OTHER_POOL, 1),
            repay_ix(FORWARDER, POOL, 1),
            repay_ix(ENGINE, POOL, 7),
            repay_ix(ENGINE, POOL, 9),
        ],
        0,
    );
    assert_eq!(find_repay(&log, 1, &engine, &pool_key, 7), Ok(3));
    assert_eq!(find_repay(&log, 0, &engine, &pool_key, 7), Ok(3));
    assert_eq!(find_repay(&log, 3, &engine, &pool_key, 7), Ok(3));
    assert_eq!(find_repay(&log, 1, &engine, &pool_key, 9), Err(AdobeError::IncorrectRepay));
    assert_eq!(find_repay(&log, 4, &engine, &pool_key, 9), Ok(4));
    assert_eq!(find_repay(&log, 4, &engine, &pool_key, 7), Err(AdobeError::IncorrectRepay));
    assert_eq!(find_repay(&log, 5, &engine, &pool_key, 7), Err(AdobeError::NoRepay));
    assert_eq!(find_repay(&log, 70000, &engine, &pool_key, 7), Err(AdobeError::NoRepay));
    assert_eq!(find_repay(&log, usize::MAX, &engine, &pool_key, 7), Err(AdobeError::NoRepay));
    assert_eq!(find_repay(&log, 1, &engine, &id(OTHER_POOL), 1), Ok(1));
}

#[test]
fn borrow_passes_with_a_later_repay_of_the_same_amount() {
    let log = log_of(&[borrow_ix(ENGINE, 500), repay_ix(ENGINE, POOL, 500)], 0);
    let mut ctx = borrow_ctx(log, false);
    let actions = borrow(&mut ctx, 500).unwrap();
    assert_eq!(
        actions,
        vec![TokenAction::Transfer {
            from: id(CUSTODY),
            to: id(USER_TOKEN),
            authority: id(STATE),
            amount: 500
        }]
    );
    assert!(ctx.pool.borrowing);
    assert_eq!(ctx.pool, pool(true, 30));
}

#[test]
fn borrow_without_a_later_repay_fails_with_no_repay() {
    let mut alone = borrow_ctx(log_of(&[borrow_ix(ENGINE, 500)], 0), false);
    assert_eq!(borrow(&mut alone, 500), engine_failure(AdobeError::NoRepay));
    assert!(!alone.pool.borrowing);
    let earlier = log_of(&[repay_ix(ENGINE, POOL, 500), borrow_ix(ENGINE, 500)], 1);
    let mut after_repay = borrow_ctx(earlier, false);
    assert_eq!(borrow(&mut after_repay, 500), engine_failure(AdobeError::NoRepay));
    let elsewhere = log_of(&[borrow_ix(ENGINE, 500), repay_ix(ENGINE, OTHER_POOL, 500)], 0);
    let mut other_pool = borrow_ctx(elsewhere, false);
    assert_eq!(borrow(&mut other_pool, 500), engine_failure(AdobeError::NoRepay));
    let forwarded = log_of(&[borrow_ix(ENGINE, 500), repay_ix(FORWARDER, POOL, 500)], 0);
    let mut by_proxy = borrow_ctx(forwarded, false);
    assert_eq!(borrow(&mut by_proxy, 500), engine_failure(AdobeError::NoRepay));
}

#[test]
fn borrow_with_a_repay_of_another_amount_fails_with_incorrect_repay() {
    let log = log_of(
        &[borrow_ix(ENGINE, 500), repay_ix(ENGINE, POOL, 499), repay_ix(ENGINE, POOL, 500)],
        0,
    );
    let mut ctx = borrow_ctx(log, false);
    assert_eq!(borrow(&mut ctx, 500), engine_failure(AdobeError::IncorrectRepay));
    assert!(!ctx.pool.borrowing);
    assert_eq!(borrow(&mut ctx, 499).map(|a| a.len()), Ok(1));
}

#[test]
fn a_second_borrow_in_the_same_transaction_fails_with_borrowing() {
    let entries = [
        borrow_ix(ENGINE, 500),
        borrow_ix(ENGINE, 500),
        repay_ix(ENGINE, POOL, 500),
        repay_ix(ENGINE, POOL, 500),
    ];
    let mut first = borrow_ctx(log_of(&entries, 0), false);
    assert!(borrow(&mut first, 500).is_ok());
    let mut second = borrow_ctx(log_of(&entries, 1), first.pool.borrowing);
    assert_eq!(borrow(&mut second, 500), engine_failure(AdobeError::Borrowing));
    assert_eq!(borrow(&mut first, 500), engine_failure(AdobeError::Borrowing));
    assert!(first.pool.borrowing);
}

#[test]
fn a_forwarded_borrow_fails_with_cpi_borrow() {
    let entries = [borrow_ix(FORWARDER, 500), repay_ix(ENGINE, POOL, 500)];
    for amount in [0u64, 500, u64::MAX] {
        let mut ctx = borrow_ctx(log_of(&entries, 0), false);
        assert_eq!(borrow(&mut ctx, amount), engine_failure(AdobeError::CpiBorrow));
        assert!(!ctx.pool.borrowing);
    }
    let mut no_repay = borrow_ctx(log_of(&entries[..1], 0), false);
    assert_eq!(borrow(&mut no_repay, 500), engine_failure(AdobeError::CpiBorrow));
    let mut lending = borrow_ctx(log_of(&entries, 0), true);
    assert_eq!(borrow(&mut lending, 500), engine_failure(AdobeError::Borrowing));
}

#[test]
fn a_forwarder_that_borrows_twice_fails_at_the_first_call() {
    let entries = [borrow_ix(FORWARDER, 500), repay_ix(ENGINE, POOL, 500), repay_ix(ENGINE, POOL, 500)];
    let mut ctx = borrow_ctx(log_of(&entries, 0), false);
    assert_eq!(borrow(&mut ctx, 500), engine_failure(AdobeError::CpiBorrow));
    assert_eq!(borrow(&mut ctx, 500), engine_failure(AdobeError::CpiBorrow));
    assert_eq!(ctx.pool, pool(false, 30));
}

#[test]
fn a_forwarded_repay_fails_with_cpi_repay() {
    let entries = [borrow_ix(ENGINE, 500), repay_ix(FORWARDER, POOL, 500)];
    for amount in [0u64, 500, u64::MAX] {
        let mut ctx = repay_ctx(log_of(&entries, 1), true, 30);
        assert_eq!(repay(&mut ctx, amount), engine_failure(AdobeError::CpiRepay));
        assert!(ctx.pool.borrowing);
    }
}

#[test]
fn repay_takes_the_amount_and_the_fee() {
    let entries = [borrow_ix(ENGINE, 1_000_000), repay_ix(ENGINE, POOL, 1_000_000)];
    let mut ctx = repay_ctx(log_of(&entries, 1), true, 30);
    let actions = repay(&mut ctx, 1_000_000).unwrap();
    assert_eq!(
        actions,
        vec![TokenAction::Transfer {
            from: id(USER_TOKEN),
            to: id(CUSTODY),
            authority: id(USER),
            amount: 1_003_000
        }]
    );
    assert!(!ctx.pool.borrowing);
    assert_eq!(ctx.pool, pool(false, 30));
}

#[test]
fn the_fee_is_rounded_down() {
    assert_eq!(amount_due(1_000_000, 30), Some(1_003_000));
    assert_eq!(amount_due(0, 30), Some(0));
    assert_eq!(amount_due(333, 30), Some(333));
    assert_eq!(amount_due(334, 30), Some(335));
    assert_eq!(amount_due(9_999, 1), Some(9_999));
    assert_eq!(amount_due(10_000, 1), Some(10_001));
    assert_eq!(amount_due(1_000_000, 0), Some(1_000_000));
    assert_eq!(amount_due(1_000_000, 10_000), Some(2_000_000));
    assert_eq!(amount_due(100, 65_535), Some(755));
}

#[test]
fn the_product_of_amount_and_rate_may_leave_64_bits() {
    assert_eq!(amount_due(u64::MAX / 30 + 1, 30), Some(616_736_143_531_022_676));
    assert_eq!(amount_due(1 << 60, 30), Some(1_156_380_269_120_667_516));
    assert_eq!(amount_due(u64::MAX / 2, 10_000), Some(u64::MAX - 1));
    assert_eq!(amount_due(u64::MAX / 10_000 + 1, 10_000), Some(2 * (u64::MAX / 10_000 + 1)));
    assert_eq!(amount_due(1 << 48, 65_535), Some((1u64 << 48) + 1_844_646_259_873_284));
    let entries = [repay_ix(ENGINE, POOL, 1 << 60)];
    let mut ctx = repay_ctx(log_of(&entries, 0), true, 30);
    assert_eq!(
        repay(&mut ctx, 1 << 60),
        Ok(vec![TokenAction::Transfer {
            from: id(USER_TOKEN),
            to: id(CUSTODY),
            authority: id(USER),
            amount: 1_156_380_269_120_667_516
        }])
    );
    assert!(!ctx.pool.borrowing);
}

#[test]
fn an_amount_due_beyond_64_bits_is_refused() {
    assert_eq!(amount_due(u64::MAX, 0), Some(u64::MAX));
    assert_eq!(amount_due(u64::MAX, 1), None);
    assert_eq!(amount_due(u64::MAX, 30), None);
    assert_eq!(amount_due(u64::MAX / 30, 30), Some(u64::MAX / 30 + (u64::MAX / 30 * 30) / 10_000));
    assert_eq!(amount_due(u64::MAX - 1, 1), None);
    assert_eq!(amount_due(u64::MAX / 2 + 1, 10_000), None);
    assert_eq!(amount_due(18_391_569_365_612_713_475, 30), Some(u64::MAX));
    assert_eq!(amount_due(18_391_569_365_612_713_476, 30), None);
    let entries = [repay_ix(ENGINE, POOL, u64::MAX)];
    let mut ctx = repay_ctx(log_of(&entries, 0), true, 30);
    assert_eq!(repay(&mut ctx, u64::MAX), Err(Failure::Overflow));
    assert!(ctx.pool.borrowing);
}

#[test]
fn repay_does_not_ask_whether_a_loan_is_out() {
    let entries = [repay_ix(ENGINE, POOL, 40)];
    let mut idle = repay_ctx(log_of(&entries, 0), false, 250);
    let actions = repay(&mut idle, 40).unwrap();
    assert_eq!(
        actions,
        vec![TokenAction::Transfer {
            from: id(USER_TOKEN),
            to: id(CUSTODY),
            authority: id(USER),
            amount: 41
        }]
    );
    assert!(!idle.pool.borrowing);
    let mut lending = repay_ctx(log_of(&entries, 0), true, 250);
    assert!(repay(&mut lending, 1).is_ok());
    assert!(!lending.pool.borrowing);
}

#[test]
fn accounts_that_do_not_fit_the_pool_are_refused_first() {
    let entries = [borrow_ix(FORWARDER, 500), repay_ix(FORWARDER, POOL, 500)];
    let mut wrong_custody = borrow_ctx(log_of(&entries, 0), true);
    wrong_custody.pool_token = id(USER_TOKEN);
    assert_eq!(borrow(&mut wrong_custody, 500), Err(Failure::WrongCustody));
    let mut wrong_asset = borrow_ctx(log_of(&entries, 0), true);
    wrong_asset.user_token.mint = id(VOUCHER);
    assert_eq!(borrow(&mut wrong_asset, 500), Err(Failure::WrongAsset));
    let mut repay_custody = repay_ctx(log_of(&entries, 1), true, 30);
    repay_custody.pool_token = id(USER_TOKEN);
    assert_eq!(repay(&mut repay_custody, 500), Err(Failure::WrongCustody));
    let mut repay_asset = repay_ctx(log_of(&entries, 1), true, 30);
    repay_asset.user_token.mint = id(VOUCHER);
    assert_eq!(repay(&mut repay_asset, 500), Err(Failure::WrongAsset));
    assert!(repay_asset.pool.borrowing);
}

#[test]
fn a_log_without_the_current_instruction_is_unreadable() {
    let entries = [borrow_ix(ENGINE, 500), repay_ix(ENGINE, POOL, 500)];
    let mut b = borrow_ctx(log_of(&entries, 2), false);
    assert_eq!(borrow(&mut b, 500), Err(Failure::UnreadableLog));
    let mut r = repay_ctx(log_of(&entries, 65535), false, 30);
    assert_eq!(repay(&mut r, 500), Err(Failure::UnreadableLog));
    let mut garbage = borrow_ctx(InstructionLog::new(vec![9, 0, 0, 0]).unwrap(), false);
    assert_eq!(borrow(&mut garbage, 500), Err(Failure::UnreadableLog));
}

#[test]
fn every_engine_failure_has_its_message() {
    assert_eq!(AdobeError::NoRepay.message(), "borrow requires an equivalent repay");
    assert_eq!(AdobeError::IncorrectRepay.message(), "repay exists but in the wrong amount");
    assert_eq!(AdobeError::CpiBorrow.message(), "cannot call borrow via cpi");
    assert_eq!(AdobeError::CpiRepay.message(), "cannot call repay via cpi");
    assert_eq!(AdobeError::Borrowing.message(), "a borrow is already in progress");
}

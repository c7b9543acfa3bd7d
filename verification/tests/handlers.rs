use sol_usd::error::ErrorCode;
use sol_usd::handlers::handler_borrow;
use sol_usd::handlers::handler_deposit;
use sol_usd::handlers::handler_init_trove;
use sol_usd::handlers::handler_init_trove_manager;
use sol_usd::handlers::handler_repay;
use sol_usd::handlers::handler_withdraw;
use sol_usd::handlers::handler_withdraw_collateral;
use sol_usd::state::Trove;
use sol_usd::state::TroveManager;
use sol_usd::transfer::Custody;
use sol_usd::transfer::TransferOutcome;
use sol_usd::transfer::TransferRequest;

fn sample_pool() -> TroveManager {
    let mut pool: TroveManager = handler_init_trove_manager::process(7, 9);
    pool.total_collateral = 10;
    pool.total_debt = 500;
    pool
}

fn sample_trove() -> Trove {
    Trove { owner: 1, collateral: 10, debt: 500, stake: 0 }
}

#[test]
fn init_trove_manager_builds_initial_record() {
    let pool: TroveManager = handler_init_trove_manager::process(7, 9);
    assert_eq!(
        pool,
        TroveManager {
            owner: 7,
            mint_address: 9,
            total_collateral: 0,
            total_debt: 0,
            total_stakes: 0,
            is_recovery_mode: false,
            minimum_collateral_ratio: 110,
            critical_collateral_ratio: 150,
            minimum_debt: 1000,
            fee: 1,
        }
    );
}

#[test]
fn deposit_request_moves_owner_funds_to_treasury() {
    assert_eq!(
        handler_deposit::transfer_request(1, 9, 25),
        TransferRequest {
            from: Custody::Owner(1),
            to: Custody::Treasury(9),
            authority: Custody::Owner(1),
            mint_address: 9,
            amount: 25,
        }
    );
}

#[test]
fn init_trove_request_moves_initial_collateral() {
    assert_eq!(
        handler_init_trove::transfer_request(1, 9, 10),
        TransferRequest {
            from: Custody::Owner(1),
            to: Custody::Treasury(9),
            authority: Custody::Owner(1),
            mint_address: 9,
            amount: 10,
        }
    );
}

#[test]
fn withdraw_request_uses_treasury_authority() {
    let trove: Trove = sample_trove();
    assert_eq!(
        handler_withdraw::transfer_request(&trove, 9, 4),
        Ok(TransferRequest {
            from: Custody::Treasury(9),
            to: Custody::Owner(1),
            authority: Custody::Treasury(9),
            mint_address: 9,
            amount: 4,
        })
    );
    assert_eq!(
        handler_withdraw::transfer_request(&trove, 9, 11),
        Err(ErrorCode::InsufficientFunds)
    );
}

#[test]
fn borrow_ceiling_is_priced_collateral_over_ratio() {
    // 200 * 10 * 100 / 110 = 1818 with integer division.
    let mut trove: Trove = sample_trove();
    let mut pool: TroveManager = sample_pool();
    assert_eq!(
        handler_borrow::process(&mut trove, &mut pool, 1819),
        Err(ErrorCode::OverBorrowableAmount)
    );
    assert_eq!(trove, sample_trove());
    assert_eq!(pool, sample_pool());
    assert_eq!(handler_borrow::process(&mut trove, &mut pool, 1818), Ok(()));
    assert_eq!(trove.debt, 2318);
    assert_eq!(pool.total_debt, 2318);
    assert_eq!(trove.collateral, 10);
    assert_eq!(pool.total_collateral, 10);
}

#[test]
fn repay_rejects_overpayment_and_clears_debt() {
    let mut trove: Trove = sample_trove();
    let mut pool: TroveManager = sample_pool();
    assert_eq!(
        handler_repay::process(&mut trove, &mut pool, 501),
        Err(ErrorCode::OverRepay)
    );
    assert_eq!(trove, sample_trove());
    assert_eq!(pool, sample_pool());
    assert_eq!(handler_repay::process(&mut trove, &mut pool, 500), Ok(()));
    assert_eq!(trove.debt, 0);
    assert_eq!(pool.total_debt, 0);
}

#[test]
fn deposit_requires_completed_transfer() {
    let mut trove: Trove = sample_trove();
    let mut pool: TroveManager = sample_pool();
    assert_eq!(
        handler_deposit::process(&mut trove, &mut pool, 25, TransferOutcome::Failed),
        Err(ErrorCode::TransferFailed)
    );
    assert_eq!(trove, sample_trove());
    assert_eq!(pool, sample_pool());
    assert_eq!(
        handler_deposit::process(&mut trove, &mut pool, 25, TransferOutcome::Completed),
        Ok(())
    );
    assert_eq!(trove.collateral, 35);
    assert_eq!(pool.total_collateral, 35);
}

#[test]
fn withdraw_checks_funds_before_transfer_outcome() {
    let mut trove: Trove = sample_trove();
    let mut pool: TroveManager = sample_pool();
    // Over-withdrawal is rejected even with a completed transfer.
    assert_eq!(
        handler_withdraw::process(&mut trove, &mut pool, 11, TransferOutcome::Completed),
        Err(ErrorCode::InsufficientFunds)
    );
    assert_eq!(
        handler_withdraw::process(&mut trove, &mut pool, 4, TransferOutcome::Failed),
        Err(ErrorCode::TransferFailed)
    );
    assert_eq!(trove, sample_trove());
    assert_eq!(pool, sample_pool());
    assert_eq!(
        handler_withdraw::process(&mut trove, &mut pool, 4, TransferOutcome::Completed),
        Ok(())
    );
    assert_eq!(trove.collateral, 6);
    assert_eq!(pool.total_collateral, 6);
}

#[test]
fn open_position_takes_amounts_as_given() {
    let mut pool: TroveManager = sample_pool();
    assert_eq!(
        handler_init_trove::process(&mut pool, 2, 40, 30, TransferOutcome::Failed),
        Err(ErrorCode::TransferFailed)
    );
    assert_eq!(pool, sample_pool());
    assert_eq!(
        handler_init_trove::process(&mut pool, 2, 40, 30, TransferOutcome::Completed),
        Ok(Trove { owner: 2, collateral: 40, debt: 30, stake: 0 })
    );
    assert_eq!(pool.total_collateral, 50);
    assert_eq!(pool.total_debt, 530);
}

#[test]
fn withdraw_collateral_touches_position_alone() {
    let mut trove: Trove = sample_trove();
    assert_eq!(handler_withdraw_collateral::process(&mut trove, 11), Ok(()));
    assert_eq!(trove, sample_trove());
    assert_eq!(handler_withdraw_collateral::process(&mut trove, 4), Ok(()));
    assert_eq!(trove.collateral, 6);
    assert_eq!(trove.debt, 500);
}

use sol_usd::error::ErrorCode;
use sol_usd::ledger::Ledger;
use sol_usd::state::Trove;
use sol_usd::state::TroveManager;
use sol_usd::transfer::TransferOutcome;

#[test]
fn pool_initial_parameters() {
    let mut ledger = Ledger::new();
    assert_eq!(ledger.init_trove_manager(7, 9), Ok(()));
    let pool: TroveManager = ledger.get_pool(9).unwrap();
    assert_eq!(pool.owner, 7);
    assert_eq!(pool.mint_address, 9);
    assert_eq!(pool.total_collateral, 0);
    assert_eq!(pool.total_debt, 0);
    assert_eq!(pool.total_stakes, 0);
    assert!(!pool.is_recovery_mode);
    assert_eq!(pool.minimum_collateral_ratio, 110);
    assert_eq!(pool.critical_collateral_ratio, 150);
    assert_eq!(pool.minimum_debt, 1000);
    assert_eq!(pool.fee, 1);
}

#[test]
fn pool_double_creation_rejected() {
    let mut ledger = Ledger::new();
    assert_eq!(ledger.init_trove_manager(7, 9), Ok(()));
    let before: TroveManager = ledger.get_pool(9).unwrap();
    assert_eq!(ledger.init_trove_manager(8, 9), Err(ErrorCode::AlreadyExists));
    assert_eq!(ledger.get_pool(9).unwrap(), before);
}

#[test]
fn open_position_stores_initial_amounts() {
    let mut ledger = Ledger::new();
    assert_eq!(ledger.init_trove_manager(7, 9), Ok(()));
    assert_eq!(ledger.init_trove(1, 9, 10, 5, TransferOutcome::Completed), Ok(()));
    let trove: Trove = ledger.get_trove(1, 9).unwrap();
    assert_eq!(trove.owner, 1);
    assert_eq!(trove.collateral, 10);
    assert_eq!(trove.debt, 5);
    assert_eq!(trove.stake, 0);
    let pool: TroveManager = ledger.get_pool(9).unwrap();
    assert_eq!(pool.total_collateral, 10);
    assert_eq!(pool.total_debt, 5);
}

#[test]
fn open_position_transfer_failure_changes_nothing() {
    let mut ledger = Ledger::new();
    assert_eq!(ledger.init_trove_manager(7, 9), Ok(()));
    let before: TroveManager = ledger.get_pool(9).unwrap();
    assert_eq!(
        ledger.init_trove(1, 9, 10, 5, TransferOutcome::Failed),
        Err(ErrorCode::TransferFailed)
    );
    assert!(ledger.get_trove(1, 9).is_none());
    assert_eq!(ledger.get_pool(9).unwrap(), before);
}

#[test]
fn double_open_rejected_and_first_unchanged() {
    let mut ledger = Ledger::new();
    assert_eq!(ledger.init_trove_manager(7, 9), Ok(()));
    assert_eq!(ledger.init_trove(1, 9, 10, 5, TransferOutcome::Completed), Ok(()));
    let first: Trove = ledger.get_trove(1, 9).unwrap();
    let pool_before: TroveManager = ledger.get_pool(9).unwrap();
    assert_eq!(
        ledger.init_trove(1, 9, 30, 40, TransferOutcome::Completed),
        Err(ErrorCode::AlreadyExists)
    );
    assert_eq!(ledger.get_trove(1, 9).unwrap(), first);
    assert_eq!(ledger.get_pool(9).unwrap(), pool_before);
}

#[test]
fn deposit_increments_position_and_pool() {
    let mut ledger = Ledger::new();
    assert_eq!(ledger.init_trove_manager(7, 9), Ok(()));
    assert_eq!(ledger.init_trove(1, 9, 10, 0, TransferOutcome::Completed), Ok(()));
    assert_eq!(ledger.deposit(1, 9, 25, TransferOutcome::Completed), Ok(()));
    assert_eq!(ledger.get_trove(1, 9).unwrap().collateral, 35);
    assert_eq!(ledger.get_pool(9).unwrap().total_collateral, 35);
}

#[test]
fn deposit_transfer_failure_atomic() {
    let mut ledger = Ledger::new();
    assert_eq!(ledger.init_trove_manager(7, 9), Ok(()));
    assert_eq!(ledger.init_trove(1, 9, 10, 0, TransferOutcome::Completed), Ok(()));
    let trove_before: Trove = ledger.get_trove(1, 9).unwrap();
    let pool_before: TroveManager = ledger.get_pool(9).unwrap();
    assert_eq!(
        ledger.deposit(1, 9, 25, TransferOutcome::Failed),
        Err(ErrorCode::TransferFailed)
    );
    assert_eq!(ledger.get_trove(1, 9).unwrap(), trove_before);
    assert_eq!(ledger.get_pool(9).unwrap(), pool_before);
}

#[test]
fn withdraw_within_collateral_succeeds_exactly() {
    let mut ledger = Ledger::new();
    assert_eq!(ledger.init_trove_manager(7, 9), Ok(()));
    assert_eq!(ledger.init_trove(1, 9, 10, 0, TransferOutcome::Completed), Ok(()));
    assert_eq!(ledger.withdraw(1, 9, 10, TransferOutcome::Completed), Ok(()));
    assert_eq!(ledger.get_trove(1, 9).unwrap().collateral, 0);
    assert_eq!(ledger.get_pool(9).unwrap().total_collateral, 0);
}

#[test]
fn withdraw_over_collateral_rejected_unchanged() {
    let mut ledger = Ledger::new();
    assert_eq!(ledger.init_trove_manager(7, 9), Ok(()));
    assert_eq!(ledger.init_trove(1, 9, 10, 0, TransferOutcome::Completed), Ok(()));
    let trove_before: Trove = ledger.get_trove(1, 9).unwrap();
    let pool_before: TroveManager = ledger.get_pool(9).unwrap();
    assert_eq!(
        ledger.withdraw(1, 9, 11, TransferOutcome::Completed),
        Err(ErrorCode::InsufficientFunds)
    );
    assert_eq!(ledger.get_trove(1, 9).unwrap(), trove_before);
    assert_eq!(ledger.get_pool(9).unwrap(), pool_before);
}

#[test]
fn withdraw_transfer_failure_atomic() {
    let mut ledger = Ledger::new();
    assert_eq!(ledger.init_trove_manager(7, 9), Ok(()));
    assert_eq!(ledger.init_trove(1, 9, 10, 0, TransferOutcome::Completed), Ok(()));
    let trove_before: Trove = ledger.get_trove(1, 9).unwrap();
    let pool_before: TroveManager = ledger.get_pool(9).unwrap();
    assert_eq!(
        ledger.withdraw(1, 9, 4, TransferOutcome::Failed),
        Err(ErrorCode::TransferFailed)
    );
    assert_eq!(ledger.get_trove(1, 9).unwrap(), trove_before);
    assert_eq!(ledger.get_pool(9).unwrap(), pool_before);
}

#[test]
fn borrow_ceiling_scenario() {
    // price 200, ratio 110, collateral 10: ceiling = 200*10*100/110 = 1818.
    let mut ledger = Ledger::new();
    assert_eq!(ledger.init_trove_manager(7, 9), Ok(()));
    assert_eq!(ledger.init_trove(1, 9, 10, 0, TransferOutcome::Completed), Ok(()));
    let trove_before: Trove = ledger.get_trove(1, 9).unwrap();
    let pool_before: TroveManager = ledger.get_pool(9).unwrap();
    assert_eq!(ledger.borrow(1, 9, 1819), Err(ErrorCode::OverBorrowableAmount));
    assert_eq!(ledger.get_trove(1, 9).unwrap(), trove_before);
    assert_eq!(ledger.get_pool(9).unwrap(), pool_before);
    assert_eq!(ledger.borrow(1, 9, 1818), Ok(()));
    assert_eq!(ledger.get_trove(1, 9).unwrap().debt, 1818);
    assert_eq!(ledger.get_pool(9).unwrap().total_debt, 1818);
}

#[test]
fn borrow_ceiling_ignores_existing_debt() {
    // The ceiling bounds each requested increment alone, never
    // debt + amount: a second full-ceiling borrow still succeeds.
    let mut ledger = Ledger::new();
    assert_eq!(ledger.init_trove_manager(7, 9), Ok(()));
    assert_eq!(ledger.init_trove(1, 9, 10, 0, TransferOutcome::Completed), Ok(()));
    assert_eq!(ledger.borrow(1, 9, 1818), Ok(()));
    assert_eq!(ledger.borrow(1, 9, 1818), Ok(()));
    assert_eq!(ledger.get_trove(1, 9).unwrap().debt, 3636);
}

#[test]
fn repay_bound_and_full_repayment() {
    let mut ledger = Ledger::new();
    assert_eq!(ledger.init_trove_manager(7, 9), Ok(()));
    assert_eq!(ledger.init_trove(1, 9, 10, 500, TransferOutcome::Completed), Ok(()));
    let trove_before: Trove = ledger.get_trove(1, 9).unwrap();
    let pool_before: TroveManager = ledger.get_pool(9).unwrap();
    assert_eq!(ledger.repay(1, 9, 501), Err(ErrorCode::OverRepay));
    assert_eq!(ledger.get_trove(1, 9).unwrap(), trove_before);
    assert_eq!(ledger.get_pool(9).unwrap(), pool_before);
    assert_eq!(ledger.repay(1, 9, 500), Ok(()));
    assert_eq!(ledger.get_trove(1, 9).unwrap().debt, 0);
    assert_eq!(ledger.get_pool(9).unwrap().total_debt, 0);
}

#[test]
fn maximum_collateral_roundtrip() {
    let mut ledger = Ledger::new();
    assert_eq!(ledger.init_trove_manager(7, 9), Ok(()));
    assert_eq!(
        ledger.init_trove(1, 9, u64::MAX, 0, TransferOutcome::Completed),
        Ok(())
    );
    assert_eq!(ledger.get_pool(9).unwrap().total_collateral, u64::MAX);
    assert_eq!(ledger.withdraw(1, 9, u64::MAX, TransferOutcome::Completed), Ok(()));
    assert_eq!(ledger.get_trove(1, 9).unwrap().collateral, 0);
    assert_eq!(ledger.get_pool(9).unwrap().total_collateral, 0);
}

#[test]
fn zero_amount_operations_succeed_without_effect() {
    let mut ledger = Ledger::new();
    assert_eq!(ledger.init_trove_manager(7, 9), Ok(()));
    assert_eq!(ledger.init_trove(1, 9, 0, 0, TransferOutcome::Completed), Ok(()));
    assert_eq!(ledger.deposit(1, 9, 0, TransferOutcome::Completed), Ok(()));
    assert_eq!(ledger.withdraw(1, 9, 0, TransferOutcome::Completed), Ok(()));
    // A zero borrow fits under the zero ceiling of a bare position.
    assert_eq!(ledger.borrow(1, 9, 0), Ok(()));
    assert_eq!(ledger.borrow(1, 9, 1), Err(ErrorCode::OverBorrowableAmount));
    assert_eq!(ledger.repay(1, 9, 0), Ok(()));
    let trove: Trove = ledger.get_trove(1, 9).unwrap();
    assert_eq!(trove.collateral, 0);
    assert_eq!(trove.debt, 0);
}

#[test]
fn conservation_across_operations() {
    // Two pools, three positions: after every operation each pool's
    // aggregates equal the sums over its positions.
    let mut ledger = Ledger::new();
    assert_eq!(ledger.init_trove_manager(7, 9), Ok(()));
    assert_eq!(ledger.init_trove_manager(7, 13), Ok(()));
    assert_eq!(ledger.init_trove(1, 9, 100, 20, TransferOutcome::Completed), Ok(()));
    assert_eq!(ledger.init_trove(2, 9, 50, 0, TransferOutcome::Completed), Ok(()));
    assert_eq!(ledger.init_trove(1, 13, 7, 3, TransferOutcome::Completed), Ok(()));
    assert_eq!(ledger.deposit(2, 9, 30, TransferOutcome::Completed), Ok(()));
    assert_eq!(ledger.withdraw(1, 9, 60, TransferOutcome::Completed), Ok(()));
    assert_eq!(ledger.borrow(2, 9, 1000), Ok(()));
    assert_eq!(ledger.repay(1, 9, 15), Ok(()));

    let trove_1_9: Trove = ledger.get_trove(1, 9).unwrap();
    let trove_2_9: Trove = ledger.get_trove(2, 9).unwrap();
    let trove_1_13: Trove = ledger.get_trove(1, 13).unwrap();
    let pool_9: TroveManager = ledger.get_pool(9).unwrap();
    let pool_13: TroveManager = ledger.get_pool(13).unwrap();
    assert_eq!(pool_9.total_collateral, trove_1_9.collateral + trove_2_9.collateral);
    assert_eq!(pool_9.total_debt, trove_1_9.debt + trove_2_9.debt);
    assert_eq!(pool_13.total_collateral, trove_1_13.collateral);
    assert_eq!(pool_13.total_debt, trove_1_13.debt);
    assert_eq!(trove_1_9.collateral, 40);
    assert_eq!(trove_1_9.debt, 5);
    assert_eq!(trove_2_9.collateral, 80);
    assert_eq!(trove_2_9.debt, 1000);
}

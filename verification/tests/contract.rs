use std::collections::HashMap;

use fxswap::constants::{COLLATERAL_BUFFER, SCALE, TIME_TO_EXEC, TIME_TO_REPAY};
use fxswap::setup::take_transfers;
use fxswap::storage::Swap;
use fxswap::types::address::Address;
use fxswap::types::error::Error;
use fxswap::types::price_data::PriceData;
use fxswap::types::stage::Stage;
use fxswap::types::transfer::{Transfer, TransferKind};
use fxswap::types::user::User;
use fxswap::types::user_liq_data::UserLiqData;

const TIME_TO_MATURE: u64 = 604800;

/// A contract with a clock, an oracle and a custody that keeps balances.
struct SwapTest {
    now: u64,
    oracle: i128,
    generated: u128,
    vault: Address,
    token_admin: Address,
    user_a: Address,
    user_b: Address,
    token_a: Address,
    token_b: Address,
    contract: Swap,
    balances: HashMap<(Address, Address), i128>,
}

impl SwapTest {
    fn setup() -> Self {
        let mut t = SwapTest {
            now: 12345,
            oracle: SCALE,
            generated: 0,
            vault: Address::contract(0, 0),
            token_admin: Address::contract(0, 0),
            user_a: Address::contract(0, 0),
            user_b: Address::contract(0, 0),
            token_a: Address::contract(0, 0),
            token_b: Address::contract(0, 0),
            contract: Swap::new(),
            balances: HashMap::new(),
        };
        t.user_a = t.generate();
        t.user_b = t.generate();
        t.token_admin = t.generate();
        t.token_a = t.generate();
        let (token, holder) = (t.token_a, t.user_a);
        t.mint(token, holder, 1_000);
        t.token_b = t.generate();
        let (token, holder) = (t.token_b, t.user_b);
        t.mint(token, holder, 1_000);
        t.vault = t.generate();
        t
    }

    fn generate(&mut self) -> Address {
        self.generated += 1;
        Address::contract(0, self.generated)
    }

    fn add_time(&mut self, time: u64) {
        self.now += time;
    }

    fn mint(&mut self, token: Address, to: Address, amount: i128) {
        *self.balances.entry((token, to)).or_insert(0) += amount;
    }

    fn balance(&self, token: Address, of: Address) -> i128 {
        *self.balances.get(&(token, of)).unwrap_or(&0)
    }

    fn pay(&mut self, token: Address, from: Address, to: Address, amount: i128) {
        assert!(amount >= 0, "negative amount is not allowed");
        let held = self.balance(token, from);
        assert!(held >= amount, "balance is not sufficient to spend");
        self.balances.insert((token, from), held - amount);
        *self.balances.entry((token, to)).or_insert(0) += amount;
    }

    /// Makes the transfers that the last operation asked for.
    fn settle(&mut self) {
        let vault = self.vault;
        for t in take_transfers(&mut self.contract) {
            match t.kind {
                TransferKind::Escrow => self.pay(t.token, t.party, vault, t.amount),
                TransferKind::Payout => self.pay(t.token, vault, t.party, t.amount),
            }
        }
        assert!(self.contract.is_well_formed());
    }

    fn initialize(&mut self, forward_rate: i128, duration: u64) -> i128 {
        let price = PriceData { price: self.oracle, timestamp: 0 };
        let (admin, token_a, token_b) = (self.token_admin, self.token_a, self.token_b);
        let spot = self
            .contract
            .initialize(admin, token_a, token_b, forward_rate, duration, self.now, price)
            .unwrap();
        self.settle();
        spot
    }

    fn init_pos(&mut self, from: Address, positions_a: u64, positions_b: u64, amount: i128) -> i128 {
        assert!(self.contract.init_pos_defined(&from, positions_a, positions_b, amount));
        let r = self.contract.init_pos(&from, positions_a, positions_b, amount).unwrap();
        self.settle();
        r
    }

    fn deposit(&mut self, from: Address, token: Address, amount: i128, collateral: i128) -> (i128, i128) {
        assert!(self.contract.deposit_defined(self.now, &from, &token, amount, collateral));
        let r = self.contract.deposit(self.now, &from, &token, amount, collateral).unwrap();
        self.settle();
        r
    }

    fn set_spot(&mut self, from: Address, rate: i128) {
        assert!(self.contract.is_initialized());
        self.contract.set_spot(&from, rate).unwrap();
        self.settle();
    }

    fn swap(&mut self, from: Address) -> i128 {
        assert!(self.contract.swap_defined(self.now, &from));
        let r = self.contract.swap(self.now, &from).unwrap();
        self.settle();
        r
    }

    fn repay(&mut self, from: Address, token: Address, amount: i128) -> (i128, i128) {
        assert!(self.contract.repay_defined(&from, &token, amount));
        let r = self.contract.repay(&from, &token, amount).unwrap();
        self.settle();
        r
    }

    fn withdraw(&mut self, from: Address) -> (i128, i128) {
        assert!(self.contract.withdraw_defined(self.now, &from));
        let r = self.contract.withdraw(self.now, &from).unwrap();
        self.settle();
        r
    }

    fn reclaim(&mut self, from: Address) -> i128 {
        assert!(self.contract.reclaim_defined(self.now, &from));
        let r = self.contract.reclaim(self.now, &from).unwrap();
        self.settle();
        r
    }

    fn reclaim_col(&mut self, from: Address) -> i128 {
        assert!(self.contract.reclaim_col_defined(self.now, &from, self.oracle));
        let r = self.contract.reclaim_col(self.now, &from, self.oracle).unwrap();
        self.settle();
        r
    }

    fn liquidate(&mut self, to: Address, from: Address) -> i128 {
        assert!(self.contract.liquidate_defined(&to, self.oracle));
        let r = self.contract.liquidate(self.now, &to, &from, self.oracle);
        self.settle();
        r
    }

    fn user_balance(&self, to: Address) -> User {
        assert!(self.contract.has_record(&to));
        self.contract.balance(&to)
    }

    fn stage(&self) -> Stage {
        self.contract.stage(self.now)
    }

    fn users(&self) -> (Vec<UserLiqData>, Vec<UserLiqData>) {
        assert!(self.contract.users_defined(self.oracle));
        self.contract.users(self.oracle)
    }
}

#[test]
fn test_init() {
    let forward_rate: i128 = 100;
    let mut t = SwapTest::setup();
    let spot_rate = t.initialize(forward_rate, 0);
    assert_eq!(spot_rate, SCALE);
}

#[test]
#[should_panic]
fn test_re_init() {
    let forward_rate: i128 = SCALE;
    let mut t = SwapTest::setup();
    t.initialize(forward_rate, TIME_TO_MATURE);
    t.initialize(forward_rate, TIME_TO_MATURE);
}

#[test]
fn test_init_pos() {
    let forward_rate: i128 = SCALE;
    let mut t = SwapTest::setup();
    t.initialize(forward_rate, TIME_TO_MATURE);
    let amount_position_b = t.init_pos(t.token_admin, 100, 50, 100);
    assert_eq!(amount_position_b, 200);
}

#[test]
fn test_init_pos_odd() {
    let forward_rate: i128 = SCALE;
    let mut t = SwapTest::setup();
    t.initialize(forward_rate, TIME_TO_MATURE);
    let amount_position_b = t.init_pos(t.token_admin, 10, 3, 100);
    assert_eq!(amount_position_b, 333);
}

#[test]
#[should_panic]
fn test_init_pos_unauthorized() {
    let forward_rate: i128 = SCALE;
    let mut t = SwapTest::setup();
    t.initialize(forward_rate, TIME_TO_MATURE);
    t.init_pos(t.user_a, 100, 50, 100);
}

#[test]
fn test_deposit() {
    let forward_rate: i128 = 100_000;
    let mut t = SwapTest::setup();
    t.initialize(forward_rate, TIME_TO_MATURE);
    t.init_pos(t.token_admin, 100, 50, 100);
    let (amount_a, collateral_a) = t.deposit(t.user_a, t.token_a, 100, 20);
    let (amount_b, collateral_b) = t.deposit(t.user_b, t.token_b, 200, 40);

    assert_eq!(amount_a, 100);
    assert_eq!(amount_b, 200);
    assert_eq!(collateral_a, 20);
    assert_eq!(collateral_b, 40);

    assert_eq!(t.balance(t.token_a, t.user_a), 880);
    assert_eq!(t.balance(t.token_b, t.user_b), 760);
}

#[test]
#[should_panic]
fn test_deposit_wrong_amount() {
    let forward_rate: i128 = SCALE;
    let mut t = SwapTest::setup();
    t.initialize(forward_rate, TIME_TO_MATURE);
    t.init_pos(t.token_admin, 100, 50, 100);
    t.deposit(t.user_a, t.token_a, 200, 200);
}

#[test]
#[should_panic]
fn test_deposit_all_positions_closed() {
    let forward_rate: i128 = SCALE;
    let mut t = SwapTest::setup();
    t.initialize(forward_rate, TIME_TO_MATURE);
    t.mint(t.token_a, t.user_b, 1000);
    t.init_pos(t.token_admin, 1, 1, 100);
    t.deposit(t.user_a, t.token_a, 100, 40);
    t.deposit(t.user_b, t.token_a, 100, 40);
}

#[test]
#[should_panic]
fn test_deposit_insuficient_collateral() {
    let forward_rate: i128 = SCALE;
    let mut t = SwapTest::setup();
    t.initialize(forward_rate, TIME_TO_MATURE);
    t.mint(t.token_a, t.user_b, 1000);
    t.init_pos(t.token_admin, 1, 1, 100);
    t.deposit(t.user_a, t.token_a, 100, 10);
}

#[test]
fn test_deposit_high_collateral() {
    let forward_rate: i128 = SCALE;
    let mut t = SwapTest::setup();
    t.initialize(forward_rate, TIME_TO_MATURE);
    t.mint(t.token_a, t.user_b, 1000);
    t.init_pos(t.token_admin, 1, 1, 100);
    t.deposit(t.user_a, t.token_a, 100, 100);
}

#[test]
#[should_panic]
fn test_mature_date_error_withdraw() {
    let forward_rate: i128 = SCALE;
    let mut t = SwapTest::setup();
    t.initialize(forward_rate, TIME_TO_MATURE);
    t.init_pos(t.token_admin, 100, 50, 100);
    t.deposit(t.user_a, t.token_a, 100, 20);
    t.deposit(t.user_b, t.token_b, 200, 40);
    t.withdraw(t.user_a);
}

#[test]
fn test_set_spot_rate() {
    let forward_rate: i128 = SCALE;
    let mut t = SwapTest::setup();
    t.initialize(forward_rate, TIME_TO_MATURE);
    t.set_spot(t.token_admin, forward_rate);
}

#[test]
#[should_panic]
fn test_set_spot_rate_unauthorized() {
    let forward_rate: i128 = SCALE;
    let mut t = SwapTest::setup();
    t.initialize(forward_rate, TIME_TO_MATURE);
    t.set_spot(t.user_a, forward_rate);
}

#[test]
#[should_panic]
fn test_deposit_amount_after_near_leg() {
    let forward_rate: i128 = SCALE;
    let mut t = SwapTest::setup();
    t.initialize(forward_rate, TIME_TO_MATURE);
    t.init_pos(t.token_admin, 100, 100, 100);
    t.add_time(TIME_TO_EXEC);
    t.deposit(t.user_a, t.token_a, 100, 100);
}

#[test]
fn test_deposit_collateral_after_near_leg() {
    let forward_rate: i128 = SCALE;
    let mut t = SwapTest::setup();
    t.initialize(forward_rate, TIME_TO_MATURE);
    t.init_pos(t.token_admin, 100, 50, 100);
    t.deposit(t.user_a, t.token_a, 100, 20);
    t.add_time(TIME_TO_EXEC);
    let (amount_a, collateral_a) = t.deposit(t.user_a, t.token_a, 0, 50);

    assert_eq!(amount_a, 100);
    assert_eq!(collateral_a, 70);
}

#[test]
fn test_swap() {
    let forward_rate: i128 = SCALE;
    let mut t = SwapTest::setup();
    t.initialize(forward_rate, TIME_TO_MATURE);
    t.init_pos(t.token_admin, 100, 50, 100);
    t.deposit(t.user_a, t.token_a, 100, 20);
    t.deposit(t.user_b, t.token_b, 200, 40);

    t.add_time(TIME_TO_EXEC);

    assert_eq!(t.balance(t.token_b, t.user_a), 0);
    let swapped_amount = t.swap(t.user_a);
    assert_eq!(swapped_amount, 100);
    assert_eq!(t.balance(t.token_b, t.user_a), 100);

    assert_eq!(t.balance(t.token_a, t.user_b), 0);
    let swapped_amount = t.swap(t.user_b);
    assert_eq!(swapped_amount, 100);
    assert_eq!(t.balance(t.token_a, t.user_b), 100);
}

#[test]
fn test_swap_with_order() {
    let forward_rate: i128 = SCALE;
    let mut t = SwapTest::setup();
    t.initialize(forward_rate, TIME_TO_MATURE);
    let user_c = t.generate();
    assert_ne!(t.user_a, user_c);

    t.mint(t.token_a, user_c, 1000);

    t.init_pos(t.token_admin, 100, 50, 100);
    t.deposit(t.user_a, t.token_a, 100, 20);
    t.deposit(user_c, t.token_a, 100, 20);
    t.deposit(t.user_b, t.token_b, 200, 40);

    t.add_time(TIME_TO_EXEC);

    assert_eq!(t.balance(t.token_b, t.user_a), 0);
    let swapped_amount = t.swap(t.user_a);
    assert_eq!(swapped_amount, 100);
    assert_eq!(t.balance(t.token_b, t.user_a), 100);

    assert_eq!(t.balance(t.token_a, t.user_b), 0);
    let swapped_amount = t.swap(t.user_b);
    assert_eq!(swapped_amount, 200);
    assert_eq!(t.balance(t.token_a, t.user_b), 200);

    let swapped_amount = t.swap(user_c);
    assert_eq!(swapped_amount, 100);
    assert_eq!(t.balance(t.token_b, user_c), 100);
}

#[test]
fn test_swap_with_order_not_enough() {
    let forward_rate: i128 = SCALE;
    let mut t = SwapTest::setup();
    t.initialize(forward_rate, TIME_TO_MATURE);
    let user_c = t.generate();
    t.mint(t.token_a, user_c, 1000);

    t.init_pos(t.token_admin, 100, 100, 100);
    t.deposit(t.user_a, t.token_a, 100, 20);
    t.deposit(user_c, t.token_a, 100, 20);
    t.deposit(t.user_b, t.token_b, 100, 20);

    t.add_time(TIME_TO_EXEC);

    assert_eq!(t.balance(t.token_b, t.user_a), 0);
    let swapped_amount = t.swap(t.user_a);
    assert_eq!(swapped_amount, 100);
    assert_eq!(t.balance(t.token_b, t.user_a), 100);

    assert_eq!(t.balance(t.token_a, t.user_b), 0);
    let swapped_amount = t.swap(t.user_b);
    assert_eq!(swapped_amount, 100);
    assert_eq!(t.balance(t.token_a, t.user_b), 100);

    let swapped_amount = t.swap(user_c);
    assert_eq!(swapped_amount, 0);
    assert_eq!(t.balance(t.token_b, user_c), 0);
}

#[test]
fn test_reclaim_used_position_and_swap() {
    let forward_rate: i128 = SCALE;
    let mut t = SwapTest::setup();
    t.initialize(forward_rate, TIME_TO_MATURE);
    t.init_pos(t.token_admin, 100, 50, 100);
    t.deposit(t.user_a, t.token_a, 100, 20);
    t.deposit(t.user_b, t.token_b, 200, 40);

    t.add_time(TIME_TO_EXEC);
    let reclaimed_a = t.reclaim(t.user_a);
    assert_eq!(reclaimed_a, 0);
    assert_eq!(t.balance(t.token_a, t.user_a), 880);

    let swapped_a = t.swap(t.user_a);
    let swapped_b = t.swap(t.user_b);

    assert_eq!(swapped_a, 100);
    assert_eq!(t.balance(t.token_b, t.user_a), 100);

    assert_eq!(swapped_b, 100);
    assert_eq!(t.balance(t.token_a, t.user_b), 100);
}

#[test]
fn test_reclaim_unused_position_and_swap() {
    let forward_rate: i128 = SCALE;
    let mut t = SwapTest::setup();
    t.initialize(forward_rate, TIME_TO_MATURE);
    t.init_pos(t.token_admin, 100, 50, 100);
    t.deposit(t.user_a, t.token_a, 100, 20);
    t.deposit(t.user_a, t.token_a, 100, 20);
    t.deposit(t.user_a, t.token_a, 100, 20);
    t.deposit(t.user_b, t.token_b, 200, 40);

    t.add_time(TIME_TO_EXEC);
    assert_eq!(t.balance(t.token_a, t.user_a), 640);
    let reclaimed_a = t.reclaim(t.user_a);
    assert_eq!(reclaimed_a, 100);
    assert_eq!(t.balance(t.token_a, t.user_a), 740);

    let swapped_a = t.swap(t.user_a);
    let swapped_b = t.swap(t.user_b);

    assert_eq!(swapped_a, 200);
    assert_eq!(t.balance(t.token_b, t.user_a), 200);

    assert_eq!(swapped_b, 200);
    assert_eq!(t.balance(t.token_a, t.user_b), 200);
}

#[test]
fn test_repay_a() {
    let forward_rate: i128 = SCALE;
    let mut t = SwapTest::setup();
    t.initialize(forward_rate, TIME_TO_MATURE);
    t.init_pos(t.token_admin, 100, 50, 100);
    // The pools are set up once: a second call is refused and changes nothing.
    let admin = t.token_admin;
    assert!(t.contract.init_pos_defined(&admin, 100, 50, 100));
    assert_eq!(
        t.contract.init_pos(&admin, 100, 50, 100),
        Err(Error::ContractAlreadyInitialized)
    );
    t.deposit(t.user_a, t.token_a, 100, 20);
    t.deposit(t.user_b, t.token_b, 200, 40);
    t.add_time(TIME_TO_EXEC);
    t.swap(t.user_a);

    assert_eq!(t.balance(t.token_b, t.user_a), 100);
    let (repaid, total_amount_to_repay) = t.repay(t.user_a, t.token_b, 100);
    assert_eq!(repaid, 100);
    assert_eq!(total_amount_to_repay, 100);
    assert_eq!(t.balance(t.token_b, t.user_a), 0);
}

#[test]
fn test_repay_b() {
    let forward_rate: i128 = SCALE;
    let mut t = SwapTest::setup();
    t.initialize(forward_rate, TIME_TO_MATURE);
    t.init_pos(t.token_admin, 100, 50, 100);
    t.deposit(t.user_a, t.token_a, 100, 20);
    t.deposit(t.user_b, t.token_b, 200, 40);
    t.add_time(TIME_TO_EXEC);
    t.swap(t.user_a);
    t.swap(t.user_b);

    assert_eq!(t.balance(t.token_a, t.user_b), 100);
    let (repaid, total_amount_to_repay) = t.repay(t.user_b, t.token_a, 100);
    assert_eq!(repaid, 100);
    assert_eq!(total_amount_to_repay, 100);
    assert_eq!(t.balance(t.token_a, t.user_b), 0);
}

#[test]
#[should_panic]
fn test_repay_error() {
    let forward_rate: i128 = SCALE;
    let mut t = SwapTest::setup();
    t.initialize(forward_rate, TIME_TO_MATURE);
    t.init_pos(t.token_admin, 100, 50, 100);
    t.deposit(t.user_a, t.token_a, 100, 20);
    t.deposit(t.user_b, t.token_b, 200, 40);
    t.add_time(TIME_TO_EXEC);
    t.swap(t.user_a);

    let (repaid, total_amount_to_repay) = t.repay(t.user_a, t.token_b, 100);
    assert_eq!(repaid, 100);
    assert_eq!(total_amount_to_repay, 100);
    t.repay(t.user_a, t.token_b, 1);
}

#[test]
fn test_repay_instances() {
    let forward_rate: i128 = SCALE;
    let mut t = SwapTest::setup();
    t.initialize(forward_rate, TIME_TO_MATURE);
    t.init_pos(t.token_admin, 100, 50, 100);
    t.deposit(t.user_a, t.token_a, 100, 20);
    t.deposit(t.user_b, t.token_b, 200, 40);
    t.add_time(TIME_TO_EXEC);
    t.swap(t.user_a);

    let (repaid, total_amount_to_repay) = t.repay(t.user_a, t.token_b, 50);
    assert_eq!(repaid, 50);
    assert_eq!(total_amount_to_repay, 100);
    let (repaid, total_amount_to_repay) = t.repay(t.user_a, t.token_b, 50);
    assert_eq!(repaid, 100);
    assert_eq!(total_amount_to_repay, 100);
}

#[test]
fn test_balance() {
    let forward_rate: i128 = SCALE;
    let mut t = SwapTest::setup();
    t.initialize(forward_rate, TIME_TO_MATURE);
    t.init_pos(t.token_admin, 100, 50, 100);
    t.deposit(t.user_a, t.token_a, 100, 20);
    t.deposit(t.user_b, t.token_b, 200, 40);
    t.add_time(TIME_TO_EXEC);
    t.swap(t.user_a);
    t.repay(t.user_a, t.token_b, 100);
    let balance = t.user_balance(t.user_a);
    assert_eq!(
        balance,
        User {
            deposited_token: t.token_a,
            deposited_amount: 100,
            swapped_amount: 100,
            returned_amount: 100,
            reclaimed_amount: 0,
            withdrawn_amount: 0,
            collateral: 20,
            withdrawn_collateral: 0,
            is_liquidated: false,
        }
    );
}

#[test]
fn test_withdraw_a() {
    let forward_rate: i128 = SCALE;
    let mut t = SwapTest::setup();
    t.initialize(forward_rate, TIME_TO_MATURE);
    t.init_pos(t.token_admin, 100, 50, 100);
    t.deposit(t.user_a, t.token_a, 100, 20);
    t.deposit(t.user_b, t.token_b, 200, 40);
    t.add_time(TIME_TO_EXEC);
    t.swap(t.user_a);
    t.swap(t.user_b);
    t.add_time(TIME_TO_MATURE);
    t.repay(t.user_a, t.token_b, 100);
    t.repay(t.user_b, t.token_a, 100);
    assert_eq!(t.balance(t.token_a, t.user_a), 880);
    assert_eq!(t.balance(t.token_b, t.user_a), 0);
    t.add_time(TIME_TO_REPAY);
    let withdrawn_amount = t.withdraw(t.user_a);
    assert_eq!(withdrawn_amount, (100, 0));
    assert_eq!(t.balance(t.token_a, t.user_a), 980);
}

#[test]
fn test_withdraw_b() {
    let forward_rate: i128 = SCALE;
    let mut t = SwapTest::setup();
    t.initialize(forward_rate, TIME_TO_MATURE);
    t.init_pos(t.token_admin, 100, 50, 100);
    t.deposit(t.user_a, t.token_a, 100, 20);
    t.deposit(t.user_b, t.token_b, 200, 40);
    t.add_time(TIME_TO_EXEC);
    t.swap(t.user_a);
    t.swap(t.user_b);
    t.add_time(TIME_TO_MATURE);
    t.repay(t.user_a, t.token_b, 100);
    t.repay(t.user_b, t.token_a, 100);
    assert_eq!(t.balance(t.token_b, t.user_b), 760);
    t.add_time(TIME_TO_REPAY);
    let withdrawn_amount = t.withdraw(t.user_b);
    assert_eq!(withdrawn_amount, (0, 100));
    assert_eq!(t.balance(t.token_b, t.user_b), 860);
}

#[test]
#[should_panic]
fn test_withdraw_liquidated() {
    let forward_rate: i128 = SCALE;
    let mut t = SwapTest::setup();
    t.initialize(forward_rate, TIME_TO_MATURE);
    t.init_pos(t.token_admin, 100, 50, 100);
    t.deposit(t.user_a, t.token_a, 100, 20);
    t.deposit(t.user_b, t.token_b, 200, 40);
    t.add_time(TIME_TO_EXEC);
    t.swap(t.user_a);
    t.swap(t.user_b);
    t.add_time(TIME_TO_MATURE);
    t.oracle = 80_000_000_000_000;
    t.liquidate(t.user_a, t.token_admin);
    t.add_time(TIME_TO_REPAY);
    t.withdraw(t.user_a);
}

#[test]
#[should_panic]
fn test_reclaim_at_deposit() {
    let forward_rate: i128 = SCALE;
    let mut t = SwapTest::setup();
    t.initialize(forward_rate, TIME_TO_MATURE);
    t.init_pos(t.token_admin, 100, 50, 100);
    t.deposit(t.user_a, t.token_a, 100, 20);
    t.deposit(t.user_b, t.token_b, 200, 40);
    t.reclaim(t.user_b);
}

#[test]
fn test_reclaim_at_swap() {
    let forward_rate: i128 = SCALE;
    let mut t = SwapTest::setup();
    t.initialize(forward_rate, TIME_TO_MATURE);
    t.init_pos(t.token_admin, 100, 50, 100);
    t.deposit(t.user_a, t.token_a, 100, 20);
    t.deposit(t.user_b, t.token_b, 200, 40);

    t.add_time(TIME_TO_EXEC);
    t.swap(t.user_b);
    t.swap(t.user_a);

    let reclaimed_deposit = t.reclaim(t.user_b);
    assert_eq!(reclaimed_deposit, 100);
    assert_eq!(t.balance(t.token_b, t.user_b), 860);

    let reclaimed_deposit = t.reclaim(t.user_a);
    assert_eq!(reclaimed_deposit, 0);
}

#[test]
fn test_reclaim_at_repay() {
    let forward_rate: i128 = SCALE;
    let mut t = SwapTest::setup();
    t.initialize(forward_rate, TIME_TO_MATURE);
    t.init_pos(t.token_admin, 100, 50, 100);
    t.deposit(t.user_a, t.token_a, 100, 20);
    t.deposit(t.user_b, t.token_b, 200, 40);

    t.add_time(TIME_TO_EXEC);
    let swap_amount = t.swap(t.user_b);
    t.swap(t.user_a);
    assert_eq!(swap_amount, 100);

    t.add_time(TIME_TO_MATURE);
    t.repay(t.user_b, t.token_a, 100);
    t.repay(t.user_a, t.token_b, 100);
    assert_eq!(t.balance(t.token_b, t.user_b), 760);

    let reclaimed_deposit = t.reclaim(t.user_b);
    assert_eq!(reclaimed_deposit, 100);
    assert_eq!(t.balance(t.token_b, t.user_b), 860);
}

#[test]
fn test_reclaim_at_withdraw() {
    let forward_rate: i128 = SCALE;
    let mut t = SwapTest::setup();
    t.initialize(forward_rate, TIME_TO_MATURE);
    t.init_pos(t.token_admin, 100, 50, 100);
    t.deposit(t.user_a, t.token_a, 100, 20);
    t.deposit(t.user_b, t.token_b, 200, 40);

    t.add_time(TIME_TO_EXEC);
    let swap_amount = t.swap(t.user_b);
    t.swap(t.user_a);
    assert_eq!(swap_amount, 100);

    t.add_time(TIME_TO_MATURE);
    t.repay(t.user_b, t.token_a, 100);
    t.repay(t.user_a, t.token_b, 100);
    assert_eq!(t.balance(t.token_b, t.user_b), 760);

    t.add_time(TIME_TO_REPAY);
    t.withdraw(t.user_b);
    assert_eq!(t.balance(t.token_b, t.user_b), 860);
    let reclaimed_deposit = t.reclaim(t.user_b);
    assert_eq!(reclaimed_deposit, 100);
    assert_eq!(t.balance(t.token_b, t.user_b), 960);
}

#[test]
fn test_full_reclaim() {
    let forward_rate: i128 = SCALE;
    let mut t = SwapTest::setup();
    t.initialize(forward_rate, TIME_TO_MATURE);
    let user_c = t.generate();
    assert_ne!(t.user_a, user_c);
    t.mint(t.token_b, user_c, 120);

    t.init_pos(t.token_admin, 10, 10, 100);
    t.deposit(t.user_a, t.token_a, 100, 20);
    t.deposit(t.user_b, t.token_b, 100, 20);
    t.deposit(user_c, t.token_b, 100, 20);

    t.add_time(TIME_TO_EXEC);
    t.swap(t.user_a);
    let swap_amount = t.swap(t.user_b);
    assert_eq!(swap_amount, 100);

    assert_eq!(t.balance(t.token_b, user_c), 0);
    let reclaimed_deposit = t.reclaim(user_c);
    assert_eq!(reclaimed_deposit, 100);
    assert_eq!(t.balance(t.token_b, user_c), 100);

    t.add_time(TIME_TO_MATURE);
    t.repay(t.user_b, t.token_a, 100);
    t.repay(t.user_a, t.token_b, 100);
    assert_eq!(t.balance(t.token_b, t.user_b), 880);

    t.add_time(TIME_TO_REPAY);
    let withdrawn_amount = t.withdraw(t.user_b);
    assert_eq!(withdrawn_amount, (0, 100));

    assert_eq!(t.balance(t.token_b, t.user_b), 980);
    let reclaimed_deposit = t.reclaim(t.user_b);
    assert_eq!(reclaimed_deposit, 0);
    assert_eq!(t.balance(t.token_b, t.user_b), 980);

    assert_eq!(t.withdraw(user_c), (0, 0));
    assert_eq!(t.balance(t.token_b, user_c), 100);
}

#[test]
fn test_multiple_reclaim() {
    let forward_rate: i128 = SCALE;
    let mut t = SwapTest::setup();
    t.initialize(forward_rate, TIME_TO_MATURE);
    t.init_pos(t.token_admin, 100, 50, 100);
    t.deposit(t.user_a, t.token_a, 100, 20);
    t.deposit(t.user_b, t.token_b, 200, 40);
    t.add_time(TIME_TO_EXEC);
    let swap_amount = t.swap(t.user_b);
    t.swap(t.user_a);
    assert_eq!(swap_amount, 100);

    assert_eq!(t.balance(t.token_b, t.user_b), 760);
    let reclaimed_deposit = t.reclaim(t.user_b);
    assert_eq!(reclaimed_deposit, 100);
    assert_eq!(t.balance(t.token_b, t.user_b), 860);

    t.add_time(TIME_TO_MATURE);
    t.repay(t.user_b, t.token_a, 100);
    t.repay(t.user_a, t.token_b, 100);

    t.add_time(TIME_TO_REPAY);
    assert_eq!(t.balance(t.token_b, t.user_b), 860);
    t.withdraw(t.user_b);
    assert_eq!(t.balance(t.token_b, t.user_b), 960);

    let reclaimed_deposit = t.reclaim(t.user_b);
    assert_eq!(reclaimed_deposit, 0);
    assert_eq!(t.balance(t.token_b, t.user_b), 960);

    let reclaimed_collateral = t.reclaim_col(t.user_b);
    assert_eq!(reclaimed_collateral, 40);
    assert_eq!(t.balance(t.token_b, t.user_b), 1000);

    let reclaimed_deposit = t.reclaim(t.user_a);
    assert_eq!(reclaimed_deposit, 0);
    assert_eq!(t.balance(t.token_a, t.user_a), 880);
}

#[test]
#[should_panic]
fn test_reclaim_for_non_participant() {
    let forward_rate: i128 = SCALE;
    let mut t = SwapTest::setup();
    t.initialize(forward_rate, TIME_TO_MATURE);
    let user_c = t.generate();
    assert_eq!(t.balance(t.token_a, user_c), 0);
    assert_eq!(t.balance(t.token_b, user_c), 0);

    t.init_pos(t.token_admin, 100, 50, 100);
    t.deposit(t.user_a, t.token_a, 100, 20);
    t.deposit(t.user_b, t.token_b, 200, 40);
    t.add_time(TIME_TO_EXEC);
    t.swap(t.user_a);
    t.swap(t.user_b);
    t.add_time(TIME_TO_MATURE);
    t.repay(t.user_a, t.token_b, 100);
    t.repay(t.user_b, t.token_a, 100);
    t.add_time(TIME_TO_REPAY);

    t.reclaim(user_c);
}

#[test]
fn test_reclaim_collateral() {
    let forward_rate: i128 = SCALE;
    let mut t = SwapTest::setup();
    t.initialize(forward_rate, TIME_TO_MATURE);
    t.init_pos(t.token_admin, 100, 50, 100);
    t.deposit(t.user_a, t.token_a, 100, 20);
    t.deposit(t.user_b, t.token_b, 200, 40);
    t.add_time(TIME_TO_EXEC);
    t.swap(t.user_a);
    t.swap(t.user_b);
    t.add_time(TIME_TO_MATURE);
    t.repay(t.user_a, t.token_b, 100);
    t.repay(t.user_b, t.token_a, 100);
    t.add_time(TIME_TO_REPAY);
    t.withdraw(t.user_a);
    assert_eq!(t.balance(t.token_a, t.user_a), 980);

    let reclaimed_collateral = t.reclaim_col(t.user_a);
    assert_eq!(reclaimed_collateral, 20);
    assert_eq!(t.balance(t.token_a, t.user_a), 1000);
}

#[test]
fn test_liquidated_reclaim_col() {
    let forward_rate: i128 = SCALE;
    let mut t = SwapTest::setup();
    t.initialize(forward_rate, TIME_TO_MATURE);
    t.init_pos(t.token_admin, 100, 50, 100);
    t.deposit(t.user_a, t.token_a, 100, 200);
    t.deposit(t.user_b, t.token_b, 200, 400);
    t.add_time(TIME_TO_EXEC);
    t.swap(t.user_a);
    t.swap(t.user_b);
    t.add_time(TIME_TO_MATURE);
    t.add_time(TIME_TO_REPAY);
    let reward_amount = t.liquidate(t.user_a, t.token_admin);
    assert_eq!(reward_amount, 2);
    t.oracle = 50_000_000_000_000;
    assert!(t.contract.reclaim_col_defined(t.now, &t.user_a, t.oracle));
    let reclaimed_collateral = t.contract.reclaim_col(t.now, &t.user_a, t.oracle);
    assert_eq!(reclaimed_collateral, Ok(200));
    assert!(t.contract.is_well_formed());
    assert_eq!(t.user_balance(t.user_a).withdrawn_collateral, 200);
    assert_eq!(
        take_transfers(&mut t.contract),
        vec![Transfer {
            kind: TransferKind::Payout,
            token: t.token_a,
            party: t.user_a,
            amount: 200
        }]
    );
    // Custody holds 198 of asset A after the reward of 2: the payout of 200
    // that is asked for cannot be made, and a caller whose transfer fails
    // keeps the contract as it was before the call.
    assert_eq!(t.balance(t.token_a, t.vault), 198);
    assert!(t.balance(t.token_a, t.vault) < 200);
}

#[test]
fn test_liquidate_swap() {
    let forward_rate: i128 = SCALE;
    let mut t = SwapTest::setup();
    t.initialize(forward_rate, TIME_TO_MATURE);
    t.init_pos(t.token_admin, 100, 100, 800);
    t.deposit(t.user_a, t.token_a, 800, 200);
    t.deposit(t.user_b, t.token_b, 800, 200);
    t.add_time(TIME_TO_EXEC);
    t.swap(t.user_a);
    t.swap(t.user_b);
    assert_eq!(t.balance(t.token_a, t.user_b), 800);
    t.oracle = 70_000_000_000_000;
    let reward_amount = t.liquidate(t.user_a, t.token_admin);
    assert_eq!(reward_amount, 2);
    assert_eq!(t.balance(t.token_a, t.token_admin), 2);
}

#[test]
fn test_liquidate_reclaimed_collateral() {
    let forward_rate: i128 = SCALE;
    let mut t = SwapTest::setup();
    t.initialize(forward_rate, TIME_TO_MATURE);
    t.init_pos(t.token_admin, 100, 100, 800);
    t.deposit(t.user_a, t.token_a, 800, 200);
    t.deposit(t.user_b, t.token_b, 800, 200);
    t.add_time(TIME_TO_EXEC);
    t.swap(t.user_a);
    t.swap(t.user_b);
    t.oracle = 70_000_000_000_000;
    t.reclaim_col(t.user_a);
    let reward_amount = t.liquidate(t.user_a, t.token_admin);
    assert_eq!(reward_amount, 2);
    assert_eq!(t.balance(t.token_a, t.token_admin), 2);
}

#[test]
fn test_no_liquidate_swap() {
    let forward_rate: i128 = SCALE;
    let mut t = SwapTest::setup();
    t.initialize(forward_rate, TIME_TO_MATURE);
    t.mint(t.token_a, t.user_a, 100);
    t.init_pos(t.token_admin, 100, 100, 800);
    t.deposit(t.user_a, t.token_a, 800, 200);
    t.deposit(t.user_b, t.token_b, 800, 200);
    t.add_time(TIME_TO_EXEC);
    t.swap(t.user_a);
    t.swap(t.user_b);
    assert_eq!(t.balance(t.token_a, t.user_b), 800);
    let reward_amount = t.liquidate(t.user_a, t.token_admin);
    assert_eq!(reward_amount, 0);
    assert_eq!(t.balance(t.token_a, t.token_admin), 0);
}

#[test]
fn test_liquidate_repay() {
    let forward_rate: i128 = SCALE;
    let mut t = SwapTest::setup();
    t.initialize(forward_rate, TIME_TO_MATURE);
    t.init_pos(t.token_admin, 10, 10, 800);
    t.deposit(t.user_a, t.token_a, 800, 200);
    t.deposit(t.user_b, t.token_b, 800, 200);
    t.add_time(TIME_TO_EXEC);
    t.swap(t.user_a);
    t.swap(t.user_b);
    t.add_time(TIME_TO_MATURE);
    t.repay(t.user_a, t.token_b, 800);
    t.add_time(TIME_TO_REPAY);
    assert_eq!(t.balance(t.token_a, t.user_b), 800);
    t.oracle = 120_000_000_000_000;
    let reward_amount = t.liquidate(t.user_b, t.token_admin);
    assert_eq!(reward_amount, 2);
    assert_eq!(t.balance(t.token_b, t.token_admin), 2);
}

#[test]
fn test_liquidate_liquidated_user() {
    let forward_rate: i128 = SCALE;
    let mut t = SwapTest::setup();
    t.initialize(forward_rate, TIME_TO_MATURE);
    t.init_pos(t.token_admin, 100, 100, 800);
    t.deposit(t.user_a, t.token_a, 800, 200);
    t.deposit(t.user_b, t.token_b, 800, 200);
    t.add_time(TIME_TO_EXEC);
    t.swap(t.user_a);
    t.swap(t.user_b);
    assert_eq!(t.balance(t.token_a, t.user_b), 800);
    t.oracle = 70_000_000_000_000;
    let reward_amount = t.liquidate(t.user_a, t.token_admin);
    assert_eq!(reward_amount, 2);
    assert_eq!(t.balance(t.token_a, t.token_admin), 2);

    let reward_amount = t.liquidate(t.user_a, t.token_admin);
    assert_eq!(reward_amount, 0);
    assert_eq!(t.balance(t.token_a, t.token_admin), 2);
}

#[test]
fn test_forward_bigger_than_spot() {
    let mut t = SwapTest::setup();
    let spot_rate: i128 = 52_356_020_942_408;
    let forward_rate: i128 = 52_631_578_947_368;
    let decimals = 100_000_000;

    t.mint(t.token_a, t.user_a, 12_000 * decimals);
    t.mint(t.token_b, t.user_b, 10_000 * decimals);
    t.oracle = spot_rate;

    t.initialize(forward_rate, TIME_TO_MATURE);
    let amount_to_deposit_b = t.init_pos(t.token_admin, 100, 100, 10_000 * decimals);
    let amount_col_b = amount_to_deposit_b * COLLATERAL_BUFFER / 100;
    assert_eq!(amount_to_deposit_b, 523_560_209_424);

    t.deposit(t.user_a, t.token_a, 10_000 * decimals, 2_000 * decimals);
    t.deposit(t.user_b, t.token_b, amount_to_deposit_b, amount_col_b);

    t.add_time(TIME_TO_EXEC);

    let swapped_amount_a = t.swap(t.user_a);
    let swapped_amount_b = t.swap(t.user_b);
    assert_eq!(swapped_amount_a, 523_560_209_424);
    assert_eq!(swapped_amount_b, 999_999_999_999);

    assert_eq!(t.balance(t.token_b, t.user_a), 523_560_209_424);
    assert_eq!(t.balance(t.token_a, t.user_b), 999_999_999_999);

    t.add_time(TIME_TO_MATURE);

    t.mint(t.token_b, t.user_a, 27_55_580_049);
    let repay_a = t.repay(t.user_a, t.token_b, 526_315_789_473);
    let repay_b = t.repay(t.user_b, t.token_a, 999_999_999_999);
    assert_eq!(repay_a, (526_315_789_473, 526_315_789_473));
    assert_eq!(repay_b, (999_999_999_999, 999_999_999_999));

    t.add_time(TIME_TO_REPAY);

    let withdrawn_amount_a = t.withdraw(t.user_a);
    let withdrawn_amount_b = t.withdraw(t.user_b);
    assert_eq!(withdrawn_amount_a, (999_999_999_998, 0));
    assert_eq!(withdrawn_amount_b, (0, 526_315_789_473));
    assert_eq!(t.balance(t.token_a, t.user_a), 1_000_000_000_998);
    assert_eq!(t.balance(t.token_b, t.user_b), 898_043_539_165);

    let reclaim_col_b = t.reclaim_col(t.user_b);
    assert_eq!(reclaim_col_b, amount_col_b);
    assert_eq!(t.balance(t.token_b, t.user_b), 1_002_755_581_049);
}

#[test]
fn test_forward_smaller_than_spot() {
    let mut t = SwapTest::setup();
    let spot_rate: i128 = 52_631_578_947_368;
    let forward_rate: i128 = 52_356_020_942_408;
    let decimals = 100_000_000;

    t.mint(t.token_a, t.user_a, 12_000 * decimals);
    t.mint(t.token_b, t.user_b, 10_000 * decimals);

    t.oracle = spot_rate;
    t.initialize(forward_rate, TIME_TO_MATURE);
    let amount_deposit_b = t.init_pos(t.token_admin, 100, 100, 10_000 * decimals);
    assert_eq!(amount_deposit_b, 526_315_789_473);
    let token_b_collateral = 526_315_789_473 * COLLATERAL_BUFFER / 100;

    t.deposit(t.user_a, t.token_a, 10_000 * decimals, 2_000 * decimals);
    t.deposit(t.user_b, t.token_b, 526_315_789_473, token_b_collateral);
    t.add_time(TIME_TO_EXEC);

    let swapped_amount_a = t.swap(t.user_a);
    let swapped_amount_b = t.swap(t.user_b);
    assert_eq!(swapped_amount_a, 526_315_789_473);
    assert_eq!(swapped_amount_b, 999_999_999_998);

    assert_eq!(t.balance(t.token_b, t.user_a), 526_315_789_473);
    assert_eq!(t.balance(t.token_a, t.user_b), 999_999_999_998);

    t.add_time(TIME_TO_MATURE);

    let repay_a = t.repay(t.user_a, t.token_b, 523_560_209_423);
    let repay_b = t.repay(t.user_b, t.token_a, 999_999_999_998);

    assert_eq!(repay_a, (523_560_209_423, 523_560_209_423));
    assert_eq!(repay_b, (999_999_999_998, 999_999_999_998));

    t.add_time(TIME_TO_REPAY);

    let withdrawn_amount_a = t.withdraw(t.user_a);
    let withdrawn_amount_b = t.withdraw(t.user_b);
    assert_eq!(withdrawn_amount_a, (999_999_999_997, 0));
    assert_eq!(withdrawn_amount_b, (0, 523_560_209_423));
    assert_eq!(t.balance(t.token_a, t.user_a), 1_000_000_000_997);
    assert_eq!(t.balance(t.token_b, t.user_b), 891_981_263_056);

    let reclaim_amount_a = t.reclaim(t.user_a);
    assert_eq!(reclaim_amount_a, 0);

    let reclaim_amount_b = t.reclaim(t.user_b);
    assert_eq!(reclaim_amount_b, 0);

    let reclaim_col_amount_b = t.reclaim_col(t.user_b);
    assert_eq!(reclaim_col_amount_b, token_b_collateral);
}

#[test]
fn test_liquidate_devaluation() {
    let mut t = SwapTest::setup();
    let spot_rate: i128 = 190_000_000_000_000;
    let forward_rate: i128 = 191_000_000_000_000;
    let decimals = 100_000_000;

    t.mint(t.token_a, t.user_a, 20_000 * decimals);
    t.mint(t.token_b, t.user_b, 26_000 * decimals);

    t.oracle = spot_rate;
    t.initialize(forward_rate, TIME_TO_REPAY);
    let deposit_amount_b = t.init_pos(t.token_admin, 100, 100, 10_000 * decimals);
    assert_eq!(deposit_amount_b, 1_900_000_000_000);
    t.deposit(t.user_a, t.token_a, 10_000 * decimals, 2_200 * decimals);
    t.deposit(t.user_b, t.token_b, 19_000 * decimals, 4_000 * decimals);
    t.add_time(TIME_TO_EXEC);

    let swapped_amount_a = t.swap(t.user_a);
    let swapped_amount_b = t.swap(t.user_b);
    assert_eq!(swapped_amount_a, 1_900_000_000_000);
    assert_eq!(swapped_amount_b, 1_000_000_000_000);

    let reward_amount_a = t.liquidate(t.user_a, t.token_admin);
    assert_eq!(reward_amount_a, 0);
    let reward_amount_b = t.liquidate(t.user_b, t.token_admin);
    assert_eq!(reward_amount_b, 0);

    t.oracle = 380_000_000_000_000;

    let reward_amount_a = t.liquidate(t.user_a, t.token_admin);
    assert_eq!(reward_amount_a, 0);
    let reward_amount_b = t.liquidate(t.user_b, t.token_admin);
    assert_eq!(reward_amount_b, 4_000_000_000);
}

#[test]
fn test_one_to_many_position() {
    let mut t = SwapTest::setup();
    let forward_rate: i128 = SCALE;
    let decimals = 100_000_000;

    t.mint(t.token_a, t.user_a, 12_000 * decimals);
    t.mint(t.token_b, t.user_b, 10_000 * decimals);

    t.initialize(forward_rate, TIME_TO_MATURE);
    let token_b_collateral = 333_333_333_333 * COLLATERAL_BUFFER / 100;
    t.init_pos(t.token_admin, 1, 3, 10_000 * decimals);
    t.deposit(t.user_a, t.token_a, 10_000 * decimals, 2_000 * decimals);
    t.deposit(t.user_b, t.token_b, 333_333_333_333, token_b_collateral);

    let user_c = t.generate();
    let user_d = t.generate();
    t.mint(t.token_b, user_c, 333_333_333_333 + token_b_collateral);
    t.mint(t.token_b, user_d, 333_333_333_333 + token_b_collateral);

    t.deposit(user_c, t.token_b, 333_333_333_333, token_b_collateral);
    t.deposit(user_d, t.token_b, 333_333_333_333, token_b_collateral);

    t.add_time(TIME_TO_EXEC);

    let swapped_amount_a = t.swap(t.user_a);
    let swapped_amount_b = t.swap(t.user_b);
    let swapped_amount_c = t.swap(user_c);
    let swapped_amount_d = t.swap(user_d);
    assert_eq!(swapped_amount_a, 999_999_999_999);
    assert_eq!(swapped_amount_b, 333_333_333_333);
    assert_eq!(swapped_amount_c, 333_333_333_333);
    assert_eq!(swapped_amount_d, 333_333_333_333);

    assert_eq!(t.balance(t.token_b, t.user_a), 999_999_999_999);
    assert_eq!(t.balance(t.token_a, t.user_b), 333_333_333_333);
    assert_eq!(t.balance(t.token_a, user_c), 333_333_333_333);
    assert_eq!(t.balance(t.token_a, user_d), 333_333_333_333);

    t.add_time(TIME_TO_MATURE);

    let repay_a = t.repay(t.user_a, t.token_b, 999_999_999_999);
    let repay_b = t.repay(t.user_b, t.token_a, 333_333_333_333);
    let repay_c = t.repay(user_c, t.token_a, 333_333_333_333);
    let repay_d = t.repay(user_d, t.token_a, 333_333_333_333);

    assert_eq!(repay_a, (999_999_999_999, 999_999_999_999));
    assert_eq!(repay_b, (333_333_333_333, 333_333_333_333));
    assert_eq!(repay_c, (333_333_333_333, 333_333_333_333));
    assert_eq!(repay_d, (333_333_333_333, 333_333_333_333));

    t.add_time(TIME_TO_REPAY);

    let withdrawn_amount_a = t.withdraw(t.user_a);
    let withdrawn_amount_b = t.withdraw(t.user_b);
    let withdrawn_amount_c = t.withdraw(user_c);
    let withdrawn_amount_d = t.withdraw(user_d);
    assert_eq!(withdrawn_amount_a, (999_999_999_999, 0));
    assert_eq!(withdrawn_amount_b, (0, 333_333_333_333));
    assert_eq!(withdrawn_amount_c, (0, 333_333_333_333));
    assert_eq!(withdrawn_amount_d, (0, 333_333_333_333));
}

#[test]
fn test_stage() {
    let forward_rate: i128 = SCALE;
    let mut t = SwapTest::setup();
    t.initialize(forward_rate, TIME_TO_MATURE);
    let stage = t.stage();
    assert_eq!(stage, Stage::Deposit);
    t.add_time(TIME_TO_EXEC);
    let stage = t.stage();
    assert_eq!(stage, Stage::Swap);
    t.add_time(TIME_TO_MATURE);
    let stage = t.stage();
    assert_eq!(stage, Stage::Repay);
    t.add_time(TIME_TO_REPAY);
    let stage = t.stage();
    assert_eq!(stage, Stage::Withdraw);
}

#[test]
fn test_users() {
    let forward_rate: i128 = SCALE;
    let mut t = SwapTest::setup();
    t.initialize(forward_rate, TIME_TO_MATURE);
    let user_a = t.user_a;
    let user_b = t.user_b;
    let user_c = t.generate();
    let user_d = t.generate();
    let user_e = t.generate();
    t.mint(t.token_a, user_c, 1_000);
    t.mint(t.token_a, user_d, 1_000);
    t.mint(t.token_b, user_e, 1_000);

    t.init_pos(t.token_admin, 100, 50, 100);

    t.deposit(user_a, t.token_a, 100, 20);
    t.deposit(user_c, t.token_a, 100, 20);
    t.deposit(user_d, t.token_a, 100, 20);
    t.deposit(user_b, t.token_b, 200, 40);
    t.deposit(user_e, t.token_b, 200, 40);

    t.add_time(TIME_TO_EXEC);
    assert_eq!(t.swap(user_a), 100);
    assert_eq!(t.swap(user_c), 100);
    assert_eq!(t.swap(user_d), 100);
    assert_eq!(t.swap(user_b), 200);
    assert_eq!(t.swap(user_e), 100);

    let (users_a, users_b) = t.users();
    assert_eq!(
        users_a,
        vec![
            UserLiqData { address: user_a, collateral: 20, min_collateral: 20, is_liquidated: false },
            UserLiqData { address: user_c, collateral: 20, min_collateral: 20, is_liquidated: false },
            UserLiqData { address: user_d, collateral: 20, min_collateral: 20, is_liquidated: false },
        ]
    );

    assert_eq!(
        users_b,
        vec![
            UserLiqData { address: user_b, collateral: 40, min_collateral: 40, is_liquidated: false },
            UserLiqData { address: user_e, collateral: 40, min_collateral: 20, is_liquidated: false },
        ]
    );

    t.oracle = 90_000_000_000_000;
    let (users_a, users_b) = t.users();
    assert_eq!(
        users_a,
        vec![
            UserLiqData { address: user_a, collateral: 20, min_collateral: 20, is_liquidated: false },
            UserLiqData { address: user_c, collateral: 20, min_collateral: 20, is_liquidated: false },
            UserLiqData { address: user_d, collateral: 20, min_collateral: 20, is_liquidated: false },
        ]
    );

    assert_eq!(
        users_b,
        vec![
            UserLiqData { address: user_b, collateral: 40, min_collateral: 40, is_liquidated: false },
            UserLiqData { address: user_e, collateral: 40, min_collateral: 20, is_liquidated: false },
        ]
    );

    t.oracle = 200_000_000_000_000;
    let (users_a, users_b) = t.users();
    assert_eq!(
        users_a,
        vec![
            UserLiqData { address: user_a, collateral: 20, min_collateral: 20, is_liquidated: false },
            UserLiqData { address: user_c, collateral: 20, min_collateral: 20, is_liquidated: false },
            UserLiqData { address: user_d, collateral: 20, min_collateral: 20, is_liquidated: false },
        ]
    );

    assert_eq!(
        users_b,
        vec![
            UserLiqData { address: user_b, collateral: 40, min_collateral: 250, is_liquidated: false },
            UserLiqData { address: user_e, collateral: 40, min_collateral: 125, is_liquidated: false },
        ]
    );
}

#[test]
fn test_e2e_round_values() {
    let mut t = SwapTest::setup();
    let spot_rate: i128 = 90_000_000_000_000;
    let forward_rate: i128 = 91_000_000_000_000;

    t.mint(t.token_a, t.user_a, 11_999_000);
    t.mint(t.token_b, t.user_b, 10_799_000);
    t.oracle = spot_rate;
    t.initialize(forward_rate, TIME_TO_MATURE);
    t.init_pos(t.token_admin, 2, 2, 10_000_000);
    t.deposit(t.user_a, t.token_a, 10_000_000, 2_000_000);
    t.deposit(t.user_b, t.token_b, 9_000_000, 1_800_000);
    t.add_time(TIME_TO_EXEC);

    let swapped_amount_a = t.swap(t.user_a);
    let swapped_amount_b = t.swap(t.user_b);
    assert_eq!(swapped_amount_a, 9_000_000);
    assert_eq!(swapped_amount_b, 10_000_000);

    t.add_time(TIME_TO_MATURE);

    t.mint(t.token_b, t.user_a, 100_000);
    let repay_a = t.repay(t.user_a, t.token_b, 9_100_000);
    let repay_b = t.repay(t.user_b, t.token_a, 10_000_000);

    assert_eq!(repay_a, (9_100_000, 9_100_000));
    assert_eq!(repay_b, (10_000_000, 10_000_000));

    t.add_time(TIME_TO_REPAY);

    let withdrawn_amount_a = t.withdraw(t.user_a);
    let withdrawn_amount_b = t.withdraw(t.user_b);
    assert_eq!(withdrawn_amount_a, (10_000_000, 0));
    assert_eq!(withdrawn_amount_b, (0, 9_100_000));
    assert_eq!(t.balance(t.token_a, t.user_a), 10_000_000);
    assert_eq!(t.balance(t.token_b, t.user_b), 9_100_000);

    let reclaim_amount_a = t.reclaim(t.user_a);
    let reclaim_amount_b = t.reclaim(t.user_b);
    assert_eq!(reclaim_amount_a, 0);
    assert_eq!(reclaim_amount_b, 0);
    assert_eq!(t.balance(t.token_a, t.user_a), 10_000_000);
    assert_eq!(t.balance(t.token_b, t.user_b), 9_100_000);

    let reclaim_col_a = t.reclaim_col(t.user_a);
    let reclaim_col_b = t.reclaim_col(t.user_b);
    assert_eq!(reclaim_col_a, 2_000_000);
    assert_eq!(reclaim_col_b, 1_800_000);

    assert_eq!(t.balance(t.token_a, t.user_a), 12_000_000);
    assert_eq!(t.balance(t.token_b, t.user_b), 10_900_000);
}

#[test]
fn test_e2e() {
    let mut t = SwapTest::setup();
    let spot_rate: i128 = 91_863_245_477_859;
    let forward_rate: i128 = 91_942_156_764_123;
    let user_c = t.generate();

    t.mint(t.token_a, t.user_a, 11_999_000);
    t.mint(t.token_b, t.user_b, 11_022_589);
    t.mint(t.token_a, user_c, 12_000_000);

    t.oracle = spot_rate;
    t.initialize(forward_rate, TIME_TO_MATURE);
    t.init_pos(t.token_admin, 2, 2, 10_000_000);
    t.deposit(t.user_a, t.token_a, 10_000_000, 2_000_000);
    t.deposit(t.user_b, t.token_b, 9_186_324, 1_837_265);
    t.deposit(user_c, t.token_a, 10_000_000, 2_000_000);
    t.add_time(TIME_TO_EXEC);

    let swapped_amount_c = t.swap(user_c);
    let swapped_amount_a = t.swap(t.user_a);
    let swapped_amount_b = t.swap(t.user_b);
    assert_eq!(swapped_amount_c, 0);
    assert_eq!(swapped_amount_a, 9_186_324);
    assert_eq!(swapped_amount_b, 9_999_999);

    let reclaim_amount_c = t.reclaim(user_c);
    assert_eq!(reclaim_amount_c, 10_000_000);

    let reclaim_col_c = t.reclaim_col(user_c);
    assert_eq!(reclaim_col_c, 2_000_000);

    t.add_time(TIME_TO_MATURE);

    t.mint(t.token_b, t.user_a, 7_892);
    let repay_a = t.repay(t.user_a, t.token_b, 9_194_214);
    let repay_b = t.repay(t.user_b, t.token_a, 9_999_999);

    assert_eq!(repay_a, (9_194_214, 9_194_214));
    assert_eq!(repay_b, (9_999_999, 9_999_999));

    t.add_time(TIME_TO_REPAY);

    let withdrawn_amount_a = t.withdraw(t.user_a);
    let withdrawn_amount_b = t.withdraw(t.user_b);
    assert_eq!(withdrawn_amount_a, (9_999_998, 0));
    assert_eq!(withdrawn_amount_b, (0, 9_194_214));
    assert_eq!(t.balance(t.token_a, t.user_a), 9_999_998);
    assert_eq!(t.balance(t.token_b, t.user_b), 9_194_214);

    let reclaim_amount_a = t.reclaim(t.user_a);
    let reclaim_amount_b = t.reclaim(t.user_b);
    assert_eq!(reclaim_amount_a, 0);
    assert_eq!(reclaim_amount_b, 0);
    assert_eq!(t.balance(t.token_a, t.user_a), 9_999_998);
    assert_eq!(t.balance(t.token_b, t.user_b), 9_194_214);

    let reclaim_col_a = t.reclaim_col(t.user_a);
    let reclaim_col_b = t.reclaim_col(t.user_b);
    assert_eq!(reclaim_col_a, 2_000_000);
    assert_eq!(reclaim_col_b, 1_837_265);

    assert_eq!(t.balance(t.token_a, t.user_a), 11_999_998);
    assert_eq!(t.balance(t.token_b, t.user_b), 11_031_479);
}

#[test]
fn test_e2e_multiple_deposits() {
    let mut t = SwapTest::setup();
    let spot_rate: i128 = 91_863_245_477_859;
    let forward_rate: i128 = 91_942_156_764_123;

    t.mint(t.token_a, t.user_a, 11_999_000 + 12_000_000);
    t.mint(t.token_b, t.user_b, 11_022_589 + 11023589);

    t.oracle = spot_rate;
    t.initialize(forward_rate, TIME_TO_MATURE);
    t.init_pos(t.token_admin, 2, 2, 10_000_000);
    t.deposit(t.user_a, t.token_a, 10_000_000, 2_000_000);
    t.deposit(t.user_a, t.token_a, 10_000_000, 2_000_000);
    t.deposit(t.user_b, t.token_b, 9_186_324, 1_837_265);
    t.deposit(t.user_b, t.token_b, 9_186_324, 1_837_265);
    t.add_time(TIME_TO_EXEC);

    let swapped_amount_a = t.swap(t.user_a);
    let swapped_amount_b = t.swap(t.user_b);
    assert_eq!(swapped_amount_a, 18_372_648);
    assert_eq!(swapped_amount_b, 19_999_998);

    t.add_time(TIME_TO_MATURE);

    t.mint(t.token_b, t.user_a, 15784);
    let repay_a = t.repay(t.user_a, t.token_b, 18_388_429);
    let repay_b = t.repay(t.user_b, t.token_a, 19_999_998);

    assert_eq!(repay_a, (18_388_429, 18_388_429));
    assert_eq!(repay_b, (19_999_998, 19_999_998));

    t.add_time(TIME_TO_REPAY);

    let withdrawn_amount_a = t.withdraw(t.user_a);
    let withdrawn_amount_b = t.withdraw(t.user_b);
    assert_eq!(withdrawn_amount_a, (19_999_997, 0));
    assert_eq!(withdrawn_amount_b, (0, 18_388_429));
    assert_eq!(t.balance(t.token_a, t.user_a), 19_999_997);
    assert_eq!(t.balance(t.token_b, t.user_b), 18_388_429);

    let reclaim_amount_a = t.reclaim(t.user_a);
    let reclaim_amount_b = t.reclaim(t.user_b);
    assert_eq!(reclaim_amount_a, 0);
    assert_eq!(reclaim_amount_b, 0);
    assert_eq!(t.balance(t.token_a, t.user_a), 19_999_997);
    assert_eq!(t.balance(t.token_b, t.user_b), 18_388_429);

    let reclaim_col_a = t.reclaim_col(t.user_a);
    let reclaim_col_b = t.reclaim_col(t.user_b);
    assert_eq!(reclaim_col_a, 4_000_000);
    assert_eq!(reclaim_col_b, 3_674_530);

    assert_eq!(t.balance(t.token_a, t.user_a), 23_999_997);
    assert_eq!(t.balance(t.token_b, t.user_b), 22_062_959);
}

#[test]
fn test_e2e_multiple_deposits_one_unused_position() {
    let mut t = SwapTest::setup();
    let spot_rate: i128 = 91_863_245_477_859;
    let forward_rate: i128 = 91_942_156_764_123;

    t.mint(t.token_a, t.user_a, 11_999_000 + 12_000_000);
    t.mint(t.token_b, t.user_b, 11_022_589);

    t.oracle = spot_rate;
    t.initialize(forward_rate, TIME_TO_MATURE);
    t.init_pos(t.token_admin, 2, 2, 10_000_000);
    t.deposit(t.user_a, t.token_a, 10_000_000, 2_000_000);
    t.deposit(t.user_a, t.token_a, 10_000_000, 2_000_000);
    t.deposit(t.user_b, t.token_b, 9_186_324, 1_837_265);
    t.add_time(TIME_TO_EXEC);

    let swapped_amount_a = t.swap(t.user_a);
    let swapped_amount_b = t.swap(t.user_b);
    assert_eq!(swapped_amount_a, 9_186_324);
    assert_eq!(swapped_amount_b, 9_999_999);

    let reclaim_amount_a = t.reclaim(t.user_a);
    assert_eq!(reclaim_amount_a, 10_000_000);

    let reclaim_col_a = t.reclaim_col(t.user_a);
    assert_eq!(reclaim_col_a, 2_000_001);

    t.add_time(TIME_TO_MATURE);

    t.mint(t.token_b, t.user_a, 7_892);
    let repay_a = t.repay(t.user_a, t.token_b, 9_194_214);
    let repay_b = t.repay(t.user_b, t.token_a, 9_999_999);

    assert_eq!(repay_a, (9_194_214, 9_194_214));
    assert_eq!(repay_b, (9_999_999, 9_999_999));

    t.add_time(TIME_TO_REPAY);

    let withdrawn_amount_a = t.withdraw(t.user_a);
    let withdrawn_amount_b = t.withdraw(t.user_b);
    assert_eq!(withdrawn_amount_a, (9_999_998, 0));
    assert_eq!(withdrawn_amount_b, (0, 9_194_214));

    let reclaim_amount_a = t.reclaim(t.user_a);
    let reclaim_amount_b = t.reclaim(t.user_b);
    assert_eq!(reclaim_amount_a, 0);
    assert_eq!(reclaim_amount_b, 0);

    let reclaim_col_a = t.reclaim_col(t.user_a);
    let reclaim_col_b = t.reclaim_col(t.user_b);
    assert_eq!(reclaim_col_a, 1_999_999);
    assert_eq!(reclaim_col_b, 1_837_265);
}

use vstd::prelude::*;
use crate::constants::{TIME_TO_EXEC, TIME_TO_REPAY};
use crate::types::address::Address;
use crate::types::position::Position;
use crate::types::position_data::PositionData;
use crate::types::stage::Stage;
use crate::types::token::Token;
use crate::types::transfer::Transfer;
use crate::types::user::{Participant, User};

verus! {

/// Sums of the participants' counters on one side of the swap.
pub struct Tally {
    pub deposited: int,
    pub collateral: int,
    pub swapped: int,
    pub returned: int,
    pub reclaimed: int,
    pub withdrawn_collateral: int,
}

impl Tally {
    /// The tally of nobody.
    pub open spec fn zero() -> Tally {
        Tally {
            deposited: 0,
            collateral: 0,
            swapped: 0,
            returned: 0,
            reclaimed: 0,
            withdrawn_collateral: 0,
        }
    }

    /// The tally with the counters of `u` added.
    pub open spec fn plus(self, u: User) -> Tally {
        Tally {
            deposited: self.deposited + u.deposited_amount,
            collateral: self.collateral + u.collateral,
            swapped: self.swapped + u.swapped_amount,
            returned: self.returned + u.returned_amount,
            reclaimed: self.reclaimed + u.reclaimed_amount,
            withdrawn_collateral: self.withdrawn_collateral + u.withdrawn_collateral,
        }
    }

    /// The tally with the counters of `u` taken out.
    pub open spec fn minus(self, u: User) -> Tally {
        Tally {
            deposited: self.deposited - u.deposited_amount,
            collateral: self.collateral - u.collateral,
            swapped: self.swapped - u.swapped_amount,
            returned: self.returned - u.returned_amount,
            reclaimed: self.reclaimed - u.reclaimed_amount,
            withdrawn_collateral: self.withdrawn_collateral - u.withdrawn_collateral,
        }
    }
}

/// Whether the record `u` is on the side of asset A, given that asset's address.
pub open spec fn on_side_a(u: User, token_a: Address) -> bool {
    u.deposited_token == token_a
}

/// The sums of the counters of all participants of `users` on one side:
/// the side of asset A if `side_a`, the side of asset B if not.
pub open spec fn tally(users: Seq<Participant>, token_a: Address, side_a: bool) -> Tally
    decreases users.len(),
{
    if users.len() == 0 {
        Tally::zero()
    } else {
        let rest = tally(users.drop_last(), token_a, side_a);
        let u = users.last().balance;
        if on_side_a(u, token_a) == side_a {
            rest.plus(u)
        } else {
            rest
        }
    }
}

/// What `u` adds to the tally of the side `side_a`.
pub open spec fn share(u: User, token_a: Address, side_a: bool) -> User {
    if on_side_a(u, token_a) == side_a {
        u
    } else {
        User {
            deposited_token: u.deposited_token,
            deposited_amount: 0,
            swapped_amount: 0,
            returned_amount: 0,
            withdrawn_amount: 0,
            reclaimed_amount: 0,
            collateral: 0,
            withdrawn_collateral: 0,
            is_liquidated: u.is_liquidated,
        }
    }
}

/// Appending a participant adds its share to the tally.
pub proof fn lemma_tally_push(users: Seq<Participant>, p: Participant, token_a: Address, side_a: bool)
    ensures
        tally(users.push(p), token_a, side_a) == tally(users, token_a, side_a).plus(
            share(p.balance, token_a, side_a),
        ),
{
    assert(users.push(p).drop_last() =~= users);
}

/// Replacing the record at `i` takes its old share out of the tally and puts
/// the new one in.
pub proof fn lemma_tally_update(
    users: Seq<Participant>,
    i: int,
    p: Participant,
    token_a: Address,
    side_a: bool,
)
    requires
        0 <= i < users.len(),
    ensures
        tally(users.update(i, p), token_a, side_a) == tally(users, token_a, side_a).minus(
            share(users[i].balance, token_a, side_a),
        ).plus(share(p.balance, token_a, side_a)),
    decreases users.len(),
{
    let updated = users.update(i, p);
    if i == users.len() - 1 {
        assert(updated.drop_last() =~= users.drop_last());
    } else {
        assert(updated.drop_last() =~= users.drop_last().update(i, p));
        lemma_tally_update(users.drop_last(), i, p, token_a, side_a);
    }
}

/// Where no counter is negative, no tally is negative and each participant's
/// counters are at most the tally of its side.
pub proof fn lemma_tally_bounds(users: Seq<Participant>, token_a: Address, side_a: bool)
    requires
        forall|j: int| 0 <= j < users.len() ==> counters_not_negative(#[trigger] users[j].balance),
    ensures
        tally(users, token_a, side_a).deposited >= 0,
        tally(users, token_a, side_a).collateral >= 0,
        tally(users, token_a, side_a).swapped >= 0,
        tally(users, token_a, side_a).returned >= 0,
        tally(users, token_a, side_a).reclaimed >= 0,
        tally(users, token_a, side_a).withdrawn_collateral >= 0,
        forall|i: int|
            0 <= i < users.len() && on_side_a(#[trigger] users[i].balance, token_a) == side_a ==> {
                &&& users[i].balance.deposited_amount <= tally(users, token_a, side_a).deposited
                &&& users[i].balance.collateral <= tally(users, token_a, side_a).collateral
                &&& users[i].balance.swapped_amount <= tally(users, token_a, side_a).swapped
                &&& users[i].balance.returned_amount <= tally(users, token_a, side_a).returned
                &&& users[i].balance.reclaimed_amount <= tally(users, token_a, side_a).reclaimed
                &&& users[i].balance.withdrawn_collateral <= tally(
                    users,
                    token_a,
                    side_a,
                ).withdrawn_collateral
            },
    decreases users.len(),
{
    if users.len() > 0 {
        let rest = users.drop_last();
        assert forall|j: int| 0 <= j < rest.len() implies counters_not_negative(
            #[trigger] rest[j].balance,
        ) by {
            assert(rest[j] == users[j]);
        }
        lemma_tally_bounds(rest, token_a, side_a);
        assert(counters_not_negative(users[users.len() - 1].balance));
        assert forall|i: int|
            0 <= i < users.len() && on_side_a(#[trigger] users[i].balance, token_a) == side_a implies {
            &&& users[i].balance.deposited_amount <= tally(users, token_a, side_a).deposited
            &&& users[i].balance.collateral <= tally(users, token_a, side_a).collateral
            &&& users[i].balance.swapped_amount <= tally(users, token_a, side_a).swapped
            &&& users[i].balance.returned_amount <= tally(users, token_a, side_a).returned
            &&& users[i].balance.reclaimed_amount <= tally(users, token_a, side_a).reclaimed
            &&& users[i].balance.withdrawn_collateral <= tally(
                users,
                token_a,
                side_a,
            ).withdrawn_collateral
        } by {
            if i < users.len() - 1 {
                assert(rest[i] == users[i]);
            }
        }
    }
}

/// The record of a participant that has just chosen `token` and done nothing yet.
pub open spec fn new_user(token: Address) -> User {
    User {
        deposited_token: token,
        deposited_amount: 0,
        swapped_amount: 0,
        returned_amount: 0,
        withdrawn_amount: 0,
        reclaimed_amount: 0,
        collateral: 0,
        withdrawn_collateral: 0,
        is_liquidated: false,
    }
}

/// No counter of the record is negative.
pub open spec fn counters_not_negative(u: User) -> bool {
    &&& u.deposited_amount >= 0
    &&& u.swapped_amount >= 0
    &&& u.returned_amount >= 0
    &&& u.withdrawn_amount >= 0
    &&& u.reclaimed_amount >= 0
    &&& u.collateral >= 0
    &&& u.withdrawn_collateral >= 0
}

/// Whether a record has moved on only as records do: it is on the asset it
/// was on, no counter has gone down, and a liquidation has not been undone.
pub open spec fn record_grown(was: User, now: User) -> bool {
    &&& now.deposited_token == was.deposited_token
    &&& was.deposited_amount <= now.deposited_amount
    &&& was.swapped_amount <= now.swapped_amount
    &&& was.returned_amount <= now.returned_amount
    &&& was.withdrawn_amount <= now.withdrawn_amount
    &&& was.reclaimed_amount <= now.reclaimed_amount
    &&& was.collateral <= now.collateral
    &&& was.withdrawn_collateral <= now.withdrawn_collateral
    &&& was.is_liquidated ==> now.is_liquidated
}

/// Whether an aggregate has moved on only as aggregates do: it is of the
/// same asset, and no counter has gone down.
pub open spec fn aggregate_grown(was: Token, now: Token) -> bool {
    &&& now.address == was.address
    &&& was.deposited_amount <= now.deposited_amount
    &&& was.swapped_amount <= now.swapped_amount
    &&& was.returned_amount <= now.returned_amount
    &&& was.withdrawn_amount <= now.withdrawn_amount
    &&& was.reclaimed_amount <= now.reclaimed_amount
    &&& was.collateral_amount <= now.collateral_amount
    &&& was.withdrawn_collateral <= now.withdrawn_collateral
}

/// Whether a pool has moved on only as pools do: its number of slots and its
/// slot size are what they were, and no fewer slots are taken.
pub open spec fn pool_kept(was: PositionData, now: PositionData) -> bool {
    &&& now.limit == was.limit
    &&& now.deposit_amount == was.deposit_amount
    &&& was.used <= now.used
}

/// Whether `now` is `was` with positions put after it, if any.
pub open spec fn positions_extended(was: Seq<Position>, now: Seq<Position>) -> bool {
    &&& was.len() <= now.len()
    &&& forall|i: int| 0 <= i < was.len() ==> #[trigger] now[i] == was[i]
}

/// The whole state of a contract: configuration, slot pools, position lists,
/// participant records, asset aggregates, and the transfers asked of custody
/// that have not been taken out yet.
pub struct Ledger {
    pub admin: Option<Address>,
    pub token_a: Token,
    pub token_b: Token,
    pub spot_rate: i128,
    pub forward_rate: i128,
    pub init_time: u64,
    pub time_to_mature: u64,
    pub position_a: PositionData,
    pub position_b: PositionData,
    pub used_positions_a: Seq<Position>,
    pub used_positions_b: Seq<Position>,
    pub users: Seq<Participant>,
    pub transfers: Seq<Transfer>,
}

impl Ledger {
    /// Whether the contract was initialized.
    pub open spec fn is_initialized(self) -> bool {
        self.admin.is_some()
    }

    /// Whether `who` has a record.
    pub open spec fn has_user(self, who: Address) -> bool {
        exists|i: int| 0 <= i < self.users.len() && #[trigger] self.users[i].address == who
    }

    /// Where the record of `who` stands, if it has one.
    pub open spec fn user_index(self, who: Address) -> int {
        choose|i: int| 0 <= i < self.users.len() && #[trigger] self.users[i].address == who
    }

    /// The record of `who`, if it has one.
    pub open spec fn user(self, who: Address) -> User {
        self.users[self.user_index(who)].balance
    }

    /// The ledger with the record of `who` replaced by `u`.
    pub open spec fn with_user(self, who: Address, u: User) -> Ledger {
        Ledger {
            users: self.users.update(self.user_index(who), Participant { address: who, balance: u }),
            ..self
        }
    }

    /// The ledger with a new record `u` for `who` after all others.
    pub open spec fn with_new_user(self, who: Address, u: User) -> Ledger {
        Ledger { users: self.users.push(Participant { address: who, balance: u }), ..self }
    }

    /// The ledger with `t` asked of custody after the transfers already asked.
    pub open spec fn with_transfer(self, t: Transfer) -> Ledger {
        Ledger { transfers: self.transfers.push(t), ..self }
    }

    /// The record of `who`, or the record of a newcomer on `token`.
    pub open spec fn user_or_new(self, who: Address, token: Address) -> User {
        if self.has_user(who) {
            self.user(who)
        } else {
            new_user(token)
        }
    }

    /// The asset that `who` has deposited, if any.
    pub open spec fn deposited_token(self, who: Address) -> Option<Address> {
        if self.has_user(who) {
            Some(self.user(who).deposited_token)
        } else {
            None
        }
    }

    /// The counters of `who`; those of a newcomer where it has no record.
    pub open spec fn counters(self, who: Address) -> User {
        self.user_or_new(who, self.token_a.address)
    }

    /// Whether `who` has a record on the side of asset A.
    pub open spec fn user_on_a(self, who: Address) -> bool {
        self.is_a(self.user(who).deposited_token)
    }

    /// The aggregate of asset A if `side_a`, of asset B if not.
    pub open spec fn token_of(self, side_a: bool) -> Token {
        if side_a {
            self.token_a
        } else {
            self.token_b
        }
    }

    /// The slot pool of asset A if `side_a`, of asset B if not.
    pub open spec fn pool_of(self, side_a: bool) -> PositionData {
        if side_a {
            self.position_a
        } else {
            self.position_b
        }
    }

    /// The position list of asset A if `side_a`, of asset B if not.
    pub open spec fn positions_of(self, side_a: bool) -> Seq<Position> {
        if side_a {
            self.used_positions_a
        } else {
            self.used_positions_b
        }
    }

    /// The ledger with the aggregate of one asset replaced by `t`.
    pub open spec fn with_token(self, side_a: bool, t: Token) -> Ledger {
        if side_a {
            Ledger { token_a: t, ..self }
        } else {
            Ledger { token_b: t, ..self }
        }
    }

    /// The ledger with the slot pool of one asset replaced by `p`.
    pub open spec fn with_pool(self, side_a: bool, p: PositionData) -> Ledger {
        if side_a {
            Ledger { position_a: p, ..self }
        } else {
            Ledger { position_b: p, ..self }
        }
    }

    /// The ledger with the position list of one asset replaced by `ps`.
    pub open spec fn with_positions(self, side_a: bool, ps: Seq<Position>) -> Ledger {
        if side_a {
            Ledger { used_positions_a: ps, ..self }
        } else {
            Ledger { used_positions_b: ps, ..self }
        }
    }

    /// Whether `token` is one of the two registered assets.
    pub open spec fn is_valid_token(self, token: Address) -> bool {
        token == self.token_a.address || token == self.token_b.address
    }

    /// Whether `token` is taken for asset A. Any other address is taken for asset B.
    pub open spec fn is_a(self, token: Address) -> bool {
        token == self.token_a.address
    }

    /// The time at which the swap stage starts.
    pub open spec fn swap_start(self) -> int {
        self.init_time + TIME_TO_EXEC
    }

    /// The time at which the repay stage starts.
    pub open spec fn repay_start(self) -> int {
        self.swap_start() + self.time_to_mature
    }

    /// The time at which the withdraw stage starts.
    pub open spec fn withdraw_start(self) -> int {
        self.repay_start() + TIME_TO_REPAY
    }

    /// The stage that the contract is in at time `now`.
    pub open spec fn stage(self, now: u64) -> Stage {
        if now < self.swap_start() {
            Stage::Deposit
        } else if now < self.repay_start() {
            Stage::Swap
        } else if now < self.withdraw_start() {
            Stage::Repay
        } else {
            Stage::Withdraw
        }
    }

    /// Whether the withdraw stage has begun at `now`.
    pub open spec fn max_time_reached(self, now: u64) -> bool {
        now >= self.withdraw_start()
    }

    /// A record is sound: it is on one of the two assets, no counter is
    /// negative, and no more collateral was taken out than was put in.
    pub open spec fn user_ok(self, u: User) -> bool {
        &&& self.is_valid_token(u.deposited_token)
        &&& counters_not_negative(u)
        &&& u.withdrawn_collateral <= u.collateral
    }

    /// An aggregate is sound: no counter is negative, and no more was swapped
    /// out of the asset than was deposited in it.
    pub open spec fn token_ok(t: Token) -> bool {
        &&& t.deposited_amount >= 0
        &&& 0 <= t.swapped_amount <= t.deposited_amount
        &&& t.returned_amount >= 0
        &&& t.withdrawn_amount >= 0
        &&& t.reclaimed_amount >= 0
        &&& t.collateral_amount >= 0
        &&& t.withdrawn_collateral >= 0
    }

    /// Each aggregate is the sum of the participants' counters. Deposits,
    /// collateral and reclaimed surplus are counted on the asset deposited;
    /// swapped and returned amounts are paid in the other asset and counted
    /// there.
    ///
    /// What was withdrawn is not among them. A withdrawal that finds its own
    /// asset short is made up in the other asset: the record is credited in
    /// its own asset for what the make-up counts for, while the aggregate of
    /// the other asset grows by what was paid, part of it as collateral taken
    /// out. So the withdrawn amounts of records and aggregates agree only as
    /// long as no withdrawal was short, and the collateral taken out of an
    /// asset is at least what its own participants took out.
    pub open spec fn conserved(self) -> bool {
        let a = tally(self.users, self.token_a.address, true);
        let b = tally(self.users, self.token_a.address, false);
        &&& self.token_a.deposited_amount == a.deposited
        &&& self.token_a.collateral_amount == a.collateral
        &&& self.token_a.reclaimed_amount == a.reclaimed
        &&& self.token_a.swapped_amount == b.swapped
        &&& self.token_a.returned_amount == b.returned
        &&& self.token_a.withdrawn_collateral >= a.withdrawn_collateral
        &&& self.token_b.deposited_amount == b.deposited
        &&& self.token_b.collateral_amount == b.collateral
        &&& self.token_b.reclaimed_amount == b.reclaimed
        &&& self.token_b.swapped_amount == a.swapped
        &&& self.token_b.returned_amount == a.returned
        &&& self.token_b.withdrawn_collateral >= b.withdrawn_collateral
    }

    /// No two records have the same address.
    pub open spec fn users_distinct(self) -> bool {
        forall|i: int, j: int|
            0 <= i < self.users.len() && 0 <= j < self.users.len() && i != j ==> (
            #[trigger] self.users[i]).address != (#[trigger] self.users[j]).address
    }

    /// Where no two records have the same address, the record found at an
    /// index is the record of its address.
    pub proof fn lemma_user_at(self, i: int)
        requires
            self.users_distinct(),
            0 <= i < self.users.len(),
        ensures
            self.has_user(self.users[i].address),
            self.user_index(self.users[i].address) == i,
            self.user(self.users[i].address) == self.users[i].balance,
    {
        let who = self.users[i].address;
        assert(self.users[i].address == who);
        let j = self.user_index(who);
        assert(0 <= j < self.users.len() && self.users[j].address == who);
    }

    /// Replacing a record leaves the addresses as they were: in a ledger
    /// `next` with the records of `with_user`, the record of `who` is `u`.
    pub proof fn lemma_with_user(self, next: Ledger, who: Address, u: User)
        requires
            self.users_distinct(),
            self.has_user(who),
            next.users == self.with_user(who, u).users,
        ensures
            next.users_distinct(),
            next.has_user(who),
            next.user(who) == u,
    {
        let i = self.user_index(who);
        assert forall|a: int, b: int|
            0 <= a < next.users.len() && 0 <= b < next.users.len() && a != b implies (
        #[trigger] next.users[a]).address != (#[trigger] next.users[b]).address by {
            assert(next.users[a].address == self.users[a].address);
            assert(next.users[b].address == self.users[b].address);
        }
        assert(next.users[i].address == who);
        next.lemma_user_at(i);
    }

    /// The ledger with `u` as the record of `who`, in place of the record it
    /// had or, where it had none, after all others.
    pub open spec fn with_record(self, who: Address, u: User) -> Ledger {
        if self.has_user(who) {
            self.with_user(who, u)
        } else {
            self.with_new_user(who, u)
        }
    }

    /// Putting a record in place touches no other: in a ledger `next` with
    /// the records of `with_record`, the record of `who` is `u`, and whoever
    /// else had a record has it as it was, and nobody else has one.
    pub proof fn lemma_record_replaced(self, next: Ledger, who: Address, u: User)
        requires
            self.users_distinct(),
            next.users == self.with_record(who, u).users,
        ensures
            next.users_distinct(),
            next.has_user(who),
            next.user(who) == u,
            forall|other: Address|
                other != who ==> next.has_user(other) == self.has_user(other) && (self.has_user(
                    other,
                ) ==> next.user(other) == self.user(other)),
    {
        if self.has_user(who) {
            let i = self.user_index(who);
            self.lemma_with_user(next, who, u);
            assert forall|other: Address| other != who implies next.has_user(other)
                == self.has_user(other) && (self.has_user(other) ==> next.user(other)
                == self.user(other)) by {
                if self.has_user(other) {
                    let j = self.user_index(other);
                    assert(next.users[j] == self.users[j]);
                    next.lemma_user_at(j);
                    self.lemma_user_at(j);
                }
                if next.has_user(other) {
                    let j = next.user_index(other);
                    assert(next.users[i].address == who);
                    assert(self.users[j] == next.users[j]);
                }
            }
        } else {
            let last = self.users.len() as int;
            assert forall|a: int, b: int|
                0 <= a < next.users.len() && 0 <= b < next.users.len() && a != b implies (
            #[trigger] next.users[a]).address != (#[trigger] next.users[b]).address by {
                if a < last {
                    assert(next.users[a] == self.users[a]);
                }
                if b < last {
                    assert(next.users[b] == self.users[b]);
                }
            }
            next.lemma_user_at(last);
            assert forall|other: Address| other != who implies next.has_user(other)
                == self.has_user(other) && (self.has_user(other) ==> next.user(other)
                == self.user(other)) by {
                if self.has_user(other) {
                    let j = self.user_index(other);
                    assert(next.users[j] == self.users[j]);
                    next.lemma_user_at(j);
                    self.lemma_user_at(j);
                }
                if next.has_user(other) {
                    let j = next.user_index(other);
                    if j < last {
                        assert(self.users[j] == next.users[j]);
                    }
                }
            }
        }
    }

    /// One step keeps the books balanced: the record of `who` becomes `u`, on
    /// the asset it was on, and the aggregates move by what the record moved.
    pub proof fn lemma_step_conserved(self, next: Ledger, who: Address, u: User)
        requires
            self.wf(),
            next.users == self.with_record(who, u).users,
            next.token_a.address == self.token_a.address,
            next.token_b.address == self.token_b.address,
            self.has_user(who) ==> u.deposited_token == self.user(who).deposited_token,
            self.user_ok(u),
            ({
                let side = on_side_a(u, self.token_a.address);
                let was = self.user_or_new(who, u.deposited_token);
                let own = self.token_of(side);
                let other = self.token_of(!side);
                let own_next = next.token_of(side);
                let other_next = next.token_of(!side);
                &&& own_next.deposited_amount == own.deposited_amount + u.deposited_amount
                    - was.deposited_amount
                &&& own_next.collateral_amount == own.collateral_amount + u.collateral
                    - was.collateral
                &&& own_next.reclaimed_amount == own.reclaimed_amount + u.reclaimed_amount
                    - was.reclaimed_amount
                &&& own_next.withdrawn_collateral >= own.withdrawn_collateral
                    + u.withdrawn_collateral - was.withdrawn_collateral
                &&& own_next.swapped_amount == own.swapped_amount
                &&& own_next.returned_amount == own.returned_amount
                &&& other_next.swapped_amount == other.swapped_amount + u.swapped_amount
                    - was.swapped_amount
                &&& other_next.returned_amount == other.returned_amount + u.returned_amount
                    - was.returned_amount
                &&& other_next.deposited_amount == other.deposited_amount
                &&& other_next.collateral_amount == other.collateral_amount
                &&& other_next.reclaimed_amount == other.reclaimed_amount
                &&& other_next.withdrawn_collateral >= other.withdrawn_collateral
            }),
        ensures
            next.conserved(),
            next.users_distinct(),
            forall|i: int| 0 <= i < next.users.len() ==> next.user_ok(#[trigger] next.users[i].balance),
            next.has_user(who),
            next.user(who) == u,
            forall|other: Address|
                other != who ==> next.has_user(other) == self.has_user(other) && (self.has_user(
                    other,
                ) ==> next.user(other) == self.user(other)),
    {
        let token_a = self.token_a.address;
        let p = Participant { address: who, balance: u };
        let side = on_side_a(u, token_a);
        if self.has_user(who) {
            let i = self.user_index(who);
            self.lemma_user_at(i);
            lemma_tally_update(self.users, i, p, token_a, true);
            lemma_tally_update(self.users, i, p, token_a, false);
            assert forall|a: int, b: int|
                0 <= a < next.users.len() && 0 <= b < next.users.len() && a != b implies (
            #[trigger] next.users[a]).address != (#[trigger] next.users[b]).address by {
                assert(next.users[a].address == self.users[a].address);
                assert(next.users[b].address == self.users[b].address);
            }
            assert forall|j: int| 0 <= j < next.users.len() implies next.user_ok(
                #[trigger] next.users[j].balance,
            ) by {
                if j != i {
                    assert(next.users[j] == self.users[j]);
                    assert(self.user_ok(self.users[j].balance));
                }
            }
            next.lemma_user_at(i);
            assert forall|other: Address| other != who implies next.has_user(other)
                == self.has_user(other) && (self.has_user(other) ==> next.user(other)
                == self.user(other)) by {
                if self.has_user(other) {
                    let j = self.user_index(other);
                    assert(next.users[j] == self.users[j]);
                    next.lemma_user_at(j);
                    self.lemma_user_at(j);
                }
                if next.has_user(other) {
                    let j = next.user_index(other);
                    assert(self.users[j] == next.users[j]);
                }
            }
        } else {
            let last = self.users.len() as int;
            lemma_tally_push(self.users, p, token_a, true);
            lemma_tally_push(self.users, p, token_a, false);
            assert forall|a: int, b: int|
                0 <= a < next.users.len() && 0 <= b < next.users.len() && a != b implies (
            #[trigger] next.users[a]).address != (#[trigger] next.users[b]).address by {
                if a < last {
                    assert(next.users[a] == self.users[a]);
                }
                if b < last {
                    assert(next.users[b] == self.users[b]);
                }
            }
            assert forall|j: int| 0 <= j < next.users.len() implies next.user_ok(
                #[trigger] next.users[j].balance,
            ) by {
                if j < last {
                    assert(next.users[j] == self.users[j]);
                    assert(self.user_ok(self.users[j].balance));
                }
            }
            next.lemma_user_at(last);
            assert forall|other: Address| other != who implies next.has_user(other)
                == self.has_user(other) && (self.has_user(other) ==> next.user(other)
                == self.user(other)) by {
                if self.has_user(other) {
                    let j = self.user_index(other);
                    assert(next.users[j] == self.users[j]);
                    next.lemma_user_at(j);
                    self.lemma_user_at(j);
                }
                if next.has_user(other) {
                    let j = next.user_index(other);
                    if j < last {
                        assert(self.users[j] == next.users[j]);
                    }
                }
            }
        }
    }

    /// In a well-formed ledger each counter of a participant is at most the
    /// aggregate that counts it.
    pub proof fn lemma_user_within_aggregates(self, who: Address)
        requires
            self.wf(),
            self.has_user(who),
        ensures
            self.user_ok(self.user(who)),
            ({
                let u = self.user(who);
                let own = self.token_of(self.user_on_a(who));
                let other = self.token_of(!self.user_on_a(who));
                &&& u.deposited_amount <= own.deposited_amount
                &&& u.collateral <= own.collateral_amount
                &&& u.reclaimed_amount <= own.reclaimed_amount
                &&& u.withdrawn_collateral <= own.withdrawn_collateral
                &&& u.swapped_amount <= other.swapped_amount
                &&& u.returned_amount <= other.returned_amount
            }),
    {
        let i = self.user_index(who);
        assert(self.user_ok(self.users[i].balance));
        assert forall|j: int| 0 <= j < self.users.len() implies counters_not_negative(
            #[trigger] self.users[j].balance,
        ) by {
            assert(self.user_ok(self.users[j].balance));
        }
        lemma_tally_bounds(self.users, self.token_a.address, true);
        lemma_tally_bounds(self.users, self.token_a.address, false);
    }

    /// Whether the slot pools were set up. Pools are set up with at least one
    /// slot, so pools that have none were not.
    pub open spec fn pools_set(self) -> bool {
        self.position_a.limit != 0 || self.position_b.limit != 0
    }

    /// A pool is sound: its slot size is not negative, and no more slots are
    /// taken than there are.
    pub open spec fn pool_ok(p: PositionData) -> bool {
        &&& p.deposit_amount >= 0
        &&& p.used <= p.limit
    }

    /// Whether `next` continues this ledger as settlement does: the
    /// configuration but for the spot rate is what it was; pools that were
    /// set up keep their slots and slot size, and no slot taken is given
    /// back; every record is still there, on its asset, with no counter gone
    /// down and no liquidation undone; no counter of an aggregate has gone
    /// down; and the position lists are what they were, with positions put
    /// after them.
    pub open spec fn continued_by(self, next: Ledger) -> bool {
        &&& next.admin == self.admin
        &&& self.pools_set() ==> pool_kept(self.position_a, next.position_a) && pool_kept(
            self.position_b,
            next.position_b,
        )
        &&& next.forward_rate == self.forward_rate
        &&& next.init_time == self.init_time
        &&& next.time_to_mature == self.time_to_mature
        &&& forall|who: Address|
            self.has_user(who) ==> #[trigger] next.has_user(who) && record_grown(
                self.user(who),
                next.user(who),
            )
        &&& aggregate_grown(self.token_a, next.token_a)
        &&& aggregate_grown(self.token_b, next.token_b)
        &&& positions_extended(self.used_positions_a, next.used_positions_a)
        &&& positions_extended(self.used_positions_b, next.used_positions_b)
    }

    /// A step on one record continues the ledger, where the record and the
    /// aggregates have only grown and the rest is as `continued_by` asks.
    pub proof fn lemma_step_continued(self, next: Ledger, who: Address, u: User)
        requires
            next.admin == self.admin,
            next.forward_rate == self.forward_rate,
            next.init_time == self.init_time,
            next.time_to_mature == self.time_to_mature,
            pool_kept(self.position_a, next.position_a),
            pool_kept(self.position_b, next.position_b),
            next.has_user(who),
            next.user(who) == u,
            self.has_user(who) ==> record_grown(self.user(who), u),
            forall|other: Address|
                other != who ==> next.has_user(other) == self.has_user(other) && (self.has_user(
                    other,
                ) ==> next.user(other) == self.user(other)),
            aggregate_grown(self.token_a, next.token_a),
            aggregate_grown(self.token_b, next.token_b),
            positions_extended(self.used_positions_a, next.used_positions_a),
            positions_extended(self.used_positions_b, next.used_positions_b),
        ensures
            self.continued_by(next),
    {
        assert forall|a: Address| self.has_user(a) implies #[trigger] next.has_user(a)
            && record_grown(self.user(a), next.user(a)) by {
            if a != who {
                assert(next.has_user(a) == self.has_user(a));
            }
        }
    }

    /// The ledger is well formed.
    pub open spec fn wf(self) -> bool {
        &&& !self.is_initialized() ==> self.users.len() == 0
        &&& self.users_distinct()
        &&& forall|i: int| 0 <= i < self.users.len() ==> self.user_ok(#[trigger] self.users[i].balance)
        &&& Self::token_ok(self.token_a)
        &&& Self::token_ok(self.token_b)
        &&& Self::pool_ok(self.position_a)
        &&& Self::pool_ok(self.position_b)
        &&& self.conserved()
    }
}

} // verus!

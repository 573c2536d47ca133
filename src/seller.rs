//! Seller bonds: a stake locked from the wallet to sell in a category.

use vstd::prelude::*;

use crate::config::SellerBondConfig;
use crate::error::AppError;
use crate::ledger::User;
use crate::market::{categories_wf, wallet_logged, Market};
use crate::status::{SellerCategory, TransactionType, UserRole};

verus! {

/// A seller's right to list in a category, and the bond paid for it.
#[derive(Debug, Clone, Copy, PartialEq, Eq, Structural)]
pub struct SellerCategoryAccess {
    pub user: usize,
    pub category: SellerCategory,
    pub bond_paid: i64,
    pub paid_at: i64,
}

/// What a prospective seller pays a bond for.
#[derive(Debug, Clone, Copy, PartialEq, Eq, Structural)]
pub enum BondScope {
    One(SellerCategory),
    /// All three categories at once, at the combined price.
    All,
}

pub open spec fn bond_for(bonds: SellerBondConfig, scope: BondScope) -> int {
    match scope {
        BondScope::One(SellerCategory::Digital) => bonds.digital as int,
        BondScope::One(SellerCategory::Physical) => bonds.physical as int,
        BondScope::One(SellerCategory::Services) => bonds.services as int,
        BondScope::All => bonds.all as int,
    }
}

pub open spec fn is_seller_role(r: UserRole) -> bool {
    r == UserRole::Seller || r == UserRole::Admin
}

/// The access records a bond for `scope` grants `user` at `now`: one record with the
/// whole bond, or one per category with a third of it each (rounded down).
pub open spec fn granted(user: usize, scope: BondScope, bond: int, now: i64) -> Seq<SellerCategoryAccess> {
    match scope {
        BondScope::One(c) => seq![
            SellerCategoryAccess { user, category: c, bond_paid: bond as i64, paid_at: now },
        ],
        BondScope::All => seq![
            SellerCategoryAccess {
                user,
                category: SellerCategory::Digital,
                bond_paid: (bond / 3) as i64,
                paid_at: now,
            },
            SellerCategoryAccess {
                user,
                category: SellerCategory::Physical,
                bond_paid: (bond / 3) as i64,
                paid_at: now,
            },
            SellerCategoryAccess {
                user,
                category: SellerCategory::Services,
                bond_paid: (bond / 3) as i64,
                paid_at: now,
            },
        ],
    }
}

impl SellerBondConfig {
    /// The bond asked for `scope`.
    pub fn bond(&self, scope: BondScope) -> (r: u64)
        ensures
            r == bond_for(*self, scope),
    {
        match scope {
            BondScope::One(SellerCategory::Digital) => self.digital,
            BondScope::One(SellerCategory::Physical) => self.physical,
            BondScope::One(SellerCategory::Services) => self.services,
            BondScope::All => self.all,
        }
    }
}

impl Market {
    fn push_access(&mut self, user: usize, category: SellerCategory, bond: i64, now: i64)
        requires
            old(self).wf(),
            user < old(self).users@.len(),
        ensures
            final(self).wf(),
            final(self).seller_categories@ == old(self).seller_categories@.push(
                SellerCategoryAccess { user, category, bond_paid: bond, paid_at: now },
            ),
            final(self).same_but_categories(old(self)),
    {
        self.seller_categories.push(SellerCategoryAccess { user, category, bond_paid: bond, paid_at: now });
        proof {
            let nu = self.users@.len() as int;
            assert forall|i: int| 0 <= i < self.seller_categories@.len() implies (#[trigger] self.seller_categories@[i]).user
                < nu by {
                if i < old(self).seller_categories@.len() {
                    assert(self.seller_categories@[i] == old(self).seller_categories@[i]);
                }
            }
            assert(categories_wf(self.seller_categories@, nu));
        }
    }

    /// Makes `user` a seller for the bond of `scope`, paid from their wallet and granting
    /// the categories of `scope`. A user who is already a seller (or an admin) is left as is.
    pub fn become_seller(
        &mut self,
        user: usize,
        scope: BondScope,
        bonds: SellerBondConfig,
        now: i64,
    ) -> (r: Result<(), AppError>)
        requires
            old(self).wf(),
        ensures
            final(self).wf(),
            ({
                let u = old(self).users@[user as int];
                let bond = bond_for(bonds, scope);
                &&& r is Ok <==> user < old(self).users@.len() && (is_seller_role(u.role)
                    || u.wallet_balance >= bond)
                &&& r matches Err(e) ==> final(self).unchanged(old(self)) && e == (if user >= old(self).users@.len() {
                    AppError::UserNotFound
                } else {
                    AppError::InsufficientBalance
                })
                &&& r is Ok && is_seller_role(u.role) ==> final(self).unchanged(old(self))
                &&& r is Ok && !is_seller_role(u.role) ==> {
                    &&& final(self).users@.len() == old(self).users@.len()
                    &&& final(self).users@[user as int].role == UserRole::Seller
                    &&& final(self).users@[user as int].wallet_balance == u.wallet_balance - bond
                    &&& bond > 0 ==> wallet_logged(
                        old(self).users@,
                        final(self).users@.update(user as int, User { role: u.role, ..final(self).users@[user as int] }),
                        user,
                        -bond,
                        TransactionType::Bond,
                        None,
                        now,
                    )
                    &&& bond == 0 ==> final(self).users@ == old(self).users@.update(
                        user as int,
                        User { role: UserRole::Seller, ..u },
                    )
                    &&& final(self).seller_categories@ == old(self).seller_categories@ + granted(
                        user,
                        scope,
                        bond,
                        now,
                    )
                    &&& final(self).listings@ == old(self).listings@
                    &&& final(self).escrows@ == old(self).escrows@
                    &&& final(self).orders@ == old(self).orders@
                    &&& final(self).checkouts@ == old(self).checkouts@
                    &&& final(self).disputes@ == old(self).disputes@
                }
            }),
    {
        if user >= self.users.len() {
            return Err(AppError::UserNotFound);
        }
        let role = self.users[user].role;
        if role == UserRole::Seller || role == UserRole::Admin {
            return Ok(());
        }
        let bond = bonds.bond(scope);
        if bond > self.users[user].wallet_balance as u64 {
            return Err(AppError::InsufficientBalance);
        }
        let bond = bond as i64;
        if bond > 0 {
            let _ = self.deduct_wallet(user, bond, TransactionType::Bond, None, now);
        }
        self.users[user].role = UserRole::Seller;
        proof {
            assert forall|v: int| 0 <= v < self.users@.len() implies (#[trigger] self.users@[v]).wf() by {}
        }
        let ghost before_grant = *self;
        match scope {
            BondScope::One(c) => {
                self.push_access(user, c, bond, now);
            },
            BondScope::All => {
                self.push_access(user, SellerCategory::Digital, bond / 3, now);
                self.push_access(user, SellerCategory::Physical, bond / 3, now);
                self.push_access(user, SellerCategory::Services, bond / 3, now);
            },
        }
        assert(self.seller_categories@ =~= before_grant.seller_categories@ + granted(
            user,
            scope,
            bond as int,
            now,
        ));
        proof {
            if bond == 0 {
                assert(self.users@ =~= old(self).users@.update(
                    user as int,
                    User { role: UserRole::Seller, ..old(self).users@[user as int] },
                ));
            } else {
                assert(self.users@.update(user as int, User { role: role, ..self.users@[user as int] })
                    =~= before_grant.users@.update(user as int, User { role: role, ..self.users@[user as int] }));
            }
        }
        Ok(())
    }

    /// A seller buys access to one more category, paying its bond from their wallet.
    pub fn buy_category(
        &mut self,
        user: usize,
        category: SellerCategory,
        bonds: SellerBondConfig,
        now: i64,
    ) -> (r: Result<(), AppError>)
        requires
            old(self).wf(),
        ensures
            final(self).wf(),
            ({
                let u = old(self).users@[user as int];
                let bond = bond_for(bonds, BondScope::One(category));
                let owned = exists|i: int|
                    0 <= i < old(self).seller_categories@.len() && (#[trigger] old(self).seller_categories@[i]).user
                        == user && old(self).seller_categories@[i].category == category;
                &&& r is Ok <==> user < old(self).users@.len() && is_seller_role(u.role) && !owned
                    && u.wallet_balance >= bond
                &&& r matches Err(e) ==> final(self).unchanged(old(self)) && e == (if user >= old(self).users@.len() {
                    AppError::UserNotFound
                } else if !is_seller_role(u.role) {
                    AppError::NotASeller
                } else if owned {
                    AppError::BondAlreadyPaid
                } else {
                    AppError::InsufficientBalance
                })
                &&& r is Ok ==> {
                    &&& bond > 0 ==> wallet_logged(
                        old(self).users@,
                        final(self).users@,
                        user,
                        -bond,
                        TransactionType::Bond,
                        None,
                        now,
                    )
                    &&& bond == 0 ==> final(self).users@ == old(self).users@
                    &&& final(self).seller_categories@ == old(self).seller_categories@.push(
                        SellerCategoryAccess { user, category, bond_paid: bond as i64, paid_at: now },
                    )
                    &&& final(self).listings@ == old(self).listings@
                    &&& final(self).escrows@ == old(self).escrows@
                    &&& final(self).orders@ == old(self).orders@
                    &&& final(self).checkouts@ == old(self).checkouts@
                    &&& final(self).disputes@ == old(self).disputes@
                }
            }),
    {
        if user >= self.users.len() {
            return Err(AppError::UserNotFound);
        }
        let role = self.users[user].role;
        if role != UserRole::Seller && role != UserRole::Admin {
            return Err(AppError::NotASeller);
        }
        let n = self.seller_categories.len();
        let mut i: usize = 0;
        while i < n
            invariant
                n == self.seller_categories@.len(),
                i <= n,
                self.wf(),
                self.unchanged(old(self)),
                user < old(self).users@.len(),
                is_seller_role(old(self).users@[user as int].role),
                forall|j: int|
                    0 <= j < i ==> !((#[trigger] self.seller_categories@[j]).user == user
                        && self.seller_categories@[j].category == category),
            decreases n - i,
        {
            if self.seller_categories[i].user == user && self.seller_categories[i].category == category {
                assert(old(self).seller_categories@[i as int].user == user);
                return Err(AppError::BondAlreadyPaid);
            }
            i = i + 1;
        }
        let bond = bonds.bond(BondScope::One(category));
        if bond > self.users[user].wallet_balance as u64 {
            return Err(AppError::InsufficientBalance);
        }
        let bond = bond as i64;
        if bond > 0 {
            let _ = self.deduct_wallet(user, bond, TransactionType::Bond, None, now);
        }
        self.push_access(user, category, bond, now);
        Ok(())
    }
}

} // verus!

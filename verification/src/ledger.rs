//! The canonical member/payment ledger.
//!
//! Models the two relational tables the pipeline writes: `members` (one row
//! per canonical identity, keyed by normalized email) and `payments` (the
//! append-only ledger, each row owned by a member). Rows are never updated
//! or deleted by the pipeline; surrogate ids are one-based row positions.
//!
//! Member resolution is idempotent: resolving an email already present
//! returns the existing row untouched, so no email can ever create two
//! members. Nothing deduplicates payments on `(platform, transaction_id)`:
//! re-delivery of an identical provider transaction appends a second
//! payment row. That matches the store's schema, which declares no unique
//! constraint on that pair; callers must treat it as a known gap, not
//! silently repair it.

use vstd::prelude::*;

use crate::amount::Amount;
use crate::dates::Date;

verus! {

/// One canonical member identity. `email` holds normalized bytes
/// (trimmed, ASCII-lowercased).
pub struct MemberRecord {
    pub id: i32,
    pub email: Vec<u8>,
    pub first_name: Vec<u8>,
    pub last_name: Vec<u8>,
}

/// One immutable payment row.
pub struct PaymentRecord {
    pub id: i32,
    pub member_id: i32,
    pub effective_on: Option<Date>,
    pub duration_months: i32,
    pub amount_paid: Amount,
    pub payment_method: Vec<u8>,
    pub platform: Option<Vec<u8>>,
    pub transaction_id: Option<i32>,
    pub notes: Option<Vec<u8>>,
}

/// The relational store the drivers write into.
pub struct Ledger {
    pub members: Vec<MemberRecord>,
    pub payments: Vec<PaymentRecord>,
}

/// Mathematical image of one member row.
#[verifier::ext_equal]
pub struct MemberV {
    pub id: int,
    pub email: Seq<u8>,
    pub first_name: Seq<u8>,
    pub last_name: Seq<u8>,
}

/// Mathematical image of one payment row.
#[verifier::ext_equal]
pub struct PaymentV {
    pub id: int,
    pub member_id: int,
    pub effective_on: Option<Date>,
    pub duration_months: int,
    pub amount_paid: Amount,
    pub payment_method: Seq<u8>,
    pub platform: Option<Seq<u8>>,
    pub transaction_id: Option<int>,
    pub notes: Option<Seq<u8>>,
}

/// Mathematical image of the whole store.
#[verifier::ext_equal]
pub struct LedgerV {
    pub members: Seq<MemberV>,
    pub payments: Seq<PaymentV>,
}

impl View for MemberRecord {
    type V = MemberV;

    open spec fn view(&self) -> MemberV {
        MemberV {
            id: self.id as int,
            email: self.email@,
            first_name: self.first_name@,
            last_name: self.last_name@,
        }
    }
}

impl View for PaymentRecord {
    type V = PaymentV;

    open spec fn view(&self) -> PaymentV {
        PaymentV {
            id: self.id as int,
            member_id: self.member_id as int,
            effective_on: self.effective_on,
            duration_months: self.duration_months as int,
            amount_paid: self.amount_paid,
            payment_method: self.payment_method@,
            platform: match self.platform {
                Some(ref p) => Some(p@),
                None => None,
            },
            transaction_id: match self.transaction_id {
                Some(t) => Some(t as int),
                None => None,
            },
            notes: match self.notes {
                Some(ref n) => Some(n@),
                None => None,
            },
        }
    }
}

impl View for Ledger {
    type V = LedgerV;

    open spec fn view(&self) -> LedgerV {
        LedgerV {
            members: self.members@.map_values(|m: MemberRecord| m@),
            payments: self.payments@.map_values(|p: PaymentRecord| p@),
        }
    }
}

/// Index of the first member whose email equals `key`, scanning from `i`.
pub open spec fn find_email_from(members: Seq<MemberV>, key: Seq<u8>, i: int) -> Option<int>
    decreases members.len() - i,
{
    if i < 0 || i >= members.len() {
        None
    } else if members[i].email == key {
        Some(i)
    } else {
        find_email_from(members, key, i + 1)
    }
}

pub proof fn lemma_find_email_props(members: Seq<MemberV>, key: Seq<u8>, i: int)
    requires
        0 <= i <= members.len(),
    ensures
        match find_email_from(members, key, i) {
            Some(j) => i <= j < members.len() && members[j].email == key && forall|k: int|
                i <= k < j ==> (#[trigger] members[k].email) != key,
            None => forall|k: int| i <= k < members.len() ==> (#[trigger] members[k].email) != key,
        },
    decreases members.len() - i,
{
    if i < members.len() && members[i].email != key {
        lemma_find_email_props(members, key, i + 1);
    }
}

proof fn lemma_find_email_step(members: Seq<MemberV>, key: Seq<u8>, i: int)
    requires
        0 <= i < members.len(),
        members[i].email != key,
    ensures
        find_email_from(members, key, i) == find_email_from(members, key, i + 1),
{
}

/// Appending a member with a fresh email does not change what earlier
/// emails resolve to.
pub proof fn lemma_find_email_push(members: Seq<MemberV>, key: Seq<u8>, m: MemberV, i: int)
    requires
        0 <= i <= members.len(),
    ensures
        find_email_from(members.push(m), key, i) == if find_email_from(members, key, i) is Some {
            find_email_from(members, key, i)
        } else if m.email == key {
            Some(members.len() as int)
        } else {
            None
        },
    decreases members.len() - i,
{
    if i < members.len() {
        assert(members.push(m)[i] == members[i]);
        if members[i].email != key {
            lemma_find_email_push(members, key, m, i + 1);
        }
    } else {
        assert(members.push(m)[i] == m);
        assert(find_email_from(members.push(m), key, i + 1) is None);
    }
}

impl Ledger {
    /// Surrogate ids are one-based row positions.
    pub open spec fn member_ids_ok(self) -> bool {
        forall|i: int| 0 <= i < self@.members.len() ==> (#[trigger] self@.members[i].id) == i + 1
    }

    /// No two members share an email: the identity-table unique key.
    pub open spec fn emails_distinct(self) -> bool {
        forall|i: int, j: int|
            0 <= i < j < self@.members.len() ==> (#[trigger] self@.members[i].email) != (
            #[trigger] self@.members[j].email)
    }

    /// Payment ids are one-based row positions and every payment belongs to
    /// an existing member.
    pub open spec fn payments_ok(self) -> bool {
        forall|i: int|
            0 <= i < self@.payments.len() ==> (#[trigger] self@.payments[i]).id == i + 1 && 1
                <= self@.payments[i].member_id <= self@.members.len()
    }

    pub open spec fn wf(self) -> bool {
        self.member_ids_ok() && self.emails_distinct() && self.payments_ok()
    }

    /// Room for one more member id.
    pub open spec fn can_add_member(self) -> bool {
        self@.members.len() < 0x7fff_ffff
    }

    /// Room for one more payment id.
    pub open spec fn can_add_payment(self) -> bool {
        self@.payments.len() < 0x7fff_ffff
    }

    pub fn new() -> (r: Ledger)
        ensures
            r.wf(),
            r@.members.len() == 0,
            r@.payments.len() == 0,
    {
        Ledger { members: Vec::new(), payments: Vec::new() }
    }

    /// Number of member rows.
    pub fn member_count(&self) -> (r: usize)
        ensures
            r == self@.members.len(),
    {
        self.members.len()
    }

    /// Number of payment rows.
    pub fn payment_count(&self) -> (r: usize)
        ensures
            r == self@.payments.len(),
    {
        self.payments.len()
    }

    /// Looks a normalized email up in the identity table.
    pub fn find_member(&self, key: &[u8]) -> (r: Option<usize>)
        ensures
            match r {
                Some(i) => find_email_from(self@.members, key@, 0) == Some(i as int) && i
                    < self@.members.len(),
                None => find_email_from(self@.members, key@, 0) is None,
            },
    {
        let mut i: usize = 0;
        while i < self.members.len()
            invariant
                0 <= i <= self@.members.len(),
                find_email_from(self@.members, key@, 0) == find_email_from(
                    self@.members,
                    key@,
                    i as int,
                ),
            decreases self.members.len() - i,
        {
            if crate::text::bytes_eq(self.members[i].email.as_slice(), key) {
                return Some(i);
            }
            proof {
                lemma_find_email_step(self@.members, key@, i as int);
            }
            i += 1;
        }
        None
    }

    /// Idempotent find-or-create of a member identity by normalized email:
    /// returns the member id and whether a row was created. An email already
    /// present never creates a second row and leaves the ledger unchanged.
    pub fn resolve_member(&mut self, email: Vec<u8>, first_name: Vec<u8>, last_name: Vec<u8>) -> (r:
        (i32, bool))
        requires
            old(self).wf(),
            old(self).can_add_member(),
        ensures
            final(self).wf(),
            final(self)@.payments == old(self)@.payments,
            1 <= r.0 as int <= final(self)@.members.len(),
            match find_email_from(old(self)@.members, email@, 0) {
                Some(i) => !r.1 && r.0 as int == old(self)@.members[i].id && final(self)@ == old(
                    self,
                )@,
                None => r.1 && r.0 as int == old(self)@.members.len() as int + 1 && final(self)@.members
                    == old(self)@.members.push(
                    (MemberV {
                        id: r.0 as int,
                        email: email@,
                        first_name: first_name@,
                        last_name: last_name@,
                    }),
                ),
            },
    {
        proof {
            lemma_find_email_props(self@.members, email@, 0);
        }
        match self.find_member(email.as_slice()) {
            Some(i) => {
                let id = self.members[i].id;
                assert(self@.members[i as int] == self.members@[i as int]@);
                assert(self@.members[i as int].id == i + 1);
                assert(id as int == i + 1);
                (id, false)
            },
            None => {
                let id: i32 = (self.members.len() as i32) + 1;
                let m = MemberRecord { id, email, first_name, last_name };
                self.members.push(m);
                proof {
                    assert(self@.members =~= old(self)@.members.push(
                        (MemberV {
                            id: id as int,
                            email: email@,
                            first_name: first_name@,
                            last_name: last_name@,
                        }),
                    ));
                    assert(self@.payments =~= old(self)@.payments);
                    assert(self.wf()) by {
                        assert(forall|k: int|
                            0 <= k < old(self)@.members.len() ==> (#[trigger] self@.members[k])
                                == old(self)@.members[k]);
                    }
                }
                (id, true)
            },
        }
    }

    /// Appends one payment row for an existing member and returns its id.
    pub fn record_payment(
        &mut self,
        member_id: i32,
        effective_on: Option<Date>,
        duration_months: i32,
        amount_paid: Amount,
        payment_method: Vec<u8>,
        platform: Option<Vec<u8>>,
        transaction_id: Option<i32>,
        notes: Option<Vec<u8>>,
    ) -> (r: i32)
        requires
            old(self).wf(),
            old(self).can_add_payment(),
            1 <= member_id as int <= old(self)@.members.len(),
        ensures
            final(self).wf(),
            final(self)@.members == old(self)@.members,
            r as int == old(self)@.payments.len() as int + 1,
            final(self)@.payments == old(self)@.payments.push(
                (PaymentV {
                    id: r as int,
                    member_id: member_id as int,
                    effective_on,
                    duration_months: duration_months as int,
                    amount_paid,
                    payment_method: payment_method@,
                    platform: match platform {
                        Some(ref p) => Some(p@),
                        None => None,
                    },
                    transaction_id: match transaction_id {
                        Some(t) => Some(t as int),
                        None => None,
                    },
                    notes: match notes {
                        Some(ref n) => Some(n@),
                        None => None,
                    },
                }),
            ),
    {
        let id: i32 = (self.payments.len() as i32) + 1;
        let ghost pv = PaymentV {
            id: id as int,
            member_id: member_id as int,
            effective_on,
            duration_months: duration_months as int,
            amount_paid,
            payment_method: payment_method@,
            platform: match platform {
                Some(ref p) => Some(p@),
                None => None,
            },
            transaction_id: match transaction_id {
                Some(t) => Some(t as int),
                None => None,
            },
            notes: match notes {
                Some(ref n) => Some(n@),
                None => None,
            },
        };
        let p = PaymentRecord {
            id,
            member_id,
            effective_on,
            duration_months,
            amount_paid,
            payment_method,
            platform,
            transaction_id,
            notes,
        };
        self.payments.push(p);
        proof {
            assert(self@.payments =~= old(self)@.payments.push(pv));
            assert(self@.members =~= old(self)@.members);
            assert(self.wf()) by {
                assert(forall|k: int|
                    0 <= k < old(self)@.payments.len() ==> (#[trigger] self@.payments[k]) == old(
                        self,
                    )@.payments[k]);
            }
        }
        id
    }
}

} // verus!

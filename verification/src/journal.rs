use vstd::prelude::*;

use crate::amount::Amount;
use crate::ids::{AccountId, TicketId, TxId};

verus! {

/// A balance movement recorded by the ledger.
#[derive(Copy, Clone, Debug, PartialEq, Eq)]
pub enum JournalOp {
    GenesisCredit { account: AccountId, amount: Amount },
    TicketDebit { account: AccountId, ticket_id: TicketId, amount: Amount },
    TicketSettlement {
        ticket_id: TicketId,
        beneficiary: AccountId,
        beneficiary_amount: Amount,
        operator: AccountId,
        operator_amount: Amount,
        rebate_recipient: AccountId,
        rebate_amount: Amount,
    },
}

/// A journal record: the transaction that made a movement, and the movement.
#[derive(Copy, Clone, Debug, PartialEq, Eq)]
pub struct JournalEntry {
    pub tx_id: TxId,
    pub op: JournalOp,
}

} // verus!

use vstd::prelude::*;

use crate::amount::Amount;
use crate::codec::{
    append_text, decimal, lemma_cancel_suffix, lemma_decimal_injective, lemma_split_equal, text,
    CanonicalJson,
};
use crate::crypto::PublicIdentity;
use crate::ids::AccountId;

verus! {

/// A registered account: its identity, liquid balance, and the next nonces it
/// must use to open and to release tickets.
#[derive(Copy, Clone, Debug, PartialEq, Eq)]
pub struct AccountState {
    pub id: AccountId,
    pub identity: PublicIdentity,
    pub balance: Amount,
    pub next_ticket_nonce: u64,
    pub next_release_nonce: u64,
}

impl AccountState {
    /// A fresh account for an identity: empty balance, both nonces at zero.
    pub fn new(identity: PublicIdentity) -> (r: AccountState)
        ensures
            r == (AccountState {
                id: identity.account,
                identity,
                balance: Amount::of(0),
                next_ticket_nonce: 0,
                next_release_nonce: 0,
            }),
    {
        AccountState {
            id: identity.account,
            identity,
            balance: Amount::zero(),
            next_ticket_nonce: 0,
            next_release_nonce: 0,
        }
    }
}

impl CanonicalJson for AccountState {
    open spec fn json(&self) -> Seq<u8> {
        text("{\"id\":") + self.id.json() + text(",\"identity\":") + self.identity.json() + text(
            ",\"balance\":",
        ) + self.balance.json() + text(",\"next_ticket_nonce\":") + self.next_ticket_nonce.json()
            + text(",\"next_release_nonce\":") + self.next_release_nonce.json() + text("}")
    }

    fn write_json(&self, out: &mut Vec<u8>) {
        let mut buf: Vec<u8> = Vec::new();
        append_text(&mut buf, "{\"id\":");
        assert(buf@ =~= text("{\"id\":"));
        self.id.write_json(&mut buf);
        append_text(&mut buf, ",\"identity\":");
        self.identity.write_json(&mut buf);
        append_text(&mut buf, ",\"balance\":");
        self.balance.write_json(&mut buf);
        append_text(&mut buf, ",\"next_ticket_nonce\":");
        self.next_ticket_nonce.write_json(&mut buf);
        append_text(&mut buf, ",\"next_release_nonce\":");
        self.next_release_nonce.write_json(&mut buf);
        append_text(&mut buf, "}");
        assert(buf@ == self.json());
        out.append(&mut buf);
    }
}

/// The canonical JSON of an account commits to its balance and to both of
/// its nonces: two states of one account that differ in any one of them
/// encode differently.
pub proof fn lemma_account_json_commits(a: AccountState, b: AccountState)
    requires
        a.id == b.id,
        a.identity == b.identity,
    ensures
        a.next_ticket_nonce == b.next_ticket_nonce && a.next_release_nonce == b.next_release_nonce
            && a.json() == b.json() ==> a.balance.spec_units() == b.balance.spec_units(),
        a.balance == b.balance && a.next_release_nonce == b.next_release_nonce && a.json() == b.json()
            ==> a.next_ticket_nonce == b.next_ticket_nonce,
        a.balance == b.balance && a.next_ticket_nonce == b.next_ticket_nonce && a.json() == b.json()
            ==> a.next_release_nonce == b.next_release_nonce,
{
    let head = text("{\"id\":") + a.id.json() + text(",\"identity\":") + a.identity.json() + text(
        ",\"balance\":",
    );
    let tail_r = text(",\"next_release_nonce\":");
    if a.json() == b.json() {
        if a.next_ticket_nonce == b.next_ticket_nonce && a.next_release_nonce == b.next_release_nonce {
            let rest = text(",\"next_ticket_nonce\":") + decimal(a.next_ticket_nonce as nat) + tail_r
                + decimal(a.next_release_nonce as nat) + text("}");
            assert(a.json() =~= head + (decimal(a.balance.spec_units()) + rest));
            assert(b.json() =~= head + (decimal(b.balance.spec_units()) + rest));
            lemma_split_equal(head, decimal(a.balance.spec_units()) + rest, head, decimal(b.balance.spec_units()) + rest);
            lemma_cancel_suffix(decimal(a.balance.spec_units()), decimal(b.balance.spec_units()), rest);
            lemma_decimal_injective(a.balance.spec_units(), b.balance.spec_units());
        }
        if a.balance == b.balance && a.next_release_nonce == b.next_release_nonce {
            let pre = head + decimal(a.balance.spec_units()) + text(",\"next_ticket_nonce\":");
            let rest = tail_r + decimal(a.next_release_nonce as nat) + text("}");
            assert(a.json() =~= pre + (decimal(a.next_ticket_nonce as nat) + rest));
            assert(b.json() =~= pre + (decimal(b.next_ticket_nonce as nat) + rest));
            lemma_split_equal(pre, decimal(a.next_ticket_nonce as nat) + rest, pre, decimal(b.next_ticket_nonce as nat) + rest);
            lemma_cancel_suffix(decimal(a.next_ticket_nonce as nat), decimal(b.next_ticket_nonce as nat), rest);
            lemma_decimal_injective(a.next_ticket_nonce as nat, b.next_ticket_nonce as nat);
        }
        if a.balance == b.balance && a.next_ticket_nonce == b.next_ticket_nonce {
            let pre = head + decimal(a.balance.spec_units()) + text(",\"next_ticket_nonce\":")
                + decimal(a.next_ticket_nonce as nat) + tail_r;
            let rest = text("}");
            assert(a.json() =~= pre + (decimal(a.next_release_nonce as nat) + rest));
            assert(b.json() =~= pre + (decimal(b.next_release_nonce as nat) + rest));
            lemma_split_equal(pre, decimal(a.next_release_nonce as nat) + rest, pre, decimal(b.next_release_nonce as nat) + rest);
            lemma_cancel_suffix(decimal(a.next_release_nonce as nat), decimal(b.next_release_nonce as nat), rest);
            lemma_decimal_injective(a.next_release_nonce as nat, b.next_release_nonce as nat);
        }
    }
}

} // verus!

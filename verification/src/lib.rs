pub mod account;
pub mod amount;
pub mod codec;
pub mod crypto;
pub mod error;
pub mod history;
pub mod ids;
pub mod journal;
pub mod ledger;
pub mod release;
pub mod route;
pub mod scenarios;
pub mod table;
pub mod ticket;

pub use amount::{Amount, Bps, MAX_BPS, MAX_LEDGER_UNITS};
pub use codec::{canonical_bytes, CanonicalJson};
pub use crypto::{signing_digest, verify_signature, KeyPair, PublicIdentity, SignatureBytes};
pub use error::{VertexError, VertexResult};
pub use ids::{AccountId, AssetId, Digest, TicketId, TxId};
pub use route::{RoutePlan, RoutePolicy};
pub use ticket::{SignedTicket, TicketAuthorizationView, TicketTerms};
pub use release::{ReleaseAuthorizationView, ReleaseRequest, SignedRelease};
pub use account::AccountState;
pub use journal::{JournalEntry, JournalOp};
pub use ledger::{LedgerView, TicketState, VertexLedger};
pub use scenarios::{batch, direct, routed, snapshot, BalanceReport, ScenarioReport};

//! An append-only, sequentially indexed ledger of impact records.
//!
//! Each record captures one donation event (donor, recipient organization,
//! item, quantity, timestamp). A single sequence counter assigns every
//! record a unique index; the storage address of record `i` is a pure
//! function of `i`, so any reader can recompute it without consulting the
//! ledger. Creating a record and advancing the counter form one indivisible
//! unit: the surrounding transactional host commits or rolls back both
//! together.

pub mod address;
pub mod codec;
pub mod ledger;
pub mod record;

pub use address::counter_address;
pub use address::record_address;
pub use codec::decode_counter;
pub use codec::decode_record;
pub use codec::encode_counter;
pub use codec::encode_record;
pub use ledger::initialize_counter;
pub use ledger::log_impact;
pub use ledger::log_impact_observed;
pub use ledger::Ledger;
pub use ledger::LedgerView;
pub use record::ErrorCode;
pub use record::Impact;
pub use record::ImpactCounter;
pub use record::ImpactView;
pub use record::MAX_FIELD_BYTES;

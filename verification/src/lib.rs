//! A verified per-owner task record store.
//!
//! Each participant owns a set of small task records, addressed
//! deterministically by the pair of the owner's 32-byte identity and a
//! caller-chosen 64-bit task id.  The library verifies the lifecycle state
//! machine of those records: creation, description updates, completion
//! toggling and deletion, each gated by ownership and size checks.

mod address;
mod errors;
mod laws;
mod record;
mod store;
mod transitions;

pub use address::derive_address;
pub use address::pda_of;
pub use address::spec_program_id;
pub use address::spec_seed_tag;
pub use errors::TodoError;
pub use laws::law_create_then_read;
pub use laws::law_create_too_long;
pub use laws::law_create_twice;
pub use laws::law_delete_then_create;
pub use laws::law_frame;
pub use laws::law_non_owner_rejected;
pub use laws::law_toggle_round_trip;
pub use record::MAX_DESCRIPTION_BYTES;
pub use record::TodoAccount;
pub use record::TodoView;
pub use record::description_byte_len;
pub use record::description_fits;
pub use store::CreateTodo;
pub use store::DeleteTodo;
pub use store::LogicalKey;
pub use store::RecordStore;
pub use store::Refund;
pub use store::UpdateTodo;
pub use store::create_todo;
pub use store::delete_todo;
pub use store::refund_result_view;
pub use store::toggle_completed;
pub use store::update_description;
pub use transitions::RefundView;
pub use transitions::Slot;
pub use transitions::spec_create;
pub use transitions::spec_delete;
pub use transitions::spec_toggle_completed;
pub use transitions::spec_update_description;

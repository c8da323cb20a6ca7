//! A resource-access scheduler: a table of resources indexed by type, and a
//! dispatcher that groups functions into stages whose members never contend
//! for a resource.
//!
//! Notes about resources:
//! - Resources must implement `Default`.
//! - Resources must be `Send + Sync`; use `Mutex<Arc<T>>` where needed.
//! - Resources must be `'static`.

mod dispatcher;
mod error;
mod functions;
mod ledger;
mod resource;
mod system;
mod typeid;
mod world;

pub use self::dispatcher::joins;
pub use self::dispatcher::keys_named;
pub use self::dispatcher::lemma_joined_is_coherent;
pub use self::dispatcher::lemma_no_failure_is_success;
pub use self::dispatcher::lemma_partition_concatenates;
pub use self::dispatcher::lemma_partition_is_coherent;
pub use self::dispatcher::lemma_probe_from;
pub use self::dispatcher::lemma_probe_joins;
pub use self::dispatcher::lemma_stage_leases_cover;
pub use self::dispatcher::lemma_stage_units_compatible;
pub use self::dispatcher::partition;
pub use self::dispatcher::stage_leases;
pub use self::dispatcher::stage_succeeds;
pub use self::dispatcher::stage_yields;
pub use self::dispatcher::stages_of;
pub use self::dispatcher::Dispatcher;
pub use self::dispatcher::DispatcherBuilder;
pub use self::error::collect_failures;
pub use self::error::failures;
pub use self::error::stage_outcome;
pub use self::error::EcsError;
pub use self::error::SystemResult;
pub use self::error::UserError;
pub use self::ledger::admits;
pub use self::ledger::coherent;
pub use self::ledger::collide;
pub use self::ledger::conflicts;
pub use self::ledger::has_writer;
pub use self::ledger::lease_count;
pub use self::ledger::lemma_borrow_discipline;
pub use self::ledger::lemma_release_restores;
pub use self::ledger::state_of;
pub use self::ledger::Access;
pub use self::ledger::BorrowLedger;
pub use self::ledger::BorrowState;
pub use self::ledger::Lease;
pub use self::resource::cell_kind;
pub use self::resource::exclusive_target;
pub use self::resource::kind_of;
pub use self::resource::shared_target;
pub use self::resource::Erased;
pub use self::resource::Resource;
pub use self::system::holds_all;
pub use self::system::keys_in;
pub use self::system::leases_of;
pub use self::system::lemma_stops_early;
pub use self::system::lemma_with_keys_append;
pub use self::system::lemma_with_keys_holds;
pub use self::system::probe;
pub use self::system::probe_from;
pub use self::system::reading;
pub use self::system::reads_first;
pub use self::system::stops_at;
pub use self::system::stops_early;
pub use self::system::with_keys;
pub use self::system::writing;
pub use self::system::IntoSystem;
pub use self::system::Probe;
pub use self::system::Requirement;
pub use self::system::System;
pub use self::typeid::type_key;
pub use self::world::exclusive_outcome;
pub use self::world::keys_of;
pub use self::world::lemma_initialize_is_idempotent;
pub use self::world::shared_outcome;
pub use self::world::typed_mut;
pub use self::world::ErasedMut;
pub use self::world::Slot;
pub use self::world::World;

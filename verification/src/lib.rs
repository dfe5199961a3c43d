//! A minimal entity registry: callers create uniquely identified records
//! ("zombies") whose 16-byte payload is derived deterministically from a
//! randomness seed, the caller's identity, and an execution sequence index.

pub mod derivation;
pub mod errors;
pub mod hashing;
pub mod registry;
pub mod zombie;

pub use derivation::derivation_input;
pub use derivation::lemma_derivation_input_injective;
pub use derivation::lemma_derive_deterministic;
pub use errors::Error;
pub use hashing::blake2_128_of;
pub use registry::Event;
pub use registry::Registry;
pub use registry::ZombieStore;
pub use registry::alloc_step;
pub use registry::lemma_allocated_ids_unique;
pub use registry::lemma_next_id_monotonic;
pub use zombie::Zombie;
pub use zombie::ZombieGender;
pub use zombie::gender_of;

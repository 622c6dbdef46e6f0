//! The validator core of an Albatross-style proof-of-stake node: signed
//! messages and aggregate proofs, the fork-proof pool, the persisted
//! Tendermint state and the decisions of the validator itself, each with a
//! machine-checked contract.
//!
//! The library does no I/O and keeps no clock. It is driven by events and
//! answers with what is to be done; whoever runs it talks to the blockchain,
//! the network and the disk.
//!
//! * `codec`, `crypto`, `policy`: byte encodings, keys and hashes, protocol
//!   constants.
//! * `signers`, `signed`, `messages`, `votes`: who signed, what was signed,
//!   and how signatures are aggregated and counted.
//! * `validators`, `block`, `reward`, `slash`, `macro_state`: the committee,
//!   blocks as the validator reads them, the genesis parameters and the
//!   epoch reward, the fork-proof pool, the state that survives a crash.
//! * `validator`, `micro`: the validator's reactions, and the micro block
//!   producer with its view changes.
//! * `peers`, `discovery`, `message`, `limit`, `behaviour`: the decisions of
//!   the network behaviours.
pub mod codec;
pub mod crypto;
pub mod policy;
pub mod signers;
pub mod signed;
pub mod messages;
pub mod votes;
pub mod validators;
pub mod block;
pub mod reward;
pub mod slash;
pub mod macro_state;
pub mod validator;
pub mod micro;
pub mod peers;
pub mod discovery;
pub mod message;
pub mod limit;
pub mod behaviour;

//! A governance engine: registered accounts vote on proposals with weights backed by
//! collateral, which is the square of an account's heaviest open vote; proposals close to
//! passed or failed once their deadline has come.
//!
//! `types` holds the plain data, `model` the mathematical state and what each operation does
//! to it, `pallet` the engine that carries the operations out, `bounded` the bounded list of
//! open proposals each account keeps, and `laws` the properties proved of the model.
pub mod bounded;
pub mod laws;
pub mod model;
pub mod pallet;
pub mod types;

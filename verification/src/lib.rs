//! Verified state machines for a proof-of-existence registry, a kitty
//! breeding registry and an ERC-20 token, together with the line search
//! of the command-line tool and the reply of the echo server.

pub mod cli;
pub mod echo;
pub mod erc20;
pub mod hashing;
pub mod kitties;
pub mod ledger;
pub mod origin;
pub mod poe;
pub mod text;

//! Tools for tests that drive a node from outside: the explorer's address
//! and the arguments of the command line client.

pub mod explorer;
pub mod jcli_transaction_commands;
pub mod jormungandr_config;

pub use self::explorer::Explorer;
pub use self::jcli_transaction_commands::TransactionCommands;
pub use self::jormungandr_config::JormungandrParams;

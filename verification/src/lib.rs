//! Extended Marlowe contracts: parsing, serialization, type checking,
//! one-transaction simulation, bounded safety analysis, the service that
//! answers requests about them, and the decisions of the command-line tool.
pub mod integer;
pub mod ast;
pub mod yaml;
pub mod text;
pub mod assoc;
pub mod keys;
pub mod parser;
pub mod serializer;
pub mod typecheck;
pub mod known;
pub mod sim;
pub mod money;
pub mod sim_laws;
pub mod roundtrip;
pub mod analyze;
pub mod repair;
pub mod analysis_laws;
pub mod api;
pub mod responses;
pub mod spans;
pub mod service;
pub mod analysis_service;
pub mod cli;

pub use parser::{parse_contract_yaml, ParseError};
pub use serializer::{contract_to_yaml, contract_to_yaml_string};
pub use keys::AccountId;
pub use sim::{
    preview_inputs, simulate_transaction, simulate_transaction_with_trace, Payment, PreviewInput, PreviewResult,
    SimError, SimInput, SimState, SimTransaction, SimTransactionResult, SimTransactionSuccess, TraceReduceRule,
    TraceStep, TransactionWarning,
};
pub use typecheck::{type_check, ChoiceRef, Diagnostic, PartyRef, TokenRef, TypeCheckContext, TypeCheckResult};

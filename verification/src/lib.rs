use vstd::prelude::*;

pub mod accounts;
pub mod allocation;
pub mod allocation_holdings;
pub mod amortization;
pub mod assets;
pub mod daily_brief;
pub mod dated_store;
pub mod dates;
pub mod decimal;
pub mod demo_mode;
pub mod entitlements;
pub mod goals;
pub mod health;
pub mod holdings;
pub mod mizan_error;
pub mod net_worth_snapshot;
pub mod notifications;
pub mod onboarding;
pub mod perf_budget;
pub mod plaid_ingest;
pub mod sorting;
pub mod split_adjustment;
pub mod text;
pub mod ticker_symbols;
pub mod tools;
pub mod zakat;
pub mod tool_registry;
pub mod working_context;
pub mod xlsx;

verus! {

} // verus!

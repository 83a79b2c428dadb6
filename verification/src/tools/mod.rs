//! The agent's tools: safety descriptors and the draft builders.
pub mod computation_safety;
pub mod holding_safety;
pub mod lifecycle_safety;
pub mod memory_safety;
pub mod scenario_alert_safety;
pub mod common;
pub mod env;
pub mod add_alternative_asset;
pub mod create_goal;
pub mod create_liability;
pub mod update_liability;
pub mod create_account;
pub mod resolve;
pub mod update_account;
pub mod delete_account;
pub mod delete_goal;
pub mod delete_liability;
pub mod delete_alternative_asset;
pub mod research_asset;
pub mod holdings;
pub mod delete_stock_position;
pub mod update_goal;
pub mod update_alternative_asset;

use vstd::prelude::*;

use std::sync::Arc;

use crate::tools::add_alternative_asset::AddAlternativeAssetTool;
use crate::tools::create_account::CreateAccountTool;
use crate::tools::create_goal::CreateGoalTool;
use crate::tools::create_liability::CreateLiabilityTool;
use crate::tools::delete_account::DeleteAccountTool;
use crate::tools::delete_alternative_asset::DeleteAlternativeAssetTool;
use crate::tools::delete_goal::DeleteGoalTool;
use crate::tools::delete_liability::DeleteLiabilityTool;
use crate::tools::env::AiEnvironment;
use crate::tools::holdings::GetHoldingsTool;
use crate::tools::research_asset::ResearchAssetTool;
use crate::tools::update_account::UpdateAccountTool;
use crate::tools::update_liability::UpdateLiabilityTool;

verus! {

/// Every portfolio tool, built over one environment.
pub struct ToolSet<E: AiEnvironment> {
    pub holdings: GetHoldingsTool<E>,
    pub research_asset: ResearchAssetTool<E>,
    pub create_account: CreateAccountTool<E>,
    pub update_account: UpdateAccountTool<E>,
    pub delete_account: DeleteAccountTool<E>,
    pub create_goal: CreateGoalTool<E>,
    pub delete_goal: DeleteGoalTool<E>,
    pub create_liability: CreateLiabilityTool<E>,
    pub update_liability: UpdateLiabilityTool<E>,
    pub delete_liability: DeleteLiabilityTool<E>,
    pub add_alternative_asset: AddAlternativeAssetTool<E>,
    pub delete_alternative_asset: DeleteAlternativeAssetTool<E>,
}

impl<E: AiEnvironment> ToolSet<E> {
    /// Builds every tool over `env`; the holdings listing reports in
    /// `base_currency`.
    pub fn new(env: Arc<E>, base_currency: String) -> (r: Self)
        ensures
            r.holdings.env() == env,
            r.holdings.base_currency() == base_currency@,
            r.research_asset.env() == env,
            r.create_account.env() == env,
            r.update_account.env() == env,
            r.delete_account.env() == env,
            r.create_goal.env() == env,
            r.delete_goal.env() == env,
            r.create_liability.env() == env,
            r.update_liability.env() == env,
            r.delete_liability.env() == env,
            r.add_alternative_asset.env() == env,
            r.delete_alternative_asset.env() == env,
    {
        ToolSet {
            holdings: GetHoldingsTool::new(env.clone(), base_currency),
            research_asset: ResearchAssetTool::new(env.clone()),
            create_account: CreateAccountTool::new(env.clone()),
            update_account: UpdateAccountTool::new(env.clone()),
            delete_account: DeleteAccountTool::new(env.clone()),
            create_goal: CreateGoalTool::new(env.clone()),
            delete_goal: DeleteGoalTool::new(env.clone()),
            create_liability: CreateLiabilityTool::new(env.clone()),
            update_liability: UpdateLiabilityTool::new(env.clone()),
            delete_liability: DeleteLiabilityTool::new(env.clone()),
            add_alternative_asset: AddAlternativeAssetTool::new(env.clone()),
            delete_alternative_asset: DeleteAlternativeAssetTool::new(env),
        }
    }
}

} // verus!

//! Typed model of one user-visible notification row.
use vstd::prelude::*;

use crate::text::str_eq;

verus! {

/// Stable category slug, persisted as text. Variants are only ever added.
#[derive(Debug, Clone, Copy, PartialEq, Eq, Hash, Structural)]
pub enum NotificationKind {
    /// A single position moved more than ±5% in a day.
    BigMove,
    /// Allocation drifted more than 10pp vs target.
    AllocationDrift,
    /// A goal hit a milestone (25/50/75/90/100%).
    GoalMilestone,
    /// Cash above 10% of net worth for 30+ days.
    CashDrag,
    /// A dividend or interest credit was posted by broker sync.
    DividendPosted,
    /// Portfolio hit a new all-time high (closing basis).
    NewAth,
    /// Net worth dipped more than 3% week-over-week.
    NetWorthDip,
    /// A broker, market-data or FX sync failed.
    SyncFailure,
    /// The daily two-sentence digest of the day's insights.
    AiDigest,
    /// A bond or sukuk is within a maturity-window threshold.
    BondMaturityApproaching,
    /// An FX pair material to the user's exposure moved beyond its threshold.
    FxMovedMaterially,
    /// The screening verdict of a held instrument flipped.
    ShariaStatusChanged,
    /// A Zakat-Hawl anchor is close to completion.
    ZakatHawlApproaching,
    /// An exposure exceeds the concentration-risk threshold.
    ConcentrationRisk,
    /// Idle cash with an identifiable Sharia-compatible alternative.
    CashDragOpportunity,
    /// A tax-deadline window opens.
    TaxOptimizationWindow,
}

/// The persisted slug of a kind.
pub open spec fn kind_slug(k: NotificationKind) -> Seq<char> {
    match k {
        NotificationKind::BigMove => "big_move"@,
        NotificationKind::AllocationDrift => "allocation_drift"@,
        NotificationKind::GoalMilestone => "goal_milestone"@,
        NotificationKind::CashDrag => "cash_drag"@,
        NotificationKind::DividendPosted => "dividend_posted"@,
        NotificationKind::NewAth => "new_ath"@,
        NotificationKind::NetWorthDip => "net_worth_dip"@,
        NotificationKind::SyncFailure => "sync_failure"@,
        NotificationKind::AiDigest => "ai_digest"@,
        NotificationKind::BondMaturityApproaching => "bond_maturity_approaching"@,
        NotificationKind::FxMovedMaterially => "fx_moved_materially"@,
        NotificationKind::ShariaStatusChanged => "sharia_status_changed"@,
        NotificationKind::ZakatHawlApproaching => "zakat_hawl_approaching"@,
        NotificationKind::ConcentrationRisk => "concentration_risk"@,
        NotificationKind::CashDragOpportunity => "cash_drag_opportunity"@,
        NotificationKind::TaxOptimizationWindow => "tax_optimization_window"@,
    }
}

/// The kind a persisted slug names; unknown slugs read as `BigMove`.
pub open spec fn kind_of_slug(s: Seq<char>) -> NotificationKind {
    if s == "big_move"@ {
        NotificationKind::BigMove
    } else if s == "allocation_drift"@ {
        NotificationKind::AllocationDrift
    } else if s == "goal_milestone"@ {
        NotificationKind::GoalMilestone
    } else if s == "cash_drag"@ {
        NotificationKind::CashDrag
    } else if s == "dividend_posted"@ {
        NotificationKind::DividendPosted
    } else if s == "new_ath"@ {
        NotificationKind::NewAth
    } else if s == "net_worth_dip"@ {
        NotificationKind::NetWorthDip
    } else if s == "sync_failure"@ {
        NotificationKind::SyncFailure
    } else if s == "ai_digest"@ {
        NotificationKind::AiDigest
    } else if s == "bond_maturity_approaching"@ {
        NotificationKind::BondMaturityApproaching
    } else if s == "fx_moved_materially"@ {
        NotificationKind::FxMovedMaterially
    } else if s == "sharia_status_changed"@ {
        NotificationKind::ShariaStatusChanged
    } else if s == "zakat_hawl_approaching"@ {
        NotificationKind::ZakatHawlApproaching
    } else if s == "concentration_risk"@ {
        NotificationKind::ConcentrationRisk
    } else if s == "cash_drag_opportunity"@ {
        NotificationKind::CashDragOpportunity
    } else if s == "tax_optimization_window"@ {
        NotificationKind::TaxOptimizationWindow
    } else {
        NotificationKind::BigMove
    }
}

impl NotificationKind {
    pub fn as_str(self) -> (r: &'static str)
        ensures
            r@ == kind_slug(self),
    {
        match self {
            NotificationKind::BigMove => "big_move",
            NotificationKind::AllocationDrift => "allocation_drift",
            NotificationKind::GoalMilestone => "goal_milestone",
            NotificationKind::CashDrag => "cash_drag",
            NotificationKind::DividendPosted => "dividend_posted",
            NotificationKind::NewAth => "new_ath",
            NotificationKind::NetWorthDip => "net_worth_dip",
            NotificationKind::SyncFailure => "sync_failure",
            NotificationKind::AiDigest => "ai_digest",
            NotificationKind::BondMaturityApproaching => "bond_maturity_approaching",
            NotificationKind::FxMovedMaterially => "fx_moved_materially",
            NotificationKind::ShariaStatusChanged => "sharia_status_changed",
            NotificationKind::ZakatHawlApproaching => "zakat_hawl_approaching",
            NotificationKind::ConcentrationRisk => "concentration_risk",
            NotificationKind::CashDragOpportunity => "cash_drag_opportunity",
            NotificationKind::TaxOptimizationWindow => "tax_optimization_window",
        }
    }

    /// Parses a persisted slug. Unknown values map to `BigMove`: a newer
    /// version may have written a kind this build does not know.
    pub fn from_str_lenient(s: &str) -> (r: Self)
        ensures
            r == kind_of_slug(s@),
    {
        if str_eq(s, "big_move") {
            NotificationKind::BigMove
        } else if str_eq(s, "allocation_drift") {
            NotificationKind::AllocationDrift
        } else if str_eq(s, "goal_milestone") {
            NotificationKind::GoalMilestone
        } else if str_eq(s, "cash_drag") {
            NotificationKind::CashDrag
        } else if str_eq(s, "dividend_posted") {
            NotificationKind::DividendPosted
        } else if str_eq(s, "new_ath") {
            NotificationKind::NewAth
        } else if str_eq(s, "net_worth_dip") {
            NotificationKind::NetWorthDip
        } else if str_eq(s, "sync_failure") {
            NotificationKind::SyncFailure
        } else if str_eq(s, "ai_digest") {
            NotificationKind::AiDigest
        } else if str_eq(s, "bond_maturity_approaching") {
            NotificationKind::BondMaturityApproaching
        } else if str_eq(s, "fx_moved_materially") {
            NotificationKind::FxMovedMaterially
        } else if str_eq(s, "sharia_status_changed") {
            NotificationKind::ShariaStatusChanged
        } else if str_eq(s, "zakat_hawl_approaching") {
            NotificationKind::ZakatHawlApproaching
        } else if str_eq(s, "concentration_risk") {
            NotificationKind::ConcentrationRisk
        } else if str_eq(s, "cash_drag_opportunity") {
            NotificationKind::CashDragOpportunity
        } else if str_eq(s, "tax_optimization_window") {
            NotificationKind::TaxOptimizationWindow
        } else {
            NotificationKind::BigMove
        }
    }
}

/// Reading back the slug of a kind gives the kind again.
pub proof fn lemma_kind_round_trip(k: NotificationKind)
    ensures
        kind_of_slug(kind_slug(k)) == k,
{
    match k {
        NotificationKind::BigMove => {
            reveal_strlit("big_move");
        },
        NotificationKind::AllocationDrift => {
            reveal_strlit("allocation_drift");
            reveal_strlit("big_move");
            assert("allocation_drift"@.len() != "big_move"@.len());
        },
        NotificationKind::GoalMilestone => {
            reveal_strlit("goal_milestone");
            reveal_strlit("big_move");
            assert("goal_milestone"@.len() != "big_move"@.len());
            reveal_strlit("allocation_drift");
            assert("goal_milestone"@.len() != "allocation_drift"@.len());
        },
        NotificationKind::CashDrag => {
            reveal_strlit("cash_drag");
            reveal_strlit("big_move");
            assert("cash_drag"@.len() != "big_move"@.len());
            reveal_strlit("allocation_drift");
            assert("cash_drag"@.len() != "allocation_drift"@.len());
            reveal_strlit("goal_milestone");
            assert("cash_drag"@.len() != "goal_milestone"@.len());
        },
        NotificationKind::DividendPosted => {
            reveal_strlit("dividend_posted");
            reveal_strlit("big_move");
            assert("dividend_posted"@.len() != "big_move"@.len());
            reveal_strlit("allocation_drift");
            assert("dividend_posted"@.len() != "allocation_drift"@.len());
            reveal_strlit("goal_milestone");
            assert("dividend_posted"@.len() != "goal_milestone"@.len());
            reveal_strlit("cash_drag");
            assert("dividend_posted"@.len() != "cash_drag"@.len());
        },
        NotificationKind::NewAth => {
            reveal_strlit("new_ath");
            reveal_strlit("big_move");
            assert("new_ath"@.len() != "big_move"@.len());
            reveal_strlit("allocation_drift");
            assert("new_ath"@.len() != "allocation_drift"@.len());
            reveal_strlit("goal_milestone");
            assert("new_ath"@.len() != "goal_milestone"@.len());
            reveal_strlit("cash_drag");
            assert("new_ath"@.len() != "cash_drag"@.len());
            reveal_strlit("dividend_posted");
            assert("new_ath"@.len() != "dividend_posted"@.len());
        },
        NotificationKind::NetWorthDip => {
            reveal_strlit("net_worth_dip");
            reveal_strlit("big_move");
            assert("net_worth_dip"@.len() != "big_move"@.len());
            reveal_strlit("allocation_drift");
            assert("net_worth_dip"@.len() != "allocation_drift"@.len());
            reveal_strlit("goal_milestone");
            assert("net_worth_dip"@.len() != "goal_milestone"@.len());
            reveal_strlit("cash_drag");
            assert("net_worth_dip"@.len() != "cash_drag"@.len());
            reveal_strlit("dividend_posted");
            assert("net_worth_dip"@.len() != "dividend_posted"@.len());
            reveal_strlit("new_ath");
            assert("net_worth_dip"@.len() != "new_ath"@.len());
        },
        NotificationKind::SyncFailure => {
            reveal_strlit("sync_failure");
            reveal_strlit("big_move");
            assert("sync_failure"@.len() != "big_move"@.len());
            reveal_strlit("allocation_drift");
            assert("sync_failure"@.len() != "allocation_drift"@.len());
            reveal_strlit("goal_milestone");
            assert("sync_failure"@.len() != "goal_milestone"@.len());
            reveal_strlit("cash_drag");
            assert("sync_failure"@.len() != "cash_drag"@.len());
            reveal_strlit("dividend_posted");
            assert("sync_failure"@.len() != "dividend_posted"@.len());
            reveal_strlit("new_ath");
            assert("sync_failure"@.len() != "new_ath"@.len());
            reveal_strlit("net_worth_dip");
            assert("sync_failure"@.len() != "net_worth_dip"@.len());
        },
        NotificationKind::AiDigest => {
            reveal_strlit("ai_digest");
            reveal_strlit("big_move");
            assert("ai_digest"@.len() != "big_move"@.len());
            reveal_strlit("allocation_drift");
            assert("ai_digest"@.len() != "allocation_drift"@.len());
            reveal_strlit("goal_milestone");
            assert("ai_digest"@.len() != "goal_milestone"@.len());
            reveal_strlit("cash_drag");
            assert("ai_digest"@[0] != "cash_drag"@[0]);
            reveal_strlit("dividend_posted");
            assert("ai_digest"@.len() != "dividend_posted"@.len());
            reveal_strlit("new_ath");
            assert("ai_digest"@.len() != "new_ath"@.len());
            reveal_strlit("net_worth_dip");
            assert("ai_digest"@.len() != "net_worth_dip"@.len());
            reveal_strlit("sync_failure");
            assert("ai_digest"@.len() != "sync_failure"@.len());
        },
        NotificationKind::BondMaturityApproaching => {
            reveal_strlit("bond_maturity_approaching");
            reveal_strlit("big_move");
            assert("bond_maturity_approaching"@.len() != "big_move"@.len());
            reveal_strlit("allocation_drift");
            assert("bond_maturity_approaching"@.len() != "allocation_drift"@.len());
            reveal_strlit("goal_milestone");
            assert("bond_maturity_approaching"@.len() != "goal_milestone"@.len());
            reveal_strlit("cash_drag");
            assert("bond_maturity_approaching"@.len() != "cash_drag"@.len());
            reveal_strlit("dividend_posted");
            assert("bond_maturity_approaching"@.len() != "dividend_posted"@.len());
            reveal_strlit("new_ath");
            assert("bond_maturity_approaching"@.len() != "new_ath"@.len());
            reveal_strlit("net_worth_dip");
            assert("bond_maturity_approaching"@.len() != "net_worth_dip"@.len());
            reveal_strlit("sync_failure");
            assert("bond_maturity_approaching"@.len() != "sync_failure"@.len());
            reveal_strlit("ai_digest");
            assert("bond_maturity_approaching"@.len() != "ai_digest"@.len());
        },
        NotificationKind::FxMovedMaterially => {
            reveal_strlit("fx_moved_materially");
            reveal_strlit("big_move");
            assert("fx_moved_materially"@.len() != "big_move"@.len());
            reveal_strlit("allocation_drift");
            assert("fx_moved_materially"@.len() != "allocation_drift"@.len());
            reveal_strlit("goal_milestone");
            assert("fx_moved_materially"@.len() != "goal_milestone"@.len());
            reveal_strlit("cash_drag");
            assert("fx_moved_materially"@.len() != "cash_drag"@.len());
            reveal_strlit("dividend_posted");
            assert("fx_moved_materially"@.len() != "dividend_posted"@.len());
            reveal_strlit("new_ath");
            assert("fx_moved_materially"@.len() != "new_ath"@.len());
            reveal_strlit("net_worth_dip");
            assert("fx_moved_materially"@.len() != "net_worth_dip"@.len());
            reveal_strlit("sync_failure");
            assert("fx_moved_materially"@.len() != "sync_failure"@.len());
            reveal_strlit("ai_digest");
            assert("fx_moved_materially"@.len() != "ai_digest"@.len());
            reveal_strlit("bond_maturity_approaching");
            assert("fx_moved_materially"@.len() != "bond_maturity_approaching"@.len());
        },
        NotificationKind::ShariaStatusChanged => {
            reveal_strlit("sharia_status_changed");
            reveal_strlit("big_move");
            assert("sharia_status_changed"@.len() != "big_move"@.len());
            reveal_strlit("allocation_drift");
            assert("sharia_status_changed"@.len() != "allocation_drift"@.len());
            reveal_strlit("goal_milestone");
            assert("sharia_status_changed"@.len() != "goal_milestone"@.len());
            reveal_strlit("cash_drag");
            assert("sharia_status_changed"@.len() != "cash_drag"@.len());
            reveal_strlit("dividend_posted");
            assert("sharia_status_changed"@.len() != "dividend_posted"@.len());
            reveal_strlit("new_ath");
            assert("sharia_status_changed"@.len() != "new_ath"@.len());
            reveal_strlit("net_worth_dip");
            assert("sharia_status_changed"@.len() != "net_worth_dip"@.len());
            reveal_strlit("sync_failure");
            assert("sharia_status_changed"@.len() != "sync_failure"@.len());
            reveal_strlit("ai_digest");
            assert("sharia_status_changed"@.len() != "ai_digest"@.len());
            reveal_strlit("bond_maturity_approaching");
            assert("sharia_status_changed"@.len() != "bond_maturity_approaching"@.len());
            reveal_strlit("fx_moved_materially");
            assert("sharia_status_changed"@.len() != "fx_moved_materially"@.len());
        },
        NotificationKind::ZakatHawlApproaching => {
            reveal_strlit("zakat_hawl_approaching");
            reveal_strlit("big_move");
            assert("zakat_hawl_approaching"@.len() != "big_move"@.len());
            reveal_strlit("allocation_drift");
            assert("zakat_hawl_approaching"@.len() != "allocation_drift"@.len());
            reveal_strlit("goal_milestone");
            assert("zakat_hawl_approaching"@.len() != "goal_milestone"@.len());
            reveal_strlit("cash_drag");
            assert("zakat_hawl_approaching"@.len() != "cash_drag"@.len());
            reveal_strlit("dividend_posted");
            assert("zakat_hawl_approaching"@.len() != "dividend_posted"@.len());
            reveal_strlit("new_ath");
            assert("zakat_hawl_approaching"@.len() != "new_ath"@.len());
            reveal_strlit("net_worth_dip");
            assert("zakat_hawl_approaching"@.len() != "net_worth_dip"@.len());
            reveal_strlit("sync_failure");
            assert("zakat_hawl_approaching"@.len() != "sync_failure"@.len());
            reveal_strlit("ai_digest");
            assert("zakat_hawl_approaching"@.len() != "ai_digest"@.len());
            reveal_strlit("bond_maturity_approaching");
            assert("zakat_hawl_approaching"@.len() != "bond_maturity_approaching"@.len());
            reveal_strlit("fx_moved_materially");
            assert("zakat_hawl_approaching"@.len() != "fx_moved_materially"@.len());
            reveal_strlit("sharia_status_changed");
            assert("zakat_hawl_approaching"@.len() != "sharia_status_changed"@.len());
        },
        NotificationKind::ConcentrationRisk => {
            reveal_strlit("concentration_risk");
            reveal_strlit("big_move");
            assert("concentration_risk"@.len() != "big_move"@.len());
            reveal_strlit("allocation_drift");
            assert("concentration_risk"@.len() != "allocation_drift"@.len());
            reveal_strlit("goal_milestone");
            assert("concentration_risk"@.len() != "goal_milestone"@.len());
            reveal_strlit("cash_drag");
            assert("concentration_risk"@.len() != "cash_drag"@.len());
            reveal_strlit("dividend_posted");
            assert("concentration_risk"@.len() != "dividend_posted"@.len());
            reveal_strlit("new_ath");
            assert("concentration_risk"@.len() != "new_ath"@.len());
            reveal_strlit("net_worth_dip");
            assert("concentration_risk"@.len() != "net_worth_dip"@.len());
            reveal_strlit("sync_failure");
            assert("concentration_risk"@.len() != "sync_failure"@.len());
            reveal_strlit("ai_digest");
            assert("concentration_risk"@.len() != "ai_digest"@.len());
            reveal_strlit("bond_maturity_approaching");
            assert("concentration_risk"@.len() != "bond_maturity_approaching"@.len());
            reveal_strlit("fx_moved_materially");
            assert("concentration_risk"@.len() != "fx_moved_materially"@.len());
            reveal_strlit("sharia_status_changed");
            assert("concentration_risk"@.len() != "sharia_status_changed"@.len());
            reveal_strlit("zakat_hawl_approaching");
            assert("concentration_risk"@.len() != "zakat_hawl_approaching"@.len());
        },
        NotificationKind::CashDragOpportunity => {
            reveal_strlit("cash_drag_opportunity");
            reveal_strlit("big_move");
            assert("cash_drag_opportunity"@.len() != "big_move"@.len());
            reveal_strlit("allocation_drift");
            assert("cash_drag_opportunity"@.len() != "allocation_drift"@.len());
            reveal_strlit("goal_milestone");
            assert("cash_drag_opportunity"@.len() != "goal_milestone"@.len());
            reveal_strlit("cash_drag");
            assert("cash_drag_opportunity"@.len() != "cash_drag"@.len());
            reveal_strlit("dividend_posted");
            assert("cash_drag_opportunity"@.len() != "dividend_posted"@.len());
            reveal_strlit("new_ath");
            assert("cash_drag_opportunity"@.len() != "new_ath"@.len());
            reveal_strlit("net_worth_dip");
            assert("cash_drag_opportunity"@.len() != "net_worth_dip"@.len());
            reveal_strlit("sync_failure");
            assert("cash_drag_opportunity"@.len() != "sync_failure"@.len());
            reveal_strlit("ai_digest");
            assert("cash_drag_opportunity"@.len() != "ai_digest"@.len());
            reveal_strlit("bond_maturity_approaching");
            assert("cash_drag_opportunity"@.len() != "bond_maturity_approaching"@.len());
            reveal_strlit("fx_moved_materially");
            assert("cash_drag_opportunity"@.len() != "fx_moved_materially"@.len());
            reveal_strlit("sharia_status_changed");
            assert("cash_drag_opportunity"@[0] != "sharia_status_changed"@[0]);
            reveal_strlit("zakat_hawl_approaching");
            assert("cash_drag_opportunity"@.len() != "zakat_hawl_approaching"@.len());
            reveal_strlit("concentration_risk");
            assert("cash_drag_opportunity"@.len() != "concentration_risk"@.len());
        },
        NotificationKind::TaxOptimizationWindow => {
            reveal_strlit("tax_optimization_window");
            reveal_strlit("big_move");
            assert("tax_optimization_window"@.len() != "big_move"@.len());
            reveal_strlit("allocation_drift");
            assert("tax_optimization_window"@.len() != "allocation_drift"@.len());
            reveal_strlit("goal_milestone");
            assert("tax_optimization_window"@.len() != "goal_milestone"@.len());
            reveal_strlit("cash_drag");
            assert("tax_optimization_window"@.len() != "cash_drag"@.len());
            reveal_strlit("dividend_posted");
            assert("tax_optimization_window"@.len() != "dividend_posted"@.len());
            reveal_strlit("new_ath");
            assert("tax_optimization_window"@.len() != "new_ath"@.len());
            reveal_strlit("net_worth_dip");
            assert("tax_optimization_window"@.len() != "net_worth_dip"@.len());
            reveal_strlit("sync_failure");
            assert("tax_optimization_window"@.len() != "sync_failure"@.len());
            reveal_strlit("ai_digest");
            assert("tax_optimization_window"@.len() != "ai_digest"@.len());
            reveal_strlit("bond_maturity_approaching");
            assert("tax_optimization_window"@.len() != "bond_maturity_approaching"@.len());
            reveal_strlit("fx_moved_materially");
            assert("tax_optimization_window"@.len() != "fx_moved_materially"@.len());
            reveal_strlit("sharia_status_changed");
            assert("tax_optimization_window"@.len() != "sharia_status_changed"@.len());
            reveal_strlit("zakat_hawl_approaching");
            assert("tax_optimization_window"@.len() != "zakat_hawl_approaching"@.len());
            reveal_strlit("concentration_risk");
            assert("tax_optimization_window"@.len() != "concentration_risk"@.len());
            reveal_strlit("cash_drag_opportunity");
            assert("tax_optimization_window"@.len() != "cash_drag_opportunity"@.len());
        },
    }
}

/// How prominently a row is surfaced.
#[derive(Debug, Clone, Copy, PartialEq, Eq, Hash, Structural)]
pub enum NotificationSeverity {
    Info,
    Success,
    Warning,
    Critical,
}

pub open spec fn severity_slug(s: NotificationSeverity) -> Seq<char> {
    match s {
        NotificationSeverity::Info => "info"@,
        NotificationSeverity::Success => "success"@,
        NotificationSeverity::Warning => "warning"@,
        NotificationSeverity::Critical => "critical"@,
    }
}

/// Unknown slugs read as `Info`.
pub open spec fn severity_of_slug(s: Seq<char>) -> NotificationSeverity {
    if s == "info"@ {
        NotificationSeverity::Info
    } else if s == "success"@ {
        NotificationSeverity::Success
    } else if s == "warning"@ {
        NotificationSeverity::Warning
    } else if s == "critical"@ {
        NotificationSeverity::Critical
    } else {
        NotificationSeverity::Info
    }
}

impl NotificationSeverity {
    pub fn as_str(self) -> (r: &'static str)
        ensures
            r@ == severity_slug(self),
    {
        match self {
            NotificationSeverity::Info => "info",
            NotificationSeverity::Success => "success",
            NotificationSeverity::Warning => "warning",
            NotificationSeverity::Critical => "critical",
        }
    }

    pub fn from_str_lenient(s: &str) -> (r: Self)
        ensures
            r == severity_of_slug(s@),
    {
        if str_eq(s, "info") {
            NotificationSeverity::Info
        } else if str_eq(s, "success") {
            NotificationSeverity::Success
        } else if str_eq(s, "warning") {
            NotificationSeverity::Warning
        } else if str_eq(s, "critical") {
            NotificationSeverity::Critical
        } else {
            NotificationSeverity::Info
        }
    }

    /// Only `Warning` and `Critical` fire a native OS notification.
    pub fn should_push_to_os(self) -> (r: bool)
        ensures
            r == (self == NotificationSeverity::Warning || self == NotificationSeverity::Critical),
    {
        match self {
            NotificationSeverity::Warning | NotificationSeverity::Critical => true,
            _ => false,
        }
    }
}

/// Reading back the slug of a severity gives the severity again.
pub proof fn lemma_severity_round_trip(s: NotificationSeverity)
    ensures
        severity_of_slug(severity_slug(s)) == s,
{
    match s {
        NotificationSeverity::Info => {
            reveal_strlit("info");
        },
        NotificationSeverity::Success => {
            reveal_strlit("success");
            reveal_strlit("info");
            assert("success"@.len() != "info"@.len());
        },
        NotificationSeverity::Warning => {
            reveal_strlit("warning");
            reveal_strlit("info");
            assert("warning"@.len() != "info"@.len());
            reveal_strlit("success");
            assert("warning"@[0] != "success"@[0]);
        },
        NotificationSeverity::Critical => {
            reveal_strlit("critical");
            reveal_strlit("info");
            assert("critical"@.len() != "info"@.len());
            reveal_strlit("success");
            assert("critical"@.len() != "success"@.len());
            reveal_strlit("warning");
            assert("critical"@.len() != "warning"@.len());
        },
    }
}

/// One notification row; timestamps are milliseconds since the epoch.
#[derive(Debug, Clone)]
pub struct Notification {
    pub id: String,
    pub kind: NotificationKind,
    pub severity: NotificationSeverity,
    pub title: String,
    pub body: String,
    pub deep_link: Option<String>,
    /// Free-form JSON the emitting rule attaches.
    pub payload_json: String,
    /// Idempotency key: at most one row per key.
    pub dedupe_key: String,
    pub created_at_ms: i64,
    pub read_at_ms: Option<i64>,
    pub dismissed_at_ms: Option<i64>,
}

impl Notification {
    pub open spec fn spec_is_unread(&self) -> bool {
        self.read_at_ms is None && self.dismissed_at_ms is None
    }

    /// A field-by-field copy.
    pub fn duplicate(&self) -> (r: Self)
        ensures
            r == *self,
    {
        Notification {
            id: self.id.clone(),
            kind: self.kind,
            severity: self.severity,
            title: self.title.clone(),
            body: self.body.clone(),
            deep_link: match &self.deep_link {
                Some(l) => Some(l.clone()),
                None => None,
            },
            payload_json: self.payload_json.clone(),
            dedupe_key: self.dedupe_key.clone(),
            created_at_ms: self.created_at_ms,
            read_at_ms: self.read_at_ms,
            dismissed_at_ms: self.dismissed_at_ms,
        }
    }

    #[verifier::when_used_as_spec(spec_is_unread)]
    pub fn is_unread(&self) -> (r: bool)
        ensures
            r == self.spec_is_unread(),
    {
        self.read_at_ms.is_none() && self.dismissed_at_ms.is_none()
    }
}

/// One page of the bell panel.
#[derive(Debug, Clone)]
pub struct NotificationsPage {
    pub items: Vec<Notification>,
    /// Unread rows among all active ones, not only this page.
    pub unread_count: i64,
}

} // verus!

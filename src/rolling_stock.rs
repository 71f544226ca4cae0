//! Rolling stock keys, errors and the lock check.
use vstd::prelude::*;

verus! {

/// A rolling stock, named by its identifier or by its name.
#[derive(Debug, Clone)]
pub enum RollingStockKey {
    Id(i64),
    Name(String),
}

/// A train schedule that uses a rolling stock, with the scenario, study and
/// project it belongs to.
#[derive(Debug, Clone)]
pub struct TrainScheduleScenarioStudyProject {
    pub train_schedule_id: i64,
    pub train_name: String,
    pub project_id: i64,
    pub project_name: String,
    pub study_id: i64,
    pub study_name: String,
    pub scenario_id: i64,
    pub scenario_name: String,
}

/// Why a rolling stock request failed.
#[derive(Debug)]
pub enum RollingStockError {
    CannotReadImage,
    CannotCreateCompoundImage,
    KeyNotFound { rolling_stock_key: RollingStockKey },
    NameAlreadyUsed { name: String },
    RollingStockIsLocked { rolling_stock_id: i64 },
    RollingStockIsUsed { rolling_stock_id: i64, usage: Vec<TrainScheduleScenarioStudyProject> },
    BasePowerClassEmpty,
}

impl RollingStockError {
    /// The HTTP status that reports this error.
    pub fn get_status(&self) -> (r: u16)
        ensures
            r == match self {
                RollingStockError::CannotReadImage => 500u16,
                RollingStockError::CannotCreateCompoundImage => 500u16,
                RollingStockError::KeyNotFound { .. } => 404u16,
                RollingStockError::NameAlreadyUsed { .. } => 400u16,
                RollingStockError::RollingStockIsLocked { .. } => 400u16,
                RollingStockError::RollingStockIsUsed { .. } => 409u16,
                RollingStockError::BasePowerClassEmpty => 400u16,
            },
    {
        match self {
            RollingStockError::CannotReadImage => 500,
            RollingStockError::CannotCreateCompoundImage => 500,
            RollingStockError::KeyNotFound { .. } => 404,
            RollingStockError::NameAlreadyUsed { .. } => 400,
            RollingStockError::RollingStockIsLocked { .. } => 400,
            RollingStockError::RollingStockIsUsed { .. } => 409,
            RollingStockError::BasePowerClassEmpty => 400,
        }
    }
}

/// The path parameter that names a rolling stock by identifier.
#[derive(Debug, Clone, Copy)]
pub struct RollingStockIdParam {
    pub rolling_stock_id: i64,
}

/// The path parameter that names a rolling stock by name.
#[derive(Debug, Clone)]
pub struct RollingStockNameParam {
    pub rolling_stock_name: String,
}

/// What the lock check reads of a rolling stock.
#[derive(Debug, Clone)]
pub struct RollingStock {
    pub id: i64,
    pub name: String,
    pub locked: bool,
}

/// Fails with `RollingStockIsLocked` exactly when the rolling stock is
/// locked.
pub fn assert_rolling_stock_unlocked(rolling_stock: &RollingStock) -> (r: Result<(), RollingStockError>)
    ensures
        r is Err <==> rolling_stock.locked,
        r matches Err(e) ==> e == (RollingStockError::RollingStockIsLocked { rolling_stock_id: rolling_stock.id }),
{
    if rolling_stock.locked {
        return Err(RollingStockError::RollingStockIsLocked { rolling_stock_id: rolling_stock.id });
    }
    Ok(())
}

} // verus!

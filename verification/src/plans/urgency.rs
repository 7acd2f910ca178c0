//! Execution urgency, independent from valuation and direction scoring, and
//! the pause / recovery assessments.
use vstd::prelude::*;

use super::state::{PauseReason, Urgency};
use crate::ids::Side;

verus! {

pub const URGENCY_POLICY_VERSION: u32 = 1;

#[derive(Clone, Copy, Debug, Eq, PartialEq, Structural)]
pub enum PatienceStyle {
    LongTerm,
    DeepValue,
    Other,
}

#[derive(Debug, Eq, PartialEq)]
pub enum PauseAssessment {
    Clear,
    Unavailable { reason: String },
    PauseAndRequestCancel(PauseReason),
}

impl Clone for PauseAssessment {
    fn clone(&self) -> (r: Self)
        ensures
            r == *self,
    {
        match self {
            PauseAssessment::Clear => PauseAssessment::Clear,
            PauseAssessment::Unavailable { reason } => PauseAssessment::Unavailable {
                reason: reason.clone(),
            },
            PauseAssessment::PauseAndRequestCancel(r) => PauseAssessment::PauseAndRequestCancel(*r),
        }
    }
}

impl PauseAssessment {
    pub fn is_pause_requested(&self) -> (r: bool)
        ensures
            r == (*self is PauseAndRequestCancel),
    {
        match self {
            PauseAssessment::PauseAndRequestCancel(_) => true,
            _ => false,
        }
    }
}

#[derive(Clone, Debug, Eq, PartialEq)]
pub struct UrgencyInputs {
    pub side: Side,
    pub return_30min_bp: Option<i32>,
    pub return_1min_bp: Option<i32>,
    pub risk_pressure_pause: bool,
    pub adverse_selection_pause: bool,
    pub risk_reduction_active: bool,
    pub account_drawdown_bp: Option<u32>,
    pub remaining_trading_days: u32,
    pub confidence_bp: u32,
    pub style: PatienceStyle,
}

#[derive(Clone, Copy, Debug, Eq, PartialEq, Structural)]
pub enum UrgencyReason {
    RiskReductionDrawdown,
    HorizonDeadline,
    LowConfidence,
    PatientStyle,
    DefaultNormal,
}

#[derive(Debug, Eq, PartialEq)]
pub struct UrgencyAssessment {
    pub urgency: Urgency,
    pub reason: UrgencyReason,
    pub pause: PauseAssessment,
}

#[derive(Debug, Eq, PartialEq)]
pub struct RecoveryInputs {
    pub is_next_own_observation: bool,
    pub pause: PauseAssessment,
    pub signal_score_bp: i32,
}

#[derive(Clone, Copy, Debug, Eq, PartialEq, Structural)]
pub enum RecoveryAssessment {
    WaitForOwnObservation,
    RemainPaused,
    Resume,
    ReviseOrTerminate,
}

#[derive(Clone, Debug, Eq, PartialEq)]
pub enum UrgencyError {
    UnsupportedPolicyVersion { value: u32, expected: u32 },
    InvalidPolicy { field: &'static str, value: i64 },
    InvalidInput { field: &'static str, value: i64 },
}

/// Versioned, validated urgency thresholds.
#[derive(Clone, Copy, Debug, Eq, PartialEq, Structural)]
pub struct UrgencyPolicy {
    pub policy_version: u32,
    pub drop_30min_threshold_bp: i32,
    pub drop_1min_threshold_bp: i32,
    pub urgent_drawdown_threshold_bp: u32,
    pub patient_confidence_threshold_bp: u32,
    pub urgent_remaining_trading_days: u32,
    pub resume_signal_threshold_bp: i32,
}

/// The first invalid field of an urgency policy, in field order.
pub open spec fn spec_urgency_policy_error(p: UrgencyPolicy) -> Option<UrgencyError> {
    if p.policy_version != URGENCY_POLICY_VERSION {
        Some(UrgencyError::UnsupportedPolicyVersion { value: p.policy_version, expected: URGENCY_POLICY_VERSION })
    } else if !(p.drop_30min_threshold_bp < 0) {
        Some(UrgencyError::InvalidPolicy { field: "drop_30min_threshold_bp", value: p.drop_30min_threshold_bp as i64 })
    } else if !(p.drop_1min_threshold_bp < 0) {
        Some(UrgencyError::InvalidPolicy { field: "drop_1min_threshold_bp", value: p.drop_1min_threshold_bp as i64 })
    } else if !(p.urgent_drawdown_threshold_bp <= 10_000) {
        Some(
            UrgencyError::InvalidPolicy {
                field: "urgent_drawdown_threshold_bp",
                value: p.urgent_drawdown_threshold_bp as i64,
            },
        )
    } else if !(p.patient_confidence_threshold_bp <= 10_000) {
        Some(
            UrgencyError::InvalidPolicy {
                field: "patient_confidence_threshold_bp",
                value: p.patient_confidence_threshold_bp as i64,
            },
        )
    } else if !(p.urgent_remaining_trading_days > 0) {
        Some(
            UrgencyError::InvalidPolicy {
                field: "urgent_remaining_trading_days",
                value: p.urgent_remaining_trading_days as i64,
            },
        )
    } else if !(0 <= p.resume_signal_threshold_bp <= 10_000) {
        Some(
            UrgencyError::InvalidPolicy {
                field: "resume_signal_threshold_bp",
                value: p.resume_signal_threshold_bp as i64,
            },
        )
    } else {
        None
    }
}

impl UrgencyPolicy {
    /// The default thresholds.
    pub fn default_policy() -> (p: UrgencyPolicy)
        ensures
            p.policy_version == URGENCY_POLICY_VERSION,
            p.drop_30min_threshold_bp == -300,
            p.drop_1min_threshold_bp == -75,
            p.urgent_drawdown_threshold_bp == 2000,
            p.patient_confidence_threshold_bp == 4000,
            p.urgent_remaining_trading_days == 1,
            p.resume_signal_threshold_bp == 2000,
            spec_urgency_policy_error(p) is None,
    {
        UrgencyPolicy {
            policy_version: URGENCY_POLICY_VERSION,
            drop_30min_threshold_bp: -300,
            drop_1min_threshold_bp: -75,
            urgent_drawdown_threshold_bp: 2000,
            patient_confidence_threshold_bp: 4000,
            urgent_remaining_trading_days: 1,
            resume_signal_threshold_bp: 2000,
        }
    }

    pub fn validate(&self) -> (r: Result<(), UrgencyError>)
        ensures
            r == (match spec_urgency_policy_error(*self) {
                Some(e) => Err(e),
                None => Ok(()),
            }),
    {
        if self.policy_version != URGENCY_POLICY_VERSION {
            return Err(
                UrgencyError::UnsupportedPolicyVersion {
                    value: self.policy_version,
                    expected: URGENCY_POLICY_VERSION,
                },
            );
        }
        if !(self.drop_30min_threshold_bp < 0) {
            return Err(
                UrgencyError::InvalidPolicy {
                    field: "drop_30min_threshold_bp",
                    value: self.drop_30min_threshold_bp as i64,
                },
            );
        }
        if !(self.drop_1min_threshold_bp < 0) {
            return Err(
                UrgencyError::InvalidPolicy {
                    field: "drop_1min_threshold_bp",
                    value: self.drop_1min_threshold_bp as i64,
                },
            );
        }
        if !(self.urgent_drawdown_threshold_bp <= 10_000) {
            return Err(
                UrgencyError::InvalidPolicy {
                    field: "urgent_drawdown_threshold_bp",
                    value: self.urgent_drawdown_threshold_bp as i64,
                },
            );
        }
        if !(self.patient_confidence_threshold_bp <= 10_000) {
            return Err(
                UrgencyError::InvalidPolicy {
                    field: "patient_confidence_threshold_bp",
                    value: self.patient_confidence_threshold_bp as i64,
                },
            );
        }
        if !(self.urgent_remaining_trading_days > 0) {
            return Err(
                UrgencyError::InvalidPolicy {
                    field: "urgent_remaining_trading_days",
                    value: self.urgent_remaining_trading_days as i64,
                },
            );
        }
        if !(0 <= self.resume_signal_threshold_bp && self.resume_signal_threshold_bp <= 10_000) {
            return Err(
                UrgencyError::InvalidPolicy {
                    field: "resume_signal_threshold_bp",
                    value: self.resume_signal_threshold_bp as i64,
                },
            );
        }
        Ok(())
    }
}

/// The first invalid input: confidence, drawdown, then the two returns.
pub open spec fn spec_inputs_error(inputs: UrgencyInputs) -> Option<UrgencyError> {
    if inputs.confidence_bp > 10_000 {
        Some(UrgencyError::InvalidInput { field: "confidence_bp", value: inputs.confidence_bp as i64 })
    } else if inputs.account_drawdown_bp matches Some(d) && d > 10_000 {
        Some(UrgencyError::InvalidInput { field: "account_drawdown_bp", value: inputs.account_drawdown_bp->Some_0 as i64 })
    } else if inputs.return_30min_bp matches Some(b) && !(-10_000 <= b <= 10_000) {
        Some(UrgencyError::InvalidInput { field: "return_30min_bp", value: inputs.return_30min_bp->Some_0 as i64 })
    } else if inputs.return_1min_bp matches Some(b) && !(-10_000 <= b <= 10_000) {
        Some(UrgencyError::InvalidInput { field: "return_1min_bp", value: inputs.return_1min_bp->Some_0 as i64 })
    } else {
        None
    }
}

pub fn validate_inputs(inputs: &UrgencyInputs) -> (r: Result<(), UrgencyError>)
    ensures
        r == (match spec_inputs_error(*inputs) {
            Some(e) => Err(e),
            None => Ok(()),
        }),
{
    if inputs.confidence_bp > 10_000 {
        return Err(UrgencyError::InvalidInput { field: "confidence_bp", value: inputs.confidence_bp as i64 });
    }
    if let Some(d) = inputs.account_drawdown_bp {
        if d > 10_000 {
            return Err(UrgencyError::InvalidInput { field: "account_drawdown_bp", value: d as i64 });
        }
    }
    if let Some(b) = inputs.return_30min_bp {
        if !(-10_000 <= b && b <= 10_000) {
            return Err(UrgencyError::InvalidInput { field: "return_30min_bp", value: b as i64 });
        }
    }
    if let Some(b) = inputs.return_1min_bp {
        if !(-10_000 <= b && b <= 10_000) {
            return Err(UrgencyError::InvalidInput { field: "return_1min_bp", value: b as i64 });
        }
    }
    Ok(())
}

/// The pause assessment: explicit pressure flags first; a buyer pauses when
/// both the 30-minute and 1-minute drops reach their thresholds; a missing
/// return makes the assessment unavailable; a seller is clear.
pub open spec fn spec_pause_ok(p: PauseAssessment, inputs: UrgencyInputs, policy: UrgencyPolicy) -> bool {
    if inputs.risk_pressure_pause {
        p == PauseAssessment::PauseAndRequestCancel(PauseReason::RiskPressure)
    } else if inputs.adverse_selection_pause {
        p == PauseAssessment::PauseAndRequestCancel(PauseReason::AdverseSelection)
    } else if inputs.side == Side::Buy {
        match (inputs.return_30min_bp, inputs.return_1min_bp) {
            (Some(thirty), Some(one)) => if thirty <= policy.drop_30min_threshold_bp && one
                <= policy.drop_1min_threshold_bp {
                p == PauseAssessment::PauseAndRequestCancel(PauseReason::IntradayDropAcceleration)
            } else {
                p == PauseAssessment::Clear
            },
            (None, Some(_)) => p matches PauseAssessment::Unavailable { reason } && reason@
                == "missing 30-minute return"@,
            (Some(_), None) => p matches PauseAssessment::Unavailable { reason } && reason@
                == "missing 1-minute return"@,
            (None, None) => p matches PauseAssessment::Unavailable { reason } && reason@
                == "missing 30-minute and 1-minute returns"@,
        }
    } else {
        p == PauseAssessment::Clear
    }
}

/// Urgency and its reason: risk reduction under drawdown, then the horizon
/// deadline, then low confidence, then the patience style.
pub open spec fn spec_urgency(inputs: UrgencyInputs, policy: UrgencyPolicy) -> (Urgency, UrgencyReason) {
    if inputs.risk_reduction_active && (inputs.account_drawdown_bp matches Some(d) && d
        >= policy.urgent_drawdown_threshold_bp) {
        (Urgency::Urgent, UrgencyReason::RiskReductionDrawdown)
    } else if inputs.remaining_trading_days <= policy.urgent_remaining_trading_days {
        (Urgency::Urgent, UrgencyReason::HorizonDeadline)
    } else if inputs.confidence_bp < policy.patient_confidence_threshold_bp {
        (Urgency::Patient, UrgencyReason::LowConfidence)
    } else {
        match inputs.style {
            PatienceStyle::LongTerm | PatienceStyle::DeepValue => (Urgency::Patient, UrgencyReason::PatientStyle),
            PatienceStyle::Other => (Urgency::Normal, UrgencyReason::DefaultNormal),
        }
    }
}

pub fn assess_urgency(inputs: &UrgencyInputs, policy: &UrgencyPolicy) -> (r: Result<UrgencyAssessment, UrgencyError>)
    ensures
        match r {
            Ok(a) => spec_urgency_policy_error(*policy) is None && spec_inputs_error(*inputs) is None
                && spec_pause_ok(a.pause, *inputs, *policy) && (a.urgency, a.reason) == spec_urgency(
                *inputs,
                *policy,
            ),
            Err(e) => if spec_urgency_policy_error(*policy) is Some {
                spec_urgency_policy_error(*policy) == Some(e)
            } else {
                spec_inputs_error(*inputs) == Some(e)
            },
        },
{
    policy.validate()?;
    validate_inputs(inputs)?;
    let pause = if inputs.risk_pressure_pause {
        PauseAssessment::PauseAndRequestCancel(PauseReason::RiskPressure)
    } else if inputs.adverse_selection_pause {
        PauseAssessment::PauseAndRequestCancel(PauseReason::AdverseSelection)
    } else if inputs.side == Side::Buy {
        match (inputs.return_30min_bp, inputs.return_1min_bp) {
            (Some(thirty), Some(one)) => if thirty <= policy.drop_30min_threshold_bp && one
                <= policy.drop_1min_threshold_bp {
                PauseAssessment::PauseAndRequestCancel(PauseReason::IntradayDropAcceleration)
            } else {
                PauseAssessment::Clear
            },
            (None, Some(_)) => PauseAssessment::Unavailable {
                reason: "missing 30-minute return".to_owned(),
            },
            (Some(_), None) => PauseAssessment::Unavailable {
                reason: "missing 1-minute return".to_owned(),
            },
            (None, None) => PauseAssessment::Unavailable {
                reason: "missing 30-minute and 1-minute returns".to_owned(),
            },
        }
    } else {
        PauseAssessment::Clear
    };
    let drawdown_urgent = match inputs.account_drawdown_bp {
        Some(d) => d >= policy.urgent_drawdown_threshold_bp,
        None => false,
    };
    let (urgency, reason) = if inputs.risk_reduction_active && drawdown_urgent {
        (Urgency::Urgent, UrgencyReason::RiskReductionDrawdown)
    } else if inputs.remaining_trading_days <= policy.urgent_remaining_trading_days {
        (Urgency::Urgent, UrgencyReason::HorizonDeadline)
    } else if inputs.confidence_bp < policy.patient_confidence_threshold_bp {
        (Urgency::Patient, UrgencyReason::LowConfidence)
    } else {
        match inputs.style {
            PatienceStyle::LongTerm | PatienceStyle::DeepValue => (Urgency::Patient, UrgencyReason::PatientStyle),
            PatienceStyle::Other => (Urgency::Normal, UrgencyReason::DefaultNormal),
        }
    };
    Ok(UrgencyAssessment { urgency, reason, pause })
}

/// Recovery after a pause waits for the plan owner's next observation; it
/// stays paused while a pause is requested or unavailable, resumes when the
/// score reaches the resume threshold, and otherwise asks for a revision or
/// termination.
pub open spec fn spec_recovery(inputs: RecoveryInputs, policy: UrgencyPolicy) -> RecoveryAssessment {
    if !inputs.is_next_own_observation {
        RecoveryAssessment::WaitForOwnObservation
    } else {
        match inputs.pause {
            PauseAssessment::Clear => if inputs.signal_score_bp >= policy.resume_signal_threshold_bp {
                RecoveryAssessment::Resume
            } else {
                RecoveryAssessment::ReviseOrTerminate
            },
            _ => RecoveryAssessment::RemainPaused,
        }
    }
}

pub fn assess_recovery(inputs: &RecoveryInputs, policy: &UrgencyPolicy) -> (r: Result<RecoveryAssessment, UrgencyError>)
    ensures
        r == (if spec_urgency_policy_error(*policy) is Some {
            Err(spec_urgency_policy_error(*policy).unwrap())
        } else if !(-10_000 <= inputs.signal_score_bp <= 10_000) {
            Err(UrgencyError::InvalidInput { field: "signal_score_bp", value: inputs.signal_score_bp as i64 })
        } else {
            Ok(spec_recovery(*inputs, *policy))
        }),
{
    policy.validate()?;
    if !(-10_000 <= inputs.signal_score_bp && inputs.signal_score_bp <= 10_000) {
        return Err(
            UrgencyError::InvalidInput { field: "signal_score_bp", value: inputs.signal_score_bp as i64 },
        );
    }
    if !inputs.is_next_own_observation {
        return Ok(RecoveryAssessment::WaitForOwnObservation);
    }
    match &inputs.pause {
        PauseAssessment::PauseAndRequestCancel(_) | PauseAssessment::Unavailable { .. } => Ok(
            RecoveryAssessment::RemainPaused,
        ),
        PauseAssessment::Clear => if inputs.signal_score_bp >= policy.resume_signal_threshold_bp {
            Ok(RecoveryAssessment::Resume)
        } else {
            Ok(RecoveryAssessment::ReviseOrTerminate)
        },
    }
}

} // verus!

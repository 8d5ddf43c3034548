//! The decisions of payment-gated issuance.
//!
//! A signature is issued once per payment. The gateway asks the payment
//! provider for the payment, marks the payment as used, and only then
//! signs; a payment that has not succeeded, or that is marked already, is
//! turned down. Talking to the provider is the caller's part: it performs
//! the action that a step names and comes back with the event that
//! followed.

use vstd::prelude::*;
use crate::gateway::CertificateError;

verus! {

/// What the provider says of a payment's progress.
#[derive(Clone, Copy, Debug, PartialEq, Eq, Structural)]
pub enum PaymentStatus {
    /// The payment has gone through.
    Succeeded,
    /// The payment waits for a payment method.
    RequiresPaymentMethod,
    /// Any other state.
    Other,
}

/// What the provider says of a payment.
#[derive(Clone, Copy, Debug, PartialEq, Eq, Structural)]
pub struct PaymentFacts {
    pub status: PaymentStatus,
    /// Whether the payment is marked as used for a signature.
    pub certificate_signed: bool,
    /// The amount paid, in the smallest currency unit.
    pub amount: i64,
}

/// Where an issuance stands.
#[derive(Clone, Copy, Debug, PartialEq, Eq, Structural)]
pub enum IssuanceState {
    /// Nothing has been asked for.
    Idle,
    /// The provider has been asked for the payment.
    AwaitingPayment,
    /// The provider has been asked to mark the payment as used.
    AwaitingMark { amount: i64 },
    /// The issuance has ended, with a signature or without.
    Finished,
}

/// What has happened.
#[derive(Clone, Copy, Debug, PartialEq, Eq, Structural)]
pub enum IssuanceEvent {
    /// A client asks for a signature.
    Requested,
    /// The provider has answered with the payment.
    PaymentFound(PaymentFacts),
    /// The provider has marked the payment as used.
    PaymentMarked,
    /// The provider could not be asked or did not do as asked.
    ProviderFailed,
}

/// What is to be done next.
#[derive(Clone, Copy, Debug, PartialEq, Eq, Structural)]
pub enum IssuanceAction {
    /// Ask the provider for the payment.
    RetrievePayment,
    /// Ask the provider to mark the payment as used.
    MarkPayment,
    /// Sign with the delegate key of the amount's tier.
    Sign { amount: i64 },
    /// Turn the request down.
    Reject(CertificateError),
}

/// Whether a payment entitles to a signature, and if not, why.
pub open spec fn payment_verdict(facts: PaymentFacts) -> Result<(), CertificateError> {
    match facts.status {
        PaymentStatus::RequiresPaymentMethod => Err(CertificateError::PaymentMethodMissing),
        PaymentStatus::Other => Err(CertificateError::PaymentNotSuccessful),
        PaymentStatus::Succeeded => if facts.certificate_signed {
            Err(CertificateError::CertificateAlreadySigned)
        } else {
            Ok(())
        },
    }
}

/// The state that follows a state and an event, and what is to be done.
pub open spec fn issuance_transition(state: IssuanceState, event: IssuanceEvent) -> (
    IssuanceState,
    IssuanceAction,
) {
    match (state, event) {
        (IssuanceState::Idle, IssuanceEvent::Requested) => (
            IssuanceState::AwaitingPayment,
            IssuanceAction::RetrievePayment,
        ),
        (IssuanceState::AwaitingPayment, IssuanceEvent::PaymentFound(facts)) => match payment_verdict(
            facts,
        ) {
            Ok(_) => (
                IssuanceState::AwaitingMark { amount: facts.amount },
                IssuanceAction::MarkPayment,
            ),
            Err(e) => (IssuanceState::Finished, IssuanceAction::Reject(e)),
        },
        (IssuanceState::AwaitingMark { amount }, IssuanceEvent::PaymentMarked) => (
            IssuanceState::Finished,
            IssuanceAction::Sign { amount },
        ),
        _ => (
            IssuanceState::Finished,
            IssuanceAction::Reject(CertificateError::PaymentProviderError),
        ),
    }
}

/// Decides whether a payment entitles to a signature.
pub fn check_payment(facts: &PaymentFacts) -> (verdict: Result<(), CertificateError>)
    ensures
        verdict == payment_verdict(*facts),
{
    match facts.status {
        PaymentStatus::RequiresPaymentMethod => Err(CertificateError::PaymentMethodMissing),
        PaymentStatus::Other => Err(CertificateError::PaymentNotSuccessful),
        PaymentStatus::Succeeded => if facts.certificate_signed {
            Err(CertificateError::CertificateAlreadySigned)
        } else {
            Ok(())
        },
    }
}

/// Takes one step of an issuance: from where it stands and what has
/// happened to where it stands next and what is to be done.
pub fn issuance_step(state: IssuanceState, event: IssuanceEvent) -> (next: (
    IssuanceState,
    IssuanceAction,
))
    ensures
        next == issuance_transition(state, event),
{
    match state {
        IssuanceState::Idle => match event {
            IssuanceEvent::Requested => (
                IssuanceState::AwaitingPayment,
                IssuanceAction::RetrievePayment,
            ),
            _ => (
                IssuanceState::Finished,
                IssuanceAction::Reject(CertificateError::PaymentProviderError),
            ),
        },
        IssuanceState::AwaitingPayment => match event {
            IssuanceEvent::PaymentFound(facts) => match check_payment(&facts) {
                Ok(_) => (
                    IssuanceState::AwaitingMark { amount: facts.amount },
                    IssuanceAction::MarkPayment,
                ),
                Err(e) => (IssuanceState::Finished, IssuanceAction::Reject(e)),
            },
            _ => (
                IssuanceState::Finished,
                IssuanceAction::Reject(CertificateError::PaymentProviderError),
            ),
        },
        IssuanceState::AwaitingMark { amount } => match event {
            IssuanceEvent::PaymentMarked => (
                IssuanceState::Finished,
                IssuanceAction::Sign { amount },
            ),
            _ => (
                IssuanceState::Finished,
                IssuanceAction::Reject(CertificateError::PaymentProviderError),
            ),
        },
        IssuanceState::Finished => (
            IssuanceState::Finished,
            IssuanceAction::Reject(CertificateError::PaymentProviderError),
        ),
    }
}

/// Nothing is signed before the payment is marked as used: a step says to
/// sign only when the mark was asked for and has been made.
pub proof fn lemma_sign_follows_mark(state: IssuanceState, event: IssuanceEvent)
    requires
        issuance_transition(state, event).1 is Sign,
    ensures
        state is AwaitingMark,
        event is PaymentMarked,
        issuance_transition(state, event).1 == (IssuanceAction::Sign {
            amount: state->AwaitingMark_amount,
        }),
{
}

/// A payment is marked only where it has succeeded and is not marked yet:
/// a payment that was used once is not used again.
pub proof fn lemma_mark_follows_fresh_payment(state: IssuanceState, event: IssuanceEvent)
    requires
        issuance_transition(state, event).0 is AwaitingMark,
    ensures
        state is AwaitingPayment,
        event is PaymentFound,
        event->PaymentFound_0.status is Succeeded,
        !event->PaymentFound_0.certificate_signed,
        issuance_transition(state, event).0 == (IssuanceState::AwaitingMark {
            amount: event->PaymentFound_0.amount,
        }),
{
}

} // verus!

//! The authority gate: one administrator decides which identities are
//! verified.

use vstd::prelude::*;
use crate::identity::Identity;
use crate::signal::{Signal, SignalLog};

verus! {

/// Why a write to an authority record was refused.
#[derive(Clone, Copy, Debug, PartialEq, Eq)]
pub enum AuthError {
    /// The caller is not the administrator.
    Unauthorized,
}

/// Whether one identity is currently trusted by the administrator.
#[derive(Clone, Copy, Debug, PartialEq, Eq)]
pub struct AuthorityRecord {
    /// The subject of the record.
    pub authority: Identity,
    /// The flag that `set_verified` writes.
    pub is_verified: bool,
}

/// The record to change together with the identity that asks for the change.
#[derive(Clone, Copy, Debug, PartialEq, Eq)]
pub struct VerifyAuthority {
    pub authority_record: AuthorityRecord,
    /// The caller, who must turn out to be the administrator.
    pub admin: Identity,
}

/// Holder of the single administrator identity that may write verified
/// flags.
#[derive(Clone, Copy, Debug, PartialEq, Eq)]
pub struct AuthorityRegistry {
    pub administrator: Identity,
}

/// Only the administrator is let through.
pub open spec fn is_authorized(administrator: Identity, caller: Identity) -> bool {
    caller == administrator
}

/// What `set_verified` answers.
pub open spec fn set_verified_result(administrator: Identity, caller: Identity) -> Result<
    (),
    AuthError,
> {
    if is_authorized(administrator, caller) {
        Ok(())
    } else {
        Err(AuthError::Unauthorized)
    }
}

/// The record after `set_verified`: the flag is overwritten for the
/// administrator, and nothing moves for anyone else.
pub open spec fn record_after_set_verified(
    record: AuthorityRecord,
    administrator: Identity,
    caller: Identity,
    new_value: bool,
) -> AuthorityRecord {
    if is_authorized(administrator, caller) {
        AuthorityRecord { authority: record.authority, is_verified: new_value }
    } else {
        record
    }
}

/// The captured signals after `set_verified`: one more, carrying the written
/// value, for the administrator; the same as before for anyone else.
pub open spec fn signals_after_set_verified(
    signals: Seq<Signal>,
    record: AuthorityRecord,
    administrator: Identity,
    caller: Identity,
    new_value: bool,
) -> Seq<Signal> {
    if is_authorized(administrator, caller) {
        signals.push(
            Signal::VerifiedAuthorityChanged { authority: record.authority, is_verified: new_value },
        )
    } else {
        signals
    }
}

impl AuthorityRegistry {
    /// A gate that lets only `administrator` through.
    pub fn new(administrator: Identity) -> (registry: AuthorityRegistry)
        ensures
            registry.administrator == administrator,
    {
        AuthorityRegistry { administrator }
    }

    /// Writes `new_value` into `record.is_verified` on behalf of `caller`.
    ///
    /// The administrator always succeeds, in either direction, and one
    /// `VerifiedAuthorityChanged` signal with the written value is appended
    /// to `sink`. Any other caller gets `Unauthorized`, and neither the
    /// record nor the sink changes.
    pub fn set_verified(
        &self,
        record: &mut AuthorityRecord,
        caller: &Identity,
        new_value: bool,
        sink: &mut SignalLog,
    ) -> (outcome: Result<(), AuthError>)
        ensures
            outcome == set_verified_result(self.administrator, *caller),
            *final(record) == record_after_set_verified(
                *old(record),
                self.administrator,
                *caller,
                new_value,
            ),
            final(sink)@ == signals_after_set_verified(
                old(sink)@,
                *old(record),
                self.administrator,
                *caller,
                new_value,
            ),
    {
        if !caller.same_as(&self.administrator) {
            return Err(AuthError::Unauthorized);
        }
        record.is_verified = new_value;
        sink.emit(
            Signal::VerifiedAuthorityChanged {
                authority: record.authority,
                is_verified: record.is_verified,
            },
        );
        Ok(())
    }
}

/// Applies `set_verified` to the record in `ctx`, with `ctx.admin` as the
/// caller and `administrator` as the configured administrator.
pub fn verify_authority(
    ctx: &mut VerifyAuthority,
    administrator: &Identity,
    is_verified: bool,
    sink: &mut SignalLog,
) -> (outcome: Result<(), AuthError>)
    ensures
        outcome == set_verified_result(*administrator, old(ctx).admin),
        final(ctx).admin == old(ctx).admin,
        final(ctx).authority_record == record_after_set_verified(
            old(ctx).authority_record,
            *administrator,
            old(ctx).admin,
            is_verified,
        ),
        final(sink)@ == signals_after_set_verified(
            old(sink)@,
            old(ctx).authority_record,
            *administrator,
            old(ctx).admin,
            is_verified,
        ),
{
    let registry = AuthorityRegistry::new(*administrator);
    let caller = ctx.admin;
    registry.set_verified(&mut ctx.authority_record, &caller, is_verified, sink)
}

/// A caller other than the administrator is refused with `Unauthorized`,
/// and neither the record nor the captured signals change.
pub proof fn lemma_outsider_changes_nothing(
    record: AuthorityRecord,
    administrator: Identity,
    caller: Identity,
    new_value: bool,
    signals: Seq<Signal>,
)
    requires
        caller != administrator,
    ensures
        set_verified_result(administrator, caller) == Err::<(), AuthError>(AuthError::Unauthorized),
        record_after_set_verified(record, administrator, caller, new_value) == record,
        signals_after_set_verified(signals, record, administrator, caller, new_value) == signals,
{
}

/// The administrator may write either value at any time: the call succeeds,
/// the flag reads the written value afterwards, the subject of the record
/// stays, and exactly one signal with the written value is added.
pub proof fn lemma_administrator_writes_flag(
    record: AuthorityRecord,
    administrator: Identity,
    new_value: bool,
    signals: Seq<Signal>,
)
    ensures
        set_verified_result(administrator, administrator) == Ok::<(), AuthError>(()),
        record_after_set_verified(record, administrator, administrator, new_value).is_verified
            == new_value,
        record_after_set_verified(record, administrator, administrator, new_value).authority
            == record.authority,
        signals_after_set_verified(signals, record, administrator, administrator, new_value)
            == signals.push(
            Signal::VerifiedAuthorityChanged { authority: record.authority, is_verified: new_value },
        ),
{
}

/// When the administrator switches an unverified record on and off again,
/// the record ends as it began and exactly two signals are added: the first
/// reports `true`, the second `false`.
pub proof fn lemma_toggle_raises_two_signals(
    record: AuthorityRecord,
    administrator: Identity,
    signals: Seq<Signal>,
)
    requires
        !record.is_verified,
    ensures
        ({
            let on = record_after_set_verified(record, administrator, administrator, true);
            let heard = signals_after_set_verified(
                signals,
                record,
                administrator,
                administrator,
                true,
            );
            let off = record_after_set_verified(on, administrator, administrator, false);
            let heard_twice = signals_after_set_verified(
                heard,
                on,
                administrator,
                administrator,
                false,
            );
            &&& on.is_verified
            &&& off == record
            &&& heard_twice.len() == signals.len() + 2
            &&& heard_twice == signals.push(
                Signal::VerifiedAuthorityChanged { authority: record.authority, is_verified: true },
            ).push(
                Signal::VerifiedAuthorityChanged {
                    authority: record.authority,
                    is_verified: false,
                },
            )
        }),
{
}

} // verus!

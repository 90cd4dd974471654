//! The lifecycle of one market-data refresh run.

use vstd::prelude::*;
use vstd::string::*;

use crate::port::PortError;
use crate::text::{append, nat_digits, nat_text};
use crate::time::{CalendarDate, UtcInstant};

verus! {

#[derive(Debug, Clone, Copy, PartialEq, Eq, Structural)]
pub enum DataRefreshState {
    Running,
    Completed,
    Partial,
    Failed,
}

#[derive(Debug, Clone, Copy, PartialEq, Eq, Structural)]
pub enum DataRefreshOrigin {
    Startup,
    Scheduled,
    Retry,
    Manual,
}

/// One step of a refresh that failed: the ticker, the operation and the error text.
#[derive(Debug, Clone, PartialEq, Eq)]
pub struct DataRefreshFailure {
    pub ticker: String,
    pub operation: String,
    pub error: String,
}

#[derive(Debug, Clone, PartialEq, Eq)]
pub struct DataRefreshRun {
    pub id: String,
    pub origin: DataRefreshOrigin,
    pub state: DataRefreshState,
    pub started_at: UtcInstant,
    pub finished_at: Option<UtcInstant>,
    pub target_session: CalendarDate,
    pub items_obtained: u64,
    pub items_persisted: u64,
    pub failure_count: u64,
    pub next_attempt_at: Option<UtcInstant>,
    pub summary: String,
    pub failures: Vec<DataRefreshFailure>,
}

/// How a finished run ends: completed without failures, partial where something was still
/// obtained or persisted, failed otherwise.
pub open spec fn finished_state(failure_count: nat, obtained: u64, persisted: u64) -> DataRefreshState {
    if failure_count == 0 {
        DataRefreshState::Completed
    } else if obtained > 0 || persisted > 0 {
        DataRefreshState::Partial
    } else {
        DataRefreshState::Failed
    }
}

/// The summary of a finished run.
pub open spec fn finished_summary(state: DataRefreshState, failure_count: nat) -> Seq<char> {
    match state {
        DataRefreshState::Completed => "Atualização concluída"@,
        DataRefreshState::Partial => "Atualização parcial: "@ + nat_text(failure_count) + " falha(s)"@,
        _ => "Atualização falhou: "@ + nat_text(failure_count) + " falha(s)"@,
    }
}

/// A run that no step changes any more.
pub open spec fn is_terminal(state: DataRefreshState) -> bool {
    state != DataRefreshState::Running
}

impl DataRefreshRun {
    /// A run that has just started, with nothing obtained yet.
    pub fn running(id: String, origin: DataRefreshOrigin, now: UtcInstant, target_session: CalendarDate) -> (r:
        Self)
        ensures
            r.id == id,
            r.origin == origin,
            r.state == DataRefreshState::Running,
            r.started_at == now,
            r.finished_at is None,
            r.target_session == target_session,
            r.items_obtained == 0,
            r.items_persisted == 0,
            r.failure_count == 0,
            r.next_attempt_at is None,
            r.summary@ == "Atualização iniciada"@,
            r.failures@.len() == 0,
    {
        DataRefreshRun {
            id,
            origin,
            state: DataRefreshState::Running,
            started_at: now,
            finished_at: None,
            target_session,
            items_obtained: 0,
            items_persisted: 0,
            failure_count: 0,
            next_attempt_at: None,
            summary: String::from_str("Atualização iniciada"),
            failures: Vec::new(),
        }
    }

    /// Ends a running run with what it obtained, persisted and failed; refused, with nothing
    /// changed, for a run that is no longer running.
    pub fn finish(
        &mut self,
        now: UtcInstant,
        obtained: u64,
        persisted: u64,
        failures: Vec<DataRefreshFailure>,
        next_attempt_at: Option<UtcInstant>,
    ) -> (r: Result<(), PortError>)
        ensures
            is_terminal(old(self).state) ==> *final(self) == *old(self) && (r matches Err(
                PortError::Conflict(m),
            ) && m@ == "only a running refresh can be finished"@),
            !is_terminal(old(self).state) ==> {
                &&& r is Ok
                &&& is_terminal(final(self).state)
                &&& final(self).state == finished_state(failures@.len(), obtained, persisted)
                &&& final(self).failure_count == failures@.len()
                &&& final(self).failures == failures
                &&& final(self).items_obtained == obtained
                &&& final(self).items_persisted == persisted
                &&& final(self).finished_at == Some(now)
                &&& final(self).next_attempt_at == next_attempt_at
                &&& final(self).summary@ == finished_summary(final(self).state, failures@.len())
                &&& final(self).id == old(self).id
                &&& final(self).origin == old(self).origin
                &&& final(self).started_at == old(self).started_at
                &&& final(self).target_session == old(self).target_session
            },
    {
        if self.state != DataRefreshState::Running {
            return Err(PortError::Conflict(String::from_str("only a running refresh can be finished")));
        }
        let count = failures.len() as u64;
        self.items_obtained = obtained;
        self.items_persisted = persisted;
        self.failure_count = count;
        self.finished_at = Some(now);
        self.next_attempt_at = next_attempt_at;
        self.failures = failures;
        self.state = if count == 0 {
            DataRefreshState::Completed
        } else if obtained > 0 || persisted > 0 {
            DataRefreshState::Partial
        } else {
            DataRefreshState::Failed
        };
        self.summary = match self.state {
            DataRefreshState::Completed => String::from_str("Atualização concluída"),
            DataRefreshState::Partial => {
                let mut s = String::from_str("Atualização parcial: ");
                append(&mut s, nat_digits(count as u128).as_str());
                append(&mut s, " falha(s)");
                s
            },
            _ => {
                let mut s = String::from_str("Atualização falhou: ");
                append(&mut s, nat_digits(count as u128).as_str());
                append(&mut s, " falha(s)");
                s
            },
        };
        Ok(())
    }

    /// Marks a running run as failed because the process stopped; refused, with nothing
    /// changed, for a run that is no longer running.
    pub fn interrupt(&mut self, now: UtcInstant) -> (r: Result<(), PortError>)
        requires
            old(self).failure_count < u64::MAX,
        ensures
            is_terminal(old(self).state) ==> *final(self) == *old(self) && (r matches Err(
                PortError::Conflict(m),
            ) && m@ == "only a running refresh can be interrupted"@),
            !is_terminal(old(self).state) ==> {
                &&& r is Ok
                &&& final(self).state == DataRefreshState::Failed
                &&& final(self).finished_at == Some(now)
                &&& final(self).failure_count == old(self).failure_count + 1
                &&& final(self).summary@
                    == "Atualização falhou: execução interrompida pelo encerramento do processo"@
                &&& final(self).failures@.len() == old(self).failures@.len() + 1
                &&& final(self).failures@.drop_last() == old(self).failures@
                &&& final(self).failures@.last().ticker@ == "system"@
                &&& final(self).failures@.last().operation@ == "refresh"@
                &&& final(self).failures@.last().error@ == "process interrupted"@
                &&& final(self).id == old(self).id
                &&& final(self).origin == old(self).origin
                &&& final(self).started_at == old(self).started_at
                &&& final(self).target_session == old(self).target_session
                &&& final(self).items_obtained == old(self).items_obtained
                &&& final(self).items_persisted == old(self).items_persisted
                &&& final(self).next_attempt_at == old(self).next_attempt_at
            },
    {
        if self.state != DataRefreshState::Running {
            return Err(PortError::Conflict(String::from_str("only a running refresh can be interrupted")));
        }
        self.state = DataRefreshState::Failed;
        self.finished_at = Some(now);
        self.failure_count = self.failure_count + 1;
        self.summary = String::from_str("Atualização falhou: execução interrompida pelo encerramento do processo");
        self.failures.push(
            DataRefreshFailure {
                ticker: String::from_str("system"),
                operation: String::from_str("refresh"),
                error: String::from_str("process interrupted"),
            },
        );
        Ok(())
    }
}

} // verus!

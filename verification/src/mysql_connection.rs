//! Using MySQL connections: which errors break them, when an operation is tried again, and who owns
//! a connection while an operation runs on it.
//!
//! Queries are sent outside. Each step here takes in what came back and says what to do.
use vstd::prelude::*;
use vstd::string::*;

use crate::mysql_cancellation::CancellationTerminal;
use crate::mysql_statement::{
    filled, format_mysql_binary_protocol, format_mysql_text_protocol, value_texts, MissingArgument,
    MySqlValue, Positional, TextStatement,
};
use crate::text::{contains, occurs};
use crate::time::Duration;

verus! {

/// What a MySQL driver reports.
#[derive(Debug)]
pub enum MySqlError {
    /// The pool of the driver is gone.
    PoolDisconnected,
    /// The connection is closed.
    ConnectionClosed,
    /// Reading or writing failed.
    Io,
    /// The server answered with an error.
    Server { code: u16, message: String },
    /// Anything else.
    Other,
}

/// The databases' ways of saying, under the code for unknown errors, that they are not up to it.
pub open spec fn names_an_outage(message: Seq<char>) -> bool {
    ||| occurs(message, "primary is not serving"@)
    ||| occurs(message, "for tx killer rollback"@)
    ||| occurs(message, "connection pool timed out"@)
    ||| occurs(message, "connection timed out"@)
}

impl MySqlError {
    /// Whether this is an error of operation, which may pass by itself, and not one of the query.
    pub open spec fn is_operational(self) -> bool {
        match self {
            MySqlError::PoolDisconnected => true,
            MySqlError::ConnectionClosed => true,
            MySqlError::Io => true,
            MySqlError::Server { code, message } => {
                // The server is read-only, lost, shutting down, or has too many connections.
                ||| code == 1290
                ||| code == 2013
                ||| code == 1053
                ||| code == 1040
                // An unknown error, told by its text.
                ||| code == 1105 && names_an_outage(message@)
            },
            MySqlError::Other => false,
        }
    }
}

/// An error of a database operation, by what it means for the connection.
#[derive(Debug)]
pub enum DatabaseError {
    Operational(MySqlError),
    /// No answer came in time.
    Timeout,
    Other(MySqlError),
}

/// What an error of an operation means for the connection.
#[derive(Clone, Copy, Debug, PartialEq, Eq, Structural)]
pub enum ErrorKind {
    Operational,
    Timeout,
    Other,
}

impl DatabaseError {
    pub open spec fn error_kind(self) -> ErrorKind {
        match self {
            DatabaseError::Operational(_) => ErrorKind::Operational,
            DatabaseError::Timeout => ErrorKind::Timeout,
            DatabaseError::Other(_) => ErrorKind::Other,
        }
    }

    pub fn kind(&self) -> (kind: ErrorKind)
        ensures
            kind == self.error_kind(),
    {
        match self {
            DatabaseError::Operational(_) => ErrorKind::Operational,
            DatabaseError::Timeout => ErrorKind::Timeout,
            DatabaseError::Other(_) => ErrorKind::Other,
        }
    }
}

pub open spec fn classified(error: MySqlError) -> DatabaseError {
    if error.is_operational() {
        DatabaseError::Operational(error)
    } else {
        DatabaseError::Other(error)
    }
}

/// Tells errors of operation from others.
pub fn classify_mysql_error(error: MySqlError) -> (error_class: DatabaseError)
    ensures
        error_class == classified(error),
{
    let operational = match &error {
        MySqlError::PoolDisconnected => true,
        MySqlError::ConnectionClosed => true,
        MySqlError::Io => true,
        MySqlError::Server { code, message } => {
            if *code == 1290 || *code == 2013 || *code == 1053 || *code == 1040 {
                true
            } else {
                *code == 1105 && (contains(message.as_str(), "primary is not serving") || contains(
                    message.as_str(),
                    "for tx killer rollback",
                ) || contains(message.as_str(), "connection pool timed out") || contains(
                    message.as_str(),
                    "connection timed out",
                ))
            }
        },
        MySqlError::Other => false,
    };
    if operational {
        DatabaseError::Operational(error)
    } else {
        DatabaseError::Other(error)
    }
}

/// What is known of an operation that may not take too long, by its answer and whether its time is
/// up.
pub open spec fn timed<R>(answer: Option<Result<R, MySqlError>>, timer_elapsed: bool) -> Option<
    Result<R, DatabaseError>,
> {
    match answer {
        Some(Ok(value)) => Some(Ok(value)),
        Some(Err(error)) => Some(Err(classified(error))),
        None => if timer_elapsed {
            Some(Err(DatabaseError::Timeout))
        } else {
            None
        },
    }
}

/// What is known of an operation that may not take too long: an answer that came counts, even
/// where the time is up as well; without one the operation times out, or goes on.
pub fn with_timeout<R>(
    answer: Option<Result<R, MySqlError>>,
    timer_elapsed: bool,
) -> (outcome: Option<Result<R, DatabaseError>>)
    ensures
        outcome == (match answer {
            Some(Ok(value)) => Some(Ok(value)),
            Some(Err(error)) => Some(Err(classified(error))),
            None => if timer_elapsed {
                Some(Err(DatabaseError::Timeout))
            } else {
                None
            },
        }),
        outcome == timed(answer, timer_elapsed),
{
    match answer {
        Some(Ok(value)) => Some(Ok(value)),
        Some(Err(error)) => Some(Err(classify_mysql_error(error))),
        None => if timer_elapsed {
            Some(Err(DatabaseError::Timeout))
        } else {
            None
        },
    }
}

/// Why a connection may not be used.
#[derive(Clone, Copy, Debug, PartialEq, Eq, Structural)]
pub enum ConnectionUseError {
    Canceled,
    TransactionCanceled,
    TransactionLeftUnusable,
    CancellationFailed,
}

impl ConnectionUseError {
    pub open spec fn text(self) -> Seq<char> {
        match self {
            ConnectionUseError::Canceled =>
                "MySQL connection cannot be reused after a canceled operation"@,
            ConnectionUseError::TransactionCanceled =>
                "MySQL transaction connection cannot be reused after a canceled or incomplete operation"@,
            ConnectionUseError::TransactionLeftUnusable =>
                "MySQL transaction connection was left unusable by a canceled or incomplete operation"@,
            ConnectionUseError::CancellationFailed => "MySQL server-side cancellation failed"@,
        }
    }

    pub fn message(self) -> (message: &'static str)
        ensures
            message@ == self.text(),
    {
        match self {
            ConnectionUseError::Canceled =>
                "MySQL connection cannot be reused after a canceled operation",
            ConnectionUseError::TransactionCanceled =>
                "MySQL transaction connection cannot be reused after a canceled or incomplete operation",
            ConnectionUseError::TransactionLeftUnusable =>
                "MySQL transaction connection was left unusable by a canceled or incomplete operation",
            ConnectionUseError::CancellationFailed => "MySQL server-side cancellation failed",
        }
    }
}

/// A value that an operation owns, with the reservation to cancel it.
#[derive(Debug)]
pub struct Owned<T, R> {
    pub value: T,
    pub reservation: R,
}

/// What an operation owns, and whether it ran to its end.
#[verifier::ext_equal]
pub struct OwnershipModel<T, R> {
    pub completed: bool,
    pub owned: Option<Owned<T, R>>,
}

impl<T, R> OwnershipModel<T, R> {
    /// What stands in the place of the value when the operation ends.
    pub open spec fn kept(self) -> Option<T> {
        match self.owned {
            Some(owned) => if self.completed {
                Some(owned.value)
            } else {
                None
            },
            None => None,
        }
    }

    /// What is cancelled when the operation ends.
    pub open spec fn canceled(self) -> Option<(T, R)> {
        match self.owned {
            Some(owned) => if self.completed {
                None
            } else {
                Some((owned.value, owned.reservation))
            },
            None => None,
        }
    }
}

/// Owns a value, such as a connection, while an operation runs on it, with the reservation to
/// cancel it. An operation that does not run to its end loses the value.
pub struct OperationOwnership<T, R> {
    completed: bool,
    owned: Option<Owned<T, R>>,
}

impl<T, R> View for OperationOwnership<T, R> {
    type V = OwnershipModel<T, R>;

    closed spec fn view(&self) -> OwnershipModel<T, R> {
        OwnershipModel { completed: self.completed, owned: self.owned }
    }
}

impl<T, R> OperationOwnership<T, R> {
    /// Whether an operation may begin on a value that an earlier one may have lost.
    pub fn begin(value: &Option<T>) -> (begun: Result<(), ConnectionUseError>)
        ensures
            begun == (if value is Some {
                Ok(())
            } else {
                Err(ConnectionUseError::Canceled)
            }),
    {
        match value {
            Some(_) => Ok(()),
            None => Err(ConnectionUseError::Canceled),
        }
    }

    /// Takes the value out of its place. A value must be there.
    pub fn new(value: &mut Option<T>, reservation: R) -> (ownership: Self)
        requires
            *old(value) is Some,
        ensures
            *final(value) == None::<T>,
            ownership@ == (OwnershipModel {
                completed: false,
                owned: Some(Owned { value: (*old(value))->0, reservation }),
            }),
    {
        match value.take() {
            Some(taken) => OperationOwnership {
                completed: false,
                owned: Some(Owned { value: taken, reservation }),
            },
            None => vstd::pervasive::unreached(),
        }
    }

    /// Whether there is a value.
    pub fn owns_value(&self) -> (owns: bool)
        ensures
            owns == (self@.owned is Some),
    {
        self.owned.is_some()
    }

    /// The value, to work on.
    pub fn value(&mut self) -> (value: &mut T)
        requires
            old(self)@.owned is Some,
        ensures
            *value == old(self)@.owned->0.value,
            final(self)@ == (OwnershipModel {
                owned: Some(
                    Owned {
                        value: *final(value),
                        reservation: old(self)@.owned->0.reservation,
                    },
                ),
                ..old(self)@
            }),
    {
        match &mut self.owned {
            Some(owned) => &mut owned.value,
            None => vstd::pervasive::unreached(),
        }
    }

    /// Gives up the value, with its reservation, to be cancelled.
    pub fn take_for_cancellation(&mut self) -> (taken: Option<(T, R)>)
        ensures
            taken == (match old(self)@.owned {
                Some(owned) => Some((owned.value, owned.reservation)),
                None => None,
            }),
            final(self)@ == (OwnershipModel { owned: None, ..old(self)@ }),
    {
        match self.owned.take() {
            Some(owned) => Some((owned.value, owned.reservation)),
            None => None,
        }
    }

    /// Puts another value in the place of one that was given up, after making it known.
    pub fn install<F: FnOnce(&T)>(&mut self, value: T, reservation: R, register: F)
        requires
            old(self)@.owned is None,
            register.requires((&value,)),
        ensures
            register.ensures((&value,), ()),
            final(self)@ == (OwnershipModel {
                owned: Some(Owned { value, reservation }),
                ..old(self)@
            }),
    {
        register(&value);
        self.owned = Some(Owned { value, reservation });
    }

    /// Says that the operation ran to its end.
    pub fn complete(&mut self)
        ensures
            final(self)@ == (OwnershipModel { completed: true, ..old(self)@ }),
    {
        self.completed = true;
    }

    /// Ends the operation. A completed one puts its value back in its place; of any other the value
    /// is returned, to be cancelled, and the place stays empty.
    pub fn finish(self, value: &mut Option<T>) -> (canceled: Option<(T, R)>)
        ensures
            *final(value) == self@.kept(),
            canceled == self@.canceled(),
    {
        match self.owned {
            Some(owned) => if self.completed {
                *value = Some(owned.value);
                None
            } else {
                *value = None;
                Some((owned.value, owned.reservation))
            },
            None => {
                *value = None;
                None
            },
        }
    }
}

/// Whether a connection may be replaced once the old one was cancelled.
pub fn discarded(terminal: CancellationTerminal) -> (outcome: Result<(), ConnectionUseError>)
    ensures
        outcome == (if terminal == CancellationTerminal::ControlFailure {
            Err(ConnectionUseError::CancellationFailed)
        } else {
            Ok(())
        }),
{
    if terminal == CancellationTerminal::ControlFailure {
        Err(ConnectionUseError::CancellationFailed)
    } else {
        Ok(())
    }
}

/// Whether an error may leave an answer half read. Other errors of the server are whole answers.
pub open spec fn breaks_connection(kind: ErrorKind) -> bool {
    kind != ErrorKind::Other
}

pub fn connection_error_requires_discard(kind: ErrorKind) -> (discard: bool)
    ensures
        discard == breaks_connection(kind),
{
    match kind {
        ErrorKind::Operational => true,
        ErrorKind::Timeout => true,
        ErrorKind::Other => false,
    }
}

/// Whether a connection is of no use after an operation that failed in this way, if it failed. A
/// driver can keep an ordinary error while what followed it cut the connection, so that the error
/// alone does not tell.
pub open spec fn leaves_unusable(disconnected: bool, error: Option<ErrorKind>) -> bool {
    disconnected || (error is Some && breaks_connection(error->0))
}

pub fn connection_result_requires_discard(disconnected: bool, error: Option<ErrorKind>) -> (discard:
    bool)
    ensures
        discard == leaves_unusable(disconnected, error),
{
    disconnected || (match error {
        Some(kind) => connection_error_requires_discard(kind),
        None => false,
    })
}

/// What an operation led to, with all its retries.
#[derive(Debug)]
pub struct HandledMySqlOperation<R, E> {
    /// Whether the connection can be used again.
    pub connection_reusable: bool,
    /// Whether it is a new one, in the place of one that an error broke.
    pub error_connection_replaced: bool,
    pub result: Result<R, E>,
}

impl<R, E> HandledMySqlOperation<R, E> {
    /// Whether a statement that is answered at once is complete.
    pub fn completes_operation(&self) -> (completes: bool)
        ensures
            completes == self.connection_reusable,
    {
        self.connection_reusable
    }

    /// Whether a statement that is answered row by row is complete. An error in the middle leaves
    /// rows unread, so that only a new connection is of use.
    pub fn completes_collection(&self) -> (completes: bool)
        ensures
            completes == (self.result is Ok || self.error_connection_replaced),
    {
        self.result.is_ok() || self.error_connection_replaced
    }
}

/// What is reported when a connection is given up.
#[derive(Clone, Copy, Debug, PartialEq, Eq, Structural)]
pub enum DiscardNotice {
    Retrying,
    DiscardingAfterError,
    DiscardingDisconnected,
}

/// What to do after an attempt, or after a replacement.
#[derive(Debug)]
pub enum RetryStep<R, E> {
    /// Give up the connection and get another.
    Replace(DiscardNotice),
    /// Run the operation again, on the new connection.
    RunAgain,
    Finished(HandledMySqlOperation<R, E>),
}

/// The error that a connection is being replaced for, and whether the operation runs again after
/// that.
#[derive(Debug)]
pub struct FailedAttempt<E> {
    pub error: E,
    pub retries: bool,
}

/// How far the attempts have come: how many were retried, how many may be, and the one whose
/// connection is being replaced.
#[verifier::ext_equal]
pub struct RetryModel<E> {
    pub attempt: nat,
    pub max_retries: nat,
    pub pending: Option<FailedAttempt<E>>,
}

/// The attempts at one operation.
pub struct RetryLoop<E> {
    attempt: u32,
    max_retries: u32,
    pending: Option<FailedAttempt<E>>,
}

impl<E> View for RetryLoop<E> {
    type V = RetryModel<E>;

    closed spec fn view(&self) -> RetryModel<E> {
        RetryModel {
            attempt: self.attempt as nat,
            max_retries: self.max_retries as nat,
            pending: self.pending,
        }
    }
}

impl<E> RetryModel<E> {
    pub open spec fn wf(self) -> bool {
        &&& self.attempt <= self.max_retries
        &&& (self.pending is Some && self.pending->0.retries ==> self.attempt < self.max_retries)
    }

    /// Whether an operation that failed in this way runs again. After a time-out it does not, to
    /// let the caller feel the pressure.
    pub open spec fn retries(self, kind: ErrorKind) -> bool {
        kind == ErrorKind::Operational && self.attempt < self.max_retries
    }

    /// The attempts once one of them failed in a way that its connection is given up for.
    pub open spec fn failed(self, kind: ErrorKind, error: E) -> RetryModel<E> {
        RetryModel { pending: Some(FailedAttempt { error, retries: self.retries(kind) }), ..self }
    }

    /// The attempts once there is a new connection.
    pub open spec fn on_a_new_connection(self) -> RetryModel<E> {
        RetryModel {
            attempt: self.attempt + (if self.pending is Some && self.pending->0.retries {
                1nat
            } else {
                0nat
            }),
            pending: None,
            ..self
        }
    }
}

/// What is reported when the connection of a failed attempt is given up.
pub open spec fn discard_notice(retries: bool, kind: ErrorKind) -> DiscardNotice {
    if retries {
        DiscardNotice::Retrying
    } else if breaks_connection(kind) {
        DiscardNotice::DiscardingAfterError
    } else {
        DiscardNotice::DiscardingDisconnected
    }
}

impl<E> RetryLoop<E> {
    /// No attempt was made yet.
    pub fn new(max_retries: u32) -> (attempts: Self)
        ensures
            attempts@ == (RetryModel {
                attempt: 0,
                max_retries: max_retries as nat,
                pending: None::<FailedAttempt<E>>,
            }),
            attempts@.wf(),
    {
        RetryLoop { attempt: 0, max_retries, pending: None }
    }

    /// Whether the connection is being replaced.
    pub fn is_replacing(&self) -> (replacing: bool)
        ensures
            replacing == (self@.pending is Some),
    {
        self.pending.is_some()
    }

    /// Takes in what an attempt led to.
    pub fn attempt_finished<R>(
        &mut self,
        result: Result<R, (ErrorKind, E)>,
        connection_disconnected: bool,
    ) -> (step: RetryStep<R, E>)
        requires
            old(self)@.wf(),
            old(self)@.pending is None,
        ensures
            final(self)@.wf(),
            match result {
                Ok(value) => {
                    &&& step == RetryStep::<R, E>::Finished(
                        HandledMySqlOperation {
                            connection_reusable: true,
                            error_connection_replaced: false,
                            result: Ok(value),
                        },
                    )
                    &&& final(self)@ == old(self)@
                },
                Err((kind, error)) => if leaves_unusable(connection_disconnected, Some(kind)) {
                    let retries = old(self)@.retries(kind);
                    &&& step == RetryStep::<R, E>::Replace(discard_notice(retries, kind))
                    &&& final(self)@ == (RetryModel {
                        pending: Some(FailedAttempt { error, retries }),
                        ..old(self)@
                    })
                    &&& final(self)@ == old(self)@.failed(kind, error)
                    &&& step == RetryStep::<R, E>::Replace(DiscardNotice::Retrying) <==> kind
                        == ErrorKind::Operational && old(self)@.attempt < old(self)@.max_retries
                } else {
                    &&& step == RetryStep::<R, E>::Finished(
                        HandledMySqlOperation {
                            connection_reusable: true,
                            error_connection_replaced: false,
                            result: Err(error),
                        },
                    )
                    &&& final(self)@ == old(self)@
                },
            },
    {
        match result {
            Ok(value) => RetryStep::Finished(
                HandledMySqlOperation {
                    connection_reusable: true,
                    error_connection_replaced: false,
                    result: Ok(value),
                },
            ),
            Err((kind, error)) => {
                let should_retry = match kind {
                    ErrorKind::Operational => self.attempt < self.max_retries,
                    ErrorKind::Timeout => false,
                    ErrorKind::Other => {
                        if !connection_disconnected {
                            return RetryStep::Finished(
                                HandledMySqlOperation {
                                    connection_reusable: true,
                                    error_connection_replaced: false,
                                    result: Err(error),
                                },
                            );
                        }
                        false
                    },
                };
                self.pending = Some(FailedAttempt { error, retries: should_retry });
                RetryStep::Replace(
                    if should_retry {
                        DiscardNotice::Retrying
                    } else if connection_error_requires_discard(kind) {
                        DiscardNotice::DiscardingAfterError
                    } else {
                        DiscardNotice::DiscardingDisconnected
                    },
                )
            },
        }
    }

    /// Takes in what replacing the connection led to.
    pub fn replaced<R>(&mut self, outcome: Result<(), E>) -> (step: RetryStep<R, E>)
        requires
            old(self)@.wf(),
            old(self)@.pending is Some,
        ensures
            final(self)@.wf(),
            final(self)@.max_retries == old(self)@.max_retries,
            final(self)@.pending is None,
            outcome is Ok ==> final(self)@ == old(self)@.on_a_new_connection(),
            ({
                let FailedAttempt { error, retries } = old(self)@.pending->0;
                &&& final(self)@.attempt == old(self)@.attempt + (if retries && outcome is Ok {
                    1nat
                } else {
                    0nat
                })
                &&& step == (match outcome {
                    Err(failure) => RetryStep::<R, E>::Finished(
                        HandledMySqlOperation {
                            connection_reusable: false,
                            error_connection_replaced: false,
                            result: Err(failure),
                        },
                    ),
                    Ok(_) => if retries {
                        RetryStep::RunAgain
                    } else {
                        RetryStep::Finished(
                            HandledMySqlOperation {
                                connection_reusable: true,
                                error_connection_replaced: true,
                                result: Err(error),
                            },
                        )
                    },
                })
            }),
    {
        let pending = self.pending.take();
        match outcome {
            Err(failure) => RetryStep::Finished(
                HandledMySqlOperation {
                    connection_reusable: false,
                    error_connection_replaced: false,
                    result: Err(failure),
                },
            ),
            Ok(_) => match pending {
                Some(FailedAttempt { error, retries }) => if retries {
                    self.attempt = self.attempt + 1;
                    RetryStep::RunAgain
                } else {
                    RetryStep::Finished(
                        HandledMySqlOperation {
                            connection_reusable: true,
                            error_connection_replaced: true,
                            result: Err(error),
                        },
                    )
                },
                None => vstd::pervasive::unreached(),
            },
        }
    }
}

/// What is sent for a statement.
#[derive(Debug)]
pub enum PlannedStatement {
    /// With the text protocol.
    Text(TextStatement),
    /// With the binary protocol, with its parameters beside it.
    Prepared { statement: String, params: Vec<MySqlValue> },
}

/// Gets a statement ready to be sent.
pub fn plan_statement(
    use_prepared_statements: bool,
    db_name: &str,
    statement: &str,
    params: Vec<MySqlValue>,
    large_statement_threshold: usize,
) -> (planned: Result<PlannedStatement, MissingArgument>)
    ensures
        match planned {
            Ok(PlannedStatement::Prepared { statement: text, params: kept }) => {
                &&& use_prepared_statements
                &&& filled(statement@, db_name@, Positional::LeftAlone) == Ok::<Seq<char>, nat>(
                    text@,
                )
                &&& kept == params
            },
            Ok(PlannedStatement::Text(text)) => {
                &&& !use_prepared_statements
                &&& filled(statement@, db_name@, Positional::Given(value_texts(params@), 0)) == Ok::<
                    Seq<char>,
                    nat,
                >(text.text@)
                &&& text.is_large == (vstd::utf8::encode_utf8(text.text@).len()
                    > large_statement_threshold)
            },
            Err(missing) => {
                &&& !use_prepared_statements
                &&& filled(statement@, db_name@, Positional::Given(value_texts(params@), 0)) == Err::<
                    Seq<char>,
                    nat,
                >(missing.index as nat)
            },
        },
{
    if use_prepared_statements {
        Ok(
            PlannedStatement::Prepared {
                statement: format_mysql_binary_protocol(db_name, statement),
                params,
            },
        )
    } else {
        match format_mysql_text_protocol(db_name, statement, params, large_statement_threshold) {
            Ok(text) => Ok(PlannedStatement::Text(text)),
            Err(missing) => Err(missing),
        }
    }
}

/// Whether the connection of a transaction stays poisoned when a use of it ends.
pub open spec fn poisoned_after(
    poisoned: bool,
    disconnected: bool,
    error: Option<ErrorKind>,
) -> bool {
    poisoned && leaves_unusable(disconnected, error)
}

/// One use of the connection of a transaction. While it lasts the connection counts as poisoned,
/// and if it does not run to its end, the connection stays so.
#[derive(Debug)]
pub struct TransactionConnectionUse {
    _begun: (),
}

impl TransactionConnectionUse {
    /// Begins a use, unless an earlier one did not run to its end.
    pub fn begin(poisoned: &mut bool) -> (begun: Result<
        TransactionConnectionUse,
        ConnectionUseError,
    >)
        ensures
            *final(poisoned),
            begun is Ok <==> !*old(poisoned),
            begun is Err ==> begun->Err_0 == ConnectionUseError::TransactionCanceled,
    {
        if *poisoned {
            return Err(ConnectionUseError::TransactionCanceled);
        }
        *poisoned = true;
        Ok(TransactionConnectionUse { _begun: () })
    }

    /// Says that the use ran to its end.
    pub fn complete(self, poisoned: &mut bool)
        ensures
            !*final(poisoned),
    {
        *poisoned = false;
    }

    /// Ends the use of a statement: it ran to its end if the connection is still good.
    pub fn finish_statement(
        self,
        poisoned: &mut bool,
        disconnected: bool,
        error: Option<ErrorKind>,
    )
        ensures
            *final(poisoned) == (if leaves_unusable(disconnected, error) {
                *old(poisoned)
            } else {
                false
            }),
            *final(poisoned) == poisoned_after(*old(poisoned), disconnected, error),
    {
        if !connection_result_requires_discard(disconnected, error) {
            self.complete(poisoned);
        }
    }

    /// Ends the use of a commit: it ran to its end unless its error breaks the connection.
    pub fn finish_commit(self, poisoned: &mut bool, error: Option<ErrorKind>)
        ensures
            *final(poisoned) == (if error is Some && breaks_connection(error->0) {
                *old(poisoned)
            } else {
                false
            }),
            *final(poisoned) == poisoned_after(*old(poisoned), false, error),
    {
        let discard = match error {
            Some(kind) => connection_error_requires_discard(kind),
            None => false,
        };
        if !discard {
            self.complete(poisoned);
        }
    }
}

/// How a transaction ended.
#[derive(Debug)]
pub enum TransactionEnd<T, E> {
    /// The connection is good: the operation is complete, with this result.
    Completed(Result<T, (ErrorKind, E)>),
    /// The connection is to be cancelled, and the error returned.
    Failed(E),
    /// The connection is to be cancelled, though the result was good.
    LeftUnusable(ConnectionUseError),
}

/// How a transaction ends, by what became of its connection and by its result.
pub open spec fn transaction_end<T, E>(
    poisoned: bool,
    disconnected: bool,
    result: Result<T, (ErrorKind, E)>,
) -> TransactionEnd<T, E> {
    let error = match result {
        Ok(_) => None,
        Err((kind, _)) => Some(kind),
    };
    if poisoned || leaves_unusable(disconnected, error) {
        match result {
            Ok(_) => TransactionEnd::LeftUnusable(ConnectionUseError::TransactionLeftUnusable),
            Err((_, error)) => TransactionEnd::Failed(error),
        }
    } else {
        TransactionEnd::Completed(result)
    }
}

/// Tells how a transaction ended.
pub fn transaction_finished<T, E>(
    poisoned: bool,
    disconnected: bool,
    result: Result<T, (ErrorKind, E)>,
) -> (end: TransactionEnd<T, E>)
    ensures
        ({
            let error = match result {
                Ok(_) => None,
                Err((kind, _)) => Some(kind),
            };
            end == (if poisoned || leaves_unusable(disconnected, error) {
                match result {
                    Ok(_) => TransactionEnd::<T, E>::LeftUnusable(
                        ConnectionUseError::TransactionLeftUnusable,
                    ),
                    Err((_, error)) => TransactionEnd::<T, E>::Failed(error),
                }
            } else {
                TransactionEnd::<T, E>::Completed(result)
            })
        }),
        end == transaction_end(poisoned, disconnected, result),
{
    let error: Option<ErrorKind> = match &result {
        Ok(_) => None,
        Err((kind, _)) => Some(*kind),
    };
    if poisoned || connection_result_requires_discard(disconnected, error) {
        match result {
            Ok(_) => TransactionEnd::LeftUnusable(ConnectionUseError::TransactionLeftUnusable),
            Err((_, error)) => TransactionEnd::Failed(error),
        }
    } else {
        TransactionEnd::Completed(result)
    }
}

/// Why a new connection is turned away.
#[derive(Clone, Copy, Debug, PartialEq, Eq, Structural)]
pub enum LeaderError {
    /// The server did not say what it is.
    NoAnswer,
    /// The server takes no writes. This is an error of operation.
    ReadOnly,
}

impl LeaderError {
    pub open spec fn text(self) -> Seq<char> {
        match self {
            LeaderError::NoAnswer => "expected a result"@,
            LeaderError::ReadOnly => "Connected to a read-only database"@,
        }
    }

    pub fn message(self) -> (message: &'static str)
        ensures
            message@ == self.text(),
    {
        match self {
            LeaderError::NoAnswer => "expected a result",
            LeaderError::ReadOnly => "Connected to a read-only database",
        }
    }
}

/// Whether a server that was asked whether it is read-only is the one that takes writes.
pub fn check_leader(read_only: Option<bool>) -> (checked: Result<(), LeaderError>)
    ensures
        checked == (match read_only {
            None => Err(LeaderError::NoAnswer),
            Some(true) => Err(LeaderError::ReadOnly),
            Some(false) => Ok(()),
        }),
{
    match read_only {
        None => Err(LeaderError::NoAnswer),
        Some(read_only) => if read_only {
            Err(LeaderError::ReadOnly)
        } else {
            Ok(())
        },
    }
}

/// How a pool of connections is set up.
#[derive(Clone, Copy, Debug, PartialEq, Eq, Structural)]
pub struct PoolSettings {
    pub min_connections: usize,
    pub max_connections: usize,
    pub ttl_check_interval: Duration,
    pub inactive_connection_ttl: Duration,
    pub max_connection_lifetime: Duration,
    pub max_connection_lifetime_jitter: Duration,
}

/// The settings of the pool of data connections. No connection is kept for its own sake, so that
/// idle ones go; and the time that a connection lives is spread by a fifth, half of it by how often
/// that is looked at.
pub fn pool_settings(
    max_connections: usize,
    inactive_connection_lifetime: Duration,
    max_connection_lifetime: Duration,
) -> (settings: PoolSettings)
    ensures
        settings.min_connections == 0,
        settings.max_connections == max_connections,
        settings.ttl_check_interval@ == max_connection_lifetime@ / 10,
        settings.inactive_connection_ttl == inactive_connection_lifetime,
        settings.max_connection_lifetime == max_connection_lifetime,
        settings.max_connection_lifetime_jitter@ == max_connection_lifetime@ / 10,
{
    let tenth = max_connection_lifetime.divided_by(10);
    PoolSettings {
        min_connections: 0,
        max_connections,
        ttl_check_interval: tenth,
        inactive_connection_ttl: inactive_connection_lifetime,
        max_connection_lifetime,
        max_connection_lifetime_jitter: tenth,
    }
}

/// What an operation owns when it ends is either kept or cancelled, never both and never neither;
/// and what was given up for cancellation before is not cancelled again.
pub proof fn values_are_kept_or_canceled<T, R>(operation: OwnershipModel<T, R>)
    ensures
        operation.owned is Some ==> (operation.kept() is Some) != (operation.canceled() is Some),
        operation.owned is None ==> operation.kept() is None && operation.canceled() is None,
        operation.canceled() is Some ==> !operation.completed,
{
}

/// An operation is attempted at most once more than it may be retried: with each run again the
/// number of retries that are left falls.
pub proof fn attempts_are_bounded<E>(before: RetryModel<E>, again: RetryModel<E>)
    requires
        before.wf(),
        before.pending is Some,
        before.pending->0.retries,
        again.attempt == before.attempt + 1,
        again.max_retries == before.max_retries,
    ensures
        again.attempt <= again.max_retries,
        again.max_retries - again.attempt < before.max_retries - before.attempt,
{
}

/// Only errors of operation are retried, and every one that breaks the connection has it replaced,
/// whether it is retried or not.
pub proof fn broken_connections_are_replaced<E>(attempts: RetryModel<E>, kind: ErrorKind)
    ensures
        attempts.retries(kind) ==> kind == ErrorKind::Operational,
        breaks_connection(kind) ==> leaves_unusable(false, Some(kind)),
        !breaks_connection(kind) && leaves_unusable(true, Some(kind)) ==> discard_notice(
            attempts.retries(kind),
            kind,
        ) == DiscardNotice::DiscardingDisconnected,
{
}

/// The attempts at an operation of which each failed with an error of operation and got a new
/// connection.
pub open spec fn after_operational_failures<E>(
    attempts: RetryModel<E>,
    errors: Seq<E>,
) -> RetryModel<E>
    decreases errors.len(),
{
    if errors.len() == 0 {
        attempts
    } else {
        after_operational_failures(attempts, errors.drop_last()).failed(
            ErrorKind::Operational,
            errors.last(),
        ).on_a_new_connection()
    }
}

/// An operation runs again after an error of operation as long as retries are left, and each of
/// them is used: of an operation that may be retried so many times the first so many failures are
/// followed by another attempt, and one more is not. No other failure is followed by one.
pub proof fn every_retry_is_used<E>(
    max_retries: nat,
    errors: Seq<E>,
    kind: ErrorKind,
    error: E,
)
    requires
        errors.len() <= max_retries,
    ensures
        ({
            let start = RetryModel { attempt: 0, max_retries, pending: None::<FailedAttempt<E>> };
            let reached = after_operational_failures(start, errors);
            &&& reached.attempt == errors.len()
            &&& reached.max_retries == max_retries
            &&& reached.pending is None
            &&& reached.failed(kind, error).pending matches Some(failed) && failed.error == error
                && (failed.retries <==> kind == ErrorKind::Operational && errors.len() < max_retries)
        }),
    decreases errors.len(),
{
    if errors.len() > 0 {
        every_retry_is_used(max_retries, errors.drop_last(), ErrorKind::Operational, errors.last());
    }
}

/// An error breaks the connection unless it is a whole answer of the server on a connection that is
/// still there; what was read of a broken connection is of no use.
pub proof fn only_whole_answers_keep_the_connection(disconnected: bool, error: Option<ErrorKind>)
    ensures
        leaves_unusable(disconnected, error) <==> disconnected || error == Some(
            ErrorKind::Operational,
        ) || error == Some(ErrorKind::Timeout),
        leaves_unusable(true, error),
        !leaves_unusable(false, None),
        !leaves_unusable(false, Some(ErrorKind::Other)),
{
}

/// What is reported of a connection that is given up tells whether the operation runs again, and if
/// not, whether the error or a lost connection was the reason.
pub proof fn notices_tell_why<E>(attempts: RetryModel<E>, kind: ErrorKind)
    ensures
        discard_notice(attempts.retries(kind), kind) == DiscardNotice::Retrying <==> kind
            == ErrorKind::Operational && attempts.attempt < attempts.max_retries,
        discard_notice(attempts.retries(kind), kind) == DiscardNotice::DiscardingDisconnected
            <==> kind == ErrorKind::Other,
        kind == ErrorKind::Timeout ==> discard_notice(attempts.retries(kind), kind)
            == DiscardNotice::DiscardingAfterError,
{
}

/// An answer counts whether or not the time is up, and is never taken for a time-out; without an
/// answer nothing is known until the time is up, and then the operation timed out.
pub proof fn answers_count_even_late<R>(answer: Option<Result<R, MySqlError>>, timer_elapsed: bool)
    ensures
        timed(answer, timer_elapsed) is None <==> answer is None && !timer_elapsed,
        timed(answer, timer_elapsed) == Some(Err::<R, _>(DatabaseError::Timeout)) <==> answer is None
            && timer_elapsed,
        answer matches Some(Ok(value)) ==> timed(answer, timer_elapsed) == Some(
            Ok::<R, DatabaseError>(value),
        ),
        answer matches Some(Err(error)) ==> timed(answer, timer_elapsed) == Some(
            Err::<R, _>(DatabaseError::Operational(error)),
        ) || timed(answer, timer_elapsed) == Some(Err::<R, _>(DatabaseError::Other(error))),
        answer is Some ==> timed(answer, true) == timed(answer, false),
{
}

/// An error of the connection passes by itself, and of the errors of the server those by which it
/// says that it takes no writes, lost its connection, shuts down or has too many connections. What
/// the server does not know passes if its text names an outage, wherever in it that stands. No
/// other error does.
pub proof fn outages_pass_by_themselves(error: MySqlError, before: Seq<char>, after: Seq<char>)
    ensures
        classified(error).error_kind() != ErrorKind::Timeout,
        error is PoolDisconnected || error is ConnectionClosed || error is Io ==> classified(error)
            == DatabaseError::Operational(error),
        error is Other ==> classified(error) == DatabaseError::Other(error),
        error matches MySqlError::Server { code, message } ==> {
            let outage = exists|from: int, to: int|
                0 <= from <= to <= message@.len() && {
                    let part = #[trigger] message@.subrange(from, to);
                    part == "primary is not serving"@ || part == "for tx killer rollback"@ || part
                        == "connection pool timed out"@ || part == "connection timed out"@
                };
            classified(error).error_kind() == ErrorKind::Operational <==> code == 1290 || code
                == 2013 || code == 1053 || code == 1040 || (code == 1105 && outage)
        },
        names_an_outage(before + "primary is not serving"@ + after),
        names_an_outage(before + "for tx killer rollback"@ + after),
        names_an_outage(before + "connection pool timed out"@ + after),
        names_an_outage(before + "connection timed out"@ + after),
{
    lemma_occurs_between(before, "primary is not serving"@, after);
    lemma_occurs_between(before, "for tx killer rollback"@, after);
    lemma_occurs_between(before, "connection pool timed out"@, after);
    lemma_occurs_between(before, "connection timed out"@, after);
    if let MySqlError::Server { code, message } = error {
        lemma_occurs_as_part(message@, "primary is not serving"@);
        lemma_occurs_as_part(message@, "for tx killer rollback"@);
        lemma_occurs_as_part(message@, "connection pool timed out"@);
        lemma_occurs_as_part(message@, "connection timed out"@);
    }
}

proof fn lemma_occurs_between(before: Seq<char>, pattern: Seq<char>, after: Seq<char>)
    ensures
        occurs(before + pattern + after, pattern),
{
    let text = before + pattern + after;
    let at = before.len() as int;
    assert(text.subrange(at, at + pattern.len()) =~= pattern);
    assert(crate::text::occurs_at(text, pattern, at));
}

proof fn lemma_occurs_as_part(text: Seq<char>, pattern: Seq<char>)
    ensures
        occurs(text, pattern) <==> exists|from: int, to: int|
            0 <= from <= to <= text.len() && #[trigger] text.subrange(from, to) == pattern,
{
    if occurs(text, pattern) {
        let at = choose|at: int| crate::text::occurs_at(text, pattern, at);
        assert(text.subrange(at, at + pattern.len()) == pattern);
    }
    if exists|from: int, to: int|
        0 <= from <= to <= text.len() && #[trigger] text.subrange(from, to) == pattern {
        let (from, to) = choose|from: int, to: int|
            0 <= from <= to <= text.len() && #[trigger] text.subrange(from, to) == pattern;
        assert(to == from + pattern.len());
        assert(crate::text::occurs_at(text, pattern, from));
    }
}

/// An operation that ran to its end leaves its value in its place, and any other gives it up with
/// the reservation to cancel it.
pub proof fn completed_operations_keep_their_value<T, R>(
    completed: bool,
    value: T,
    reservation: R,
)
    ensures
        ({
            let operation = OwnershipModel {
                completed,
                owned: Some(Owned { value, reservation }),
            };
            &&& completed <==> operation.kept() == Some(value)
            &&& !completed <==> operation.canceled() == Some((value, reservation))
        }),
{
}

/// A connection that was in use is free of suspicion only after a whole answer on a connection that
/// is still there; one that was given free before stays so.
pub proof fn whole_answers_free_the_connection(disconnected: bool, error: Option<ErrorKind>)
    ensures
        !poisoned_after(true, disconnected, error) <==> !disconnected && (error is None || error
            == Some(ErrorKind::Other)),
        !poisoned_after(false, disconnected, error),
{
}

/// A transaction is complete if and only if none of its uses was cut short, its connection is
/// there, and its error, if it has one, is a whole answer; its result is then returned as it is. A
/// good result on a bad connection is not returned, and an error always is.
pub proof fn transactions_complete_on_good_connections<T, E>(
    poisoned: bool,
    disconnected: bool,
    result: Result<T, (ErrorKind, E)>,
)
    ensures
        ({
            let end = transaction_end(poisoned, disconnected, result);
            let good = !poisoned && !disconnected && (result matches Err((kind, _)) ==> kind
                == ErrorKind::Other);
            &&& good <==> end == TransactionEnd::<T, E>::Completed(result)
            &&& !good && result is Ok ==> end == TransactionEnd::<T, E>::LeftUnusable(
                ConnectionUseError::TransactionLeftUnusable,
            )
            &&& !good && result is Err ==> end == TransactionEnd::<T, E>::Failed(
                result->Err_0.1,
            )
        }),
{
}

} // verus!

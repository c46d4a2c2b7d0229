use std::cell::RefCell;
use std::sync::atomic::{AtomicBool, Ordering};
use std::sync::Arc;

use backend_runtime::mysql_cancellation::{
    completed, dispatch_cancellation, kill_answered, kill_statement, ActiveGenerations,
    CancellationDispatch, CancellationRequest, CancellationRoute, CancellationTarget,
    CancellationTerminal, CancellationUnavailable, CancellationWorker, ConnectionIdentity,
    ControlDisposal, ControlStep, InitializeStep, MySqlCancellationController,
    MySqlConnectionIdTopology, RequestStep, ReserveStep, WorkerEffect, WorkerMessage, WorkerStep,
};
use backend_runtime::mysql_connection::{
    check_leader, classify_mysql_error, connection_error_requires_discard,
    connection_result_requires_discard, discarded, plan_statement, pool_settings,
    transaction_finished, with_timeout, ConnectionUseError, DatabaseError, DiscardNotice,
    ErrorKind, LeaderError, MySqlError, OperationOwnership, PlannedStatement, RetryLoop,
    RetryStep, TransactionConnectionUse, TransactionEnd,
};
use backend_runtime::mysql_statement::{
    format_mysql_binary_protocol, format_mysql_text_protocol, MissingArgument, MySqlValue,
};
use backend_runtime::mysql_url::{ca_file, cluster_name, derive_cluster_name, ssl_turned_off};
use backend_runtime::time::{Duration, Moment};

fn identity(id: u32, generation: u64) -> ConnectionIdentity {
    ConnectionIdentity { id, generation }
}

fn at(millis: u64) -> Moment {
    Moment::after_origin(Duration::from_millis(1_000_000 + millis))
}

/// A connection that remembers whether it was closed.
struct TestConnection {
    disconnected: Arc<AtomicBool>,
    recycled: Arc<AtomicBool>,
}

impl TestConnection {
    fn force_disconnect(self) {
        assert!(!self.disconnected.swap(true, Ordering::SeqCst));
    }
}

impl Drop for TestConnection {
    fn drop(&mut self) {
        if !self.disconnected.load(Ordering::SeqCst) {
            self.recycled.store(true, Ordering::SeqCst);
        }
    }
}

fn connection() -> (TestConnection, Arc<AtomicBool>, Arc<AtomicBool>) {
    let disconnected = Arc::new(AtomicBool::new(false));
    let recycled = Arc::new(AtomicBool::new(false));
    (
        TestConnection { disconnected: disconnected.clone(), recycled: recycled.clone() },
        disconnected,
        recycled,
    )
}

#[test]
fn untrusted_topology_disconnects_without_kill_or_recycling() {
    let (connection, disconnected, recycled) = connection();
    let server_side_dispatched = Arc::new(AtomicBool::new(false));

    let dispatch = dispatch_cancellation(
        connection,
        CancellationRoute::<()>::ClientDisconnectOnly,
        {
            let server_side_dispatched = server_side_dispatched.clone();
            move |_connection: TestConnection, ()| {
                server_side_dispatched.store(true, Ordering::SeqCst);
            }
        },
    );

    match dispatch {
        CancellationDispatch::ClientDisconnected(connection) => connection.force_disconnect(),
        CancellationDispatch::TrustedSingleNamespace(()) => panic!("sent to the server"),
    }
    assert!(disconnected.load(Ordering::SeqCst));
    assert!(!recycled.load(Ordering::SeqCst));
    assert!(!server_side_dispatched.load(Ordering::SeqCst));
}

#[test]
fn trusted_single_namespace_dispatches_without_early_disconnect() {
    let (connection, disconnected, _) = connection();
    let server_side_dispatched = Arc::new(AtomicBool::new(false));

    let dispatch = dispatch_cancellation(
        connection,
        CancellationRoute::TrustedSingleNamespace(()),
        {
            let disconnected = disconnected.clone();
            let server_side_dispatched = server_side_dispatched.clone();
            move |connection: TestConnection, ()| {
                assert!(!disconnected.load(Ordering::SeqCst));
                server_side_dispatched.store(true, Ordering::SeqCst);
                std::mem::forget(connection);
                23
            }
        },
    );

    assert!(matches!(dispatch, CancellationDispatch::TrustedSingleNamespace(23)));
    assert!(server_side_dispatched.load(Ordering::SeqCst));
    assert!(!disconnected.load(Ordering::SeqCst));
}

fn trusted() -> MySqlCancellationController {
    let mut controller =
        MySqlCancellationController::new(MySqlConnectionIdTopology::TrustedSingleNamespace);
    controller.control_connected(Some(0)).unwrap();
    controller
}

fn target(id: u32, generation: u64) -> CancellationTarget {
    CancellationTarget { identity: identity(id, generation), requested_at: at(0) }
}

#[test]
fn newer_local_generation_makes_cancellation_stale_without_control_acquisition() {
    let mut controller = trusted();
    controller.register(identity(17, 12));
    assert_eq!(
        controller.begin_request(target(17, 11), at(0)),
        RequestStep::Finished(CancellationTerminal::StaleGeneration)
    );
}

#[test]
fn unregister_removes_only_the_matching_physical_generation() {
    let mut active = ActiveGenerations::new();
    active.register_identity(identity(17, 12));
    active.unregister_identity(identity(17, 11));
    assert_eq!(active.generation(17), Some(12));

    active.unregister_identity(identity(17, 12));
    assert_eq!(active.generation(17), None);
}

#[test]
fn kill_statement_contains_only_numeric_connection_id() {
    assert_eq!(kill_statement(identity(u32::MAX, 1)), "KILL CONNECTION 4294967295");
}

#[test]
fn a_kill_is_sent_only_over_the_first_control_connection_and_in_time() {
    let mut controller = trusted();
    controller.register(identity(17, 12));
    let target = target(17, 12);
    assert_eq!(
        controller.begin_request(target, at(1_999)),
        RequestStep::AcquireControl { deadline: at(2_000) }
    );
    assert_eq!(
        controller.begin_request(target, at(2_000)),
        RequestStep::Finished(CancellationTerminal::ControlFailure)
    );
    assert!(matches!(
        controller.control_acquired(target, None),
        ControlStep::Finished {
            terminal: CancellationTerminal::ControlFailure,
            control: ControlDisposal::Nothing
        }
    ));
    assert!(matches!(
        controller.control_acquired(target, Some(1)),
        ControlStep::Finished {
            terminal: CancellationTerminal::ControlFailure,
            control: ControlDisposal::Discard
        }
    ));
    match controller.control_acquired(target, Some(0)) {
        ControlStep::Kill { statement } => assert_eq!(statement, "KILL CONNECTION 17"),
        ControlStep::Finished { .. } => panic!("a live target was not killed"),
    }
    controller.register(identity(17, 13));
    assert!(matches!(
        controller.control_acquired(target, Some(0)),
        ControlStep::Finished {
            terminal: CancellationTerminal::StaleGeneration,
            control: ControlDisposal::Release
        }
    ));
    assert_eq!(
        kill_answered(true),
        (CancellationTerminal::KillAccepted, ControlDisposal::Release)
    );
    assert_eq!(
        kill_answered(false),
        (CancellationTerminal::ControlFailure, ControlDisposal::Discard)
    );
}

fn request(
    id: u32,
    generation: u64,
) -> (CancellationRequest<TestConnection>, Arc<AtomicBool>) {
    let (connection, disconnected, _) = connection();
    (CancellationRequest { connection, target: target(id, generation) }, disconnected)
}

/// Does what finishing a request asks for, and says in which order.
fn perform(
    controller: &mut MySqlCancellationController,
    effects: Vec<WorkerEffect<TestConnection>>,
) -> Vec<&'static str> {
    effects
        .into_iter()
        .map(|effect| match effect {
            WorkerEffect::CloseAdmission => "close",
            WorkerEffect::Disconnect(connection) => {
                connection.force_disconnect();
                "disconnect"
            }
            WorkerEffect::Unregister(identity) => {
                controller.unregister_identity(identity);
                "unregister"
            }
            WorkerEffect::LogTerminal { .. } => "log",
            WorkerEffect::Complete(_) => "complete",
        })
        .collect()
}

#[test]
fn target_connection_remains_open_through_kill_response() {
    let mut controller = trusted();
    controller.register(identity(1, 1));
    let mut worker = CancellationWorker::new();
    let (request, disconnected) = request(1, 1);
    let request = match worker.receive(Some(WorkerMessage::Cancel(request))) {
        WorkerStep::Process(request) => request,
        _ => panic!("a request was not processed"),
    };
    assert!(!disconnected.load(Ordering::SeqCst));
    let effects = worker.finish(request, CancellationTerminal::KillAccepted);
    assert!(!disconnected.load(Ordering::SeqCst));
    // The connection is in use until what finishing asks for is done.
    assert!(matches!(
        controller.begin_request(target(1, 1), at(0)),
        RequestStep::AcquireControl { .. }
    ));
    assert!(matches!(effects[1], WorkerEffect::Unregister(unused) if unused == identity(1, 1)));
    assert!(matches!(
        effects[2],
        WorkerEffect::LogTerminal { terminal: CancellationTerminal::KillAccepted, requested_at }
            if at(5).saturating_duration_since(requested_at) == Duration::from_millis(5)
    ));
    // The connection is closed, and then out of use, before the end is made known.
    assert_eq!(
        perform(&mut controller, effects),
        vec!["disconnect", "unregister", "log", "complete"]
    );
    assert!(disconnected.load(Ordering::SeqCst));
    assert_eq!(
        controller.begin_request(target(1, 1), at(5)),
        RequestStep::Finished(CancellationTerminal::StaleGeneration)
    );
}

#[test]
fn control_failure_closes_new_reservations_and_drains_existing_reservations() {
    let mut controller = trusted();
    controller.register(identity(1, 1));
    controller.register(identity(2, 2));
    let mut worker = CancellationWorker::new();
    let (first, first_disconnected) = request(1, 1);
    let (second, second_disconnected) = request(2, 2);
    let first = match worker.receive(Some(WorkerMessage::Cancel(first))) {
        WorkerStep::Process(request) => request,
        _ => panic!("a request was not processed"),
    };
    let effects = worker.finish(first, CancellationTerminal::ControlFailure);
    // Admission is closed before the failure is made known.
    assert_eq!(
        perform(&mut controller, effects),
        vec!["close", "disconnect", "unregister", "log", "complete"]
    );
    assert!(first_disconnected.load(Ordering::SeqCst));

    // A request with a reservation from before is still taken, and not killed.
    match worker.receive(Some(WorkerMessage::Cancel(second))) {
        WorkerStep::Finish(request, terminal) => {
            assert_eq!(terminal, CancellationTerminal::ControlFailure);
            let effects = worker.finish(request, terminal);
            assert_eq!(
                perform(&mut controller, effects),
                vec!["close", "disconnect", "unregister", "log", "complete"]
            );
        }
        _ => panic!("a request was processed after the control connection failed"),
    }
    assert!(second_disconnected.load(Ordering::SeqCst));
    assert!(matches!(worker.receive::<TestConnection>(None), WorkerStep::Stop));
    assert!(matches!(
        worker.receive::<TestConnection>(Some(WorkerMessage::Shutdown)),
        WorkerStep::Stop
    ));
}

#[test]
fn cancellation_is_reserved_as_the_topology_says() {
    let untrusted = MySqlCancellationController::new(MySqlConnectionIdTopology::Untrusted);
    assert_eq!(untrusted.initialize(), InitializeStep::Ready);
    assert_eq!(untrusted.reserve(), ReserveStep::ClientDisconnectOnly);

    let mut failed =
        MySqlCancellationController::new(MySqlConnectionIdTopology::TrustedSingleNamespace);
    assert_eq!(failed.initialize(), InitializeStep::Connect);
    assert_eq!(failed.reserve(), ReserveStep::Connect);
    let error = failed.control_connected(None).unwrap_err();
    assert_eq!(error.message(), "MySQL server-side cancellation is unavailable");
    // Only the first outcome counts.
    assert!(failed.control_connected(Some(3)).is_err());
    assert_eq!(failed.reserve(), ReserveStep::Unavailable(CancellationUnavailable));

    assert_eq!(trusted().reserve(), ReserveStep::ReservePlace);
    assert!(matches!(
        MySqlCancellationController::reserved(Some(5)),
        Ok(CancellationRoute::TrustedSingleNamespace(5))
    ));
    assert!(MySqlCancellationController::reserved::<u32>(None).is_err());
}

#[test]
fn untrusted_connections_are_not_kept_track_of() {
    let mut untrusted = MySqlCancellationController::new(MySqlConnectionIdTopology::Untrusted);
    untrusted.register(identity(1, 1));
    assert_eq!(
        untrusted.begin_request(target(1, 1), at(0)),
        RequestStep::Finished(CancellationTerminal::StaleGeneration)
    );
    let mut known = trusted();
    known.register(identity(1, 1));
    known.unregister(identity(1, 1));
    assert_eq!(
        known.begin_request(target(1, 1), at(0)),
        RequestStep::Finished(CancellationTerminal::StaleGeneration)
    );
}

#[test]
fn a_worker_that_goes_away_counts_as_a_control_failure() {
    assert_eq!(completed(None), CancellationTerminal::ControlFailure);
    assert_eq!(
        completed(Some(CancellationTerminal::KillAccepted)),
        CancellationTerminal::KillAccepted
    );
    assert_eq!(CancellationTerminal::ClientDisconnected.metric_label(), "client_disconnected");
    assert_eq!(CancellationTerminal::KillAccepted.metric_label(), "kill_accepted");
    assert_eq!(CancellationTerminal::StaleGeneration.metric_label(), "stale_generation");
    assert_eq!(CancellationTerminal::ControlFailure.metric_label(), "control_failure");
}

#[test]
fn incomplete_operation_drop_cancels_once_and_removes_owned_value() {
    let mut value = Some(1);
    let ownership = OperationOwnership::new(&mut value, 10);
    let canceled = ownership.finish(&mut value);

    assert_eq!(value, None);
    assert_eq!(canceled, Some((1, 10)));
}

#[test]
fn replacement_is_registered_only_when_installed_with_reservation() {
    let registrations = RefCell::new(Vec::new());
    let mut value = Some(1);
    let mut ownership = OperationOwnership::new(&mut value, 10);

    assert_eq!(ownership.take_for_cancellation(), Some((1, 10)));
    assert!(!ownership.owns_value());
    assert!(registrations.borrow().is_empty());
    ownership.install(2, 20, |value: &i32| registrations.borrow_mut().push(*value));
    assert_eq!(*ownership.value(), 2);
    ownership.complete();
    let canceled = ownership.finish(&mut value);

    assert_eq!(value, Some(2));
    assert_eq!(*registrations.borrow(), vec![2]);
    assert_eq!(canceled, None);
}

#[test]
fn cancellation_take_cannot_discard_the_same_value_twice() {
    let mut value = Some(1);
    let mut ownership = OperationOwnership::new(&mut value, 10);

    assert_eq!(ownership.take_for_cancellation(), Some((1, 10)));
    assert_eq!(ownership.take_for_cancellation(), None);
    assert_eq!(ownership.finish(&mut value), None);
}

#[test]
fn failed_replacement_reservation_leaves_ownership_empty_and_unregistered() {
    let mut value = Some(1);
    let mut ownership = OperationOwnership::new(&mut value, 10);
    assert_eq!(ownership.take_for_cancellation(), Some((1, 10)));
    let _replacement_acquired_before_failed_reservation = 2;
    assert_eq!(ownership.finish(&mut value), None);
    assert_eq!(value, None);
    assert_eq!(
        OperationOwnership::<i32, i32>::begin(&value),
        Err(ConnectionUseError::Canceled)
    );
    assert_eq!(OperationOwnership::<i32, i32>::begin(&Some(3)), Ok(()));
}

#[test]
fn poisoned_transaction_operation_prevents_reuse() {
    let mut poisoned = false;
    {
        let _operation = TransactionConnectionUse::begin(&mut poisoned).unwrap();
    }
    assert!(poisoned);
    assert!(TransactionConnectionUse::begin(&mut poisoned).is_err());
}

#[test]
fn completed_transaction_operation_allows_reuse() {
    let mut poisoned = false;
    let operation = TransactionConnectionUse::begin(&mut poisoned).unwrap();
    operation.complete(&mut poisoned);
    assert!(!poisoned);
    assert!(TransactionConnectionUse::begin(&mut poisoned).is_ok());
}

#[test]
fn a_statement_that_breaks_its_connection_poisons_the_transaction() {
    let mut poisoned = false;
    let operation = TransactionConnectionUse::begin(&mut poisoned).unwrap();
    operation.finish_statement(&mut poisoned, false, Some(ErrorKind::Other));
    assert!(!poisoned);
    let operation = TransactionConnectionUse::begin(&mut poisoned).unwrap();
    operation.finish_commit(&mut poisoned, None);
    assert!(!poisoned);
    let operation = TransactionConnectionUse::begin(&mut poisoned).unwrap();
    operation.finish_statement(&mut poisoned, false, Some(ErrorKind::Timeout));
    assert!(poisoned);
    assert_eq!(
        TransactionConnectionUse::begin(&mut poisoned).unwrap_err().message(),
        "MySQL transaction connection cannot be reused after a canceled or incomplete operation"
    );
}

#[test]
fn transactions_end_with_a_good_connection_or_an_error() {
    assert!(matches!(
        transaction_finished::<u32, &str>(false, false, Ok(1)),
        TransactionEnd::Completed(Ok(1))
    ));
    assert!(matches!(
        transaction_finished::<u32, &str>(false, false, Err((ErrorKind::Other, "bad"))),
        TransactionEnd::Completed(Err((ErrorKind::Other, "bad")))
    ));
    assert!(matches!(
        transaction_finished::<u32, &str>(true, false, Ok(1)),
        TransactionEnd::LeftUnusable(ConnectionUseError::TransactionLeftUnusable)
    ));
    assert!(matches!(
        transaction_finished::<u32, &str>(false, true, Err((ErrorKind::Other, "bad"))),
        TransactionEnd::Failed("bad")
    ));
}

fn server(code: u16, message: &str) -> MySqlError {
    MySqlError::Server { code, message: message.to_owned() }
}

#[test]
fn errors_of_operation_are_told_from_others() {
    for error in [
        MySqlError::PoolDisconnected,
        MySqlError::ConnectionClosed,
        MySqlError::Io,
        server(1290, ""),
        server(2013, ""),
        server(1053, ""),
        server(1040, ""),
        server(1105, "target: the primary is not serving"),
        server(1105, "ended at 1 for tx killer rollback"),
        server(1105, "vttablet: connection pool timed out"),
        server(1105, "vttablet: connection timed out"),
    ] {
        assert_eq!(classify_mysql_error(error).kind(), ErrorKind::Operational);
    }
    for error in [
        MySqlError::Other,
        server(1105, "syntax error"),
        server(1062, "the primary is not serving"),
    ] {
        assert_eq!(classify_mysql_error(error).kind(), ErrorKind::Other);
    }
    assert!(connection_error_requires_discard(ErrorKind::Timeout));
    assert!(connection_result_requires_discard(true, None));
    assert!(!connection_result_requires_discard(false, Some(ErrorKind::Other)));
}

#[test]
fn an_answer_counts_even_where_the_time_is_up() {
    assert!(matches!(with_timeout(Some(Ok(1)), true), Some(Ok(1))));
    assert!(matches!(
        with_timeout::<u32>(Some(Err(MySqlError::Io)), true),
        Some(Err(DatabaseError::Operational(MySqlError::Io)))
    ));
    assert!(matches!(with_timeout::<u32>(None, true), Some(Err(DatabaseError::Timeout))));
    assert!(with_timeout::<u32>(None, false).is_none());
}

#[test]
fn errors_of_operation_are_retried_as_often_as_allowed() {
    let mut attempts: RetryLoop<&str> = RetryLoop::new(1);
    assert!(matches!(
        attempts.attempt_finished::<u32>(Err((ErrorKind::Operational, "first")), false),
        RetryStep::Replace(DiscardNotice::Retrying)
    ));
    assert!(attempts.is_replacing());
    assert!(matches!(attempts.replaced::<u32>(Ok(())), RetryStep::RunAgain));
    assert!(matches!(
        attempts.attempt_finished::<u32>(Err((ErrorKind::Operational, "second")), false),
        RetryStep::Replace(DiscardNotice::DiscardingAfterError)
    ));
    match attempts.replaced::<u32>(Ok(())) {
        RetryStep::Finished(handled) => {
            assert!(handled.connection_reusable);
            assert!(handled.error_connection_replaced);
            assert_eq!(handled.result, Err("second"));
            assert!(handled.completes_operation());
            assert!(handled.completes_collection());
        }
        _ => panic!("retried too often"),
    }
}

#[test]
fn timeouts_and_lost_connections_are_not_retried() {
    let mut attempts: RetryLoop<&str> = RetryLoop::new(5);
    assert!(matches!(
        attempts.attempt_finished::<u32>(Err((ErrorKind::Timeout, "slow")), false),
        RetryStep::Replace(DiscardNotice::DiscardingAfterError)
    ));
    match attempts.replaced::<u32>(Err("no other")) {
        RetryStep::Finished(handled) => {
            assert!(!handled.connection_reusable);
            assert!(!handled.error_connection_replaced);
            assert_eq!(handled.result, Err("no other"));
        }
        _ => panic!("went on without a connection"),
    }
    let mut attempts: RetryLoop<&str> = RetryLoop::new(5);
    assert!(matches!(
        attempts.attempt_finished::<u32>(Err((ErrorKind::Other, "odd")), true),
        RetryStep::Replace(DiscardNotice::DiscardingDisconnected)
    ));
    let mut attempts: RetryLoop<&str> = RetryLoop::new(5);
    match attempts.attempt_finished::<u32>(Err((ErrorKind::Other, "syntax")), false) {
        RetryStep::Finished(handled) => {
            assert!(handled.completes_operation());
            assert!(!handled.completes_collection());
        }
        _ => panic!("an ordinary error was retried"),
    }
}

#[test]
fn a_connection_is_replaced_unless_its_cancellation_failed() {
    assert_eq!(
        discarded(CancellationTerminal::ControlFailure).unwrap_err().message(),
        "MySQL server-side cancellation failed"
    );
    assert!(discarded(CancellationTerminal::StaleGeneration).is_ok());
}

#[test]
fn statements_are_filled_in_for_the_text_protocol() {
    let params = vec![
        MySqlValue::Bytes(vec![0x00, 0x0f, 0xa0, 0xff]),
        MySqlValue::NULL,
        MySqlValue::Int(-7),
        MySqlValue::UInt(u64::MAX),
    ];
    let formatted = format_mysql_text_protocol(
        "db",
        "INSERT INTO @db_name.t VALUES (?, ?, ?, ?)",
        params,
        1_000,
    )
    .unwrap();
    assert_eq!(
        formatted.text,
        "INSERT INTO `db`.t VALUES (x'000fa0ff', NULL, -7, 18446744073709551615)"
    );
    assert!(!formatted.is_large);
}

#[test]
fn missing_parameters_are_named_and_further_ones_ignored() {
    let missing =
        format_mysql_text_protocol("db", "? ?", vec![MySqlValue::Int(1)], 1_000).unwrap_err();
    assert_eq!(missing, MissingArgument { index: 1 });
    assert_eq!(missing.message(), "missing argument: 1");
    let formatted = format_mysql_text_protocol(
        "?",
        "a ? @db_name @db_nam",
        vec![MySqlValue::Int(1), MySqlValue::Int(2)],
        5,
    )
    .unwrap();
    assert_eq!(formatted.text, "a 1 `?` @db_nam");
    assert!(formatted.is_large);
}

#[test]
fn the_binary_protocol_leaves_parameters_to_the_server() {
    assert_eq!(
        format_mysql_binary_protocol("db", "SELECT ? FROM @db_name.t"),
        "SELECT ? FROM `db`.t"
    );
    match plan_statement(true, "db", "SELECT ? FROM @db_name.t", vec![MySqlValue::Int(1)], 10) {
        Ok(PlannedStatement::Prepared { statement, params }) => {
            assert_eq!(statement, "SELECT ? FROM `db`.t");
            assert_eq!(params.len(), 1);
        }
        _ => panic!("not prepared"),
    }
    match plan_statement(false, "db", "SELECT ?", vec![MySqlValue::Int(1)], 10) {
        Ok(PlannedStatement::Text(text)) => assert_eq!(text.text, "SELECT 1"),
        _ => panic!("prepared"),
    }
}

#[test]
fn clusters_are_named_by_their_url() {
    assert_eq!(derive_cluster_name("mysql://user@prod-proxy.internal:3306/db"), "prod");
    assert_eq!(derive_cluster_name("mysql://user@prod:3306/db"), "prod");
    assert_eq!(derive_cluster_name("mysql://user@aws.connect.psdb.cloud/cluster"), "cluster");
    assert_eq!(derive_cluster_name("mysql:///db"), "");
    assert_eq!(cluster_name(Some("a-proxy"), "/x"), "a");
    assert_eq!(cluster_name(None, "/x"), "");
}

#[test]
fn the_certificate_file_is_used_unless_the_url_says_otherwise() {
    let plain = "mysql://host/db";
    assert_eq!(ca_file(None, plain, true).unwrap(), None);
    assert_eq!(ca_file(Some(""), plain, true).unwrap(), None);
    assert_eq!(ca_file(Some("/ca.pem"), plain, true).unwrap().as_deref(), Some("/ca.pem"));
    assert_eq!(
        ca_file(Some("/ca.pem"), "mysql://host/db?require_ssl=false", false).unwrap(),
        None
    );
    assert_eq!(
        ca_file(Some("/ca.pem"), "mysql://host/db?require_ssl=true", false)
            .unwrap_err()
            .message(),
        "MYSQL_CA_FILE does not exist: /ca.pem"
    );
    assert!(ssl_turned_off(&vec![("require_ssl".to_owned(), "false".to_owned())]));
    assert!(!ssl_turned_off(&vec![("require_ssl".to_owned(), "False".to_owned())]));
}

#[test]
fn only_a_server_that_takes_writes_is_a_leader() {
    assert!(check_leader(Some(false)).is_ok());
    assert_eq!(check_leader(None), Err(LeaderError::NoAnswer));
    assert_eq!(
        check_leader(Some(true)).unwrap_err().message(),
        "Connected to a read-only database"
    );
}

#[test]
fn the_pool_keeps_no_connection_for_its_own_sake() {
    let settings = pool_settings(128, Duration::from_secs(90), Duration::from_secs(600));
    assert_eq!(settings.min_connections, 0);
    assert_eq!(settings.max_connections, 128);
    assert_eq!(settings.ttl_check_interval, Duration::from_secs(60));
    assert_eq!(settings.max_connection_lifetime_jitter, Duration::from_secs(60));
    assert_eq!(settings.inactive_connection_ttl, Duration::from_secs(90));
}

use twitcheventsub::dispatch::{
    handle_insert, handle_modify, handle_remove, Action, ChangeRecord, Dispatcher, Event,
    HandlerError, Report,
};
use twitcheventsub::model::{AttrValue, MyModel, ProjectionError, Snapshot};

fn image(id: Option<&str>, online: Option<bool>) -> Snapshot {
    let mut attributes = Vec::new();
    if let Some(id) = id {
        attributes.push(("StreamID".to_string(), AttrValue::Str(id.to_string())));
    }
    if let Some(b) = online {
        attributes.push(("Online".to_string(), AttrValue::Bool(b)));
    }
    Snapshot { attributes }
}

fn record(tag: &str, old_image: Snapshot, new_image: Snapshot) -> ChangeRecord {
    ChangeRecord { event_name: tag.to_string(), old_image, new_image }
}

fn model(id: &str, online: Option<bool>) -> MyModel {
    MyModel { stream_id: id.to_string(), online }
}

fn finish_err(e: HandlerError) -> Action {
    Action::Finish(Err(e))
}

#[test]
fn empty_batch_succeeds() {
    let mut d = Dispatcher::new(vec![]);
    assert_eq!(d.step(Event::Proceed), Action::Finish(Ok(())));
    assert_eq!(d.step(Event::Proceed), Action::Finish(Ok(())));
}

#[test]
fn batch_handles_each_record_in_order() {
    let records = vec![
        record("INSERT", image(None, None), image(Some("a"), Some(true))),
        record("MODIFY", image(Some("b"), Some(false)), image(Some("b"), Some(true))),
        record("REMOVE", image(Some("c"), None), image(None, None)),
    ];
    let mut d = Dispatcher::new(records);
    assert_eq!(d.step(Event::Proceed), Action::Log(Report::Inserted(model("a", Some(true)))));
    assert_eq!(d.step(Event::Proceed), Action::AcquireToken);
    assert_eq!(d.step(Event::TokenAcquired), Action::LookupUser("a".to_string()));
    assert_eq!(d.next, 0);
    assert_eq!(
        d.step(Event::UserFound("1".to_string())),
        Action::Log(Report::WentOnline("1".to_string()))
    );
    assert_eq!(d.next, 1);
    assert_eq!(
        d.step(Event::Proceed),
        Action::Log(Report::Modified(model("b", Some(true)), model("b", Some(false))))
    );
    assert_eq!(d.next, 2);
    assert_eq!(d.step(Event::Proceed), Action::Log(Report::Removed(model("c", None))));
    assert_eq!(d.next, 3);
    assert_eq!(d.step(Event::Proceed), Action::Finish(Ok(())));
}

#[test]
fn failed_record_stops_the_batch() {
    let records = vec![
        record("MODIFY", image(Some("b"), None), image(Some("b"), Some(true))),
        record("REMOVE", image(None, Some(true)), image(None, None)),
        record("REMOVE", image(Some("c"), None), image(None, None)),
    ];
    let mut d = Dispatcher::new(records);
    assert!(matches!(d.step(Event::Proceed), Action::Log(Report::Modified(_, _))));
    let failed = finish_err(HandlerError::Projection(ProjectionError::MissingId));
    assert_eq!(d.step(Event::Proceed), failed);
    assert_eq!(d.next, 1);
    for _ in 0..3 {
        assert_eq!(d.step(Event::Proceed), failed);
    }
}

#[test]
fn unknown_tag_stops_the_batch() {
    let mut d = Dispatcher::new(vec![
        record("insert", image(None, None), image(Some("a"), None)),
        record("REMOVE", image(Some("c"), None), image(None, None)),
    ]);
    assert_eq!(d.step(Event::Proceed), finish_err(HandlerError::UnknownEventName));
    assert_eq!(d.step(Event::Proceed), finish_err(HandlerError::UnknownEventName));
}

#[test]
fn insert_resolves_backend_identifier() {
    let mut d = Dispatcher::new(vec![record(
        "INSERT",
        image(None, None),
        image(Some("alice"), Some(true)),
    )]);
    assert_eq!(
        d.step(Event::Proceed),
        Action::Log(Report::Inserted(model("alice", Some(true))))
    );
    assert_eq!(d.step(Event::Proceed), Action::AcquireToken);
    assert_eq!(d.step(Event::TokenAcquired), Action::LookupUser("alice".to_string()));
    let emitted = d.step(Event::UserFound("123".to_string()));
    assert_eq!(emitted, Action::Log(Report::WentOnline("123".to_string())));
    assert_ne!(emitted, Action::Log(Report::WentOnline("alice".to_string())));
    assert_eq!(d.step(Event::Proceed), Action::Finish(Ok(())));
}

#[test]
fn modify_projects_both_rows_without_outside_calls() {
    let r = record("MODIFY", image(Some("bob"), Some(false)), image(Some("bob"), Some(true)));
    assert_eq!(handle_modify(&r), Ok((model("bob", Some(true)), model("bob", Some(false)))));
    let mut d = Dispatcher::new(vec![r]);
    assert_eq!(
        d.step(Event::Proceed),
        Action::Log(Report::Modified(model("bob", Some(true)), model("bob", Some(false))))
    );
    assert_eq!(d.step(Event::Proceed), Action::Finish(Ok(())));
}

#[test]
fn remove_projects_old_row_without_outside_calls() {
    let r = record("REMOVE", image(Some("carol"), Some(true)), image(None, None));
    let m = handle_remove(&r).unwrap();
    assert_eq!(m.stream_id, "carol");
    assert!(m.get_online());
    let mut d = Dispatcher::new(vec![r]);
    assert_eq!(
        d.step(Event::Proceed),
        Action::Log(Report::Removed(model("carol", Some(true))))
    );
    assert_eq!(d.step(Event::Proceed), Action::Finish(Ok(())));
}

#[test]
fn handlers_report_projection_errors() {
    let r = record("MODIFY", image(Some("x"), None), image(None, None));
    assert_eq!(
        handle_modify(&r),
        Err(HandlerError::Projection(ProjectionError::MissingId))
    );
    let r = record("MODIFY", image(None, None), image(Some("x"), None));
    assert_eq!(
        handle_modify(&r),
        Err(HandlerError::Projection(ProjectionError::MissingId))
    );
    let r = record("INSERT", image(Some("x"), None), image(None, None));
    assert_eq!(
        handle_insert(&r),
        Err(HandlerError::Projection(ProjectionError::MissingId))
    );
    assert_eq!(
        handle_remove(&r).unwrap(),
        model("x", None)
    );
}

fn at_lookup(id: &str) -> Dispatcher {
    let mut d = Dispatcher::new(vec![record("INSERT", image(None, None), image(Some(id), None))]);
    d.step(Event::Proceed);
    d.step(Event::Proceed);
    d
}

#[test]
fn outside_failures_stop_the_batch() {
    let mut d = at_lookup("a");
    assert_eq!(d.step(Event::CredentialsMissing), finish_err(HandlerError::MissingCredential));
    let mut d = at_lookup("a");
    assert_eq!(d.step(Event::TokenFailed), finish_err(HandlerError::TokenExchangeFailed));
    let mut d = at_lookup("a");
    d.step(Event::TokenAcquired);
    assert_eq!(d.step(Event::UserMissing), finish_err(HandlerError::UserNotFound));
    assert_eq!(d.step(Event::Proceed), finish_err(HandlerError::UserNotFound));
    let mut d = at_lookup("a");
    d.step(Event::TokenAcquired);
    assert_eq!(d.step(Event::LookupFailed), finish_err(HandlerError::LookupFailed));
}

#[test]
fn unexpected_events_stop_the_batch() {
    let mut d = Dispatcher::new(vec![]);
    assert_eq!(d.step(Event::TokenAcquired), finish_err(HandlerError::OutOfSequence));
    let mut d = at_lookup("a");
    assert_eq!(d.step(Event::Proceed), finish_err(HandlerError::OutOfSequence));
    let mut d = at_lookup("a");
    d.step(Event::TokenAcquired);
    assert_eq!(d.step(Event::Proceed), finish_err(HandlerError::OutOfSequence));
}

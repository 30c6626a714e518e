use twitcheventsub::event_name::EventName;
use twitcheventsub::model::{AttrValue, MyModel, ProjectionError, Snapshot};

fn snapshot(attrs: Vec<(&str, AttrValue)>) -> Snapshot {
    Snapshot {
        attributes: attrs.into_iter().map(|(k, v)| (k.to_string(), v)).collect(),
    }
}

fn s(v: &str) -> AttrValue {
    AttrValue::Str(v.to_string())
}

#[test]
fn classify_recognized_tags() {
    assert_eq!(EventName::from_str("INSERT"), Ok(EventName::Insert));
    assert_eq!(EventName::from_str("MODIFY"), Ok(EventName::Modify));
    assert_eq!(EventName::from_str("REMOVE"), Ok(EventName::Remove));
}

#[test]
fn classify_rejects_other_tags() {
    for tag in ["insert", "Modify", "", "REMOVE ", "DELETE", "INSERTED"] {
        assert_eq!(EventName::from_str(tag), Err(()));
    }
}

#[test]
fn tag_names_classify_back() {
    for e in [EventName::Insert, EventName::Modify, EventName::Remove] {
        assert_eq!(EventName::from_str(e.as_str()), Ok(e));
    }
    assert_eq!(EventName::Modify.as_str(), "MODIFY");
}

#[test]
fn absent_online_reads_offline() {
    let m = snapshot(vec![("StreamID", s("alice")), ("Other", AttrValue::Other)])
        .project()
        .unwrap();
    assert_eq!(m.stream_id, "alice");
    assert_eq!(m.online, None);
    assert!(!m.get_online());
}

#[test]
fn null_online_reads_offline() {
    let m = snapshot(vec![("Online", AttrValue::Null), ("StreamID", s("dave"))])
        .project()
        .unwrap();
    assert_eq!(m.online, None);
    assert!(!m.get_online());
}

#[test]
fn online_flag_is_read() {
    let m = snapshot(vec![("StreamID", s("alice")), ("Online", AttrValue::Bool(true))])
        .project()
        .unwrap();
    assert_eq!(m, MyModel { stream_id: "alice".to_string(), online: Some(true) });
    assert!(m.get_online());
}

#[test]
fn missing_id_fails() {
    assert_eq!(snapshot(vec![]).project(), Err(ProjectionError::MissingId));
    assert_eq!(
        snapshot(vec![("Online", AttrValue::Bool(true)), ("streamid", s("x"))]).project(),
        Err(ProjectionError::MissingId)
    );
    assert_eq!(
        snapshot(vec![("Online", s("not a flag"))]).project(),
        Err(ProjectionError::MissingId)
    );
}

#[test]
fn mistyped_attributes_fail() {
    assert_eq!(
        snapshot(vec![("StreamID", AttrValue::Other)]).project(),
        Err(ProjectionError::IdNotString)
    );
    assert_eq!(
        snapshot(vec![("StreamID", AttrValue::Null)]).project(),
        Err(ProjectionError::IdNotString)
    );
    assert_eq!(
        snapshot(vec![("StreamID", s("a")), ("Online", s("yes"))]).project(),
        Err(ProjectionError::OnlineNotBool)
    );
}

#[test]
fn first_attribute_of_a_name_counts() {
    let m = snapshot(vec![
        ("StreamID", s("first")),
        ("Online", AttrValue::Bool(false)),
        ("StreamID", s("second")),
        ("Online", AttrValue::Other),
    ])
    .project()
    .unwrap();
    assert_eq!(m, MyModel { stream_id: "first".to_string(), online: Some(false) });
}

#[test]
fn stored_snapshot_projects_back() {
    for online in [None, Some(false), Some(true)] {
        let m = MyModel { stream_id: "erin".to_string(), online };
        let back = m.to_snapshot().project().unwrap();
        assert_eq!(back, m);
    }
}

#[test]
fn identifier_survives_round_trip_but_absent_flag_becomes_null() {
    let original = snapshot(vec![("StreamID", s("frank"))]);
    let stored = original.project().unwrap().to_snapshot();
    assert_eq!(stored.attributes[0], ("StreamID".to_string(), s("frank")));
    assert_eq!(stored.attributes[1], ("Online".to_string(), AttrValue::Null));
    assert_ne!(stored, original);
}

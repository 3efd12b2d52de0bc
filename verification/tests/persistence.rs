use overlay_pipeline::codec::MoveTimeline;
use overlay_pipeline::errors::InputError;

#[test]
fn document_renders_seconds_with_millisecond_precision() {
    let t = MoveTimeline {
        timestamps_ms: vec![200, 400, 600],
        time_per_move_ms: 200,
        x_offset: 10,
        y_offset: 20,
    };
    assert_eq!(
        t.to_json(),
        "{\"timestamps\":[0.2,0.4,0.6],\"timePerMove\":0.2,\"x_offset\":10,\"y_offset\":20}"
    );
}

#[test]
fn document_round_trips_field_for_field() {
    let t = MoveTimeline {
        timestamps_ms: vec![100, 950, 7000, 0, 123],
        time_per_move_ms: 350,
        x_offset: -12,
        y_offset: 0,
    };
    let doc = t.to_json();
    let back = MoveTimeline::parse_json(doc.as_str()).unwrap();
    assert_eq!(back.timestamps_ms, t.timestamps_ms);
    assert_eq!(back.time_per_move_ms, t.time_per_move_ms);
    assert_eq!(back.x_offset, t.x_offset);
    assert_eq!(back.y_offset, t.y_offset);
}

#[test]
fn empty_timeline_round_trips() {
    let t = MoveTimeline {
        timestamps_ms: vec![],
        time_per_move_ms: 200,
        x_offset: 0,
        y_offset: 0,
    };
    let doc = t.to_json();
    assert_eq!(
        doc,
        "{\"timestamps\":[],\"timePerMove\":0.2,\"x_offset\":0,\"y_offset\":0}"
    );
    let back = MoveTimeline::parse_json(doc.as_str()).unwrap();
    assert_eq!(back.timestamps_ms, Vec::<i64>::new());
}

#[test]
fn negative_times_round_trip() {
    let t = MoveTimeline {
        timestamps_ms: vec![-250, 1500],
        time_per_move_ms: 1,
        x_offset: -3,
        y_offset: 9,
    };
    let doc = t.to_json();
    assert_eq!(
        doc,
        "{\"timestamps\":[-0.25,1.5],\"timePerMove\":0.001,\"x_offset\":-3,\"y_offset\":9}"
    );
    let back = MoveTimeline::parse_json(doc.as_str()).unwrap();
    assert_eq!(back.timestamps_ms, vec![-250, 1500]);
    assert_eq!(back.time_per_move_ms, 1);
}

#[test]
fn malformed_documents_are_rejected() {
    for doc in [
        "",
        "{}",
        "{\"timestamps\":[",
        "{\"timestamps\":[1,2,\"timePerMove\":0.2,\"x_offset\":0,\"y_offset\":0}",
        "{\"timestamps\":[0.2],\"timePerMove\":0.2,\"x_offset\":0,\"y_offset\":0} ",
        "{\"timestamps\":[0.2],\"timePerMove\":0.1234,\"x_offset\":0,\"y_offset\":0}",
        "{\"timestamps\":[0.2],\"timePerMove\":0.2,\"x_offset\":,\"y_offset\":0}",
    ] {
        let r = MoveTimeline::parse_json(doc);
        assert_eq!(r.unwrap_err(), InputError::MalformedDocument);
    }
}

#[test]
fn rendered_document_is_valid_json_for_serde() {
    let t = MoveTimeline {
        timestamps_ms: vec![200, 450],
        time_per_move_ms: 500,
        x_offset: 10,
        y_offset: -20,
    };
    let doc = t.to_json();
    let v: serde_json::Value = serde_json::from_str(doc.as_str()).unwrap();
    let ts = v.get("timestamps").unwrap().as_array().unwrap();
    assert_eq!(ts.len(), 2);
    assert_eq!(ts[0].as_f64().unwrap(), 0.2);
    assert_eq!(ts[1].as_f64().unwrap(), 0.45);
    assert_eq!(v.get("timePerMove").unwrap().as_f64().unwrap(), 0.5);
    assert_eq!(v.get("x_offset").unwrap().as_i64().unwrap(), 10);
    assert_eq!(v.get("y_offset").unwrap().as_i64().unwrap(), -20);
}

#[test]
fn from_parts_applies_defaults() {
    let t = MoveTimeline::from_parts(vec![500], None, None, None);
    assert_eq!(t.time_per_move_ms, 200);
    assert_eq!(t.x_offset, 0);
    assert_eq!(t.y_offset, 0);
    let u = MoveTimeline::from_parts(vec![500], Some(450), Some(1), Some(2));
    assert_eq!(u.time_per_move_ms, 450);
    assert_eq!(u.x_offset, 1);
    assert_eq!(u.y_offset, 2);
}

#[test]
fn error_messages_name_the_problem() {
    assert_eq!(
        InputError::EmptyInput.message(),
        "No timestamps found in export data"
    );
    assert_eq!(
        InputError::SegmentCountMismatch.message(),
        "The number of overlay segments must match the number of background segments."
    );
    assert_eq!(InputError::MalformedDocument.message(), "Malformed export document");
}

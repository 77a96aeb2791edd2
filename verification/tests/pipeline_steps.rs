use rsyncer::entities::Track;
use rsyncer::errors::ErrorKind;
use rsyncer::item::Outcome;
use rsyncer::ledger::Ledger;
use rsyncer::pending::{pending_tracks, Pending};
use rsyncer::pipeline::{Pipeline, PipelineAction, PipelineEvent};

fn track(id: &str) -> Track {
    Track::new(id.to_string(), "N".to_string(), "A".to_string())
}

fn pending(ids: &[&str]) -> Pending {
    let liked: Vec<Track> = ids.iter().map(|id| track(id)).collect();
    pending_tracks(&liked, &Ledger::new())
}

#[test]
fn zero_width_is_a_fault_of_the_configuration() {
    let refused = Pipeline::new(pending(&["a"]), 0).unwrap_err();
    assert_eq!(refused.kind(), ErrorKind::Configuration);
    assert_eq!(
        refused.message(),
        "Configuration error: the number of tracks in flight must be at least 1"
    );
}

#[test]
fn empty_pipeline_is_drained_at_once() {
    let pipeline = Pipeline::new(pending(&[]), 4).unwrap();
    assert!(pipeline.is_drained());
    let (pipeline, action) = pipeline.step(PipelineEvent::Ready);
    assert_eq!(action, PipelineAction::Drained);
    assert_eq!(pipeline.into_outcomes(), Vec::<Outcome>::new());
}

#[test]
fn tracks_start_in_order_up_to_the_width() {
    let pipeline = Pipeline::new(pending(&["a", "b", "c"]), 2).unwrap();
    assert_eq!(pipeline.waiting(), 3);
    assert_eq!(pipeline.in_flight(), 0);
    let (pipeline, action) = pipeline.step(PipelineEvent::Ready);
    assert_eq!(action, PipelineAction::Start(track("a")));
    let (pipeline, action) = pipeline.step(PipelineEvent::Ready);
    assert_eq!(action, PipelineAction::Start(track("b")));
    assert_eq!(pipeline.in_flight(), 2);
    let (pipeline, action) = pipeline.step(PipelineEvent::Ready);
    assert_eq!(action, PipelineAction::Wait);
    assert_eq!(pipeline.in_flight(), 2);
    assert_eq!(pipeline.waiting(), 1);
    assert!(!pipeline.is_drained());
}

#[test]
fn an_outcome_frees_a_place_for_the_next_track() {
    let pipeline = Pipeline::new(pending(&["a", "b", "c"]), 2).unwrap();
    let (pipeline, _) = pipeline.step(PipelineEvent::Ready);
    let (pipeline, _) = pipeline.step(PipelineEvent::Ready);
    let (pipeline, action) =
        pipeline.step(PipelineEvent::Completed(Outcome::NotFound("b".to_string())));
    assert_eq!(action, PipelineAction::Start(track("c")));
    assert_eq!(pipeline.in_flight(), 2);
    assert_eq!(pipeline.waiting(), 0);
    let (pipeline, action) =
        pipeline.step(PipelineEvent::Completed(Outcome::Synced("c".to_string())));
    assert_eq!(action, PipelineAction::Wait);
    let (pipeline, action) = pipeline.step(PipelineEvent::Completed(Outcome::TransportFailure(
        "a".to_string(),
        "reset".to_string(),
    )));
    assert_eq!(action, PipelineAction::Drained);
    assert!(pipeline.is_drained());
    assert_eq!(
        pipeline.into_outcomes(),
        vec![
            Outcome::NotFound("b".to_string()),
            Outcome::Synced("c".to_string()),
            Outcome::TransportFailure("a".to_string(), "reset".to_string()),
        ]
    );
}

#[test]
fn an_outcome_for_a_track_not_in_flight_is_dropped() {
    let pipeline = Pipeline::new(pending(&["a", "b"]), 1).unwrap();
    let (pipeline, _) = pipeline.step(PipelineEvent::Ready);
    let (pipeline, action) =
        pipeline.step(PipelineEvent::Completed(Outcome::Synced("b".to_string())));
    assert_eq!(action, PipelineAction::Wait);
    let (pipeline, action) =
        pipeline.step(PipelineEvent::Completed(Outcome::Synced("zzz".to_string())));
    assert_eq!(action, PipelineAction::Wait);
    assert_eq!(pipeline.in_flight(), 1);
    let (pipeline, action) =
        pipeline.step(PipelineEvent::Completed(Outcome::Synced("a".to_string())));
    assert_eq!(action, PipelineAction::Start(track("b")));
    let (pipeline, action) =
        pipeline.step(PipelineEvent::Completed(Outcome::Synced("a".to_string())));
    assert_eq!(action, PipelineAction::Wait);
    assert_eq!(pipeline.into_outcomes(), vec![Outcome::Synced("a".to_string())]);
}

#[test]
fn width_one_works_on_one_track_at_a_time() {
    let mut pipeline = Pipeline::new(pending(&["a", "b", "c", "d"]), 1).unwrap();
    let mut event = PipelineEvent::Ready;
    let mut order = Vec::new();
    loop {
        let (next, action) = pipeline.step(event);
        pipeline = next;
        assert!(pipeline.in_flight() <= 1);
        match action {
            PipelineAction::Start(t) => {
                order.push(t.id.clone());
                event = PipelineEvent::Completed(Outcome::Synced(t.id));
            }
            PipelineAction::Wait => panic!("nothing should be left in flight"),
            PipelineAction::Drained => break,
        }
    }
    assert_eq!(order, vec!["a", "b", "c", "d"]);
    assert_eq!(pipeline.into_outcomes().len(), 4);
}

use noxious::toxic::{
    update_toxic_list_in_place, update_toxics, NotFoundError, StreamDirection, Toxic, ToxicEvent,
    ToxicEventKind, ToxicKind, Toxics,
};

fn toxic(name: &str, direction: StreamDirection, kind: ToxicKind) -> Toxic {
    Toxic { kind, name: name.to_owned(), direction }
}

fn event(kind: ToxicEventKind) -> ToxicEvent {
    ToxicEvent { proxy_name: "foo".to_owned(), kind }
}

fn names(list: &[Toxic]) -> Vec<String> {
    list.iter().map(|t| t.name.clone()).collect()
}

fn sample() -> Toxics {
    let mut toxics = Toxics::noop();
    toxics.upstream.push(toxic("lat", StreamDirection::Upstream, ToxicKind::Latency { latency: 10, jitter: 0 }));
    toxics.upstream.push(toxic("close", StreamDirection::Upstream, ToxicKind::SlowClose { delay: 5 }));
    toxics.downstream.push(toxic("lat", StreamDirection::Downstream, ToxicKind::Latency { latency: 20, jitter: 1 }));
    toxics
}

#[test]
fn noop_toxics_are_empty() {
    let toxics = Toxics::noop();
    assert!(toxics.upstream.is_empty());
    assert!(toxics.downstream.is_empty());
}

#[test]
fn into_vec_puts_upstream_first() {
    let v = sample().into_vec();
    assert_eq!(names(&v), vec!["lat", "close", "lat"]);
    assert_eq!(v[2].direction, StreamDirection::Downstream);
}

#[test]
fn find_by_name_prefers_upstream() {
    let toxics = sample();
    let found = toxics.find_by_name("lat").unwrap();
    assert_eq!(found.direction, StreamDirection::Upstream);
    assert_eq!(found.kind, ToxicKind::Latency { latency: 10, jitter: 0 });
    assert_eq!(toxics.find_by_name("close").unwrap().kind, ToxicKind::SlowClose { delay: 5 });
    assert!(toxics.find_by_name("missing").is_none());
}

#[test]
fn add_appends_to_its_direction() {
    let mut toxics = sample();
    let added = toxic("cut", StreamDirection::Downstream, ToxicKind::LimitData { bytes: 64 });
    assert_eq!(update_toxics(event(ToxicEventKind::AddToxic(added)), &mut toxics), Ok(()));
    assert_eq!(names(&toxics.upstream), vec!["lat", "close"]);
    assert_eq!(names(&toxics.downstream), vec!["lat", "cut"]);
}

#[test]
fn update_replaces_in_place() {
    let mut toxics = sample();
    let changed = toxic("lat", StreamDirection::Downstream, ToxicKind::Latency { latency: 99, jitter: 2 });
    assert_eq!(update_toxics(event(ToxicEventKind::UpdateToxic(changed)), &mut toxics), Ok(()));
    assert_eq!(toxics.upstream[0].kind, ToxicKind::Latency { latency: 10, jitter: 0 });
    assert_eq!(toxics.downstream[0].kind, ToxicKind::Latency { latency: 99, jitter: 2 });
    assert_eq!(toxics.downstream.len(), 1);
}

#[test]
fn update_of_missing_toxic_is_not_found() {
    let mut toxics = sample();
    let changed = toxic("nope", StreamDirection::Upstream, ToxicKind::Noop);
    assert_eq!(update_toxics(event(ToxicEventKind::UpdateToxic(changed)), &mut toxics), Err(NotFoundError));
    assert_eq!(names(&toxics.upstream), vec!["lat", "close"]);
    assert_eq!(names(&toxics.downstream), vec!["lat"]);
}

#[test]
fn remove_takes_the_upstream_one_first() {
    let mut toxics = sample();
    assert_eq!(update_toxics(event(ToxicEventKind::RemoveToxic("lat".to_owned())), &mut toxics), Ok(()));
    assert_eq!(names(&toxics.upstream), vec!["close"]);
    assert_eq!(names(&toxics.downstream), vec!["lat"]);
    assert_eq!(update_toxics(event(ToxicEventKind::RemoveToxic("lat".to_owned())), &mut toxics), Ok(()));
    assert!(toxics.downstream.is_empty());
    assert_eq!(update_toxics(event(ToxicEventKind::RemoveToxic("lat".to_owned())), &mut toxics), Err(NotFoundError));
}

#[test]
fn add_then_remove_restores_the_lists() {
    let mut toxics = sample();
    let added = toxic("extra", StreamDirection::Upstream, ToxicKind::Bandwidth { rate: 100 });
    assert_eq!(update_toxics(event(ToxicEventKind::AddToxic(added)), &mut toxics), Ok(()));
    assert_eq!(names(&toxics.upstream), vec!["lat", "close", "extra"]);
    assert_eq!(update_toxics(event(ToxicEventKind::RemoveToxic("extra".to_owned())), &mut toxics), Ok(()));
    let before = sample();
    assert_eq!(names(&toxics.upstream), names(&before.upstream));
    assert_eq!(names(&toxics.downstream), names(&before.downstream));
    assert_eq!(toxics.upstream[1].kind, ToxicKind::SlowClose { delay: 5 });
}

#[test]
fn list_update_hands_back_a_change_of_the_other_direction() {
    let mut list = Vec::new();
    let t = toxic("a", StreamDirection::Downstream, ToxicKind::Noop);
    match update_toxic_list_in_place(&mut list, StreamDirection::Upstream, ToxicEventKind::AddToxic(t)) {
        Err(ToxicEventKind::AddToxic(back)) => assert_eq!(back.name, "a"),
        _ => panic!("the change should come back"),
    }
    assert!(list.is_empty());
}

#[test]
fn copied_toxic_is_equal() {
    let t = toxic("a", StreamDirection::Upstream, ToxicKind::Timeout { timeout: 3 });
    let c = t.clone();
    assert_eq!(c.name, "a");
    assert_eq!(c.kind, ToxicKind::Timeout { timeout: 3 });
}

use canon::error::Error;
use canon::id::{EntityId, LocalPath, Service, SourceRef};
use canon::source::{Attempt, Attempts, Sources};
use canon::track::{TrackMeta, TrackRef};

fn track(sources: Vec<SourceRef>) -> TrackRef {
    TrackRef {
        id: EntityId::new(),
        meta: TrackMeta {
            title: String::new(),
            artists: vec![],
            album: None,
            duration_ms: None,
            artwork_url: None,
        },
        sources,
    }
}

fn tidal(id: &str) -> SourceRef {
    SourceRef::Tidal { id: id.to_string() }
}

fn local(path: &str) -> SourceRef {
    SourceRef::Local { path: LocalPath::Text(path.to_string()) }
}

/// Try what there is to try, where the services in `failing` are offline: what was tried, and
/// whether anything opened.
fn open(
    sources: &Sources,
    track: &TrackRef,
    failing: &[Service],
) -> (Vec<SourceRef>, Result<(), String>) {
    let mut attempts = Attempts::new(sources, track);
    let mut tried = Vec::new();
    loop {
        match attempts.next() {
            Attempt::Try(source) => {
                let service = source.service();
                tried.push(source);
                if !failing.contains(&service) {
                    return (tried, Ok(()));
                }
                attempts.failed(Error::Source("offline".to_string()));
            }
            Attempt::GiveUp(e) => return (tried, Err(e.message())),
        }
    }
}

#[test]
fn a_local_file_is_preferred_over_streaming_whatever_the_order() {
    let sources = Sources::new().with(Service::Tidal).with(Service::Local);
    let track = track(vec![tidal("1"), local("/a.flac")]);
    let (tried, opened) = open(&sources, &track, &[]);
    assert!(opened.is_ok());
    assert_eq!(tried, vec![local("/a.flac")]);
}

#[test]
fn a_failing_binding_falls_through_to_the_next() {
    let sources = Sources::new().with(Service::Local).with(Service::Tidal);
    let track = track(vec![local("/gone.flac"), tidal("1")]);
    let (tried, opened) = open(&sources, &track, &[Service::Local]);
    assert!(opened.is_ok());
    assert_eq!(tried, vec![local("/gone.flac"), tidal("1")]);
}

#[test]
fn every_failure_is_reported() {
    let sources = Sources::new().with(Service::Local).with(Service::Tidal);
    let track = track(vec![tidal("1"), local("/gone.flac")]);
    let offline = [Service::Local, Service::Tidal];
    let (_, opened) = open(&sources, &track, &offline);
    assert_eq!(
        opened.unwrap_err(),
        "source: local: source: offline; tidal: source: offline"
    );

    let sources = Sources::new().with(Service::Tidal);
    let (_, opened) = open(&sources, &track, &offline);
    assert_eq!(opened.unwrap_err(), "source: offline", "one failure passes through");
}

#[test]
fn a_binding_with_no_registered_source_is_skipped() {
    let sources = Sources::new().with(Service::Tidal);
    let spotify = track(vec![SourceRef::Spotify { id: "x".to_string() }]);
    let (tried, opened) = open(&sources, &spotify, &[]);
    assert!(tried.is_empty());
    let error = opened.unwrap_err();
    assert!(error.contains("bindings: spotify"), "{}", error);
    let (_, opened) = open(&sources, &track(vec![]), &[]);
    let error = opened.unwrap_err();
    assert!(error.contains("bindings: none"), "{}", error);
}

#[test]
fn a_service_can_be_browsed_without_playing() {
    let sources = Sources::new().with_catalog(Service::Tidal);
    assert!(sources.catalog(Service::Tidal).is_ok());
    assert!(sources.describe(&tidal("1")).is_err());
    assert_eq!(sources.plays_from(&vec![tidal("1")]), None);
    assert!(sources.streaming_services().is_empty());
}

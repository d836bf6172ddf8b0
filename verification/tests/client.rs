use canon::amount::{parse_seek, parse_volume};
use canon::client::{
    item, About, Ask, ChosenAsk, Desk, Item, PlaylistAsk, Transport, Typed, With,
};
use canon::command::{Repeat, Volume};
use canon::id::Service;
use canon::line::position;
use canon::model::EntityKind;
use canon::protocol::QueueAt;
use canon::settings::OutputMode;
use canon::time::Duration;

/// A volume as a fraction of full scale.
fn level(fraction: f32) -> Volume {
    Volume { bits: fraction.to_bits() }
}

fn desk() -> Desk {
    Desk {
        listing: vec![
            Item::Entity("x".to_string()),
            Item::Mix { service: Service::Tidal, mix: "m".to_string(), kind: None },
        ],
        playing: None,
        position_ms: 30_000,
        volume: level(0.5),
        playlist: None,
    }
}

fn chars(text: &str) -> Vec<char> {
    text.chars().collect()
}

fn track(id: &str) -> Item {
    Item::OnService { service: Service::Tidal, id: id.to_string(), kind: None }
}

#[test]
fn items_are_typed_as_ids_albums_entities_or_listing_numbers() {
    let listing = vec![Item::Entity("x".to_string())];
    assert_eq!(item("33348478", &listing), Some(track("33348478")));
    assert_eq!(
        item("album:55391786", &listing),
        Some(Item::OnService {
            service: Service::Tidal,
            id: "55391786".to_string(),
            kind: Some(EntityKind::Album),
        })
    );
    let uuid = "5c7ae60d-789c-45d7-84c2-37d49f8b18cb";
    assert_eq!(item(uuid, &listing), Some(Item::Entity(uuid.to_string())));
    assert_eq!(item("#1", &listing), Some(Item::Entity("x".to_string())));
    assert_eq!(item("#2", &listing), None);
    assert_eq!(item("#0", &listing), None);
    assert_eq!(item("army", &listing), None);
    assert_eq!(position(&chars("1")), Some(0));
    assert_eq!(position(&chars("0")), None);
}

#[test]
fn seek_accepts_absolute_seconds_and_minutes() {
    assert_eq!(parse_seek("90", 0), Some(90_000));
    assert_eq!(parse_seek("1:30", 0), Some(90_000));
    assert_eq!(parse_seek("2:05.5", 0), Some(125_500));
}

#[test]
fn seek_accepts_relative_offsets() {
    assert_eq!(parse_seek("+10", 30_000), Some(40_000));
    assert_eq!(parse_seek("-10", 30_000), Some(20_000));
}

#[test]
fn relative_seek_clamps_at_zero() {
    assert_eq!(parse_seek("-30", 10_000), Some(0));
}

#[test]
fn seek_rejects_nonsense() {
    assert_eq!(parse_seek("", 0), None);
    assert_eq!(parse_seek("soon", 0), None);
}

#[test]
fn seek_reads_numbers_as_they_are_written() {
    assert_eq!(parse_seek("1e2", 0), Some(100_000));
    assert_eq!(parse_seek(".5", 0), Some(500));
    assert_eq!(parse_seek("+1.0005", 0), Some(1_000));
    assert_eq!(parse_seek("inf", 0), Some(u64::MAX));
    assert_eq!(parse_seek("1:-2", 0), None);
    assert_eq!(parse_seek("+", 0), None);
}

#[test]
fn volume_is_a_percentage() {
    assert_eq!(parse_volume("60", level(1.0)), Some(level(0.6)));
    assert_eq!(parse_volume("+10", level(0.5)), Some(level(0.6)));
    assert_eq!(parse_volume("-10", level(0.5)), Some(level(0.4)));
}

#[test]
fn volume_clamps_to_the_usable_range() {
    assert_eq!(parse_volume("+50", level(0.8)), Some(level(1.0)));
    assert_eq!(parse_volume("-50", level(0.2)), Some(level(0.0)));
    assert_eq!(parse_volume("300", level(0.5)), Some(level(1.0)));
    assert_eq!(parse_volume("loud", level(0.5)), None);
}

#[test]
fn a_line_says_what_to_do() {
    let desk = desk();
    assert_eq!(desk.command(""), Typed::Nothing);
    assert_eq!(desk.command("q"), Typed::Quit);
    assert_eq!(desk.command("play"), Typed::Transport(Transport::Play));
    assert_eq!(desk.command("seek +10"), Typed::Transport(Transport::Seek(40_000)));
    assert_eq!(
        desk.command("vol 60"),
        Typed::Transport(Transport::Volume(level(0.6)))
    );
    assert_eq!(desk.command("jump 3"), Typed::Ask(Ask::Jump(2)));
    assert_eq!(desk.command("mv 1 3"), Typed::Ask(Ask::Move { from: 0, to: 2 }));
    assert_eq!(desk.command("repeat one"), Typed::Ask(Ask::Repeat(Repeat::One)));
    assert_eq!(desk.command("playfrom #2"), Typed::Ask(Ask::PlayFrom(1)));
    assert_eq!(desk.command("autoplay on"), Typed::Ask(Ask::Autoplay(true)));
    assert_eq!(
        desk.command("add 1 #1"),
        Typed::Queue {
            items: vec![track("1"), Item::Entity("x".to_string())],
            at: QueueAt::End,
        }
    );
    assert_eq!(
        desk.command("album 55391786"),
        Typed::About {
            what: About::Album,
            item: Item::OnService {
                service: Service::Tidal,
                id: "55391786".to_string(),
                kind: Some(EntityKind::Album),
            },
        }
    );
    assert_eq!(
        desk.command("mix #2"),
        Typed::Mix { service: Service::Tidal, mix: "m".to_string() }
    );
    assert_eq!(
        desk.command("search army of me"),
        Typed::With { what: With::Search, text: "army of me".to_string() }
    );
    assert_eq!(
        desk.command("library albums pink"),
        Typed::Library { kind: EntityKind::Album, query: "pink".to_string() }
    );
    assert_eq!(
        desk.command("mode Living room flow"),
        Typed::Mode { output: "Living room".to_string(), mode: OutputMode::Flow }
    );
    assert_eq!(
        desk.command("connect tidal.pkce https://x?code=1"),
        Typed::Finish {
            method: "tidal.pkce".to_string(),
            redirect: "https://x?code=1".to_string(),
        }
    );
    assert_eq!(desk.command("sleep 1.5"), Typed::Sleep(Duration { nanos: 1_500_000_000 }));
    assert_eq!(
        desk.command("pl new Side one"),
        Typed::Playlist(PlaylistAsk::New("Side one".to_string()))
    );
}

#[test]
fn a_mix_is_asked_about_as_what_it_was_named_for() {
    let desk = desk();
    let mix = |kind| Item::Mix { service: Service::Tidal, mix: "m".to_string(), kind };
    assert_eq!(
        desk.command("album #2"),
        Typed::About { what: About::Album, item: mix(Some(EntityKind::Album)) }
    );
    assert_eq!(
        desk.command("artist #2"),
        Typed::About { what: About::Artist, item: mix(Some(EntityKind::Artist)) }
    );
    assert_eq!(item("#2", &desk.listing), Some(mix(None)));
}

#[test]
fn a_line_that_cannot_be_read_says_how_to_write_it() {
    let desk = desk();
    let usage = |line: &str| match desk.command(line) {
        Typed::Say(text) => text,
        other => panic!("{:?}", other),
    };
    assert_eq!(usage("jump x"), "usage: jump <queue position>");
    assert_eq!(usage("seek soon"), "usage: seek <secs | m:ss | +secs | -secs>");
    assert_eq!(usage("dance"), "unknown command: dance (try `help`)");
    assert_eq!(usage("repeat twice"), "usage: repeat off|all|one");
    assert_eq!(usage("radio"), "usage: radio [item]  (no item: the current track)");
    assert_eq!(
        usage("pl show"),
        "no playlist chosen: `pl new <name>` or `pl use #n` first"
    );
}

#[test]
fn an_empty_word_names_nothing() {
    assert_eq!(item("", &vec![]), None);
    let desk = desk();
    let usage = |line: &str| match desk.command(line) {
        Typed::Say(text) => text,
        other => panic!("{:?}", other),
    };
    assert_eq!(usage("album"), "usage: album <#n | canon id | tidal id>");
    assert_eq!(usage("artist"), "usage: artist <#n | canon id | tidal id>");
    assert_eq!(usage("similar"), "usage: similar <artist item>");
}

/// A desk with a playlist chosen.
fn chosen() -> Desk {
    Desk { playlist: Some(("p1".to_string(), "Side one".to_string())), ..desk() }
}

fn about_p1(what: ChosenAsk) -> PlaylistAsk {
    PlaylistAsk::Chosen { playlist: "p1".to_string(), what }
}

#[test]
fn what_is_asked_of_the_chosen_playlist_names_it() {
    let desk = chosen();
    let asked = |line: &str| match desk.command(line) {
        Typed::Playlist(ask) => ask,
        other => panic!("{:?}", other),
    };
    assert_eq!(asked("pl show"), about_p1(ChosenAsk::Show));
    assert_eq!(asked("pl play"), about_p1(ChosenAsk::Play));
    assert_eq!(
        asked("pl add 33348478 #1"),
        about_p1(ChosenAsk::Add(vec![track("33348478"), Item::Entity("x".to_string())]))
    );
    assert_eq!(asked("pl rm 2"), about_p1(ChosenAsk::Remove(1)));
    assert_eq!(asked("pl mv 1 3"), about_p1(ChosenAsk::Move { from: 0, to: 2 }));
    assert_eq!(asked("pl rename Side two"), about_p1(ChosenAsk::Rename("Side two".to_string())));
    assert_eq!(asked("pl delete"), about_p1(ChosenAsk::Delete));
    assert_eq!(desk.command("pl rm x"), Typed::Say("usage: pl rm <position>".to_string()));
}

#[test]
fn an_answer_changes_the_choice() {
    let named = |id: &str, name: &str| Some((id.to_string(), name.to_string()));
    let mut desk = desk();
    let new = PlaylistAsk::New("Side one".to_string());
    desk.playlist_answered(&new, None);
    assert_eq!(desk.playlist, None, "a refused ask changes nothing");
    desk.playlist_answered(&new, Some((Some("p1".to_string()), Some("Side one".to_string()))));
    assert_eq!(desk.playlist, named("p1", "Side one"));

    let rename = about_p1(ChosenAsk::Rename("Side two".to_string()));
    desk.playlist_answered(&rename, None);
    assert_eq!(desk.playlist, named("p1", "Side one"));
    desk.playlist_answered(&rename, Some((None, None)));
    assert_eq!(desk.playlist, named("p1", "Side two"));
    desk.playlist_answered(&about_p1(ChosenAsk::Show), Some((None, None)));
    assert_eq!(desk.playlist, named("p1", "Side two"));

    desk.playlist_answered(&PlaylistAsk::Use("p2".to_string()), Some((None, None)));
    assert_eq!(desk.playlist, named("", "?"), "an answer may leave out either");
    desk.playlist_answered(&about_p1(ChosenAsk::Delete), Some((None, None)));
    assert_eq!(desk.playlist, None);
}

use himawari::compose::FetchedTile;
use himawari::error::AppErr;
use himawari::margins::Margins;
use himawari::output_format::OutputFormat;
use himawari::output_level::OutputLevel;
use himawari::pipeline::{Action, Event, Run, Settings, Stage, PIPELINE_KIND};

fn settings(store_latest_only: bool, force: bool) -> Settings {
    Settings {
        store_latest_only,
        force,
        format: OutputFormat::JPEG,
        level: OutputLevel::new(4).unwrap(),
        margins: Margins::empty(),
    }
}

fn to_existing_check(run: &mut Run) -> String {
    match run.step(Event::Clock(Ok(1709266800))) {
        Action::FetchMetadata { url } => assert!(url.ends_with("/latest.json?_=1709266800")),
        _ => panic!("expected a metadata fetch"),
    }
    match run.step(Event::Metadata(Ok(String::from("2024-03-01 04:20:00")))) {
        Action::CheckExisting { file_name } => file_name,
        _ => panic!("expected an existence check"),
    }
}

#[test]
fn existing_output_ends_the_run_without_fetching() {
    let mut run = Run::new(settings(false, false));
    let name = to_existing_check(&mut run);
    assert_eq!(name, "himawari8_20240301_042000.jpeg");
    match run.step(Event::Existing(true)) {
        Action::Finish { outcome } => assert_eq!(outcome.ok(), Some(name)),
        _ => panic!("expected the run to end"),
    }
    assert!(matches!(run.stage, Stage::Finished));
    assert!(matches!(run.step(Event::Existing(false)), Action::Finish { outcome: Err(_) }));
}

#[test]
fn force_fetches_despite_existing_output() {
    let mut run = Run::new(settings(false, true));
    to_existing_check(&mut run);
    match run.step(Event::Existing(true)) {
        Action::FetchTiles { requests } => assert_eq!(requests.len(), 16),
        _ => panic!("expected tile fetches"),
    }
}

#[test]
fn store_latest_only_always_fetches() {
    let mut run = Run::new(settings(true, false));
    let name = to_existing_check(&mut run);
    assert_eq!(name, "himawari8_latest.jpeg");
    assert!(matches!(run.step(Event::Existing(true)), Action::FetchTiles { .. }));
}

#[test]
fn end_to_end_run_saves_a_full_canvas() {
    let mut run = Run::new(settings(false, false));
    let name = to_existing_check(&mut run);
    let requests = match run.step(Event::Existing(false)) {
        Action::FetchTiles { requests } => requests,
        _ => panic!("expected tile fetches"),
    };
    assert_eq!(requests.len(), 16);
    assert!(requests.iter().any(|r| r.url.ends_with("/4d/550/2024/03/01/042000_3_2.png")));
    let outcomes: Vec<FetchedTile> = requests
        .iter()
        .map(|r| FetchedTile { x: r.x, y: r.y, data: Err(AppErr::new("reqwest::Error", "offline")) })
        .collect();
    let bytes = match run.step(Event::Tiles(outcomes)) {
        Action::Save { file_name, bytes, failures } => {
            assert_eq!(file_name, name);
            assert!(failures.is_empty());
            bytes
        }
        _ => panic!("expected a save"),
    };
    let img = image::load_from_memory_with_format(&bytes, image::ImageFormat::Jpeg).unwrap();
    assert_eq!((img.width(), img.height()), (2200, 2200));
    match run.step(Event::Saved(Ok(()))) {
        Action::Finish { outcome } => assert_eq!(outcome.ok(), Some(String::from("himawari8_20240301_042000.jpeg"))),
        _ => panic!("expected the run to end"),
    }
}

#[test]
fn metadata_failure_ends_the_run() {
    let mut run = Run::new(settings(false, false));
    run.step(Event::Clock(Ok(1)));
    match run.step(Event::Metadata(Err(AppErr::new("reqwest::Error", "status 503")))) {
        Action::Finish { outcome: Err(e) } => assert_eq!(e.description(), "[reqwest::Error] status 503"),
        _ => panic!("expected the run to fail"),
    }
}

#[test]
fn malformed_metadata_date_ends_the_run() {
    let mut run = Run::new(settings(false, false));
    run.step(Event::Clock(Ok(1)));
    match run.step(Event::Metadata(Ok(String::from("2024/03/01")))) {
        Action::Finish { outcome: Err(e) } => assert_eq!(e.kind, "chrono::ParseError"),
        _ => panic!("expected the run to fail"),
    }
}

#[test]
fn clock_failure_ends_the_run() {
    let mut run = Run::new(settings(false, false));
    match run.step(Event::Clock(Err(AppErr::new("std::time::SystemTimeError", "before epoch")))) {
        Action::Finish { outcome: Err(e) } => assert_eq!(e.kind, "std::time::SystemTimeError"),
        _ => panic!("expected the run to fail"),
    }
}

#[test]
fn save_failure_ends_the_run() {
    let mut run = Run::new(settings(true, false));
    to_existing_check(&mut run);
    run.step(Event::Existing(false));
    assert!(matches!(run.step(Event::Tiles(Vec::new())), Action::Save { .. }));
    match run.step(Event::Saved(Err(AppErr::new("std::io::Error", "read-only")))) {
        Action::Finish { outcome: Err(e) } => assert_eq!(e.kind, "std::io::Error"),
        _ => panic!("expected the run to fail"),
    }
}

#[test]
fn unexpected_event_ends_the_run() {
    let mut run = Run::new(settings(false, false));
    match run.step(Event::Existing(true)) {
        Action::Finish { outcome: Err(e) } => assert_eq!(e.kind, PIPELINE_KIND),
        _ => panic!("expected the run to fail"),
    }
}

#[test]
fn undecodable_tile_still_saves_the_image() {
    let mut run = Run::new(settings(false, false));
    to_existing_check(&mut run);
    let requests = match run.step(Event::Existing(false)) {
        Action::FetchTiles { requests } => requests,
        _ => panic!("expected tile fetches"),
    };
    let outcomes: Vec<FetchedTile> = requests
        .iter()
        .map(|r| FetchedTile { x: r.x, y: r.y, data: Ok(vec![1, 2, 3]) })
        .collect();
    match run.step(Event::Tiles(outcomes)) {
        Action::Save { failures, bytes, .. } => {
            assert_eq!(failures.len(), 16);
            assert!(!bytes.is_empty());
        }
        _ => panic!("expected a save"),
    }
}

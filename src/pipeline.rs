//! The decisions of one run: resolve the metadata, name the output file,
//! skip work whose result is already on disk, fetch the tiles, compose them
//! and save. The caller performs each action and reports what came of it.
use vstd::prelude::*;
use crate::canvas::{IMAGE_ERROR_KIND, blank, encoded};
use crate::compose::{CANVAS_KIND, FetchedTile, TileError, compose, composite, placed_views, reports};
use crate::error::AppErr;
use crate::grid::{TileRequest, canvas_dims, canvas_fits, is_fetch_plan, metadata_url, metadata_url_text, tile_requests};
use crate::margins::Margins;
use crate::output_format::{OutputFormat, extension_of};
use crate::output_level::OutputLevel;
use crate::timestamp::{ImageTimestamp, PARSE_ERROR_KIND, date_text, push_date, push_time, resolved, time_text};

verus! {

/// The start of every output file name.
pub const FILE_PREFIX: &'static str = "himawari8_";

/// The name part of the single file that store-latest-only writes.
pub const LATEST_NAME: &'static str = "latest";

/// The tag of an event that does not fit the stage of a run.
pub const PIPELINE_KIND: &'static str = "Pipeline";

/// The message of an event that does not fit the stage of a run.
pub const UNEXPECTED_EVENT: &'static str = "event does not fit the stage of the run";

/// `himawari8_latest.<ext>` under store-latest-only, else
/// `himawari8_<YYYYMMDD>_<HHMMSS>.<ext>`.
pub open spec fn file_name_text(t: ImageTimestamp, store_latest_only: bool, f: OutputFormat) -> Seq<char> {
    if store_latest_only {
        FILE_PREFIX@ + LATEST_NAME@ + seq!['.'] + extension_of(f)
    } else {
        FILE_PREFIX@ + date_text(t) + seq!['_'] + time_text(t) + seq!['.'] + extension_of(f)
    }
}

/// Whether a run ends before any tile is fetched: the output exists and may
/// be neither replaced (force) nor is it the single latest file.
pub open spec fn skips(exists: bool, store_latest_only: bool, force: bool) -> bool {
    exists && !store_latest_only && !force
}

/// The name of the output file for an image taken at `t`.
pub fn output_file_name(t: &ImageTimestamp, store_latest_only: bool, format: OutputFormat) -> (r: String)
    ensures
        r@ == file_name_text(*t, store_latest_only, format),
{
    proof {
        reveal_strlit(".");
        reveal_strlit("_");
    }
    let mut s = String::from_str(FILE_PREFIX);
    if store_latest_only {
        s.append(LATEST_NAME);
    } else {
        push_date(&mut s, t);
        s.append("_");
        push_time(&mut s, t);
    }
    s.append(".");
    s.append(format.extension());
    assert(s@ =~= file_name_text(*t, store_latest_only, format));
    s
}

/// Whether the existing output stops the run.
pub fn should_skip(exists: bool, store_latest_only: bool, force: bool) -> (r: bool)
    ensures
        r == skips(exists, store_latest_only, force),
{
    exists && !store_latest_only && !force
}

/// What a run was configured with.
pub struct Settings {
    pub store_latest_only: bool,
    pub force: bool,
    pub format: OutputFormat,
    pub level: OutputLevel,
    pub margins: Margins,
}

/// Where a run stands.
pub enum Stage {
    Start,
    AwaitMetadata,
    AwaitExisting { timestamp: ImageTimestamp, file_name: String },
    AwaitTiles { file_name: String },
    AwaitSaved { file_name: String },
    Finished,
}

/// What the caller reports back.
pub enum Event {
    /// The current unix time in seconds, or why the clock failed.
    Clock(Result<u64, AppErr>),
    /// The date field of the metadata document, or why it could not be had.
    Metadata(Result<String, AppErr>),
    /// Whether the output file exists.
    Existing(bool),
    /// The outcome of every tile fetch.
    Tiles(Vec<FetchedTile>),
    /// Whether the image was written.
    Saved(Result<(), AppErr>),
}

/// What the caller is to do next.
pub enum Action {
    FetchMetadata { url: String },
    CheckExisting { file_name: String },
    FetchTiles { requests: Vec<TileRequest> },
    /// Write `bytes` to the output file; `failures` are tiles that did not
    /// decode and were left out.
    Save { file_name: String, bytes: Vec<u8>, failures: Vec<TileError> },
    /// The run is over: the output file's name, or the error that ended it.
    Finish { outcome: Result<String, AppErr> },
}

/// One run of the pipeline.
pub struct Run {
    pub settings: Settings,
    pub stage: Stage,
}

/// Whether `action` ends the run with `e`, and `next` is finished.
pub open spec fn ends_with_error(next: Run, action: Action, e: AppErr) -> bool {
    next.stage is Finished && action == (Action::Finish { outcome: Err(e) })
}

/// Whether `action` ends the run with an error of the given tag.
pub open spec fn ends_with_kind(next: Run, action: Action, kind: Seq<char>) -> bool {
    &&& next.stage is Finished
    &&& action matches Action::Finish { outcome: Err(e) } && e.kind@ == kind
}

/// Whether `action` ends the run with the output file `name`.
pub open spec fn ends_with_file(next: Run, action: Action, name: Seq<char>) -> bool {
    &&& next.stage is Finished
    &&& action matches Action::Finish { outcome: Ok(n) } && n@ == name
}

/// Whether `action` writes `bytes` to the file `name`, reporting the
/// rejected tiles, and `next` awaits the outcome of the write.
pub open spec fn saves(
    next: Run,
    action: Action,
    name: Seq<char>,
    bytes: Seq<u8>,
    level: int,
    fetched: Seq<FetchedTile>,
) -> bool {
    &&& next.stage matches Stage::AwaitSaved { file_name } && file_name@ == name
    &&& action matches Action::Save { file_name, bytes: b, failures } && file_name@ == name && b@
        == bytes && reports(failures@, level, fetched)
}

/// The step from `run` on `event` to `next`, doing `action`.
pub open spec fn transition(run: Run, event: Event, next: Run, action: Action) -> bool {
    let s = run.settings;
    &&& next.settings == s
    &&& match (run.stage, event) {
        (Stage::Start, Event::Clock(Ok(secs))) => {
            &&& next.stage is AwaitMetadata
            &&& action matches Action::FetchMetadata { url } && url@ == metadata_url_text(secs as nat)
        },
        (Stage::Start, Event::Clock(Err(e))) => ends_with_error(next, action, e),
        (Stage::AwaitMetadata, Event::Metadata(Ok(date))) => match resolved(date@) {
            Some(t) => {
                let name = file_name_text(t, s.store_latest_only, s.format);
                &&& next.stage matches Stage::AwaitExisting { timestamp, file_name } && timestamp
                    == t && file_name@ == name
                &&& action matches Action::CheckExisting { file_name } && file_name@ == name
            },
            None => ends_with_kind(next, action, PARSE_ERROR_KIND@),
        },
        (Stage::AwaitMetadata, Event::Metadata(Err(e))) => ends_with_error(next, action, e),
        (Stage::AwaitExisting { timestamp, file_name }, Event::Existing(exists)) => {
            if skips(exists, s.store_latest_only, s.force) {
                ends_with_file(next, action, file_name@)
            } else {
                &&& next.stage matches Stage::AwaitTiles { file_name: n } && n@ == file_name@
                &&& action matches Action::FetchTiles { requests } && is_fetch_plan(
                    s.level@ as int,
                    timestamp,
                    requests@,
                )
            }
        },
        (Stage::AwaitTiles { file_name }, Event::Tiles(fetched)) => {
            let level = s.level@ as int;
            let dims = canvas_dims(level, s.margins);
            if canvas_fits(dims) {
                let pixels = composite(
                    blank(dims.0, dims.1),
                    level,
                    s.margins,
                    placed_views(level, fetched@),
                );
                &&& match encoded(pixels, (dims.0 as u32, dims.1 as u32), extension_of(s.format)) {
                    Some(b) => saves(next, action, file_name@, b, level, fetched@),
                    None => ends_with_kind(next, action, IMAGE_ERROR_KIND@),
                }
                &&& (s.format is PNG || (dims.0 <= 65535 && dims.1 <= 65535)) ==> action is Save
            } else {
                ends_with_kind(next, action, CANVAS_KIND@)
            }
        },
        (Stage::AwaitSaved { file_name }, Event::Saved(Ok(()))) => ends_with_file(
            next,
            action,
            file_name@,
        ),
        (Stage::AwaitSaved { .. }, Event::Saved(Err(e))) => ends_with_error(next, action, e),
        _ => ends_with_kind(next, action, PIPELINE_KIND@),
    }
}

/// Where the output file already exists and neither store-latest-only nor
/// force is set, the run ends at the check, successfully, with that file's
/// name: nothing is fetched and nothing is written.
pub proof fn lemma_existing_output_is_kept(run: Run, next: Run, action: Action)
    requires
        run.stage is AwaitExisting,
        !run.settings.store_latest_only,
        !run.settings.force,
        transition(run, Event::Existing(true), next, action),
    ensures
        next.stage is Finished,
        action matches Action::Finish { outcome: Ok(n) } && n@ == run.stage->AwaitExisting_file_name@,
{
}

/// Tiles are fetched only right after the check for an existing output, and
/// only where that check does not end the run.
pub proof fn lemma_fetch_only_after_check(run: Run, event: Event, next: Run, action: Action)
    requires
        transition(run, event, next, action),
        action is FetchTiles,
    ensures
        run.stage is AwaitExisting,
        event matches Event::Existing(exists) && !skips(
            exists,
            run.settings.store_latest_only,
            run.settings.force,
        ),
{
}

/// A finished run stays finished: whatever is reported, it asks for no
/// fetch and no write.
pub proof fn lemma_finished_run_stays_finished(run: Run, event: Event, next: Run, action: Action)
    requires
        run.stage is Finished,
        transition(run, event, next, action),
    ensures
        next.stage is Finished,
        action is Finish,
{
}

impl Run {
    /// A run that has not started.
    pub fn new(settings: Settings) -> (r: Run)
        ensures
            r.settings == settings,
            r.stage is Start,
    {
        Run { settings, stage: Stage::Start }
    }

    fn finish_with(&mut self, e: AppErr) -> (action: Action)
        ensures
            final(self).settings == old(self).settings,
            ends_with_error(*final(self), action, e),
    {
        self.stage = Stage::Finished;
        Action::Finish { outcome: Err(e) }
    }

    /// Takes the run one step on: records what `event` reports and says what
    /// to do next.
    pub fn step(&mut self, event: Event) -> (action: Action)
        ensures
            transition(*old(self), event, *final(self), action),
    {
        let mut stage = Stage::Finished;
        std::mem::swap(&mut self.stage, &mut stage);
        match (stage, event) {
            (Stage::Start, Event::Clock(Ok(secs))) => {
                self.stage = Stage::AwaitMetadata;
                Action::FetchMetadata { url: metadata_url(secs) }
            },
            (Stage::Start, Event::Clock(Err(e))) => self.finish_with(e),
            (Stage::AwaitMetadata, Event::Metadata(Ok(date))) => {
                match ImageTimestamp::resolve(date.as_str()) {
                    Ok(t) => {
                        let name = output_file_name(&t, self.settings.store_latest_only, self.settings.format);
                        let shown = name.clone();
                        self.stage = Stage::AwaitExisting { timestamp: t, file_name: name };
                        Action::CheckExisting { file_name: shown }
                    },
                    Err(e) => self.finish_with(e),
                }
            },
            (Stage::AwaitMetadata, Event::Metadata(Err(e))) => self.finish_with(e),
            (Stage::AwaitExisting { timestamp, file_name }, Event::Existing(exists)) => {
                if should_skip(exists, self.settings.store_latest_only, self.settings.force) {
                    Action::Finish { outcome: Ok(file_name) }
                } else {
                    let requests = tile_requests(&self.settings.level, &timestamp);
                    self.stage = Stage::AwaitTiles { file_name };
                    Action::FetchTiles { requests }
                }
            },
            (Stage::AwaitTiles { file_name }, Event::Tiles(fetched)) => {
                // A valid level keeps the canvas from being empty, which the
                // PNG encoder needs.
                let _ = self.settings.level.to_level();
                match compose(&self.settings.level, &self.settings.margins, &fetched) {
                    Ok((canvas, failures)) => match canvas.encode(self.settings.format) {
                        Ok(bytes) => {
                            let shown = file_name.clone();
                            self.stage = Stage::AwaitSaved { file_name };
                            Action::Save { file_name: shown, bytes, failures }
                        },
                        Err(e) => self.finish_with(e),
                    },
                    Err(e) => self.finish_with(e),
                }
            },
            (Stage::AwaitSaved { file_name }, Event::Saved(Ok(()))) => {
                Action::Finish { outcome: Ok(file_name) }
            },
            (Stage::AwaitSaved { .. }, Event::Saved(Err(e))) => self.finish_with(e),
            _ => self.finish_with(AppErr::new(PIPELINE_KIND, UNEXPECTED_EVENT)),
        }
    }
}

} // verus!

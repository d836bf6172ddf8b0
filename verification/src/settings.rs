//! What a user can set: per-output preferences, what the queue does on its own, and the Spotify
//! connection.

use vstd::prelude::*;
use vstd::string::*;

use crate::error::{Error, ErrorView, Result};
use crate::rows::{first_at, first_at_matches, first_at_push, found_first, found_none};
use crate::sink::SinkId;
use crate::text::{clone_opt, concat, opt_text};

verus! {

/// How tracks reach a network renderer.
#[derive(Debug, Clone, Copy, PartialEq, Eq, Structural)]
pub enum OutputMode {
    /// One continuous stream across the queue: gapless joins on every renderer. The renderer's
    /// own display shows the first track of the stream.
    Flow,
    /// One stream per track: the renderer's display is right for every track, at the cost of a
    /// gap between tracks.
    Standard,
}

impl Default for OutputMode {
    fn default() -> (mode: Self)
        ensures
            mode == OutputMode::Flow,
    {
        OutputMode::Flow
    }
}

/// Preferences for one output.
#[derive(Debug, Clone, Copy, PartialEq, Eq, Structural)]
pub struct OutputSettings {
    /// How tracks are delivered to a network renderer. Applies from the next track or seek.
    pub mode: OutputMode,
}

impl Default for OutputSettings {
    fn default() -> (settings: Self)
        ensures
            settings == (OutputSettings { mode: OutputMode::Flow }),
    {
        OutputSettings { mode: OutputMode::Flow }
    }
}

/// What the queue does on its own.
#[derive(Debug, Clone, Copy, PartialEq, Eq, Structural)]
pub struct QueueSettings {
    /// When the last track in the queue starts, add tracks like it, so playback carries on
    /// instead of stopping. Applies from the next track.
    pub autoplay: bool,
}

impl QueueSettings {
    /// Whether nothing is set.
    pub fn is_default(&self) -> (r: bool)
        ensures
            r == (*self == (QueueSettings { autoplay: false })),
    {
        !self.autoplay
    }
}

impl Default for QueueSettings {
    fn default() -> (settings: Self)
        ensures
            settings == (QueueSettings { autoplay: false }),
    {
        QueueSettings { autoplay: false }
    }
}

/// The Spotify connection. Spotify's Web API only serves a developer app the user registers
/// themselves, so the user supplies its client id.
#[derive(Debug, PartialEq, Eq)]
pub struct SpotifySettings {
    /// The client id of the user's Spotify developer app.
    pub client_id: Option<String>,
}

impl SpotifySettings {
    /// Whether nothing is set.
    pub fn is_default(&self) -> (r: bool)
        ensures
            r == (self.client_id is None),
    {
        self.client_id.is_none()
    }
}

impl Clone for SpotifySettings {
    fn clone(&self) -> (copy: Self)
        ensures
            copy == *self,
    {
        SpotifySettings { client_id: clone_opt(&self.client_id) }
    }
}

impl Default for SpotifySettings {
    fn default() -> (settings: Self)
        ensures
            settings.client_id is None,
    {
        SpotifySettings { client_id: None }
    }
}

/// Everything a user can set that has to survive a restart.
#[derive(Debug, PartialEq, Eq)]
pub struct Settings {
    /// Per-output preferences, each under its output's id, no id twice. An output with no entry
    /// uses the defaults.
    pub outputs: Vec<(String, OutputSettings)>,
    pub queue: QueueSettings,
    pub spotify: SpotifySettings,
}

/// What [`Settings`] say.
#[verifier::ext_equal]
pub struct SettingsView {
    pub outputs: Seq<(Seq<char>, OutputSettings)>,
    pub queue: QueueSettings,
    pub client_id: Option<Seq<char>>,
}

impl View for Settings {
    type V = SettingsView;

    open spec fn view(&self) -> SettingsView {
        SettingsView {
            outputs: outputs_view(self.outputs@),
            queue: self.queue,
            client_id: opt_text(self.spotify.client_id),
        }
    }
}

pub open spec fn outputs_view(all: Seq<(String, OutputSettings)>) -> Seq<
    (Seq<char>, OutputSettings),
> {
    all.map_values(|o: (String, OutputSettings)| (o.0@, o.1))
}

/// An entry about the output `id`.
pub open spec fn is_about(id: Seq<char>) -> spec_fn((Seq<char>, OutputSettings)) -> bool {
    |o: (Seq<char>, OutputSettings)| o.0 == id
}

impl SettingsView {
    /// No output has two entries.
    pub open spec fn wf(self) -> bool {
        forall|i: int, j: int|
            0 <= i < j < self.outputs.len() ==> (#[trigger] self.outputs[i]).0 != (
            #[trigger] self.outputs[j]).0
    }

    /// The effective preferences for the output `id`.
    pub open spec fn output(self, id: Seq<char>) -> OutputSettings {
        match first_at(self.outputs, is_about(id)) {
            Some(i) => self.outputs[i].1,
            None => OutputSettings { mode: OutputMode::Flow },
        }
    }

    /// The settings with the output `id` set.
    pub open spec fn with_output(self, id: Seq<char>, settings: OutputSettings) -> SettingsView {
        match first_at(self.outputs, is_about(id)) {
            Some(i) => SettingsView { outputs: self.outputs.update(i, (id, settings)), ..self },
            None => SettingsView { outputs: self.outputs.push((id, settings)), ..self },
        }
    }
}

impl Default for Settings {
    fn default() -> (settings: Self)
        ensures
            settings@ == (SettingsView {
                outputs: Seq::empty(),
                queue: QueueSettings { autoplay: false },
                client_id: None,
            }),
    {
        let settings = Settings {
            outputs: Vec::new(),
            queue: QueueSettings { autoplay: false },
            spotify: SpotifySettings { client_id: None },
        };
        assert(settings@.outputs =~= Seq::empty());
        settings
    }
}

impl Settings {
    fn find(&self, id: &str) -> (at: Option<usize>)
        ensures
            match at {
                Some(i) => first_at(self@.outputs, is_about(id@)) == Some(i as int) && i
                    < self.outputs@.len(),
                None => first_at(self@.outputs, is_about(id@)) is None,
            },
    {
        let ghost all = self@.outputs;
        let ghost p = is_about(id@);
        let mut i: usize = 0;
        while i < self.outputs.len()
            invariant
                i <= self.outputs@.len(),
                all == self@.outputs,
                p == is_about(id@),
                forall|k: int| 0 <= k < i ==> !p(#[trigger] all[k]),
            decreases self.outputs.len() - i,
        {
            assert(all[i as int].0 == self.outputs@[i as int].0@);
            if crate::text::same(self.outputs[i].0.as_str(), id) {
                proof {
                    found_first(all, p, i as int);
                }
                return Some(i);
            }
            i = i + 1;
        }
        proof {
            found_none(all, p);
        }
        None
    }

    /// The effective preferences for `output`.
    pub fn output(&self, output: &SinkId) -> (settings: OutputSettings)
        ensures
            settings == self@.output(output@),
    {
        match self.find(output.0.as_str()) {
            Some(i) => {
                assert(self@.outputs[i as int].1 == self.outputs@[i as int].1);
                self.outputs[i].1
            },
            None => OutputSettings { mode: OutputMode::Flow },
        }
    }

    /// Set the preferences for `output`.
    pub fn set_output(&mut self, output: &SinkId, settings: OutputSettings)
        requires
            old(self)@.wf(),
        ensures
            final(self)@ == old(self)@.with_output(output@, settings),
            final(self)@.wf(),
            final(self)@.output(output@) == settings,
    {
        let ghost before = self@;
        match self.find(output.0.as_str()) {
            Some(i) => {
                self.outputs.set(i, (output.0.clone(), settings));
                assert(self@ =~= before.with_output(output@, settings)) by {
                    assert(self@.outputs =~= before.outputs.update(
                        i as int,
                        (output@, settings),
                    ));
                }
            },
            None => {
                self.outputs.push((output.0.clone(), settings));
                assert(self@ =~= before.with_output(output@, settings)) by {
                    assert(self@.outputs =~= before.outputs.push((output@, settings)));
                }
            },
        }
        proof {
            setting_an_output_sets_only_it(before, output@, settings, output@);
        }
    }
}

impl Clone for Settings {
    fn clone(&self) -> (copy: Self)
        ensures
            copy@ == self@,
    {
        let mut outputs: Vec<(String, OutputSettings)> = Vec::new();
        let mut i: usize = 0;
        while i < self.outputs.len()
            invariant
                i <= self.outputs@.len(),
                outputs@.len() == i,
                forall|k: int| 0 <= k < i ==> #[trigger] outputs@[k] == self.outputs@[k],
            decreases self.outputs.len() - i,
        {
            outputs.push((self.outputs[i].0.clone(), self.outputs[i].1));
            i = i + 1;
        }
        assert(outputs@ =~= self.outputs@);
        Settings { outputs, queue: self.queue, spotify: self.spotify.clone() }
    }
}

/// What reading the settings file came to.
#[derive(Debug, PartialEq, Eq)]
pub enum FileRead {
    Settings(Settings),
    /// There is a file, but it does not parse, for this reason.
    Garbled(String),
    /// There is no file yet.
    Missing,
    /// It could not be read, for this reason.
    Failed(String),
}

/// A file that exists but does not parse.
pub open spec fn unreadable(path: Seq<char>, why: Seq<char>) -> ErrorView {
    ErrorView::Unsupported("unreadable settings at "@ + path + ": "@ + why)
}

/// The settings in force, which are those the file holds.
#[derive(Debug, PartialEq, Eq)]
pub struct FileSettings {
    pub current: Settings,
}

impl FileSettings {
    /// Start from what the file holds, or from the defaults if there is none yet. A file that does
    /// not parse is an error, not a reason to start from the defaults: they would overwrite it.
    pub fn load(path: &str, read: FileRead) -> (settings: Result<FileSettings>)
        ensures
            match read {
                FileRead::Settings(found) => settings is Ok && settings->Ok_0.current == found,
                FileRead::Missing => settings is Ok && settings->Ok_0.current@ == (SettingsView {
                    outputs: Seq::empty(),
                    queue: QueueSettings { autoplay: false },
                    client_id: None,
                }),
                FileRead::Garbled(why) => settings is Err && settings->Err_0@ == unreadable(
                    path@,
                    why@,
                ),
                FileRead::Failed(why) => settings is Err && settings->Err_0@ == ErrorView::Io(why@),
            },
    {
        match read {
            FileRead::Settings(current) => Ok(FileSettings { current }),
            FileRead::Missing => Ok(FileSettings { current: Settings::default() }),
            FileRead::Garbled(why) => {
                let mut text = concat("unreadable settings at ", path);
                text.append(": ");
                text.append(why.as_str());
                Err(Error::Unsupported(text))
            },
            FileRead::Failed(why) => Err(Error::Io(why)),
        }
    }

    /// The settings in force.
    pub fn get(&self) -> (settings: Settings)
        ensures
            settings@ == self.current@,
    {
        self.current.clone()
    }

    /// Put `settings` in force once they have been written to the file; if that failed, nothing
    /// has changed.
    pub fn set(&mut self, settings: Settings, written: Result<()>) -> (done: Result<()>)
        ensures
            match written {
                Ok(_) => done is Ok && final(self).current == settings,
                Err(e) => done == Err::<(), Error>(e) && *final(self) == *old(self),
            },
    {
        match written {
            Ok(_) => {
                self.current = settings;
                Ok(())
            },
            Err(e) => Err(e),
        }
    }
}

/// Setting an output is read back, leaves every other output as it was, and keeps one entry for
/// each.
pub proof fn setting_an_output_sets_only_it(
    settings: SettingsView,
    id: Seq<char>,
    output: OutputSettings,
    other: Seq<char>,
)
    requires
        settings.wf(),
    ensures
        settings.with_output(id, output).wf(),
        settings.with_output(id, output).output(id) == output,
        other != id ==> settings.with_output(id, output).output(other) == settings.output(other),
{
    let all = settings.outputs;
    let after = settings.with_output(id, output);
    let p = is_about(id);
    let q = is_about(other);
    first_at_matches(all, p);
    first_at_matches(all, q);
    match first_at(all, p) {
        Some(i) => {
            assert forall|j: int| 0 <= j < i implies !p(#[trigger] after.outputs[j]) by {
                assert(!p(all[j]));
            }
            found_first(after.outputs, p, i);
            if other != id {
                match first_at(all, q) {
                    Some(k) => {
                        assert forall|j: int| 0 <= j < k implies !q(
                            #[trigger] after.outputs[j],
                        ) by {
                            assert(!q(all[j]));
                        }
                        found_first(after.outputs, q, k);
                    },
                    None => {
                        assert forall|j: int| 0 <= j < after.outputs.len() implies !q(
                            #[trigger] after.outputs[j],
                        ) by {
                            assert(!q(all[j]));
                        }
                        found_none(after.outputs, q);
                    },
                }
            }
        },
        None => {
            first_at_push(all, (id, output), p);
            first_at_push(all, (id, output), q);
            assert forall|i: int, j: int| 0 <= i < j < after.outputs.len() implies (
            #[trigger] after.outputs[i]).0 != (#[trigger] after.outputs[j]).0 by {
                assert(!p(all[i]));
            }
        },
    }
}

/// An output nobody set up plays without gaps.
pub proof fn an_output_nobody_set_up_flows(settings: SettingsView, id: Seq<char>)
    requires
        forall|i: int| 0 <= i < settings.outputs.len() ==> (#[trigger] settings.outputs[i]).0 != id,
    ensures
        settings.output(id).mode == OutputMode::Flow,
{
    found_none(settings.outputs, is_about(id));
}

} // verus!

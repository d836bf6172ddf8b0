//! Opening the local output: which device, at which rate, and for how long to try.

use vstd::prelude::*;

use crate::ring::frames_of;
use crate::text::{concat, decimal, number, same};
use crate::time::Duration;

verus! {

/// Everything that can go wrong opening or running the output path.
#[derive(Debug, PartialEq, Eq)]
pub enum PlayError {
    /// The input could not be read.
    Io(String),
    /// The stream could not be decoded.
    Decode(String),
    /// No default output device is available.
    NoDevice,
    /// The device offers no output configuration for the source's channel count.
    UnsupportedFormat(String),
    /// The device failed to open or to start.
    Device(String),
}

/// What a [`PlayError`] says.
pub enum PlayErrorView {
    Io(Seq<char>),
    Decode(Seq<char>),
    NoDevice,
    UnsupportedFormat(Seq<char>),
    Device(Seq<char>),
}

impl View for PlayError {
    type V = PlayErrorView;

    open spec fn view(&self) -> PlayErrorView {
        match self {
            PlayError::Io(e) => PlayErrorView::Io(e@),
            PlayError::Decode(e) => PlayErrorView::Decode(e@),
            PlayError::NoDevice => PlayErrorView::NoDevice,
            PlayError::UnsupportedFormat(e) => PlayErrorView::UnsupportedFormat(e@),
            PlayError::Device(e) => PlayErrorView::Device(e@),
        }
    }
}

impl PlayErrorView {
    /// The error in words.
    pub open spec fn text(self) -> Seq<char> {
        match self {
            PlayErrorView::Io(e) => "io: "@ + e,
            PlayErrorView::Decode(e) => "decode: "@ + e,
            PlayErrorView::NoDevice => "no default audio output device"@,
            PlayErrorView::UnsupportedFormat(e) => "unsupported output format: "@ + e,
            PlayErrorView::Device(e) => "audio device: "@ + e,
        }
    }
}

/// What a result of opening or playing says.
pub open spec fn played<T>(result: Result<T, PlayError>) -> Result<T, PlayErrorView> {
    match result {
        Ok(value) => Ok(value),
        Err(e) => Err(e@),
    }
}

impl PlayError {
    /// The error in words.
    pub fn message(&self) -> (text: String)
        ensures
            text@ == self@.text(),
    {
        match self {
            PlayError::Io(e) => concat("io: ", e.as_str()),
            PlayError::Decode(e) => concat("decode: ", e.as_str()),
            PlayError::NoDevice => "no default audio output device".to_owned(),
            PlayError::UnsupportedFormat(e) => concat("unsupported output format: ", e.as_str()),
            PlayError::Device(e) => concat("audio device: ", e.as_str()),
        }
    }
}

/// What a completed playback produced.
#[derive(Debug, Clone, Copy, PartialEq, Eq, Structural)]
pub struct PlayStats {
    pub sample_rate: u32,
    pub channels: u16,
    /// Frames decoded and handed to the ring.
    pub frames_played: u64,
}

impl PlayStats {
    /// A playback that has produced nothing yet.
    pub fn begun(sample_rate: u32, channels: u16) -> (stats: PlayStats)
        ensures
            stats == (PlayStats { sample_rate, channels, frames_played: 0 }),
    {
        PlayStats { sample_rate, channels, frames_played: 0 }
    }

    /// Count `samples` interleaved samples as handed to the ring.
    pub fn hand_over(&mut self, samples: usize)
        requires
            old(self).channels > 0,
            old(self).frames_played + samples as int / old(self).channels as int <= u64::MAX,
        ensures
            *final(self) == (PlayStats {
                frames_played: (old(self).frames_played + samples as int / old(
                    self,
                ).channels as int) as u64,
                ..*old(self)
            }),
    {
        self.frames_played = self.frames_played + frames_of(samples, self.channels);
    }
}

/// One range of configurations that a device supports.
#[derive(Debug, Clone, Copy, PartialEq, Eq, Structural)]
pub struct OutputRange {
    pub channels: u16,
    /// Whether its samples are 32-bit floating point.
    pub float: bool,
    /// The lowest and the highest rate, in frames a second.
    pub lowest: u32,
    pub highest: u32,
}

/// The configuration a device uses unless told otherwise.
#[derive(Debug, Clone, Copy, PartialEq, Eq, Structural)]
pub struct OutputDefault {
    pub channels: u16,
    /// Whether its samples are 32-bit floating point.
    pub float: bool,
    pub rate: u32,
}

/// A configuration chosen for a source.
#[derive(Debug, Clone, Copy, PartialEq, Eq, Structural)]
pub enum Chosen {
    /// The range at `at`, set to `rate`.
    Range { at: usize, rate: u32 },
    /// The device's own default, which runs at `rate`.
    Default { rate: u32 },
}

impl Chosen {
    /// The rate the device runs at.
    pub open spec fn runs_at(self) -> u32 {
        match self {
            Chosen::Range { rate, .. } => rate,
            Chosen::Default { rate } => rate,
        }
    }

    pub fn rate(&self) -> (rate: u32)
        ensures
            rate == self.runs_at(),
    {
        match self {
            Chosen::Range { rate, .. } => *rate,
            Chosen::Default { rate } => *rate,
        }
    }
}

impl OutputRange {
    /// Whether the range takes floating-point samples of `channels` channels.
    pub open spec fn suits(self, channels: u16) -> bool {
        self.channels == channels && self.float
    }

    /// Whether it does so at `rate`.
    pub open spec fn serves(self, channels: u16, rate: u32) -> bool {
        self.suits(channels) && self.lowest <= rate <= self.highest
    }
}

/// Whether `at` is the first of `ranges` that serves `channels` channels at `rate`.
pub open spec fn first_serving(
    ranges: Seq<OutputRange>,
    channels: u16,
    rate: u32,
    at: int,
) -> bool {
    &&& 0 <= at < ranges.len()
    &&& ranges[at].serves(channels, rate)
    &&& forall|i: int| 0 <= i < at ==> !(#[trigger] ranges[i]).serves(channels, rate)
}

pub open spec fn none_serves(ranges: Seq<OutputRange>, channels: u16, rate: u32) -> bool {
    forall|i: int| 0 <= i < ranges.len() ==> !(#[trigger] ranges[i]).serves(channels, rate)
}

/// Whether `at` is the first of `ranges` that takes `channels` channels at any rate.
pub open spec fn first_suiting(ranges: Seq<OutputRange>, channels: u16, at: int) -> bool {
    &&& 0 <= at < ranges.len()
    &&& ranges[at].suits(channels)
    &&& forall|i: int| 0 <= i < at ==> !(#[trigger] ranges[i]).suits(channels)
}

pub open spec fn none_suits(ranges: Seq<OutputRange>, channels: u16) -> bool {
    forall|i: int| 0 <= i < ranges.len() ==> !(#[trigger] ranges[i]).suits(channels)
}

/// Whether the device's default takes floating-point samples of `channels` channels.
pub open spec fn default_suits(default: Option<OutputDefault>, channels: u16) -> bool {
    default is Some && default->0.float && default->0.channels == channels
}

/// Why no configuration was found for a source.
pub open spec fn no_config(channels: u16) -> Seq<char> {
    "device has no f32 output config for "@ + decimal(channels as nat) + " channels"@
}

/// Why no configuration matches a source exactly.
pub open spec fn no_exact_config(rate: u32, channels: u16) -> Seq<char> {
    "default device has no f32 config for "@ + decimal(rate as nat) + " Hz / "@ + decimal(
        channels as nat,
    ) + " ch (resampling not yet implemented)"@
}

/// The first of `ranges` that serves `channels` channels at `rate`.
fn serving(ranges: &Vec<OutputRange>, channels: u16, rate: u32) -> (at: Option<usize>)
    ensures
        match at {
            Some(at) => first_serving(ranges@, channels, rate, at as int),
            None => none_serves(ranges@, channels, rate),
        },
{
    let mut i: usize = 0;
    while i < ranges.len()
        invariant
            i <= ranges.len(),
            forall|j: int| 0 <= j < i ==> !(#[trigger] ranges@[j]).serves(channels, rate),
        decreases ranges.len() - i,
    {
        let range = &ranges[i];
        if range.channels == channels && range.float && range.lowest <= rate && rate
            <= range.highest {
            return Some(i);
        }
        i = i + 1;
    }
    None
}

/// The first of `ranges` that takes `channels` channels at any rate.
fn suiting(ranges: &Vec<OutputRange>, channels: u16) -> (at: Option<usize>)
    ensures
        match at {
            Some(at) => first_suiting(ranges@, channels, at as int),
            None => none_suits(ranges@, channels),
        },
{
    let mut i: usize = 0;
    while i < ranges.len()
        invariant
            i <= ranges.len(),
            forall|j: int| 0 <= j < i ==> !(#[trigger] ranges@[j]).suits(channels),
        decreases ranges.len() - i,
    {
        let range = &ranges[i];
        if range.channels == channels && range.float {
            return Some(i);
        }
        i = i + 1;
    }
    None
}

/// Choose a configuration for a source: at the source's own rate where the device has one, else
/// the device's default where it suits, else the first range that suits at its highest rate. The
/// source is resampled wherever the rates differ.
pub fn choose_config(
    ranges: &Vec<OutputRange>,
    default: Option<OutputDefault>,
    source_rate: u32,
    channels: u16,
) -> (chosen: Result<Chosen, PlayError>)
    ensures
        match chosen {
            Ok(Chosen::Range { at, rate }) => {
                ||| rate == source_rate && first_serving(
                    ranges@,
                    channels,
                    source_rate,
                    at as int,
                )
                ||| none_serves(ranges@, channels, source_rate) && !default_suits(
                    default,
                    channels,
                ) && first_suiting(ranges@, channels, at as int) && rate
                    == ranges@[at as int].highest
            },
            Ok(Chosen::Default { rate }) => none_serves(ranges@, channels, source_rate)
                && default_suits(default, channels) && rate == default->0.rate,
            Err(e) => none_suits(ranges@, channels) && !default_suits(default, channels) && e@
                == PlayErrorView::UnsupportedFormat(no_config(channels)),
        },
        chosen is Ok <==> !none_suits(ranges@, channels) || default_suits(default, channels),
        !none_serves(ranges@, channels, source_rate) ==> chosen is Ok && chosen->Ok_0.runs_at()
            == source_rate,
{
    if let Some(at) = serving(ranges, channels, source_rate) {
        return Ok(Chosen::Range { at, rate: source_rate });
    }
    if let Some(own) = default {
        if own.float && own.channels == channels {
            return Ok(Chosen::Default { rate: own.rate });
        }
    }
    match suiting(ranges, channels) {
        Some(at) => Ok(Chosen::Range { at, rate: ranges[at].highest }),
        None => {
            let mut text = concat(
                "device has no f32 output config for ",
                number(channels as u64).as_str(),
            );
            text.append(" channels");
            Err(PlayError::UnsupportedFormat(text))
        },
    }
}

/// The first of `ranges` that matches a source exactly, for an output that does not resample.
pub fn pick_output_config(ranges: &Vec<OutputRange>, sample_rate: u32, channels: u16) -> (picked:
    Result<usize, PlayError>)
    ensures
        match picked {
            Ok(at) => first_serving(ranges@, channels, sample_rate, at as int),
            Err(e) => none_serves(ranges@, channels, sample_rate) && e@
                == PlayErrorView::UnsupportedFormat(no_exact_config(sample_rate, channels)),
        },
{
    match serving(ranges, channels, sample_rate) {
        Some(at) => Ok(at),
        None => {
            let mut text = concat(
                "default device has no f32 config for ",
                number(sample_rate as u64).as_str(),
            );
            text.append(" Hz / ");
            text.append(number(channels as u64).as_str());
            text.append(" ch (resampling not yet implemented)");
            Err(PlayError::UnsupportedFormat(text))
        },
    }
}

/// The devices present: the name of each that has one, and of the default if there is a default.
pub struct Devices {
    pub names: Vec<Option<String>>,
    /// Whether there is a default device, and its name if that is known.
    pub default: Option<Option<String>>,
}

/// The device to open.
#[derive(Debug, PartialEq, Eq)]
pub enum Device {
    /// The one at this place in the list, which is the one that was open before.
    Same(usize),
    /// The current default, under this name.
    Default(String),
}

/// Whether `at` is the first device called `name`.
pub open spec fn first_called(names: Seq<Option<String>>, name: Seq<char>, at: int) -> bool {
    &&& 0 <= at < names.len()
    &&& names[at] is Some && names[at]->0@ == name
    &&& forall|i: int|
        0 <= i < at ==> !((#[trigger] names[i]) is Some && names[i]->0@ == name)
}

pub open spec fn none_called(names: Seq<Option<String>>, name: Seq<char>) -> bool {
    forall|i: int|
        0 <= i < names.len() ==> !((#[trigger] names[i]) is Some && names[i]->0@ == name)
}

fn called(names: &Vec<Option<String>>, name: &str) -> (at: Option<usize>)
    ensures
        match at {
            Some(at) => first_called(names@, name@, at as int),
            None => none_called(names@, name@),
        },
{
    let mut i: usize = 0;
    while i < names.len()
        invariant
            i <= names.len(),
            forall|j: int|
                0 <= j < i ==> !((#[trigger] names@[j]) is Some && names@[j]->0@ == name@),
        decreases names.len() - i,
    {
        if let Some(candidate) = &names[i] {
            if same(candidate.as_str(), name) {
                return Some(i);
            }
        }
        i = i + 1;
    }
    None
}

/// The device to open: the one called `preferred` if it is there, so that playback returns to it
/// after a disconnect, else the current default.
pub fn resolve_device(preferred: Option<&str>, devices: &Devices) -> (device: Result<
    Device,
    PlayError,
>)
    ensures
        match device {
            Ok(Device::Same(at)) => preferred is Some && first_called(
                devices.names@,
                preferred->0@,
                at as int,
            ),
            Ok(Device::Default(name)) => {
                &&& preferred is None || none_called(devices.names@, preferred->0@)
                &&& match devices.default {
                    Some(Some(own)) => name@ == own@,
                    Some(None) => name@ == "default"@,
                    None => false,
                }
            },
            Err(e) => {
                &&& preferred is None || none_called(devices.names@, preferred->0@)
                &&& devices.default is None
                &&& e == PlayError::NoDevice
            },
        },
{
    if let Some(name) = preferred {
        if let Some(at) = called(&devices.names, name) {
            return Ok(Device::Same(at));
        }
    }
    match &devices.default {
        Some(Some(own)) => Ok(Device::Default(own.clone())),
        Some(None) => Ok(Device::Default("default".to_owned())),
        None => Err(PlayError::NoDevice),
    }
}

/// How often opening a device is tried before giving up.
pub const REOPEN_ATTEMPTS: u32 = 40;

/// The pause between two failed attempts, in milliseconds.
pub const REOPEN_BACKOFF_MS: u64 = 250;

/// Opening a device, again and again, so that one that is gone for a moment heals rather than
/// fails.
pub struct Reopening {
    /// Attempts that failed so far.
    pub failed: u32,
    /// Why the last of them did.
    pub last: PlayError,
}

/// What to do next about opening the device.
#[derive(Debug, PartialEq, Eq)]
pub enum Reopen {
    /// Try to open it.
    Open,
    /// Give up for this reason.
    GiveUp(PlayError),
}

impl Reopening {
    pub fn new() -> (opening: Reopening)
        ensures
            opening.failed == 0,
            opening.last == PlayError::NoDevice,
    {
        Reopening { failed: 0, last: PlayError::NoDevice }
    }

    /// What to do next: give up when stopped or after the last attempt, else try.
    pub fn next(self, stopped: bool) -> (step: (Reopen, Reopening))
        ensures
            step.1.failed == self.failed,
            self.failed >= REOPEN_ATTEMPTS ==> (step.0 matches Reopen::GiveUp(e) && e
                == self.last),
            self.failed < REOPEN_ATTEMPTS && stopped ==> (step.0 matches Reopen::GiveUp(e) && e@
                == PlayErrorView::Device("stopped while opening device"@)),
            self.failed < REOPEN_ATTEMPTS && !stopped ==> step == (Reopen::Open, self),
    {
        if self.failed >= REOPEN_ATTEMPTS {
            let failed: u32 = self.failed;
            return (Reopen::GiveUp(self.last), Reopening { failed, last: PlayError::NoDevice });
        }
        if stopped {
            let why = PlayError::Device("stopped while opening device".to_owned());
            return (Reopen::GiveUp(why), self);
        }
        (Reopen::Open, self)
    }

    /// An attempt failed. Wait as long as the result says before the next.
    pub fn failed(&mut self, why: PlayError) -> (wait: Duration)
        requires
            old(self).failed < REOPEN_ATTEMPTS,
        ensures
            final(self).failed == old(self).failed + 1,
            final(self).last == why,
            wait.nanos == REOPEN_BACKOFF_MS * 1_000_000,
    {
        self.failed = self.failed + 1;
        self.last = why;
        Duration::from_millis(REOPEN_BACKOFF_MS)
    }
}

/// A device's range runs a stream of as many channels, in floating point, at any rate from its
/// lowest to its highest.
pub proof fn a_range_runs_the_rates_it_spans(range: OutputRange, channels: u16, rate: u32)
    ensures
        range.serves(channels, rate) <==> range.channels == channels && range.float && range.lowest
            <= rate && rate <= range.highest,
        range.serves(channels, rate) ==> range.suits(channels),
        range.suits(channels) && range.lowest <= range.highest ==> range.serves(
            channels,
            range.highest,
        ),
{
}

} // verus!

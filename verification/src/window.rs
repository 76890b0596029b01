//! Configuration of the overlays, and the life of the thread behind them.

use crate::error::SpawnError;
use crate::fraction::WHOLE;
use crate::names::NameSet;
use crate::render::{Brightness, Color, Opacity};
use crate::span;
use crate::span::Span;
use vstd::prelude::*;

verus! {

/// `From` of a type for itself hands the argument back, as the standard library
/// documents.
pub assume_specification<T>[ <T as From<T>>::from ](t: T) -> (same: T)
    ensures
        same == t,
;

/// How the background thread was spawned, which determines its phases.
#[derive(Debug, Clone, Copy, PartialEq, Eq, Structural)]
pub enum SpawnMode {
    /// Standard spawn. Focus tracking is always on.
    Standard,
    /// Choreographed launch: fade in all outputs, run the callback, reveal.
    SpawnWith,
}

/// Resolved configuration passed to the background thread.
#[derive(Debug)]
pub struct Config {
    /// Output names to never create surfaces on.
    pub skip_names: NameSet,
    /// How this instance was spawned.
    pub spawn_mode: SpawnMode,
    /// Layer-shell namespace for overlay surfaces.
    pub namespace: String,
    /// Delay before connecting to Wayland and creating surfaces.
    pub settle_delay: Option<Span>,
    /// Duration of the initial fade-in animation.
    pub fade_duration: Option<Span>,
    /// Target opacity for dimmed overlays.
    pub target_opacity: Opacity,
    /// Overlay color.
    pub color: Color,
    /// Target brightness for gamma dimming. `None` means gamma is untouched.
    pub target_brightness: Option<Brightness>,
}

/// The settings of a builder, or those of a configuration.
pub struct SettingsView {
    pub skip_names: Set<Seq<char>>,
    pub namespace: Seq<char>,
    pub settle_delay: Option<Span>,
    pub fade_duration: Option<Span>,
    pub opacity: Opacity,
    pub color: Color,
    pub brightness: Option<Brightness>,
}

impl Config {
    /// The settings, without the mode.
    pub open spec fn settings(self) -> SettingsView {
        SettingsView {
            skip_names: self.skip_names@,
            namespace: self.namespace@,
            settle_delay: self.settle_delay,
            fade_duration: self.fade_duration,
            opacity: self.target_opacity,
            color: self.color,
            brightness: self.target_brightness,
        }
    }
}

/// Builder for configuring which outputs to dim.
#[derive(Debug)]
pub struct ZenWindowBuilder {
    pub skip_names: NameSet,
    pub namespace: String,
    pub settle_delay: Option<Span>,
    pub fade_duration: Option<Span>,
    pub opacity: Opacity,
    pub color: Color,
    pub brightness: Option<Brightness>,
}

impl View for ZenWindowBuilder {
    type V = SettingsView;

    open spec fn view(&self) -> SettingsView {
        SettingsView {
            skip_names: self.skip_names@,
            namespace: self.namespace@,
            settle_delay: self.settle_delay,
            fade_duration: self.fade_duration,
            opacity: self.opacity,
            color: self.color,
            brightness: self.brightness,
        }
    }
}

impl ZenWindowBuilder {
    /// The default settings: black, fully opaque, at once, and gamma untouched.
    pub fn new() -> (builder: ZenWindowBuilder)
        ensures
            builder@.skip_names == Set::<Seq<char>>::empty(),
            builder@.namespace == "wl-zenwindow"@,
            builder@.settle_delay is None,
            builder@.fade_duration is None,
            builder@.opacity@ == WHOLE,
            builder@.color == (Color { r: 0, g: 0, b: 0 }),
            builder@.brightness is None,
    {
        ZenWindowBuilder {
            skip_names: NameSet::new(),
            namespace: "wl-zenwindow".to_owned(),
            settle_delay: None,
            fade_duration: None,
            opacity: Opacity::opaque(),
            color: Color::black(),
            brightness: None,
        }
    }

    /// Skip an output by its Wayland name (e.g., "DP-6", "eDP-1").
    #[must_use]
    pub fn skip_output(self, name: &str) -> (builder: ZenWindowBuilder)
        ensures
            builder@ == (SettingsView {
                skip_names: self@.skip_names.insert(name@),
                ..self@
            }),
    {
        let mut builder = self;
        builder.skip_names.insert(name.to_owned());
        builder
    }

    /// Set the layer-shell namespace (default: "wl-zenwindow").
    #[must_use]
    pub fn namespace(self, ns: &str) -> (builder: ZenWindowBuilder)
        ensures
            builder@ == (SettingsView { namespace: ns@, ..self@ }),
    {
        let mut builder = self;
        builder.namespace = ns.to_owned();
        builder
    }

    /// Wait before creating surfaces. Useful when launching alongside a UI
    /// window: gives the window time to render and gain focus.
    #[must_use]
    pub fn settle_delay(self, delay: Span) -> (builder: ZenWindowBuilder)
        ensures
            builder@ == (SettingsView { settle_delay: Some(delay), ..self@ }),
    {
        let mut builder = self;
        builder.settle_delay = Some(delay);
        builder
    }

    /// Fade in the overlays over the given duration.
    #[must_use]
    pub fn fade_in(self, duration: Span) -> (builder: ZenWindowBuilder)
        ensures
            builder@ == (SettingsView { fade_duration: Some(duration), ..self@ }),
    {
        let mut builder = self;
        builder.fade_duration = Some(duration);
        builder
    }

    /// Set the overlay color (default: black).
    #[must_use]
    pub fn color(self, color: impl Into<Color>) -> (builder: ZenWindowBuilder)
        ensures
            call_ensures(Into::<Color>::into, (color,), builder@.color),
            builder@ == (SettingsView { color: builder@.color, ..self@ }),
    {
        let mut builder = self;
        builder.color = color.into();
        builder
    }

    /// Set the final overlay opacity (default: fully opaque).
    #[must_use]
    pub fn opacity(self, opacity: impl Into<Opacity>) -> (builder: ZenWindowBuilder)
        ensures
            call_ensures(Into::<Opacity>::into, (opacity,), builder@.opacity),
            builder@ == (SettingsView { opacity: builder@.opacity, ..self@ }),
    {
        let mut builder = self;
        builder.opacity = opacity.into();
        builder
    }

    /// Dim monitor brightness via gamma control (default: gamma untouched).
    #[must_use]
    pub fn brightness(self, brightness: impl Into<Brightness>) -> (builder: ZenWindowBuilder)
        ensures
            builder@.brightness matches Some(b) && call_ensures(
                Into::<Brightness>::into,
                (brightness,),
                b,
            ),
            builder@ == (SettingsView { brightness: builder@.brightness, ..self@ }),
    {
        let mut builder = self;
        builder.brightness = Some(brightness.into());
        builder
    }

    /// The configuration that a thread spawned in the given mode runs with.
    pub fn to_config(&self, spawn_mode: SpawnMode) -> (config: Config)
        ensures
            config.spawn_mode == spawn_mode,
            config.settings() == self@,
    {
        Config {
            skip_names: self.skip_names.clone(),
            spawn_mode,
            namespace: self.namespace.clone(),
            settle_delay: self.settle_delay,
            fade_duration: self.fade_duration,
            target_opacity: self.opacity,
            color: self.color,
            target_brightness: self.brightness,
        }
    }
}

/// How a background thread came to its end.
#[derive(Debug)]
pub enum ThreadEnd {
    /// It returned without an error.
    Finished,
    /// It returned an error.
    Failed(SpawnError),
    /// It panicked.
    Panicked,
}

/// What became of the attempt to start a background thread.
#[derive(Debug)]
pub enum Startup {
    /// The system refused to create it, for a cause.
    Refused(String),
    /// Its overlays are ready.
    Ready,
    /// It ended before they were.
    Ended(ThreadEnd),
}

/// Why there is no handle to return.
#[derive(Debug)]
pub enum SpawnFailure {
    /// The thread could not be created, or setup failed.
    Error(SpawnError),
    /// The thread panicked: the panic goes on in the calling thread.
    Panicked,
}

/// Handle to running zen overlays.
///
/// Overlay surfaces remain visible as long as this handle exists. Dropping it
/// disconnects from Wayland, removes overlays, and restores gamma.
#[derive(Debug, Clone, Copy, PartialEq, Eq, Structural)]
pub struct ZenWindow {
    /// Whether there is a thread to wait for.
    pub thread: bool,
    /// Whether the thread has been told to stop.
    pub shutdown: bool,
}

/// How long a dropped handle waits for its thread at most.
pub const DROP_TIMEOUT_SECS: u64 = 1;

/// How long a dropped handle sleeps between two looks at its thread.
pub const DROP_POLL_MILLIS: u64 = 10;

/// What a dropped handle does next.
#[derive(Debug, Clone, Copy, PartialEq, Eq, Structural)]
pub enum DropStep {
    /// Join the thread, which has finished.
    Join,
    /// Leave the thread alone: it has not finished in time.
    Abandon,
    /// Sleep, then look again.
    Sleep(Span),
}

impl ZenWindow {
    /// Create a new builder to configure which outputs to dim.
    #[must_use]
    pub fn builder() -> (builder: ZenWindowBuilder)
        ensures
            builder@.skip_names == Set::<Seq<char>>::empty(),
            builder@.namespace == "wl-zenwindow"@,
            builder@.settle_delay is None,
            builder@.fade_duration is None,
            builder@.opacity@ == WHOLE,
            builder@.color == (Color { r: 0, g: 0, b: 0 }),
            builder@.brightness is None,
    {
        ZenWindowBuilder::new()
    }

    /// The handle to a thread that nobody waits for: there is one unless the
    /// system refused to create it.
    pub fn nonblocking(created: bool) -> (window: ZenWindow)
        ensures
            window == (ZenWindow { thread: created, shutdown: false }),
    {
        ZenWindow { thread: created, shutdown: false }
    }

    /// The system refused to create a thread, for a cause.
    pub fn refused(cause: String) -> (failure: SpawnFailure)
        ensures
            failure == SpawnFailure::Error(SpawnError::ThreadSpawn(cause)),
    {
        SpawnFailure::Error(SpawnError::ThreadSpawn(cause))
    }

    /// The handle to a thread that has been waited for. A thread that finished
    /// without an error leaves a handle with nothing to wait for.
    pub fn started(startup: Startup) -> (result: Result<ZenWindow, SpawnFailure>)
        ensures
            match startup {
                Startup::Refused(cause) => result == Err::<ZenWindow, SpawnFailure>(
                    SpawnFailure::Error(SpawnError::ThreadSpawn(cause)),
                ),
                Startup::Ready => result == Ok::<ZenWindow, SpawnFailure>(
                    ZenWindow { thread: true, shutdown: false },
                ),
                Startup::Ended(ThreadEnd::Finished) => result == Ok::<ZenWindow, SpawnFailure>(
                    ZenWindow { thread: false, shutdown: false },
                ),
                Startup::Ended(ThreadEnd::Failed(error)) => result == Err::<
                    ZenWindow,
                    SpawnFailure,
                >(SpawnFailure::Error(error)),
                Startup::Ended(ThreadEnd::Panicked) => result == Err::<ZenWindow, SpawnFailure>(
                    SpawnFailure::Panicked,
                ),
            },
    {
        match startup {
            Startup::Refused(cause) => Err(ZenWindow::refused(cause)),
            Startup::Ready => Ok(ZenWindow { thread: true, shutdown: false }),
            Startup::Ended(end) => match end {
                ThreadEnd::Finished => Ok(ZenWindow { thread: false, shutdown: false }),
                ThreadEnd::Failed(error) => Err(SpawnFailure::Error(error)),
                ThreadEnd::Panicked => Err(SpawnFailure::Panicked),
            },
        }
    }

    /// Tell the thread to stop. Returns whether there is one to wait for; it is
    /// waited for once.
    pub fn stop(&mut self) -> (wait: bool)
        ensures
            wait == old(self).thread,
            *final(self) == (ZenWindow { thread: false, shutdown: true }),
    {
        let wait = self.thread;
        self.shutdown = true;
        self.thread = false;
        wait
    }
}

/// What a dropped handle does next, `waited` after it was dropped.
pub fn drop_step(finished: bool, waited: Span) -> (step: DropStep)
    ensures
        finished ==> step == DropStep::Join,
        !finished && waited@ >= DROP_TIMEOUT_SECS * span::NANOS_PER_SEC ==> step
            == DropStep::Abandon,
        !finished && waited@ < DROP_TIMEOUT_SECS * span::NANOS_PER_SEC ==> (step matches DropStep::Sleep(
            pause,
        ) && pause@ == DROP_POLL_MILLIS * span::NANOS_PER_MILLI),
{
    if finished {
        DropStep::Join
    } else if waited.is_less(Span::from_secs(DROP_TIMEOUT_SECS)) {
        DropStep::Sleep(Span::from_millis(DROP_POLL_MILLIS))
    } else {
        DropStep::Abandon
    }
}

} // verus!

//! The commands of the tool.
//!
//! A command works on files and on the container engine, which this library
//! does not touch. It is cut into steps instead: each step names one `Effect`
//! for the caller to carry out, and the caller answers with the `Event` that
//! came of it. What to do next is decided here.

pub mod add;
pub mod build_image;
pub mod rm;
pub mod run;

use crate::cli::{CommandView, Commands};
use crate::config::{ConfigView, LazyConfig};
use vstd::prelude::*;

verus! {

/// Something to tell the user.
#[derive(Debug, Clone, Copy, PartialEq, Eq, Structural)]
pub enum Notice {
    /// No image matches the configured reference: build first.
    ImageMissing,
    /// The container was started.
    Started,
    /// The engine failed to start the container.
    StartFailed,
    /// The engine failed to build the image.
    BuildFailed,
    /// The engine failed to remove the container.
    RemoveFailed,
}

/// What the caller is asked to do.
#[derive(Debug, Clone, PartialEq, Eq)]
pub enum Effect {
    /// Run the engine with `args` and feed it `stdin`, if there is any. Answer
    /// with `Event::Exited`, or with `Event::Unavailable` where the engine could
    /// not be run.
    Engine { args: Vec<String>, stdin: Option<String> },
    /// Run the engine with `args` and keep what it writes to its standard
    /// output. Answer with `Event::Output`, or with `Event::Unavailable`.
    Capture { args: Vec<String> },
    /// Run the engine with `args` for the user to read; how it ends does not
    /// matter. Answer with `Event::Done`.
    Show { args: Vec<String> },
    /// Find out whether a file exists at `path`. Answer with `Event::Exists`.
    Probe { path: String },
    /// Make the directories above `path`, and read the lines of the file at
    /// `path` if it exists. Answer with `Event::Lines`.
    Read { path: String },
    /// Write `lines` to the file at `path`, in place of what it holds, each
    /// with a line feed behind it. Answer with `Event::Done`.
    Write { path: String, lines: Vec<String> },
    /// Tell the user. Answer with `Event::Done`.
    Report(Notice),
    /// The engine could not be run where the command cannot go on without it:
    /// give up with a diagnostic.
    Abort,
    /// The command is over.
    Finish,
}

/// What came of an effect.
#[derive(Debug, Clone, PartialEq, Eq)]
pub enum Event {
    /// The engine ran and ended, with success or without.
    Exited(bool),
    /// The engine ran and wrote this to its standard output.
    Output(Vec<u8>),
    /// The engine could not be run.
    Unavailable,
    /// Whether the file exists.
    Exists(bool),
    /// The lines of the file, or `None` where there is no file.
    Lines(Option<Vec<String>>),
    /// The effect was carried out.
    Done,
}

/// How far a command has come.
#[derive(Debug, Clone, PartialEq, Eq)]
pub enum State {
    /// Remove: the engine was asked to remove the container.
    Removing,
    /// Build: the Dockerfile is being looked for.
    Locating,
    /// Build: the engine was asked to build.
    Building,
    /// Run: the engine was asked for the image.
    Querying,
    /// Run: the environment file is being looked for.
    Probing,
    /// Run: the engine was asked to start the container.
    Starting,
    /// Run: the user is told that the container runs.
    Started,
    /// Add: the lines of the Dockerfile were asked for.
    Reading { package: String },
    /// The last effect of the command is under way.
    Closing,
    /// Nothing is left to do.
    Done,
}

/// An effect as plain values.
pub enum EffectView {
    Engine { args: Seq<Seq<char>>, stdin: Option<Seq<char>> },
    Capture { args: Seq<Seq<char>> },
    Show { args: Seq<Seq<char>> },
    Probe { path: Seq<char> },
    Read { path: Seq<char> },
    Write { path: Seq<char>, lines: Seq<Seq<char>> },
    Report(Notice),
    Abort,
    Finish,
}

/// An event as plain values.
pub enum EventView {
    Exited(bool),
    Output(Seq<u8>),
    Unavailable,
    Exists(bool),
    Lines(Option<Seq<Seq<char>>>),
    Done,
}

/// A state as plain values.
pub enum StateView {
    Removing,
    Locating,
    Building,
    Querying,
    Probing,
    Starting,
    Started,
    Reading { package: Seq<char> },
    Closing,
    Done,
}

impl View for Effect {
    type V = EffectView;

    open spec fn view(&self) -> EffectView {
        match self {
            Effect::Engine { args, stdin } => EffectView::Engine {
                args: args.deep_view(),
                stdin: stdin.deep_view(),
            },
            Effect::Capture { args } => EffectView::Capture { args: args.deep_view() },
            Effect::Show { args } => EffectView::Show { args: args.deep_view() },
            Effect::Probe { path } => EffectView::Probe { path: path@ },
            Effect::Read { path } => EffectView::Read { path: path@ },
            Effect::Write { path, lines } => EffectView::Write {
                path: path@,
                lines: lines.deep_view(),
            },
            Effect::Report(notice) => EffectView::Report(*notice),
            Effect::Abort => EffectView::Abort,
            Effect::Finish => EffectView::Finish,
        }
    }
}

impl View for Event {
    type V = EventView;

    open spec fn view(&self) -> EventView {
        match self {
            Event::Exited(success) => EventView::Exited(*success),
            Event::Output(bytes) => EventView::Output(bytes@),
            Event::Unavailable => EventView::Unavailable,
            Event::Exists(exists) => EventView::Exists(*exists),
            Event::Lines(lines) => EventView::Lines(lines.deep_view()),
            Event::Done => EventView::Done,
        }
    }
}

impl View for State {
    type V = StateView;

    open spec fn view(&self) -> StateView {
        match self {
            State::Removing => StateView::Removing,
            State::Locating => StateView::Locating,
            State::Building => StateView::Building,
            State::Querying => StateView::Querying,
            State::Probing => StateView::Probing,
            State::Starting => StateView::Starting,
            State::Started => StateView::Started,
            State::Reading { package } => StateView::Reading { package: package@ },
            State::Closing => StateView::Closing,
            State::Done => StateView::Done,
        }
    }
}

/// One step of a command: the state it is in now, and what the caller is to do.
#[derive(Debug, Clone, PartialEq, Eq)]
pub struct Step {
    pub state: State,
    pub effect: Effect,
}

/// A step as plain values.
pub struct StepView {
    pub state: StateView,
    pub effect: EffectView,
}

impl View for Step {
    type V = StepView;

    open spec fn view(&self) -> StepView {
        StepView { state: self.state@, effect: self.effect@ }
    }
}

/// The step on which nothing is left to do.
pub open spec fn finished() -> StepView {
    StepView { state: StateView::Done, effect: EffectView::Finish }
}

/// The first step of a command.
pub open spec fn first_step(command: CommandView, config: ConfigView) -> StepView {
    match command {
        CommandView::Rm => StepView {
            state: StateView::Removing,
            effect: EffectView::Engine { args: rm::removal(config), stdin: None },
        },
        CommandView::Build => StepView {
            state: StateView::Locating,
            effect: EffectView::Probe { path: config.dockerfile },
        },
        CommandView::Run => StepView {
            state: StateView::Querying,
            effect: EffectView::Capture { args: run::image_query(config) },
        },
        CommandView::Add { package } => StepView {
            state: StateView::Reading { package },
            effect: EffectView::Read { path: config.dockerfile },
        },
    }
}

/// The step that follows when `event` answers the effect of a step in `state`.
/// An event that is no answer to that effect ends the command.
pub open spec fn next_step(config: ConfigView, state: StateView, event: EventView) -> StepView {
    match (state, event) {
        (StateView::Removing, EventView::Exited(true)) => finished(),
        (StateView::Removing, EventView::Exited(false)) => StepView {
            state: StateView::Closing,
            effect: EffectView::Report(Notice::RemoveFailed),
        },
        (StateView::Removing, EventView::Unavailable) => StepView {
            state: StateView::Closing,
            effect: EffectView::Report(Notice::RemoveFailed),
        },
        (StateView::Locating, EventView::Exists(exists)) => StepView {
            state: StateView::Building,
            effect: EffectView::Engine {
                args: build_image::build_arguments(config, exists),
                stdin: build_image::build_input(config, exists),
            },
        },
        (StateView::Building, EventView::Exited(true)) => finished(),
        (StateView::Building, EventView::Exited(false)) => StepView {
            state: StateView::Closing,
            effect: EffectView::Report(Notice::BuildFailed),
        },
        (StateView::Building, EventView::Unavailable) => StepView {
            state: StateView::Done,
            effect: EffectView::Abort,
        },
        (StateView::Querying, EventView::Output(bytes)) => if bytes.len() == 0 {
            StepView { state: StateView::Closing, effect: EffectView::Report(Notice::ImageMissing) }
        } else if config.env.len() == 0 {
            StepView {
                state: StateView::Starting,
                effect: EffectView::Engine {
                    args: run::start_arguments(config, false),
                    stdin: None,
                },
            }
        } else {
            StepView { state: StateView::Probing, effect: EffectView::Probe { path: config.env } }
        },
        (StateView::Querying, EventView::Unavailable) => StepView {
            state: StateView::Done,
            effect: EffectView::Abort,
        },
        (StateView::Probing, EventView::Exists(exists)) => StepView {
            state: StateView::Starting,
            effect: EffectView::Engine { args: run::start_arguments(config, exists), stdin: None },
        },
        (StateView::Starting, EventView::Exited(true)) => StepView {
            state: StateView::Started,
            effect: EffectView::Report(Notice::Started),
        },
        (StateView::Starting, EventView::Exited(false)) => StepView {
            state: StateView::Closing,
            effect: EffectView::Report(Notice::StartFailed),
        },
        (StateView::Starting, EventView::Unavailable) => StepView {
            state: StateView::Done,
            effect: EffectView::Abort,
        },
        (StateView::Started, EventView::Done) => StepView {
            state: StateView::Closing,
            effect: EffectView::Show { args: run::listing() },
        },
        (StateView::Reading { package }, EventView::Lines(existing)) => StepView {
            state: StateView::Closing,
            effect: EffectView::Write {
                path: config.dockerfile,
                lines: add::edited(config, package, existing),
            },
        },
        _ => finished(),
    }
}

/// Begins a command: the first thing to do for it under `config`.
pub fn dispatch_command(cmd: Commands, config: &LazyConfig) -> (step: Step)
    ensures
        step@ == first_step(cmd@, config@),
{
    match cmd {
        Commands::Rm => Step {
            state: State::Removing,
            effect: Effect::Engine { args: rm::run(config), stdin: None },
        },
        Commands::Build => Step {
            state: State::Locating,
            effect: Effect::Probe { path: config.dockerfile.clone() },
        },
        Commands::Run => Step {
            state: State::Querying,
            effect: Effect::Capture { args: run::query(config) },
        },
        Commands::Add { package } => Step {
            state: State::Reading { package },
            effect: Effect::Read { path: config.dockerfile.clone() },
        },
    }
}

/// The step on which nothing is left to do.
fn finish() -> (step: Step)
    ensures
        step@ == finished(),
{
    Step { state: State::Done, effect: Effect::Finish }
}

/// A last step that tells the user `notice`.
fn close_with(notice: Notice) -> (step: Step)
    ensures
        step@ == (StepView { state: StateView::Closing, effect: EffectView::Report(notice) }),
{
    Step { state: State::Closing, effect: Effect::Report(notice) }
}

/// The step that gives up.
fn abort() -> (step: Step)
    ensures
        step@ == (StepView { state: StateView::Done, effect: EffectView::Abort }),
{
    Step { state: State::Done, effect: Effect::Abort }
}

/// Goes on with a command: what to do after `event` has answered the effect of
/// the step in `state`.
pub fn resume(config: &LazyConfig, state: State, event: Event) -> (step: Step)
    ensures
        step@ == next_step(config@, state@, event@),
{
    match state {
        State::Removing => match event {
            Event::Exited(true) => finish(),
            Event::Exited(false) => close_with(Notice::RemoveFailed),
            Event::Unavailable => close_with(Notice::RemoveFailed),
            _ => finish(),
        },
        State::Locating => match event {
            Event::Exists(exists) => {
                let (args, stdin) = build_image::run(config, exists);
                Step { state: State::Building, effect: Effect::Engine { args, stdin } }
            },
            _ => finish(),
        },
        State::Building => match event {
            Event::Exited(true) => finish(),
            Event::Exited(false) => close_with(Notice::BuildFailed),
            Event::Unavailable => abort(),
            _ => finish(),
        },
        State::Querying => match event {
            Event::Output(bytes) => {
                if bytes.len() == 0 {
                    close_with(Notice::ImageMissing)
                } else if config.env.as_str().unicode_len() == 0 {
                    Step {
                        state: State::Starting,
                        effect: Effect::Engine { args: run::run(config, false), stdin: None },
                    }
                } else {
                    Step { state: State::Probing, effect: Effect::Probe { path: config.env.clone() } }
                }
            },
            Event::Unavailable => abort(),
            _ => finish(),
        },
        State::Probing => match event {
            Event::Exists(exists) => Step {
                state: State::Starting,
                effect: Effect::Engine { args: run::run(config, exists), stdin: None },
            },
            _ => finish(),
        },
        State::Starting => match event {
            Event::Exited(true) => Step {
                state: State::Started,
                effect: Effect::Report(Notice::Started),
            },
            Event::Exited(false) => close_with(Notice::StartFailed),
            Event::Unavailable => abort(),
            _ => finish(),
        },
        State::Started => match event {
            Event::Done => Step { state: State::Closing, effect: Effect::Show { args: run::list() } },
            _ => finish(),
        },
        State::Reading { package } => match event {
            Event::Lines(existing) => {
                let lines = match &existing {
                    Some(found) => add::run(config, package.as_str(), Some(found)),
                    None => add::run(config, package.as_str(), None),
                };
                Step {
                    state: State::Closing,
                    effect: Effect::Write { path: config.dockerfile.clone(), lines },
                }
            },
            _ => finish(),
        },
        State::Closing => finish(),
        State::Done => finish(),
    }
}


/// The effects that a command asks for, one after the other, when it stands in
/// `state` and `events` answer them in turn.
pub open spec fn effects_after(
    config: ConfigView,
    state: StateView,
    events: Seq<EventView>,
) -> Seq<EffectView>
    decreases events.len(),
{
    if events.len() == 0 {
        Seq::empty()
    } else {
        let step = next_step(config, state, events[0]);
        seq![step.effect] + effects_after(config, step.state, events.skip(1))
    }
}

/// Whether an effect runs the engine.
pub open spec fn runs_engine(effect: EffectView) -> bool {
    effect is Engine || effect is Capture || effect is Show
}

/// Every answer brings one more effect.
pub proof fn lemma_effects_len(config: ConfigView, state: StateView, events: Seq<EventView>)
    ensures
        effects_after(config, state, events).len() == events.len(),
    decreases events.len(),
{
    if events.len() > 0 {
        lemma_effects_len(config, next_step(config, state, events[0]).state, events.skip(1));
    }
}

/// A command whose last effect is under way, or that is over, asks for nothing
/// more, whatever it is told.
pub proof fn lemma_closing_asks_nothing(
    config: ConfigView,
    state: StateView,
    events: Seq<EventView>,
)
    requires
        state is Closing || state is Done,
    ensures
        forall|i: int|
            0 <= i < events.len() ==> #[trigger] effects_after(config, state, events)[i]
                == EffectView::Finish,
    decreases events.len(),
{
    lemma_effects_len(config, state, events);
    if events.len() > 0 {
        let rest = effects_after(config, StateView::Done, events.skip(1));
        lemma_effects_len(config, StateView::Done, events.skip(1));
        lemma_closing_asks_nothing(config, StateView::Done, events.skip(1));
        assert forall|i: int| 0 <= i < events.len() implies #[trigger] effects_after(
            config,
            state,
            events,
        )[i] == EffectView::Finish by {
            if i > 0 {
                assert(effects_after(config, state, events)[i] == rest[i - 1]);
            }
        }
    }
}

/// Where the engine knows no image for the configured reference, the run
/// command warns of it and never runs the engine again, whatever it is told
/// from then on.
pub proof fn lemma_missing_image_stops_run(config: ConfigView, events: Seq<EventView>)
    ensures
        next_step(config, StateView::Querying, EventView::Output(Seq::empty())) == (StepView {
            state: StateView::Closing,
            effect: EffectView::Report(Notice::ImageMissing),
        }),
        forall|i: int|
            0 <= i < events.len() ==> !runs_engine(
                #[trigger] effects_after(config, StateView::Closing, events)[i],
            ),
{
    lemma_closing_asks_nothing(config, StateView::Closing, events);
}

/// Only the add command writes a file: no other command asks for a `Write`,
/// at its start or later, whatever it is told.
pub proof fn lemma_only_add_writes(
    command: CommandView,
    config: ConfigView,
    events: Seq<EventView>,
)
    requires
        !(command is Add),
    ensures
        !(first_step(command, config).effect is Write),
        forall|i: int|
            0 <= i < events.len() ==> !(#[trigger] effects_after(
                config,
                first_step(command, config).state,
                events,
            )[i] is Write),
{
    lemma_never_reading(config, first_step(command, config).state, events);
}

/// A command that is not reading a Dockerfile never comes to write one.
proof fn lemma_never_reading(config: ConfigView, state: StateView, events: Seq<EventView>)
    requires
        !(state is Reading),
    ensures
        forall|i: int|
            0 <= i < events.len() ==> !(#[trigger] effects_after(config, state, events)[i]
                is Write),
    decreases events.len(),
{
    lemma_effects_len(config, state, events);
    if events.len() > 0 {
        let step = next_step(config, state, events[0]);
        let rest = effects_after(config, step.state, events.skip(1));
        lemma_effects_len(config, step.state, events.skip(1));
        lemma_never_reading(config, step.state, events.skip(1));
        assert forall|i: int| 0 <= i < events.len() implies !(#[trigger] effects_after(
            config,
            state,
            events,
        )[i] is Write) by {
            if i > 0 {
                assert(effects_after(config, state, events)[i] == rest[i - 1]);
            }
        }
    }
}

} // verus!

//! The dispatch engine: from events to the effects that are due.
//!
//! The engine keeps nothing between events. What it asks for depends on the
//! configuration and on the event at hand alone, so the outcome of an earlier
//! effect cannot change a later decision.

use vstd::prelude::*;
use crate::config::{absent_trigger_expands_to_nothing, first_match_wins, Config, ConfigView};
use crate::signal::{events_in, pending_events, RawEvent};

verus! {

/// Milliseconds between two looks at the cancellation flag.
pub const POLL_INTERVAL_MS: u64 = 100;

/// An effect that the action sink is asked to perform.
#[derive(Debug, PartialEq, Eq)]
pub enum Action {
    /// Open the resource with this URI.
    Open(String),
    /// Type this text into whatever has the input focus.
    InjectText(String),
}

/// The mathematical value of an [`Action`].
pub enum ActionView {
    Open(Seq<char>),
    InjectText(Seq<char>),
}

impl View for Action {
    type V = ActionView;

    open spec fn view(&self) -> ActionView {
        match self {
            Action::Open(uri) => ActionView::Open(uri@),
            Action::InjectText(text) => ActionView::InjectText(text@),
        }
    }
}

impl Clone for Action {
    fn clone(&self) -> (copy: Action)
        ensures
            copy@ == self@,
    {
        match self {
            Action::Open(uri) => Action::Open(uri.clone()),
            Action::InjectText(text) => Action::InjectText(text.clone()),
        }
    }
}

/// The values of a list of actions, in the list's order.
pub open spec fn action_views(actions: Seq<Action>) -> Seq<ActionView> {
    Seq::new(actions.len(), |i: int| actions[i]@)
}

/// The effect that is due for one event: the activation key opens the
/// activation target, a trigger character injects its expansion, and a
/// character without a shortcut asks for nothing.
pub open spec fn action_for(config: ConfigView, event: RawEvent) -> Option<ActionView> {
    match event {
        RawEvent::Activation => Some(ActionView::Open(config.activation_target)),
        RawEvent::TriggerCandidate(c) => match config.expansion(c) {
            Some(text) => Some(ActionView::InjectText(text)),
            None => None,
        },
    }
}

/// The effects that are due for a sequence of events, in the order of the
/// events: each event contributes its own effect, or nothing.
pub open spec fn actions_for(config: ConfigView, events: Seq<RawEvent>) -> Seq<ActionView>
    decreases events.len(),
{
    if events.len() == 0 {
        Seq::empty()
    } else {
        let before = actions_for(config, events.drop_last());
        match action_for(config, events.last()) {
            Some(action) => before.push(action),
            None => before,
        }
    }
}

/// Whether the engine's loop goes on.
#[derive(Debug, Clone, Copy, PartialEq, Eq, Structural)]
pub enum EngineState {
    Running,
    Stopped,
}

/// What one turn of the loop asks of the program around the engine.
#[derive(Debug, PartialEq, Eq)]
pub struct Step {
    /// The state after this turn.
    pub state: EngineState,
    /// The effects to perform, in this order.
    pub actions: Vec<Action>,
    /// Whether the signals that were read are consumed and must be cleared
    /// from the channel.
    pub acknowledge: bool,
    /// Milliseconds to wait before the next turn.
    pub wait_ms: u64,
}

/// The mathematical value of a [`Step`].
pub struct StepView {
    pub state: EngineState,
    pub actions: Seq<ActionView>,
    pub acknowledge: bool,
    pub wait_ms: u64,
}

impl View for Step {
    type V = StepView;

    open spec fn view(&self) -> StepView {
        StepView {
            state: self.state,
            actions: action_views(self.actions@),
            acknowledge: self.acknowledge,
            wait_ms: self.wait_ms,
        }
    }
}

/// One turn of the loop. A stopped engine stays stopped. A running engine
/// that sees the cancellation flag set stops at once: it handles nothing,
/// clears nothing and asks for no wait. Otherwise it handles every pending
/// signal, has the channel cleared if it held anything, and waits one polling
/// interval.
pub open spec fn step_outcome(
    config: ConfigView,
    state: EngineState,
    cancelled: bool,
    content: Seq<char>,
) -> StepView {
    if state == EngineState::Stopped || cancelled {
        StepView {
            state: EngineState::Stopped,
            actions: Seq::empty(),
            acknowledge: false,
            wait_ms: 0,
        }
    } else {
        StepView {
            state: EngineState::Running,
            actions: actions_for(config, events_in(content)),
            acknowledge: content.len() > 0,
            wait_ms: POLL_INTERVAL_MS,
        }
    }
}

/// What one look at the world shows: the cancellation flag and the content
/// of the signal channel.
#[derive(Debug, PartialEq, Eq)]
pub struct Tick {
    pub cancelled: bool,
    pub content: String,
}

/// The mathematical value of a [`Tick`].
pub struct TickView {
    pub cancelled: bool,
    pub content: Seq<char>,
}

impl View for Tick {
    type V = TickView;

    open spec fn view(&self) -> TickView {
        TickView { cancelled: self.cancelled, content: self.content@ }
    }
}

/// The values of a list of ticks, in the list's order.
pub open spec fn tick_views(ticks: Seq<Tick>) -> Seq<TickView> {
    Seq::new(ticks.len(), |i: int| ticks[i]@)
}

/// The effects of a whole run, in order: those of every tick before the
/// first one that shows the cancellation flag set.
pub open spec fn run_actions(config: ConfigView, ticks: Seq<TickView>) -> Seq<ActionView>
    decreases ticks.len(),
{
    if ticks.len() == 0 || ticks[0].cancelled {
        Seq::empty()
    } else {
        actions_for(config, events_in(ticks[0].content)) + run_actions(
            config,
            ticks.drop_first(),
        )
    }
}

/// The state at the end of a run: stopped exactly when some tick showed the
/// cancellation flag set.
pub open spec fn run_state(ticks: Seq<TickView>) -> EngineState {
    if exists|i: int| 0 <= i < ticks.len() && (#[trigger] ticks[i]).cancelled {
        EngineState::Stopped
    } else {
        EngineState::Running
    }
}

/// Events are handled one by one: the effects for two sequences of events,
/// one after the other, are the effects for the first followed by the effects
/// for the second. No event changes what another one leads to.
pub proof fn events_handled_independently(
    config: ConfigView,
    first: Seq<RawEvent>,
    second: Seq<RawEvent>,
)
    ensures
        actions_for(config, first + second) == actions_for(config, first) + actions_for(
            config,
            second,
        ),
    decreases second.len(),
{
    if second.len() > 0 {
        assert((first + second).drop_last() =~= first + second.drop_last());
        events_handled_independently(config, first, second.drop_last());
    }
}

/// The effects for a single event: the one that is due for it, or none.
pub proof fn single_event_actions(config: ConfigView, event: RawEvent)
    ensures
        actions_for(config, seq![event]) == match action_for(config, event) {
            Some(action) => seq![action],
            None => Seq::empty(),
        },
{
    assert(actions_for(config, seq![event].drop_last()) =~= Seq::<ActionView>::empty());
}

/// Every activation event opens the activation target exactly once, at its
/// place among the other effects, whatever was handled before it and
/// whatever follows. How an earlier effect ended is no input of the engine,
/// so a failed open cannot suppress or repeat a later one.
pub proof fn activation_opens_once(
    config: ConfigView,
    before: Seq<RawEvent>,
    after: Seq<RawEvent>,
)
    ensures
        actions_for(config, before + seq![RawEvent::Activation] + after) == actions_for(
            config,
            before,
        ) + seq![ActionView::Open(config.activation_target)] + actions_for(config, after),
{
    let one = seq![RawEvent::Activation];
    events_handled_independently(config, before + one, after);
    events_handled_independently(config, before, one);
    single_event_actions(config, RawEvent::Activation);
}

/// Whether an action opens a resource.
pub open spec fn is_open(action: ActionView) -> bool {
    action is Open
}

/// Whether an event reports the activation key.
pub open spec fn is_activation(event: RawEvent) -> bool {
    event is Activation
}

/// Over any sequence of events there are exactly as many opens as there are
/// activation events, and every one of them opens the activation target.
pub proof fn one_open_per_activation(config: ConfigView, events: Seq<RawEvent>)
    ensures
        actions_for(config, events).filter(|a: ActionView| is_open(a)).len() == events.filter(
            |e: RawEvent| is_activation(e),
        ).len(),
        forall|i: int|
            0 <= i < actions_for(config, events).len() && is_open(
                #[trigger] actions_for(config, events)[i],
            ) ==> actions_for(config, events)[i] == ActionView::Open(config.activation_target),
    decreases events.len(),
{
    let opens = |a: ActionView| is_open(a);
    reveal(Seq::filter);
    if events.len() > 0 {
        let earlier = events.drop_last();
        one_open_per_activation(config, earlier);
        let before = actions_for(config, earlier);
        match action_for(config, events.last()) {
            Some(action) => {
                before.lemma_filter_push(action, opens);
            },
            None => {},
        }
    }
}

/// Activation events are not deduplicated: two in a row open the activation
/// target twice, with the same URI both times.
pub proof fn repeated_activation_opens_again(
    config: ConfigView,
    before: Seq<RawEvent>,
    after: Seq<RawEvent>,
)
    ensures
        actions_for(config, before + seq![RawEvent::Activation, RawEvent::Activation] + after)
            == actions_for(config, before) + seq![
            ActionView::Open(config.activation_target),
            ActionView::Open(config.activation_target),
        ] + actions_for(config, after),
{
    let one = seq![RawEvent::Activation];
    assert(before + seq![RawEvent::Activation, RawEvent::Activation] + after =~= (before + one
        + Seq::<RawEvent>::empty()) + one + after);
    activation_opens_once(config, before + one + Seq::<RawEvent>::empty(), after);
    activation_opens_once(config, before, Seq::<RawEvent>::empty());
}

/// Where several shortcuts share a trigger, the trigger injects the text of
/// the first of them in declaration order, never that of a later one.
pub proof fn duplicate_trigger_injects_first(config: ConfigView, c: char, first: int)
    requires
        0 <= first < config.shortcuts.len(),
        config.shortcuts[first].trigger == c,
        forall|k: int| 0 <= k < first ==> config.shortcuts[k].trigger != c,
    ensures
        action_for(config, RawEvent::TriggerCandidate(c)) == Some(
            ActionView::InjectText(config.shortcuts[first].text),
        ),
        actions_for(config, seq![RawEvent::TriggerCandidate(c)]) == seq![
            ActionView::InjectText(config.shortcuts[first].text),
        ],
{
    first_match_wins(config.shortcuts, c, first);
    single_event_actions(config, RawEvent::TriggerCandidate(c));
}

/// A trigger character that no shortcut has asks for no effect at all: the
/// effects around it are those of the events around it.
pub proof fn absent_trigger_asks_nothing(
    config: ConfigView,
    c: char,
    before: Seq<RawEvent>,
    after: Seq<RawEvent>,
)
    requires
        forall|k: int| 0 <= k < config.shortcuts.len() ==> config.shortcuts[k].trigger != c,
    ensures
        action_for(config, RawEvent::TriggerCandidate(c)) is None,
        actions_for(config, before + seq![RawEvent::TriggerCandidate(c)] + after) == actions_for(
            config,
            before,
        ) + actions_for(config, after),
{
    let one = seq![RawEvent::TriggerCandidate(c)];
    absent_trigger_expands_to_nothing(config.shortcuts, c);
    events_handled_independently(config, before + one, after);
    events_handled_independently(config, before, one);
    single_event_actions(config, RawEvent::TriggerCandidate(c));
}

/// Cancellation is observed at the first look: a turn that sees the flag set
/// stops the engine without handling anything and without waiting. A turn
/// that goes on never asks for more than one polling interval, so the flag
/// is looked at again after that interval at the latest. A stopped engine
/// never runs again.
pub proof fn cancellation_observed_within_one_interval(
    config: ConfigView,
    state: EngineState,
    cancelled: bool,
    content: Seq<char>,
)
    ensures
        cancelled ==> step_outcome(config, state, cancelled, content) == (StepView {
            state: EngineState::Stopped,
            actions: Seq::empty(),
            acknowledge: false,
            wait_ms: 0,
        }),
        state == EngineState::Stopped ==> step_outcome(config, state, cancelled, content).state
            == EngineState::Stopped,
        step_outcome(config, state, cancelled, content).wait_ms <= POLL_INTERVAL_MS,
        step_outcome(config, state, cancelled, content).state == EngineState::Running
            <==> state == EngineState::Running && !cancelled,
{
}

/// A run ends at the first tick that shows the cancellation flag set: its
/// effects are those of the ticks before it, and nothing that the channel
/// holds at that tick or later is handled.
pub proof fn cancellation_ends_run(
    config: ConfigView,
    before: Seq<TickView>,
    tick: TickView,
    after: Seq<TickView>,
)
    requires
        tick.cancelled,
    ensures
        run_actions(config, before + seq![tick] + after) == run_actions(config, before),
        run_state(before + seq![tick] + after) == EngineState::Stopped,
    decreases before.len(),
{
    let all = before + seq![tick] + after;
    if before.len() > 0 && !before[0].cancelled {
        assert(all.drop_first() =~= before.drop_first() + seq![tick] + after);
        cancellation_ends_run(config, before.drop_first(), tick, after);
    }
}

/// The dispatch engine. It owns the configuration of the run and never
/// changes it.
#[derive(Debug, PartialEq, Eq)]
pub struct DispatchEngine {
    config: Config,
}

impl View for DispatchEngine {
    type V = ConfigView;

    closed spec fn view(&self) -> ConfigView {
        self.config@
    }
}

impl DispatchEngine {
    /// An engine that dispatches by `config`.
    pub fn new(config: Config) -> (engine: DispatchEngine)
        ensures
            engine@ == config@,
    {
        DispatchEngine { config }
    }

    /// The configuration of this run.
    pub fn config(&self) -> (config: &Config)
        ensures
            config@ == self@,
    {
        &self.config
    }

    /// The effect for the activation key: open the activation target, which
    /// is never empty.
    pub fn handle_activation(&self) -> (action: Action)
        ensures
            action@ == ActionView::Open(self@.activation_target),
            Some(action@) == action_for(self@, RawEvent::Activation),
            self@.valid(),
    {
        Action::Open(self.config.activation_target().clone())
    }

    /// The effect for the trigger character `c`: inject the text of the first
    /// shortcut whose trigger is `c`, or nothing if no shortcut has it.
    pub fn handle_trigger(&self, c: char) -> (action: Option<Action>)
        ensures
            match action {
                Some(a) => self@.expansion(c) is Some && a@ == ActionView::InjectText(
                    self@.expansion(c)->Some_0,
                ),
                None => self@.expansion(c) is None,
            },
            match action {
                Some(a) => Some(a@),
                None => None,
            } == action_for(self@, RawEvent::TriggerCandidate(c)),
    {
        match self.config.expansion(c) {
            Some(text) => Some(Action::InjectText(text.clone())),
            None => None,
        }
    }

    /// The effect for one event, if it calls for one.
    pub fn dispatch(&self, event: RawEvent) -> (action: Option<Action>)
        ensures
            match action {
                Some(a) => Some(a@),
                None => None,
            } == action_for(self@, event),
    {
        match event {
            RawEvent::Activation => Some(self.handle_activation()),
            RawEvent::TriggerCandidate(c) => self.handle_trigger(c),
        }
    }

    /// The effects for a sequence of events, in the order of the events. Each
    /// event is handled once and by itself.
    pub fn dispatch_all(&self, events: &Vec<RawEvent>) -> (actions: Vec<Action>)
        ensures
            action_views(actions@) == actions_for(self@, events@),
    {
        let mut actions: Vec<Action> = Vec::new();
        let mut i: usize = 0;
        while i < events.len()
            invariant
                i <= events.len(),
                action_views(actions@) == actions_for(self@, events@.take(i as int)),
            decreases events.len() - i,
        {
            assert(events@.take(i + 1).drop_last() =~= events@.take(i as int));
            match self.dispatch(events[i]) {
                Some(action) => {
                    actions.push(action);
                },
                None => {},
            }
            i += 1;
        }
        assert(events@.take(events@.len() as int) =~= events@);
        actions
    }

    /// One turn of the loop, from the state before it, the cancellation flag
    /// as observed now, and the content of the signal channel as read now.
    pub fn step(&self, state: EngineState, cancelled: bool, content: &str) -> (step: Step)
        ensures
            step@ == step_outcome(self@, state, cancelled, content@),
    {
        let stopped = match state {
            EngineState::Stopped => true,
            EngineState::Running => false,
        };
        if stopped || cancelled {
            let step = Step {
                state: EngineState::Stopped,
                actions: Vec::new(),
                acknowledge: false,
                wait_ms: 0,
            };
            assert(step@.actions =~= Seq::<ActionView>::empty());
            step
        } else {
            let events = pending_events(content);
            let actions = self.dispatch_all(&events);
            Step {
                state: EngineState::Running,
                actions,
                acknowledge: !content.is_empty(),
                wait_ms: POLL_INTERVAL_MS,
            }
        }
    }

    /// A whole run over recorded ticks: the final state, and every effect
    /// that was due, in order. The run ends at the first tick that shows the
    /// cancellation flag set; no signal of that tick or of a later one is
    /// handled.
    pub fn run(&self, ticks: &Vec<Tick>) -> (outcome: (EngineState, Vec<Action>))
        ensures
            outcome.0 == run_state(tick_views(ticks@)),
            action_views(outcome.1@) == run_actions(self@, tick_views(ticks@)),
    {
        let ghost all = tick_views(ticks@);
        let mut state = EngineState::Running;
        let mut actions: Vec<Action> = Vec::new();
        let mut i: usize = 0;
        assert(all.skip(0) =~= all);
        while i < ticks.len()
            invariant
                i <= ticks.len(),
                all == tick_views(ticks@),
                state == EngineState::Running,
                forall|k: int| 0 <= k < i ==> !all[k].cancelled,
                run_actions(self@, all) == action_views(actions@) + run_actions(
                    self@,
                    all.skip(i as int),
                ),
            decreases ticks.len() - i,
        {
            let mut step = self.step(state, ticks[i].cancelled, ticks[i].content.as_str());
            if ticks[i].cancelled {
                return (EngineState::Stopped, actions);
            }
            actions.append(&mut step.actions);
            assert(all.skip(i as int).drop_first() =~= all.skip(i + 1));
            i += 1;
        }
        (state, actions)
    }
}

} // verus!

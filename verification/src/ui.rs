//! Coordination between the input-monitor thread and the UI event loop.
//!
//! The monitor observes OS input events on its own thread and hands each one,
//! in order of occurrence, to a handler; for qualifying events the handler
//! enqueues a command on the remote, a thread-safe, fire-and-forget handle.
//! The event loop alone owns the tray-icon state: it consumes remote commands
//! in delivery order and host UI events, and changes the icon only when a
//! delivered command asks for it.

use vstd::prelude::*;

verus! {

/// The states of the persistent status indicator.
#[derive(Debug, Clone, Copy, PartialEq, Eq, Structural)]
pub enum TrayIcon {
    Normal,
    Disabled,
}

/// Keys the monitor distinguishes.
#[derive(Debug, Clone, Copy, PartialEq, Eq, Structural)]
pub enum Key {
    Shift,
    Control,
    Alt,
    Meta,
    Enter,
    Backspace,
    Other,
}

/// Modifier keys held while another key is pressed.
#[derive(Debug, Clone, Copy, PartialEq, Eq, Structural)]
pub enum Modifier {
    Shift,
    Control,
    Alt,
    Meta,
}

/// Mouse buttons the monitor distinguishes.
#[derive(Debug, Clone, Copy, PartialEq, Eq, Structural)]
pub enum MouseButton {
    Left,
    Right,
    Middle,
}

/// One observed keyboard event.
#[derive(Debug, Clone, PartialEq)]
pub struct KeyboardEvent {
    pub key: Key,
    pub modifiers: Vec<Modifier>,
}

/// One observed mouse event.
#[derive(Debug, Clone, Copy, PartialEq, Eq, Structural)]
pub struct MouseEvent {
    pub button: MouseButton,
}

/// One event observed by the input monitor, created once per OS signal and
/// consumed by exactly one handler invocation.
#[derive(Debug, Clone, PartialEq)]
pub enum InputEvent {
    Keyboard(KeyboardEvent),
    Mouse(MouseEvent),
}

/// A command sent through the remote to the event loop.
#[derive(Debug, Clone, Copy, PartialEq, Eq, Structural)]
pub enum RemoteCommand {
    UpdateTrayIcon(TrayIcon),
    Exit,
}

/// A host UI event the event loop hands to its own handler.
#[derive(Debug, Clone, Copy, PartialEq, Eq, Structural)]
pub enum UiEvent {
    TrayIconClick,
    ContextMenuClick,
}

/// What the event loop wakes up on: a delivered remote command or a host
/// UI event.
#[derive(Debug, Clone, Copy, PartialEq, Eq, Structural)]
pub enum LoopInput {
    Command(RemoteCommand),
    Host(UiEvent),
}

/// The run state of the event loop.
#[derive(Debug, Clone, Copy, PartialEq, Eq, Structural)]
pub enum LoopStatus {
    Uninitialized,
    Running,
    Stopped,
}

/// The command, if any, the input handler issues for one observed event:
/// pressing shift disables the indicator, everything else passes silently.
pub open spec fn spec_tray_command_for(ev: InputEvent) -> Option<RemoteCommand> {
    match ev {
        InputEvent::Keyboard(k) => if k.key == Key::Shift {
            Some(RemoteCommand::UpdateTrayIcon(TrayIcon::Disabled))
        } else {
            None
        },
        InputEvent::Mouse(_) => None,
    }
}

/// The commands a run of observed events provokes, in order of observation.
pub open spec fn commands_of(evs: Seq<InputEvent>) -> Seq<RemoteCommand>
    decreases evs.len(),
{
    if evs.len() == 0 {
        Seq::empty()
    } else {
        commands_of(evs.drop_last()) + match spec_tray_command_for(evs.last()) {
            Some(c) => seq![c],
            None => Seq::empty(),
        }
    }
}

/// The input handler's decision for one event.
pub fn tray_command_for(event: &InputEvent) -> (r: Option<RemoteCommand>)
    ensures
        r == spec_tray_command_for(*event),
{
    match event {
        InputEvent::Keyboard(k) => if k.key == Key::Shift {
            Some(RemoteCommand::UpdateTrayIcon(TrayIcon::Disabled))
        } else {
            None
        },
        InputEvent::Mouse(_) => None,
    }
}

/// The thread-safe handle producer threads use to reach the event loop.
/// Sending never waits on the UI thread: a command is appended to the
/// pending queue and the call returns at once. Delivery keeps the order in
/// which one producer issued its commands.
#[derive(Debug, Clone, PartialEq)]
pub struct Remote {
    pub pending: Vec<RemoteCommand>,
}

impl Remote {
    /// Requests a tray-icon change; fire-and-forget, order-preserving.
    pub fn update_tray_icon(&mut self, icon: TrayIcon)
        ensures
            final(self).pending@ == old(self).pending@.push(RemoteCommand::UpdateTrayIcon(icon)),
    {
        self.pending.push(RemoteCommand::UpdateTrayIcon(icon));
    }

    /// Requests that the event loop stop; fire-and-forget, order-preserving.
    pub fn request_exit(&mut self)
        ensures
            final(self).pending@ == old(self).pending@.push(RemoteCommand::Exit),
    {
        self.pending.push(RemoteCommand::Exit);
    }
}

/// Runs the handler over a batch of observed events in observation order,
/// enqueuing the command each qualifying event provokes. The queue afterwards
/// holds exactly the provoked commands, after what it already held, in the
/// order the events were observed.
pub fn dispatch_events(events: &Vec<InputEvent>, remote: &mut Remote)
    ensures
        final(remote).pending@ == old(remote).pending@ + commands_of(events@),
{
    let mut i: usize = 0;
    proof {
        assert(old(remote).pending@ + commands_of(events@.take(0)) =~= old(remote).pending@);
    }
    while i < events.len()
        invariant
            i <= events@.len(),
            remote.pending@ == old(remote).pending@ + commands_of(events@.take(i as int)),
        decreases events@.len() - i,
    {
        let ghost taken = events@.take(i + 1);
        match tray_command_for(&events[i]) {
            Some(RemoteCommand::UpdateTrayIcon(icon)) => {
                remote.update_tray_icon(icon);
            },
            Some(RemoteCommand::Exit) => {
                remote.request_exit();
            },
            None => {},
        }
        proof {
            assert(taken.last() == events@[i as int]);
            assert(taken.drop_last() =~= events@.take(i as int));
            assert(remote.pending@ =~= old(remote).pending@ + commands_of(taken));
        }
        i += 1;
    }
    proof {
        assert(events@.take(events@.len() as int) =~= events@);
    }
}

/// Options the host hands over when the UI is created.
#[derive(Debug, Clone, PartialEq)]
pub struct UiOptions {
    pub show_icon: bool,
    pub icon_paths: Vec<(TrayIcon, String)>,
}

/// The event loop's state: its run status and the UI state it alone owns.
#[derive(Debug, Clone, PartialEq)]
pub struct EventLoop {
    pub status: LoopStatus,
    pub icon: TrayIcon,
    pub show_icon: bool,
    pub icon_paths: Vec<(TrayIcon, String)>,
}

/// Creates the remote/event-loop pair: an empty command queue and a loop
/// that still awaits `initialize`, showing the normal icon.
pub fn create(options: UiOptions) -> (r: (Remote, EventLoop))
    ensures
        r.0.pending@.len() == 0,
        r.1.status == LoopStatus::Uninitialized,
        r.1.icon == TrayIcon::Normal,
        r.1.show_icon == options.show_icon,
        r.1.icon_paths@ == options.icon_paths@,
{
    let remote = Remote { pending: Vec::new() };
    let eventloop = EventLoop {
        status: LoopStatus::Uninitialized,
        icon: TrayIcon::Normal,
        show_icon: options.show_icon,
        icon_paths: options.icon_paths,
    };
    (remote, eventloop)
}

/// One turn of the loop: a running loop applies a delivered icon command,
/// stops on an exit command, and leaves its state alone for a host event;
/// a loop that is not running consumes nothing.
pub open spec fn spec_step(s: EventLoop, input: LoopInput) -> EventLoop {
    if s.status != LoopStatus::Running {
        s
    } else {
        match input {
            LoopInput::Command(RemoteCommand::UpdateTrayIcon(t)) => EventLoop { icon: t, ..s },
            LoopInput::Command(RemoteCommand::Exit) => EventLoop {
                status: LoopStatus::Stopped,
                ..s
            },
            LoopInput::Host(_) => s,
        }
    }
}

/// The loop's state after consuming `inputs` in delivery order.
pub open spec fn run_events(s: EventLoop, inputs: Seq<LoopInput>) -> EventLoop
    decreases inputs.len(),
{
    if inputs.len() == 0 {
        s
    } else {
        run_events(spec_step(s, inputs.first()), inputs.drop_first())
    }
}

/// The host events a loop consuming `inputs` hands to its handler: each host
/// event that arrives while the loop runs, in delivery order.
pub open spec fn handled_events(s: EventLoop, inputs: Seq<LoopInput>) -> Seq<UiEvent>
    decreases inputs.len(),
{
    if inputs.len() == 0 {
        Seq::empty()
    } else {
        (if s.status == LoopStatus::Running {
            match inputs.first() {
                LoopInput::Host(e) => seq![e],
                LoopInput::Command(_) => Seq::empty(),
            }
        } else {
            Seq::empty()
        }) + handled_events(spec_step(s, inputs.first()), inputs.drop_first())
    }
}

/// The first configured icon path for `icon`, if one was supplied.
pub open spec fn spec_icon_path(paths: Seq<(TrayIcon, String)>, icon: TrayIcon) -> Option<String>
    decreases paths.len(),
{
    if paths.len() == 0 {
        Option::None
    } else if paths.first().0 == icon {
        Option::Some(paths.first().1)
    } else {
        spec_icon_path(paths.drop_first(), icon)
    }
}

impl EventLoop {
    /// Readies the loop; must be the first call, on the thread the host
    /// windowing system requires.
    pub fn initialize(&mut self)
        requires
            old(self).status == LoopStatus::Uninitialized,
        ensures
            final(self).status == LoopStatus::Running,
            final(self).icon == old(self).icon,
            final(self).show_icon == old(self).show_icon,
            final(self).icon_paths@ == old(self).icon_paths@,
    {
        self.status = LoopStatus::Running;
    }

    /// Consumes one wake-up.
    pub fn step(&mut self, input: &LoopInput)
        ensures
            *final(self) == spec_step(*old(self), *input),
    {
        if matches!(self.status, LoopStatus::Running) {
            match input {
                LoopInput::Command(RemoteCommand::UpdateTrayIcon(t)) => {
                    self.icon = *t;
                },
                LoopInput::Command(RemoteCommand::Exit) => {
                    self.status = LoopStatus::Stopped;
                },
                LoopInput::Host(_) => {},
            }
        }
    }

    /// Consumes a batch of wake-ups in delivery order, handing each host
    /// event that arrives while the loop runs to the handler; the events the
    /// handler saw are returned in the order it saw them.
    pub fn run(&mut self, inputs: &Vec<LoopInput>) -> (handled: Vec<UiEvent>)
        requires
            old(self).status == LoopStatus::Running,
        ensures
            *final(self) == run_events(*old(self), inputs@),
            handled@ == handled_events(*old(self), inputs@),
    {
        let mut handled: Vec<UiEvent> = Vec::new();
        let mut i: usize = 0;
        proof {
            assert(inputs@.skip(0) =~= inputs@);
        }
        while i < inputs.len()
            invariant
                i <= inputs@.len(),
                run_events(*old(self), inputs@) == run_events(*self, inputs@.skip(i as int)),
                handled_events(*old(self), inputs@) == handled@ + handled_events(
                    *self,
                    inputs@.skip(i as int),
                ),
            decreases inputs@.len() - i,
        {
            let ghost pre = *self;
            let ghost prev = handled@;
            let ghost rest = inputs@.skip(i as int);
            if matches!(self.status, LoopStatus::Running) {
                if let LoopInput::Host(e) = &inputs[i] {
                    handled.push(*e);
                }
            }
            self.step(&inputs[i]);
            proof {
                assert(rest.first() == inputs@[i as int]);
                assert(rest.drop_first() =~= inputs@.skip(i + 1));
                assert(prev + handled_events(pre, rest) =~= handled@ + handled_events(
                    *self,
                    inputs@.skip(i + 1),
                ));
            }
            i += 1;
        }
        proof {
            assert(inputs@.skip(inputs@.len() as int) =~= Seq::<LoopInput>::empty());
            assert(handled@ + Seq::<UiEvent>::empty() =~= handled@);
        }
        handled
    }

    /// The configured path for the icon the loop currently shows, if any.
    pub fn current_icon_path(&self) -> (r: Option<&String>)
        ensures
            r matches Some(p) ==> spec_icon_path(self.icon_paths@, self.icon) == Some(*p),
            r is None ==> spec_icon_path(self.icon_paths@, self.icon) is None,
    {
        let n = self.icon_paths.len();
        let mut i: usize = 0;
        proof {
            assert(self.icon_paths@.skip(0) =~= self.icon_paths@);
        }
        while i < n
            invariant
                i <= n,
                n == self.icon_paths@.len(),
                spec_icon_path(self.icon_paths@, self.icon) == spec_icon_path(
                    self.icon_paths@.skip(i as int),
                    self.icon,
                ),
            decreases n - i,
        {
            let ghost rest = self.icon_paths@.skip(i as int);
            proof {
                assert(rest.first() == self.icon_paths@[i as int]);
                assert(rest.drop_first() =~= self.icon_paths@.skip(i + 1));
            }
            if self.icon_paths[i].0 == self.icon {
                return Some(&self.icon_paths[i].1);
            }
            i += 1;
        }
        None
    }
}

/// Consuming one more delivered input is the same as consuming it after the
/// rest: the loop folds over its inputs strictly in delivery order.
pub proof fn lemma_run_events_snoc(s: EventLoop, inputs: Seq<LoopInput>, x: LoopInput)
    ensures
        run_events(s, inputs.push(x)) == spec_step(run_events(s, inputs), x),
    decreases inputs.len(),
{
    if inputs.len() == 0 {
        assert(inputs.push(x)[0] == x);
        assert(inputs.push(x).drop_first() =~= Seq::<LoopInput>::empty());
        assert(run_events(spec_step(s, x), Seq::<LoopInput>::empty()) == spec_step(s, x));
    } else {
        assert(inputs.push(x)[0] == inputs[0]);
        assert(inputs.push(x).first() == inputs.first());
        assert(inputs.push(x).drop_first() =~= inputs.drop_first().push(x));
        lemma_run_events_snoc(spec_step(s, inputs.first()), inputs.drop_first(), x);
    }
}

/// The icon-update commands for a run of requested icons, in issue order.
pub open spec fn icon_updates(icons: Seq<TrayIcon>) -> Seq<LoopInput> {
    icons.map_values(|t: TrayIcon| LoopInput::Command(RemoteCommand::UpdateTrayIcon(t)))
}

/// Icon commands issued in some order by one producer are applied by a
/// running loop in exactly that order: after it has consumed the first
/// `k + 1` of them, the loop is still running and shows the `k`-th icon.
pub proof fn lemma_commands_applied_in_order(s: EventLoop, icons: Seq<TrayIcon>, k: int)
    requires
        s.status == LoopStatus::Running,
        0 <= k < icons.len(),
    ensures
        run_events(s, icon_updates(icons).take(k + 1)).status == LoopStatus::Running,
        run_events(s, icon_updates(icons).take(k + 1)).icon == icons[k],
    decreases k,
{
    let inputs = icon_updates(icons);
    assert(inputs[k] == LoopInput::Command(RemoteCommand::UpdateTrayIcon(icons[k])));
    if k == 0 {
        assert(inputs.take(1).drop_first() =~= Seq::<LoopInput>::empty());
        assert(inputs.take(1).first() == inputs[0]);
        assert(run_events(spec_step(s, inputs[0]), Seq::<LoopInput>::empty()) == spec_step(
            s,
            inputs[0],
        ));
    } else {
        lemma_commands_applied_in_order(s, icons, k - 1);
        assert(inputs.take(k + 1) =~= inputs.take(k).push(inputs[k]));
        lemma_run_events_snoc(s, inputs.take(k), inputs[k]);
    }
}

/// The loop never changes the icon except in direct response to a delivered
/// icon command; a delivered icon command received while running sets
/// exactly the icon it carries.
pub proof fn lemma_icon_changes_only_by_command(s: EventLoop, input: LoopInput)
    ensures
        !(input matches LoopInput::Command(RemoteCommand::UpdateTrayIcon(_))) ==> spec_step(
            s,
            input,
        ).icon == s.icon,
        input matches LoopInput::Command(RemoteCommand::UpdateTrayIcon(t)) ==> (s.status
            == LoopStatus::Running ==> spec_step(s, input).icon == t),
{
}

/// Whether a wake-up is a delivered icon command.
pub open spec fn is_icon_command(input: LoopInput) -> bool {
    input matches LoopInput::Command(RemoteCommand::UpdateTrayIcon(_))
}

/// Over a whole run: if no delivered input is an icon command, the icon
/// afterwards is the icon before.
pub proof fn lemma_icon_constant_without_commands(s: EventLoop, inputs: Seq<LoopInput>)
    requires
        forall|i: int| 0 <= i < inputs.len() ==> !is_icon_command(#[trigger] inputs[i]),
    ensures
        run_events(s, inputs).icon == s.icon,
    decreases inputs.len(),
{
    if inputs.len() > 0 {
        assert(inputs[0] == inputs.first());
        assert forall|j: int|
            0 <= j < inputs.drop_first().len() implies !is_icon_command(
            #[trigger] inputs.drop_first()[j],
        ) by {
            assert(inputs.drop_first()[j] == inputs[j + 1]);
        }
        lemma_icon_constant_without_commands(spec_step(s, inputs.first()), inputs.drop_first());
    }
}

/// Events observed earlier provoke their commands earlier: the commands of a
/// concatenation are the first batch's commands followed by the second's.
/// With `dispatch_events` handling each batch as it is observed, the handler
/// sees events, and the remote sees commands, in observation order.
pub proof fn lemma_commands_of_append(a: Seq<InputEvent>, b: Seq<InputEvent>)
    ensures
        commands_of(a + b) == commands_of(a) + commands_of(b),
    decreases b.len(),
{
    if b.len() == 0 {
        assert(a + b =~= a);
        assert(commands_of(a) + commands_of(b) =~= commands_of(a));
    } else {
        assert((a + b).drop_last() =~= a + b.drop_last());
        assert((a + b).last() == b.last());
        lemma_commands_of_append(a, b.drop_last());
        assert(commands_of(a + b) =~= commands_of(a) + commands_of(b));
    }
}

} // verus!

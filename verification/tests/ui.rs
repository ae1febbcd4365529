use espanso_core::ui::EventLoop;
use espanso_core::ui::InputEvent;
use espanso_core::ui::Key;
use espanso_core::ui::KeyboardEvent;
use espanso_core::ui::LoopInput;
use espanso_core::ui::LoopStatus;
use espanso_core::ui::MouseButton;
use espanso_core::ui::MouseEvent;
use espanso_core::ui::Remote;
use espanso_core::ui::RemoteCommand;
use espanso_core::ui::TrayIcon;
use espanso_core::ui::UiEvent;
use espanso_core::ui::UiOptions;
use espanso_core::ui::create;
use espanso_core::ui::dispatch_events;
use espanso_core::ui::tray_command_for;

fn key_event(key: Key) -> InputEvent {
    InputEvent::Keyboard(KeyboardEvent {
        key,
        modifiers: vec![],
    })
}

fn running_pair() -> (Remote, EventLoop) {
    let (remote, mut eventloop) = create(UiOptions {
        show_icon: true,
        icon_paths: vec![
            (TrayIcon::Normal, String::from("espanso.ico")),
            (TrayIcon::Disabled, String::from("espansored.ico")),
        ],
    });
    eventloop.initialize();
    (remote, eventloop)
}

#[test]
fn test_create_starts_uninitialized_with_normal_icon() {
    let (remote, eventloop) = create(UiOptions {
        show_icon: false,
        icon_paths: vec![],
    });
    assert_eq!(remote.pending.len(), 0);
    assert_eq!(eventloop.status, LoopStatus::Uninitialized);
    assert_eq!(eventloop.icon, TrayIcon::Normal);
}

#[test]
fn test_shift_key_provokes_disable_command() {
    let shift = key_event(Key::Shift);
    assert_eq!(
        tray_command_for(&shift),
        Some(RemoteCommand::UpdateTrayIcon(TrayIcon::Disabled))
    );

    let other = key_event(Key::Enter);
    assert_eq!(tray_command_for(&other), None);

    let mouse = InputEvent::Mouse(MouseEvent {
        button: MouseButton::Left,
    });
    assert_eq!(tray_command_for(&mouse), None);
}

#[test]
fn test_commands_applied_in_issue_order() {
    let (_, mut eventloop) = running_pair();

    let issued = [TrayIcon::Disabled, TrayIcon::Normal, TrayIcon::Disabled];
    let mut observed = Vec::new();
    for icon in issued {
        eventloop.step(&LoopInput::Command(RemoteCommand::UpdateTrayIcon(icon)));
        observed.push(eventloop.icon);
    }

    assert_eq!(observed, issued.to_vec());
    assert_eq!(eventloop.status, LoopStatus::Running);
}

#[test]
fn test_host_events_never_change_the_icon() {
    let (_, mut eventloop) = running_pair();
    eventloop.step(&LoopInput::Command(RemoteCommand::UpdateTrayIcon(
        TrayIcon::Disabled,
    )));

    eventloop.step(&LoopInput::Host(UiEvent::TrayIconClick));
    eventloop.step(&LoopInput::Host(UiEvent::ContextMenuClick));

    assert_eq!(eventloop.icon, TrayIcon::Disabled);
    assert_eq!(eventloop.status, LoopStatus::Running);
}

#[test]
fn test_exit_command_stops_the_loop() {
    let (_, mut eventloop) = running_pair();

    eventloop.step(&LoopInput::Command(RemoteCommand::Exit));
    assert_eq!(eventloop.status, LoopStatus::Stopped);

    // a stopped loop consumes nothing further
    eventloop.step(&LoopInput::Command(RemoteCommand::UpdateTrayIcon(
        TrayIcon::Disabled,
    )));
    assert_eq!(eventloop.icon, TrayIcon::Normal);
    assert_eq!(eventloop.status, LoopStatus::Stopped);
}

#[test]
fn test_dispatch_keeps_observation_order() {
    let (mut remote, _) = running_pair();

    let events = vec![
        key_event(Key::Shift),
        key_event(Key::Enter),
        InputEvent::Mouse(MouseEvent {
            button: MouseButton::Middle,
        }),
        key_event(Key::Shift),
    ];
    dispatch_events(&events, &mut remote);

    assert_eq!(
        remote.pending,
        vec![
            RemoteCommand::UpdateTrayIcon(TrayIcon::Disabled),
            RemoteCommand::UpdateTrayIcon(TrayIcon::Disabled),
        ]
    );
}

#[test]
fn test_run_drains_a_batch_in_order() {
    let (mut remote, mut eventloop) = running_pair();
    remote.update_tray_icon(TrayIcon::Disabled);
    remote.update_tray_icon(TrayIcon::Normal);

    let mut inputs: Vec<LoopInput> = remote
        .pending
        .iter()
        .map(|c| LoopInput::Command(*c))
        .collect();
    inputs.push(LoopInput::Host(UiEvent::TrayIconClick));
    inputs.push(LoopInput::Command(RemoteCommand::Exit));
    inputs.push(LoopInput::Host(UiEvent::ContextMenuClick));

    let handled = eventloop.run(&inputs);

    assert_eq!(eventloop.icon, TrayIcon::Normal);
    assert_eq!(eventloop.status, LoopStatus::Stopped);
    // only the click that arrived before the stop reached the handler
    assert_eq!(handled, vec![UiEvent::TrayIconClick]);
}

#[test]
fn test_current_icon_path_follows_the_icon() {
    let (_, mut eventloop) = running_pair();
    assert_eq!(
        eventloop.current_icon_path(),
        Some(&String::from("espanso.ico"))
    );

    eventloop.step(&LoopInput::Command(RemoteCommand::UpdateTrayIcon(
        TrayIcon::Disabled,
    )));
    assert_eq!(
        eventloop.current_icon_path(),
        Some(&String::from("espansored.ico"))
    );
}

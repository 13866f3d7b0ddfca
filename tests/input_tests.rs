use fluxway_core::config::BindingConfig;
use fluxway_core::input::{
    Command, FocusTarget, InputError, InputManager, KeyBinding, KeyCode, Modifiers, MouseBinding, MouseButton,
    MoveTarget, ResizeDirection, ResizeOp, SplitCmd, Toggle, WorkspaceTarget,
};

#[test]
fn test_key_binding_parse() {
    let binding = KeyBinding::parse("Mod4+Return").unwrap();
    assert!(binding.modifiers.contains(Modifiers::SUPER));
    assert_eq!(binding.key, KeyCode::Return);

    let binding = KeyBinding::parse("Mod4+Shift+q").unwrap();
    assert!(binding.modifiers.contains(Modifiers::SUPER));
    assert!(binding.modifiers.contains(Modifiers::SHIFT));
    assert_eq!(binding.key, KeyCode::Q);
}

#[test]
fn test_command_parse() {
    let cmd = Command::parse("exec alacritty");
    assert!(matches!(cmd, Command::Exec(s) if s == "alacritty"));

    let cmd = Command::parse("focus left");
    assert!(matches!(cmd, Command::Focus(FocusTarget::Left)));

    let cmd = Command::parse("workspace 3");
    assert!(matches!(cmd, Command::Workspace(WorkspaceTarget::Number(3))));
}

#[test]
fn test_modifiers() {
    let mods = Modifiers::from_str_list("Mod4+Shift");
    assert!(mods.contains(Modifiers::SUPER));
    assert!(mods.contains(Modifiers::SHIFT));
    assert!(!mods.contains(Modifiers::CTRL));
}

#[test]
fn binding_errors() {
    assert!(matches!(KeyBinding::parse("Mod4+Shift"), Err(InputError::Binding(s)) if s == "Mod4+Shift"));
    assert!(matches!(KeyBinding::parse("Mod4+Nope"), Err(InputError::Key(s)) if s == "Nope"));
    assert!(matches!(KeyCode::from_name("xyz"), Err(InputError::Key(_))));
    assert_eq!(KeyCode::from_name("ESC").unwrap(), KeyCode::Escape);
    assert_eq!(KeyCode::from_name("\\").unwrap(), KeyCode::Backslash);
}

#[test]
fn mouse_binding_parse() {
    let b = MouseBinding::parse("Mod4 + button3").unwrap();
    assert!(b.modifiers.contains(Modifiers::SUPER));
    assert_eq!(b.button, MouseButton::Right);
    assert_eq!(MouseButton::from_name("LMB").unwrap(), MouseButton::Left);
    assert!(MouseButton::from_name("button10").is_err());
}

#[test]
fn command_families() {
    assert_eq!(Command::parse("  KILL  "), Command::Kill);
    assert_eq!(Command::parse("floating"), Command::Floating(Toggle::Switch));
    assert_eq!(Command::parse("fullscreen Enable"), Command::Fullscreen(Toggle::Enable));
    assert_eq!(Command::parse("floating sideways"), Command::Unknown("floating sideways".into()));
    assert_eq!(Command::parse("split v"), Command::Split(SplitCmd::Vertical));
    assert_eq!(Command::parse("workspace next"), Command::Workspace(WorkspaceTarget::Next));
    assert_eq!(Command::parse("workspace web"), Command::Workspace(WorkspaceTarget::Name("web".into())));
    assert_eq!(Command::parse("workspace back_and_forth"), Command::Workspace(WorkspaceTarget::BackAndForth));
    assert_eq!(Command::parse("mark  a "), Command::Mark("a".into()));
    assert_eq!(Command::parse("unmark"), Command::Unmark(None));
    assert_eq!(Command::parse("scratchpad show"), Command::ScratchpadShow);
    assert_eq!(Command::parse("frobnicate"), Command::Unknown("frobnicate".into()));
}

#[test]
fn move_and_resize_arguments() {
    assert_eq!(Command::parse("move left"), Command::Move(MoveTarget::Left));
    assert_eq!(Command::parse("move scratchpad"), Command::MoveToScratchpad);
    assert_eq!(
        Command::parse("move container to workspace 4"),
        Command::MoveToWorkspace(WorkspaceTarget::Number(4))
    );
    assert_eq!(
        Command::parse("move window to workspace my  web"),
        Command::MoveToWorkspace(WorkspaceTarget::Name("my web".into()))
    );
    assert_eq!(Command::parse("move position 10 -20"), Command::Move(MoveTarget::Position(10, -20)));
    assert_eq!(Command::parse("move position x 1"), Command::Unknown("move position x 1".into()));
    assert_eq!(Command::parse("move"), Command::Unknown("move".into()));
    assert_eq!(Command::parse_move(""), Command::Unknown("move ".into()));
    assert_eq!(Command::parse("MOVE  sideways"), Command::Unknown("MOVE  sideways".into()));
    assert_eq!(
        Command::parse("resize grow width 20 px"),
        Command::Resize(ResizeDirection::Width(ResizeOp::Grow), 20)
    );
    assert_eq!(Command::parse("resize shrink left 15px"), Command::Resize(ResizeDirection::Left, 15));
    assert_eq!(Command::parse("resize set height"), Command::Resize(ResizeDirection::Height(ResizeOp::SetTo), 10));
    assert_eq!(Command::parse("resize grow"), Command::Unknown("resize grow".into()));
}

#[test]
fn manager_binds_and_switches_modes() {
    let mut im = InputManager::new();
    let bindings = vec![
        BindingConfig { keys: "Mod4+Return".into(), command: "exec foot".into(), mode: "default".into() },
        BindingConfig { keys: "Escape".into(), command: "mode default".into(), mode: "resize".into() },
        BindingConfig { keys: "Mod4+".into(), command: "kill".into(), mode: "default".into() },
    ];
    im.load_bindings(&bindings);
    assert_eq!(im.current_mode(), "default");
    let mut mods = Modifiers::empty();
    mods.insert(Modifiers::SUPER);
    im.set_modifiers(mods);
    assert_eq!(im.key_pressed(KeyCode::Return), Some(&Command::Exec("foot".into())));
    assert_eq!(im.key_pressed_raw(28), Some(&Command::Exec("foot".into())));
    assert_eq!(im.key_pressed_raw(999), None);
    assert!(im.pressed_keys.contains(&KeyCode::Return));
    im.key_released(KeyCode::Return);
    assert!(!im.pressed_keys.contains(&KeyCode::Return));
    im.set_mode("resize");
    assert_eq!(im.current_mode(), "resize");
    im.set_mode("nope");
    assert_eq!(im.current_mode(), "resize");
    im.set_modifiers(Modifiers::empty());
    assert_eq!(im.key_pressed(KeyCode::Escape), Some(&Command::Mode("default".into())));
}

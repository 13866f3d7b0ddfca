//! Configuration value handed to the engine at construction and on reload.
//! The engine reads the gaps, focus-follows-mouse and the key bindings.
use vstd::prelude::*;

use crate::layout::LayoutMode;
use crate::window::{BorderStyle, WindowCriteria};

verus! {

#[derive(Debug, Clone, Copy, PartialEq, Eq, Structural)]
pub enum FocusFollowsMouse {
    Yes,
    No,
    Always,
}

#[derive(Debug, Clone, Copy, PartialEq, Eq, Structural)]
pub enum MouseWarping {
    Output,
    Container,
    Disabled,
}

#[derive(Debug, Clone, Copy, PartialEq, Eq, Structural)]
pub enum XWaylandMode {
    Enable,
    Disable,
    Force,
}

#[derive(Debug, Clone, Copy, PartialEq, Eq, Structural)]
pub enum Orientation {
    Horizontal,
    Vertical,
    Auto,
}

#[derive(Debug, Clone, Copy, PartialEq, Eq, Structural)]
pub enum PopupDuringFullscreen {
    Smart,
    Ignore,
    Leave,
}

#[derive(Debug, Clone, Copy, PartialEq, Eq, Structural)]
pub enum FocusWrapping {
    Yes,
    No,
    Force,
    Workspace,
}

#[derive(Debug, Clone, Copy, PartialEq, Eq, Structural)]
pub enum SmartBorders {
    Off,
    On,
    NoGaps,
}

#[derive(Debug, Clone, Copy, PartialEq, Eq, Structural)]
pub enum HideEdgeBorders {
    Neither,
    Vertical,
    Horizontal,
    Both,
    Smart,
    SmartNoGaps,
}

/// General settings.
#[derive(Debug, Clone)]
pub struct GeneralConfig {
    pub focus_follows_mouse: FocusFollowsMouse,
    pub mouse_warping: MouseWarping,
    pub workspace_back_and_forth: bool,
    pub workspace_auto_back_and_forth: bool,
    pub xwayland: XWaylandMode,
    pub default_layout: LayoutMode,
    pub default_orientation: Orientation,
    /// Modifier key for dragging floating windows.
    pub floating_modifier: String,
    pub socket_path: Option<String>,
    pub popup_during_fullscreen: PopupDuringFullscreen,
    pub focus_wrapping: FocusWrapping,
    pub smart_gaps: bool,
    pub smart_borders: SmartBorders,
    pub hide_edge_borders: HideEdgeBorders,
}

impl Default for GeneralConfig {
    fn default() -> (r: Self)
        ensures
            r.focus_follows_mouse == FocusFollowsMouse::Yes,
            r.mouse_warping == MouseWarping::Output,
            !r.workspace_back_and_forth && !r.workspace_auto_back_and_forth,
            r.xwayland == XWaylandMode::Enable,
            r.default_layout == LayoutMode::Split,
            r.default_orientation == Orientation::Auto,
            r.floating_modifier@ == "Mod4"@,
            r.socket_path is None,
            r.popup_during_fullscreen == PopupDuringFullscreen::Smart,
            r.focus_wrapping == FocusWrapping::Yes,
            !r.smart_gaps,
            r.smart_borders == SmartBorders::Off,
            r.hide_edge_borders == HideEdgeBorders::Neither,
    {
        GeneralConfig {
            focus_follows_mouse: FocusFollowsMouse::Yes,
            mouse_warping: MouseWarping::Output,
            workspace_back_and_forth: false,
            workspace_auto_back_and_forth: false,
            xwayland: XWaylandMode::Enable,
            default_layout: LayoutMode::Split,
            default_orientation: Orientation::Auto,
            floating_modifier: "Mod4".to_owned(),
            socket_path: None,
            popup_during_fullscreen: PopupDuringFullscreen::Smart,
            focus_wrapping: FocusWrapping::Yes,
            smart_gaps: false,
            smart_borders: SmartBorders::Off,
            hide_edge_borders: HideEdgeBorders::Neither,
        }
    }
}

/// Gap configuration.
#[derive(Debug, Clone, Copy, PartialEq, Eq, Structural)]
pub struct GapConfig {
    /// Between windows.
    pub inner: u32,
    /// Between windows and the screen edge.
    pub outer: u32,
    pub top: Option<u32>,
    pub bottom: Option<u32>,
    pub left: Option<u32>,
    pub right: Option<u32>,
}

impl Default for GapConfig {
    fn default() -> (r: Self)
        ensures
            r.inner == 4 && r.outer == 4,
            r.top is None && r.bottom is None && r.left is None && r.right is None,
    {
        GapConfig { inner: 4, outer: 4, top: None, bottom: None, left: None, right: None }
    }
}

/// Border configuration.
#[derive(Debug, Clone, Copy, PartialEq, Eq, Structural)]
pub struct BorderConfig {
    pub width: u32,
    pub style: BorderStyle,
    pub floating_style: BorderStyle,
}

impl Default for BorderConfig {
    fn default() -> (r: Self)
        ensures
            r.width == 2,
            r.style == BorderStyle::Pixel(2),
            r.floating_style == BorderStyle::Normal,
    {
        BorderConfig { width: 2, style: BorderStyle::Pixel(2), floating_style: BorderStyle::Normal }
    }
}

/// Colours of a window in one state.
#[derive(Debug, Clone)]
pub struct WindowColors {
    pub border: String,
    pub background: String,
    pub text: String,
    pub indicator: String,
    pub child_border: String,
}

/// The colours hold these five strings.
pub open spec fn window_colors_are(c: WindowColors, b: &str, bg: &str, t: &str, i: &str, cb: &str) -> bool {
    c.border@ == b@ && c.background@ == bg@ && c.text@ == t@ && c.indicator@ == i@ && c.child_border@ == cb@
}

fn window_colors(b: &str, bg: &str, t: &str, i: &str, cb: &str) -> (r: WindowColors)
    ensures
        window_colors_are(r, b, bg, t, i, cb),
{
    WindowColors {
        border: b.to_owned(),
        background: bg.to_owned(),
        text: t.to_owned(),
        indicator: i.to_owned(),
        child_border: cb.to_owned(),
    }
}

/// Colour configuration.
#[derive(Debug, Clone)]
pub struct ColorConfig {
    pub focused: WindowColors,
    pub focused_inactive: WindowColors,
    pub unfocused: WindowColors,
    pub urgent: WindowColors,
    pub background: String,
}

impl Default for ColorConfig {
    fn default() -> (r: Self)
        ensures
            window_colors_are(r.focused, "#4c7899", "#285577", "#ffffff", "#2e9ef4", "#285577"),
            window_colors_are(r.focused_inactive, "#333333", "#5f676a", "#ffffff", "#484e50", "#5f676a"),
            window_colors_are(r.unfocused, "#333333", "#222222", "#888888", "#292d2e", "#222222"),
            window_colors_are(r.urgent, "#2f343a", "#900000", "#ffffff", "#900000", "#900000"),
            r.background@ == "#000000"@,
    {
        ColorConfig {
            focused: window_colors("#4c7899", "#285577", "#ffffff", "#2e9ef4", "#285577"),
            focused_inactive: window_colors("#333333", "#5f676a", "#ffffff", "#484e50", "#5f676a"),
            unfocused: window_colors("#333333", "#222222", "#888888", "#292d2e", "#222222"),
            urgent: window_colors("#2f343a", "#900000", "#ffffff", "#900000", "#900000"),
            background: "#000000".to_owned(),
        }
    }
}

#[derive(Debug, Clone, Copy, PartialEq, Eq, Structural)]
pub enum AccelProfile {
    Adaptive,
    Flat,
}

#[derive(Debug, Clone, Copy, PartialEq, Eq, Structural)]
pub enum Transform {
    Normal,
    Rotate90,
    Rotate180,
    Rotate270,
    Flipped,
    Flipped90,
    Flipped180,
    Flipped270,
}

#[derive(Debug, Clone, Copy, PartialEq, Eq, Structural)]
pub enum BackgroundMode {
    Fill,
    Fit,
    Stretch,
    Center,
    Tile,
    Solid,
}

/// An output background.
#[derive(Debug, Clone)]
pub struct BackgroundConfig {
    pub source: String,
    pub mode: BackgroundMode,
}

/// A workspace as configured.
#[derive(Debug, Clone)]
pub struct WorkspaceConfigEntry {
    pub name: String,
    pub output: Option<String>,
    pub gaps: Option<u32>,
}

/// A key binding as written in the configuration.
#[derive(Debug, Clone)]
pub struct BindingConfig {
    pub keys: String,
    pub command: String,
    /// The binding mode it belongs to ("default" unless given).
    pub mode: String,
}

/// The mode of a binding that names none.
pub fn default_mode() -> (r: String)
    ensures
        r@ == "default"@,
{
    "default".to_owned()
}

/// A mouse binding as written in the configuration.
#[derive(Debug, Clone)]
pub struct MouseBindingConfig {
    pub button: String,
    pub command: String,
}

/// A window rule: commands run on windows matching the criteria.
#[derive(Debug, Clone)]
pub struct WindowRule {
    pub criteria: WindowCriteria,
    pub commands: Vec<String>,
}

/// A command run at startup.
#[derive(Debug, Clone)]
pub struct StartupCommand {
    pub command: String,
    pub always: bool,
}

#[derive(Debug, Clone, Copy, PartialEq, Eq, Structural)]
pub enum BarPosition {
    Top,
    Bottom,
}

/// Colours of a workspace button in one state.
#[derive(Debug, Clone)]
pub struct BarWorkspaceColors {
    pub border: String,
    pub background: String,
    pub text: String,
}

pub open spec fn bar_colors_are(c: BarWorkspaceColors, b: &str, bg: &str, t: &str) -> bool {
    c.border@ == b@ && c.background@ == bg@ && c.text@ == t@
}

fn bar_workspace_colors(b: &str, bg: &str, t: &str) -> (r: BarWorkspaceColors)
    ensures
        bar_colors_are(r, b, bg, t),
{
    BarWorkspaceColors { border: b.to_owned(), background: bg.to_owned(), text: t.to_owned() }
}

/// Bar colours.
#[derive(Debug, Clone)]
pub struct BarColors {
    pub background: String,
    pub statusline: String,
    pub separator: String,
    pub focused_workspace: BarWorkspaceColors,
    pub active_workspace: BarWorkspaceColors,
    pub inactive_workspace: BarWorkspaceColors,
    pub urgent_workspace: BarWorkspaceColors,
}

impl Default for BarColors {
    fn default() -> (r: Self)
        ensures
            r.background@ == "#000000"@ && r.statusline@ == "#ffffff"@ && r.separator@ == "#666666"@,
            bar_colors_are(r.focused_workspace, "#4c7899", "#285577", "#ffffff"),
            bar_colors_are(r.active_workspace, "#333333", "#5f676a", "#ffffff"),
            bar_colors_are(r.inactive_workspace, "#333333", "#222222", "#888888"),
            bar_colors_are(r.urgent_workspace, "#2f343a", "#900000", "#ffffff"),
    {
        BarColors {
            background: "#000000".to_owned(),
            statusline: "#ffffff".to_owned(),
            separator: "#666666".to_owned(),
            focused_workspace: bar_workspace_colors("#4c7899", "#285577", "#ffffff"),
            active_workspace: bar_workspace_colors("#333333", "#5f676a", "#ffffff"),
            inactive_workspace: bar_workspace_colors("#333333", "#222222", "#888888"),
            urgent_workspace: bar_workspace_colors("#2f343a", "#900000", "#ffffff"),
        }
    }
}

/// Status bar configuration.
#[derive(Debug, Clone)]
pub struct BarConfig {
    pub enabled: bool,
    pub position: BarPosition,
    pub height: u32,
    pub status_command: Option<String>,
    pub font: Option<String>,
    pub colors: BarColors,
    pub workspace_buttons: bool,
    pub mode_indicator: bool,
}

impl Default for BarConfig {
    fn default() -> (r: Self)
        ensures
            r.enabled && r.position == BarPosition::Bottom && r.height == 24,
            r.status_command is None && r.font is None,
            r.background_is_default(),
            r.workspace_buttons && r.mode_indicator,
    {
        BarConfig {
            enabled: true,
            position: BarPosition::Bottom,
            height: 24,
            status_command: None,
            font: None,
            colors: BarColors::default(),
            workspace_buttons: true,
            mode_indicator: true,
        }
    }
}

impl BarConfig {
    pub open spec fn background_is_default(&self) -> bool {
        self.colors.background@ == "#000000"@ && self.colors.statusline@ == "#ffffff"@
    }
}

#[derive(Debug, Clone, Copy, PartialEq, Eq, Structural)]
pub enum AnimationCurve {
    Linear,
    EaseOutCubic,
    EaseOutQuad,
    EaseInOutCubic,
}

/// Animation configuration.
#[derive(Debug, Clone, Copy, PartialEq, Eq, Structural)]
pub struct AnimationConfig {
    pub enabled: bool,
    pub duration: u32,
    pub curve: AnimationCurve,
}

impl Default for AnimationConfig {
    fn default() -> (r: Self)
        ensures
            r.enabled && r.duration == 200 && r.curve == AnimationCurve::EaseOutCubic,
    {
        AnimationConfig { enabled: true, duration: 200, curve: AnimationCurve::EaseOutCubic }
    }
}

/// The configuration groups the engine holds.
#[derive(Debug, Clone)]
pub struct Config {
    pub general: GeneralConfig,
    pub gaps: GapConfig,
    pub border: BorderConfig,
    pub colors: ColorConfig,
    pub workspaces: Vec<WorkspaceConfigEntry>,
    pub bindings: Vec<BindingConfig>,
    pub mouse_bindings: Vec<MouseBindingConfig>,
    pub rules: Vec<WindowRule>,
    pub startup: Vec<StartupCommand>,
    pub bar: BarConfig,
    pub animations: AnimationConfig,
}

impl Default for Config {
    fn default() -> (r: Self)
        ensures
            r.general.focus_follows_mouse == FocusFollowsMouse::Yes,
            r.gaps.inner == 4 && r.gaps.outer == 4,
            default_bindings_are(r.bindings@),
            r.mouse_bindings@.len() == 2,
            r.workspaces@.len() == 0 && r.rules@.len() == 0 && r.startup@.len() == 0,
    {
        Config {
            general: GeneralConfig::default(),
            gaps: GapConfig::default(),
            border: BorderConfig::default(),
            colors: ColorConfig::default(),
            workspaces: Vec::new(),
            bindings: default_bindings(),
            mouse_bindings: default_mouse_bindings(),
            rules: Vec::new(),
            startup: Vec::new(),
            bar: BarConfig::default(),
            animations: AnimationConfig::default(),
        }
    }
}

/// The binding holds these three strings.
pub open spec fn binding_is(b: BindingConfig, keys: &str, command: &str, mode: &str) -> bool {
    b.keys@ == keys@ && b.command@ == command@ && b.mode@ == mode@
}

fn binding(keys: &str, command: &str, mode: &str) -> (r: BindingConfig)
    ensures
        binding_is(r, keys, command, mode),
{
    BindingConfig { keys: keys.to_owned(), command: command.to_owned(), mode: mode.to_owned() }
}

/// The default key bindings.
pub open spec fn default_bindings_are(bs: Seq<BindingConfig>) -> bool {
    &&& bs.len() == 45
    &&& binding_is(bs[0], "Mod4+Return", "exec alacritty", "default")
    &&& binding_is(bs[1], "Mod4+Shift+q", "kill", "default")
    &&& binding_is(bs[2], "Mod4+d", "exec wofi --show drun", "default")
    &&& binding_is(bs[3], "Mod4+h", "focus left", "default")
    &&& binding_is(bs[4], "Mod4+j", "focus down", "default")
    &&& binding_is(bs[5], "Mod4+k", "focus up", "default")
    &&& binding_is(bs[6], "Mod4+l", "focus right", "default")
    &&& binding_is(bs[7], "Mod4+Shift+h", "move left", "default")
    &&& binding_is(bs[8], "Mod4+Shift+j", "move down", "default")
    &&& binding_is(bs[9], "Mod4+Shift+k", "move up", "default")
    &&& binding_is(bs[10], "Mod4+Shift+l", "move right", "default")
    &&& binding_is(bs[11], "Mod4+b", "split horizontal", "default")
    &&& binding_is(bs[12], "Mod4+v", "split vertical", "default")
    &&& binding_is(bs[13], "Mod4+f", "fullscreen toggle", "default")
    &&& binding_is(bs[14], "Mod4+Shift+space", "floating toggle", "default")
    &&& binding_is(bs[15], "Mod4+space", "focus mode_toggle", "default")
    &&& binding_is(bs[16], "Mod4+s", "layout stacked", "default")
    &&& binding_is(bs[17], "Mod4+w", "layout tabbed", "default")
    &&& binding_is(bs[18], "Mod4+e", "layout toggle split", "default")
    &&& binding_is(bs[19], "Mod4+1", "workspace 1", "default")
    &&& binding_is(bs[20], "Mod4+2", "workspace 2", "default")
    &&& binding_is(bs[21], "Mod4+3", "workspace 3", "default")
    &&& binding_is(bs[22], "Mod4+4", "workspace 4", "default")
    &&& binding_is(bs[23], "Mod4+5", "workspace 5", "default")
    &&& binding_is(bs[24], "Mod4+6", "workspace 6", "default")
    &&& binding_is(bs[25], "Mod4+7", "workspace 7", "default")
    &&& binding_is(bs[26], "Mod4+8", "workspace 8", "default")
    &&& binding_is(bs[27], "Mod4+9", "workspace 9", "default")
    &&& binding_is(bs[28], "Mod4+0", "workspace 10", "default")
    &&& binding_is(bs[29], "Mod4+Shift+1", "move container to workspace 1", "default")
    &&& binding_is(bs[30], "Mod4+Shift+2", "move container to workspace 2", "default")
    &&& binding_is(bs[31], "Mod4+Shift+3", "move container to workspace 3", "default")
    &&& binding_is(bs[32], "Mod4+Shift+4", "move container to workspace 4", "default")
    &&& binding_is(bs[33], "Mod4+Shift+5", "move container to workspace 5", "default")
    &&& binding_is(bs[34], "Mod4+Shift+minus", "move scratchpad", "default")
    &&& binding_is(bs[35], "Mod4+minus", "scratchpad show", "default")
    &&& binding_is(bs[36], "Mod4+Shift+c", "reload", "default")
    &&& binding_is(bs[37], "Mod4+Shift+e", "exit", "default")
    &&& binding_is(bs[38], "Mod4+r", "mode resize", "default")
    &&& binding_is(bs[39], "h", "resize shrink width 10 px", "resize")
    &&& binding_is(bs[40], "j", "resize grow height 10 px", "resize")
    &&& binding_is(bs[41], "k", "resize shrink height 10 px", "resize")
    &&& binding_is(bs[42], "l", "resize grow width 10 px", "resize")
    &&& binding_is(bs[43], "Escape", "mode default", "resize")
    &&& binding_is(bs[44], "Return", "mode default", "resize")
}

/// The default key bindings: launcher, focus, workspaces, layout and the
/// resize mode.
pub fn default_bindings() -> (r: Vec<BindingConfig>)
    ensures
        default_bindings_are(r@),
{
    let mut v: Vec<BindingConfig> = Vec::new();
    v.push(binding("Mod4+Return", "exec alacritty", "default"));
    v.push(binding("Mod4+Shift+q", "kill", "default"));
    v.push(binding("Mod4+d", "exec wofi --show drun", "default"));
    v.push(binding("Mod4+h", "focus left", "default"));
    v.push(binding("Mod4+j", "focus down", "default"));
    v.push(binding("Mod4+k", "focus up", "default"));
    v.push(binding("Mod4+l", "focus right", "default"));
    v.push(binding("Mod4+Shift+h", "move left", "default"));
    v.push(binding("Mod4+Shift+j", "move down", "default"));
    v.push(binding("Mod4+Shift+k", "move up", "default"));
    v.push(binding("Mod4+Shift+l", "move right", "default"));
    v.push(binding("Mod4+b", "split horizontal", "default"));
    v.push(binding("Mod4+v", "split vertical", "default"));
    v.push(binding("Mod4+f", "fullscreen toggle", "default"));
    v.push(binding("Mod4+Shift+space", "floating toggle", "default"));
    v.push(binding("Mod4+space", "focus mode_toggle", "default"));
    v.push(binding("Mod4+s", "layout stacked", "default"));
    v.push(binding("Mod4+w", "layout tabbed", "default"));
    v.push(binding("Mod4+e", "layout toggle split", "default"));
    v.push(binding("Mod4+1", "workspace 1", "default"));
    v.push(binding("Mod4+2", "workspace 2", "default"));
    v.push(binding("Mod4+3", "workspace 3", "default"));
    v.push(binding("Mod4+4", "workspace 4", "default"));
    v.push(binding("Mod4+5", "workspace 5", "default"));
    v.push(binding("Mod4+6", "workspace 6", "default"));
    v.push(binding("Mod4+7", "workspace 7", "default"));
    v.push(binding("Mod4+8", "workspace 8", "default"));
    v.push(binding("Mod4+9", "workspace 9", "default"));
    v.push(binding("Mod4+0", "workspace 10", "default"));
    v.push(binding("Mod4+Shift+1", "move container to workspace 1", "default"));
    v.push(binding("Mod4+Shift+2", "move container to workspace 2", "default"));
    v.push(binding("Mod4+Shift+3", "move container to workspace 3", "default"));
    v.push(binding("Mod4+Shift+4", "move container to workspace 4", "default"));
    v.push(binding("Mod4+Shift+5", "move container to workspace 5", "default"));
    v.push(binding("Mod4+Shift+minus", "move scratchpad", "default"));
    v.push(binding("Mod4+minus", "scratchpad show", "default"));
    v.push(binding("Mod4+Shift+c", "reload", "default"));
    v.push(binding("Mod4+Shift+e", "exit", "default"));
    v.push(binding("Mod4+r", "mode resize", "default"));
    v.push(binding("h", "resize shrink width 10 px", "resize"));
    v.push(binding("j", "resize grow height 10 px", "resize"));
    v.push(binding("k", "resize shrink height 10 px", "resize"));
    v.push(binding("l", "resize grow width 10 px", "resize"));
    v.push(binding("Escape", "mode default", "resize"));
    v.push(binding("Return", "mode default", "resize"));
    v
}

/// The default mouse bindings: move with the left button, resize with the right.
pub fn default_mouse_bindings() -> (r: Vec<MouseBindingConfig>)
    ensures
        r@.len() == 2,
        r@[0].button@ == "Mod4+button1"@ && r@[0].command@ == "move"@,
        r@[1].button@ == "Mod4+button3"@ && r@[1].command@ == "resize"@,
{
    let mut v: Vec<MouseBindingConfig> = Vec::new();
    v.push(MouseBindingConfig { button: "Mod4+button1".to_owned(), command: "move".to_owned() });
    v.push(MouseBindingConfig { button: "Mod4+button3".to_owned(), command: "resize".to_owned() });
    v
}

} // verus!

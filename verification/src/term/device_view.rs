//! The single-device view: its SSH and browser configuration forms, which
//! field has focus, and what each key press does to them.

use vstd::prelude::*;
use crate::scanners::{Device, DeviceData};
use crate::text::{parse_u16, spec_parse_u16};
use crate::net::mac_text;
use crate::report::{ip_field, ip_field_text, ports_field, ports_field_text};

verus! {

/// One text input of a form: whether it is being edited, and its text
pub struct InputState {
    pub editing: bool,
    pub value: String,
}

impl View for InputState {
    type V = (bool, Seq<char>);

    open spec fn view(&self) -> (bool, Seq<char>) {
        (self.editing, self.value@)
    }
}

/// The SSH settings kept for one device, identified by its MAC address text
pub struct DeviceConfig {
    pub id: String,
    pub ssh_identity_file: String,
    pub ssh_port: u16,
    pub ssh_user: String,
}

/// The plain contents of a device configuration
pub struct DeviceConfigData {
    pub id: Seq<char>,
    pub ssh_identity_file: Seq<char>,
    pub ssh_port: u16,
    pub ssh_user: Seq<char>,
}

impl View for DeviceConfig {
    type V = DeviceConfigData;

    open spec fn view(&self) -> DeviceConfigData {
        DeviceConfigData {
            id: self.id@,
            ssh_identity_file: self.ssh_identity_file@,
            ssh_port: self.ssh_port,
            ssh_user: self.ssh_user@,
        }
    }
}

impl DeviceConfig {
    /// A copy of this configuration
    pub fn copy(&self) -> (c: DeviceConfig)
        ensures
            c@ == self@,
    {
        DeviceConfig {
            id: self.id.clone(),
            ssh_identity_file: self.ssh_identity_file.clone(),
            ssh_port: self.ssh_port,
            ssh_user: self.ssh_user.clone(),
        }
    }
}

/// Arguments for opening a web browser on a device port
pub struct BrowseArgs {
    pub device: Device,
    pub port: u16,
    pub use_lynx: bool,
}

/// A command the interface asks the main loop to run
pub enum Command {
    Ssh(Device, DeviceConfig),
    TraceRoute(Device),
    Browse(BrowseArgs),
}

/// The plain contents of a command
pub enum CommandData {
    Ssh(DeviceData, DeviceConfigData),
    TraceRoute(DeviceData),
    Browse(DeviceData, u16, bool),
}

impl View for Command {
    type V = CommandData;

    open spec fn view(&self) -> CommandData {
        match self {
            Command::Ssh(d, c) => CommandData::Ssh(d@, c@),
            Command::TraceRoute(d) => CommandData::TraceRoute(d@),
            Command::Browse(a) => CommandData::Browse(a.device@, a.port, a.use_lynx),
        }
    }
}

/// Whether the command in progress, if any, is a traceroute
pub open spec fn spec_is_tracing(cmd: Option<CommandData>) -> bool {
    cmd matches Some(CommandData::TraceRoute(_))
}

/// Whether a traceroute is in progress
pub fn is_tracing(cmd_in_progress: &Option<Command>) -> (b: bool)
    ensures
        b == spec_is_tracing(option_command_view(*cmd_in_progress)),
{
    match cmd_in_progress {
        Some(Command::TraceRoute(_)) => true,
        _ => false,
    }
}

/// The plain contents of an optional command
pub open spec fn option_command_view(c: Option<Command>) -> Option<CommandData> {
    match c {
        Some(cmd) => Some(cmd@),
        None => None,
    }
}

/// A change the view asks of the application state
pub enum ViewAction {
    ClearCommandOutput,
    UpdateDeviceConfig(DeviceConfig),
    RemoveDeviceConfig(String),
}

/// The plain contents of a view action
pub enum ViewActionData {
    ClearCommandOutput,
    UpdateDeviceConfig(DeviceConfigData),
    RemoveDeviceConfig(Seq<char>),
}

impl View for ViewAction {
    type V = ViewActionData;

    open spec fn view(&self) -> ViewActionData {
        match self {
            ViewAction::ClearCommandOutput => ViewActionData::ClearCommandOutput,
            ViewAction::UpdateDeviceConfig(c) => ViewActionData::UpdateDeviceConfig(c@),
            ViewAction::RemoveDeviceConfig(id) => ViewActionData::RemoveDeviceConfig(id@),
        }
    }
}

/// Dispatches actions that change the application state
pub trait Dispatcher {
    fn dispatch(&self, action: ViewAction);
}

/// What the caller does after a key press has been handled
pub enum ViewEffect {
    /// Nothing more
    Nothing,
    /// Dispatch the action to the application state
    Dispatch(ViewAction),
    /// Send the command to the main loop; a failure to send is the
    /// event's error
    Send(Command),
    /// Send the command to the main loop; a failure to send is ignored
    SendIgnoringFailure(Command),
    /// Send the command to the main loop and, once it was sent, reset the
    /// forms with `reset_input_state`; a failure to send is the event's
    /// error and leaves the forms as they are
    SendThenResetInput(Command),
}

/// The plain contents of a view effect
pub enum ViewEffectData {
    Nothing,
    Dispatch(ViewActionData),
    Send(CommandData),
    SendIgnoringFailure(CommandData),
    SendThenResetInput(CommandData),
}

impl View for ViewEffect {
    type V = ViewEffectData;

    open spec fn view(&self) -> ViewEffectData {
        match self {
            ViewEffect::Nothing => ViewEffectData::Nothing,
            ViewEffect::Dispatch(a) => ViewEffectData::Dispatch(a@),
            ViewEffect::Send(c) => ViewEffectData::Send(c@),
            ViewEffect::SendIgnoringFailure(c) => ViewEffectData::SendIgnoringFailure(c@),
            ViewEffect::SendThenResetInput(c) => ViewEffectData::SendThenResetInput(c@),
        }
    }
}

/// The keys the view tells apart
#[derive(Clone, Copy, PartialEq, Eq, Structural)]
pub enum KeyInput {
    Esc,
    Right,
    Left,
    Tab,
    BackTab,
    Enter,
    Backspace,
    Char(char),
    Other,
}

/// A terminal event as the view sees it: a key press, or anything else
/// (a key release, focus, mouse, paste, resize)
#[derive(Clone, Copy, PartialEq, Eq, Structural)]
pub enum ViewEvent {
    KeyPress(KeyInput),
    Other,
}

/// The answer to an event: whether the view consumed it (else it bubbles
/// up to the enclosing view), and what the caller does next
pub struct EventOutcome {
    pub handled: bool,
    pub effect: ViewEffect,
}

/// The state of the device view, as plain values
pub struct DeviceViewModel {
    pub device: DeviceData,
    pub config: DeviceConfigData,
    pub editing_ssh: bool,
    pub editing_browser: bool,
    pub ssh_focus: int,
    pub browser_focus: int,
    pub ssh_user: (bool, Seq<char>),
    pub ssh_port: (bool, Seq<char>),
    pub ssh_identity: (bool, Seq<char>),
    pub browser_port: (bool, Seq<char>),
    pub browser_select: (bool, Seq<char>),
    pub confirm_config_removal: bool,
}

/// The text `default`: the system browser
pub open spec fn default_browser() -> Seq<char> {
    seq!['d', 'e', 'f', 'a', 'u', 'l', 't']
}

/// The text `lynx`: the terminal browser
pub open spec fn lynx_browser() -> Seq<char> {
    seq!['l', 'y', 'n', 'x']
}

/// The SSH form has three fields (user, port, identity file), the browser
/// form two (browser choice, port)
pub open spec fn ssh_field_count() -> int {
    3
}

pub open spec fn browser_field_count() -> int {
    2
}

impl DeviceViewModel {
    /// The forms' invariant: the foci are in range, at most one form is
    /// edited, and a field is marked editing exactly when its form is
    /// edited and it has the focus
    pub open spec fn wf(self) -> bool {
        &&& 0 <= self.ssh_focus < ssh_field_count()
        &&& 0 <= self.browser_focus < browser_field_count()
        &&& !(self.editing_ssh && self.editing_browser)
        &&& self.ssh_user.0 == (self.editing_ssh && self.ssh_focus == 0)
        &&& self.ssh_port.0 == (self.editing_ssh && self.ssh_focus == 1)
        &&& self.ssh_identity.0 == (self.editing_ssh && self.ssh_focus == 2)
        &&& self.browser_select.0 == (self.editing_browser && self.browser_focus == 0)
        &&& self.browser_port.0 == (self.editing_browser && self.browser_focus == 1)
    }

    /// Whether either form is being edited
    pub open spec fn editing(self) -> bool {
        self.editing_ssh || self.editing_browser
    }

    /// Each field marked editing exactly when its form is edited and it has
    /// the focus
    pub open spec fn with_focus_settings(self) -> DeviceViewModel {
        DeviceViewModel {
            ssh_user: (self.editing_ssh && self.ssh_focus == 0, self.ssh_user.1),
            ssh_port: (self.editing_ssh && self.ssh_focus == 1, self.ssh_port.1),
            ssh_identity: (self.editing_ssh && self.ssh_focus == 2, self.ssh_identity.1),
            browser_select: (self.editing_browser && self.browser_focus == 0, self.browser_select.1),
            browser_port: (self.editing_browser && self.browser_focus == 1, self.browser_port.1),
            ..self
        }
    }

    /// Both forms closed, every field not editing, both foci on the first
    /// field; the texts stay
    pub open spec fn reset(self) -> DeviceViewModel {
        DeviceViewModel {
            editing_ssh: false,
            editing_browser: false,
            ssh_focus: 0,
            browser_focus: 0,
            ssh_user: (false, self.ssh_user.1),
            ssh_port: (false, self.ssh_port.1),
            ssh_identity: (false, self.ssh_identity.1),
            browser_port: (false, self.browser_port.1),
            browser_select: (false, self.browser_select.1),
            ..self
        }
    }

    /// Focus on the next field of the form being edited, wrapping around
    pub open spec fn focus_next(self) -> DeviceViewModel {
        let b = if self.editing_browser {
            DeviceViewModel {
                browser_focus: (self.browser_focus + 1) % browser_field_count(),
                ..self
            }.with_focus_settings()
        } else {
            self
        };
        if b.editing_ssh {
            DeviceViewModel { ssh_focus: (b.ssh_focus + 1) % ssh_field_count(), ..b }.with_focus_settings()
        } else {
            b
        }
    }

    /// Focus on the previous field of the form being edited, wrapping
    /// around
    pub open spec fn focus_previous(self) -> DeviceViewModel {
        let b = if self.editing_browser {
            DeviceViewModel {
                browser_focus: if self.browser_focus == 0 {
                    browser_field_count() - 1
                } else {
                    self.browser_focus - 1
                },
                ..self
            }.with_focus_settings()
        } else {
            self
        };
        if b.editing_ssh {
            DeviceViewModel {
                ssh_focus: if b.ssh_focus == 0 { ssh_field_count() - 1 } else { b.ssh_focus - 1 },
                ..b
            }.with_focus_settings()
        } else {
            b
        }
    }

    /// Appends a character to the focused field of the form being edited;
    /// of the browser form only the port takes text
    pub open spec fn push_char(self, c: char) -> DeviceViewModel {
        let b = if self.editing_browser && self.browser_focus == 1 {
            DeviceViewModel { browser_port: (self.browser_port.0, self.browser_port.1.push(c)), ..self }
        } else {
            self
        };
        if b.editing_ssh {
            if b.ssh_focus == 0 {
                DeviceViewModel { ssh_user: (b.ssh_user.0, b.ssh_user.1.push(c)), ..b }
            } else if b.ssh_focus == 1 {
                DeviceViewModel { ssh_port: (b.ssh_port.0, b.ssh_port.1.push(c)), ..b }
            } else {
                DeviceViewModel { ssh_identity: (b.ssh_identity.0, b.ssh_identity.1.push(c)), ..b }
            }
        } else {
            b
        }
    }

    /// Removes the last character of the focused field of the form being
    /// edited, if it has one; of the browser form only the port is edited
    pub open spec fn pop_char(self) -> DeviceViewModel {
        let b = if self.editing_browser && self.browser_focus == 1 {
            DeviceViewModel { browser_port: (self.browser_port.0, drop_last_char(self.browser_port.1)), ..self }
        } else {
            self
        };
        if b.editing_ssh {
            if b.ssh_focus == 0 {
                DeviceViewModel { ssh_user: (b.ssh_user.0, drop_last_char(b.ssh_user.1)), ..b }
            } else if b.ssh_focus == 1 {
                DeviceViewModel { ssh_port: (b.ssh_port.0, drop_last_char(b.ssh_port.1)), ..b }
            } else {
                DeviceViewModel { ssh_identity: (b.ssh_identity.0, drop_last_char(b.ssh_identity.1)), ..b }
            }
        } else {
            b
        }
    }

    /// Switches the browser choice between `default` and `lynx`
    pub open spec fn next_browser(self) -> DeviceViewModel {
        DeviceViewModel {
            browser_select: (
                self.browser_select.0,
                if self.browser_select.1 == default_browser() { lynx_browser() } else { default_browser() },
            ),
            ..self
        }
    }

    /// The configuration the SSH form describes: the user and identity file
    /// as typed, the port as typed or 22 where it is no `u16`
    pub open spec fn edited_config(self) -> DeviceConfigData {
        DeviceConfigData {
            ssh_user: self.ssh_user.1,
            ssh_port: match spec_parse_u16(self.ssh_port.1) {
                Ok(p) => p,
                Err(_) => 22,
            },
            ssh_identity_file: self.ssh_identity.1,
            ..self.config
        }
    }
}

/// A text without its last character; the empty text stays empty
pub open spec fn drop_last_char(s: Seq<char>) -> Seq<char> {
    if s.len() == 0 { s } else { s.drop_last() }
}

/// The answer of the view to a key press: the next state, whether the key
/// was consumed, and what the caller does next. While a traceroute runs
/// every key is consumed and does nothing.
pub open spec fn spec_process_key(
    m: DeviceViewModel,
    key: KeyInput,
    tracing: bool,
    command_idle: bool,
) -> (DeviceViewModel, bool, ViewEffectData) {
    if tracing {
        (m, true, ViewEffectData::Nothing)
    } else {
        match key {
            KeyInput::Esc => if m.editing() {
                (m.reset(), true, ViewEffectData::Nothing)
            } else if m.confirm_config_removal {
                (DeviceViewModel { confirm_config_removal: false, ..m }, true, ViewEffectData::Nothing)
            } else {
                (m, false, ViewEffectData::Dispatch(ViewActionData::ClearCommandOutput))
            },
            KeyInput::Right | KeyInput::Left => if m.editing_browser {
                (if m.browser_focus == 0 { m.next_browser() } else { m }, true, ViewEffectData::Nothing)
            } else {
                (m, false, ViewEffectData::Nothing)
            },
            KeyInput::Tab => if m.editing() {
                (m.focus_next(), true, ViewEffectData::Nothing)
            } else {
                (m, false, ViewEffectData::Nothing)
            },
            KeyInput::BackTab => if m.editing() {
                (m.focus_previous(), true, ViewEffectData::Nothing)
            } else {
                (m, false, ViewEffectData::Nothing)
            },
            KeyInput::Enter => spec_enter(m),
            KeyInput::Backspace => if m.editing() {
                (m.pop_char(), true, ViewEffectData::Nothing)
            } else {
                (DeviceViewModel { confirm_config_removal: true, ..m }, true, ViewEffectData::Nothing)
            },
            KeyInput::Char(c) => spec_char(m, c, command_idle),
            KeyInput::Other => (m, true, ViewEffectData::Nothing),
        }
    }
}

/// Enter saves the form being edited: the browser form opens the browser
/// when its port is a `u16`; the SSH form updates the configuration; a
/// pending reset of the configuration is confirmed
pub open spec fn spec_enter(m: DeviceViewModel) -> (DeviceViewModel, bool, ViewEffectData) {
    if m.editing_browser && spec_parse_u16(m.browser_port.1) is Ok {
        (
            m,
            true,
            ViewEffectData::SendThenResetInput(
                CommandData::Browse(
                    m.device,
                    spec_parse_u16(m.browser_port.1)->Ok_0,
                    m.browser_select.1 == lynx_browser(),
                ),
            ),
        )
    } else if m.editing_ssh {
        (m.reset(), true, ViewEffectData::Dispatch(ViewActionData::UpdateDeviceConfig(m.edited_config())))
    } else if m.confirm_config_removal {
        (
            DeviceViewModel { confirm_config_removal: false, ..m },
            true,
            ViewEffectData::Dispatch(ViewActionData::RemoveDeviceConfig(m.config.id)),
        )
    } else {
        (m, true, ViewEffectData::Nothing)
    }
}

/// A character goes to the form being edited; otherwise `c` opens the SSH
/// form, `s` starts SSH when no command runs, `t` starts a traceroute, `b`
/// opens the browser form, and `f` and `d` bubble up
pub open spec fn spec_char(m: DeviceViewModel, c: char, command_idle: bool) -> (DeviceViewModel, bool, ViewEffectData) {
    if m.editing() {
        (m.push_char(c), true, ViewEffectData::Nothing)
    } else if c == 'c' {
        (
            DeviceViewModel { ssh_focus: 0, ssh_user: (true, m.ssh_user.1), editing_ssh: true, ..m },
            true,
            ViewEffectData::Nothing,
        )
    } else if c == 's' && command_idle {
        (m, true, ViewEffectData::SendIgnoringFailure(CommandData::Ssh(m.device, m.config)))
    } else if c == 't' {
        (m, true, ViewEffectData::Send(CommandData::TraceRoute(m.device)))
    } else if c == 'b' {
        (
            DeviceViewModel {
                browser_focus: 0,
                browser_select: (true, default_browser()),
                editing_browser: true,
                ..m
            },
            true,
            ViewEffectData::Nothing,
        )
    } else if c == 'f' || c == 'd' {
        (m, false, ViewEffectData::Nothing)
    } else {
        (m, true, ViewEffectData::Nothing)
    }
}

/// The answer of the view to an event: anything but a key press is
/// consumed and does nothing
pub open spec fn spec_process_event(
    m: DeviceViewModel,
    evt: ViewEvent,
    tracing: bool,
    command_idle: bool,
) -> (DeviceViewModel, bool, ViewEffectData) {
    match evt {
        ViewEvent::KeyPress(k) => spec_process_key(m, k, tracing, command_idle),
        ViewEvent::Other => (m, true, ViewEffectData::Nothing),
    }
}

/// The text `default`
fn default_browser_text() -> (s: String)
    ensures
        s@ == default_browser(),
{
    let s = String::from_str("default");
    proof {
        reveal_strlit("default");
    }
    assert(s@ =~= default_browser());
    s
}

/// The text `lynx`
fn lynx_browser_text() -> (s: String)
    ensures
        s@ == lynx_browser(),
{
    let s = String::from_str("lynx");
    proof {
        reveal_strlit("lynx");
    }
    assert(s@ =~= lynx_browser());
    s
}

/// `String::pop`: removes the last character of the string and returns it,
/// or returns `None` when the string is empty
pub assume_specification[ String::pop ](s: &mut String) -> (r: Option<char>)
    ensures
        old(s)@.len() == 0 ==> r is None && final(s)@ == old(s)@,
        old(s)@.len() > 0 ==> r == Some(old(s)@.last()) && final(s)@ == old(s)@.drop_last(),
;

/// The fields of a device view
struct ViewState {
    device: Device,
    device_config: DeviceConfig,
    editing_ssh: bool,
    editing_browser: bool,
    ssh_focus: u8,
    browser_focus: u8,
    ssh_user_state: InputState,
    ssh_port_state: InputState,
    ssh_identity_state: InputState,
    browser_port_state: InputState,
    browser_select_state: InputState,
    confirm_config_removal: bool,
}

impl View for ViewState {
    type V = DeviceViewModel;

    closed spec fn view(&self) -> DeviceViewModel {
        DeviceViewModel {
            device: self.device@,
            config: self.device_config@,
            editing_ssh: self.editing_ssh,
            editing_browser: self.editing_browser,
            ssh_focus: self.ssh_focus as int,
            browser_focus: self.browser_focus as int,
            ssh_user: self.ssh_user_state@,
            ssh_port: self.ssh_port_state@,
            ssh_identity: self.ssh_identity_state@,
            browser_port: self.browser_port_state@,
            browser_select: self.browser_select_state@,
            confirm_config_removal: self.confirm_config_removal,
        }
    }
}

/// The state of a new view of a device: no form open, empty SSH fields,
/// the browser form on `default` and port `80`
pub open spec fn initial_view(device: DeviceData, config: DeviceConfigData) -> DeviceViewModel {
    DeviceViewModel {
        device,
        config,
        editing_ssh: false,
        editing_browser: false,
        ssh_focus: 0,
        browser_focus: 0,
        ssh_user: (false, Seq::empty()),
        ssh_port: (false, Seq::empty()),
        ssh_identity: (false, Seq::empty()),
        browser_port: (false, seq!['8', '0']),
        browser_select: (false, default_browser()),
        confirm_config_removal: false,
    }
}

impl ViewState {
    /// Creates the view of a device with its configuration
    fn new(device: Device, device_config: DeviceConfig) -> (v: ViewState)
        ensures
            v@ == initial_view(device@, device_config@),
            v@.wf(),
    {
        let port = String::from_str("80");
        proof {
            reveal_strlit("80");
        }
        assert(port@ =~= seq!['8', '0']);
        ViewState {
            device,
            device_config,
            editing_ssh: false,
            editing_browser: false,
            ssh_focus: 0,
            browser_focus: 0,
            ssh_user_state: InputState { editing: false, value: String::new() },
            ssh_port_state: InputState { editing: false, value: String::new() },
            ssh_identity_state: InputState { editing: false, value: String::new() },
            browser_port_state: InputState { editing: false, value: port },
            browser_select_state: InputState { editing: false, value: default_browser_text() },
            confirm_config_removal: false,
        }
    }

    /// Replaces the device and its configuration; the forms stay
    fn update_device(&mut self, device: Device, device_config: DeviceConfig)
        ensures
            final(self)@ == (DeviceViewModel { device: device@, config: device_config@, ..old(self)@ }),
    {
        self.device = device;
        self.device_config = device_config;
    }

    /// Closes both forms and puts the focus back on their first fields
    fn reset_input_state(&mut self)
        ensures
            final(self)@ == old(self)@.reset(),
    {
        self.browser_select_state.editing = false;
        self.browser_port_state.editing = false;
        self.browser_focus = 0;
        self.editing_browser = false;
        self.ssh_user_state.editing = false;
        self.ssh_port_state.editing = false;
        self.ssh_identity_state.editing = false;
        self.ssh_focus = 0;
        self.editing_ssh = false;
    }

    fn update_focus_settings(&mut self)
        ensures
            final(self)@ == old(self)@.with_focus_settings(),
    {
        let editing_ssh = self.editing_ssh;
        let ssh = self.ssh_focus;
        self.ssh_user_state.editing = editing_ssh && ssh == 0;
        self.ssh_port_state.editing = editing_ssh && ssh == 1;
        self.ssh_identity_state.editing = editing_ssh && ssh == 2;
        let editing_browser = self.editing_browser;
        let browser = self.browser_focus;
        self.browser_select_state.editing = editing_browser && browser == 0;
        self.browser_port_state.editing = editing_browser && browser == 1;
    }

    fn focus_next(&mut self)
        requires
            old(self)@.wf(),
        ensures
            final(self)@ == old(self)@.focus_next(),
    {
        if self.editing_browser {
            self.browser_focus = (self.browser_focus + 1) % 2;
            self.update_focus_settings();
        }
        if self.editing_ssh {
            self.ssh_focus = (self.ssh_focus + 1) % 3;
            self.update_focus_settings();
        }
    }

    fn focus_previous(&mut self)
        requires
            old(self)@.wf(),
        ensures
            final(self)@ == old(self)@.focus_previous(),
    {
        if self.editing_browser {
            self.browser_focus = if self.browser_focus == 0 { 1 } else { self.browser_focus - 1 };
            self.update_focus_settings();
        }
        if self.editing_ssh {
            self.ssh_focus = if self.ssh_focus == 0 { 2 } else { self.ssh_focus - 1 };
            self.update_focus_settings();
        }
    }

    fn push_input_char(&mut self, c: char)
        ensures
            final(self)@ == old(self)@.push_char(c),
    {
        if self.editing_browser && self.browser_focus == 1 {
            self.browser_port_state.value.push(c);
        }
        if self.editing_ssh {
            if self.ssh_focus == 0 {
                self.ssh_user_state.value.push(c);
            } else if self.ssh_focus == 1 {
                self.ssh_port_state.value.push(c);
            } else {
                self.ssh_identity_state.value.push(c);
            }
        }
    }

    fn pop_input_char(&mut self)
        ensures
            final(self)@ == old(self)@.pop_char(),
    {
        if self.editing_browser && self.browser_focus == 1 {
            self.browser_port_state.value.pop();
        }
        if self.editing_ssh {
            if self.ssh_focus == 0 {
                self.ssh_user_state.value.pop();
            } else if self.ssh_focus == 1 {
                self.ssh_port_state.value.pop();
            } else {
                self.ssh_identity_state.value.pop();
            }
        }
    }

    fn next_browser(&mut self)
        ensures
            final(self)@ == old(self)@.next_browser(),
    {
        let default = default_browser_text();
        if self.browser_select_state.value == default {
            self.browser_select_state.value = lynx_browser_text();
        } else {
            self.browser_select_state.value = default;
        }
    }
}

impl ViewState {
    fn handle_enter(&mut self) -> (r: EventOutcome)
        ensures
            (final(self)@, r.handled, r.effect@) == spec_enter(old(self)@),
    {
        if self.editing_browser {
            let parsed = parse_u16(self.browser_port_state.value.as_str());
            if let Ok(port) = parsed {
                let lynx = lynx_browser_text();
                let use_lynx = self.browser_select_state.value == lynx;
                let args = BrowseArgs { device: self.device.copy(), port, use_lynx };
                return EventOutcome { handled: true, effect: ViewEffect::SendThenResetInput(Command::Browse(args)) };
            }
        }
        if self.editing_ssh {
            let mut config = self.device_config.copy();
            config.ssh_user = self.ssh_user_state.value.clone();
            config.ssh_port = match parse_u16(self.ssh_port_state.value.as_str()) {
                Ok(p) => p,
                Err(_) => 22,
            };
            config.ssh_identity_file = self.ssh_identity_state.value.clone();
            self.reset_input_state();
            return EventOutcome {
                handled: true,
                effect: ViewEffect::Dispatch(ViewAction::UpdateDeviceConfig(config)),
            };
        }
        if self.confirm_config_removal {
            let id = self.device_config.id.clone();
            self.confirm_config_removal = false;
            return EventOutcome { handled: true, effect: ViewEffect::Dispatch(ViewAction::RemoveDeviceConfig(id)) };
        }
        EventOutcome { handled: true, effect: ViewEffect::Nothing }
    }

    fn handle_char(&mut self, c: char, command_idle: bool) -> (r: EventOutcome)
        requires
            old(self)@.wf(),
        ensures
            (final(self)@, r.handled, r.effect@) == spec_char(old(self)@, c, command_idle),
    {
        if self.editing_browser || self.editing_ssh {
            self.push_input_char(c);
            return EventOutcome { handled: true, effect: ViewEffect::Nothing };
        }
        if c == 'c' {
            self.ssh_focus = 0;
            self.ssh_user_state.editing = true;
            self.editing_ssh = true;
            return EventOutcome { handled: true, effect: ViewEffect::Nothing };
        }
        if c == 's' && command_idle {
            let cmd = Command::Ssh(self.device.copy(), self.device_config.copy());
            return EventOutcome { handled: true, effect: ViewEffect::SendIgnoringFailure(cmd) };
        }
        if c == 't' {
            let cmd = Command::TraceRoute(self.device.copy());
            return EventOutcome { handled: true, effect: ViewEffect::Send(cmd) };
        }
        if c == 'b' {
            self.browser_focus = 0;
            self.browser_select_state.editing = true;
            self.browser_select_state.value = default_browser_text();
            self.editing_browser = true;
            return EventOutcome { handled: true, effect: ViewEffect::Nothing };
        }
        if c == 'f' || c == 'd' {
            return EventOutcome { handled: false, effect: ViewEffect::Nothing };
        }
        EventOutcome { handled: true, effect: ViewEffect::Nothing }
    }

    fn process_key(&mut self, key: KeyInput, tracing: bool, command_idle: bool) -> (r: EventOutcome)
        requires
            old(self)@.wf(),
        ensures
            (final(self)@, r.handled, r.effect@) == spec_process_key(old(self)@, key, tracing, command_idle),
    {
        let nothing = EventOutcome { handled: true, effect: ViewEffect::Nothing };
        if tracing {
            return nothing;
        }
        let editing = self.editing_browser || self.editing_ssh;
        match key {
            KeyInput::Esc => {
                if editing {
                    self.reset_input_state();
                    nothing
                } else if self.confirm_config_removal {
                    self.confirm_config_removal = false;
                    nothing
                } else {
                    EventOutcome { handled: false, effect: ViewEffect::Dispatch(ViewAction::ClearCommandOutput) }
                }
            },
            KeyInput::Right | KeyInput::Left => {
                if self.editing_browser {
                    if self.browser_focus == 0 {
                        self.next_browser();
                    }
                    nothing
                } else {
                    EventOutcome { handled: false, effect: ViewEffect::Nothing }
                }
            },
            KeyInput::Tab => {
                if editing {
                    self.focus_next();
                    nothing
                } else {
                    EventOutcome { handled: false, effect: ViewEffect::Nothing }
                }
            },
            KeyInput::BackTab => {
                if editing {
                    self.focus_previous();
                    nothing
                } else {
                    EventOutcome { handled: false, effect: ViewEffect::Nothing }
                }
            },
            KeyInput::Enter => self.handle_enter(),
            KeyInput::Backspace => {
                if editing {
                    self.pop_input_char();
                } else {
                    self.confirm_config_removal = true;
                }
                nothing
            },
            KeyInput::Char(c) => self.handle_char(c, command_idle),
            KeyInput::Other => nothing,
        }
    }

    /// Handles a terminal event given the command in progress, if any.
    /// While a traceroute runs every key is consumed and does nothing; the
    /// forms' invariant holds after every event.
    fn process_event(&mut self, evt: ViewEvent, cmd_in_progress: &Option<Command>) -> (r: EventOutcome)
        requires
            old(self)@.wf(),
        ensures
            (final(self)@, r.handled, r.effect@) == spec_process_event(
                old(self)@,
                evt,
                spec_is_tracing(option_command_view(*cmd_in_progress)),
                cmd_in_progress is None,
            ),
            final(self)@.wf(),
    {
        proof {
            lemma_event_keeps_forms_consistent(
                self@,
                evt,
                spec_is_tracing(option_command_view(*cmd_in_progress)),
                cmd_in_progress is None,
            );
        }
        match evt {
            ViewEvent::KeyPress(k) => {
                let tracing = is_tracing(cmd_in_progress);
                self.process_key(k, tracing, cmd_in_progress.is_none())
            },
            ViewEvent::Other => EventOutcome { handled: true, effect: ViewEffect::Nothing },
        }
    }
}

/// Every event keeps the forms' invariant, and so does the reset that
/// follows a command sent on Enter
pub proof fn lemma_event_keeps_forms_consistent(
    m: DeviceViewModel,
    evt: ViewEvent,
    tracing: bool,
    command_idle: bool,
)
    requires
        m.wf(),
    ensures
        spec_process_event(m, evt, tracing, command_idle).0.wf(),
        spec_process_event(m, evt, tracing, command_idle).0.reset().wf(),
{
}

/// The legend while a form is open or a reset awaits confirmation
pub open spec fn editing_legend() -> Seq<char> {
    "(esc) exit configuration | (enter) save configuration"@
}

/// The legend otherwise
pub open spec fn browsing_legend() -> Seq<char> {
    "(esc) back to devices | (c) configure | (s) SSH | (t) traceroute | (b) browse | (bckspc) reset device config"@
}

impl ViewState {
    /// The key legend shown below the view
    fn legend(&self) -> (s: String)
        ensures
            s@ == (if self@.editing() || self@.confirm_config_removal {
                editing_legend()
            } else {
                browsing_legend()
            }),
    {
        if self.editing_browser || self.editing_ssh || self.confirm_config_removal {
            String::from_str("(esc) exit configuration | (enter) save configuration")
        } else {
            String::from_str(
                "(esc) back to devices | (c) configure | (s) SSH | (t) traceroute | (b) browse | (bckspc) reset device config",
            )
        }
    }

    /// This view's legend replaces the main one
    fn override_main_legend(&self) -> (b: bool)
        ensures
            b,
    {
        true
    }

    /// Before the SSH form is drawn: while it is not being edited its
    /// fields show the device's configuration
    fn refresh_ssh_inputs(&mut self)
        ensures
            old(self)@.editing_ssh ==> final(self)@ == old(self)@,
            !old(self)@.editing_ssh ==> final(self)@ == (DeviceViewModel {
                ssh_user: (old(self)@.ssh_user.0, old(self)@.config.ssh_user),
                ssh_port: (old(self)@.ssh_port.0, crate::net::decimal(old(self)@.config.ssh_port as nat)),
                ssh_identity: (old(self)@.ssh_identity.0, old(self)@.config.ssh_identity_file),
                ..old(self)@
            }),
    {
        if !self.editing_ssh {
            self.ssh_user_state.value = self.device_config.ssh_user.clone();
            let mut port = String::new();
            crate::net::push_decimal(&mut port, self.device_config.ssh_port as u128);
            assert(port@ =~= crate::net::decimal(self.device_config.ssh_port as nat));
            self.ssh_port_state.value = port;
            self.ssh_identity_state.value = self.device_config.ssh_identity_file.clone();
        }
    }

    /// The device shown
    fn device(&self) -> (d: &Device)
        ensures
            d@ == self@.device,
    {
        &self.device
    }

    /// The configuration of the device shown
    fn device_config(&self) -> (c: &DeviceConfig)
        ensures
            c@ == self@.config,
    {
        &self.device_config
    }

    /// Whether a reset of the device's configuration awaits confirmation
    fn confirming_config_removal(&self) -> (b: bool)
        ensures
            b == self@.confirm_config_removal,
    {
        self.confirm_config_removal
    }

    /// Whether the browser form is open
    fn editing_browser(&self) -> (b: bool)
        ensures
            b == self@.editing_browser,
    {
        self.editing_browser
    }

    /// The SSH form's fields: user, port, identity file
    fn ssh_inputs(&self) -> (r: (&InputState, &InputState, &InputState))
        ensures
            r.0@ == self@.ssh_user,
            r.1@ == self@.ssh_port,
            r.2@ == self@.ssh_identity,
    {
        (&self.ssh_user_state, &self.ssh_port_state, &self.ssh_identity_state)
    }

    /// The browser form's fields: browser choice, port
    fn browser_inputs(&self) -> (r: (&InputState, &InputState))
        ensures
            r.0@ == self@.browser_select,
            r.1@ == self@.browser_port,
    {
        (&self.browser_select_state, &self.browser_port_state)
    }
}

/// The lines of the device's info panel: hostname, IP cell, MAC address,
/// vendor and open ports
pub open spec fn device_info(d: DeviceData) -> Seq<Seq<char>> {
    seq![
        "Hostname: "@ + d.hostname,
        "IP: "@ + ip_field(d),
        "MAC: "@ + mac_text(d.mac),
        "Vendor: "@ + d.vendor,
        "Open Ports: "@ + ports_field(d),
    ]
}

/// The largest value of the sequence, 0 when it is empty
pub open spec fn seq_max(s: Seq<u64>) -> u64
    decreases s.len(),
{
    if s.len() == 0 {
        0
    } else if seq_max(s.drop_last()) < s.last() {
        s.last()
    } else {
        seq_max(s.drop_last())
    }
}

/// What the latency chart of a device shows, given its latencies oldest
/// first
pub struct LatencyChart {
    /// The latencies newest first
    pub bars: Vec<u64>,
    /// `Latency: <newest>ms`, or `Latency (ms)` when there is none
    pub label: String,
    /// The top of the chart: the largest latency, at least 1
    pub max: u64,
}

/// The label of the latency chart
pub open spec fn latency_label(history: Seq<u64>) -> Seq<char> {
    if history.len() == 0 {
        "Latency (ms)"@
    } else {
        "Latency: "@ + crate::net::decimal(history.last() as nat) + "ms"@
    }
}

/// The latency chart of a device, given its latencies oldest first
pub fn latency_chart(history: &Vec<u64>) -> (c: LatencyChart)
    ensures
        c.bars@ == history@.reverse(),
        c.label@ == latency_label(history@),
        c.max == (if seq_max(history@) < 1 { 1 } else { seq_max(history@) }),
{
    let mut bars: Vec<u64> = Vec::new();
    let mut max: u64 = 0;
    let n = history.len();
    let mut i: usize = 0;
    while i < n
        invariant
            n == history@.len(),
            i <= n,
            bars@ == history@.take(i as int).reverse(),
            max == seq_max(history@.take(i as int)),
        decreases n - i,
    {
        assert(history@.take(i as int + 1).drop_last() =~= history@.take(i as int));
        let h = history[i];
        if max < h {
            max = h;
        }
        bars.insert(0, h);
        assert(bars@ =~= history@.take(i as int + 1).reverse());
        i = i + 1;
    }
    assert(history@.take(n as int) =~= history@);
    let label = if n == 0 {
        String::from_str("Latency (ms)")
    } else {
        let mut l = String::from_str("Latency: ");
        crate::net::push_decimal(&mut l, history[n - 1] as u128);
        l.append("ms");
        l
    };
    if max < 1 {
        max = 1;
    }
    LatencyChart { bars, label, max }
}

impl ViewState {
    /// The lines of the device's info panel
    fn device_info_lines(&self) -> (v: Vec<String>)
        ensures
            v@.map_values(|s: String| s@) == device_info(self@.device),
    {
        let d = &self.device;
        let mut v: Vec<String> = Vec::new();
        let mut host = String::from_str("Hostname: ");
        host.append(d.hostname.as_str());
        v.push(host);
        let mut ip = String::from_str("IP: ");
        ip.append(ip_field_text(d).as_str());
        v.push(ip);
        let mut mac = String::from_str("MAC: ");
        mac.append(d.mac.to_text().as_str());
        v.push(mac);
        let mut vendor = String::from_str("Vendor: ");
        vendor.append(d.vendor.as_str());
        v.push(vendor);
        let mut ports = String::from_str("Open Ports: ");
        ports.append(ports_field_text(d).as_str());
        v.push(ports);
        assert(v@.map_values(|s: String| s@) =~= device_info(self@.device));
        v
    }
}

/// While a traceroute runs, every key press is consumed and changes
/// nothing
pub proof fn lemma_tracing_consumes_every_key(m: DeviceViewModel, key: KeyInput, command_idle: bool)
    ensures
        spec_process_key(m, key, true, command_idle) == (m, true, ViewEffectData::Nothing),
{
}

/// Escape closes an open form without asking anything of the caller, and
/// otherwise clears a pending reset or bubbles up with the command output
/// cleared
pub proof fn lemma_escape_leaves_editing(m: DeviceViewModel, command_idle: bool)
    requires
        m.wf(),
    ensures
        !spec_process_key(m, KeyInput::Esc, false, command_idle).0.editing(),
        !spec_process_key(m, KeyInput::Esc, false, command_idle).0.confirm_config_removal || (m.editing()
            && m.confirm_config_removal),
        spec_process_key(m, KeyInput::Esc, false, command_idle).1 == (m.editing() || m.confirm_config_removal),
{
}

/// View for displaying device details and running SSH, traceroute and
/// browse on the device. Its forms are always consistent (`wf`): at most
/// one is open, and a field is marked editing exactly when its form is open
/// and it has the focus.
pub struct DeviceView {
    state: ViewState,
}

impl View for DeviceView {
    type V = DeviceViewModel;

    closed spec fn view(&self) -> DeviceViewModel {
        self.state@
    }
}

/// A view of an empty device, held while a view's state is being updated
fn placeholder_state() -> (v: ViewState)
    ensures
        v@.wf(),
{
    let device = Device {
        hostname: String::new(),
        ip: 0,
        mac: crate::net::MacAddr::zero(),
        vendor: String::new(),
        is_current_host: false,
        is_gateway: false,
        open_ports: crate::scanners::PortSet::new(),
        latency_ms: None,
        response_ttl: None,
    };
    let config = DeviceConfig { id: String::new(), ssh_identity_file: String::new(), ssh_port: 22, ssh_user: String::new() };
    ViewState::new(device, config)
}

impl DeviceView {
    #[verifier::type_invariant]
    spec fn inv(self) -> bool {
        self.state@.wf()
    }

    /// Creates the view of a device with its configuration
    pub fn new(device: Device, device_config: DeviceConfig) -> (v: DeviceView)
        ensures
            v@ == initial_view(device@, device_config@),
            v@.wf(),
    {
        DeviceView { state: ViewState::new(device, device_config) }
    }

    /// Replaces the device and its configuration; the forms stay
    pub fn update_device(&mut self, device: Device, device_config: DeviceConfig)
        ensures
            final(self)@ == (DeviceViewModel { device: device@, config: device_config@, ..old(self)@ }),
    {
        proof {
            use_type_invariant(&*self);
        }
        let mut st = placeholder_state();
        std::mem::swap(&mut st, &mut self.state);
        st.update_device(device, device_config);
        self.state = st;
    }

    /// Closes both forms and puts the focus back on their first fields
    pub fn reset_input_state(&mut self)
        ensures
            final(self)@ == old(self)@.reset(),
    {
        proof {
            use_type_invariant(&*self);
        }
        let mut st = placeholder_state();
        std::mem::swap(&mut st, &mut self.state);
        st.reset_input_state();
        self.state = st;
    }

    /// Handles a terminal event given the command in progress, if any.
    /// While a traceroute runs every key is consumed and does nothing.
    pub fn process_event(&mut self, evt: ViewEvent, cmd_in_progress: &Option<Command>) -> (r: EventOutcome)
        ensures
            (final(self)@, r.handled, r.effect@) == spec_process_event(
                old(self)@,
                evt,
                spec_is_tracing(option_command_view(*cmd_in_progress)),
                cmd_in_progress is None,
            ),
            final(self)@.wf(),
    {
        proof {
            use_type_invariant(&*self);
        }
        let mut st = placeholder_state();
        std::mem::swap(&mut st, &mut self.state);
        let r = st.process_event(evt, cmd_in_progress);
        self.state = st;
        r
    }

    /// The key legend shown below the view
    pub fn legend(&self) -> (s: String)
        ensures
            s@ == (if self@.editing() || self@.confirm_config_removal {
                editing_legend()
            } else {
                browsing_legend()
            }),
    {
        self.state.legend()
    }

    /// This view's legend replaces the main one
    pub fn override_main_legend(&self) -> (b: bool)
        ensures
            b,
    {
        self.state.override_main_legend()
    }

    /// Before the SSH form is drawn: while it is not being edited its
    /// fields show the device's configuration
    pub fn refresh_ssh_inputs(&mut self)
        ensures
            old(self)@.editing_ssh ==> final(self)@ == old(self)@,
            !old(self)@.editing_ssh ==> final(self)@ == (DeviceViewModel {
                ssh_user: (old(self)@.ssh_user.0, old(self)@.config.ssh_user),
                ssh_port: (old(self)@.ssh_port.0, crate::net::decimal(old(self)@.config.ssh_port as nat)),
                ssh_identity: (old(self)@.ssh_identity.0, old(self)@.config.ssh_identity_file),
                ..old(self)@
            }),
    {
        proof {
            use_type_invariant(&*self);
        }
        let mut st = placeholder_state();
        std::mem::swap(&mut st, &mut self.state);
        st.refresh_ssh_inputs();
        self.state = st;
    }

    /// The device shown
    pub fn device(&self) -> (d: &Device)
        ensures
            d@ == self@.device,
    {
        self.state.device()
    }

    /// The configuration of the device shown
    pub fn device_config(&self) -> (c: &DeviceConfig)
        ensures
            c@ == self@.config,
    {
        self.state.device_config()
    }

    /// Whether a reset of the device's configuration awaits confirmation
    pub fn confirming_config_removal(&self) -> (b: bool)
        ensures
            b == self@.confirm_config_removal,
    {
        self.state.confirming_config_removal()
    }

    /// Whether the browser form is open
    pub fn editing_browser(&self) -> (b: bool)
        ensures
            b == self@.editing_browser,
    {
        self.state.editing_browser()
    }

    /// The SSH form's fields: user, port, identity file
    pub fn ssh_inputs(&self) -> (r: (&InputState, &InputState, &InputState))
        ensures
            r.0@ == self@.ssh_user,
            r.1@ == self@.ssh_port,
            r.2@ == self@.ssh_identity,
    {
        self.state.ssh_inputs()
    }

    /// The browser form's fields: browser choice, port
    pub fn browser_inputs(&self) -> (r: (&InputState, &InputState))
        ensures
            r.0@ == self@.browser_select,
            r.1@ == self@.browser_port,
    {
        self.state.browser_inputs()
    }

    /// The lines of the device's info panel
    pub fn device_info_lines(&self) -> (v: Vec<String>)
        ensures
            v@.map_values(|s: String| s@) == device_info(self@.device),
    {
        self.state.device_info_lines()
    }
}

} // verus!

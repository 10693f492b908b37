use r_lanscan::net::MacAddr;
use r_lanscan::scanners::{Device, Port, PortSet};
use r_lanscan::term::device_view::{
    latency_chart, BrowseArgs, Command, DeviceConfig, DeviceView, KeyInput, ViewAction, ViewEffect, ViewEvent,
};
use r_lanscan::term::shell::Shell;
use r_lanscan::term::widgets::{config_removal_popover, Label, SimplePopover};

fn ip(a: u32, b: u32, c: u32, d: u32) -> u32 {
    (a << 24) | (b << 16) | (c << 8) | d
}

fn device() -> Device {
    let mut open_ports = PortSet::new();
    open_ports.insert(Port::new(80, "http".to_string()));
    Device {
        hostname: "hostname".to_string(),
        ip: ip(10, 10, 10, 1),
        mac: MacAddr::default(),
        vendor: "mac".to_string(),
        is_current_host: false,
        is_gateway: false,
        open_ports,
        latency_ms: Some(10),
        response_ttl: None,
    }
}

fn config() -> DeviceConfig {
    DeviceConfig {
        id: "00:00:00:00:00:00".to_string(),
        ssh_identity_file: "/home/user/.ssh/id_rsa".to_string(),
        ssh_port: 22,
        ssh_user: "user".to_string(),
    }
}

fn key(v: &mut DeviceView, k: KeyInput) -> (bool, ViewEffect) {
    let r = v.process_event(ViewEvent::KeyPress(k), &None);
    (r.handled, r.effect)
}

fn typed(v: &mut DeviceView, s: &str) {
    for c in s.chars() {
        let (handled, effect) = key(v, KeyInput::Char(c));
        assert!(handled);
        assert!(matches!(effect, ViewEffect::Nothing));
    }
}

#[test]
fn new_view_shows_the_browser_defaults() {
    let v = DeviceView::new(device(), config());
    let (select, port) = v.browser_inputs();
    assert_eq!(select.value, "default");
    assert_eq!(port.value, "80");
    assert!(!select.editing && !port.editing);
    assert_eq!(
        v.legend(),
        "(esc) back to devices | (c) configure | (s) SSH | (t) traceroute | (b) browse | (bckspc) reset device config"
    );
    assert!(v.override_main_legend());
}

#[test]
fn editing_ssh_config_saves_an_updated_config() {
    let mut v = DeviceView::new(device(), config());
    let (handled, _) = key(&mut v, KeyInput::Char('c'));
    assert!(handled);
    assert!(v.ssh_inputs().0.editing);
    assert_eq!(v.legend(), "(esc) exit configuration | (enter) save configuration");
    typed(&mut v, "bob");
    key(&mut v, KeyInput::Tab);
    assert!(v.ssh_inputs().1.editing && !v.ssh_inputs().0.editing);
    typed(&mut v, "2222");
    key(&mut v, KeyInput::Backspace);
    key(&mut v, KeyInput::Tab);
    typed(&mut v, "key");
    let (handled, effect) = key(&mut v, KeyInput::Enter);
    assert!(handled);
    match effect {
        ViewEffect::Dispatch(ViewAction::UpdateDeviceConfig(c)) => {
            assert_eq!(c.ssh_user, "bob");
            assert_eq!(c.ssh_port, 222);
            assert_eq!(c.ssh_identity_file, "key");
            assert_eq!(c.id, "00:00:00:00:00:00");
        },
        _ => panic!("enter did not save the ssh config"),
    }
    assert!(!v.ssh_inputs().2.editing);
}

#[test]
fn ssh_port_that_is_no_number_saves_port_22() {
    let mut v = DeviceView::new(device(), config());
    key(&mut v, KeyInput::Char('c'));
    key(&mut v, KeyInput::BackTab);
    key(&mut v, KeyInput::BackTab);
    assert!(v.ssh_inputs().1.editing);
    typed(&mut v, "x");
    match key(&mut v, KeyInput::Enter).1 {
        ViewEffect::Dispatch(ViewAction::UpdateDeviceConfig(c)) => assert_eq!(c.ssh_port, 22),
        _ => panic!("enter did not save the ssh config"),
    }
}

#[test]
fn browser_form_sends_a_browse_command() {
    let mut v = DeviceView::new(device(), config());
    key(&mut v, KeyInput::Char('b'));
    assert!(v.editing_browser());
    key(&mut v, KeyInput::Right);
    assert_eq!(v.browser_inputs().0.value, "lynx");
    key(&mut v, KeyInput::Tab);
    key(&mut v, KeyInput::Backspace);
    typed(&mut v, "443");
    match key(&mut v, KeyInput::Enter) {
        (true, ViewEffect::SendThenResetInput(Command::Browse(BrowseArgs { port, use_lynx, device }))) => {
            assert_eq!(port, 8443);
            assert!(use_lynx);
            assert_eq!(device.hostname, "hostname");
        },
        _ => panic!("enter did not browse"),
    }
    // the form stays open until the command was sent
    assert!(v.editing_browser());
    v.reset_input_state();
    assert!(!v.editing_browser());
}

#[test]
fn escape_bubbles_up_and_clears_the_output_when_nothing_is_edited() {
    let mut v = DeviceView::new(device(), config());
    match key(&mut v, KeyInput::Esc) {
        (false, ViewEffect::Dispatch(ViewAction::ClearCommandOutput)) => {},
        _ => panic!("escape did not bubble up"),
    }
}

#[test]
fn backspace_asks_to_confirm_a_config_reset() {
    let mut v = DeviceView::new(device(), config());
    key(&mut v, KeyInput::Backspace);
    assert!(v.confirming_config_removal());
    match key(&mut v, KeyInput::Enter) {
        (true, ViewEffect::Dispatch(ViewAction::RemoveDeviceConfig(id))) => assert_eq!(id, "00:00:00:00:00:00"),
        _ => panic!("enter did not reset the config"),
    }
    assert!(!v.confirming_config_removal());
}

#[test]
fn ssh_and_traceroute_are_sent() {
    let mut v = DeviceView::new(device(), config());
    assert!(matches!(key(&mut v, KeyInput::Char('s')), (true, ViewEffect::SendIgnoringFailure(Command::Ssh(_, _)))));
    assert!(matches!(key(&mut v, KeyInput::Char('t')), (true, ViewEffect::Send(Command::TraceRoute(_)))));
    assert!(matches!(key(&mut v, KeyInput::Char('f')), (false, ViewEffect::Nothing)));
    assert!(matches!(key(&mut v, KeyInput::Tab), (false, ViewEffect::Nothing)));
}

#[test]
fn keys_do_nothing_while_tracing() {
    let mut v = DeviceView::new(device(), config());
    let running = Some(Command::TraceRoute(device()));
    let r = v.process_event(ViewEvent::KeyPress(KeyInput::Char('c')), &running);
    assert!(r.handled);
    assert!(matches!(r.effect, ViewEffect::Nothing));
    assert!(!v.ssh_inputs().0.editing);
    let r = v.process_event(ViewEvent::KeyPress(KeyInput::Esc), &running);
    assert!(r.handled);
    assert!(matches!(r.effect, ViewEffect::Nothing));
}

#[test]
fn ssh_needs_no_command_running() {
    let mut v = DeviceView::new(device(), config());
    let running = Some(Command::Ssh(device(), config()));
    let r = v.process_event(ViewEvent::KeyPress(KeyInput::Char('s')), &running);
    assert!(r.handled);
    assert!(matches!(r.effect, ViewEffect::Nothing));
    let r = v.process_event(ViewEvent::Other, &None);
    assert!(r.handled);
}

#[test]
fn ssh_inputs_show_the_config_when_not_editing() {
    let mut v = DeviceView::new(device(), config());
    v.refresh_ssh_inputs();
    let (user, port, identity) = v.ssh_inputs();
    assert_eq!(user.value, "user");
    assert_eq!(port.value, "22");
    assert_eq!(identity.value, "/home/user/.ssh/id_rsa");
}

#[test]
fn device_info_lines() {
    let v = DeviceView::new(device(), config());
    assert_eq!(
        v.device_info_lines(),
        vec!["Hostname: hostname", "IP: 10.10.10.1", "MAC: 00:00:00:00:00:00", "Vendor: mac", "Open Ports: 80:http"]
    );
}

#[test]
fn latency_chart_puts_the_newest_first() {
    let c = latency_chart(&vec![6, 9, 12, 15]);
    assert_eq!(c.bars, vec![15, 12, 9, 6]);
    assert_eq!(c.label, "Latency: 15ms");
    assert_eq!(c.max, 15);
    let e = latency_chart(&vec![]);
    assert!(e.bars.is_empty());
    assert_eq!(e.label, "Latency (ms)");
    assert_eq!(e.max, 1);
}

#[test]
fn label_defaults_and_builders() {
    let l = Label::new("Test".to_string());
    let d = l.layout();
    assert_eq!((d.width, d.padding_x, d.padding_y), (25, 0, 0));
    let l = l.width(100).padding_x(2).padding_y(1);
    let d = l.layout();
    assert_eq!((d.width, d.padding_x, d.padding_y), (100, 2, 1));
    assert_eq!(l.title(), "Test");
}

#[test]
fn simple_popover_builders() {
    let p = SimplePopover::new("msg".to_string());
    assert_eq!(p.footer_text(), None);
    assert_eq!(p.centering(), (false, false));
    let p = p.footer("foot".to_string()).message_centered();
    assert_eq!(p.footer_text(), Some("foot"));
    assert_eq!(p.centering(), (true, false));
    let c = config_removal_popover();
    assert_eq!(c.message(), "Are you sure you want to reset the config for this device?");
    assert_eq!(c.footer_text(), Some("Enter to Confirm | Esc to Cancel"));
    assert_eq!(c.centering(), (true, true));
}

#[test]
fn shell_commands_for_a_device() {
    let s = Shell::new();
    let d = device();
    assert_eq!(s.ssh_args(&d, &config()), vec!["-i", "/home/user/.ssh/id_rsa", "user@10.10.10.1", "-p", "22"]);
    assert_eq!(s.traceroute_args(&d), vec!["-w", "2", "-I", "-v", "-m", "5", "10.10.10.1"]);
    let https = BrowseArgs { device: device(), port: 443, use_lynx: false };
    assert_eq!(s.browse_url(&https), "https://10.10.10.1:443");
    let http = BrowseArgs { device: device(), port: 8080, use_lynx: true };
    assert_eq!(s.browse_url(&http), "http://10.10.10.1:8080");
}

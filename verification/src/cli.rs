//! The command line of the scanner: its arguments, their defaults and
//! checks, and the choices they make (log level, which reports print).

use vstd::prelude::*;
use crate::text::{parse_u16, spec_parse_u16};
use clap::{Arg, ArgAction, Command};

verus! {

/// How an argument takes values
#[derive(Clone, Copy, PartialEq, Eq, Structural)]
pub enum ArgKind {
    /// A flag that takes no value
    Flag,
    /// An argument that takes one value
    Value,
    /// An argument that takes values, repeated or split at a delimiter
    List,
}

/// One argument of a command line
pub struct ArgSpec {
    /// The name the argument is known by
    pub id: &'static str,
    /// Its long form, without the leading `--`
    pub long: &'static str,
    /// Its short form, without the leading `-`
    pub short: Option<char>,
    pub kind: ArgKind,
    /// The character that splits one value into several
    pub delimiter: Option<char>,
    /// What `--help` says of it
    pub help: &'static str,
}

/// The plain contents of an argument specification
pub struct ArgSpecData {
    pub id: Seq<char>,
    pub long: Seq<char>,
    pub short: Option<char>,
    pub kind: ArgKind,
    pub delimiter: Option<char>,
    pub help: Seq<char>,
}

impl View for ArgSpec {
    type V = ArgSpecData;

    open spec fn view(&self) -> ArgSpecData {
        ArgSpecData {
            id: self.id@,
            long: self.long@,
            short: self.short,
            kind: self.kind,
            delimiter: self.delimiter,
            help: self.help@,
        }
    }
}

/// The plain contents of argument specifications
pub open spec fn arg_spec_views(s: Seq<ArgSpec>) -> Seq<ArgSpecData> {
    s.map_values(|a: ArgSpec| a@)
}

/// The plain contents of texts
pub open spec fn text_views(s: Seq<String>) -> Seq<Seq<char>> {
    s.map_values(|t: String| t@)
}

/// The plain contents of what the command line gave for each argument:
/// its values as written, or none where it was not given
pub open spec fn matched_views(v: Seq<Option<Vec<String>>>) -> Seq<Option<Seq<Seq<char>>>> {
    v.map_values(|m: Option<Vec<String>>| match m {
        Some(t) => Some(text_views(t@)),
        None => None,
    })
}

/// The plain contents of a parse result: the arguments given, or the
/// message and exit code of a rejected command line
pub open spec fn parse_view(r: Result<Vec<Option<Vec<String>>>, (String, i32)>) -> Result<
    Seq<Option<Seq<Seq<char>>>>,
    (Seq<char>, i32),
> {
    match r {
        Ok(v) => Ok(matched_views(v@)),
        Err((m, c)) => Err((m@, c)),
    }
}

/// What clap makes of a command line (with the program name first) for a
/// command of the given name, description and arguments: for each argument its values
/// (a flag has `true` when given and `false` when not), none for an
/// argument with values that was not given; or the message and exit code
/// of a rejection (a usage error exits with 2, `--help` with 0)
pub uninterp spec fn clap_parse_result(
    name: Seq<char>,
    about: Seq<char>,
    specs: Seq<ArgSpecData>,
    argv: Seq<Seq<char>>,
) -> Result<Seq<Option<Seq<Seq<char>>>>, (Seq<char>, i32)>;

/// The arguments make a command clap takes without panicking: ids, long
/// forms and short forms each distinct, none of them those of the help
/// flag clap adds (`help`, `--help`, `-h`), no short form `-`, and long
/// forms that are not empty and do not start with `-`
pub open spec fn clap_command_ok(specs: Seq<ArgSpecData>) -> bool {
    &&& forall|i: int, j: int|
        0 <= i < j < specs.len() ==> specs[i].id != specs[j].id && specs[i].long != specs[j].long && (
        specs[i].short is Some ==> specs[i].short != specs[j].short)
    &&& forall|i: int|
        0 <= i < specs.len() ==> specs[i].id != "help"@ && specs[i].long != "help"@ && specs[i].short != Some(
            'h',
        ) && specs[i].short != Some('-') && specs[i].long.len() > 0 && specs[i].long[0] != '-'
}

/// Parses the command line with `clap::Command::try_get_matches_from`, the
/// command made of the given name, description and arguments (flags as
/// `SetTrue`, one value as `Set`, lists as `Append`, each with its help). The result is `clap_parse_result` of the
/// arguments; on success it has one entry per argument, in order. What
/// clap accepts is not stated here.
#[verifier::external_body]
fn clap_parse(name: &'static str, about: &'static str, specs: &Vec<ArgSpec>, argv: &Vec<String>) -> (r: Result<Vec<Option<Vec<String>>>, (String, i32)>)
    requires
        clap_command_ok(arg_spec_views(specs@)),
    ensures
        parse_view(r) == clap_parse_result(name@, about@, arg_spec_views(specs@), text_views(argv@)),
        r matches Ok(v) ==> v@.len() == specs@.len(),
{
    let mut cmd = Command::new(name).about(about);
    for s in specs.iter() {
        cmd = cmd.arg(Arg::new(s.id).long(s.long).short(s.short).help(s.help).value_delimiter(s.delimiter).action(match s.kind {
            ArgKind::Flag => ArgAction::SetTrue,
            ArgKind::Value => ArgAction::Set,
            ArgKind::List => ArgAction::Append,
        }));
    }
    match cmd.try_get_matches_from(argv) {
        Ok(m) => Ok(specs.iter().map(|s| m.get_raw(s.id).map(|v| v.map(|x| x.to_string_lossy().into_owned()).collect())).collect()),
        Err(e) => Err((e.to_string(), e.exit_code())),
    }
}

/// What `humantime::parse_duration` makes of a text, in nanoseconds; none
/// where it rejects the text
pub uninterp spec fn parsed_duration_nanos(s: Seq<char>) -> Option<u128>;

/// The number of ASCII decimal digits in a text
pub open spec fn digit_count(s: Seq<char>) -> nat
    decreases s.len(),
{
    if s.len() == 0 {
        0
    } else {
        digit_count(s.drop_last()) + if crate::text::is_digit(s.last()) {
            1nat
        } else {
            0nat
        }
    }
}

/// `humantime::parse_duration`, the duration in nanoseconds; `None` where
/// humantime rejects the text. The result is `parsed_duration_nanos` of
/// the text; which texts humantime accepts is not stated here. humantime
/// panics where a sum of spans reaches the largest `u64` of seconds with a
/// whole second of nanoseconds still to carry; with at most eleven digits
/// in the text the spans add up to less than 2^62 seconds, so it takes
/// such texts only.
#[verifier::external_body]
fn parse_duration_nanos(s: &str) -> (r: Option<u128>)
    requires
        digit_count(s@) <= 11,
    ensures
        r == parsed_duration_nanos(s@),
{
    humantime::parse_duration(s).ok().map(|d| d.as_nanos())
}

/// Where a flag's values say it was given
pub open spec fn flag_given(m: Option<Seq<Seq<char>>>) -> bool {
    m matches Some(t) && t.len() == 1 && t[0] == "true"@
}

/// The values of a list argument, or `default` where it was not given
pub open spec fn list_or(m: Option<Seq<Seq<char>>>, default: Seq<Seq<char>>) -> Seq<Seq<char>> {
    match m {
        Some(t) => t,
        None => default,
    }
}

/// The value of a one-value argument, where it was given
pub open spec fn single(m: Option<Seq<Seq<char>>>) -> Option<Seq<char>> {
    match m {
        Some(t) => Some(if t.len() > 0 { t[0] } else { Seq::empty() }),
        None => None,
    }
}

/// Whether the flag was given, from its values
fn flag_value(m: &Option<Vec<String>>) -> (b: bool)
    ensures
        b == flag_given(matched_views(seq![*m])[0]),
{
    match m {
        Some(t) => {
            if t.len() == 1 {
                let yes = String::from_str("true");
                t[0] == yes
            } else {
                false
            }
        },
        None => false,
    }
}

/// The value of a one-value argument, from its values
fn single_value(m: &Option<Vec<String>>) -> (r: Option<String>)
    ensures
        match r {
            Some(t) => single(matched_views(seq![*m])[0]) == Some(t@),
            None => single(matched_views(seq![*m])[0]) is None,
        },
{
    match m {
        Some(t) => {
            if t.len() > 0 {
                Some(t[0].clone())
            } else {
                Some(String::new())
            }
        },
        None => None,
    }
}

/// The values of a list argument, from its values, or `default`
fn list_value(m: &Option<Vec<String>>, default: Vec<String>) -> (r: Vec<String>)
    ensures
        text_views(r@) == list_or(matched_views(seq![*m])[0], text_views(default@)),
{
    match m {
        Some(t) => {
            let r = t.clone();
            assert(r@ == t@);
            r
        },
        None => default,
    }
}

/// The words of a command line as owned texts
fn texts_of(argv: &[&str]) -> (words: Vec<String>)
    ensures
        text_views(words@) == argv@.map_values(|a: &str| a@),
{
    let mut words: Vec<String> = Vec::new();
    let mut i: usize = 0;
    while i < argv.len()
        invariant
            i <= argv@.len(),
            words@.len() == i,
            text_views(words@) == argv@.take(i as int).map_values(|a: &str| a@),
        decreases argv@.len() - i,
    {
        let w = argv[i].to_owned();
        let ghost old_words = words@;
        words.push(w);
        assert forall|k: int| 0 <= k < i implies text_views(words@)[k] == argv@[k]@ by {
            assert(words@[k] == old_words[k]);
            assert(text_views(old_words)[k] == argv@.take(i as int).map_values(|a: &str| a@)[k]);
        }
        assert(text_views(words@) =~= argv@.take(i as int + 1).map_values(|a: &str| a@));
        i = i + 1;
    }
    assert(argv@.take(i as int) =~= argv@);
    words
}

/// The log level of a run
#[derive(Clone, Copy, PartialEq, Eq, Structural, Debug)]
pub enum LogLevel {
    Error,
    Info,
    Debug,
}

/// Why a command line was not taken
#[derive(Debug)]
pub enum ArgError {
    /// clap rejected it, or it asked for help: the message to show and the
    /// exit code
    Usage { message: String, exit_code: i32 },
    /// An argument's value is not of the kind the argument takes
    InvalidValue { arg: String, value: String },
    /// Two arguments that cannot be given together were
    Conflict { arg: String, other: String },
}

/// The plain contents of an argument error
pub enum ArgErrorData {
    Usage { message: Seq<char>, exit_code: i32 },
    InvalidValue { arg: Seq<char>, value: Seq<char> },
    Conflict { arg: Seq<char>, other: Seq<char> },
}

impl View for ArgError {
    type V = ArgErrorData;

    open spec fn view(&self) -> ArgErrorData {
        match self {
            ArgError::Usage { message, exit_code } => ArgErrorData::Usage { message: message@, exit_code: *exit_code },
            ArgError::InvalidValue { arg, value } => ArgErrorData::InvalidValue { arg: arg@, value: value@ },
            ArgError::Conflict { arg, other } => ArgErrorData::Conflict { arg: arg@, other: other@ },
        }
    }
}

/// The message shown for an argument error
pub open spec fn arg_error_message(e: ArgErrorData) -> Seq<char> {
    match e {
        ArgErrorData::Usage { message, .. } => message,
        ArgErrorData::InvalidValue { arg, value } => "invalid value '"@ + value + "' for '--"@ + arg + "'"@,
        ArgErrorData::Conflict { arg, other } => "the argument '--"@ + arg + "' cannot be used with '--"@ + other
            + "'"@,
    }
}

impl ArgError {
    /// The message to show
    pub fn message(&self) -> (m: String)
        ensures
            m@ == arg_error_message(self@),
    {
        match self {
            ArgError::Usage { message, .. } => message.clone(),
            ArgError::InvalidValue { arg, value } => {
                let mut m = String::from_str("invalid value '");
                m.append(value.as_str());
                m.append("' for '--");
                m.append(arg.as_str());
                m.append("'");
                m
            },
            ArgError::Conflict { arg, other } => {
                let mut m = String::from_str("the argument '--");
                m.append(arg.as_str());
                m.append("' cannot be used with '--");
                m.append(other.as_str());
                m.append("'");
                m
            },
        }
    }

    /// The exit code of the program: that of clap for a usage error or
    /// help, else 2
    pub fn exit_code(&self) -> (c: i32)
        ensures
            c == (match self@ {
                ArgErrorData::Usage { exit_code, .. } => exit_code,
                _ => 2,
            }),
    {
        match self {
            ArgError::Usage { exit_code, .. } => *exit_code,
            _ => 2,
        }
    }
}

/// The program name clap parses the command line for
pub open spec fn cli_name() -> Seq<char> {
    "r-lancli"@
}

/// What the scanner's `--help` says it is
pub open spec fn cli_about() -> Seq<char> {
    "CLI for LAN Network ARP and SYN scanning"@
}

/// The arguments of the scanner: targets (`-t`) and ports (`-p`) split at
/// commas, the flags `--json`, `-q`/`--quiet`, `--arp-only`, `--vendor`,
/// `--host-names` and `--debug`, and the values `--idle-timeout-ms`,
/// `-i`/`--interface`, `--source-port`, `--throttle` and
/// `--from-arp-json`, in the order of `Args`
pub open spec fn cli_arg_specs() -> Seq<ArgSpecData> {
    seq![
        ArgSpecData { id: "targets"@, long: "targets"@, short: Some('t'), kind: ArgKind::List, delimiter: Some(','), help: "Comma separated list of IPs, IP ranges, and CIDR blocks to scan"@ },
        ArgSpecData { id: "ports"@, long: "ports"@, short: Some('p'), kind: ArgKind::List, delimiter: Some(','), help: "Comma separated list of ports and port ranges to scan"@ },
        ArgSpecData { id: "json"@, long: "json"@, short: None, kind: ArgKind::Flag, delimiter: None, help: "Output final report in json instead of table text"@ },
        ArgSpecData { id: "quiet"@, long: "quiet"@, short: Some('q'), kind: ArgKind::Flag, delimiter: None, help: "Only print final output nothing else"@ },
        ArgSpecData { id: "arp_only"@, long: "arp-only"@, short: None, kind: ArgKind::Flag, delimiter: None, help: "Perform only an ARP scan (omits SYN scanning)"@ },
        ArgSpecData { id: "vendor"@, long: "vendor"@, short: None, kind: ArgKind::Flag, delimiter: None, help: "Perform vendor lookups"@ },
        ArgSpecData { id: "host_names"@, long: "host-names"@, short: None, kind: ArgKind::Flag, delimiter: None, help: "Perform reverse dns lookups"@ },
        ArgSpecData { id: "idle_timeout_ms"@, long: "idle-timeout-ms"@, short: None, kind: ArgKind::Value, delimiter: None, help: "Set idle timeout in milliseconds for all scanners"@ },
        ArgSpecData { id: "interface"@, long: "interface"@, short: Some('i'), kind: ArgKind::Value, delimiter: None, help: "Choose a specific network interface for the scan"@ },
        ArgSpecData { id: "source_port"@, long: "source-port"@, short: None, kind: ArgKind::Value, delimiter: None, help: "Sets the port for outgoing / incoming packets"@ },
        ArgSpecData { id: "throttle"@, long: "throttle"@, short: None, kind: ArgKind::Value, delimiter: None, help: "Packet send throttle. Increasing throttle duration will result in more accurate scans and latency calculations at the expense of slower scans"@ },
        ArgSpecData { id: "from_arp_json"@, long: "from-arp-json"@, short: None, kind: ArgKind::Value, delimiter: None, help: "Skips ARP scanning and instead uses json output from a previous arp scan to seed the list of devices for port scanning"@ },
        ArgSpecData { id: "debug"@, long: "debug"@, short: None, kind: ArgKind::Flag, delimiter: None, help: "Prints debug logs, the library's included"@ },
    ]
}

proof fn lemma_cli_specs_ok()
    ensures
        clap_command_ok(cli_arg_specs()),
{
    reveal_strlit("help");
    reveal_strlit("targets");
    reveal_strlit("ports");
    reveal_strlit("json");
    reveal_strlit("quiet");
    reveal_strlit("arp_only");
    reveal_strlit("arp-only");
    reveal_strlit("vendor");
    reveal_strlit("host_names");
    reveal_strlit("host-names");
    reveal_strlit("idle_timeout_ms");
    reveal_strlit("idle-timeout-ms");
    reveal_strlit("interface");
    reveal_strlit("source_port");
    reveal_strlit("source-port");
    reveal_strlit("throttle");
    reveal_strlit("from_arp_json");
    reveal_strlit("from-arp-json");
    reveal_strlit("debug");
    assert("help"@[0] == 'h');
    assert("targets"@[0] == 't');
    assert("ports"@[0] == 'p');
    assert("json"@[0] == 'j');
    assert("quiet"@[0] == 'q');
    assert("arp_only"@[0] == 'a');
    assert("arp-only"@[0] == 'a');
    assert("vendor"@[0] == 'v');
    assert("host_names"@[0] == 'h');
    assert("host-names"@[0] == 'h');
    assert("idle_timeout_ms"@[0] == 'i');
    assert("idle-timeout-ms"@[0] == 'i');
    assert("interface"@[0] == 'i');
    assert("source_port"@[0] == 's');
    assert("source-port"@[0] == 's');
    assert("throttle"@[0] == 't');
    assert("from_arp_json"@[0] == 'f');
    assert("from-arp-json"@[0] == 'f');
    assert("debug"@[0] == 'd');
    let s = cli_arg_specs();
    assert(s[0].id == "targets"@ && s[0].long == "targets"@);
    assert(s[1].id == "ports"@ && s[1].long == "ports"@);
    assert(s[2].id == "json"@ && s[2].long == "json"@);
    assert(s[3].id == "quiet"@ && s[3].long == "quiet"@);
    assert(s[4].id == "arp_only"@ && s[4].long == "arp-only"@);
    assert(s[5].id == "vendor"@ && s[5].long == "vendor"@);
    assert(s[6].id == "host_names"@ && s[6].long == "host-names"@);
    assert(s[7].id == "idle_timeout_ms"@ && s[7].long == "idle-timeout-ms"@);
    assert(s[8].id == "interface"@ && s[8].long == "interface"@);
    assert(s[9].id == "source_port"@ && s[9].long == "source-port"@);
    assert(s[10].id == "throttle"@ && s[10].long == "throttle"@);
    assert(s[11].id == "from_arp_json"@ && s[11].long == "from-arp-json"@);
    assert(s[12].id == "debug"@ && s[12].long == "debug"@);
    assert forall|i: int, j: int| 0 <= i < j < s.len() implies s[i].id != s[j].id && s[i].long != s[j].long && (
        s[i].short is Some ==> s[i].short != s[j].short) by {
        assert(i == 0 || i == 1 || i == 2 || i == 3 || i == 4 || i == 5 || i == 6 || i == 7 || i == 8 || i == 9 || i == 10 || i == 11 || i == 12);
        assert(j == 0 || j == 1 || j == 2 || j == 3 || j == 4 || j == 5 || j == 6 || j == 7 || j == 8 || j == 9 || j == 10 || j == 11 || j == 12);
    }
    assert forall|i: int| 0 <= i < s.len() implies s[i].id != "help"@ && s[i].long != "help"@ && s[i].short != Some(
        'h',
    ) && s[i].short != Some('-') && s[i].long.len() > 0 && s[i].long[0] != '-' by {
        assert(i == 0 || i == 1 || i == 2 || i == 3 || i == 4 || i == 5 || i == 6 || i == 7 || i == 8 || i == 9 || i == 10 || i == 11 || i == 12);
    }
}

/// The arguments of the scanner, in the order of `cli_arg_specs`
fn cli_args() -> (v: Vec<ArgSpec>)
    ensures
        arg_spec_views(v@) == cli_arg_specs(),
        clap_command_ok(cli_arg_specs()),
{
    proof {
        lemma_cli_specs_ok();
    }
    let v = vec![
        ArgSpec { id: "targets", long: "targets", short: Some('t'), kind: ArgKind::List, delimiter: Some(','), help: "Comma separated list of IPs, IP ranges, and CIDR blocks to scan" },
        ArgSpec { id: "ports", long: "ports", short: Some('p'), kind: ArgKind::List, delimiter: Some(','), help: "Comma separated list of ports and port ranges to scan" },
        ArgSpec { id: "json", long: "json", short: None, kind: ArgKind::Flag, delimiter: None, help: "Output final report in json instead of table text" },
        ArgSpec { id: "quiet", long: "quiet", short: Some('q'), kind: ArgKind::Flag, delimiter: None, help: "Only print final output nothing else" },
        ArgSpec { id: "arp_only", long: "arp-only", short: None, kind: ArgKind::Flag, delimiter: None, help: "Perform only an ARP scan (omits SYN scanning)" },
        ArgSpec { id: "vendor", long: "vendor", short: None, kind: ArgKind::Flag, delimiter: None, help: "Perform vendor lookups" },
        ArgSpec { id: "host_names", long: "host-names", short: None, kind: ArgKind::Flag, delimiter: None, help: "Perform reverse dns lookups" },
        ArgSpec { id: "idle_timeout_ms", long: "idle-timeout-ms", short: None, kind: ArgKind::Value, delimiter: None, help: "Set idle timeout in milliseconds for all scanners" },
        ArgSpec { id: "interface", long: "interface", short: Some('i'), kind: ArgKind::Value, delimiter: None, help: "Choose a specific network interface for the scan" },
        ArgSpec { id: "source_port", long: "source-port", short: None, kind: ArgKind::Value, delimiter: None, help: "Sets the port for outgoing / incoming packets" },
        ArgSpec { id: "throttle", long: "throttle", short: None, kind: ArgKind::Value, delimiter: None, help: "Packet send throttle. Increasing throttle duration will result in more accurate scans and latency calculations at the expense of slower scans" },
        ArgSpec { id: "from_arp_json", long: "from-arp-json", short: None, kind: ArgKind::Value, delimiter: None, help: "Skips ARP scanning and instead uses json output from a previous arp scan to seed the list of devices for port scanning" },
        ArgSpec { id: "debug", long: "debug", short: None, kind: ArgKind::Flag, delimiter: None, help: "Prints debug logs, the library's included" },
    ];
    assert(arg_spec_views(v@) =~= cli_arg_specs());
    v
}

/// The arguments of a scan
pub struct Args {
    /// IPs, IP ranges and CIDR blocks to scan
    pub targets: Vec<String>,
    /// Ports and port ranges to scan
    pub ports: Vec<String>,
    /// Print the final report as json instead of a table
    pub json: bool,
    /// Print the final report and nothing else
    pub quiet: bool,
    /// Perform only an ARP scan
    pub arp_only: bool,
    /// Look up vendors
    pub vendor: bool,
    /// Look up host names
    pub host_names: bool,
    /// Idle timeout of the scanners, in milliseconds
    pub idle_timeout_ms: u16,
    /// The network interface to scan on
    pub interface: Option<String>,
    /// The port of outgoing and incoming packets; where it is not given
    /// the caller picks an available one
    pub source_port: Option<u16>,
    /// Pause between two packets sent, in nanoseconds
    pub throttle_nanos: u128,
    /// Json report of an earlier ARP scan to take the devices from in
    /// place of an ARP scan
    pub from_arp_json: Option<String>,
    /// Print debug logs
    pub debug: bool,
}

/// The plain contents of the arguments of a scan
pub struct ArgsData {
    pub targets: Seq<Seq<char>>,
    pub ports: Seq<Seq<char>>,
    pub json: bool,
    pub quiet: bool,
    pub arp_only: bool,
    pub vendor: bool,
    pub host_names: bool,
    pub idle_timeout_ms: u16,
    pub interface: Option<Seq<char>>,
    pub source_port: Option<u16>,
    pub throttle_nanos: u128,
    pub from_arp_json: Option<Seq<char>>,
    pub debug: bool,
}

/// The plain contents of an optional text
pub open spec fn opt_text(t: Option<String>) -> Option<Seq<char>> {
    match t {
        Some(s) => Some(s@),
        None => None,
    }
}

impl View for Args {
    type V = ArgsData;

    open spec fn view(&self) -> ArgsData {
        ArgsData {
            targets: text_views(self.targets@),
            ports: text_views(self.ports@),
            json: self.json,
            quiet: self.quiet,
            arp_only: self.arp_only,
            vendor: self.vendor,
            host_names: self.host_names,
            idle_timeout_ms: self.idle_timeout_ms,
            interface: opt_text(self.interface),
            source_port: self.source_port,
            throttle_nanos: self.throttle_nanos,
            from_arp_json: opt_text(self.from_arp_json),
            debug: self.debug,
        }
    }
}

/// The plain contents of a parse result
pub open spec fn args_result_view(r: Result<Args, ArgError>) -> Result<ArgsData, ArgErrorData> {
    match r {
        Ok(a) => Ok(a@),
        Err(e) => Err(e@),
    }
}

/// The ports scanned by default: all of them
pub open spec fn default_ports() -> Seq<Seq<char>> {
    seq!["1-65535"@]
}

/// The throttle by default
pub open spec fn default_throttle() -> Seq<char> {
    "200µs"@
}

/// The text the throttle is read from: the value given, else the default
pub open spec fn throttle_text(v: Seq<Option<Seq<Seq<char>>>>) -> Seq<char> {
    match single(v[10]) {
        Some(t) => t,
        None => default_throttle(),
    }
}

/// A one-value argument read as a `u16`: none where it was not given, an
/// invalid value where it is no `u16`
pub open spec fn u16_arg(m: Option<Seq<Seq<char>>>, long: Seq<char>) -> Result<Option<u16>, ArgErrorData> {
    match single(m) {
        None => Ok(None),
        Some(t) => match spec_parse_u16(t) {
            Ok(n) => Ok(Some(n)),
            Err(_) => Err(ArgErrorData::InvalidValue { arg: long, value: t }),
        },
    }
}

/// The arguments of a scan from what the command line gave for each of
/// `cli_arg_specs` and the throttle read from `throttle_text` (in
/// nanoseconds, none where it is no duration). Defaults: no targets, all
/// ports, an idle timeout of 10000 ms, a throttle of 200µs. The idle
/// timeout and source port must be `u16`s, the throttle a duration, and
/// `--from-arp-json` comes neither with `--arp-only` nor with `--targets`,
/// checked in that order.
pub open spec fn args_from(v: Seq<Option<Seq<Seq<char>>>>, throttle: Option<u128>) -> Result<ArgsData, ArgErrorData> {
    match u16_arg(v[7], "idle-timeout-ms"@) {
        Err(e) => Err(e),
        Ok(idle) => match u16_arg(v[9], "source-port"@) {
            Err(e) => Err(e),
            Ok(source_port) => match throttle {
                None => Err(ArgErrorData::InvalidValue { arg: "throttle"@, value: throttle_text(v) }),
                Some(nanos) => if single(v[11]) is Some && flag_given(v[4]) {
                    Err(ArgErrorData::Conflict { arg: "from-arp-json"@, other: "arp-only"@ })
                } else if single(v[11]) is Some && v[0] is Some {
                    Err(ArgErrorData::Conflict { arg: "from-arp-json"@, other: "targets"@ })
                } else {
                    Ok(
                        ArgsData {
                            targets: list_or(v[0], Seq::empty()),
                            ports: list_or(v[1], default_ports()),
                            json: flag_given(v[2]),
                            quiet: flag_given(v[3]),
                            arp_only: flag_given(v[4]),
                            vendor: flag_given(v[5]),
                            host_names: flag_given(v[6]),
                            idle_timeout_ms: match idle {
                                Some(n) => n,
                                None => crate::scanners::IDLE_TIMEOUT,
                            },
                            interface: single(v[8]),
                            source_port,
                            throttle_nanos: nanos,
                            from_arp_json: single(v[11]),
                            debug: flag_given(v[12]),
                        },
                    )
                },
            },
        },
    }
}

/// Reads a one-value argument as a `u16`
fn u16_value(m: &Option<Vec<String>>, long: &str) -> (r: Result<Option<u16>, ArgError>)
    ensures
        match r {
            Ok(n) => u16_arg(matched_views(seq![*m])[0], long@) == Ok::<Option<u16>, ArgErrorData>(n),
            Err(e) => u16_arg(matched_views(seq![*m])[0], long@) == Err::<Option<u16>, ArgErrorData>(e@),
        },
{
    match single_value(m) {
        None => Ok(None),
        Some(t) => match parse_u16(t.as_str()) {
            Ok(n) => Ok(Some(n)),
            Err(_) => Err(ArgError::InvalidValue { arg: long.to_owned(), value: t }),
        },
    }
}

impl Args {
    /// The text the throttle is read from
    pub fn throttle_text(values: &Vec<Option<Vec<String>>>) -> (t: String)
        requires
            values@.len() == cli_arg_specs().len(),
        ensures
            t@ == throttle_text(matched_views(values@)),
    {
        assert(matched_views(seq![values@[10]])[0] == matched_views(values@)[10]);
        match single_value(&values[10]) {
            Some(t) => t,
            None => String::from_str("200µs"),
        }
    }

    /// The arguments of a scan from what the command line gave for each
    /// argument and the throttle read, as `args_from` says
    pub fn from_matches(values: &Vec<Option<Vec<String>>>, throttle_nanos: Option<u128>) -> (r: Result<Args, ArgError>)
        requires
            values@.len() == cli_arg_specs().len(),
        ensures
            args_result_view(r) == args_from(matched_views(values@), throttle_nanos),
    {
        let ghost v = matched_views(values@);
        assert forall|i: int| 0 <= i < 13 implies matched_views(seq![values@[i]])[0] == v[i] by {}
        let idle = match u16_value(&values[7], "idle-timeout-ms") {
            Ok(n) => n,
            Err(e) => {
                return Err(e);
            },
        };
        let source_port = match u16_value(&values[9], "source-port") {
            Ok(n) => n,
            Err(e) => {
                return Err(e);
            },
        };
        let nanos = match throttle_nanos {
            Some(n) => n,
            None => {
                return Err(ArgError::InvalidValue { arg: String::from_str("throttle"), value: Args::throttle_text(values) });
            },
        };
        let from_arp_json = single_value(&values[11]);
        let arp_only = flag_value(&values[4]);
        if from_arp_json.is_some() && arp_only {
            return Err(ArgError::Conflict { arg: String::from_str("from-arp-json"), other: String::from_str("arp-only") });
        }
        if from_arp_json.is_some() && values[0].is_some() {
            return Err(ArgError::Conflict { arg: String::from_str("from-arp-json"), other: String::from_str("targets") });
        }
        let all_ports = vec![String::from_str("1-65535")];
        assert(text_views(all_ports@) =~= default_ports());
        let no_targets: Vec<String> = Vec::new();
        assert(text_views(no_targets@) =~= Seq::<Seq<char>>::empty());
        let args = Args {
            targets: list_value(&values[0], no_targets),
            ports: list_value(&values[1], all_ports),
            json: flag_value(&values[2]),
            quiet: flag_value(&values[3]),
            arp_only,
            vendor: flag_value(&values[5]),
            host_names: flag_value(&values[6]),
            idle_timeout_ms: match idle {
                Some(n) => n,
                None => crate::scanners::IDLE_TIMEOUT,
            },
            interface: single_value(&values[8]),
            source_port,
            throttle_nanos: nanos,
            from_arp_json,
            debug: flag_value(&values[12]),
        };
        Ok(args)
    }

    /// Parses a command line, the program name first: clap takes it apart
    /// (a rejection, or `--help`, is a usage error with clap's message and
    /// exit code), `read_duration` reads the throttle, and `args_from` makes the
    /// arguments
    pub fn try_parse_from(argv: &[&str]) -> (r: Result<Args, ArgError>)
        ensures
            match clap_parse_result(cli_name(), cli_about(), cli_arg_specs(), argv@.map_values(|a: &str| a@)) {
                Err((message, exit_code)) => args_result_view(r) == Err::<ArgsData, ArgErrorData>(
                    ArgErrorData::Usage { message, exit_code },
                ),
                Ok(v) => args_result_view(r) == args_from(v, read_duration(throttle_text(v))),
            },
    {
        let words = texts_of(argv);
        let specs = cli_args();
        match clap_parse("r-lancli", "CLI for LAN Network ARP and SYN scanning", &specs, &words) {
            Err((message, exit_code)) => Err(ArgError::Usage { message, exit_code }),
            Ok(values) => {
                let text = Args::throttle_text(&values);
                let nanos = read_duration_text(text.as_str());
                Args::from_matches(&values, nanos)
            },
        }
    }
}

/// The log level of a run: errors only when quiet, and for a json report
/// unless debugging (info logs would mix into the report); debug when
/// debugging; info otherwise
pub open spec fn spec_log_filter(a: ArgsData) -> LogLevel {
    if a.quiet || (a.json && !a.debug) {
        LogLevel::Error
    } else if a.debug {
        LogLevel::Debug
    } else {
        LogLevel::Info
    }
}

/// Chooses the log level for a run
pub fn log_filter(args: &Args) -> (l: LogLevel)
    ensures
        l == spec_log_filter(args@),
{
    if args.quiet || (args.json && !args.debug) {
        LogLevel::Error
    } else if args.debug {
        LogLevel::Debug
    } else {
        LogLevel::Info
    }
}

/// Whether the ARP report prints: always for an ARP-only scan; before a
/// SYN scan only as a table that is not quiet, since the SYN report
/// contains every ARP device and two json reports would not parse
pub fn should_print_arp_report(args: &Args) -> (b: bool)
    ensures
        b == (args.arp_only || !(args.quiet || args.json)),
{
    args.arp_only || !(args.quiet || args.json)
}

/// The program name of the terminal interface
pub open spec fn term_name() -> Seq<char> {
    "r-lanterm"@
}

/// What the terminal interface's `--help` says it is
pub open spec fn term_about() -> Seq<char> {
    "Terminal UI for LAN Network ARP and SYN scanning"@
}

/// The arguments of the terminal interface: `--debug`, ports (`-p`) split
/// at commas, and the values `--throttle`, `--from-arp-json` and
/// `--scan-interval`, in the order of `TermArgs`
pub open spec fn term_arg_specs() -> Seq<ArgSpecData> {
    seq![
        ArgSpecData { id: "debug"@, long: "debug"@, short: None, kind: ArgKind::Flag, delimiter: None, help: "Prints debug logs"@ },
        ArgSpecData { id: "ports"@, long: "ports"@, short: Some('p'), kind: ArgKind::List, delimiter: Some(','), help: "Comma separated list of ports and port ranges to scan"@ },
        ArgSpecData { id: "throttle"@, long: "throttle"@, short: None, kind: ArgKind::Value, delimiter: None, help: "Packet send throttle. Increasing throttle duration will result in more accurate scans and latency calculations at the expense of slower scans"@ },
        ArgSpecData { id: "from_arp_json"@, long: "from-arp-json"@, short: None, kind: ArgKind::Value, delimiter: None, help: "Skips ARP scanning and instead uses json output from a previous arp scan to seed the list of devices for port scanning"@ },
        ArgSpecData { id: "scan_interval"@, long: "scan-interval"@, short: None, kind: ArgKind::Value, delimiter: None, help: "Time to wait between network scans"@ },
    ]
}

proof fn lemma_term_specs_ok()
    ensures
        clap_command_ok(term_arg_specs()),
{
    reveal_strlit("help");
    reveal_strlit("debug");
    reveal_strlit("ports");
    reveal_strlit("throttle");
    reveal_strlit("from_arp_json");
    reveal_strlit("from-arp-json");
    reveal_strlit("scan_interval");
    reveal_strlit("scan-interval");
    assert("help"@[0] == 'h');
    assert("debug"@[0] == 'd');
    assert("ports"@[0] == 'p');
    assert("throttle"@[0] == 't');
    assert("from_arp_json"@[0] == 'f');
    assert("from-arp-json"@[0] == 'f');
    assert("scan_interval"@[0] == 's');
    assert("scan-interval"@[0] == 's');
    let s = term_arg_specs();
    assert forall|i: int, j: int| 0 <= i < j < s.len() implies s[i].id != s[j].id && s[i].long != s[j].long && (
        s[i].short is Some ==> s[i].short != s[j].short) by {
        assert(i == 0 || i == 1 || i == 2 || i == 3 || i == 4);
        assert(j == 0 || j == 1 || j == 2 || j == 3 || j == 4);
    }
    assert forall|i: int| 0 <= i < s.len() implies s[i].id != "help"@ && s[i].long != "help"@ && s[i].short != Some(
        'h',
    ) && s[i].short != Some('-') && s[i].long.len() > 0 && s[i].long[0] != '-' by {
        assert(i == 0 || i == 1 || i == 2 || i == 3 || i == 4);
    }
}

fn term_args() -> (v: Vec<ArgSpec>)
    ensures
        arg_spec_views(v@) == term_arg_specs(),
        clap_command_ok(term_arg_specs()),
{
    proof {
        lemma_term_specs_ok();
    }
    let v = vec![
        ArgSpec { id: "debug", long: "debug", short: None, kind: ArgKind::Flag, delimiter: None, help: "Prints debug logs" },
        ArgSpec { id: "ports", long: "ports", short: Some('p'), kind: ArgKind::List, delimiter: Some(','), help: "Comma separated list of ports and port ranges to scan" },
        ArgSpec { id: "throttle", long: "throttle", short: None, kind: ArgKind::Value, delimiter: None, help: "Packet send throttle. Increasing throttle duration will result in more accurate scans and latency calculations at the expense of slower scans" },
        ArgSpec { id: "from_arp_json", long: "from-arp-json", short: None, kind: ArgKind::Value, delimiter: None, help: "Skips ARP scanning and instead uses json output from a previous arp scan to seed the list of devices for port scanning" },
        ArgSpec { id: "scan_interval", long: "scan-interval", short: None, kind: ArgKind::Value, delimiter: None, help: "Time to wait between network scans" },
    ];
    assert(arg_spec_views(v@) =~= term_arg_specs());
    v
}

/// The arguments of the terminal interface; where a value is not given the
/// caller applies its default
pub struct TermArgs {
    pub debug: bool,
    /// Ports and port ranges to scan, as given
    pub ports: Vec<String>,
    /// Pause between two packets sent, in nanoseconds, where given
    pub throttle_nanos: Option<u128>,
    /// Json report of an earlier ARP scan to take the devices from
    pub from_arp_json: Option<String>,
    /// Pause between two scans, in nanoseconds, where given; never zero
    pub scan_interval_nanos: Option<u128>,
}

/// The plain contents of the terminal interface's arguments
pub struct TermArgsData {
    pub debug: bool,
    pub ports: Seq<Seq<char>>,
    pub throttle_nanos: Option<u128>,
    pub from_arp_json: Option<Seq<char>>,
    pub scan_interval_nanos: Option<u128>,
}

impl View for TermArgs {
    type V = TermArgsData;

    open spec fn view(&self) -> TermArgsData {
        TermArgsData {
            debug: self.debug,
            ports: text_views(self.ports@),
            throttle_nanos: self.throttle_nanos,
            from_arp_json: opt_text(self.from_arp_json),
            scan_interval_nanos: self.scan_interval_nanos,
        }
    }
}

/// The duration `read_duration` reads from a one-value argument where it
/// was given
pub open spec fn given_duration(m: Option<Seq<Seq<char>>>) -> Option<u128> {
    match single(m) {
        Some(t) => read_duration(t),
        None => None,
    }
}

/// A duration argument: none where it was not given; where it was, the
/// duration read (`parsed`), which must exist and, when `nonzero`, not be
/// zero
pub open spec fn duration_arg(
    m: Option<Seq<Seq<char>>>,
    parsed: Option<u128>,
    long: Seq<char>,
    nonzero: bool,
) -> Result<Option<u128>, ArgErrorData> {
    match single(m) {
        None => Ok(None),
        Some(t) => match parsed {
            Some(n) => if nonzero && n == 0 {
                Err(ArgErrorData::InvalidValue { arg: long, value: t })
            } else {
                Ok(Some(n))
            },
            None => Err(ArgErrorData::InvalidValue { arg: long, value: t }),
        },
    }
}

/// The terminal interface's arguments from what the command line gave for
/// each of `term_arg_specs` and the durations read from the throttle and
/// the scan interval: a scan interval of zero would re-scan with no pause
/// and is refused
pub open spec fn term_args_from(
    v: Seq<Option<Seq<Seq<char>>>>,
    throttle: Option<u128>,
    interval: Option<u128>,
) -> Result<TermArgsData, ArgErrorData> {
    match duration_arg(v[2], throttle, "throttle"@, false) {
        Err(e) => Err(e),
        Ok(t) => match duration_arg(v[4], interval, "scan-interval"@, true) {
            Err(e) => Err(e),
            Ok(i) => Ok(
                TermArgsData {
                    debug: flag_given(v[0]),
                    ports: list_or(v[1], Seq::empty()),
                    throttle_nanos: t,
                    from_arp_json: single(v[3]),
                    scan_interval_nanos: i,
                },
            ),
        },
    }
}

/// Reads a duration argument as `duration_arg` says
fn duration_value(m: &Option<Vec<String>>, parsed: Option<u128>, long: &str, nonzero: bool) -> (r: Result<
    Option<u128>,
    ArgError,
>)
    ensures
        match r {
            Ok(n) => duration_arg(matched_views(seq![*m])[0], parsed, long@, nonzero) == Ok::<
                Option<u128>,
                ArgErrorData,
            >(n),
            Err(e) => duration_arg(matched_views(seq![*m])[0], parsed, long@, nonzero) == Err::<
                Option<u128>,
                ArgErrorData,
            >(e@),
        },
{
    match single_value(m) {
        None => Ok(None),
        Some(t) => match parsed {
            Some(n) => {
                if nonzero && n == 0 {
                    Err(ArgError::InvalidValue { arg: long.to_owned(), value: t })
                } else {
                    Ok(Some(n))
                }
            },
            None => Err(ArgError::InvalidValue { arg: long.to_owned(), value: t }),
        },
    }
}

/// The duration read from a one-value argument where it was given
fn read_given_duration(m: &Option<Vec<String>>) -> (r: Option<u128>)
    ensures
        r == given_duration(matched_views(seq![*m])[0]),
{
    match single_value(m) {
        Some(t) => read_duration_text(t.as_str()),
        None => None,
    }
}

impl TermArgs {
    /// The terminal interface's arguments from what the command line gave
    /// and the durations read, as `term_args_from` says
    pub fn from_matches(values: &Vec<Option<Vec<String>>>, throttle: Option<u128>, interval: Option<u128>) -> (r: Result<
        TermArgs,
        ArgError,
    >)
        requires
            values@.len() == term_arg_specs().len(),
        ensures
            match r {
                Ok(a) => term_args_from(matched_views(values@), throttle, interval) == Ok::<
                    TermArgsData,
                    ArgErrorData,
                >(a@),
                Err(e) => term_args_from(matched_views(values@), throttle, interval) == Err::<
                    TermArgsData,
                    ArgErrorData,
                >(e@),
            },
    {
        let ghost v = matched_views(values@);
        assert forall|i: int| 0 <= i < 5 implies matched_views(seq![values@[i]])[0] == v[i] by {}
        let t = match duration_value(&values[2], throttle, "throttle", false) {
            Ok(t) => t,
            Err(e) => {
                return Err(e);
            },
        };
        let i = match duration_value(&values[4], interval, "scan-interval", true) {
            Ok(i) => i,
            Err(e) => {
                return Err(e);
            },
        };
        let no_ports: Vec<String> = Vec::new();
        assert(text_views(no_ports@) =~= Seq::<Seq<char>>::empty());
        Ok(
            TermArgs {
                debug: flag_value(&values[0]),
                ports: list_value(&values[1], no_ports),
                throttle_nanos: t,
                from_arp_json: single_value(&values[3]),
                scan_interval_nanos: i,
            },
        )
    }

    /// Parses a command line of the terminal interface, the program name
    /// first: clap takes it apart (a rejection, or `--help`, is a usage
    /// error with clap's message and exit code), `read_duration` reads the
    /// durations given, and `term_args_from` makes the arguments
    pub fn try_parse_from(argv: &[&str]) -> (r: Result<TermArgs, ArgError>)
        ensures
            match clap_parse_result(term_name(), term_about(), term_arg_specs(), argv@.map_values(|a: &str| a@)) {
                Err((message, exit_code)) => r matches Err(e) && e@ == (ArgErrorData::Usage { message, exit_code }),
                Ok(v) => match r {
                    Ok(a) => term_args_from(v, given_duration(v[2]), given_duration(v[4])) == Ok::<
                        TermArgsData,
                        ArgErrorData,
                    >(a@),
                    Err(e) => term_args_from(v, given_duration(v[2]), given_duration(v[4])) == Err::<
                        TermArgsData,
                        ArgErrorData,
                    >(e@),
                },
            },
    {
        let words = texts_of(argv);
        let specs = term_args();
        match clap_parse("r-lanterm", "Terminal UI for LAN Network ARP and SYN scanning", &specs, &words) {
            Err((message, exit_code)) => Err(ArgError::Usage { message, exit_code }),
            Ok(values) => {
                assert(arg_spec_views(specs@).len() == specs@.len());
                assert(values@.len() == 5);
                assert(matched_views(seq![values@[2]])[0] == matched_views(values@)[2]);
                assert(matched_views(seq![values@[4]])[0] == matched_views(values@)[4]);
                let throttle = read_given_duration(&values[2]);
                let interval = read_given_duration(&values[4]);
                TermArgs::from_matches(&values, throttle, interval)
            },
        }
    }
}

/// A json report of an earlier ARP scan replaces the ARP scan: arguments
/// that are taken never combine `--from-arp-json` with `--arp-only` or with
/// targets
pub proof fn lemma_from_arp_json_stands_alone(v: Seq<Option<Seq<Seq<char>>>>, throttle: Option<u128>)
    requires
        v.len() == cli_arg_specs().len(),
    ensures
        args_from(v, throttle) matches Ok(a) ==> (a.from_arp_json is Some ==> !a.arp_only && a.targets.len() == 0),
{
}

/// The terminal interface never takes a scan interval of zero, which would
/// re-scan with no pause
pub proof fn lemma_scan_interval_is_never_zero(
    v: Seq<Option<Seq<Seq<char>>>>,
    throttle: Option<u128>,
    interval: Option<u128>,
)
    requires
        v.len() == term_arg_specs().len(),
    ensures
        term_args_from(v, throttle, interval) matches Ok(a) ==> a.scan_interval_nanos != Some(0u128),
{
}

/// Quiet wins over everything, and a json report silences the info logs
/// unless debugging: only `--debug` without `--quiet` logs debug output
pub proof fn lemma_quiet_and_json_silence_info_logs(a: ArgsData)
    ensures
        a.quiet ==> spec_log_filter(a) == LogLevel::Error,
        a.json && !a.debug ==> spec_log_filter(a) == LogLevel::Error,
        spec_log_filter(a) == LogLevel::Debug <==> (a.debug && !a.quiet),
{
}

/// What the library reads as a duration, in nanoseconds: what humantime
/// makes of a text of at most eleven digits; a longer number is refused,
/// as humantime can panic on some of them
pub open spec fn read_duration(s: Seq<char>) -> Option<u128> {
    if digit_count(s) <= 11 {
        parsed_duration_nanos(s)
    } else {
        None
    }
}

/// Reads a duration as `read_duration` says
pub fn read_duration_text(s: &str) -> (r: Option<u128>)
    ensures
        r == read_duration(s@),
{
    let cs = crate::text::chars_of(s);
    let mut count: usize = 0;
    let mut i: usize = 0;
    while i < cs.len()
        invariant
            cs@ == s@,
            i <= cs@.len(),
            count == digit_count(s@.take(i as int)),
            count <= i,
        decreases cs@.len() - i,
    {
        assert(s@.take(i as int + 1).drop_last() =~= s@.take(i as int));
        if '0' <= cs[i] && cs[i] <= '9' {
            count = count + 1;
        }
        i = i + 1;
    }
    assert(s@.take(i as int) =~= s@);
    if count <= 11 {
        parse_duration_nanos(s)
    } else {
        None
    }
}

} // verus!

//! Error type of this library

use vstd::prelude::*;

verus! {

/// Why a decimal integer could not be parsed; the same three cases that
/// the standard library reports for unsigned integers.
#[derive(Debug, Clone, Copy, PartialEq, Eq, Structural)]
pub enum IntErrorKind {
    /// The text was empty
    Empty,
    /// The text held a character that is not a decimal digit
    InvalidDigit,
    /// The value is larger than the target type can hold
    PosOverflow,
}

/// Custom Error type for this library
#[derive(Debug, Clone)]
pub enum RLanLibError {
    /// Error coming directly off the wire
    Wire(String),
    /// Failure to send a notification message to the consumer
    NotifierSendError,
    /// Error obtaining lock on packet reader
    PacketReaderLock(String),
    /// Error obtaining lock on packet sender
    PacketSenderLock(String),
    /// Generic thread error
    ThreadError(String),
    /// Failure to receive a message from a channel
    ChannelReceive,
    /// Errors related to the OUI database
    Oui(String),
    /// Wrapping errors related to scanning
    Scan {
        /// The error message encountered
        error: String,
        /// The associated IP address being scanned
        ip: Option<String>,
        /// The associated port being scanned
        port: Option<String>,
    },
}

} // verus!

verus! {

/// The text the standard library gives for each kind of integer parse error
pub open spec fn int_error_message(kind: IntErrorKind) -> Seq<char> {
    match kind {
        IntErrorKind::Empty => "cannot parse integer from empty string"@,
        IntErrorKind::InvalidDigit => "invalid digit found in string"@,
        IntErrorKind::PosOverflow => "number too large to fit in target type"@,
    }
}

impl IntErrorKind {
    /// The message for this kind of integer parse error
    pub fn message(&self) -> (m: String)
        ensures
            m@ == int_error_message(*self),
    {
        match self {
            IntErrorKind::Empty => String::from_str("cannot parse integer from empty string"),
            IntErrorKind::InvalidDigit => String::from_str("invalid digit found in string"),
            IntErrorKind::PosOverflow => String::from_str("number too large to fit in target type"),
        }
    }
}

/// `e` is the scanning error reported for the port target `port` that
/// failed to parse with `kind`
pub open spec fn is_port_parse_error(e: RLanLibError, port: Seq<char>, kind: IntErrorKind) -> bool {
    &&& e matches RLanLibError::Scan { error, ip, port: p }
    &&& error@ == int_error_message(kind)
    &&& ip is None
    &&& p matches Some(ps)
    &&& ps@ == port
}

impl RLanLibError {
    /// Converter for integer parse errors of a port target
    pub fn from_port_parse_int_err(port: &str, kind: IntErrorKind) -> (e: Self)
        ensures
            is_port_parse_error(e, port@, kind),
    {
        RLanLibError::Scan { error: kind.message(), ip: None, port: Some(port.to_string()) }
    }
}

} // verus!

verus! {

/// Why an IP target could not be read
#[derive(Debug, Clone, Copy, PartialEq, Eq, Structural)]
pub enum IpTargetErrorKind {
    /// An address is not in dotted IPv4 notation (the standard library's parser)
    Addr,
    /// A CIDR block is not valid (the `ipnet` parser)
    Net,
}

/// The text each IP parser gives for its error
pub open spec fn ip_error_message(kind: IpTargetErrorKind) -> Seq<char> {
    match kind {
        IpTargetErrorKind::Addr => "invalid IPv4 address syntax"@,
        IpTargetErrorKind::Net => "invalid IP address syntax"@,
    }
}

/// `e` is the scanning error reported for the IP target `ip` that failed
/// to parse with `kind`
pub open spec fn is_ip_parse_error(e: RLanLibError, ip: Seq<char>, kind: IpTargetErrorKind) -> bool {
    &&& e matches RLanLibError::Scan { error, ip: i, port }
    &&& error@ == ip_error_message(kind)
    &&& port is None
    &&& i matches Some(is)
    &&& is@ == ip
}

impl RLanLibError {
    /// Converter for address parse errors of an IP target
    pub fn from_ip_parse_error(ip: &str, kind: IpTargetErrorKind) -> (e: Self)
        ensures
            is_ip_parse_error(e, ip@, kind),
    {
        let error = match kind {
            IpTargetErrorKind::Addr => String::from_str("invalid IPv4 address syntax"),
            IpTargetErrorKind::Net => String::from_str("invalid IP address syntax"),
        };
        RLanLibError::Scan { error, ip: Some(ip.to_string()), port: None }
    }
}

/// The pretty debug text (`{:#?}`) of an optional text
pub uninterp spec fn pretty_debug(s: Option<Seq<char>>) -> Seq<char>;

/// The plain contents of an optional text
pub open spec fn opt_chars(s: Option<String>) -> Option<Seq<char>> {
    match s {
        Some(t) => Some(t@),
        None => None,
    }
}

/// `format!("{:#?}", s)`: the pretty debug text of an optional text. The
/// result is `pretty_debug` of it, and `None` where there is no text; how
/// the debug form quotes and escapes a text is not stated here.
#[verifier::external_body]
fn pretty_debug_text(s: &Option<String>) -> (r: String)
    ensures
        r@ == pretty_debug(opt_chars(*s)),
        s is None ==> r@ == "None"@,
{
    format!("{:#?}", s)
}

/// The message of an error
pub open spec fn lib_error_message(e: RLanLibError) -> Seq<char> {
    match e {
        RLanLibError::Wire(m) => "wire error: "@ + m@,
        RLanLibError::NotifierSendError => "failed to send notification message: SendError { .. }"@,
        RLanLibError::PacketReaderLock(m) => "failed to get lock on packet reader: "@ + m@,
        RLanLibError::PacketSenderLock(m) => "failed to get lock on packet sender: "@ + m@,
        RLanLibError::ThreadError(m) => "thread error: "@ + m@,
        RLanLibError::ChannelReceive => "failed to receive message from channel: RecvError"@,
        RLanLibError::Oui(m) => m@,
        RLanLibError::Scan { error, ip, port } => "scanning error: "@ + error@ + " - ip: "@ + pretty_debug(
            opt_chars(ip),
        ) + ", port: "@ + pretty_debug(opt_chars(port)),
    }
}

impl RLanLibError {
    /// The message of this error, as it is displayed
    pub fn message(&self) -> (m: String)
        ensures
            m@ == lib_error_message(*self),
    {
        match self {
            RLanLibError::Wire(m) => {
                let mut r = String::from_str("wire error: ");
                r.append(m.as_str());
                r
            },
            RLanLibError::NotifierSendError => String::from_str("failed to send notification message: SendError { .. }"),
            RLanLibError::PacketReaderLock(m) => {
                let mut r = String::from_str("failed to get lock on packet reader: ");
                r.append(m.as_str());
                r
            },
            RLanLibError::PacketSenderLock(m) => {
                let mut r = String::from_str("failed to get lock on packet sender: ");
                r.append(m.as_str());
                r
            },
            RLanLibError::ThreadError(m) => {
                let mut r = String::from_str("thread error: ");
                r.append(m.as_str());
                r
            },
            RLanLibError::ChannelReceive => String::from_str("failed to receive message from channel: RecvError"),
            RLanLibError::Oui(m) => m.clone(),
            RLanLibError::Scan { error, ip, port } => {
                let mut r = String::from_str("scanning error: ");
                r.append(error.as_str());
                r.append(" - ip: ");
                r.append(pretty_debug_text(ip).as_str());
                r.append(", port: ");
                r.append(pretty_debug_text(port).as_str());
                r
            },
        }
    }
}

impl RLanLibError {
    /// The error for a thread that panicked, given the panic's message when
    /// it was a text
    pub fn from_panic_message(message: Option<&str>) -> (e: RLanLibError)
        ensures
            e matches RLanLibError::ThreadError(m) && m@ == (match message {
                Some(t) => "Thread panicked with: "@ + t@,
                None => "Thread panicked with an unknown type"@,
            }),
    {
        match message {
            Some(t) => {
                let mut m = String::from_str("Thread panicked with: ");
                m.append(t);
                RLanLibError::ThreadError(m)
            },
            None => RLanLibError::ThreadError(String::from_str("Thread panicked with an unknown type")),
        }
    }
}

} // verus!

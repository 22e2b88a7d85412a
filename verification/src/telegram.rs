//! Remote control of the core's built-in Telegram service: retained state
//! types, the outgoing action commands and their wire encoding.

use crate::le::{le_u16, le_u64, push_bytes, push_u16_le, push_u64_le};
use vstd::prelude::*;
use vstd::utf8::encode_utf8;

verus! {

/// Protocol command version written into every command header.
pub const CURRENT_PROTO_CMD_VER: u16 = 4;

/// Largest UTF-8 byte length of one wire string.
pub const MAX_WIRE_TEXT_BYTES: usize = 65535;

/// Full core snapshot. Missing optional fields are unavailable, not unchanged.
///
/// The account and active proxy are shared by MoonBot processes on the core's
/// machine. `enabled` and saved proxy settings belong to this particular core.
#[derive(Clone, Default)]
pub struct TelegramState {
    pub enabled: bool,
    /// Saved proxy kind: 0 = none, 1 = SOCKS5, 2 = MTProto.
    pub proxy_type: Option<u8>,
    pub proxy_host: Option<String>,
    pub proxy_port: Option<u16>,
    pub proxy_user: Option<String>,
    /// The core never returns the saved password or MTProto secret.
    pub proxy_password_set: bool,
    /// Core-to-service status, such as starting, connecting, disabled or offline.
    pub client_state: Option<String>,
    /// Pipe connection to the service, not a connection to Telegram itself.
    pub service_online: bool,
    /// The service supports recoverable remote login state.
    pub state_supported: bool,
    pub service_version: Option<String>,
    pub setup_error: Option<String>,
    /// Failure to reset an unfinished login or the local account state.
    pub client_error: Option<String>,
    /// Absent when disabled or disconnected from the service.
    pub service: Option<TelegramServiceState>,
}

/// Current TDLib state. State names remain strings so newer service states survive.
#[derive(Clone, Default)]
pub struct TelegramServiceState {
    /// Only `ready` means authenticated.
    pub auth_state: String,
    /// Replaced with each snapshot; belongs only to the current auth step.
    pub details: TelegramAuthDetails,
    /// Telegram network status, independent of authentication.
    pub connection: String,
    /// Actual account phone after login, including QR login.
    pub phone: Option<String>,
    pub error: Option<TelegramError>,
    /// Actually enabled service proxy; may differ from this core's saved settings.
    pub proxy: Option<TelegramActiveProxy>,
    pub proxy_error: Option<TelegramError>,
}

/// Step-specific input hints. Absent fields must not be carried over from old steps.
#[derive(Clone, Default)]
pub struct TelegramAuthDetails {
    /// Encode the entire `tg://login?token=...` string as QR; never log it.
    pub qr_link: Option<String>,
    pub phone: Option<String>,
    pub code_type: Option<TelegramCodeType>,
    pub next_code_type: Option<TelegramCodeType>,
    /// Unix seconds UTC; phone-code resend also needs `next_code_type`.
    pub resend_at: Option<i64>,
    pub password_hint: Option<String>,
    pub recovery_email_pattern: Option<String>,
    pub email_pattern: Option<String>,
    pub code_length: Option<i32>,
    pub terms: Option<String>,
    pub min_user_age: Option<i32>,
    pub show_popup: bool,
    pub support_email: Option<String>,
    pub support_subject: Option<String>,
}

/// Delivery method for the current or next login code.
#[derive(Debug, Clone, Default)]
pub struct TelegramCodeType {
    /// telegram, sms, sms_word, sms_phrase, call, flash_call, missed_call,
    /// fragment or unsupported. Preserve unknown kinds in UI fallback handling.
    pub kind: String,
    pub length: Option<i32>,
    pub first_letter: Option<String>,
    pub first_word: Option<String>,
    pub pattern: Option<String>,
    pub prefix: Option<String>,
    pub url: Option<String>,
}

/// A service error to display next to the current step or proxy settings.
#[derive(Debug, Clone, Default)]
pub struct TelegramError {
    pub code: i32,
    pub message: String,
}

/// The proxy that the service actually uses.
#[derive(Debug, Clone, Default)]
pub struct TelegramActiveProxy {
    /// none, socks5, mtproto or other.
    pub mode: String,
    pub host: Option<String>,
    pub port: Option<u16>,
}

/// Explicit choice of login method. Choosing Phone cancels an unfinished login.
#[derive(Debug, Clone, Copy, PartialEq, Eq, Structural)]
pub enum TelegramLoginMode {
    Phone,
    Qr,
}

/// Complete saved proxy configuration, not a partial update.
pub enum TelegramProxy {
    /// No proxy.
    Disabled,
    Socks5 { host: String, port: u16, user: String, password: String },
    MtProto { host: String, port: u16, secret: String },
}

impl TelegramProxy {
    /// Debug text that names the proxy kind and never shows its host or secrets.
    pub fn redacted(&self) -> (r: &'static str)
        ensures
            r@ == match self {
                TelegramProxy::Disabled => "None"@,
                TelegramProxy::Socks5 { .. } => "Socks5 { .. }"@,
                TelegramProxy::MtProto { .. } => "MtProto { .. }"@,
            },
    {
        match self {
            TelegramProxy::Disabled => "None",
            TelegramProxy::Socks5 { .. } => "Socks5 { .. }",
            TelegramProxy::MtProto { .. } => "MtProto { .. }",
        }
    }
}

/// One user request to the core's Telegram service.
pub enum TelegramAction {
    Refresh,
    SetEnabled(bool),
    SetProxy(TelegramProxy),
    SetLoginMode(TelegramLoginMode),
    SetPhone(String),
    SetCode(String),
    SetPassword(String),
    SetEmail(String),
    SetEmailCode(String),
    Register { first_name: String, last_name: String },
    ResendCode,
    Logout,
}

/// Wire string: `u16` UTF-8 byte length, then the UTF-8 bytes.
pub open spec fn wire_string(s: Seq<char>) -> Seq<u8> {
    le_u16(encode_utf8(s).len() as u16) + encode_utf8(s)
}

/// Whether a text fits one wire string without truncation.
pub open spec fn fits_wire(s: Seq<char>) -> bool {
    encode_utf8(s).len() <= 65535
}

/// Header of every UI command: id, command version, request uid.
pub open spec fn command_header(id: u8, uid: u64) -> Seq<u8> {
    seq![id] + le_u16(4) + le_u64(uid)
}

/// Command id of each action.
pub open spec fn action_id(a: TelegramAction) -> u8 {
    match a {
        TelegramAction::Refresh => 37,
        TelegramAction::SetEnabled(_) => 38,
        TelegramAction::SetProxy(_) => 39,
        TelegramAction::SetLoginMode(_) => 40,
        TelegramAction::SetPhone(_) => 41,
        TelegramAction::SetCode(_) => 42,
        TelegramAction::SetPassword(_) => 43,
        TelegramAction::SetEmail(_) => 44,
        TelegramAction::SetEmailCode(_) => 45,
        TelegramAction::Register { .. } => 46,
        TelegramAction::ResendCode => 47,
        TelegramAction::Logout => 48,
    }
}

/// The free-text fields of an action that must fit a wire string.
pub open spec fn action_texts(a: TelegramAction) -> Seq<Seq<char>> {
    match a {
        TelegramAction::SetProxy(TelegramProxy::Socks5 { host, user, password, .. }) => seq![
            host@,
            user@,
            password@,
        ],
        TelegramAction::SetProxy(TelegramProxy::MtProto { host, secret, .. }) => seq![
            host@,
            secret@,
        ],
        TelegramAction::SetPhone(s) => seq![s@],
        TelegramAction::SetCode(s) => seq![s@],
        TelegramAction::SetPassword(s) => seq![s@],
        TelegramAction::SetEmail(s) => seq![s@],
        TelegramAction::SetEmailCode(s) => seq![s@],
        TelegramAction::Register { first_name, last_name } => seq![first_name@, last_name@],
        _ => Seq::empty(),
    }
}

/// Whether every text of an action fits a wire string.
pub open spec fn action_valid(a: TelegramAction) -> bool {
    forall|i: int| 0 <= i < action_texts(a).len() ==> fits_wire(#[trigger] action_texts(a)[i])
}

/// Proxy fields on the wire: kind, host, port, user, password.
pub open spec fn proxy_body(p: TelegramProxy) -> Seq<u8> {
    match p {
        TelegramProxy::Disabled => seq![0u8] + wire_string(Seq::empty()) + le_u16(0) + wire_string(
            Seq::empty(),
        ) + wire_string(Seq::empty()),
        TelegramProxy::Socks5 { host, port, user, password } => seq![1u8] + wire_string(host@)
            + le_u16(port) + wire_string(user@) + wire_string(password@),
        TelegramProxy::MtProto { host, port, secret } => seq![2u8] + wire_string(host@) + le_u16(
            port,
        ) + wire_string(Seq::empty()) + wire_string(secret@),
    }
}

/// Bytes that follow the header of each action.
pub open spec fn action_body(a: TelegramAction) -> Seq<u8> {
    match a {
        TelegramAction::Refresh => Seq::empty(),
        TelegramAction::ResendCode => Seq::empty(),
        TelegramAction::Logout => Seq::empty(),
        TelegramAction::SetEnabled(v) => seq![if v { 1u8 } else { 0u8 }],
        TelegramAction::SetLoginMode(m) => seq![if m == TelegramLoginMode::Qr { 1u8 } else { 0u8 }],
        TelegramAction::SetPhone(s) => wire_string(s@),
        TelegramAction::SetCode(s) => wire_string(s@),
        TelegramAction::SetPassword(s) => wire_string(s@),
        TelegramAction::SetEmail(s) => wire_string(s@),
        TelegramAction::SetEmailCode(s) => wire_string(s@),
        TelegramAction::Register { first_name, last_name } => wire_string(first_name@)
            + wire_string(last_name@),
        TelegramAction::SetProxy(p) => proxy_body(p),
    }
}

/// Write the common command header.
pub fn write_header(out: &mut Vec<u8>, id: u8, uid: u64)
    ensures
        final(out)@ == old(out)@ + command_header(id, uid),
{
    out.push(id);
    push_u16_le(out, CURRENT_PROTO_CMD_VER);
    push_u64_le(out, uid);
    assert(final(out)@ =~= old(out)@ + command_header(id, uid));
}

/// Write a wire string.
pub fn write_string(out: &mut Vec<u8>, s: &str)
    requires
        fits_wire(s@),
    ensures
        final(out)@ == old(out)@ + wire_string(s@),
{
    let bytes = s.as_bytes();
    push_u16_le(out, bytes.len() as u16);
    push_bytes(out, bytes);
    assert(final(out)@ =~= old(out)@ + wire_string(s@));
}

/// Whether a text's UTF-8 form exceeds a wire string.
fn text_too_long(s: &str) -> (r: bool)
    ensures
        r == !fits_wire(s@),
{
    s.as_bytes().len() > MAX_WIRE_TEXT_BYTES
}

impl TelegramAction {
    /// Command id of this action.
    pub fn id(&self) -> (r: u8)
        ensures
            r == action_id(*self),
    {
        match self {
            TelegramAction::Refresh => 37,
            TelegramAction::SetEnabled(_) => 38,
            TelegramAction::SetProxy(_) => 39,
            TelegramAction::SetLoginMode(_) => 40,
            TelegramAction::SetPhone(_) => 41,
            TelegramAction::SetCode(_) => 42,
            TelegramAction::SetPassword(_) => 43,
            TelegramAction::SetEmail(_) => 44,
            TelegramAction::SetEmailCode(_) => 45,
            TelegramAction::Register { .. } => 46,
            TelegramAction::ResendCode => 47,
            TelegramAction::Logout => 48,
        }
    }

    /// Refuse an action whose text would be truncated on the wire.
    pub fn validate(&self) -> (r: Result<(), &'static str>)
        ensures
            r is Ok <==> action_valid(*self),
            r matches Err(e) ==> e@ == "Telegram text exceeds 65535 UTF-8 bytes"@,
    {
        let too_long = match self {
            TelegramAction::SetProxy(TelegramProxy::Socks5 { host, user, password, .. }) => {
                text_too_long(host.as_str()) || text_too_long(user.as_str()) || text_too_long(
                    password.as_str(),
                )
            },
            TelegramAction::SetProxy(TelegramProxy::MtProto { host, secret, .. }) => {
                text_too_long(host.as_str()) || text_too_long(secret.as_str())
            },
            TelegramAction::SetPhone(s) => text_too_long(s.as_str()),
            TelegramAction::SetCode(s) => text_too_long(s.as_str()),
            TelegramAction::SetPassword(s) => text_too_long(s.as_str()),
            TelegramAction::SetEmail(s) => text_too_long(s.as_str()),
            TelegramAction::SetEmailCode(s) => text_too_long(s.as_str()),
            TelegramAction::Register { first_name, last_name } => {
                text_too_long(first_name.as_str()) || text_too_long(last_name.as_str())
            },
            _ => false,
        };
        proof {
            let t = action_texts(*self);
            if !too_long {
                assert forall|i: int| 0 <= i < t.len() implies fits_wire(#[trigger] t[i]) by {}
            } else {
                assert(exists|i: int| 0 <= i < t.len() && !fits_wire(#[trigger] t[i])) by {
                    if !fits_wire(t[0]) {
                    } else if !fits_wire(t[1]) {
                    } else {
                        assert(!fits_wire(t[2]));
                    }
                }
            }
        }
        if too_long {
            return Err("Telegram text exceeds 65535 UTF-8 bytes");
        }
        Ok(())
    }

    /// Encode this action as a UI command with request uid `uid`.
    pub fn build(&self, uid: u64) -> (out: Vec<u8>)
        requires
            action_valid(*self),
        ensures
            out@ == command_header(action_id(*self), uid) + action_body(*self),
    {
        let mut out = Vec::new();
        write_header(&mut out, self.id(), uid);
        proof {
            reveal_strlit("");
        }
        let ghost t = action_texts(*self);
        match self {
            TelegramAction::Refresh | TelegramAction::ResendCode | TelegramAction::Logout => {},
            TelegramAction::SetEnabled(value) => out.push(if *value { 1u8 } else { 0u8 }),
            TelegramAction::SetLoginMode(mode) => {
                let qr = match mode {
                    TelegramLoginMode::Qr => true,
                    TelegramLoginMode::Phone => false,
                };
                out.push(if qr { 1u8 } else { 0u8 })
            },
            TelegramAction::SetPhone(s) | TelegramAction::SetCode(s) | TelegramAction::SetPassword(
                s,
            ) | TelegramAction::SetEmail(s) | TelegramAction::SetEmailCode(s) => {
                assert(fits_wire(t[0]));
                write_string(&mut out, s.as_str())
            },
            TelegramAction::Register { first_name, last_name } => {
                assert(fits_wire(t[0]) && fits_wire(t[1]));
                write_string(&mut out, first_name.as_str());
                write_string(&mut out, last_name.as_str());
            },
            TelegramAction::SetProxy(proxy) => {
                match proxy {
                    TelegramProxy::Disabled => {
                        out.push(0u8);
                        write_string(&mut out, "");
                        push_u16_le(&mut out, 0);
                        write_string(&mut out, "");
                        write_string(&mut out, "");
                    },
                    TelegramProxy::Socks5 { host, port, user, password } => {
                        assert(fits_wire(t[0]) && fits_wire(t[1]) && fits_wire(t[2]));
                        out.push(1u8);
                        write_string(&mut out, host.as_str());
                        push_u16_le(&mut out, *port);
                        write_string(&mut out, user.as_str());
                        write_string(&mut out, password.as_str());
                    },
                    TelegramProxy::MtProto { host, port, secret } => {
                        assert(fits_wire(t[0]) && fits_wire(t[1]));
                        out.push(2u8);
                        write_string(&mut out, host.as_str());
                        push_u16_le(&mut out, *port);
                        write_string(&mut out, "");
                        write_string(&mut out, secret.as_str());
                    },
                }
            },
        }
        proof {
            assert(out@ =~= command_header(action_id(*self), uid) + action_body(*self));
        }
        out
    }
}

/// Errors of client-side requests.
pub enum MoonClientError {
    /// A Telegram text would be truncated on the wire; the message never echoes it.
    InvalidTelegramInput(&'static str),
}

/// Controls the Telegram service on the core, not a local Telegram client.
///
/// Methods enqueue user intent for the runtime, which sends it; success does
/// not confirm login or proxy setup. Observe the next full state instead.
pub struct MoonTelegram {
    state: Option<TelegramState>,
    outgoing: Vec<TelegramAction>,
}

impl MoonTelegram {
    /// The queued actions, oldest first.
    pub closed spec fn queued(&self) -> Seq<TelegramAction> {
        self.outgoing@
    }

    /// The retained snapshot.
    pub closed spec fn retained(&self) -> Option<TelegramState> {
        self.state
    }

    /// A controller over a retained snapshot, with nothing queued.
    pub fn new(state: Option<TelegramState>) -> (r: Self)
        ensures
            r.retained() == state,
            r.queued() == Seq::<TelegramAction>::empty(),
    {
        MoonTelegram { state, outgoing: Vec::new() }
    }

    /// Last received full snapshot. Treat it as stale while disconnected.
    pub fn state(&self) -> (r: &Option<TelegramState>)
        ensures
            *r == self.retained(),
    {
        &self.state
    }

    /// Replace the retained snapshot with a newly received one.
    pub fn set_state(&mut self, state: Option<TelegramState>)
        ensures
            final(self).retained() == state,
            final(self).queued() == old(self).queued(),
    {
        self.state = state;
    }

    /// Hand the queued actions to the sender, oldest first, and clear the queue.
    pub fn take_outgoing(&mut self) -> (r: Vec<TelegramAction>)
        ensures
            r@ == old(self).queued(),
            final(self).queued() == Seq::<TelegramAction>::empty(),
            final(self).retained() == old(self).retained(),
    {
        let mut taken = Vec::new();
        std::mem::swap(&mut taken, &mut self.outgoing);
        taken
    }

    fn send(&mut self, action: TelegramAction) -> (r: Result<(), MoonClientError>)
        ensures
            r is Ok <==> action_valid(action),
            r is Ok ==> final(self).queued() == old(self).queued().push(action),
            r is Err ==> final(self).queued() == old(self).queued(),
            r matches Err(MoonClientError::InvalidTelegramInput(m)) ==> m@
                == "Telegram text exceeds 65535 UTF-8 bytes"@,
            final(self).retained() == old(self).retained(),
    {
        match action.validate() {
            Ok(()) => {
                self.outgoing.push(action);
                Ok(())
            },
            Err(e) => Err(MoonClientError::InvalidTelegramInput(e)),
        }
    }

    /// Request state without starting/resetting login or rotating a QR token.
    pub fn refresh(&mut self) -> (r: Result<(), MoonClientError>)
        ensures
            r is Ok,
            final(self).queued() == old(self).queued().push(TelegramAction::Refresh),
            final(self).retained() == old(self).retained(),
    {
        self.send(TelegramAction::Refresh)
    }

    /// Enable/disable this core's use of the shared service; disabling is not logout.
    pub fn set_enabled(&mut self, enabled: bool) -> (r: Result<(), MoonClientError>)
        ensures
            r is Ok,
            final(self).queued() == old(self).queued().push(TelegramAction::SetEnabled(enabled)),
            final(self).retained() == old(self).retained(),
    {
        self.send(TelegramAction::SetEnabled(enabled))
    }

    /// Save all proxy fields on the core and apply them when the service is enabled.
    /// A password/secret must be supplied again; it is never returned by the core.
    pub fn set_proxy(&mut self, proxy: TelegramProxy) -> (r: Result<(), MoonClientError>)
        ensures
            r is Ok <==> action_valid(TelegramAction::SetProxy(proxy)),
            r is Ok ==> final(self).queued() == old(self).queued().push(TelegramAction::SetProxy(proxy)),
            r is Err ==> final(self).queued() == old(self).queued(),
            r matches Err(MoonClientError::InvalidTelegramInput(m)) ==> m@
                == "Telegram text exceeds 65535 UTF-8 bytes"@,
            final(self).retained() == old(self).retained(),
    {
        self.send(TelegramAction::SetProxy(proxy))
    }

    /// QR starts only from `wait_phone`; Phone cancels an unfinished login.
    pub fn set_login_mode(&mut self, mode: TelegramLoginMode) -> (r: Result<(), MoonClientError>)
        ensures
            r is Ok,
            final(self).queued() == old(self).queued().push(TelegramAction::SetLoginMode(mode)),
            final(self).retained() == old(self).retained(),
    {
        self.send(TelegramAction::SetLoginMode(mode))
    }

    /// Submit an international phone number at `wait_phone`.
    pub fn set_phone(&mut self, phone: String) -> (r: Result<(), MoonClientError>)
        ensures
            r is Ok <==> fits_wire(phone@),
            r is Ok ==> final(self).queued() == old(self).queued().push(TelegramAction::SetPhone(phone)),
            r is Err ==> final(self).queued() == old(self).queued(),
            r matches Err(MoonClientError::InvalidTelegramInput(m)) ==> m@
                == "Telegram text exceeds 65535 UTF-8 bytes"@,
            final(self).retained() == old(self).retained(),
    {
        let action = TelegramAction::SetPhone(phone);
        proof {
            assert(action_texts(action)[0] == phone@);
        }
        self.send(action)
    }

    /// Submit the login code at `wait_code`.
    pub fn set_code(&mut self, code: String) -> (r: Result<(), MoonClientError>)
        ensures
            r is Ok <==> fits_wire(code@),
            r is Ok ==> final(self).queued() == old(self).queued().push(TelegramAction::SetCode(code)),
            r is Err ==> final(self).queued() == old(self).queued(),
            r matches Err(MoonClientError::InvalidTelegramInput(m)) ==> m@
                == "Telegram text exceeds 65535 UTF-8 bytes"@,
            final(self).retained() == old(self).retained(),
    {
        let action = TelegramAction::SetCode(code);
        proof {
            assert(action_texts(action)[0] == code@);
        }
        self.send(action)
    }

    /// Submit the two-factor password at `wait_password`.
    pub fn set_password(&mut self, password: String) -> (r: Result<(), MoonClientError>)
        ensures
            r is Ok <==> fits_wire(password@),
            r is Ok ==> final(self).queued() == old(self).queued().push(TelegramAction::SetPassword(password)),
            r is Err ==> final(self).queued() == old(self).queued(),
            r matches Err(MoonClientError::InvalidTelegramInput(m)) ==> m@
                == "Telegram text exceeds 65535 UTF-8 bytes"@,
            final(self).retained() == old(self).retained(),
    {
        let action = TelegramAction::SetPassword(password);
        proof {
            assert(action_texts(action)[0] == password@);
        }
        self.send(action)
    }

    /// Submit an email address at `wait_email_address`.
    pub fn set_email(&mut self, email: String) -> (r: Result<(), MoonClientError>)
        ensures
            r is Ok <==> fits_wire(email@),
            r is Ok ==> final(self).queued() == old(self).queued().push(TelegramAction::SetEmail(email)),
            r is Err ==> final(self).queued() == old(self).queued(),
            r matches Err(MoonClientError::InvalidTelegramInput(m)) ==> m@
                == "Telegram text exceeds 65535 UTF-8 bytes"@,
            final(self).retained() == old(self).retained(),
    {
        let action = TelegramAction::SetEmail(email);
        proof {
            assert(action_texts(action)[0] == email@);
        }
        self.send(action)
    }

    /// Submit the email verification code at `wait_email_code`.
    pub fn set_email_code(&mut self, code: String) -> (r: Result<(), MoonClientError>)
        ensures
            r is Ok <==> fits_wire(code@),
            r is Ok ==> final(self).queued() == old(self).queued().push(TelegramAction::SetEmailCode(code)),
            r is Err ==> final(self).queued() == old(self).queued(),
            r matches Err(MoonClientError::InvalidTelegramInput(m)) ==> m@
                == "Telegram text exceeds 65535 UTF-8 bytes"@,
            final(self).retained() == old(self).retained(),
    {
        let action = TelegramAction::SetEmailCode(code);
        proof {
            assert(action_texts(action)[0] == code@);
        }
        self.send(action)
    }

    /// Register at `wait_registration`, only after the user accepts the shown terms.
    pub fn register(&mut self, first_name: String, last_name: String) -> (r: Result<(), MoonClientError>)
        ensures
            r is Ok <==> fits_wire(first_name@) && fits_wire(last_name@),
            r is Ok ==> final(self).queued() == old(self).queued().push(
                TelegramAction::Register { first_name, last_name },
            ),
            r is Err ==> final(self).queued() == old(self).queued(),
            r matches Err(MoonClientError::InvalidTelegramInput(m)) ==> m@
                == "Telegram text exceeds 65535 UTF-8 bytes"@,
            final(self).retained() == old(self).retained(),
    {
        let action = TelegramAction::Register { first_name, last_name };
        proof {
            let t = action_texts(action);
            assert(t[0] == first_name@ && t[1] == last_name@);
        }
        self.send(action)
    }

    /// Request another code at `wait_code` or `wait_email_code`.
    pub fn resend_code(&mut self) -> (r: Result<(), MoonClientError>)
        ensures
            r is Ok,
            final(self).queued() == old(self).queued().push(TelegramAction::ResendCode),
            final(self).retained() == old(self).retained(),
    {
        self.send(TelegramAction::ResendCode)
    }

    /// Explicit logout and reset of shared TDLib account data on the core's machine.
    pub fn logout(&mut self) -> (r: Result<(), MoonClientError>)
        ensures
            r is Ok,
            final(self).queued() == old(self).queued().push(TelegramAction::Logout),
            final(self).retained() == old(self).retained(),
    {
        self.send(TelegramAction::Logout)
    }
}

} // verus!

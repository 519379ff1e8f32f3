//! Pairing from inside the daemon: the window in which a stranger may knock, the
//! code that is shown, and the answer.

use crate::ids::DeviceId;
use crate::ipc::UiEvent;
use crate::layout::VirtualDesktop;
use crate::message::{Capabilities, Control, ProtocolVersion};
use crate::pairing::PairingSession;
use crate::text::{chars_of, lower_all, lowered, spells, trim, trimmed};
use crate::trust::{with_device, TrustStore, TrustedDevice};
use vstd::prelude::*;

verus! {

/// How far a pairing is.
#[derive(Debug)]
pub enum PairState {
    Idle,
    /// The window is open.
    Discoverable,
    /// A peer is being dialled.
    Connecting,
    /// The code must be the same on both machines.
    Prompt { sas: String, peer: String },
    Done { ok: bool, peer: String },
    Error(String),
}

impl Clone for PairState {
    fn clone(&self) -> (s: Self)
        ensures
            s == *self,
    {
        match self {
            PairState::Idle => PairState::Idle,
            PairState::Discoverable => PairState::Discoverable,
            PairState::Connecting => PairState::Connecting,
            PairState::Prompt { sas, peer } => PairState::Prompt {
                sas: sas.clone(),
                peer: peer.clone(),
            },
            PairState::Done { ok, peer } => PairState::Done { ok: *ok, peer: peer.clone() },
            PairState::Error(e) => PairState::Error(e.clone()),
        }
    }
}

/// The pairing of a device: one at a time.
#[derive(Debug)]
pub struct Pairing {
    /// Strangers may knock.
    pub discoverable: bool,
    pub state: PairState,
    /// An answer to the prompt is awaited.
    pub prompting: bool,
    /// A handshake is under way.
    pub busy: bool,
}

impl Default for Pairing {
    fn default() -> (p: Self)
        ensures
            p == (Pairing {
                discoverable: false,
                state: PairState::Idle,
                prompting: false,
                busy: false,
            }),
    {
        Pairing { discoverable: false, state: PairState::Idle, prompting: false, busy: false }
    }
}

impl Pairing {
    /// The state after the window was opened or closed. Opening it leaves a pairing
    /// that is under way as it is.
    pub open spec fn with_window(self, on: bool) -> Pairing {
        Pairing {
            discoverable: on,
            state: match self.state {
                PairState::Idle => if on {
                    PairState::Discoverable
                } else {
                    self.state
                },
                PairState::Done { .. } => if on {
                    PairState::Discoverable
                } else {
                    self.state
                },
                PairState::Error(_) => if on {
                    PairState::Discoverable
                } else {
                    self.state
                },
                PairState::Discoverable => if on {
                    self.state
                } else {
                    PairState::Idle
                },
                _ => self.state,
            },
            ..self
        }
    }

    /// What a handshake that waits is told.
    pub open spec fn told(self, accept: bool) -> Option<bool> {
        if self.prompting {
            Some(accept)
        } else {
            None
        }
    }

    /// The state after a failure.
    pub open spec fn failed(self, msg: String) -> Pairing {
        Pairing {
            discoverable: false,
            state: PairState::Error(msg),
            prompting: false,
            busy: false,
        }
    }

    /// The state after everything was called off.
    pub open spec fn cleared(self) -> Pairing {
        Pairing { discoverable: false, state: PairState::Idle, prompting: false, busy: false }
    }

    /// The state with a handshake begun.
    pub open spec fn begun(self, initiator: bool) -> Pairing {
        Pairing {
            discoverable: false,
            state: if initiator {
                PairState::Connecting
            } else {
                PairState::Discoverable
            },
            busy: true,
            ..self
        }
    }

    /// The state after a handshake has ended.
    pub open spec fn ended(self, outcome: Result<(bool, String), String>) -> Pairing {
        Pairing {
            state: match outcome {
                Ok((ok, peer)) => PairState::Done { ok, peer },
                Err(e) => PairState::Error(e),
            },
            prompting: false,
            busy: false,
            ..self
        }
    }

    pub fn is_discoverable(&self) -> (b: bool)
        ensures
            b == self.discoverable,
    {
        self.discoverable
    }

    /// Opens or closes the window; the announcement then says so too.
    pub fn set_discoverable(&mut self, on: bool)
        ensures
            *final(self) == old(self).with_window(on),
    {
        self.discoverable = on;
        let opens = match &self.state {
            PairState::Idle | PairState::Done { .. } | PairState::Error(_) => true,
            _ => false,
        };
        let closes = match &self.state {
            PairState::Discoverable => true,
            _ => false,
        };
        if on {
            if opens {
                self.state = PairState::Discoverable;
            }
        } else if closes {
            self.state = PairState::Idle;
        }
    }

    /// What to show.
    pub fn snapshot(&self) -> (s: PairState)
        ensures
            s == self.state,
    {
        self.state.clone()
    }

    /// Ends whatever is under way with a failure.
    pub fn fail(&mut self, msg: String)
        ensures
            *final(self) == old(self).failed(msg),
    {
        self.discoverable = false;
        self.prompting = false;
        self.busy = false;
        self.state = PairState::Error(msg);
    }

    /// Takes the user's answer: what to tell the handshake, where it waits.
    pub fn respond(&mut self, accept: bool) -> (r: Option<bool>)
        ensures
            *final(self) == (Pairing { prompting: false, ..*old(self) }),
            r == old(self).told(accept),
    {
        if self.prompting {
            self.prompting = false;
            Some(accept)
        } else {
            None
        }
    }

    /// Calls everything off: a handshake that waits is told no.
    pub fn clear(&mut self) -> (r: Option<bool>)
        ensures
            *final(self) == old(self).cleared(),
            r == old(self).told(false),
    {
        let answer = if self.prompting {
            Some(false)
        } else {
            None
        };
        self.discoverable = false;
        self.prompting = false;
        self.state = PairState::Idle;
        self.busy = false;
        answer
    }

    /// Begins a handshake, unless one is under way. The window closes: one peer is
    /// enough.
    pub fn begin(&mut self, initiator: bool) -> (b: bool)
        ensures
            b == !old(self).busy,
            *final(self) == if old(self).busy {
                *old(self)
            } else {
                old(self).begun(initiator)
            },
    {
        if self.busy {
            return false;
        }
        self.busy = true;
        self.state = if initiator {
            PairState::Connecting
        } else {
            PairState::Discoverable
        };
        self.discoverable = false;
        true
    }

    /// Shows the code of a handshake, and waits for the answer.
    pub fn prompt(&mut self, ps: &PairingSession)
        ensures
            final(self).prompting,
            final(self).busy == old(self).busy,
            final(self).discoverable == old(self).discoverable,
            final(self).state matches PairState::Prompt { sas, peer } && peer@ == ps.remote_name@
                && sas@ == crate::pairing::shown(ps.sas.0 as nat),
    {
        self.state = PairState::Prompt { sas: ps.sas.display(), peer: ps.remote_name.clone() };
        self.prompting = true;
    }

    /// Ends a handshake.
    pub fn finish(&mut self, outcome: Result<(bool, String), String>)
        ensures
            *final(self) == old(self).ended(outcome),
    {
        self.busy = false;
        self.prompting = false;
        self.state = match outcome {
            Ok((ok, peer)) => PairState::Done { ok, peer },
            Err(e) => PairState::Error(e),
        };
    }
}

/// The paired devices after a handshake.
pub open spec fn concluded(
    ds: Seq<TrustedDevice>,
    ps: PairingSession,
    answer: Option<bool>,
    now_unix: u64,
    last_address: Option<String>,
) -> Seq<TrustedDevice> {
    if answer == Some(true) {
        with_device(
            ds,
            TrustedDevice {
                id: ps.remote,
                name: ps.remote_name,
                fingerprint: ps.remote_fp,
                paired_at: now_unix,
                last_address,
            },
        )
    } else {
        ds
    }
}

/// Concludes a handshake. Only the answer that the codes are the same has the peer
/// trusted; any other answer, and none in time, leaves the store as it was.
pub fn conclude(
    trust: &mut TrustStore,
    ps: &PairingSession,
    answer: Option<bool>,
    now_unix: u64,
    last_address: Option<String>,
) -> (ok: bool)
    ensures
        ok == (answer == Some(true)),
        final(trust).devices@ == concluded(old(trust).devices@, *ps, answer, now_unix, last_address),
{
    match answer {
        Some(true) => {
            trust.upsert(ps.confirm(now_unix, last_address));
            true
        },
        _ => false,
    }
}

/// The first message of a pairing: who this device is.
pub fn pairing_hello(device: DeviceId, name: &String) -> (msg: Control)
    ensures
        msg matches Control::Hello { version, device: d, name: n, monitors, capabilities } && {
            &&& version == (ProtocolVersion { major: 1, minor: 0 })
            &&& d == device
            &&& n@ == name@
            &&& monitors.monitors@.len() == 0
            &&& capabilities == (Capabilities {
                clipboard_text: true,
                clipboard_images: true,
                clipboard_files: true,
                file_transfer: true,
                audio_forward: false,
            })
        },
{
    Control::Hello {
        version: ProtocolVersion::current(),
        device,
        name: name.clone(),
        monitors: VirtualDesktop::default(),
        capabilities: Capabilities {
            clipboard_text: true,
            clipboard_images: true,
            clipboard_files: true,
            file_transfer: true,
            audio_forward: false,
        },
    }
}

/// Why a peer could not be identified.
#[derive(Clone, Copy, Debug, PartialEq, Eq, Structural)]
pub enum IdentityError {
    /// It closed the channel.
    Closed,
    /// It sent less than a message.
    ShortFrame,
    /// It sent some other message.
    Unexpected,
}

/// Reads who the peer is from what it sent first: nothing at all, a frame without
/// a message, or a message.
pub fn read_identity(frame: Option<Option<Control>>) -> (r: Result<
    (DeviceId, String),
    IdentityError,
>)
    ensures
        r == match frame {
            None => Err::<(DeviceId, String), IdentityError>(IdentityError::Closed),
            Some(None) => Err(IdentityError::ShortFrame),
            Some(Some(Control::Hello { version, device, name, monitors, capabilities })) => Ok(
                (device, name),
            ),
            Some(Some(_)) => Err(IdentityError::Unexpected),
        },
{
    match frame {
        None => Err(IdentityError::Closed),
        Some(None) => Err(IdentityError::ShortFrame),
        Some(Some(Control::Hello { device, name, .. })) => Ok((device, name)),
        Some(Some(_)) => Err(IdentityError::Unexpected),
    }
}

/// The line says yes.
pub open spec fn says_yes(line: Seq<char>) -> bool {
    let word = lower_all(trimmed(line));
    word == "y"@ || word == "yes"@
}

/// Whether a line says yes: `y` or `yes`, in either case, with any white space
/// around it.
pub fn is_yes(line: &str) -> (b: bool)
    ensures
        b == says_yes(line@),
{
    let chars = chars_of(line);
    let word = lowered(trim(chars.as_slice()));
    spells(word.as_slice(), "y") || spells(word.as_slice(), "yes")
}

/// The name of a state, the code to show and the peer, as the tray is told them.
pub open spec fn shown_as(s: PairState) -> (Seq<char>, Seq<char>, Seq<char>) {
    match s {
        PairState::Idle => ("idle"@, Seq::empty(), Seq::empty()),
        PairState::Discoverable => ("discoverable"@, Seq::empty(), Seq::empty()),
        PairState::Connecting => ("connecting"@, Seq::empty(), Seq::empty()),
        PairState::Prompt { sas, peer } => ("prompt"@, sas@, peer@),
        PairState::Done { ok, peer } => (
            if ok {
                "paired"@
            } else {
                "aborted"@
            },
            Seq::empty(),
            peer@,
        ),
        PairState::Error(e) => ("error"@, Seq::empty(), e@),
    }
}

/// The event tells the tray of this state.
pub open spec fn tells(e: UiEvent, s: PairState) -> bool {
    e matches UiEvent::Pairing { phase, sas, peer } && (phase@, sas@, peer@) == shown_as(s)
}

/// Tells the tray of a state.
pub fn pairing_event(s: PairState) -> (e: UiEvent)
    ensures
        tells(e, s),
{
    let none = String::new();
    match s {
        PairState::Idle => UiEvent::Pairing {
            phase: "idle".to_owned(),
            sas: String::new(),
            peer: none,
        },
        PairState::Discoverable => UiEvent::Pairing {
            phase: "discoverable".to_owned(),
            sas: String::new(),
            peer: none,
        },
        PairState::Connecting => UiEvent::Pairing {
            phase: "connecting".to_owned(),
            sas: String::new(),
            peer: none,
        },
        PairState::Prompt { sas, peer } => UiEvent::Pairing {
            phase: "prompt".to_owned(),
            sas,
            peer,
        },
        PairState::Done { ok, peer } => UiEvent::Pairing {
            phase: if ok {
                "paired".to_owned()
            } else {
                "aborted".to_owned()
            },
            sas: String::new(),
            peer,
        },
        PairState::Error(e) => UiEvent::Pairing {
            phase: "error".to_owned(),
            sas: String::new(),
            peer: e,
        },
    }
}

/// However a pairing ends, nothing is left waiting: the next can begin.
pub proof fn law_every_end_is_an_end(
    p: Pairing,
    msg: String,
    outcome: Result<(bool, String), String>,
)
    ensures
        !p.failed(msg).busy && !p.failed(msg).prompting,
        !p.cleared().busy && !p.cleared().prompting,
        !p.ended(outcome).busy && !p.ended(outcome).prompting,
{
}

/// While one peer is being paired, the window is closed to others.
pub proof fn law_one_peer_at_a_time(p: Pairing, initiator: bool)
    ensures
        p.begun(initiator).busy,
        !p.begun(initiator).discoverable,
{
}

/// A window that is opened and closed again leaves an idle device idle.
pub proof fn law_windows_close(p: Pairing)
    requires
        p.state is Idle,
    ensures
        p.with_window(true).state is Discoverable,
        p.with_window(true).with_window(false).state is Idle,
        !p.with_window(true).with_window(false).discoverable,
{
}

/// Only a yes has the peer trusted, and then with the certificate that the code was
/// shown for and with no other; a no, or no answer, leaves everything as it was. The
/// trust in other devices never changes.
pub proof fn law_only_a_yes_pairs(
    ds: Seq<TrustedDevice>,
    ps: PairingSession,
    answer: Option<bool>,
    now: u64,
    addr: Option<String>,
    fp: crate::trust::CertFingerprint,
    other: DeviceId,
)
    requires
        other != ps.remote,
    ensures
        ({
            let out = concluded(ds, ps, answer, now, addr);
            &&& answer != Some(true) ==> out == ds
            &&& answer == Some(true) ==> (crate::trust::trusts(out, ps.remote, fp) <==> fp
                == ps.remote_fp)
            &&& crate::trust::trusts(out, other, fp) == crate::trust::trusts(ds, other, fp)
            &&& answer == Some(true) ==> exists|i: int|
                0 <= i < out.len() && (#[trigger] out[i]).id == ps.remote && out[i].name
                    == ps.remote_name && out[i].paired_at == now && out[i].last_address == addr
        }),
{
    let device = TrustedDevice {
        id: ps.remote,
        name: ps.remote_name,
        fingerprint: ps.remote_fp,
        paired_at: now,
        last_address: addr,
    };
    crate::trust::law_upsert_pins_the_certificate(ds, device, fp, other);
    crate::trust::lemma_record_from(ds, ps.remote, 0);
    let out = with_device(ds, device);
    match crate::trust::record(ds, ps.remote) {
        Some(i) => {
            assert(out[i] == device);
        },
        None => {
            assert(out[ds.len() as int] == device);
        },
    }
}

/// A handshake that waits for the user is told what the user said, and no when all is
/// called off; one that does not wait is told nothing.
pub proof fn law_answers_reach_who_waits(p: Pairing, accept: bool)
    ensures
        p.prompting ==> p.told(accept) == Some(accept),
        !p.prompting ==> p.told(accept) is None,
{
}

/// What shows of a pairing: it is looked for while the window is open, dialled by the one
/// that begins, done with the peer and the outcome, or failed with the reason; and the
/// window does not disturb a pairing that is under way.
pub proof fn law_the_state_tells_what_happens(
    p: Pairing,
    initiator: bool,
    ok: bool,
    peer: String,
    msg: String,
    on: bool,
)
    ensures
        p.begun(true).state is Connecting,
        p.begun(false).state is Discoverable,
        p.ended(Ok((ok, peer))).state == (PairState::Done { ok, peer }),
        p.ended(Err(msg)).state == PairState::Error(msg),
        p.failed(msg).state == PairState::Error(msg),
        p.cleared().state is Idle && !p.cleared().discoverable,
        p.with_window(on).discoverable == on,
        p.with_window(on).busy == p.busy && p.with_window(on).prompting == p.prompting,
        p.state is Connecting || p.state is Prompt ==> p.with_window(on).state == p.state,
        p.state is Done || p.state is Error ==> p.with_window(false).state == p.state
            && p.with_window(true).state is Discoverable,
        p.state is Discoverable && !on ==> p.with_window(on).state is Idle,
{
}

/// A yes counts in either case and with white space around it, and nothing else does.
pub proof fn law_yes_is_y_or_yes(line: Seq<char>)
    ensures
        lower_all(trimmed(line)) == seq!['y'] ==> says_yes(line),
        lower_all(trimmed(line)) == seq!['y', 'e', 's'] ==> says_yes(line),
        says_yes(line) ==> trimmed(line).len() == 1 || trimmed(line).len() == 3,
        says_yes(line) ==> trimmed(line)[0] == 'y' || trimmed(line)[0] == 'Y',
{
    reveal_strlit("y");
    reveal_strlit("yes");
    assert("y"@ =~= seq!['y']);
    assert("yes"@ =~= seq!['y', 'e', 's']);
    let word = lower_all(trimmed(line));
    if says_yes(line) {
        assert(word[0] == 'y');
    }
}

/// What went wrong ends the pairing: the window is closed, nobody is asked, nothing is under
/// way, and the tray is told what it was.
pub proof fn law_failures_end_the_pairing(p: Pairing, msg: String)
    ensures
        !p.failed(msg).discoverable,
        !p.failed(msg).prompting,
        !p.failed(msg).busy,
        p.failed(msg).state == PairState::Error(msg),
        shown_as(p.failed(msg).state).2 == msg@,
{
}

/// The tray is told the code exactly while the user is asked, and the peer with it; that
/// the two were paired only after they were.
pub proof fn law_the_tray_is_told_the_code(s: PairState)
    ensures
        s matches PairState::Prompt { sas, peer } ==> shown_as(s).1 == sas@ && shown_as(s).2
            == peer@,
        !(s is Prompt) ==> shown_as(s).1.len() == 0,
        s matches PairState::Done { ok, peer } ==> shown_as(s).2 == peer@ && (shown_as(s).0
            == "paired"@ <==> ok),
        shown_as(s).0 == "paired"@ ==> s is Done,
        shown_as(s).0 == "idle"@ <==> s is Idle,
        shown_as(s).0 == "prompt"@ <==> s is Prompt,
        shown_as(s).0 == "discoverable"@ <==> s is Discoverable,
        shown_as(s).0 == "connecting"@ <==> s is Connecting,
        shown_as(s).0 == "error"@ <==> s is Error,
{
    reveal_strlit("idle");
    reveal_strlit("discoverable");
    reveal_strlit("connecting");
    reveal_strlit("prompt");
    reveal_strlit("paired");
    reveal_strlit("aborted");
    reveal_strlit("error");
    assert("idle"@.len() == 4 && "discoverable"@.len() == 12 && "connecting"@.len() == 10);
    assert("prompt"@.len() == 6 && "paired"@.len() == 6 && "aborted"@.len() == 7);
    assert("error"@.len() == 5);
    assert("prompt"@[1] != "paired"@[1]);
}

} // verus!

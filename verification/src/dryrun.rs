//! A peer that is made up, to run the daemon against on one machine; and the
//! checks of single devices.

use crate::audio::AudioDevice;
use crate::clipboard::LocalClip;
use crate::ids::DeviceId;
use crate::input::InputEvent;
use crate::layout::VirtualDesktop;
use crate::message::{Capabilities, ClipFormat, Control, ProtocolVersion};
use vstd::prelude::*;

verus! {

/// The made-up peer: it greets, answers two probes, and says goodbye.
#[derive(Clone, Copy, Debug, PartialEq, Eq, Structural)]
pub struct SyntheticPeer {
    pub greeted: bool,
    pub pongs: u32,
}

/// The id of the made-up peer.
pub fn synthetic_id() -> (id: DeviceId)
    ensures
        forall|i: int| 0 <= i < 16 ==> id.0@[i] == 0xee,
{
    DeviceId::from_bytes([0xeeu8; 16])
}

/// The message is the greeting of the made-up peer, which can do everything and has
/// no monitors.
pub open spec fn is_synthetic_hello(m: Control) -> bool {
    m matches Control::Hello { version, device, name, monitors, capabilities } && {
        &&& version == (ProtocolVersion { major: 1, minor: 0 })
        &&& forall|i: int| 0 <= i < 16 ==> device.0@[i] == 0xee
        &&& name@ == "synthetic-peer"@
        &&& monitors.monitors@.len() == 0
        &&& capabilities == (Capabilities {
            clipboard_text: true,
            clipboard_images: true,
            clipboard_files: true,
            file_transfer: true,
            audio_forward: true,
        })
    }
}

fn synthetic_hello() -> (m: Control)
    ensures
        is_synthetic_hello(m),
{
    Control::Hello {
        version: ProtocolVersion::current(),
        device: synthetic_id(),
        name: "synthetic-peer".to_owned(),
        monitors: VirtualDesktop::default(),
        capabilities: Capabilities {
            clipboard_text: true,
            clipboard_images: true,
            clipboard_files: true,
            file_transfer: true,
            audio_forward: true,
        },
    }
}

/// The peer is done: it has said goodbye.
pub open spec fn is_done(p: SyntheticPeer) -> bool {
    p.pongs >= 2
}

impl SyntheticPeer {
    pub fn new() -> (p: Self)
        ensures
            p == (SyntheticPeer { greeted: false, pongs: 0 }),
    {
        SyntheticPeer { greeted: false, pongs: 0 }
    }

    pub fn done(&self) -> (b: bool)
        ensures
            b == is_done(*self),
    {
        self.pongs >= 2
    }

    /// This becomes of a message.
    pub open spec fn replies(
        self,
        after: SyntheticPeer,
        msg: Option<Control>,
        out: Seq<Control>,
    ) -> bool {
        if !self.greeted {
            &&& after == (SyntheticPeer { greeted: true, ..self })
            &&& out.len() == 1
            &&& is_synthetic_hello(out[0])
        } else {
            match msg {
                Some(Control::Ping { nonce }) => {
                    &&& after == (SyntheticPeer { pongs: (self.pongs + 1) as u32, ..self })
                    &&& out.len() == if is_done(after) {
                        2nat
                    } else {
                        1nat
                    }
                    &&& out[0] == (Control::Pong { nonce })
                    &&& is_done(after) ==> (out[1] matches Control::Goodbye { reason } && reason@
                        == "demo complete"@)
                },
                _ => after == self && out.len() == 0,
            }
        }
    }

    /// What the peer sends for a message. Whatever comes first is answered with the
    /// greeting. Then probes are answered, the second with a goodbye as well; other
    /// messages are not.
    pub fn on_message(&mut self, msg: Option<Control>) -> (out: Vec<Control>)
        requires
            !is_done(*old(self)),
        ensures
            old(self).replies(*final(self), msg, out@),
    {
        if !self.greeted {
            self.greeted = true;
            return vec![synthetic_hello()];
        }
        match msg {
            Some(Control::Ping { nonce }) => {
                self.pongs = self.pongs + 1;
                let mut out = vec![Control::Pong { nonce }];
                if self.pongs >= 2 {
                    out.push(Control::Goodbye { reason: "demo complete".to_owned() });
                }
                out
            },
            _ => Vec::new(),
        }
    }
}

// --- Checking a device -------------------------------------------------------

/// How far the events move the pointer sideways.
pub open spec fn sideways(es: Seq<InputEvent>) -> int
    decreases es.len(),
{
    if es.len() == 0 {
        0
    } else {
        sideways(es.drop_last()) + match es.last() {
            InputEvent::PointerMotion { dx, dy } => dx as int,
            _ => 0,
        }
    }
}

/// A wiggle of the pointer: twenty steps to the right, and twenty back.
pub fn wiggle() -> (es: Vec<InputEvent>)
    ensures
        es@.len() == 40,
        forall|i: int|
            0 <= i < 40 ==> #[trigger] es@[i] == (InputEvent::PointerMotion {
                dx: if i < 20 {
                    8
                } else {
                    -8i32
                },
                dy: 0,
            }),
        sideways(es@) == 0,
{
    let mut es: Vec<InputEvent> = Vec::new();
    let mut i: usize = 0;
    while i < 40
        invariant
            0 <= i <= 40,
            es@.len() == i,
            forall|j: int|
                0 <= j < i ==> #[trigger] es@[j] == (InputEvent::PointerMotion {
                    dx: if j < 20 {
                        8
                    } else {
                        -8i32
                    },
                    dy: 0,
                }),
            sideways(es@) == if i <= 20 {
                8 * i
            } else {
                8 * (40 - i)
            },
        decreases 40 - i,
    {
        let ghost before = es@;
        let dx: i32 = if i < 20 {
            8
        } else {
            -8
        };
        es.push(InputEvent::PointerMotion { dx, dy: 0 });
        assert(es@.drop_last() =~= before);
        i = i + 1;
    }
    es
}

/// The event is printed while a device is checked.
pub open spec fn is_printed(e: InputEvent, count: u64) -> bool {
    !(e is PointerMotion) || count % 20 == 0
}

/// Whether an event is printed while a device is checked: of motions every
/// twentieth event, and any other.
pub fn prints(e: InputEvent, count: u64) -> (b: bool)
    ensures
        b == is_printed(e, count),
{
    match e {
        InputEvent::PointerMotion { .. } => count % 20 == 0,
        _ => true,
    }
}

/// What is shown of a change of the clipboard.
#[derive(Clone, Copy, Debug, PartialEq, Eq, Structural)]
pub enum ToShow {
    /// The paths.
    Files,
    /// How many bytes the picture has.
    PictureSize,
    Text,
}

/// What is shown of a change in these formats.
pub open spec fn shown_of(formats: Seq<ClipFormat>) -> ToShow {
    if formats.len() == 0 {
        ToShow::Text
    } else {
        match formats[0] {
            ClipFormat::FileList => ToShow::Files,
            ClipFormat::Png => ToShow::PictureSize,
            _ => ToShow::Text,
        }
    }
}

/// What is shown of a change: by the format that comes first; text where there is
/// none.
pub fn to_show(change: &LocalClip) -> (r: ToShow)
    ensures
        r == shown_of(change.formats@),
{
    if change.formats.len() == 0 {
        return ToShow::Text;
    }
    match change.formats[0] {
        ClipFormat::FileList => ToShow::Files,
        ClipFormat::Png => ToShow::PictureSize,
        _ => ToShow::Text,
    }
}

/// The line that shows a sound device; the usual one has a mark.
pub fn device_line(d: &AudioDevice) -> (s: String)
    ensures
        s@ == if d.is_default {
            "  * "@ + d.label@
        } else {
            "    "@ + d.label@
        },
{
    let mut s = if d.is_default {
        "  * ".to_owned()
    } else {
        "    ".to_owned()
    };
    s.append(d.label.as_str());
    s
}

/// The made-up peer greets first, whatever comes; then it sends every probe back under its
/// number, and after the second one it says goodbye and is done.
pub proof fn law_the_made_up_peer_answers_two_probes(
    p: SyntheticPeer,
    after: SyntheticPeer,
    msg: Option<Control>,
    out: Seq<Control>,
)
    requires
        !is_done(p),
        p.replies(after, msg, out),
    ensures
        after.greeted,
        !p.greeted ==> out.len() == 1 && out[0] is Hello && after.pongs == p.pongs,
        p.greeted ==> match msg {
            Some(Control::Ping { nonce }) => {
                &&& after.pongs == p.pongs + 1
                &&& out.len() >= 1 && out[0] == (Control::Pong { nonce })
                &&& p.pongs == 0 ==> out.len() == 1 && !is_done(after)
                &&& p.pongs == 1 ==> out.len() == 2 && out[1] is Goodbye && is_done(after)
            },
            _ => out.len() == 0 && after == p,
        },
{
}

/// Motions are printed one in twenty, and everything else always.
pub proof fn law_few_motions_are_printed(e: InputEvent, n: u64)
    ensures
        !(e is PointerMotion) ==> is_printed(e, n),
        e is PointerMotion ==> (is_printed(e, n) <==> exists|k: int| #![trigger 20 * k] n == 20 * k),
{
    if n % 20 == 0 {
        assert(n == 20 * (n as int / 20));
    }
}

/// Of several formats the first decides what is shown.
pub proof fn law_the_first_format_is_shown(first: ClipFormat, rest: Seq<ClipFormat>)
    ensures
        shown_of(seq![first] + rest) is Files <==> first is FileList,
        shown_of(seq![first] + rest) is PictureSize <==> first is Png,
        shown_of(Seq::empty()) is Text,
{
    assert((seq![first] + rest)[0] == first);
}

} // verus!

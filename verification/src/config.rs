//! Configuration: what the user can set, and what holds until then.

use crate::ids::DeviceId;
use crate::layout::VirtualDesktop;
use vstd::prelude::*;

verus! {

/// Where the files of an installation live.
pub struct Paths {
    pub config_dir: String,
    pub state_dir: String,
}

/// `name` inside the directory `dir`: one separator stands between the two,
/// none where `dir` is empty.
pub open spec fn joined(dir: Seq<char>, name: Seq<char>) -> Seq<char> {
    if dir.len() == 0 || dir.last() == '/' {
        dir + name
    } else {
        dir.push('/') + name
    }
}

/// `name` inside the directory `dir`.
pub fn join_path(dir: &str, name: &str) -> (p: String)
    ensures
        p@ == joined(dir@, name@),
{
    let chars = crate::text::chars_of(dir);
    let mut p = dir.to_owned();
    if chars.len() > 0 && chars[chars.len() - 1] != '/' {
        p.push('/');
    }
    p.append(name);
    p
}

impl Paths {
    pub fn config_file(&self) -> (p: String)
        ensures
            p@ == joined(self.config_dir@, "config.toml"@),
    {
        join_path(self.config_dir.as_str(), "config.toml")
    }

    pub fn trust_file(&self) -> (p: String)
        ensures
            p@ == joined(self.state_dir@, "trusted.json"@),
    {
        join_path(self.state_dir.as_str(), "trusted.json")
    }

    pub fn key_file(&self) -> (p: String)
        ensures
            p@ == joined(self.state_dir@, "device.key"@),
    {
        join_path(self.state_dir.as_str(), "device.key")
    }

    pub fn cert_file(&self) -> (p: String)
        ensures
            p@ == joined(self.state_dir@, "device.crt"@),
    {
        join_path(self.state_dir.as_str(), "device.crt")
    }

    /// The control socket of the tray and the command line.
    pub fn socket_file(&self) -> (p: String)
        ensures
            p@ == joined(self.state_dir@, "deskorynd.sock"@),
    {
        join_path(self.state_dir.as_str(), "deskorynd.sock")
    }
}

pub struct AppConfig {
    pub device: DeviceConfig,
    pub network: NetworkConfig,
    pub input: InputConfig,
    pub clipboard: ClipboardConfig,
    pub audio: AudioConfig,
    pub file_transfer: FileTransferConfig,
    /// The saved layout, empty until the user arranges monitors.
    pub layout: VirtualDesktop,
}

pub struct DeviceConfig {
    pub id: DeviceId,
    /// The name shown to the peer.
    pub name: String,
}

pub struct NetworkConfig {
    /// Port to listen on; 0 leaves the choice to the system.
    pub listen_port: u16,
    /// Advertise to and look for peers on the local network.
    pub discovery_enabled: bool,
    /// Peers by address, for networks without discovery.
    pub static_peers: Vec<String>,
}

impl Default for NetworkConfig {
    fn default() -> (c: Self)
        ensures
            c.listen_port == 0,
            c.discovery_enabled,
            c.static_peers@.len() == 0,
    {
        NetworkConfig { listen_port: 0, discovery_enabled: true, static_peers: Vec::new() }
    }
}

pub struct InputConfig {
    /// Keyboard focus follows the mouse over the machine boundary.
    pub focus_follows_mouse: bool,
    /// Pixels of push at an edge before the cursor leaves for the other
    /// machine; 0 disables the resistance.
    pub edge_resistance_px: i32,
    /// Forces the cursor to the other machine.
    pub switch_hotkey: String,
    /// Keeps the cursor on the machine it is on.
    pub lock_hotkey: String,
}

impl Default for InputConfig {
    fn default() -> (c: Self)
        ensures
            c.focus_follows_mouse,
            c.edge_resistance_px == 0,
            c.switch_hotkey@ == "Ctrl+Alt+S"@,
            c.lock_hotkey@ == "Ctrl+Alt+L"@,
    {
        InputConfig {
            focus_follows_mouse: true,
            edge_resistance_px: 0,
            switch_hotkey: "Ctrl+Alt+S".to_owned(),
            lock_hotkey: "Ctrl+Alt+L".to_owned(),
        }
    }
}

pub struct ClipboardConfig {
    pub sync_text: bool,
    pub sync_images: bool,
    pub sync_files: bool,
    /// Payloads up to this size travel in place; larger ones on demand.
    pub inline_max_bytes: u64,
    /// How often the system clipboard is looked at, in milliseconds.
    pub poll_ms: u64,
}

impl Default for ClipboardConfig {
    fn default() -> (c: Self)
        ensures
            c == (ClipboardConfig {
                sync_text: true,
                sync_images: true,
                sync_files: true,
                inline_max_bytes: 262_144,
                poll_ms: 250,
            }),
    {
        ClipboardConfig {
            sync_text: true,
            sync_images: true,
            sync_files: true,
            inline_max_bytes: 262_144,
            poll_ms: 250,
        }
    }
}

#[derive(Clone, Copy, Debug, PartialEq, Eq, Structural)]
pub enum AudioProfile {
    /// Small frames and a short buffer, for calls and games.
    LowLatency,
    /// Larger frames and a longer buffer, for music and video.
    HighQuality,
}

pub struct AudioConfig {
    pub forward_enabled: bool,
    pub profile: AudioProfile,
    /// The device to record from.
    pub source_device: String,
    /// The device to play on.
    pub sink_device: String,
}

impl Default for AudioConfig {
    fn default() -> (c: Self)
        ensures
            !c.forward_enabled,
            c.profile == AudioProfile::LowLatency,
            c.source_device@ == "default"@,
            c.sink_device@ == "default"@,
    {
        AudioConfig {
            forward_enabled: false,
            profile: AudioProfile::LowLatency,
            source_device: "default".to_owned(),
            sink_device: "default".to_owned(),
        }
    }
}

/// What to do with an incoming file whose name is taken.
#[derive(Clone, Copy, Debug, PartialEq, Eq, Structural)]
pub enum ConflictPolicy {
    /// Append ` (2)`, ` (3)` and so on to the name.
    Rename,
    Overwrite,
    Skip,
    /// Ask the user.
    Ask,
}

pub struct FileTransferConfig {
    /// Where incoming files land.
    pub download_dir: Option<String>,
    pub conflict_policy: ConflictPolicy,
    pub shared_folders: Vec<SharedFolder>,
}

impl Default for FileTransferConfig {
    fn default() -> (c: Self)
        ensures
            c.download_dir is None,
            c.conflict_policy == ConflictPolicy::Rename,
            c.shared_folders@.len() == 0,
    {
        FileTransferConfig {
            download_dir: None,
            conflict_policy: ConflictPolicy::Rename,
            shared_folders: Vec::new(),
        }
    }
}

pub struct SharedFolder {
    pub local_path: String,
    /// The name under which the peer knows the folder.
    pub name: String,
    pub bidirectional: bool,
}

impl AppConfig {
    /// Everything but the device's id and name is as on a first run.
    pub open spec fn is_fresh(self) -> bool {
        &&& self.network.listen_port == 0
        &&& self.network.discovery_enabled
        &&& self.network.static_peers@.len() == 0
        &&& self.input.focus_follows_mouse
        &&& self.input.edge_resistance_px == 0
        &&& self.input.switch_hotkey@ == "Ctrl+Alt+S"@
        &&& self.input.lock_hotkey@ == "Ctrl+Alt+L"@
        &&& self.clipboard == (ClipboardConfig {
            sync_text: true,
            sync_images: true,
            sync_files: true,
            inline_max_bytes: 262_144,
            poll_ms: 250,
        })
        &&& !self.audio.forward_enabled
        &&& self.audio.profile == AudioProfile::LowLatency
        &&& self.audio.source_device@ == "default"@
        &&& self.audio.sink_device@ == "default"@
        &&& self.file_transfer.download_dir is None
        &&& self.file_transfer.conflict_policy == ConflictPolicy::Rename
        &&& self.file_transfer.shared_folders@.len() == 0
        &&& self.layout.monitors@.len() == 0
    }

    /// The configuration of a first run: a random id, and the defaults.
    pub fn bootstrap(name: String) -> (c: Self)
        ensures
            c.device.name@ == name@,
            c.is_fresh(),
    {
        AppConfig {
            device: DeviceConfig { id: DeviceId::generate(), name },
            network: NetworkConfig::default(),
            input: InputConfig::default(),
            clipboard: ClipboardConfig::default(),
            audio: AudioConfig::default(),
            file_transfer: FileTransferConfig::default(),
            layout: VirtualDesktop::default(),
        }
    }

    /// The configuration that was kept, or that of a first run. Says whether it is
    /// a first run, whose configuration is then to be kept.
    pub fn load_or_bootstrap(kept: Option<AppConfig>, name: String) -> (r: (Self, bool))
        ensures
            match kept {
                Some(c) => r == (c, false),
                None => r.1 && r.0.device.name@ == name@ && r.0.is_fresh(),
            },
    {
        match kept {
            Some(c) => (c, false),
            None => (AppConfig::bootstrap(name), true),
        }
    }
}

/// The name of this machine, out of what the environment says under two names.
pub fn hostname(host: Option<String>, computer: Option<String>) -> (s: String)
    ensures
        match (host, computer) {
            (Some(h), _) => s == h,
            (None, Some(c)) => s == c,
            (None, None) => s@ == "deskoryn-device"@,
        },
{
    match (host, computer) {
        (Some(h), _) => h,
        (None, Some(c)) => c,
        (None, None) => "deskoryn-device".to_owned(),
    }
}

/// A name in a directory comes after the directory, with exactly one slash between the
/// two; in no directory it stands alone.
pub proof fn law_names_follow_their_directory(dir: Seq<char>, name: Seq<char>)
    ensures
        dir.len() == 0 ==> joined(dir, name) == name,
        dir.len() > 0 && dir.last() != '/' ==> joined(dir, name) == dir + seq!['/'] + name,
        dir.len() > 0 && dir.last() == '/' ==> joined(dir, name) == dir + name,
{
    assert(dir + name =~= if dir.len() == 0 {
        name
    } else {
        dir + name
    });
    assert(dir.push('/') + name =~= dir + seq!['/'] + name);
}

/// On a first run peers are looked for and the port is the system's choice, the edges of
/// the desktop do not resist, everything that is copied is shared and looked at four times
/// a second, up to a quarter of a mebibyte in place, no sound is forwarded, files whose
/// names are taken get other names, and nothing is arranged.
pub proof fn law_first_runs_begin_like_this(c: AppConfig)
    requires
        c.is_fresh(),
    ensures
        c.network.discovery_enabled && c.network.listen_port == 0,
        c.network.static_peers@.len() == 0,
        c.input.focus_follows_mouse && c.input.edge_resistance_px == 0,
        c.clipboard.sync_text && c.clipboard.sync_images && c.clipboard.sync_files,
        c.clipboard.inline_max_bytes == 256 * 1024,
        4 * c.clipboard.poll_ms == 1000,
        !c.audio.forward_enabled && c.audio.profile is LowLatency,
        c.audio.source_device@ == c.audio.sink_device@,
        c.file_transfer.conflict_policy is Rename,
        c.file_transfer.download_dir is None,
        c.layout.monitors@.len() == 0,
        c.input.switch_hotkey@ == "Ctrl+Alt+S"@,
        c.input.lock_hotkey@ == "Ctrl+Alt+L"@,
{
}

} // verus!

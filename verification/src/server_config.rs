//! The server's configuration and its registry of paired devices.

use crate::assoc::{
    assoc_map, keys_unique, lemma_assoc_absent, lemma_assoc_index, lemma_assoc_push,
    lemma_assoc_remove, lemma_assoc_set,
};
use crate::clock::{utc_now, Timestamp};
use crate::protocol::DEFAULT_FILE_PORT;
use crate::text::str_eq;
use vstd::prelude::*;
use vstd::string::StringExecFns;

verus! {

/// A device that proved knowledge of the pairing PIN once.
#[derive(Clone, Debug)]
pub struct PairedDevice {
    pub name: String,
    pub fingerprint: String,
    pub paired_at: Timestamp,
}

/// The mathematical content of a `PairedDevice`.
pub struct DeviceView {
    pub name: Seq<char>,
    pub fingerprint: Seq<char>,
    pub paired_at: Timestamp,
}

impl PairedDevice {
    pub open spec fn view_of(&self) -> DeviceView {
        DeviceView { name: self.name@, fingerprint: self.fingerprint@, paired_at: self.paired_at }
    }
}

/// The hotkeys, as strings in the `Ctrl+Alt+F` form.
#[derive(Clone, Debug)]
pub struct HotkeyConfig {
    pub toggle_forward: String,
    pub show_panel: String,
}

impl Default for HotkeyConfig {
    fn default() -> (h: Self)
        ensures
            h.toggle_forward@ == "Ctrl+Alt+F"@,
            h.show_panel@ == "Ctrl+Alt+K"@,
    {
        HotkeyConfig {
            toggle_forward: String::from_str("Ctrl+Alt+F"),
            show_panel: String::from_str("Ctrl+Alt+K"),
        }
    }
}

/// SOCKS5 proxy settings; all unset by default, and anonymous access off.
#[derive(Clone, Debug)]
pub struct Socks5Settings {
    pub port: Option<u16>,
    pub username: Option<String>,
    pub password: Option<String>,
    pub allow_anonymous: bool,
}

impl Default for Socks5Settings {
    fn default() -> (s: Self)
        ensures
            s.port is None,
            s.username is None,
            s.password is None,
            !s.allow_anonymous,
    {
        Socks5Settings { port: None, username: None, password: None, allow_anonymous: false }
    }
}

/// The server's configuration. Paired devices are kept one per fingerprint
/// (`wf`); paths are held as their text.
#[derive(Clone, Debug)]
pub struct Config {
    /// Advertised via mDNS and sent to clients in `HelloAck`.
    pub server_name: String,
    pub paired_devices: Vec<PairedDevice>,
    pub hotkey: HotkeyConfig,
    /// Start forwarding when the first client pairs; stop when the last leaves.
    pub auto_forward: bool,
    pub clipboard_sync: bool,
    pub transfer_dir: String,
    pub file_transfer_port: u16,
    pub pairing_pin: Option<String>,
    pub bind_address: String,
    /// Largest accepted file in bytes; 0 means unlimited.
    pub max_file_size: u64,
    pub audit_log: Option<String>,
    pub socks5: Socks5Settings,
}

impl Config {
    /// The devices as (fingerprint, device) pairs.
    pub open spec fn device_pairs(&self) -> Seq<(Seq<char>, DeviceView)> {
        self.paired_devices@.map_values(|d: PairedDevice| (d.fingerprint@, d.view_of()))
    }

    /// No fingerprint is paired twice.
    pub open spec fn wf(&self) -> bool {
        keys_unique(self.device_pairs())
    }

    /// The paired devices by fingerprint.
    pub open spec fn devices(&self) -> Map<Seq<char>, DeviceView> {
        assoc_map(self.device_pairs())
    }

    /// Everything but the paired devices is equal.
    pub open spec fn same_settings(&self, other: &Config) -> bool {
        &&& self.server_name@ == other.server_name@
        &&& self.auto_forward == other.auto_forward
        &&& self.clipboard_sync == other.clipboard_sync
        &&& self.transfer_dir@ == other.transfer_dir@
        &&& self.file_transfer_port == other.file_transfer_port
        &&& self.bind_address@ == other.bind_address@
        &&& self.max_file_size == other.max_file_size
    }

    /// The default configuration for a machine whose host name is
    /// `host_name` (if it has a readable one) and whose default directory for
    /// received files is `transfer_dir`.
    pub fn default_with(host_name: Option<String>, transfer_dir: String) -> (c: Self)
        ensures
            c.wf(),
            c.devices() == Map::<Seq<char>, DeviceView>::empty(),
            c.server_name@ == match host_name {
                Some(h) => h@,
                None => "KVM-Server"@,
            },
            c.hotkey.toggle_forward@ == "Ctrl+Alt+F"@,
            c.hotkey.show_panel@ == "Ctrl+Alt+K"@,
            !c.auto_forward,
            c.clipboard_sync,
            c.transfer_dir@ == transfer_dir@,
            c.file_transfer_port == DEFAULT_FILE_PORT,
            c.pairing_pin is None,
            c.bind_address@ == "0.0.0.0"@,
            c.max_file_size == 0,
            c.audit_log is None,
            c.socks5.port is None,
            c.socks5.username is None,
            c.socks5.password is None,
            !c.socks5.allow_anonymous,
    {
        let server_name = match host_name {
            Some(h) => h,
            None => String::from_str("KVM-Server"),
        };
        let c = Config {
            server_name,
            paired_devices: Vec::new(),
            hotkey: HotkeyConfig::default(),
            auto_forward: false,
            clipboard_sync: true,
            transfer_dir,
            file_transfer_port: DEFAULT_FILE_PORT,
            pairing_pin: None,
            bind_address: String::from_str("0.0.0.0"),
            max_file_size: 0,
            audit_log: None,
            socks5: Socks5Settings::default(),
        };
        proof {
            assert(c.device_pairs() =~= Seq::<(Seq<char>, DeviceView)>::empty());
        }
        c
    }

    fn position(&self, fingerprint: &str) -> (r: Option<usize>)
        ensures
            r matches Some(i) ==> i < self.device_pairs().len() && self.device_pairs()[i as int].0
                == fingerprint@,
            r is None ==> forall|i: int|
                0 <= i < self.device_pairs().len() ==> self.device_pairs()[i].0 != fingerprint@,
    {
        let mut i: usize = 0;
        while i < self.paired_devices.len()
            invariant
                i <= self.paired_devices@.len(),
                self.device_pairs().len() == self.paired_devices@.len(),
                forall|j: int| 0 <= j < i ==> self.device_pairs()[j].0 != fingerprint@,
            decreases self.paired_devices@.len() - i,
        {
            if str_eq(self.paired_devices[i].fingerprint.as_str(), fingerprint) {
                return Some(i);
            }
            i = i + 1;
        }
        None
    }

    /// Whether a device with this fingerprint is paired.
    pub fn is_paired(&self, fingerprint: &str) -> (r: bool)
        requires
            self.wf(),
        ensures
            r == self.devices().contains_key(fingerprint@),
    {
        match self.position(fingerprint) {
            Some(i) => {
                proof {
                    lemma_assoc_index(self.device_pairs(), i as int);
                }
                true
            },
            None => {
                proof {
                    lemma_assoc_absent(self.device_pairs(), fingerprint@);
                }
                false
            },
        }
    }

    /// Pairs (or re-pairs) the device `fingerprint` under `name`, as of `at`.
    pub fn add_paired_device_at(&mut self, fingerprint: String, name: String, at: Timestamp)
        requires
            old(self).wf(),
        ensures
            final(self).wf(),
            final(self).devices() == old(self).devices().insert(
                fingerprint@,
                DeviceView { name: name@, fingerprint: fingerprint@, paired_at: at },
            ),
            final(self).same_settings(old(self)),
    {
        let ghost old_pairs = self.device_pairs();
        let pos = self.position(fingerprint.as_str());
        let device = PairedDevice { name, fingerprint, paired_at: at };
        let ghost dv = device.view_of();
        match pos {
            Some(i) => {
                proof {
                    lemma_assoc_set(old_pairs, i as int, dv);
                }
                self.paired_devices.set(i, device);
                proof {
                    assert(self.device_pairs() =~= old_pairs.update(i as int, (dv.fingerprint, dv)));
                }
            },
            None => {
                proof {
                    lemma_assoc_push(old_pairs, dv.fingerprint, dv);
                }
                self.paired_devices.push(device);
                proof {
                    assert(self.device_pairs() =~= old_pairs.push((dv.fingerprint, dv)));
                }
            },
        }
    }

    /// Pairs (or re-pairs) the device `fingerprint` under `name`, stamped
    /// with the current time.
    pub fn add_paired_device(&mut self, fingerprint: String, name: String)
        requires
            old(self).wf(),
        ensures
            final(self).wf(),
            final(self).devices().dom() == old(self).devices().dom().insert(fingerprint@),
            final(self).devices()[fingerprint@].name == name@,
            final(self).devices()[fingerprint@].fingerprint == fingerprint@,
            forall|f: Seq<char>|
                f != fingerprint@ && old(self).devices().contains_key(f) ==> final(self).devices()[f]
                    == old(self).devices()[f],
            final(self).same_settings(old(self)),
    {
        let now = utc_now();
        self.add_paired_device_at(fingerprint, name, now);
    }

    /// Unpairs the device `fingerprint`; says whether it was paired.
    pub fn remove_paired_device(&mut self, fingerprint: &str) -> (removed: bool)
        requires
            old(self).wf(),
        ensures
            final(self).wf(),
            removed == old(self).devices().contains_key(fingerprint@),
            final(self).devices() == old(self).devices().remove(fingerprint@),
            final(self).same_settings(old(self)),
    {
        let ghost old_pairs = self.device_pairs();
        match self.position(fingerprint) {
            Some(i) => {
                proof {
                    lemma_assoc_index(old_pairs, i as int);
                    lemma_assoc_remove(old_pairs, i as int);
                }
                self.paired_devices.remove(i);
                proof {
                    assert(self.device_pairs() =~= old_pairs.remove(i as int));
                }
                true
            },
            None => {
                proof {
                    lemma_assoc_absent(old_pairs, fingerprint@);
                    assert(old(self).devices().remove(fingerprint@) =~= old(self).devices());
                }
                false
            },
        }
    }
}

/// Pairing a device makes it paired, and unpairing it then leaves the
/// other devices exactly as they were.
pub proof fn lemma_pair_then_unpair(
    devices: Map<Seq<char>, DeviceView>,
    fingerprint: Seq<char>,
    device: DeviceView,
)
    requires
        !devices.contains_key(fingerprint),
    ensures
        devices.insert(fingerprint, device).contains_key(fingerprint),
        devices.insert(fingerprint, device).remove(fingerprint) == devices,
{
    assert(devices.insert(fingerprint, device).remove(fingerprint) =~= devices);
}

} // verus!

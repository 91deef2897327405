//! The stored configuration and partial updates of it.
//!
//! Reading and writing the file are done by the caller; this module holds
//! the state that results and the rules that combine an update with it.

use vstd::prelude::*;
use crate::config::{AgentConfig, PrinterConfig, ScaleConfig, is_default_agent};

verus! {

/// Printer fields to change; `None` keeps the current value.
#[derive(Debug, Default)]
pub struct PrinterConfigUpdate {
    pub usb_vendor_id: Option<String>,
    pub usb_product_id: Option<String>,
    pub usb_endpoint: Option<u8>,
    pub chunk_size: Option<usize>,
    pub system_printer_name: Option<String>,
    pub prefer_system_backend: Option<bool>,
}

/// A partial configuration, as sent by clients. A port change takes effect
/// when the agent restarts.
#[derive(Debug)]
pub struct AgentConfigUpdate {
    pub port: Option<u16>,
    pub printer: Option<PrinterConfigUpdate>,
    pub scale: Option<ScaleConfig>,
}

/// The value `new` gives when present, `current` otherwise.
pub open spec fn or_keep<T>(new: Option<T>, current: T) -> T {
    match new {
        Some(v) => v,
        None => current,
    }
}

/// An optional text field that an update sets when it carries a value.
pub open spec fn or_keep_some<T>(new: Option<T>, current: Option<T>) -> Option<T> {
    match new {
        Some(v) => Some(v),
        None => current,
    }
}

/// The printer settings after applying `u` to `p`.
pub open spec fn merged_printer(u: PrinterConfigUpdate, p: PrinterConfig) -> PrinterConfig {
    PrinterConfig {
        usb_vendor_id: or_keep_some(u.usb_vendor_id, p.usb_vendor_id),
        usb_product_id: or_keep_some(u.usb_product_id, p.usb_product_id),
        usb_endpoint: or_keep(u.usb_endpoint, p.usb_endpoint),
        chunk_size: or_keep(u.chunk_size, p.chunk_size),
        system_printer_name: or_keep_some(u.system_printer_name, p.system_printer_name),
        prefer_system_backend: or_keep(u.prefer_system_backend, p.prefer_system_backend),
    }
}

/// The configuration after applying `u` to `c`: every field the update
/// carries replaces the current one; the scale section is replaced whole;
/// the tray icon style is kept.
pub open spec fn merged(u: AgentConfigUpdate, c: AgentConfig) -> AgentConfig {
    AgentConfig {
        port: or_keep(u.port, c.port),
        tray_icon: c.tray_icon,
        printer: match u.printer {
            Some(pu) => merged_printer(pu, c.printer),
            None => c.printer,
        },
        scale: or_keep(u.scale, c.scale),
    }
}

/// The update that changes nothing.
pub open spec fn is_empty_update(u: AgentConfigUpdate) -> bool {
    u.port is None && u.printer is None && u.scale is None
}

impl AgentConfigUpdate {
    /// Applies this update to `current`.
    pub fn merge_into(self, current: AgentConfig) -> (next: AgentConfig)
        ensures
            next == merged(self, current),
    {
        let mut next = current;

        if let Some(port) = self.port {
            next.port = port;
        }

        if let Some(printer) = self.printer {
            if let Some(v) = printer.usb_vendor_id {
                next.printer.usb_vendor_id = Some(v);
            }
            if let Some(v) = printer.usb_product_id {
                next.printer.usb_product_id = Some(v);
            }
            if let Some(v) = printer.usb_endpoint {
                next.printer.usb_endpoint = v;
            }
            if let Some(v) = printer.chunk_size {
                next.printer.chunk_size = v;
            }
            if let Some(v) = printer.system_printer_name {
                next.printer.system_printer_name = Some(v);
            }
            if let Some(v) = printer.prefer_system_backend {
                next.printer.prefer_system_backend = v;
            }
        }

        if let Some(scale) = self.scale {
            next.scale = scale;
        }

        next
    }
}

/// Applying an update that carries nothing leaves the configuration as it is.
pub proof fn lemma_empty_update_keeps(u: AgentConfigUpdate, c: AgentConfig)
    requires
        is_empty_update(u),
    ensures
        merged(u, c) == c,
{
}

/// Applying the same update twice gives what applying it once gives.
pub proof fn lemma_merge_idempotent(u: AgentConfigUpdate, c: AgentConfig)
    ensures
        merged(u, merged(u, c)) == merged(u, c),
{
}

/// After an update every field it carries holds the carried value, and the
/// tray icon style is unchanged.
pub proof fn lemma_merge_applies(u: AgentConfigUpdate, c: AgentConfig)
    ensures
        u.port matches Some(p) ==> merged(u, c).port == p,
        u.scale matches Some(s) ==> merged(u, c).scale == s,
        u.printer matches Some(pu) ==> {
            &&& pu.usb_vendor_id matches Some(v) ==> merged(u, c).printer.usb_vendor_id == Some(v)
            &&& pu.usb_product_id matches Some(v) ==> merged(u, c).printer.usb_product_id == Some(v)
            &&& pu.usb_endpoint matches Some(v) ==> merged(u, c).printer.usb_endpoint == v
            &&& pu.chunk_size matches Some(v) ==> merged(u, c).printer.chunk_size == v
            &&& pu.system_printer_name matches Some(v) ==> merged(u, c).printer.system_printer_name
                == Some(v)
            &&& pu.prefer_system_backend matches Some(v) ==> merged(u, c).printer.prefer_system_backend
                == v
        },
        merged(u, c).tray_icon == c.tray_icon,
{
}

/// What an update does not carry stays as it was: without a port the port
/// is kept, without a printer section every printer setting is kept,
/// within a printer section every setting it leaves out is kept, and
/// without a scale section the scale settings are kept.
pub proof fn lemma_merge_keeps_uncarried(u: AgentConfigUpdate, c: AgentConfig)
    ensures
        u.port is None ==> merged(u, c).port == c.port,
        u.scale is None ==> merged(u, c).scale == c.scale,
        u.printer is None ==> merged(u, c).printer == c.printer,
        u.printer matches Some(pu) ==> {
            &&& pu.usb_vendor_id is None ==> merged(u, c).printer.usb_vendor_id
                == c.printer.usb_vendor_id
            &&& pu.usb_product_id is None ==> merged(u, c).printer.usb_product_id
                == c.printer.usb_product_id
            &&& pu.usb_endpoint is None ==> merged(u, c).printer.usb_endpoint
                == c.printer.usb_endpoint
            &&& pu.chunk_size is None ==> merged(u, c).printer.chunk_size == c.printer.chunk_size
            &&& pu.system_printer_name is None ==> merged(u, c).printer.system_printer_name
                == c.printer.system_printer_name
            &&& pu.prefer_system_backend is None ==> merged(u, c).printer.prefer_system_backend
                == c.printer.prefer_system_backend
        },
{
}

/// The configuration in use and the file it belongs to.
pub struct ConfigStore {
    path: String,
    agent: AgentConfig,
}

impl ConfigStore {
    /// The configuration held.
    pub closed spec fn config(&self) -> AgentConfig {
        self.agent
    }

    /// The file the configuration is saved to.
    pub closed spec fn file(&self) -> Seq<char> {
        self.path@
    }

    /// This store once `agent` has been saved to its file.
    pub closed spec fn after_save(&self, agent: AgentConfig) -> ConfigStore {
        ConfigStore { path: self.path, agent }
    }

    pub fn from_parts(path: String, agent: AgentConfig) -> (res: Self)
        ensures
            res.config() == agent,
            res.file() == path@,
    {
        ConfigStore { path, agent }
    }

    /// Picks the configuration to start with. `attempts` lists the candidate
    /// files in search order, each with the configuration read from it, or
    /// `None` where the file is missing, unreadable or not a valid
    /// configuration. The first file that gave a configuration wins; without
    /// one, the defaults are used with `default_path`.
    pub fn load(attempts: Vec<(String, Option<AgentConfig>)>, default_path: String) -> (res: Self)
        ensures
            first_loaded(attempts@) matches Some(k) ==> res.file() == attempts@[k].0@
                && Some(res.config()) == attempts@[k].1,
            first_loaded(attempts@) is None ==> res.file() == default_path@ && is_default_agent(
                res.config(),
            ),
    {
        let ghost all = attempts@;
        let mut rest = attempts;
        let ghost mut i: int = 0;
        while rest.len() > 0
            invariant
                0 <= i <= all.len(),
                all == attempts@,
                rest@ == all.subrange(i, all.len() as int),
                forall|k: int| 0 <= k < i ==> (#[trigger] all[k]).1 is None,
            decreases rest@.len(),
        {
            let (path, loaded) = rest.remove(0);
            assert(all[i] == (path, loaded));
            if let Some(agent) = loaded {
                proof {
                    lemma_first_loaded(all, i);
                }
                return ConfigStore::from_parts(path, agent);
            }
            proof {
                i = i + 1;
            }
            assert(rest@ =~= all.subrange(i, all.len() as int));
        }
        proof {
            lemma_first_none(all);
        }
        ConfigStore::from_parts(default_path, AgentConfig::default())
    }

    /// The configuration in use.
    pub fn get(&self) -> (res: AgentConfig)
        ensures
            res == self.config(),
    {
        self.agent.clone()
    }

    /// The file the configuration is saved to.
    pub fn path(&self) -> (res: String)
        ensures
            res@ == self.file(),
    {
        self.path.clone()
    }

    /// Records `agent` as the configuration in use once it has been written
    /// to this store's file; returns that file.
    pub fn record_saved(&mut self, agent: AgentConfig) -> (path: String)
        ensures
            *final(self) == old(self).after_save(agent),
            path@ == old(self).file(),
    {
        self.agent = agent;
        self.path.clone()
    }
}

/// The index of the first attempt that gave a configuration.
pub open spec fn first_loaded(attempts: Seq<(String, Option<AgentConfig>)>) -> Option<int> {
    if exists|k: int| 0 <= k < attempts.len() && (#[trigger] attempts[k]).1 is Some {
        Some(
            choose|k: int|
                0 <= k < attempts.len() && (#[trigger] attempts[k]).1 is Some && forall|m: int|
                    0 <= m < k ==> (#[trigger] attempts[m]).1 is None,
        )
    } else {
        None
    }
}

proof fn lemma_first_loaded(attempts: Seq<(String, Option<AgentConfig>)>, i: int)
    requires
        0 <= i < attempts.len(),
        attempts[i].1 is Some,
        forall|k: int| 0 <= k < i ==> (#[trigger] attempts[k]).1 is None,
    ensures
        first_loaded(attempts) == Some(i),
{
    let k = choose|k: int|
        0 <= k < attempts.len() && (#[trigger] attempts[k]).1 is Some && forall|m: int|
            0 <= m < k ==> (#[trigger] attempts[m]).1 is None;
    assert(0 <= k < attempts.len() && attempts[k].1 is Some && forall|m: int|
        0 <= m < k ==> (#[trigger] attempts[m]).1 is None);
    if k < i {
        assert(attempts[k].1 is None);
    } else if k > i {
        assert(attempts[i].1 is None);
    }
}

proof fn lemma_first_none(attempts: Seq<(String, Option<AgentConfig>)>)
    requires
        forall|k: int| 0 <= k < attempts.len() ==> (#[trigger] attempts[k]).1 is None,
    ensures
        first_loaded(attempts) is None,
{
}

/// Reading the configuration after a save gives back what was saved, and the
/// file stays the same.
pub proof fn lemma_read_after_save(store: ConfigStore, agent: AgentConfig)
    ensures
        store.after_save(agent).config() == agent,
        store.after_save(agent).file() == store.file(),
{
}

} // verus!

//! Agent configuration and its defaults.

use vstd::prelude::*;

verus! {

/// Configuration of the agent: HTTP port, tray icon style, printer and scale.
#[derive(Debug)]
pub struct AgentConfig {
    /// HTTP port to listen on.
    pub port: u16,
    /// Tray icon style: auto, color, dark, or light.
    pub tray_icon: String,
    /// Printer settings.
    pub printer: PrinterConfig,
    /// Scale settings.
    pub scale: ScaleConfig,
}

/// Printer settings.
#[derive(Debug)]
pub struct PrinterConfig {
    /// USB vendor id to target (hex string, e.g. "04b8" for Epson).
    pub usb_vendor_id: Option<String>,
    /// USB product id to target (hex string).
    pub usb_product_id: Option<String>,
    /// USB output endpoint address.
    pub usb_endpoint: u8,
    /// Chunk size in bytes when writing to USB.
    pub chunk_size: usize,
    /// System printer to target through the OS print spooler.
    pub system_printer_name: Option<String>,
    /// Prefer the system print backend before trying USB HID.
    pub prefer_system_backend: bool,
}

/// RS-232 scale settings.
#[derive(Debug)]
pub struct ScaleConfig {
    /// Whether the scale integration is enabled.
    pub enabled: bool,
    /// Serial port path, e.g. COM3 or /dev/ttyUSB0.
    pub serial_port: Option<String>,
    /// Scale protocol id.
    pub protocol: String,
    pub baud_rate: u32,
    pub data_bits: u8,
    pub parity: String,
    pub stop_bits: u8,
    /// Identical consecutive readings required to mark a weight as stable.
    pub stable_reads: u8,
    /// Minimum milliseconds between identical readings for stability.
    pub stable_window_ms: u64,
}

/// A copy of an optional text.
pub fn clone_opt(s: &Option<String>) -> (res: Option<String>)
    ensures
        res == *s,
{
    match s {
        Some(v) => Some(v.clone()),
        None => None,
    }
}

impl Clone for PrinterConfig {
    fn clone(&self) -> (res: Self)
        ensures
            res == *self,
    {
        PrinterConfig {
            usb_vendor_id: clone_opt(&self.usb_vendor_id),
            usb_product_id: clone_opt(&self.usb_product_id),
            usb_endpoint: self.usb_endpoint,
            chunk_size: self.chunk_size,
            system_printer_name: clone_opt(&self.system_printer_name),
            prefer_system_backend: self.prefer_system_backend,
        }
    }
}

impl Clone for ScaleConfig {
    fn clone(&self) -> (res: Self)
        ensures
            res == *self,
    {
        ScaleConfig {
            enabled: self.enabled,
            serial_port: clone_opt(&self.serial_port),
            protocol: self.protocol.clone(),
            baud_rate: self.baud_rate,
            data_bits: self.data_bits,
            parity: self.parity.clone(),
            stop_bits: self.stop_bits,
            stable_reads: self.stable_reads,
            stable_window_ms: self.stable_window_ms,
        }
    }
}

impl Clone for AgentConfig {
    fn clone(&self) -> (res: Self)
        ensures
            res == *self,
    {
        AgentConfig {
            port: self.port,
            tray_icon: self.tray_icon.clone(),
            printer: self.printer.clone(),
            scale: self.scale.clone(),
        }
    }
}

pub fn default_port() -> (r: u16)
    ensures
        r == 8765,
{
    8765
}

pub fn default_tray_icon() -> (r: String)
    ensures
        r@ == "auto"@,
{
    "auto".to_owned()
}

pub fn default_endpoint() -> (r: u8)
    ensures
        r == 0x01,
{
    0x01
}

pub fn default_chunk_size() -> (r: usize)
    ensures
        r == 4096,
{
    4096
}

pub fn default_scale_protocol() -> (r: String)
    ensures
        r@ == "generic"@,
{
    "generic".to_owned()
}

pub fn default_baud_rate() -> (r: u32)
    ensures
        r == 9600,
{
    9600
}

pub fn default_data_bits() -> (r: u8)
    ensures
        r == 8,
{
    8
}

pub fn default_parity() -> (r: String)
    ensures
        r@ == "none"@,
{
    "none".to_owned()
}

pub fn default_stop_bits() -> (r: u8)
    ensures
        r == 1,
{
    1
}

pub fn default_stable_reads() -> (r: u8)
    ensures
        r == 3,
{
    3
}

pub fn default_stable_window_ms() -> (r: u64)
    ensures
        r == 200,
{
    200
}

/// The default printer settings: automatic selection, endpoint 1, 4096-byte chunks.
pub open spec fn is_default_printer(p: PrinterConfig) -> bool {
    &&& p.usb_vendor_id is None
    &&& p.usb_product_id is None
    &&& p.usb_endpoint == 0x01
    &&& p.chunk_size == 4096
    &&& p.system_printer_name is None
    &&& !p.prefer_system_backend
}

/// The default scale settings: disabled, generic protocol at 9600 8N1, stable after 3
/// readings 200 ms apart.
pub open spec fn is_default_scale(s: ScaleConfig) -> bool {
    &&& !s.enabled
    &&& s.serial_port is None
    &&& s.protocol@ == "generic"@
    &&& s.baud_rate == 9600
    &&& s.data_bits == 8
    &&& s.parity@ == "none"@
    &&& s.stop_bits == 1
    &&& s.stable_reads == 3
    &&& s.stable_window_ms == 200
}

/// The default agent configuration: port 8765, automatic tray icon.
pub open spec fn is_default_agent(c: AgentConfig) -> bool {
    &&& c.port == 8765
    &&& c.tray_icon@ == "auto"@
    &&& is_default_printer(c.printer)
    &&& is_default_scale(c.scale)
}

impl Default for PrinterConfig {
    fn default() -> (r: Self)
        ensures
            is_default_printer(r),
    {
        PrinterConfig {
            usb_vendor_id: None,
            usb_product_id: None,
            usb_endpoint: default_endpoint(),
            chunk_size: default_chunk_size(),
            system_printer_name: None,
            prefer_system_backend: false,
        }
    }
}

impl Default for ScaleConfig {
    fn default() -> (r: Self)
        ensures
            is_default_scale(r),
    {
        ScaleConfig {
            enabled: false,
            serial_port: None,
            protocol: default_scale_protocol(),
            baud_rate: default_baud_rate(),
            data_bits: default_data_bits(),
            parity: default_parity(),
            stop_bits: default_stop_bits(),
            stable_reads: default_stable_reads(),
            stable_window_ms: default_stable_window_ms(),
        }
    }
}

impl Default for AgentConfig {
    fn default() -> (r: Self)
        ensures
            is_default_agent(r),
    {
        AgentConfig {
            port: default_port(),
            tray_icon: default_tray_icon(),
            printer: PrinterConfig::default(),
            scale: ScaleConfig::default(),
        }
    }
}

} // verus!

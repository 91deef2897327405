//! Text shown by the tray menu.

use vstd::prelude::*;
use crate::config::AgentConfig;
use crate::text::{push_str, string_of};

verus! {

/// The printer part of the status line.
pub open spec fn printer_label(c: AgentConfig) -> Seq<char> {
    match c.printer.system_printer_name {
        Some(name) => "Impresora: "@ + name@,
        None => if c.printer.prefer_system_backend {
            "Impresora: sistema (predeterminada)"@
        } else {
            "Impresora: auto (HID o sistema)"@
        },
    }
}

/// The scale part of the status line.
pub open spec fn scale_label(c: AgentConfig) -> Seq<char> {
    if c.scale.enabled {
        let port = match c.scale.serial_port {
            Some(p) => p@,
            None => "sin puerto"@,
        };
        "Balanza: "@ + c.scale.protocol@ + " ("@ + port + ")"@
    } else {
        "Balanza: desactivada"@
    }
}

/// The status line: printer and scale parts separated by ` | `.
pub open spec fn status_text(c: AgentConfig) -> Seq<char> {
    printer_label(c) + " | "@ + scale_label(c)
}

/// The status line shown in the tray menu and tooltip.
pub fn status_label(config: &AgentConfig) -> (res: String)
    ensures
        res@ == status_text(*config),
{
    let mut out: Vec<char> = Vec::new();
    match &config.printer.system_printer_name {
        Some(name) => {
            push_str(&mut out, "Impresora: ");
            push_str(&mut out, name.as_str());
        },
        None => {
            if config.printer.prefer_system_backend {
                push_str(&mut out, "Impresora: sistema (predeterminada)");
            } else {
                push_str(&mut out, "Impresora: auto (HID o sistema)");
            }
        },
    }
    let ghost printer = out@;
    push_str(&mut out, " | ");
    if config.scale.enabled {
        push_str(&mut out, "Balanza: ");
        push_str(&mut out, config.scale.protocol.as_str());
        push_str(&mut out, " (");
        match &config.scale.serial_port {
            Some(p) => push_str(&mut out, p.as_str()),
            None => push_str(&mut out, "sin puerto"),
        }
        push_str(&mut out, ")");
    } else {
        push_str(&mut out, "Balanza: desactivada");
    }
    assert(out@ =~= status_text(*config));
    string_of(out.as_slice())
}


/// `t` begins with `p`.
pub open spec fn begins_with(t: Seq<char>, p: Seq<char>) -> bool {
    p.len() <= t.len() && t.subrange(0, p.len() as int) == p
}

/// `t` ends with `p`.
pub open spec fn ends_with(t: Seq<char>, p: Seq<char>) -> bool {
    p.len() <= t.len() && t.subrange(t.len() - p.len(), t.len() as int) == p
}

/// The status line names a configured system printer first, whether or not
/// the system backend is preferred; without one it tells whether the system
/// backend is preferred. It ends with the scale's protocol and port when
/// the scale is enabled, and says it is disabled otherwise.
pub proof fn lemma_status_line(c: AgentConfig)
    ensures
        c.printer.system_printer_name matches Some(name) ==> begins_with(
            status_text(c),
            "Impresora: "@ + name@ + " | "@,
        ),
        c.printer.system_printer_name is None && c.printer.prefer_system_backend ==> begins_with(
            status_text(c),
            "Impresora: sistema (predeterminada)"@ + " | "@,
        ),
        c.printer.system_printer_name is None && !c.printer.prefer_system_backend
            ==> begins_with(status_text(c), "Impresora: auto (HID o sistema)"@ + " | "@),
        !c.scale.enabled ==> ends_with(status_text(c), " | "@ + "Balanza: desactivada"@),
        c.scale.enabled ==> ends_with(
            status_text(c),
            " | "@ + "Balanza: "@ + c.scale.protocol@ + " ("@ + (match c.scale.serial_port {
                Some(p) => p@,
                None => "sin puerto"@,
            }) + ")"@,
        ),
{
    let p = printer_label(c);
    let sep = " | "@;
    let sc = scale_label(c);
    let t = status_text(c);
    assert(t.subrange(0, (p + sep).len() as int) =~= p + sep);
    assert(t.subrange(t.len() - (sep + sc).len(), t.len() as int) =~= sep + sc);
    if c.scale.enabled {
        let port = match c.scale.serial_port {
            Some(q) => q@,
            None => "sin puerto"@,
        };
        assert(sep + sc =~= sep + "Balanza: "@ + c.scale.protocol@ + " ("@ + port + ")"@);
    }
    match c.printer.system_printer_name {
        Some(name) => {
            assert(p + sep =~= "Impresora: "@ + name@ + " | "@);
        },
        None => {},
    }
}

} // verus!

use vstd::prelude::*;
use vstd::string::*;

use crate::net::{text_of, NetworkInfo};

verus! {

/// Side length of the tray icon, in pixels.
pub const ICON_SIZE: usize = 18;

/// What the menu-bar item shows and remembers: whether the static
/// configuration is applied, the status line, and the address in use.
pub struct App {
    pub applied: bool,
    pub status: String,
    pub current_ip: Option<String>,
}

/// The command that a toggle runs.
pub enum ToggleAction {
    /// Give the service back to DHCP.
    RestoreDhcp,
    /// Configure the service with a static address.
    ApplyStatic,
}

pub open spec fn mode_text(applied: bool) -> Seq<char> {
    if applied {
        "PROXY"@
    } else {
        "DHCP"@
    }
}

pub open spec fn failure_text(e: Seq<char>) -> Seq<char> {
    "Failed: "@ + e + ". Try running with sudo."@
}

pub open spec fn tooltip_text(status: Seq<char>, ip: Option<Seq<char>>) -> Seq<char> {
    match ip {
        Some(a) => status + " ("@ + a + ")"@,
        None => status,
    }
}

/// The colour of the icon: green while applied, grey otherwise.
pub open spec fn icon_color(applied: bool) -> Seq<u8> {
    if applied {
        seq![46u8, 204u8, 113u8, 255u8]
    } else {
        seq![149u8, 165u8, 166u8, 255u8]
    }
}

fn mode_str(applied: bool) -> (r: &'static str)
    ensures
        r@ == mode_text(applied),
{
    if applied {
        "PROXY"
    } else {
        "DHCP"
    }
}

impl App {
    pub fn new() -> (r: App)
        ensures
            !r.applied,
            r.status@ == "Ready."@,
            r.current_ip is None,
    {
        App { applied: false, status: "Ready.".to_owned(), current_ip: None }
    }

    /// Takes the state that the service was found in at start: applied
    /// where it is not in DHCP mode; unknown where it could not be read.
    pub fn init(&mut self, detected: Option<NetworkInfo>)
        ensures
            match detected {
                Some(info) => {
                    &&& final(self).applied == !info.is_dhcp
                    &&& final(self).status@ == mode_text(!info.is_dhcp)
                    &&& text_of(final(self).current_ip) == text_of(info.ip)
                },
                None => {
                    &&& !final(self).applied
                    &&& final(self).status@ == "Unknown"@
                    &&& final(self).current_ip is None
                },
            },
    {
        match detected {
            Some(info) => {
                self.applied = !info.is_dhcp;
                self.status = mode_str(self.applied).to_owned();
                self.current_ip = info.ip;
            },
            None => {
                self.applied = false;
                self.status = "Unknown".to_owned();
                self.current_ip = None;
            },
        }
    }

    /// What a toggle does from this state: exactly one of restoring DHCP,
    /// while the static configuration is applied, or applying it.
    pub fn toggle_action(&self) -> (r: ToggleAction)
        ensures
            r is RestoreDhcp <==> self.applied,
            r is ApplyStatic <==> !self.applied,
    {
        if self.applied {
            ToggleAction::RestoreDhcp
        } else {
            ToggleAction::ApplyStatic
        }
    }

    /// Takes the outcome of a toggle: `Ok(Some(ip))` where the static
    /// configuration was applied with `ip`, `Ok(None)` where DHCP was restored,
    /// `Err(e)` where the command failed. Success flips the state; failure
    /// only says so in the status.
    pub fn finish_toggle(&mut self, outcome: &Result<Option<String>, String>)
        requires
            outcome matches Ok(ip) ==> (ip is Some <==> !old(self).applied),
        ensures
            match outcome {
                Ok(ip) => {
                    &&& final(self).applied == !old(self).applied
                    &&& final(self).status@ == mode_text(final(self).applied)
                    &&& text_of(final(self).current_ip) == text_of(*ip)
                },
                Err(e) => {
                    &&& final(self).applied == old(self).applied
                    &&& final(self).status@ == failure_text(e@)
                    &&& text_of(final(self).current_ip) == text_of(old(self).current_ip)
                },
            },
    {
        match outcome {
            Ok(ip) => {
                self.applied = !self.applied;
                self.status = mode_str(self.applied).to_owned();
                self.current_ip = match ip {
                    Some(a) => Some(a.clone()),
                    None => None,
                };
            },
            Err(e) => {
                let mut s = "Failed: ".to_owned();
                s.append(e.as_str());
                s.append(". Try running with sudo.");
                self.status = s;
            },
        }
    }

    /// The title beside the icon.
    pub fn title(&self) -> (r: &'static str)
        ensures
            r@ == mode_text(self.applied),
    {
        mode_str(self.applied)
    }

    /// The tooltip: the status, with the address in use after it.
    pub fn tooltip(&self) -> (r: String)
        ensures
            r@ == tooltip_text(self.status@, text_of(self.current_ip)),
    {
        let mut t = self.status.clone();
        match &self.current_ip {
            Some(ip) => {
                t.append(" (");
                t.append(ip.as_str());
                t.append(")");
            },
            None => {},
        }
        t
    }

    /// The label of the menu item that toggles.
    pub fn toggle_label(&self) -> (r: &'static str)
        ensures
            r@ == (if self.applied {
                "Stop"@
            } else {
                "Apply"@
            }),
    {
        if self.applied {
            "Stop"
        } else {
            "Apply"
        }
    }
}

/// The RGBA pixels of the square tray icon, every pixel in the colour of the state.
pub fn icon_rgba(applied: bool) -> (r: Vec<u8>)
    ensures
        r@.len() == ICON_SIZE * ICON_SIZE * 4,
        forall|i: int| 0 <= i < r@.len() ==> r@[i] == icon_color(applied)[i % 4],
{
    let color: [u8; 4] = if applied {
        [46, 204, 113, 255]
    } else {
        [149, 165, 166, 255]
    };
    assert(color@ =~= icon_color(applied));
    let n: usize = ICON_SIZE * ICON_SIZE * 4;
    let mut r: Vec<u8> = Vec::with_capacity(n);
    let mut i: usize = 0;
    while i < n
        invariant
            n == ICON_SIZE * ICON_SIZE * 4,
            i <= n,
            r@.len() == i,
            color@ == icon_color(applied),
            forall|j: int| 0 <= j < i ==> r@[j] == icon_color(applied)[j % 4],
        decreases n - i,
    {
        r.push(color[i % 4]);
        i += 1;
    }
    r
}

} // verus!

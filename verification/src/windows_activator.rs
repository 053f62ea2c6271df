//! The COM server behind a toast's buttons: what is registered for it, and how a launch that
//! exists only to serve a press is told from one the user asked for.
use vstd::prelude::*;
use vstd::string::*;

use crate::text::{hex, hex_read, hex_reads_back, hex_span, hex_text, same_text};

verus! {

/// Identifies the activator to the notification platform. Toasts already delivered resolve
/// their buttons by it.
pub const ACTIVATOR_CLSID: u128 = 0x912d80e7_8dc8_4d6a_b9e8_83f8325024a4;

/// Argument of the registered command.
pub const TOAST_ACTIVATED_ARG: &'static str = "-ToastActivated";

/// Whether the process was started to serve a press rather than by the user.
pub fn is_activation_launch(argv: &[String]) -> (r: bool)
    ensures
        r == exists|i: int| 0 <= i < argv@.len() && (#[trigger] argv@[i])@ == TOAST_ACTIVATED_ARG@,
{
    let mut i: usize = 0;
    while i < argv.len()
        invariant
            i <= argv@.len(),
            forall|j: int| 0 <= j < i ==> (#[trigger] argv@[j])@ != TOAST_ACTIVATED_ARG@,
        decreases argv@.len() - i,
    {
        if same_text(argv[i].as_str(), TOAST_ACTIVATED_ARG) {
            return true;
        }
        i += 1;
    }
    false
}

/// A class identifier as the registry writes it: the digits of its number in groups of
/// eight, four, four, four and twelve, in braces.
pub open spec fn guid_text(id: u128) -> Seq<char> {
    let high = (id / 0x1_0000_0000_0000_0000) as nat;
    let low = (id % 0x1_0000_0000_0000_0000) as nat;
    "{"@ + hex(high / 0x1_0000_0000, 8) + "-"@ + hex(high / 0x1_0000 % 0x1_0000, 4) + "-"@ + hex(
        high % 0x1_0000,
        4,
    ) + "-"@ + hex(low / 0x1_0000_0000_0000, 4) + "-"@ + hex(low % 0x1_0000_0000_0000, 12) + "}"@
}

/// The activator's identifier in the only shape the registry accepts.
pub fn clsid_string() -> (r: String)
    ensures
        r@ == guid_text(ACTIVATOR_CLSID),
{
    let high: u64 = (ACTIVATOR_CLSID / 0x1_0000_0000_0000_0000) as u64;
    let low: u64 = (ACTIVATOR_CLSID % 0x1_0000_0000_0000_0000) as u64;
    let mut r = "{".to_string();
    r.append(hex_text(high / 0x1_0000_0000, 8).as_str());
    r.append("-");
    r.append(hex_text(high / 0x1_0000 % 0x1_0000, 4).as_str());
    r.append("-");
    r.append(hex_text(high % 0x1_0000, 4).as_str());
    r.append("-");
    r.append(hex_text(low / 0x1_0000_0000_0000, 4).as_str());
    r.append("-");
    r.append(hex_text(low % 0x1_0000_0000_0000, 12).as_str());
    r.append("}");
    r
}

/// What is registered so that a press finds its way back.
#[derive(Debug, PartialEq)]
pub struct Registration {
    /// The key under which the command stands that starts the server.
    pub server_key: String,
    pub command: String,
    /// The key of the application's own identity.
    pub identity_key: String,
    /// What that key names as its activator.
    pub activator: String,
}

/// The registration for an executable, under the identity its toasts are posted under.
pub fn registration(exe: &str, identifier: &str) -> (r: Registration)
    ensures
        r.activator@ == guid_text(ACTIVATOR_CLSID),
        r.server_key@ == "Software\\Classes\\CLSID\\"@ + guid_text(ACTIVATOR_CLSID)
            + "\\LocalServer32"@,
        r.command@ == "\""@ + exe@ + "\" "@ + TOAST_ACTIVATED_ARG@,
        r.identity_key@ == "Software\\Classes\\AppUserModelId\\"@ + identifier@,
{
    let activator = clsid_string();
    let mut server_key = "Software\\Classes\\CLSID\\".to_string();
    server_key.append(activator.as_str());
    server_key.append("\\LocalServer32");
    let mut command = "\"".to_string();
    command.append(exe);
    command.append("\" ");
    command.append(TOAST_ACTIVATED_ARG);
    let mut identity_key = "Software\\Classes\\AppUserModelId\\".to_string();
    identity_key.append(identifier);
    Registration { server_key, command, identity_key, activator }
}

/// A class identifier reads as its number: thirty-two digits in five groups, each of its own
/// length, between braces.
pub proof fn identifier_reads_as_its_number(id: u128)
    ensures
        ({
            let text = guid_text(id);
            &&& text.len() == 38
            &&& text[0] == '{' && text[37] == '}'
            &&& text[9] == '-' && text[14] == '-' && text[19] == '-' && text[24] == '-'
            &&& hex_read(text.subrange(1, 9)) * 0x1_0000_0000_0000_0000_0000_0000 + hex_read(
                text.subrange(10, 14),
            ) * 0x1_0000_0000_0000_0000_0000 + hex_read(text.subrange(15, 19))
                * 0x1_0000_0000_0000_0000 + hex_read(text.subrange(20, 24)) * 0x1_0000_0000_0000
                + hex_read(text.subrange(25, 37)) == id
        }),
{
    let high = (id / 0x1_0000_0000_0000_0000) as nat;
    let low = (id % 0x1_0000_0000_0000_0000) as nat;
    let a = high / 0x1_0000_0000;
    let b = high / 0x1_0000 % 0x1_0000;
    let c = high % 0x1_0000;
    let d = low / 0x1_0000_0000_0000;
    let e = low % 0x1_0000_0000_0000;
    reveal_with_fuel(hex_span, 13);
    assert(hex_span(4) == 0x1_0000);
    assert(hex_span(8) == 0x1_0000_0000);
    assert(hex_span(12) == 0x1_0000_0000_0000);
    hex_reads_back(a, 8);
    hex_reads_back(b, 4);
    hex_reads_back(c, 4);
    hex_reads_back(d, 4);
    hex_reads_back(e, 12);
    reveal_strlit("{");
    reveal_strlit("-");
    reveal_strlit("}");
    let text = guid_text(id);
    assert(text.subrange(1, 9) =~= hex(a, 8));
    assert(text.subrange(10, 14) =~= hex(b, 4));
    assert(text.subrange(15, 19) =~= hex(c, 4));
    assert(text.subrange(20, 24) =~= hex(d, 4));
    assert(text.subrange(25, 37) =~= hex(e, 12));
}

} // verus!

//! The OUI tables built into the `oui-data` crate, used when the IEEE
//! tables cannot be downloaded.

use vstd::prelude::*;
use crate::net::{mac_text, MacAddr};
use crate::oui::{opt_oui_view, Oui, OuiData};

verus! {

/// The organization `oui_data::lookup` finds for a MAC address text in the
/// tables built into the crate, if any
pub uninterp spec fn builtin_organization(mac: Seq<char>) -> Option<Seq<char>>;

/// Every character of the text is ASCII
pub open spec fn ascii_text(s: Seq<char>) -> bool {
    forall|i: int| 0 <= i < s.len() ==> (s[i] as u32) < 128
}

/// `oui_data::lookup`: the organization of the record the crate's built-in
/// tables hold for the MAC address text. The result is
/// `builtin_organization` of the text; what the tables hold is not stated
/// here. The crate slices the text by bytes, so it takes ASCII text only.
#[verifier::external_body]
fn builtin_lookup(mac: &str) -> (r: Option<String>)
    requires
        ascii_text(mac@),
    ensures
        match r {
            Some(s) => builtin_organization(mac@) == Some(s@),
            None => builtin_organization(mac@) is None,
        },
{
    oui_data::lookup(mac).map(|d| d.organization().to_string())
}

proof fn lemma_byte_hex_ascii(b: u8)
    ensures
        ascii_text(crate::net::byte_hex(b)),
{
    let h = crate::net::byte_hex(b);
    assert(h.len() == 2);
}

/// The text of a MAC address is ASCII
proof fn lemma_mac_text_ascii(mac: MacAddr)
    ensures
        ascii_text(mac_text(mac)),
{
    lemma_byte_hex_ascii(mac.0);
    lemma_byte_hex_ascii(mac.1);
    lemma_byte_hex_ascii(mac.2);
    lemma_byte_hex_ascii(mac.3);
    lemma_byte_hex_ascii(mac.4);
    lemma_byte_hex_ascii(mac.5);
    let t = mac_text(mac);
    assert forall|i: int| 0 <= i < t.len() implies (t[i] as u32) < 128 by {
        let c = seq![':'];
        let h0 = crate::net::byte_hex(mac.0);
        let h1 = crate::net::byte_hex(mac.1);
        let h2 = crate::net::byte_hex(mac.2);
        let h3 = crate::net::byte_hex(mac.3);
        let h4 = crate::net::byte_hex(mac.4);
        let h5 = crate::net::byte_hex(mac.5);
        assert(t =~= h0 + c + h1 + c + h2 + c + h3 + c + h4 + c + h5);
        assert(0 <= i < 17);
        if i < 2 {
            assert(t[i] == h0[i]);
        } else if i == 2 || i == 5 || i == 8 || i == 11 || i == 14 {
            assert(t[i] == ':');
        } else if i < 5 {
            assert(t[i] == h1[i - 3]);
        } else if i < 8 {
            assert(t[i] == h2[i - 6]);
        } else if i < 11 {
            assert(t[i] == h3[i - 9]);
        } else if i < 14 {
            assert(t[i] == h4[i - 12]);
        } else {
            assert(t[i] == h5[i - 15]);
        }
    }
}

/// Offline OUI database used when the IEEE data files cannot be downloaded
pub struct OfflineOuiDb;

impl OfflineOuiDb {
    /// The record the built-in tables hold for the MAC address, looked up
    /// by its text
    pub fn lookup_mac(&self, mac: MacAddr) -> (r: Option<OuiData>)
        ensures
            opt_oui_view(r) == builtin_organization(mac_text(mac)),
    {
        let text = mac.to_text();
        proof {
            lemma_mac_text_ascii(mac);
        }
        match builtin_lookup(text.as_str()) {
            Some(o) => Some(OuiData::new(o)),
            None => None,
        }
    }
}

impl Oui for OfflineOuiDb {
    fn lookup(&self, mac: MacAddr) -> (r: Option<OuiData>)
        ensures
            opt_oui_view(r) == builtin_organization(mac_text(mac)),
    {
        self.lookup_mac(mac)
    }
}

} // verus!

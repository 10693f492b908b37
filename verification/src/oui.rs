//! OUI lookup: the organization a MAC address prefix is registered to,
//! from the IEEE tables kept on disk or from the tables built into the
//! `oui-data` crate.

use vstd::prelude::*;
use crate::net::MacAddr;

pub mod db;
pub mod offline_db;

verus! {

/// OUI record: the organization registered for an OUI prefix
pub struct OuiData {
    pub(crate) organization: String,
}

impl View for OuiData {
    type V = Seq<char>;

    closed spec fn view(&self) -> Seq<char> {
        self.organization@
    }
}

impl OuiData {
    /// The record of an organization
    pub fn new(organization: String) -> (d: OuiData)
        ensures
            d@ == organization@,
    {
        OuiData { organization }
    }

    /// The vendor / organization of this record
    pub fn organization(&self) -> (s: &str)
        ensures
            s@ == self@,
    {
        self.organization.as_str()
    }

    /// A copy of this record
    pub fn copy(&self) -> (d: OuiData)
        ensures
            d@ == self@,
    {
        OuiData { organization: self.organization.clone() }
    }
}

/// The plain contents of an optional record
pub open spec fn opt_oui_view(d: Option<OuiData>) -> Option<Seq<char>> {
    match d {
        Some(x) => Some(x@),
        None => None,
    }
}

/// Resolves a MAC address to its registered OUI organization
pub trait Oui {
    /// The record for the MAC address, or `None` when its prefix is not
    /// known
    fn lookup(&self, mac: MacAddr) -> Option<OuiData>;
}

/// What to do with the OUI tables kept on disk before loading them
#[derive(Clone, Copy, PartialEq, Eq, Structural, Debug)]
pub enum OuiRefresh {
    /// Load the tables as they are
    Load,
    /// Download fresh tables, then load them; when the download fails,
    /// keep the tables there are
    UpdateKeepingOld,
    /// Download the tables, then load them; when the download fails, use
    /// the tables built into `oui-data`
    UpdateElseOffline,
}

/// What to do with the tables kept on disk, given their age: `None` when
/// a table is missing, `Some(None)` when the time elapsed since the oldest
/// was written is unknown, else that time. Tables older than `max_age` are
/// refreshed, missing tables downloaded; otherwise they are loaded.
pub fn oui_refresh_plan(age: Option<Option<u128>>, max_age: u128) -> (r: OuiRefresh)
    ensures
        r == (match age {
            None => OuiRefresh::UpdateElseOffline,
            Some(Some(elapsed)) => if elapsed > max_age {
                OuiRefresh::UpdateKeepingOld
            } else {
                OuiRefresh::Load
            },
            Some(None) => OuiRefresh::Load,
        }),
{
    match age {
        None => OuiRefresh::UpdateElseOffline,
        Some(Some(elapsed)) => {
            if elapsed > max_age {
                OuiRefresh::UpdateKeepingOld
            } else {
                OuiRefresh::Load
            }
        },
        Some(None) => OuiRefresh::Load,
    }
}

/// The oldest of the times at which the tables were written, or `None`
/// when one of them is missing (or its time unknown)
pub open spec fn oldest_time(times: Seq<Option<u128>>) -> Option<u128>
    decreases times.len(),
{
    if times.len() == 0 {
        None
    } else if times.len() == 1 {
        times[0]
    } else {
        match (oldest_time(times.drop_last()), times.last()) {
            (Some(a), Some(b)) => Some(if b < a { b } else { a }),
            _ => None,
        }
    }
}

/// The oldest of the times at which the tables were written, or `None`
/// when one of them is missing or its time unknown
pub fn oldest(times: &Vec<Option<u128>>) -> (r: Option<u128>)
    ensures
        r == oldest_time(times@),
{
    let n = times.len();
    if n == 0 {
        return None;
    }
    let mut r = times[0];
    let mut i: usize = 1;
    while i < n
        invariant
            n == times@.len(),
            1 <= i <= n,
            r == oldest_time(times@.take(i as int)),
        decreases n - i,
    {
        assert(times@.take(i as int + 1).drop_last() =~= times@.take(i as int));
        r = match (r, times[i]) {
            (Some(a), Some(b)) => Some(if b < a { b } else { a }),
            _ => None,
        };
        i = i + 1;
    }
    assert(times@.take(n as int) =~= times@);
    r
}

} // verus!

//! Per-player display snapshots and their one-line rendering.

use vstd::prelude::*;
use vstd::string::StringExecFns;
use crate::names::{short_name, short_name_spec};

verus! {

/// The display-relevant state of one player: an immutable value, replaced
/// wholesale on each reconciliation, never partially mutated.
#[derive(Clone, Debug)]
pub struct PlayerData {
    /// The player's identity: its full bus name.
    pub service_name: String,
    /// The resolved display title; absent when no metadata was usable.
    pub title: Option<String>,
    /// The decimal rendering of the player's volume; absent when the volume
    /// was unreadable.
    pub volume: Option<String>,
}

/// The mathematical value of a [`PlayerData`].
pub struct PlayerDataView {
    pub service_name: Seq<char>,
    pub title: Option<Seq<char>>,
    pub volume: Option<Seq<char>>,
}

impl View for PlayerData {
    type V = PlayerDataView;

    open spec fn view(&self) -> PlayerDataView {
        PlayerDataView {
            service_name: self.service_name@,
            title: self.title.deep_view(),
            volume: self.volume.deep_view(),
        }
    }
}

impl DeepView for PlayerData {
    type V = PlayerDataView;

    open spec fn deep_view(&self) -> PlayerDataView {
        self.view()
    }
}

impl PlayerData {
    /// Builds the snapshot of one player from the outcome of its reads.
    pub fn new(service_name: String, title: Option<String>, volume: Option<String>) -> (d:
        PlayerData)
        ensures
            d@.service_name == service_name@,
            d@.title == title.deep_view(),
            d@.volume == volume.deep_view(),
    {
        PlayerData { service_name, title, volume }
    }

    /// Renders this snapshot as its display line; see [`render_spec`].
    pub fn render(&self) -> (r: String)
        ensures
            r@ == render_spec(self@),
    {
        let sn = short_name(self.service_name.as_str());
        let mut r = String::from_str(sn);
        match &self.title {
            Some(t) => {
                match &self.volume {
                    Some(v) => {
                        r.append("[");
                        r.append(v.as_str());
                        r.append("]: ");
                        r.append(t.as_str());
                    },
                    None => {
                        r.append(": ");
                        r.append(t.as_str());
                    },
                }
            },
            None => {
                r.append(": Nothing");
            },
        }
        proof {
            assert(r@ =~= render_spec(self@));
        }
        r
    }
}

/// The display line of one snapshot: the short name, then `"[<volume>]"`
/// when the volume is known, then `": <title>"`, falling back to
/// `": Nothing"` when no title is known.
pub open spec fn render_spec(d: PlayerDataView) -> Seq<char> {
    let short = short_name_spec(d.service_name);
    match d.title {
        Some(t) => match d.volume {
            Some(v) => short + "["@ + v + "]: "@ + t,
            None => short + ": "@ + t,
        },
        None => short + ": Nothing"@,
    }
}

} // verus!

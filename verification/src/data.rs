//! Application-side records the pipeline's surroundings keep: file locations,
//! the add-channel request, and the bounded history of user actions.

use vstd::prelude::*;

verus! {

/// Where the application keeps its files.
pub struct AppPaths {
    pub app_dir: String,
    pub settings_file: String,
    pub db: String,
}

/// A request to start monitoring one more channel.
pub struct AddChannelOptions {
    pub url: String,
    pub from_time: i64,
    pub refresh_rate_ms: u64,
    pub tags: Vec<String>,
}

/// One user-visible action, for the history view.
#[derive(Debug, Clone)]
pub enum Action {
    CheckNow,
    Archive(String),
    Unarchive(String),
    AddChannel(String),
    UpdateOrDeleteChannels(String),
}

/// The most recent user actions, each with the second it happened, capped at
/// the hundred newest.
#[derive(Debug, Clone)]
pub struct UndoHistory {
    pub entries: Vec<(u32, Action)>,
}

impl UndoHistory {
    pub fn new() -> (r: Self)
        ensures
            r.entries@.len() == 0,
    {
        UndoHistory { entries: Vec::new() }
    }

    /// Record one action at the given second. The oldest entry falls out once
    /// the history holds more than a hundred.
    pub fn push(&mut self, now: u32, action: Action)
        ensures
            ({
                let appended = old(self).entries@.push((now, action));
                final(self).entries@ == if appended.len() > 100 {
                    appended.subrange(1, appended.len() as int)
                } else {
                    appended
                }
            }),
    {
        self.entries.push((now, action));
        if self.entries.len() > 100 {
            self.entries.remove(0);
            proof {
                assert(self.entries@ =~= old(self).entries@.push((now, action)).subrange(
                    1,
                    old(self).entries@.push((now, action)).len() as int,
                ));
            }
        }
    }
}

} // verus!

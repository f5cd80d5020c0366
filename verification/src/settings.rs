//! Channel configuration: what to poll, how often, and with which key.
//!
//! The configuration is owned and mutated by the surrounding application;
//! the pipeline only reads it.

use vstd::prelude::*;

verus! {

/// One monitored channel.
#[derive(Debug, Clone)]
pub struct Channel {
    pub id: String,
    pub name: String,
    pub icon: String,
    pub uploads_playlist_id: String,
    /// Ingestion floor: items announced strictly before this epoch-millisecond
    /// instant are never ingested.
    pub from_time: i64,
    /// The polling period of this channel, in milliseconds.
    pub refresh_rate_ms: u64,
    pub tags: Vec<String>,
}

/// The application settings that drive the scheduler.
#[derive(Debug, Clone)]
pub struct Settings {
    pub api_key: String,
    pub max_concurrent_requests: u32,
    pub channels: Vec<Channel>,
    pub check_in_background: bool,
}

/// The key used when the settings carry none.
pub fn default_key() -> (r: String)
    ensures
        r@ == "SECRET-REDACTED"@,
{
    String::from_str("SECRET-REDACTED")
}

impl Settings {
    /// Wrap the settings in the current settings-file version.
    pub fn wrap(self) -> (r: VersionedSettings)
        ensures
            r == VersionedSettings::V1(self),
    {
        VersionedSettings::V1(self)
    }

    /// The configured key, or the default key when none is configured.
    pub fn api_key_or_default(&self) -> (r: String)
        ensures
            self.api_key@.len() == 0 ==> r@ == "SECRET-REDACTED"@,
            self.api_key@.len() != 0 ==> r@ == self.api_key@,
    {
        if self.api_key.as_str().is_empty() {
            default_key()
        } else {
            self.api_key.clone()
        }
    }

    pub fn set_api_key(&mut self, key: String)
        ensures
            final(self).api_key == key,
            final(self).max_concurrent_requests == old(self).max_concurrent_requests,
            final(self).channels == old(self).channels,
            final(self).check_in_background == old(self).check_in_background,
    {
        self.api_key = key;
    }
}

/// The settings file is versioned; this is every version the library knows.
#[derive(Debug, Clone)]
pub enum VersionedSettings {
    V1(Settings),
}

impl Default for VersionedSettings {
    /// Fresh settings: no key, no channels, background checking on.
    fn default() -> (r: Self)
        ensures
            r matches VersionedSettings::V1(s) && s.api_key@.len() == 0
                && s.max_concurrent_requests == 5 && s.channels@.len() == 0
                && s.check_in_background,
    {
        VersionedSettings::V1(Settings {
            api_key: String::new(),
            max_concurrent_requests: 5,
            channels: Vec::new(),
            check_in_background: true,
        })
    }
}

impl VersionedSettings {
    /// The settings inside, whatever the version, for reading and mutation.
    pub fn unwrap(&mut self) -> (r: &mut Settings)
        ensures
            *old(self) == VersionedSettings::V1(*r),
            *final(self) == VersionedSettings::V1(*final(r)),
    {
        match self {
            VersionedSettings::V1(settings) => settings,
        }
    }

    /// A borrow of the settings inside, whatever the version.
    pub fn unwrap_ref(&self) -> (r: &Settings)
        ensures
            *self == VersionedSettings::V1(*r),
    {
        match self {
            VersionedSettings::V1(settings) => settings,
        }
    }
}

} // verus!

//! Raw daily entries as the upstream e-solat source returns them, and the
//! validation of its response envelope.

use vstd::prelude::*;

use crate::text::str_eq;

verus! {

/// One day's prayer times as the upstream source sends them: a textual
/// date and free-form time texts, not yet validated.
pub struct PrayerTime {
    pub hijri: String,
    pub date: String,
    pub day: String,
    pub imsak: String,
    pub fajr: String,
    pub syuruk: String,
    pub dhuhr: String,
    pub asr: String,
    pub maghrib: String,
    pub isha: String,
}

impl Clone for PrayerTime {
    fn clone(&self) -> (r: Self)
        ensures
            r == *self,
    {
        PrayerTime {
            hijri: self.hijri.clone(),
            date: self.date.clone(),
            day: self.day.clone(),
            imsak: self.imsak.clone(),
            fajr: self.fajr.clone(),
            syuruk: self.syuruk.clone(),
            dhuhr: self.dhuhr.clone(),
            asr: self.asr.clone(),
            maghrib: self.maghrib.clone(),
            isha: self.isha.clone(),
        }
    }
}

/// Why a fetch from the upstream source failed. A failed fetch only skips
/// the current zone's current window; it never aborts the whole run.
#[derive(Debug)]
pub enum SourceError {
    /// The transport failed before any response arrived.
    Transport,
    /// The response carried a non-success HTTP status code.
    HttpStatus(u16),
    /// The response body did not match the expected schema.
    Schema,
    /// The response's status marker was not the expected "OK!" sentinel.
    BadStatus(String),
}

/// Accepts an upstream response exactly when its status marker is the
/// literal "OK!", handing back the entries in the order they arrived.
pub fn validate_jakim_response(status: &str, entries: Vec<PrayerTime>) -> (r: Result<
    Vec<PrayerTime>,
    SourceError,
>)
    ensures
        match r {
            Ok(v) => status@ == "OK!"@ && v == entries,
            Err(e) => {
                &&& status@ != "OK!"@
                &&& e is BadStatus
                &&& e->BadStatus_0@ == status@
            },
        },
{
    if str_eq(status, "OK!") {
        Ok(entries)
    } else {
        Err(SourceError::BadStatus(status.to_owned()))
    }
}

} // verus!

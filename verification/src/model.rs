//! Data model of the chat service: snowflake identifiers, users and messages,
//! and the calendar timestamp carried in the upper bits of every snowflake.

use vstd::prelude::*;

use chrono::{Datelike, Timelike};

verus! {

/// Marker for the identifier newtypes that wrap a snowflake.
pub trait Sealed {

}

/// A channel identifier.
#[derive(Clone, Copy, Debug, PartialEq, Eq, Structural, Hash, Default)]
pub struct ChannelId(pub u64);

/// A message identifier.
#[derive(Clone, Copy, Debug, PartialEq, Eq, Structural, Hash, Default)]
pub struct MessageId(pub u64);

/// A user identifier.
#[derive(Clone, Copy, Debug, PartialEq, Eq, Structural, Hash, Default)]
pub struct UserId(pub u64);

impl Sealed for ChannelId {

}

impl Sealed for MessageId {

}

impl Sealed for UserId {

}

/// A user of the chat service.
#[derive(Clone, Debug, PartialEq, Eq)]
pub struct User {
    pub id: UserId,
    pub name: String,
}

/// Mathematical value of a [`User`]: its identifier and the characters of its
/// name.
pub ghost struct UserV {
    pub id: u64,
    pub name: Seq<char>,
}

impl DeepView for User {
    type V = UserV;

    open spec fn deep_view(&self) -> UserV {
        UserV { id: self.id.0, name: self.name@ }
    }
}

/// A message posted to a channel.
#[derive(Clone, Debug, PartialEq, Eq)]
pub struct Message {
    pub id: MessageId,
    pub author: User,
    pub channel: ChannelId,
    pub content: String,
}

/// Mathematical value of a [`Message`].
pub ghost struct MessageV {
    pub id: u64,
    pub author: UserV,
    pub channel: u64,
    pub content: Seq<char>,
}

impl DeepView for Message {
    type V = MessageV;

    open spec fn deep_view(&self) -> MessageV {
        MessageV {
            id: self.id.0,
            author: self.author.deep_view(),
            channel: self.channel.0,
            content: self.content@,
        }
    }
}

/// A calendar date and time of day, in UTC.
#[derive(Clone, Copy, Debug, PartialEq, Eq, Structural)]
pub struct Civil {
    pub year: i32,
    pub month: u32,
    pub day: u32,
    pub hour: u32,
    pub minute: u32,
    pub second: u32,
}

/// The calendar fields of the instant `ms` milliseconds after the Quaddle
/// epoch, 2024-01-01T00:00:00Z. A function of `ms` alone.
pub uninterp spec fn civil_of(ms: int) -> (int, int, int, int, int, int);

/// Relies on chrono: `NaiveDate::from_ymd_opt(2024, 1, 1)` and
/// `NaiveDateTime::and_utc` build the Quaddle epoch, `TimeDelta::milliseconds`
/// and `DateTime` addition advance it, and the `Datelike`/`Timelike` accessors
/// read the calendar fields back. The result depends on `ms` alone; the bound
/// on `ms` keeps the sum inside chrono's representable range.
#[verifier::external_body]
fn civil_from_epoch_millis(ms: u64) -> (r: Civil)
    requires
        ms < 0x400_0000_0000,
    ensures
        (r.year as int, r.month as int, r.day as int, r.hour as int, r.minute as int, r.second as int)
            == civil_of(ms as int),
        ms == 0 ==> r == (Civil { year: 2024, month: 1, day: 1, hour: 0, minute: 0, second: 0 }),
{
    let epoch = chrono::NaiveDate::from_ymd_opt(2024, 1, 1)
        .expect("the epoch is a valid date")
        .and_hms_opt(0, 0, 0)
        .expect("midnight is a valid time")
        .and_utc();
    let dt = epoch + chrono::TimeDelta::milliseconds(ms as i64);
    Civil {
        year: dt.year(),
        month: dt.month(),
        day: dt.day(),
        hour: dt.hour(),
        minute: dt.minute(),
        second: dt.second(),
    }
}

/// Milliseconds elapsed since the Quaddle epoch, read from the upper bits of
/// a snowflake identifier.
pub fn snowflake_millis(sf: u64) -> (ms: u64)
    ensures
        ms == sf >> 22,
        ms < 0x400_0000_0000,
{
    proof {
        assert(sf >> 22 < 0x400_0000_0000) by (bit_vector);
    }
    sf >> 22
}

/// The creation instant encoded in a snowflake, as a UTC calendar date and
/// time.
pub fn snowflake_timestamp(sf: u64) -> (r: Civil)
    ensures
        (r.year as int, r.month as int, r.day as int, r.hour as int, r.minute as int, r.second as int)
            == civil_of((sf >> 22) as int),
{
    let ms = snowflake_millis(sf);
    civil_from_epoch_millis(ms)
}

impl ChannelId {
    /// The creation instant of this identifier. Never fails.
    pub fn timestamp(self) -> (r: Civil)
        ensures
            (r.year as int, r.month as int, r.day as int, r.hour as int, r.minute as int, r.second as int)
                == civil_of((self.0 >> 22) as int),
    {
        snowflake_timestamp(self.0)
    }
}

impl MessageId {
    /// The creation instant of this identifier. Never fails.
    pub fn timestamp(self) -> (r: Civil)
        ensures
            (r.year as int, r.month as int, r.day as int, r.hour as int, r.minute as int, r.second as int)
                == civil_of((self.0 >> 22) as int),
    {
        snowflake_timestamp(self.0)
    }
}

impl UserId {
    /// The creation instant of this identifier. Never fails.
    pub fn timestamp(self) -> (r: Civil)
        ensures
            (r.year as int, r.month as int, r.day as int, r.hour as int, r.minute as int, r.second as int)
                == civil_of((self.0 >> 22) as int),
    {
        snowflake_timestamp(self.0)
    }
}

} // verus!

//! The persisted bot configuration.

use vstd::prelude::*;
use crate::calendar;
use crate::datetime::TimeOfDay;
use crate::selector::{contains_string, seq_contains_str};
use crate::strutil::str_eq;

verus! {

/// A persisted text field: no control characters, so the JSON form of the
/// configuration can carry it with only quote and backslash escapes.
pub open spec fn text_ok(s: Seq<char>) -> bool {
    forall|i: int| 0 <= i < s.len() ==> (s[i] as u32) >= 32
}

pub open spec fn texts_ok(s: Seq<String>) -> bool {
    forall|i: int| 0 <= i < s.len() ==> text_ok(s[i]@)
}

#[derive(Debug, Clone)]
pub struct BotConfig {
    /// The list of members ids that can be selected. Adds all of the channel
    /// when added to a channel.
    pub members: Vec<String>,
    /// Members that have been selected.
    pub selected: Vec<String>,
    /// The channel on which this bot will post. Single channel per config.
    pub channel: String,
    /// As input only accepts dates, this is the time that will be applied to
    /// the input date.
    pub target_time: TimeOfDay,
    /// How many days in advance to schedule the post, relative to the target
    /// time, to give some leeway for the joke to be prepared.
    pub advance_days: i64,
    /// On the day from `advance_days`, post at this time.
    pub post_time: TimeOfDay,
    /// Delay in seconds for "instant" schedules, such as the reroll.
    pub instant_delay: i64,
    /// Slack API token for the bot.
    pub token: Option<String>,
    /// Bot's own id, acquired as a check for the token, and making sure it
    /// never adds itself as member.
    pub id: String,
}

impl BotConfig {
    /// Well-formed configuration: proper times of day, a nonnegative
    /// advance-days offset within the supported calendar span, a bounded
    /// instant delay, and persisted text without control characters.
    pub open spec fn wf(self) -> bool {
        &&& self.target_time.wf()
        &&& self.post_time.wf()
        &&& 0 <= self.advance_days <= calendar::DAY_INDEX_CEIL
        &&& 0 <= self.instant_delay <= 1_000_000_000
        &&& texts_ok(self.members@)
        &&& texts_ok(self.selected@)
        &&& text_ok(self.channel@)
        &&& (self.token matches Some(t) ==> text_ok(t@))
        &&& text_ok(self.id@)
    }
}

impl Default for BotConfig {
    /// The configuration a fresh installation starts from.
    fn default() -> (c: BotConfig)
        ensures
            c.members@.len() == 0,
            c.selected@.len() == 0,
            c.channel@.len() == 0,
            c.target_time == (TimeOfDay { hour: 11, minute: 30, second: 0 }),
            c.post_time == (TimeOfDay { hour: 11, minute: 30, second: 0 }),
            c.advance_days == 1,
            c.instant_delay == 45,
            c.token is None,
            c.id@.len() == 0,
            c.wf(),
    {
        BotConfig {
            members: Vec::new(),
            selected: Vec::new(),
            channel: String::new(),
            target_time: TimeOfDay { hour: 11, minute: 30, second: 0 },
            advance_days: 1,
            post_time: TimeOfDay { hour: 11, minute: 30, second: 0 },
            instant_delay: 45,
            token: None,
            id: String::new(),
        }
    }
}

/// The members a fetched channel roster adds: those that are neither the
/// bot itself nor already on the roster. Order is kept.
pub open spec fn merge_filtered(
    members: Seq<String>,
    fetched: Seq<String>,
    own_id: Seq<char>,
) -> Seq<String>
    decreases fetched.len(),
{
    if fetched.len() == 0 {
        Seq::empty()
    } else {
        let rest = merge_filtered(members, fetched.drop_last(), own_id);
        let e = fetched.last();
        if e@ != own_id && !seq_contains_str(members, e@) {
            rest.push(e)
        } else {
            rest
        }
    }
}

impl BotConfig {
    /// Extends the roster with a fetched channel member list, leaving out
    /// the bot's own id and ids already on the roster. Nothing else of the
    /// configuration changes.
    pub fn merge_members(&mut self, fetched: Vec<String>)
        ensures
            final(self).members@ == old(self).members@ + merge_filtered(
                old(self).members@,
                fetched@,
                old(self).id@,
            ),
            final(self).selected == old(self).selected,
            final(self).channel == old(self).channel,
            final(self).target_time == old(self).target_time,
            final(self).advance_days == old(self).advance_days,
            final(self).post_time == old(self).post_time,
            final(self).instant_delay == old(self).instant_delay,
            final(self).token == old(self).token,
            final(self).id == old(self).id,
    {
        let mut additions: Vec<String> = Vec::new();
        let mut i: usize = 0;
        while i < fetched.len()
            invariant
                i <= fetched@.len(),
                *self == *old(self),
                additions@ == merge_filtered(
                    self.members@,
                    fetched@.take(i as int),
                    self.id@,
                ),
            decreases fetched@.len() - i,
        {
            let e = &fetched[i];
            if !str_eq(e.as_str(), self.id.as_str()) && !contains_string(&self.members, e) {
                additions.push(e.clone());
            }
            proof {
                assert(fetched@.take(i as int + 1).drop_last() =~= fetched@.take(i as int));
                assert(fetched@.take(i as int + 1).last() == fetched@[i as int]);
            }
            i = i + 1;
        }
        proof {
            assert(fetched@.take(fetched@.len() as int) =~= fetched@);
        }
        self.members.append(&mut additions);
    }
}

} // verus!

//! Selection of the most recent sample that is not in the future.
use crate::model::AirQualityHourly;
use vstd::prelude::*;

verus! {

/// The instant, in seconds since 1970-01-01T00:00 UTC, that `text` names in
/// the form `YYYY-MM-DDTHH:MM` read as UTC, if it names one.
pub uninterp spec fn stamp_of_text(text: Seq<char>) -> Option<int>;

/// Relies on chrono's `NaiveDateTime::parse_from_str` with `%Y-%m-%dT%H:%M`,
/// `and_utc` and `timestamp`: the instant that the text names, or nothing.
#[verifier::external_body]
fn parse_stamp(text: &str) -> (r: Option<i64>)
    ensures
        match r {
            Some(t) => stamp_of_text(text@) == Some(t as int),
            None => stamp_of_text(text@) is None,
        },
{
    chrono::NaiveDateTime::parse_from_str(text, "%Y-%m-%dT%H:%M").ok().map(|t| t.and_utc().timestamp())
}

/// The instants of a sequence of optional machine integers.
pub open spec fn as_instants(s: Seq<Option<i64>>) -> Seq<Option<int>> {
    Seq::new(
        s.len(),
        |i: int|
            match s[i] {
                Some(t) => Some(t as int),
                None => None,
            },
    )
}

/// The instants that the timestamps of a batch name.
pub open spec fn stamps_of(batch: Seq<AirQualityHourly>) -> Seq<Option<int>> {
    Seq::new(batch.len(), |i: int| stamp_of_text(batch[i].time@))
}

/// Position `i` holds an instant that is not after `now`.
pub open spec fn qualifies(s: Seq<Option<int>>, i: int, now: int) -> bool {
    &&& 0 <= i < s.len()
    &&& s[i] is Some
    &&& s[i]->0 <= now
}

/// Position `k` holds the latest instant not after `now`, and no earlier
/// position holds the same instant.
pub open spec fn is_latest(s: Seq<Option<int>>, now: int, k: int) -> bool {
    &&& qualifies(s, k, now)
    &&& forall|j: int|
        #[trigger] qualifies(s, j, now) ==> s[j]->0 <= s[k]->0 && (j < k ==> s[j]->0 < s[k]->0)
}

/// The position of the latest instant not after `now` (the first such
/// position on a tie), or nothing when no position qualifies.
pub open spec fn latest_index(s: Seq<Option<int>>, now: int) -> Option<int> {
    if exists|k: int| is_latest(s, now, k) {
        Some(choose|k: int| is_latest(s, now, k))
    } else {
        None
    }
}

/// The record with the latest timestamp not after `now`, or none.
pub open spec fn most_recent_spec(batch: Seq<AirQualityHourly>, now: int) -> Seq<
    AirQualityHourly,
> {
    match latest_index(stamps_of(batch), now) {
        Some(k) => seq![batch[k]],
        None => seq![],
    }
}

proof fn lemma_latest_unique(s: Seq<Option<int>>, now: int, k1: int, k2: int)
    requires
        is_latest(s, now, k1),
        is_latest(s, now, k2),
    ensures
        k1 == k2,
{
    assert(qualifies(s, k1, now) && qualifies(s, k2, now));
}

proof fn lemma_latest_index(s: Seq<Option<int>>, now: int, k: int)
    requires
        is_latest(s, now, k),
    ensures
        latest_index(s, now) == Some(k),
{
    let c = choose|c: int| is_latest(s, now, c);
    lemma_latest_unique(s, now, k, c);
}

/// The position of the latest instant that is not after `now`; among equal
/// instants the first. Positions without an instant never qualify.
pub fn latest_not_after(stamps: &Vec<Option<i64>>, now: i64) -> (r: Option<usize>)
    ensures
        match r {
            Some(k) => latest_index(as_instants(stamps@), now as int) == Some(k as int),
            None => latest_index(as_instants(stamps@), now as int) is None,
        },
{
    let ghost s = as_instants(stamps@);
    let mut best: Option<usize> = None;
    let mut i: usize = 0;
    while i < stamps.len()
        invariant
            s == as_instants(stamps@),
            i <= stamps@.len(),
            match best {
                Some(k) => k < i && qualifies(s, k as int, now as int) && forall|j: int|
                    0 <= j < i && #[trigger] qualifies(s, j, now as int) ==> s[j]->0 <= s[k as int]->0
                        && (j < k ==> s[j]->0 < s[k as int]->0),
                None => forall|j: int| 0 <= j < i ==> !#[trigger] qualifies(s, j, now as int),
            },
        decreases stamps@.len() - i,
    {
        if let Some(t) = stamps[i] {
            if t <= now {
                let better = match best {
                    Some(k) => match stamps[k] {
                        Some(tk) => t > tk,
                        None => false,
                    },
                    None => true,
                };
                if better {
                    best = Some(i);
                }
            }
        }
        i = i + 1;
    }
    match best {
        Some(k) => {
            proof {
                lemma_latest_index(s, now as int, k as int);
            }
        },
        None => {
            assert(!exists|k: int| is_latest(s, now as int, k));
        },
    }
    best
}

/// The instants that the timestamps of a batch name, in order; nothing
/// where a timestamp cannot be read.
pub fn parse_stamps(batch: &Vec<AirQualityHourly>) -> (r: Vec<Option<i64>>)
    ensures
        r@.len() == batch@.len(),
        as_instants(r@) == stamps_of(batch@),
{
    let mut stamps: Vec<Option<i64>> = Vec::new();
    let mut i: usize = 0;
    while i < batch.len()
        invariant
            i <= batch@.len(),
            stamps@.len() == i,
            as_instants(stamps@) == stamps_of(batch@).subrange(0, i as int),
        decreases batch@.len() - i,
    {
        let text = batch[i].time.as_str();
        let t = parse_stamp(text);
        assert(text@ == batch@[i as int].time@);
        let ghost before = stamps@;
        stamps.push(t);
        assert(stamps@ == before.push(t));
        assert(stamps@[i as int] == t);
        assert(stamps_of(batch@)[i as int] == stamp_of_text(text@));
        assert(as_instants(stamps@)[i as int] == stamps_of(batch@)[i as int]);
        assert(as_instants(stamps@).subrange(0, i as int) =~= as_instants(before));
        i = i + 1;
        assert(as_instants(stamps@) =~= stamps_of(batch@).subrange(0, i as int));
    }
    assert(as_instants(stamps@) =~= stamps_of(batch@));
    stamps
}

/// Keeps, of a batch, only the record whose timestamp is the latest one not
/// after `now` (seconds since 1970-01-01T00:00 UTC); records whose timestamp
/// cannot be read are passed over. An empty result means nothing qualified.
pub fn most_recent(batch: Vec<AirQualityHourly>, now: i64) -> (r: Vec<AirQualityHourly>)
    ensures
        r@ == most_recent_spec(batch@, now as int),
{
    let stamps = parse_stamps(&batch);
    let ghost whole = batch@;
    let mut batch = batch;
    let mut out: Vec<AirQualityHourly> = Vec::new();
    match latest_not_after(&stamps, now) {
        Some(k) => {
            let record = batch.swap_remove(k);
            out.push(record);
            assert(out@ =~= most_recent_spec(whole, now as int));
        },
        None => {},
    }
    out
}

/// With no record at or before `now` (all in the future or unreadable),
/// nothing is selected.
pub proof fn lemma_only_future_yields_nothing(batch: Seq<AirQualityHourly>, now: int)
    requires
        forall|i: int|
            0 <= i < batch.len() ==> match #[trigger] stamp_of_text(batch[i].time@) {
                Some(t) => t > now,
                None => true,
            },
    ensures
        most_recent_spec(batch, now).len() == 0,
{
    let s = stamps_of(batch);
    assert forall|k: int| !is_latest(s, now, k) by {
        if 0 <= k < batch.len() {
            assert(s[k] == stamp_of_text(batch[k].time@));
        }
    }
}

} // verus!

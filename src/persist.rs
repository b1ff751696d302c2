//! The shape of the bulk insert: a batch of rows turned into one array per
//! column, position `i` of every array making up row `i`.
use crate::ieee::{truncate_spec, Ieee64};
use crate::model::{column, column_of, AirQualityHourly, Quantity};
use crate::recency::{as_instants, parse_stamps, stamps_of};
use vstd::prelude::*;

verus! {

/// The column arrays of one bulk insert, all of the same length.
pub struct BulkInsert {
    /// Instants in seconds since 1970-01-01T00:00 UTC.
    pub times: Vec<i64>,
    pub pm10: Vec<Option<Ieee64>>,
    pub pm2_5: Vec<Option<Ieee64>>,
    pub carbon_monoxide: Vec<Option<Ieee64>>,
    pub carbon_dioxide: Vec<Option<Ieee64>>,
    pub nitrogen_dioxide: Vec<Option<Ieee64>>,
    pub sulphur_dioxide: Vec<Option<Ieee64>>,
    pub ozone: Vec<Option<Ieee64>>,
    pub methane: Vec<Option<Ieee64>>,
    pub uv_index: Vec<Option<Ieee64>>,
    pub dust: Vec<Option<Ieee64>>,
    pub aerosol_optical_depth: Vec<Option<Ieee64>>,
    /// The index narrowed to a whole number, truncated toward zero.
    pub us_aqi: Vec<Option<i64>>,
}

/// Why a batch cannot be stored.
#[derive(Clone, Copy, Debug, PartialEq, Eq, Structural)]
pub enum PersistError {
    /// The record at this position has a timestamp that cannot be read;
    /// the whole batch is refused.
    InvalidTimestamp { index: usize },
}

/// The air-quality index as stored: truncated toward zero, absent stays
/// absent.
pub open spec fn stored_index(reading: Option<Ieee64>) -> Option<int> {
    match reading {
        Some(x) => Some(truncate_spec(x.bits)),
        None => None,
    }
}

/// Every position holds an instant.
pub open spec fn all_readable(stamps: Seq<Option<int>>) -> bool {
    forall|i: int| 0 <= i < stamps.len() ==> (#[trigger] stamps[i]) is Some
}

/// `index` is the first position that holds no instant.
pub open spec fn is_first_unreadable(stamps: Seq<Option<int>>, index: int) -> bool {
    &&& 0 <= index < stamps.len()
    &&& stamps[index] is None
    &&& forall|j: int| 0 <= j < index ==> (#[trigger] stamps[j]) is Some
}

/// `b` holds the batch in column form, with `stamps` (the instants of its
/// timestamps) for times and the index narrowed to an integer.
pub open spec fn is_bulk_of(b: BulkInsert, batch: Seq<AirQualityHourly>, stamps: Seq<Option<int>>) -> bool {
    &&& b.times@.len() == batch.len()
    &&& forall|i: int| 0 <= i < batch.len() ==> #[trigger] stamps[i] == Some(b.times@[i] as int)
    &&& b.pm10@ == column_of(batch, Quantity::Pm10)
    &&& b.pm2_5@ == column_of(batch, Quantity::Pm2_5)
    &&& b.carbon_monoxide@ == column_of(batch, Quantity::CarbonMonoxide)
    &&& b.carbon_dioxide@ == column_of(batch, Quantity::CarbonDioxide)
    &&& b.nitrogen_dioxide@ == column_of(batch, Quantity::NitrogenDioxide)
    &&& b.sulphur_dioxide@ == column_of(batch, Quantity::SulphurDioxide)
    &&& b.ozone@ == column_of(batch, Quantity::Ozone)
    &&& b.methane@ == column_of(batch, Quantity::Methane)
    &&& b.uv_index@ == column_of(batch, Quantity::UvIndex)
    &&& b.dust@ == column_of(batch, Quantity::Dust)
    &&& b.aerosol_optical_depth@ == column_of(batch, Quantity::AerosolOpticalDepth)
    &&& b.us_aqi@.len() == batch.len()
    &&& forall|i: int|
        0 <= i < batch.len() ==> match #[trigger] b.us_aqi@[i] {
            Some(v) => stored_index(batch[i].us_aqi) == Some(v as int),
            None => batch[i].us_aqi is None,
        }
}

/// Turns a batch, with the instants of its timestamps (`stamps`, position
/// for position; nothing where a timestamp cannot be read), into the column
/// arrays of one bulk insert. An empty batch needs no insert. A timestamp
/// that cannot be read refuses the whole batch, naming the first such
/// record.
pub fn bulk_insert_from(batch: &Vec<AirQualityHourly>, stamps: &Vec<Option<i64>>) -> (r: Result<
    Option<BulkInsert>,
    PersistError,
>)
    requires
        stamps@.len() == batch@.len(),
    ensures
        batch@.len() == 0 ==> r is Ok && r->Ok_0 is None,
        batch@.len() > 0 ==> match r {
            Ok(Some(b)) => all_readable(as_instants(stamps@)) && is_bulk_of(
                b,
                batch@,
                as_instants(stamps@),
            ),
            Ok(None) => false,
            Err(PersistError::InvalidTimestamp { index }) => is_first_unreadable(
                as_instants(stamps@),
                index as int,
            ),
        },
{
    let ghost s = as_instants(stamps@);
    if batch.len() == 0 {
        return Ok(None);
    }
    let mut times: Vec<i64> = Vec::new();
    let mut i: usize = 0;
    while i < batch.len()
        invariant
            i <= batch@.len(),
            times@.len() == i,
            s == as_instants(stamps@),
            stamps@.len() == batch@.len(),
            forall|j: int| 0 <= j < i ==> #[trigger] s[j] == Some(times@[j] as int),
        decreases batch@.len() - i,
    {
        match stamps[i] {
            Some(t) => times.push(t),
            None => {
                assert forall|j: int| 0 <= j < i implies (#[trigger] s[j]) is Some by {
                    assert(s[j] == Some(times@[j] as int));
                }
                return Err(PersistError::InvalidTimestamp { index: i });
            },
        }
        i = i + 1;
    }
    let mut us_aqi: Vec<Option<i64>> = Vec::new();
    let mut i: usize = 0;
    while i < batch.len()
        invariant
            i <= batch@.len(),
            us_aqi@.len() == i,
            forall|j: int|
                0 <= j < i ==> match #[trigger] us_aqi@[j] {
                    Some(v) => stored_index(batch@[j].us_aqi) == Some(v as int),
                    None => batch@[j].us_aqi is None,
                },
        decreases batch@.len() - i,
    {
        let v = match batch[i].us_aqi {
            Some(x) => Some(x.truncate_to_i64()),
            None => None,
        };
        us_aqi.push(v);
        i = i + 1;
    }
    let b = BulkInsert {
        times,
        pm10: column(batch, Quantity::Pm10),
        pm2_5: column(batch, Quantity::Pm2_5),
        carbon_monoxide: column(batch, Quantity::CarbonMonoxide),
        carbon_dioxide: column(batch, Quantity::CarbonDioxide),
        nitrogen_dioxide: column(batch, Quantity::NitrogenDioxide),
        sulphur_dioxide: column(batch, Quantity::SulphurDioxide),
        ozone: column(batch, Quantity::Ozone),
        methane: column(batch, Quantity::Methane),
        uv_index: column(batch, Quantity::UvIndex),
        dust: column(batch, Quantity::Dust),
        aerosol_optical_depth: column(batch, Quantity::AerosolOpticalDepth),
        us_aqi,
    };
    assert forall|j: int| 0 <= j < batch@.len() implies (#[trigger] s[j]) is Some by {
        assert(s[j] == Some(b.times@[j] as int));
    }
    Ok(Some(b))
}

/// Turns a batch into the column arrays of one bulk insert, reading each
/// timestamp as `YYYY-MM-DDTHH:MM` in UTC. An empty batch needs no insert.
/// A timestamp that cannot be read refuses the whole batch, naming the
/// first such record.
pub fn plan_bulk_insert(batch: &Vec<AirQualityHourly>) -> (r: Result<Option<BulkInsert>, PersistError>)
    ensures
        batch@.len() == 0 ==> r is Ok && r->Ok_0 is None,
        batch@.len() > 0 ==> match r {
            Ok(Some(b)) => all_readable(stamps_of(batch@)) && is_bulk_of(
                b,
                batch@,
                stamps_of(batch@),
            ),
            Ok(None) => false,
            Err(PersistError::InvalidTimestamp { index }) => is_first_unreadable(
                stamps_of(batch@),
                index as int,
            ),
        },
{
    let stamps = parse_stamps(batch);
    bulk_insert_from(batch, &stamps)
}

} // verus!

//! The payload as the remote source sends it (one column per quantity) and
//! the row form that the pipeline moves around, with the two transpositions
//! between them.
use crate::ieee::Ieee64;
use vstd::prelude::*;

verus! {

/// The twelve measured quantities of a sample.
#[derive(Clone, Copy, Debug, PartialEq, Eq, Structural)]
pub enum Quantity {
    Pm10,
    Pm2_5,
    CarbonMonoxide,
    CarbonDioxide,
    NitrogenDioxide,
    SulphurDioxide,
    Ozone,
    Methane,
    UvIndex,
    Dust,
    AerosolOpticalDepth,
    UsAqi,
}

/// The hourly series as received: one sequence of timestamps and one
/// sequence of optional readings per quantity. The source sends them with
/// equal lengths; the code does not rely on it.
pub struct RawHourlyData {
    pub time: Vec<String>,
    pub pm10: Vec<Option<Ieee64>>,
    pub pm2_5: Vec<Option<Ieee64>>,
    pub carbon_monoxide: Vec<Option<Ieee64>>,
    pub carbon_dioxide: Vec<Option<Ieee64>>,
    pub nitrogen_dioxide: Vec<Option<Ieee64>>,
    pub sulphur_dioxide: Vec<Option<Ieee64>>,
    pub ozone: Vec<Option<Ieee64>>,
    pub methane: Vec<Option<Ieee64>>,
    pub uv_index: Vec<Option<Ieee64>>,
    pub dust: Vec<Option<Ieee64>>,
    pub aerosol_optical_depth: Vec<Option<Ieee64>>,
    pub us_aqi: Vec<Option<Ieee64>>,
}

/// The payload as received: location metadata and the hourly series.
pub struct RawAirQuality {
    pub latitude: Ieee64,
    pub longitude: Ieee64,
    pub elevation: Ieee64,
    pub generationtime_ms: Ieee64,
    pub utc_offset_seconds: i32,
    pub timezone: String,
    pub timezone_abbreviation: String,
    pub hourly: RawHourlyData,
}

/// One timestamp (`YYYY-MM-DDTHH:MM`, UTC) with the optional reading of
/// each quantity at that instant. An absent reading means "no data", never
/// zero.
#[derive(Clone, Debug)]
pub struct AirQualityHourly {
    pub time: String,
    pub pm10: Option<Ieee64>,
    pub pm2_5: Option<Ieee64>,
    pub carbon_monoxide: Option<Ieee64>,
    pub carbon_dioxide: Option<Ieee64>,
    pub nitrogen_dioxide: Option<Ieee64>,
    pub sulphur_dioxide: Option<Ieee64>,
    pub ozone: Option<Ieee64>,
    pub methane: Option<Ieee64>,
    pub uv_index: Option<Ieee64>,
    pub dust: Option<Ieee64>,
    pub aerosol_optical_depth: Option<Ieee64>,
    pub us_aqi: Option<Ieee64>,
}

/// A payload turned into rows, one per timestamp.
pub struct AirQuality {
    pub hourly: Vec<AirQualityHourly>,
}

/// The reading of quantity `q` in a record.
pub open spec fn reading_of(r: AirQualityHourly, q: Quantity) -> Option<Ieee64> {
    match q {
        Quantity::Pm10 => r.pm10,
        Quantity::Pm2_5 => r.pm2_5,
        Quantity::CarbonMonoxide => r.carbon_monoxide,
        Quantity::CarbonDioxide => r.carbon_dioxide,
        Quantity::NitrogenDioxide => r.nitrogen_dioxide,
        Quantity::SulphurDioxide => r.sulphur_dioxide,
        Quantity::Ozone => r.ozone,
        Quantity::Methane => r.methane,
        Quantity::UvIndex => r.uv_index,
        Quantity::Dust => r.dust,
        Quantity::AerosolOpticalDepth => r.aerosol_optical_depth,
        Quantity::UsAqi => r.us_aqi,
    }
}

/// The column of quantity `q` in a raw series.
pub open spec fn raw_column(raw: RawHourlyData, q: Quantity) -> Seq<Option<Ieee64>> {
    match q {
        Quantity::Pm10 => raw.pm10@,
        Quantity::Pm2_5 => raw.pm2_5@,
        Quantity::CarbonMonoxide => raw.carbon_monoxide@,
        Quantity::CarbonDioxide => raw.carbon_dioxide@,
        Quantity::NitrogenDioxide => raw.nitrogen_dioxide@,
        Quantity::SulphurDioxide => raw.sulphur_dioxide@,
        Quantity::Ozone => raw.ozone@,
        Quantity::Methane => raw.methane@,
        Quantity::UvIndex => raw.uv_index@,
        Quantity::Dust => raw.dust@,
        Quantity::AerosolOpticalDepth => raw.aerosol_optical_depth@,
        Quantity::UsAqi => raw.us_aqi@,
    }
}

/// Position `i` of a column, or absent where the column is too short.
pub open spec fn reading_at(col: Seq<Option<Ieee64>>, i: int) -> Option<Ieee64> {
    if 0 <= i < col.len() {
        col[i]
    } else {
        None
    }
}

/// The record at position `i` of a raw series.
pub open spec fn row_at(raw: RawHourlyData, i: int) -> AirQualityHourly {
    AirQualityHourly {
        time: raw.time@[i],
        pm10: reading_at(raw.pm10@, i),
        pm2_5: reading_at(raw.pm2_5@, i),
        carbon_monoxide: reading_at(raw.carbon_monoxide@, i),
        carbon_dioxide: reading_at(raw.carbon_dioxide@, i),
        nitrogen_dioxide: reading_at(raw.nitrogen_dioxide@, i),
        sulphur_dioxide: reading_at(raw.sulphur_dioxide@, i),
        ozone: reading_at(raw.ozone@, i),
        methane: reading_at(raw.methane@, i),
        uv_index: reading_at(raw.uv_index@, i),
        dust: reading_at(raw.dust@, i),
        aerosol_optical_depth: reading_at(raw.aerosol_optical_depth@, i),
        us_aqi: reading_at(raw.us_aqi@, i),
    }
}

/// The rows of a raw series: one per timestamp.
pub open spec fn flatten_spec(raw: RawHourlyData) -> Seq<AirQualityHourly> {
    Seq::new(raw.time@.len(), |i: int| row_at(raw, i))
}

/// The timestamps of a batch, in order.
pub open spec fn times_of(batch: Seq<AirQualityHourly>) -> Seq<String> {
    Seq::new(batch.len(), |i: int| batch[i].time)
}

/// The readings of quantity `q` across a batch, in order.
pub open spec fn column_of(batch: Seq<AirQualityHourly>, q: Quantity) -> Seq<Option<Ieee64>> {
    Seq::new(batch.len(), |i: int| reading_of(batch[i], q))
}

/// `raw` holds the batch in column form.
pub open spec fn is_columns_of(raw: RawHourlyData, batch: Seq<AirQualityHourly>) -> bool {
    &&& raw.time@ == times_of(batch)
    &&& forall|q: Quantity| #[trigger] raw_column(raw, q) == column_of(batch, q)
}

/// Every column of `raw` has as many entries as there are timestamps.
pub open spec fn is_rectangular(raw: RawHourlyData) -> bool {
    forall|q: Quantity| (#[trigger] raw_column(raw, q)).len() == raw.time@.len()
}

fn reading_at_index(col: &Vec<Option<Ieee64>>, i: usize) -> (r: Option<Ieee64>)
    ensures
        r == reading_at(col@, i as int),
{
    if i < col.len() {
        col[i]
    } else {
        None
    }
}

impl AirQualityHourly {
    /// The reading of quantity `q`.
    pub fn reading(&self, q: Quantity) -> (r: Option<Ieee64>)
        ensures
            r == reading_of(*self, q),
    {
        match q {
            Quantity::Pm10 => self.pm10,
            Quantity::Pm2_5 => self.pm2_5,
            Quantity::CarbonMonoxide => self.carbon_monoxide,
            Quantity::CarbonDioxide => self.carbon_dioxide,
            Quantity::NitrogenDioxide => self.nitrogen_dioxide,
            Quantity::SulphurDioxide => self.sulphur_dioxide,
            Quantity::Ozone => self.ozone,
            Quantity::Methane => self.methane,
            Quantity::UvIndex => self.uv_index,
            Quantity::Dust => self.dust,
            Quantity::AerosolOpticalDepth => self.aerosol_optical_depth,
            Quantity::UsAqi => self.us_aqi,
        }
    }
}

/// Turns a raw series into one record per timestamp, in order. A column
/// shorter than the timestamps gives absent readings for the missing tail.
pub fn flatten(raw: &RawHourlyData) -> (r: Vec<AirQualityHourly>)
    ensures
        r@ == flatten_spec(*raw),
{
    let n = raw.time.len();
    let mut rows: Vec<AirQualityHourly> = Vec::new();
    let mut i: usize = 0;
    while i < n
        invariant
            n == raw.time@.len(),
            i <= n,
            rows@ == flatten_spec(*raw).subrange(0, i as int),
        decreases n - i,
    {
        let row = AirQualityHourly {
            time: raw.time[i].clone(),
            pm10: reading_at_index(&raw.pm10, i),
            pm2_5: reading_at_index(&raw.pm2_5, i),
            carbon_monoxide: reading_at_index(&raw.carbon_monoxide, i),
            carbon_dioxide: reading_at_index(&raw.carbon_dioxide, i),
            nitrogen_dioxide: reading_at_index(&raw.nitrogen_dioxide, i),
            sulphur_dioxide: reading_at_index(&raw.sulphur_dioxide, i),
            ozone: reading_at_index(&raw.ozone, i),
            methane: reading_at_index(&raw.methane, i),
            uv_index: reading_at_index(&raw.uv_index, i),
            dust: reading_at_index(&raw.dust, i),
            aerosol_optical_depth: reading_at_index(&raw.aerosol_optical_depth, i),
            us_aqi: reading_at_index(&raw.us_aqi, i),
        };
        rows.push(row);
        i = i + 1;
        assert(rows@ =~= flatten_spec(*raw).subrange(0, i as int));
    }
    assert(rows@ =~= flatten_spec(*raw));
    rows
}

/// The readings of quantity `q` across a batch, in order.
pub fn column(batch: &Vec<AirQualityHourly>, q: Quantity) -> (r: Vec<Option<Ieee64>>)
    ensures
        r@ == column_of(batch@, q),
{
    let mut col: Vec<Option<Ieee64>> = Vec::new();
    let mut i: usize = 0;
    while i < batch.len()
        invariant
            i <= batch@.len(),
            col@ == column_of(batch@, q).subrange(0, i as int),
        decreases batch@.len() - i,
    {
        col.push(batch[i].reading(q));
        i = i + 1;
        assert(col@ =~= column_of(batch@, q).subrange(0, i as int));
    }
    assert(col@ =~= column_of(batch@, q));
    col
}

/// The timestamps of a batch, in order.
pub fn times(batch: &Vec<AirQualityHourly>) -> (r: Vec<String>)
    ensures
        r@ == times_of(batch@),
{
    let mut col: Vec<String> = Vec::new();
    let mut i: usize = 0;
    while i < batch.len()
        invariant
            i <= batch@.len(),
            col@ == times_of(batch@).subrange(0, i as int),
        decreases batch@.len() - i,
    {
        col.push(batch[i].time.clone());
        i = i + 1;
        assert(col@ =~= times_of(batch@).subrange(0, i as int));
    }
    assert(col@ =~= times_of(batch@));
    col
}

/// Turns a batch of records into column form: the inverse of [`flatten`].
pub fn to_columns(batch: &Vec<AirQualityHourly>) -> (r: RawHourlyData)
    ensures
        is_columns_of(r, batch@),
{
    let r = RawHourlyData {
        time: times(batch),
        pm10: column(batch, Quantity::Pm10),
        pm2_5: column(batch, Quantity::Pm2_5),
        carbon_monoxide: column(batch, Quantity::CarbonMonoxide),
        carbon_dioxide: column(batch, Quantity::CarbonDioxide),
        nitrogen_dioxide: column(batch, Quantity::NitrogenDioxide),
        sulphur_dioxide: column(batch, Quantity::SulphurDioxide),
        ozone: column(batch, Quantity::Ozone),
        methane: column(batch, Quantity::Methane),
        uv_index: column(batch, Quantity::UvIndex),
        dust: column(batch, Quantity::Dust),
        aerosol_optical_depth: column(batch, Quantity::AerosolOpticalDepth),
        us_aqi: column(batch, Quantity::UsAqi),
    };
    r
}

impl AirQuality {
    /// The rows of a payload: one record per timestamp of its series.
    pub fn from_raw(raw: RawAirQuality) -> (r: AirQuality)
        ensures
            r.hourly@ == flatten_spec(raw.hourly),
    {
        AirQuality { hourly: flatten(&raw.hourly) }
    }
}

/// Flattening yields one record per timestamp, and a quantity whose column
/// is shorter than the timestamps is absent from every record past its end.
pub proof fn lemma_flatten_shape(raw: RawHourlyData)
    ensures
        flatten_spec(raw).len() == raw.time@.len(),
        forall|q: Quantity, i: int|
            raw_column(raw, q).len() <= i < raw.time@.len() ==> (#[trigger] reading_of(
                flatten_spec(raw)[i],
                q,
            )) is None,
        forall|q: Quantity, i: int|
            0 <= i < raw_column(raw, q).len() && i < raw.time@.len() ==> #[trigger] reading_of(
                flatten_spec(raw)[i],
                q,
            ) == raw_column(raw, q)[i],
{
}

/// Putting a batch in column form and flattening it again gives back the
/// same records, every reading and every absence included.
pub proof fn lemma_columns_round_trip(batch: Seq<AirQualityHourly>, raw: RawHourlyData)
    requires
        is_columns_of(raw, batch),
    ensures
        flatten_spec(raw) == batch,
{
    assert forall|i: int| 0 <= i < batch.len() implies #[trigger] flatten_spec(raw)[i] == batch[i] by {
        assert(raw_column(raw, Quantity::Pm10)[i] == column_of(batch, Quantity::Pm10)[i]);
        assert(raw_column(raw, Quantity::Pm2_5)[i] == column_of(batch, Quantity::Pm2_5)[i]);
        assert(raw_column(raw, Quantity::CarbonMonoxide)[i] == column_of(batch, Quantity::CarbonMonoxide)[i]);
        assert(raw_column(raw, Quantity::CarbonDioxide)[i] == column_of(batch, Quantity::CarbonDioxide)[i]);
        assert(raw_column(raw, Quantity::NitrogenDioxide)[i] == column_of(batch, Quantity::NitrogenDioxide)[i]);
        assert(raw_column(raw, Quantity::SulphurDioxide)[i] == column_of(batch, Quantity::SulphurDioxide)[i]);
        assert(raw_column(raw, Quantity::Ozone)[i] == column_of(batch, Quantity::Ozone)[i]);
        assert(raw_column(raw, Quantity::Methane)[i] == column_of(batch, Quantity::Methane)[i]);
        assert(raw_column(raw, Quantity::UvIndex)[i] == column_of(batch, Quantity::UvIndex)[i]);
        assert(raw_column(raw, Quantity::Dust)[i] == column_of(batch, Quantity::Dust)[i]);
        assert(raw_column(raw, Quantity::AerosolOpticalDepth)[i] == column_of(batch, Quantity::AerosolOpticalDepth)[i]);
        assert(raw_column(raw, Quantity::UsAqi)[i] == column_of(batch, Quantity::UsAqi)[i]);
    }
    assert(flatten_spec(raw) =~= batch);
}

/// A series whose columns all match the timestamps comes back unchanged
/// from flattening and putting the rows in column form again.
pub proof fn lemma_rows_round_trip(raw: RawHourlyData, back: RawHourlyData)
    requires
        is_rectangular(raw),
        is_columns_of(back, flatten_spec(raw)),
    ensures
        back.time@ == raw.time@,
        forall|q: Quantity| #[trigger] raw_column(back, q) == raw_column(raw, q),
{
    assert(back.time@ =~= raw.time@);
    assert forall|q: Quantity| #[trigger] raw_column(back, q) == raw_column(raw, q) by {
        assert(raw_column(back, q) == column_of(flatten_spec(raw), q));
        assert(raw_column(raw, q).len() == raw.time@.len());
        assert(column_of(flatten_spec(raw), q) =~= raw_column(raw, q));
    }
}

} // verus!

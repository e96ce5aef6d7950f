use vstd::prelude::*;

use crate::wind::Wind;

verus! {

/// What a station forecast holds: the station code and its winds, lowest altitude first.
pub ghost struct StationRecord {
    pub station: Seq<char>,
    pub winds: Seq<Wind>,
}

/// The forecast winds of one station, one entry per altitude that the bulletin gives.
#[derive(Debug)]
pub struct StationForecast {
    pub station: String,
    pub winds: Vec<Wind>,
}

impl View for StationForecast {
    type V = StationRecord;

    open spec fn view(&self) -> StationRecord {
        StationRecord { station: self.station@, winds: self.winds@ }
    }
}

impl StationForecast {
    pub fn new(station: &str, winds: Vec<Wind>) -> (r: StationForecast)
        ensures
            r@ == (StationRecord { station: station@, winds: winds@ }),
    {
        StationForecast { station: station.to_owned(), winds }
    }

    /// The first wind of this station given at `altitude`, or `None` if there is none.
    pub fn wind_at_altitude(&self, altitude: u32) -> (r: Option<&Wind>)
        ensures
            r is None <==> forall|i: int|
                0 <= i < self.winds@.len() ==> (#[trigger] self.winds@[i]).altitude != altitude,
            r matches Some(w) ==> exists|i: int|
                0 <= i < self.winds@.len() && #[trigger] self.winds@[i] == *w && w.altitude == altitude
                    && forall|j: int| 0 <= j < i ==> (#[trigger] self.winds@[j]).altitude != altitude,
    {
        let mut i: usize = 0;
        while i < self.winds.len()
            invariant
                i <= self.winds@.len(),
                forall|j: int| 0 <= j < i ==> (#[trigger] self.winds@[j]).altitude != altitude,
            decreases self.winds@.len() - i,
        {
            if self.winds[i].altitude == altitude {
                return Some(&self.winds[i]);
            }
            i = i + 1;
        }
        None
    }
}

} // verus!

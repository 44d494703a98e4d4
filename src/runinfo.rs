//! Run information records and the cursor over them.
use vstd::prelude::*;

use crate::error::Error;

verus! {

/// Per-acquisition metadata, as plain values.
#[derive(Debug, Clone, PartialEq)]
pub struct RunInfo {
    pub acquisition_id: String,
    pub acquisition_start_time_ms: i64,
    pub adc_max: i16,
    pub adc_min: i16,
    /// Context tags, each key once (see `tags_from_pairs`).
    pub context_tags: Vec<(String, String)>,
    pub experiment_name: String,
    pub flow_cell_id: String,
    pub flow_cell_product_code: String,
    pub protocol_name: String,
    pub protocol_run_id: String,
    pub protocol_start_time_ms: i64,
    pub sample_id: String,
    pub sample_rate: u16,
    pub sequencing_kit: String,
    pub sequencer_position: String,
    pub sequencer_position_type: String,
    pub software: String,
    pub system_name: String,
    pub system_type: String,
    /// Tracking id data, each key once (see `tags_from_pairs`).
    pub tracking_id: Vec<(String, String)>,
}

impl RunInfo {
    /// The text shown for a string field that may have failed to decode.
    pub fn handle_result(result: Result<String, Error>) -> (r: String)
        ensures
            result matches Ok(s) ==> r@ == s@,
            result is Err ==> r@ == "<invalid UTF-8>"@,
    {
        match result {
            Ok(s) => s,
            Err(_) => "<invalid UTF-8>".to_string(),
        }
    }

    /// Acquisition id.
    pub fn acquisition_id(&self) -> (r: &str)
        ensures
            r@ == self.acquisition_id@,
    {
        self.acquisition_id.as_str()
    }

    /// Experiment name, if set.
    pub fn experiment_name(&self) -> (r: &str)
        ensures
            r@ == self.experiment_name@,
    {
        self.experiment_name.as_str()
    }

    /// Flow cell id.
    pub fn flow_cell_id(&self) -> (r: &str)
        ensures
            r@ == self.flow_cell_id@,
    {
        self.flow_cell_id.as_str()
    }

    /// Flow cell product code.
    pub fn flow_cell_product_code(&self) -> (r: &str)
        ensures
            r@ == self.flow_cell_product_code@,
    {
        self.flow_cell_product_code.as_str()
    }

    /// Protocol name, if set.
    pub fn protocol_name(&self) -> (r: &str)
        ensures
            r@ == self.protocol_name@,
    {
        self.protocol_name.as_str()
    }

    /// Protocol run id, if set.
    pub fn protocol_run_id(&self) -> (r: &str)
        ensures
            r@ == self.protocol_run_id@,
    {
        self.protocol_run_id.as_str()
    }

    /// Sample id, if set.
    pub fn sample_id(&self) -> (r: &str)
        ensures
            r@ == self.sample_id@,
    {
        self.sample_id.as_str()
    }

    /// Sequencing kit used.
    pub fn sequencing_kit(&self) -> (r: &str)
        ensures
            r@ == self.sequencing_kit@,
    {
        self.sequencing_kit.as_str()
    }

    /// Sequencer position.
    pub fn sequencer_position(&self) -> (r: &str)
        ensures
            r@ == self.sequencer_position@,
    {
        self.sequencer_position.as_str()
    }

    /// Sequencer position type.
    pub fn sequencer_position_type(&self) -> (r: &str)
        ensures
            r@ == self.sequencer_position_type@,
    {
        self.sequencer_position_type.as_str()
    }

    /// Software used for sequencing.
    pub fn software(&self) -> (r: &str)
        ensures
            r@ == self.software@,
    {
        self.software.as_str()
    }

    /// System name, if set.
    pub fn system_name(&self) -> (r: &str)
        ensures
            r@ == self.system_name@,
    {
        self.system_name.as_str()
    }

    /// System type.
    pub fn system_type(&self) -> (r: &str)
        ensures
            r@ == self.system_type@,
    {
        self.system_type.as_str()
    }

    /// Context tags, as key and value pairs.
    pub fn context_tags(&self) -> (r: &Vec<(String, String)>)
        ensures
            *r == self.context_tags,
    {
        &self.context_tags
    }

    /// Tracking id data, as key and value pairs.
    pub fn tracking_id(&self) -> (r: &Vec<(String, String)>)
        ensures
            *r == self.tracking_id,
    {
        &self.tracking_id
    }

    /// Acquisition start time in milliseconds.
    pub fn acquisition_start_time_ms(&self) -> (r: i64)
        ensures
            r == self.acquisition_start_time_ms,
    {
        self.acquisition_start_time_ms
    }

    /// Largest ADC value.
    pub fn adc_max(&self) -> (r: i16)
        ensures
            r == self.adc_max,
    {
        self.adc_max
    }

    /// Smallest ADC value.
    pub fn adc_min(&self) -> (r: i16)
        ensures
            r == self.adc_min,
    {
        self.adc_min
    }

    /// Protocol start time in milliseconds.
    pub fn protocol_start_time_ms(&self) -> (r: i64)
        ensures
            r == self.protocol_start_time_ms,
    {
        self.protocol_start_time_ms
    }

    /// Sample rate of the flow cell.
    pub fn sample_rate(&self) -> (r: u16)
        ensures
            r == self.sample_rate,
    {
        self.sample_rate
    }
}

/// The first run info position at or after record `row` of file `file`,
/// skipping files that have no more records.
pub open spec fn first_from(counts: Seq<u16>, file: int, row: int) -> Option<(usize, u16)>
    decreases counts.len() - file,
{
    if file < 0 || file >= counts.len() {
        None
    } else if row < counts[file] {
        Some((file as usize, row as u16))
    } else {
        first_from(counts, file + 1, 0)
    }
}

/// Every run info position of every file, file after file.
pub open spec fn positions_from(counts: Seq<u16>, file: int, row: int) -> Seq<(usize, u16)>
    decreases counts.len() - file, counts[file] - row,
{
    if file < 0 || file >= counts.len() {
        seq![]
    } else if 0 <= row < counts[file] {
        seq![(file as usize, row as u16)] + positions_from(counts, file, row + 1)
    } else {
        positions_from(counts, file + 1, 0)
    }
}

/// The cursor over the run info records of a set of files: each file's
/// budget is its run info count, read when the cursor enters the file.
pub struct RunInfoIter {
    counts: Vec<u16>,
    file: usize,
    row: u16,
}

impl RunInfoIter {
    /// A cursor over files with these run info counts, in this order.
    pub fn new(counts: Vec<u16>) -> (r: RunInfoIter)
        ensures
            r.spec_counts() == counts@,
            r.spec_file() == 0,
            r.spec_row() == 0,
    {
        RunInfoIter { counts, file: 0, row: 0 }
    }

    pub closed spec fn spec_counts(&self) -> Seq<u16> {
        self.counts@
    }

    pub closed spec fn spec_file(&self) -> int {
        self.file as int
    }

    pub closed spec fn spec_row(&self) -> int {
        self.row as int
    }

    /// The position (file, record index) of the next run info record to
    /// fetch, or `None` when every file is done; the cursor moves past it.
    pub fn next(&mut self) -> (r: Option<(usize, u16)>)
        ensures
            r == first_from(old(self).spec_counts(), old(self).spec_file(), old(self).spec_row()),
            final(self).spec_counts() == old(self).spec_counts(),
            r matches Some(p) ==> final(self).spec_file() == p.0 && final(self).spec_row() == p.1 + 1,
            r is None ==> final(self).spec_file() >= final(self).spec_counts().len(),
            positions_from(old(self).spec_counts(), old(self).spec_file(), old(self).spec_row()) == match r {
                Some(p) => seq![p] + positions_from(
                    final(self).spec_counts(),
                    final(self).spec_file(),
                    final(self).spec_row(),
                ),
                None => Seq::<(usize, u16)>::empty(),
            },
    {
        while self.file < self.counts.len() && self.row >= self.counts[self.file]
            invariant
                self.counts@ == old(self).counts@,
                first_from(self.counts@, self.file as int, self.row as int) == first_from(
                    old(self).counts@,
                    old(self).file as int,
                    old(self).row as int,
                ),
                positions_from(self.counts@, self.file as int, self.row as int) == positions_from(
                    old(self).counts@,
                    old(self).file as int,
                    old(self).row as int,
                ),
            decreases self.counts@.len() - self.file,
        {
            self.file = self.file + 1;
            self.row = 0;
        }
        if self.file >= self.counts.len() {
            return None;
        }
        let p = (self.file, self.row);
        self.row = self.row + 1;
        Some(p)
    }
}


/// Key and value pairs as plain values.
pub open spec fn pairs_view(p: Seq<(String, String)>) -> Seq<(Seq<char>, Seq<char>)> {
    p.map_values(|e: (String, String)| (e.0@, e.1@))
}

/// The keys of a list of pairs.
pub open spec fn pair_keys(p: Seq<(Seq<char>, Seq<char>)>) -> Seq<Seq<char>> {
    p.map_values(|e: (Seq<char>, Seq<char>)| e.0)
}

/// The map that pairs `p[k..]` describe, a later pair overriding an earlier
/// one with the same key: scanning from the end, each key is kept at its
/// first sighting.
pub open spec fn map_of_pairs(p: Seq<(Seq<char>, Seq<char>)>, k: int) -> Seq<(Seq<char>, Seq<char>)>
    decreases p.len() - k,
{
    if k < 0 || k >= p.len() {
        seq![]
    } else {
        let later = map_of_pairs(p, k + 1);
        if pair_keys(later).contains(p[k].0) {
            later
        } else {
            later.push(p[k])
        }
    }
}

/// The map of a list of pairs has each key once, has exactly the keys of the
/// pairs, and gives each key the value of its last pair.
pub proof fn lemma_map_of_pairs(p: Seq<(Seq<char>, Seq<char>)>, k: int)
    requires
        0 <= k,
    ensures
        pair_keys(map_of_pairs(p, k)).no_duplicates(),
        forall|key: Seq<char>|
            pair_keys(map_of_pairs(p, k)).contains(key) <==> exists|j: int| k <= j < p.len() && #[trigger] p[j].0 == key,
        forall|i: int|
            0 <= i < map_of_pairs(p, k).len() ==> exists|j: int|
                k <= j < p.len() && p[j] == #[trigger] map_of_pairs(p, k)[i] && forall|j2: int|
                    j < j2 < p.len() ==> p[j2].0 != p[j].0,
    decreases p.len() - k,
{
    if k < p.len() {
        lemma_map_of_pairs(p, k + 1);
        let later = map_of_pairs(p, k + 1);
        let m = map_of_pairs(p, k);
        if !pair_keys(later).contains(p[k].0) {
            assert(pair_keys(m) =~= pair_keys(later).push(p[k].0));
            assert forall|i: int, j: int|
                0 <= i < pair_keys(m).len() && 0 <= j < pair_keys(m).len() && i != j implies pair_keys(m)[i]
                != pair_keys(m)[j] by {
                if i == later.len() as int {
                    assert(pair_keys(later).contains(pair_keys(m)[j]));
                } else if j == later.len() as int {
                    assert(pair_keys(later).contains(pair_keys(m)[i]));
                }
            }
            assert forall|key: Seq<char>|
                pair_keys(m).contains(key) <==> exists|j: int| k <= j < p.len() && #[trigger] p[j].0 == key by {
                if pair_keys(m).contains(key) && !pair_keys(later).contains(key) {
                    let i = choose|i: int| 0 <= i < pair_keys(m).len() && pair_keys(m)[i] == key;
                    assert(i == later.len());
                    assert(p[k].0 == key);
                }
                if exists|j: int| k <= j < p.len() && #[trigger] p[j].0 == key {
                    let j = choose|j: int| k <= j < p.len() && #[trigger] p[j].0 == key;
                    if j == k {
                        assert(pair_keys(m)[later.len() as int] == key);
                    } else {
                        assert(k + 1 <= j < p.len() && p[j].0 == key);
                        assert(pair_keys(later).contains(key));
                        let i = choose|i: int| 0 <= i < pair_keys(later).len() && pair_keys(later)[i] == key;
                        assert(m[i] == later[i]);
                        assert(pair_keys(m)[i] == key);
                    }
                }
            }
            assert forall|i: int| 0 <= i < m.len() implies exists|j: int|
                k <= j < p.len() && p[j] == #[trigger] m[i] && forall|j2: int| j < j2 < p.len() ==> p[j2].0 != p[j].0 by {
                if i == later.len() as int {
                    assert forall|j2: int| k < j2 < p.len() implies p[j2].0 != p[k].0 by {
                        if p[j2].0 == p[k].0 {
                            assert(pair_keys(later).contains(p[k].0));
                        }
                    }
                    assert(p[k] == m[i]);
                } else {
                    assert(m[i] == later[i]);
                }
            }
        } else {
            assert(m == later);
            assert forall|key: Seq<char>|
                pair_keys(m).contains(key) <==> exists|j: int| k <= j < p.len() && #[trigger] p[j].0 == key by {
                if exists|j: int| k <= j < p.len() && #[trigger] p[j].0 == key {
                    let j = choose|j: int| k <= j < p.len() && #[trigger] p[j].0 == key;
                    if j > k {
                        assert(pair_keys(later).contains(key));
                    }
                }
            }
        }
    } else {
        assert(pair_keys(map_of_pairs(p, k)) =~= Seq::<Seq<char>>::empty());
    }
}

/// Turns the key and value pairs the storage engine lists for a run info map
/// into a map with each key once, a later pair overriding an earlier one.
pub fn tags_from_pairs(pairs: &Vec<(String, String)>) -> (r: Vec<(String, String)>)
    ensures
        pairs_view(r@) == map_of_pairs(pairs_view(pairs@), 0),
        pair_keys(pairs_view(r@)).no_duplicates(),
{
    let mut out: Vec<(String, String)> = Vec::new();
    let mut i: usize = pairs.len();
    proof {
        assert(pairs_view(out@) =~= map_of_pairs(pairs_view(pairs@), i as int));
    }
    while i > 0
        invariant
            i <= pairs@.len(),
            pairs_view(out@) == map_of_pairs(pairs_view(pairs@), i as int),
        decreases i,
    {
        i = i - 1;
        let ghost p = pairs_view(pairs@);
        let mut found = false;
        let mut j: usize = 0;
        while j < out.len()
            invariant
                j <= out@.len(),
                i < pairs@.len(),
                found == exists|m: int| 0 <= m < j && #[trigger] out@[m].0@ == pairs@[i as int].0@,
            decreases out@.len() - j,
        {
            if out[j].0 == pairs[i].0 {
                found = true;
            }
            j = j + 1;
        }
        proof {
            let keys = pair_keys(pairs_view(out@));
            if found {
                let m = choose|m: int| 0 <= m < j && #[trigger] out@[m].0@ == pairs@[i as int].0@;
                assert(keys[m] == p[i as int].0);
                assert(keys.contains(p[i as int].0));
            } else {
                assert forall|m: int| 0 <= m < keys.len() implies keys[m] != p[i as int].0 by {
                    assert(keys[m] == out@[m].0@);
                }
            }
        }
        if !found {
            let ghost before = out@;
            out.push((pairs[i].0.clone(), pairs[i].1.clone()));
            proof {
                assert(pairs_view(out@) =~= pairs_view(before).push(p[i as int]));
            }
        }
    }
    proof {
        lemma_map_of_pairs(pairs_view(pairs@), 0);
    }
    out
}

} // verus!

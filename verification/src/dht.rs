//! What a caller is shown of a record.

use crate::record::{Record, RecordView};
use vstd::prelude::*;

verus! {

/// A record as callers see it: who publishes what under which key. The
/// identifier that storage gave the record is not shown.
#[derive(Debug)]
pub struct FdbDht {
    /// The identity that authorized the record.
    pub public_key: String,
    /// The content identifier.
    pub cid: String,
    /// The lookup key.
    pub key: String,
}

/// The mathematical value of an [`FdbDht`].
pub struct FdbDhtView {
    pub public_key: Seq<char>,
    pub cid: Seq<char>,
    pub key: Seq<char>,
}

impl View for FdbDht {
    type V = FdbDhtView;

    open spec fn view(&self) -> FdbDhtView {
        FdbDhtView { public_key: self.public_key@, cid: self.cid@, key: self.key@ }
    }
}

impl DeepView for FdbDht {
    type V = FdbDhtView;

    open spec fn deep_view(&self) -> FdbDhtView {
        self@
    }
}

impl FdbDhtView {
    /// What callers see of `record`.
    pub open spec fn of(record: RecordView) -> FdbDhtView {
        FdbDhtView { public_key: record.public_key, cid: record.cid, key: record.key }
    }

    /// What callers see of each of `records`, in their order.
    pub open spec fn of_all(records: Seq<RecordView>) -> Seq<FdbDhtView> {
        records.map_values(|r: RecordView| FdbDhtView::of(r))
    }

    /// What callers see of a record that may be missing.
    pub open spec fn of_found(found: Option<RecordView>) -> Option<FdbDhtView> {
        match found {
            Some(r) => Some(FdbDhtView::of(r)),
            None => None,
        }
    }

    /// The value that stands for no record: three empty strings.
    pub open spec fn empty() -> FdbDhtView {
        FdbDhtView { public_key: Seq::empty(), cid: Seq::empty(), key: Seq::empty() }
    }
}

impl Default for FdbDht {
    fn default() -> (d: FdbDht)
        ensures
            d@ == FdbDhtView::empty(),
    {
        FdbDht { public_key: String::new(), cid: String::new(), key: String::new() }
    }
}

impl FdbDht {
    /// What callers see of `record`.
    pub fn from_record(record: &Record) -> (d: FdbDht)
        ensures
            d@ == FdbDhtView::of(record@),
    {
        FdbDht {
            public_key: record.public_key.clone(),
            cid: record.cid.clone(),
            key: record.key.clone(),
        }
    }

    /// What callers see of each of `records`, in their order.
    pub fn from_records(records: &Vec<Record>) -> (dhts: Vec<FdbDht>)
        ensures
            dhts.deep_view() == FdbDhtView::of_all(records.deep_view()),
    {
        let mut dhts: Vec<FdbDht> = Vec::new();
        let mut i: usize = 0;
        while i < records.len()
            invariant
                i <= records.len(),
                dhts.len() == i,
                forall|j: int|
                    0 <= j < i ==> (#[trigger] dhts@[j])@ == FdbDhtView::of(records@[j]@),
            decreases records.len() - i,
        {
            dhts.push(FdbDht::from_record(&records[i]));
            i += 1;
        }
        assert(dhts.deep_view() =~= FdbDhtView::of_all(records.deep_view()));
        dhts
    }

    /// What callers see of a record that may be missing.
    pub fn from_found(found: &Option<Record>) -> (d: Option<FdbDht>)
        ensures
            dht_option_view(d) == FdbDhtView::of_found(record_option_view(*found)),
    {
        match found {
            Some(record) => Some(FdbDht::from_record(record)),
            None => None,
        }
    }
}

/// The mathematical value of a record that may be missing.
pub open spec fn record_option_view(found: Option<Record>) -> Option<RecordView> {
    match found {
        Some(r) => Some(r@),
        None => None,
    }
}

/// The mathematical value of what callers see of a record that may be
/// missing.
pub open spec fn dht_option_view(found: Option<FdbDht>) -> Option<FdbDhtView> {
    match found {
        Some(d) => Some(d@),
        None => None,
    }
}

} // verus!

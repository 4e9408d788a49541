//! Balance records and the choice of those that call for a warning.

use crate::decimal::{Decimal, Number};
use vstd::prelude::*;

verus! {

/// One metered unit as the balance service reports it.
pub struct BalanceRecord {
    pub address: String,
    pub room: String,
    pub balance: Decimal,
}

/// What a [`BalanceRecord`] holds, as plain values.
pub struct Reading {
    pub address: Seq<char>,
    pub room: Seq<char>,
    pub balance: Number,
}

impl View for BalanceRecord {
    type V = Reading;

    open spec fn view(&self) -> Reading {
        Reading { address: self.address@, room: self.room@, balance: self.balance@ }
    }
}

impl DeepView for BalanceRecord {
    type V = Reading;

    open spec fn deep_view(&self) -> Reading {
        self@
    }
}

impl Clone for BalanceRecord {
    fn clone(&self) -> (copy: Self)
        ensures
            copy@ == self@,
    {
        BalanceRecord {
            address: self.address.clone(),
            room: self.room.clone(),
            balance: self.balance.clone(),
        }
    }
}

impl BalanceRecord {
    /// A record from its three fields.
    pub fn new(address: String, room: String, balance: Decimal) -> (record: BalanceRecord)
        ensures
            record@ == (Reading { address: address@, room: room@, balance: balance@ }),
    {
        BalanceRecord { address, room, balance }
    }
}

/// The readings whose balance is less than `threshold`, in the order in
/// which they stand in `readings`.
pub open spec fn below_threshold(readings: Seq<Reading>, threshold: Number) -> Seq<Reading> {
    readings.filter(|r: Reading| r.balance.below(threshold))
}

/// Selects the records whose balance is strictly less than `threshold`. The
/// result keeps the order of `records` and every record that qualifies, as
/// often as it occurs.
pub fn records_below(records: &Vec<BalanceRecord>, threshold: &Decimal) -> (chosen: Vec<
    BalanceRecord,
>)
    ensures
        chosen.deep_view() == below_threshold(records.deep_view(), threshold@),
{
    let mut chosen: Vec<BalanceRecord> = Vec::new();
    let ghost all = records.deep_view();
    let ghost low = |r: Reading| r.balance.below(threshold@);
    let mut i: usize = 0;
    proof {
        reveal(Seq::filter);
        assert(all.take(0).filter(low) =~= Seq::<Reading>::empty());
        assert(chosen.deep_view() =~= Seq::<Reading>::empty());
    }
    while i < records.len()
        invariant
            i <= records.len(),
            all == records.deep_view(),
            low == (|r: Reading| r.balance.below(threshold@)),
            chosen.deep_view() == all.take(i as int).filter(low),
        decreases records.len() - i,
    {
        let record = &records[i];
        let ghost before = chosen.deep_view();
        proof {
            reveal(Seq::filter);
            assert(all.take(i + 1).drop_last() =~= all.take(i as int));
            assert(all.take(i + 1).last() == record@);
        }
        if record.balance.is_below(threshold) {
            chosen.push(record.clone());
            assert(chosen.deep_view() =~= before.push(record@));
        }
        i += 1;
    }
    proof {
        assert(all.take(i as int) =~= all);
    }
    chosen
}

/// What the selection promises, in terms of single readings: each chosen one
/// is below the threshold and none that is below was left out, so nothing is
/// chosen where none qualifies.
pub proof fn lemma_below_threshold(readings: Seq<Reading>, threshold: Number)
    ensures
        forall|i: int|
            0 <= i < below_threshold(readings, threshold).len() ==> (#[trigger] below_threshold(
                readings,
                threshold,
            )[i]).balance.below(threshold),
        forall|i: int|
            0 <= i < readings.len() && readings[i].balance.below(threshold)
                ==> below_threshold(readings, threshold).contains(#[trigger] readings[i]),
        forall|i: int|
            0 <= i < below_threshold(readings, threshold).len() ==> readings.contains(
                #[trigger] below_threshold(readings, threshold)[i],
            ),
        below_threshold(readings, threshold).len() <= readings.len(),
        (forall|i: int| 0 <= i < readings.len() ==> !(#[trigger] readings[i]).balance.below(
            threshold,
        )) ==> below_threshold(readings, threshold).len() == 0,
{
    let low = |r: Reading| r.balance.below(threshold);
    let chosen = readings.filter(low);
    broadcast use vstd::seq_lib::group_filter_ensures;
    readings.lemma_filter_len(low);
    assert forall|i: int| 0 <= i < chosen.len() implies (#[trigger] chosen[i]).balance.below(
        threshold,
    ) by {
        readings.lemma_filter_pred(low, i);
    }
    assert forall|i: int| 0 <= i < readings.len() && readings[i].balance.below(
        threshold,
    ) implies chosen.contains(#[trigger] readings[i]) by {
        readings.lemma_filter_contains(low, i);
    }
    assert forall|i: int| 0 <= i < chosen.len() implies readings.contains(
        #[trigger] chosen[i],
    ) by {
        assert(chosen.contains(chosen[i]));
        readings.lemma_filter_contains_rev(low, chosen[i]);
    }
    if forall|i: int| 0 <= i < readings.len() ==> !(#[trigger] readings[i]).balance.below(
        threshold,
    ) {
        if chosen.len() > 0 {
            readings.lemma_filter_pred(low, 0);
            assert(chosen.contains(chosen[0]));
            readings.lemma_filter_contains_rev(low, chosen[0]);
            let j = choose|j: int| 0 <= j < readings.len() && readings[j] == chosen[0];
            assert(!readings[j].balance.below(threshold));
        }
    }
}

} // verus!

use vstd::prelude::*;

verus! {

/// One row of the sync-watermark table: the fingerprint a completed run
/// absorbed, and the time of completion.
#[derive(Debug)]
pub struct UpdateChecker {
    pub md5_checksum: String,
    pub last_updated: Option<i64>,
}

/// Timestamp order, an absent timestamp sorting below every present one.
pub open spec fn ts_le(a: Option<i64>, b: Option<i64>) -> bool {
    match a {
        None => true,
        Some(x) => match b {
            Some(y) => x <= y,
            None => false,
        },
    }
}

fn ts_le_exec(a: &Option<i64>, b: &Option<i64>) -> (r: bool)
    ensures
        r == ts_le(*a, *b),
{
    match a {
        None => true,
        Some(x) => match b {
            Some(y) => *x <= *y,
            None => false,
        },
    }
}

/// The index of the authoritative row of a non-empty table: the greatest
/// timestamp, the latest appended row winning ties.
pub open spec fn latest_index(wm: Seq<(Seq<char>, Option<i64>)>) -> int
    decreases wm.len(),
{
    if wm.len() <= 1 {
        0
    } else {
        let prev = latest_index(wm.drop_last());
        if ts_le(wm[prev].1, wm.last().1) {
            wm.len() - 1
        } else {
            prev
        }
    }
}

pub proof fn lemma_latest_index_in_range(wm: Seq<(Seq<char>, Option<i64>)>)
    requires
        wm.len() > 0,
    ensures
        0 <= latest_index(wm) < wm.len(),
    decreases wm.len(),
{
    if wm.len() > 1 {
        lemma_latest_index_in_range(wm.drop_last());
    }
}

/// The watermark table: append-only, viewed as the sequence of
/// (checksum, completion time) pairs in insertion order.
#[derive(Debug)]
pub struct WatermarkTable {
    rows: Vec<UpdateChecker>,
}

impl View for WatermarkTable {
    type V = Seq<(Seq<char>, Option<i64>)>;

    closed spec fn view(&self) -> Seq<(Seq<char>, Option<i64>)> {
        Seq::new(
            self.rows@.len(),
            |i: int| (self.rows@[i].md5_checksum@, self.rows@[i].last_updated),
        )
    }
}

impl WatermarkTable {
    /// An empty table.
    pub fn new() -> (t: Self)
        ensures
            t@ == Seq::<(Seq<char>, Option<i64>)>::empty(),
    {
        let t = WatermarkTable { rows: Vec::new() };
        proof {
            assert(t@ =~= Seq::<(Seq<char>, Option<i64>)>::empty());
        }
        t
    }

    /// Number of stored rows.
    pub fn len(&self) -> (n: usize)
        ensures
            n == self@.len(),
    {
        self.rows.len()
    }

    /// The row at position `i`, in insertion order.
    pub fn get(&self, i: usize) -> (r: &UpdateChecker)
        requires
            i < self@.len(),
        ensures
            r.md5_checksum@ == self@[i as int].0,
            r.last_updated == self@[i as int].1,
    {
        &self.rows[i]
    }

    /// Reads the authoritative watermark: the row with the greatest
    /// timestamp, or nothing when the table is empty. Emptiness is not an
    /// error.
    pub fn get_last_updated_record(&self) -> (r: Option<UpdateChecker>)
        ensures
            r is Some <==> self@.len() > 0,
            r is Some ==> (r->Some_0.md5_checksum@, r->Some_0.last_updated) == self@[latest_index(
                self@,
            )],
    {
        let n = self.rows.len();
        if n == 0 {
            return None;
        }
        let mut best: usize = 0;
        let mut j: usize = 1;
        proof {
            assert(self@.take(1).drop_last() =~= Seq::<(Seq<char>, Option<i64>)>::empty());
        }
        while j < n
            invariant
                n == self.rows@.len(),
                n == self@.len(),
                1 <= j <= n,
                best < j,
                best == latest_index(self@.take(j as int)),
            decreases n - j,
        {
            proof {
                assert(self@.take(j + 1).drop_last() =~= self@.take(j as int));
                assert(self@.take(j + 1).last() == self@[j as int]);
                lemma_latest_index_in_range(self@.take(j as int));
            }
            if ts_le_exec(&self.rows[best].last_updated, &self.rows[j].last_updated) {
                best = j;
            }
            j = j + 1;
        }
        proof {
            assert(self@.take(n as int) =~= self@);
        }
        let rec = &self.rows[best];
        Some(
            UpdateChecker {
                md5_checksum: rec.md5_checksum.clone(),
                last_updated: rec.last_updated,
            },
        )
    }

    /// Appends a new watermark row. The table is never updated in place and
    /// never pruned; repeated checksums may legally accumulate.
    pub fn update_record(&mut self, checksum: &str, last_updated: i64)
        ensures
            final(self)@ == old(self)@.push((checksum@, Some(last_updated))),
    {
        self.rows.push(
            UpdateChecker { md5_checksum: checksum.to_owned(), last_updated: Some(last_updated) },
        );
        proof {
            assert(self@ =~= old(self)@.push((checksum@, Some(last_updated))));
        }
    }
}

} // verus!

use vstd::prelude::*;

use crate::models::{YGOCard, spec_is_extra, is_extra};
use crate::parse::{parse_i64, parse_i64_spec};

verus! {

/// One stored row of the card table. The attribute block is flattened into
/// nullable columns, the display identifier is widened to the storage width,
/// and the derived extra-deck flag is materialized.
#[derive(Debug)]
pub struct CardRow {
    pub cid: i32,
    pub id: i64,
    pub cn_name: Option<String>,
    pub sc_name: Option<String>,
    pub md_name: Option<String>,
    pub nwbbs_n: Option<String>,
    pub cnocg_n: Option<String>,
    pub jp_ruby: Option<String>,
    pub jp_name: Option<String>,
    pub en_name: Option<String>,
    pub types: String,
    pub pdesc: String,
    pub desc: String,
    pub ot: Option<i32>,
    pub setcode: Option<i64>,
    pub type_: Option<i32>,
    pub atk: Option<i32>,
    pub def: Option<i32>,
    pub level: Option<i32>,
    pub race: Option<i32>,
    pub attribute: Option<i32>,
    pub is_extra: bool,
}

/// The row that ingesting `c` creates: every feed field copied, and the
/// extra-deck flag derived from the category-tags text.
pub open spec fn row_of_card(c: YGOCard) -> CardRow {
    CardRow {
        cid: c.cid,
        id: c.id as i64,
        cn_name: c.cn_name,
        sc_name: c.sc_name,
        md_name: c.md_name,
        nwbbs_n: c.nwbbs_n,
        cnocg_n: c.cnocg_n,
        jp_ruby: c.jp_ruby,
        jp_name: c.jp_name,
        en_name: c.en_name,
        types: c.text.types,
        pdesc: c.text.pdesc,
        desc: c.text.desc,
        ot: match c.data {
            Some(d) => Some(d.ot),
            None => None,
        },
        setcode: match c.data {
            Some(d) => Some(d.setcode),
            None => None,
        },
        type_: match c.data {
            Some(d) => Some(d.type_),
            None => None,
        },
        atk: match c.data {
            Some(d) => Some(d.atk),
            None => None,
        },
        def: match c.data {
            Some(d) => Some(d.def),
            None => None,
        },
        level: match c.data {
            Some(d) => Some(d.level),
            None => None,
        },
        race: match c.data {
            Some(d) => Some(d.race),
            None => None,
        },
        attribute: match c.data {
            Some(d) => Some(d.attribute),
            None => None,
        },
        is_extra: spec_is_extra(c.text.types@),
    }
}

/// Some row of `rows` holds `cid` as its primary key.
pub open spec fn has_cid(rows: Seq<CardRow>, cid: i32) -> bool {
    exists|i: int| 0 <= i < rows.len() && (#[trigger] rows[i]).cid == cid
}

/// The table's invariant: the primary key is globally unique.
pub open spec fn cids_unique(rows: Seq<CardRow>) -> bool {
    forall|i: int, j: int|
        0 <= i < j < rows.len() ==> (#[trigger] rows[i]).cid != (#[trigger] rows[j]).cid
}

/// Ingesting one record: appended when its key is new, skipped when the key
/// is already present.
pub open spec fn spec_insert(rows: Seq<CardRow>, c: YGOCard) -> Seq<CardRow> {
    if has_cid(rows, c.cid) {
        rows
    } else {
        rows.push(row_of_card(c))
    }
}

/// Ingesting a whole snapshot, record by record.
pub open spec fn spec_insert_all(rows: Seq<CardRow>, cs: Seq<YGOCard>) -> Seq<CardRow>
    decreases cs.len(),
{
    if cs.len() == 0 {
        rows
    } else {
        spec_insert(spec_insert_all(rows, cs.drop_last()), cs.last())
    }
}

/// The row with its display identifier replaced.
pub open spec fn row_with_id(r: CardRow, new_id: i64) -> CardRow {
    CardRow { id: new_id, ..r }
}

/// One remap step: every row holding `old_id` now holds `new_id`; all other
/// rows, and every other column, are untouched.
pub open spec fn remap_rows(rows: Seq<CardRow>, old_id: i64, new_id: i64) -> Seq<CardRow> {
    Seq::new(
        rows.len(),
        |k: int|
            if rows[k].id == old_id {
                row_with_id(rows[k], new_id)
            } else {
                rows[k]
            },
    )
}

/// One changelog entry: applied when its key parses as a decimal integer,
/// skipped otherwise.
pub open spec fn spec_apply_entry(rows: Seq<CardRow>, key: Seq<char>, new_id: i64) -> Seq<
    CardRow,
> {
    match parse_i64_spec(key) {
        Some(old_id) => remap_rows(rows, old_id, new_id),
        None => rows,
    }
}

/// A whole changelog, entry by entry.
pub open spec fn spec_apply_changelog(rows: Seq<CardRow>, entries: Seq<(String, i64)>) -> Seq<
    CardRow,
>
    decreases entries.len(),
{
    if entries.len() == 0 {
        rows
    } else {
        spec_apply_entry(
            spec_apply_changelog(rows, entries.drop_last()),
            entries.last().0@,
            entries.last().1,
        )
    }
}

/// How many rows hold `id` as their display identifier.
pub open spec fn count_id_spec(rows: Seq<CardRow>, id: i64) -> int
    decreases rows.len(),
{
    if rows.len() == 0 {
        0
    } else {
        count_id_spec(rows.drop_last(), id) + if rows.last().id == id {
            1int
        } else {
            0int
        }
    }
}

fn clone_opt_string(o: &Option<String>) -> (r: Option<String>)
    ensures
        r == *o,
{
    match o {
        Some(s) => Some(s.clone()),
        None => None,
    }
}

impl CardRow {
    /// An exact copy of the row.
    pub fn duplicate(&self) -> (r: Self)
        ensures
            r == *self,
    {
        CardRow {
            cid: self.cid,
            id: self.id,
            cn_name: clone_opt_string(&self.cn_name),
            sc_name: clone_opt_string(&self.sc_name),
            md_name: clone_opt_string(&self.md_name),
            nwbbs_n: clone_opt_string(&self.nwbbs_n),
            cnocg_n: clone_opt_string(&self.cnocg_n),
            jp_ruby: clone_opt_string(&self.jp_ruby),
            jp_name: clone_opt_string(&self.jp_name),
            en_name: clone_opt_string(&self.en_name),
            types: self.types.clone(),
            pdesc: self.pdesc.clone(),
            desc: self.desc.clone(),
            ot: self.ot,
            setcode: self.setcode,
            type_: self.type_,
            atk: self.atk,
            def: self.def,
            level: self.level,
            race: self.race,
            attribute: self.attribute,
            is_extra: self.is_extra,
        }
    }
}

/// Builds the stored row for a record, deriving the extra-deck flag.
pub fn make_row(card: &YGOCard) -> (r: CardRow)
    ensures
        r == row_of_card(*card),
{
    let extra = is_extra(card);
    CardRow {
        cid: card.cid,
        id: card.id as i64,
        cn_name: clone_opt_string(&card.cn_name),
        sc_name: clone_opt_string(&card.sc_name),
        md_name: clone_opt_string(&card.md_name),
        nwbbs_n: clone_opt_string(&card.nwbbs_n),
        cnocg_n: clone_opt_string(&card.cnocg_n),
        jp_ruby: clone_opt_string(&card.jp_ruby),
        jp_name: clone_opt_string(&card.jp_name),
        en_name: clone_opt_string(&card.en_name),
        types: card.text.types.clone(),
        pdesc: card.text.pdesc.clone(),
        desc: card.text.desc.clone(),
        ot: match card.data {
            Some(d) => Some(d.ot),
            None => None,
        },
        setcode: match card.data {
            Some(d) => Some(d.setcode),
            None => None,
        },
        type_: match card.data {
            Some(d) => Some(d.type_),
            None => None,
        },
        atk: match card.data {
            Some(d) => Some(d.atk),
            None => None,
        },
        def: match card.data {
            Some(d) => Some(d.def),
            None => None,
        },
        level: match card.data {
            Some(d) => Some(d.level),
            None => None,
        },
        race: match card.data {
            Some(d) => Some(d.race),
            None => None,
        },
        attribute: match card.data {
            Some(d) => Some(d.attribute),
            None => None,
        },
        is_extra: extra,
    }
}

/// The card table: rows unique by `cid`, viewed as the sequence of rows in
/// insertion order.
#[derive(Debug)]
pub struct CardTable {
    rows: Vec<CardRow>,
}

impl View for CardTable {
    type V = Seq<CardRow>;

    closed spec fn view(&self) -> Seq<CardRow> {
        self.rows@
    }
}

impl CardTable {
    /// An empty table.
    pub fn new() -> (t: Self)
        ensures
            t@ == Seq::<CardRow>::empty(),
            cids_unique(t@),
    {
        CardTable { rows: Vec::new() }
    }

    /// Number of stored rows.
    pub fn len(&self) -> (n: usize)
        ensures
            n == self@.len(),
    {
        self.rows.len()
    }

    /// The row at position `i`, in insertion order.
    pub fn get(&self, i: usize) -> (r: &CardRow)
        requires
            i < self@.len(),
        ensures
            *r == self@[i as int],
    {
        &self.rows[i]
    }

    /// Whether a row with primary key `cid` is already stored.
    pub fn contains_cid(&self, cid: i32) -> (r: bool)
        ensures
            r == has_cid(self@, cid),
    {
        let n = self.rows.len();
        let mut j: usize = 0;
        while j < n
            invariant
                n == self.rows@.len(),
                j <= n,
                forall|k: int| 0 <= k < j ==> (#[trigger] self.rows@[k]).cid != cid,
            decreases n - j,
        {
            if self.rows[j].cid == cid {
                assert(has_cid(self@, cid)) by {
                    assert(0 <= j < self@.len() && self@[j as int].cid == cid);
                }
                return true;
            }
            j = j + 1;
        }
        false
    }

    /// Ingests one record: inserts the row unless its `cid` is already
    /// present, in which case the record is silently skipped.
    pub fn insert_card(&mut self, card: &YGOCard)
        ensures
            final(self)@ == spec_insert(old(self)@, *card),
            cids_unique(old(self)@) ==> cids_unique(final(self)@),
    {
        proof {
            if cids_unique(self@) {
                lemma_insert_keeps_cids_unique(self@, *card);
            }
        }
        if self.contains_cid(card.cid) {
            return ;
        }
        let row = make_row(card);
        self.rows.push(row);
    }

    /// Ingests a snapshot, record by record, skipping keys already present.
    pub fn insert_cards(&mut self, cards: &Vec<YGOCard>)
        ensures
            final(self)@ == spec_insert_all(old(self)@, cards@),
            cids_unique(old(self)@) ==> cids_unique(final(self)@),
    {
        proof {
            if cids_unique(self@) {
                lemma_insert_all_keeps_cids_unique(self@, cards@);
            }
        }
        let ghost orig = self@;
        let n = cards.len();
        let mut i: usize = 0;
        while i < n
            invariant
                n == cards@.len(),
                i <= n,
                self@ == spec_insert_all(orig, cards@.take(i as int)),
            decreases n - i,
        {
            proof {
                assert(cards@.take(i + 1).drop_last() =~= cards@.take(i as int));
                assert(cards@.take(i + 1).last() == cards@[i as int]);
            }
            self.insert_card(&cards[i]);
            i = i + 1;
        }
        proof {
            assert(cards@.take(n as int) =~= cards@);
        }
    }

    /// Rewrites the display identifier of every row currently holding
    /// `old_id` to `new_id`.
    fn remap_id(&mut self, old_id: i64, new_id: i64)
        ensures
            final(self)@ == remap_rows(old(self)@, old_id, new_id),
    {
        let ghost orig = self@;
        let n = self.rows.len();
        let mut j: usize = 0;
        while j < n
            invariant
                n == orig.len(),
                j <= n,
                self.rows@.len() == orig.len(),
                forall|k: int| 0 <= k < j ==> self.rows@[k] == remap_rows(orig, old_id, new_id)[k],
                forall|k: int| j <= k < n ==> self.rows@[k] == orig[k],
            decreases n - j,
        {
            if self.rows[j].id == old_id {
                let mut r = self.rows[j].duplicate();
                r.id = new_id;
                self.rows.set(j, r);
            }
            j = j + 1;
        }
        assert(self@ =~= remap_rows(orig, old_id, new_id));
    }

    /// Applies an identifier changelog: each key that parses as a decimal
    /// integer has all rows holding it rewritten to the entry's new value;
    /// malformed keys are skipped without aborting the rest.
    pub fn update_id_change_log(&mut self, changelog: &Vec<(String, i64)>)
        ensures
            final(self)@ == spec_apply_changelog(old(self)@, changelog@),
            cids_unique(old(self)@) ==> cids_unique(final(self)@),
    {
        proof {
            if cids_unique(self@) {
                lemma_changelog_keeps_cids_unique(self@, changelog@);
            }
        }
        let ghost orig = self@;
        let n = changelog.len();
        let mut i: usize = 0;
        while i < n
            invariant
                n == changelog@.len(),
                i <= n,
                self@ == spec_apply_changelog(orig, changelog@.take(i as int)),
            decreases n - i,
        {
            proof {
                assert(changelog@.take(i + 1).drop_last() =~= changelog@.take(i as int));
                assert(changelog@.take(i + 1).last() == changelog@[i as int]);
            }
            let entry = &changelog[i];
            match parse_i64(entry.0.as_str()) {
                Some(old_id) => {
                    self.remap_id(old_id, entry.1);
                },
                None => {},
            }
            i = i + 1;
        }
        proof {
            assert(changelog@.take(n as int) =~= changelog@);
        }
    }

    /// How many rows currently hold `id`.
    pub fn count_id(&self, id: i64) -> (n: usize)
        ensures
            n == count_id_spec(self@, id),
    {
        let len = self.rows.len();
        let mut j: usize = 0;
        let mut n: usize = 0;
        while j < len
            invariant
                len == self.rows@.len(),
                j <= len,
                n == count_id_spec(self.rows@.take(j as int), id),
                n <= j,
            decreases len - j,
        {
            proof {
                assert(self.rows@.take(j + 1).drop_last() =~= self.rows@.take(j as int));
                assert(self.rows@.take(j + 1).last() == self.rows@[j as int]);
                lemma_count_id_bound(self.rows@.take(j + 1), id);
            }
            if self.rows[j].id == id {
                n = n + 1;
            }
            j = j + 1;
        }
        proof {
            assert(self.rows@.take(len as int) =~= self.rows@);
        }
        n
    }
}

/// The count never exceeds the number of rows.
proof fn lemma_count_id_bound(rows: Seq<CardRow>, id: i64)
    ensures
        0 <= count_id_spec(rows, id) <= rows.len(),
    decreases rows.len(),
{
    if rows.len() > 0 {
        lemma_count_id_bound(rows.drop_last(), id);
    }
}

/// Appending a row never removes a key.
proof fn lemma_has_cid_push(rows: Seq<CardRow>, r: CardRow, cid: i32)
    ensures
        has_cid(rows, cid) ==> has_cid(rows.push(r), cid),
{
    if has_cid(rows, cid) {
        let i = choose|i: int| 0 <= i < rows.len() && (#[trigger] rows[i]).cid == cid;
        assert(rows.push(r)[i].cid == cid);
    }
}

/// One ingestion step preserves every key already present.
proof fn lemma_insert_preserves_cid(rows: Seq<CardRow>, c: YGOCard, cid: i32)
    ensures
        has_cid(rows, cid) ==> has_cid(spec_insert(rows, c), cid),
{
    lemma_has_cid_push(rows, row_of_card(c), cid);
}

/// After ingesting a snapshot, every record's key is present.
proof fn lemma_insert_all_has_all(rows: Seq<CardRow>, cs: Seq<YGOCard>)
    ensures
        forall|i: int|
            0 <= i < cs.len() ==> has_cid(spec_insert_all(rows, cs), (#[trigger] cs[i]).cid),
    decreases cs.len(),
{
    if cs.len() > 0 {
        let prev = spec_insert_all(rows, cs.drop_last());
        lemma_insert_all_has_all(rows, cs.drop_last());
        assert forall|i: int|
            0 <= i < cs.len() implies has_cid(spec_insert_all(rows, cs), (#[trigger] cs[i]).cid) by {
            if i < cs.len() - 1 {
                assert(cs.drop_last()[i] == cs[i]);
                lemma_insert_preserves_cid(prev, cs.last(), cs[i].cid);
            } else {
                let c = cs.last();
                if has_cid(prev, c.cid) {
                    lemma_insert_preserves_cid(prev, c, c.cid);
                } else {
                    let out = prev.push(row_of_card(c));
                    assert(out[prev.len() as int].cid == c.cid);
                    assert(has_cid(out, c.cid));
                }
            }
        }
    }
}

/// Ingesting records whose keys are all already present changes nothing.
proof fn lemma_insert_all_noop(rows: Seq<CardRow>, cs: Seq<YGOCard>)
    requires
        forall|i: int| 0 <= i < cs.len() ==> has_cid(rows, (#[trigger] cs[i]).cid),
    ensures
        spec_insert_all(rows, cs) == rows,
    decreases cs.len(),
{
    if cs.len() > 0 {
        assert forall|i: int|
            0 <= i < cs.drop_last().len() implies has_cid(
            rows,
            (#[trigger] cs.drop_last()[i]).cid,
        ) by {
            assert(cs.drop_last()[i] == cs[i]);
        }
        lemma_insert_all_noop(rows, cs.drop_last());
        assert(cs[cs.len() - 1] == cs.last());
    }
}

/// One ingestion step preserves key uniqueness: a row is appended only when
/// its key is absent.
proof fn lemma_insert_keeps_cids_unique(rows: Seq<CardRow>, c: YGOCard)
    requires
        cids_unique(rows),
    ensures
        cids_unique(spec_insert(rows, c)),
{
    if !has_cid(rows, c.cid) {
        let out = rows.push(row_of_card(c));
        assert forall|i: int, j: int|
            0 <= i < j < out.len() implies (#[trigger] out[i]).cid != (#[trigger] out[j]).cid by {
            if j == out.len() - 1 {
                assert(out[i] == rows[i]);
                assert(!(0 <= i < rows.len() && rows[i].cid == c.cid));
            } else {
                assert(out[i] == rows[i] && out[j] == rows[j]);
            }
        }
    }
}

/// Law (key uniqueness): a table whose keys are unique keeps them unique
/// through ingesting a whole snapshot.
pub proof fn lemma_insert_all_keeps_cids_unique(rows: Seq<CardRow>, cs: Seq<YGOCard>)
    requires
        cids_unique(rows),
    ensures
        cids_unique(spec_insert_all(rows, cs)),
    decreases cs.len(),
{
    if cs.len() > 0 {
        lemma_insert_all_keeps_cids_unique(rows, cs.drop_last());
        lemma_insert_keeps_cids_unique(spec_insert_all(rows, cs.drop_last()), cs.last());
    }
}

/// Law (rows are write-once): ingestion never updates or removes a stored
/// row; whatever it does, every row already present survives unchanged at
/// its position.
pub proof fn lemma_insert_all_appends(rows: Seq<CardRow>, cs: Seq<YGOCard>)
    ensures
        spec_insert_all(rows, cs).len() >= rows.len(),
        spec_insert_all(rows, cs).subrange(0, rows.len() as int) == rows,
    decreases cs.len(),
{
    if cs.len() == 0 {
        assert(spec_insert_all(rows, cs).subrange(0, rows.len() as int) =~= rows);
    } else {
        lemma_insert_all_appends(rows, cs.drop_last());
        let prev = spec_insert_all(rows, cs.drop_last());
        let c = cs.last();
        if !has_cid(prev, c.cid) {
            assert(prev.push(row_of_card(c)).subrange(0, rows.len() as int) =~= prev.subrange(
                0,
                rows.len() as int,
            ));
        }
    }
}

/// A changelog rewrites display identifiers only: the key column is
/// untouched, row for row.
pub proof fn lemma_changelog_keeps_cids(rows: Seq<CardRow>, entries: Seq<(String, i64)>)
    ensures
        spec_apply_changelog(rows, entries).len() == rows.len(),
        forall|i: int|
            0 <= i < rows.len() ==> (#[trigger] spec_apply_changelog(rows, entries)[i]).cid
                == rows[i].cid,
    decreases entries.len(),
{
    if entries.len() > 0 {
        lemma_changelog_keeps_cids(rows, entries.drop_last());
    }
}

/// Law (key uniqueness): a remap pass cannot introduce a duplicate key.
pub proof fn lemma_changelog_keeps_cids_unique(rows: Seq<CardRow>, entries: Seq<(String, i64)>)
    requires
        cids_unique(rows),
    ensures
        cids_unique(spec_apply_changelog(rows, entries)),
{
    lemma_changelog_keeps_cids(rows, entries);
}

/// Law (insert idempotence): ingesting the same snapshot twice leaves the
/// table exactly as ingesting it once does — the second pass skips every
/// record, whatever order either pass processed them in.
pub proof fn lemma_insert_all_idempotent(rows: Seq<CardRow>, cs: Seq<YGOCard>)
    ensures
        spec_insert_all(spec_insert_all(rows, cs), cs) == spec_insert_all(rows, cs),
{
    let once = spec_insert_all(rows, cs);
    lemma_insert_all_has_all(rows, cs);
    lemma_insert_all_noop(once, cs);
}

/// Law (remap correctness): after one remap step every row that held
/// `old_id` holds `new_id`, every other row — and every other column — is
/// untouched, and, provided the two identifiers differ, no row holds
/// `old_id` any more.
pub proof fn lemma_remap_correct(rows: Seq<CardRow>, old_id: i64, new_id: i64)
    ensures
        remap_rows(rows, old_id, new_id).len() == rows.len(),
        forall|i: int|
            0 <= i < rows.len() && rows[i].id == old_id ==> (#[trigger] remap_rows(
                rows,
                old_id,
                new_id,
            )[i]) == row_with_id(rows[i], new_id),
        forall|i: int|
            0 <= i < rows.len() && rows[i].id != old_id ==> (#[trigger] remap_rows(
                rows,
                old_id,
                new_id,
            )[i]) == rows[i],
        old_id != new_id ==> forall|i: int|
            0 <= i < rows.len() ==> (#[trigger] remap_rows(rows, old_id, new_id)[i]).id != old_id,
{
}

/// Law (remap tolerance): a changelog entry whose key does not parse as a
/// decimal integer is skipped; dropping it from the changelog leaves the
/// result unchanged, so the remaining entries still apply.
pub proof fn lemma_changelog_skips_malformed(
    rows: Seq<CardRow>,
    entries: Seq<(String, i64)>,
    i: int,
)
    requires
        0 <= i < entries.len(),
        parse_i64_spec(entries[i].0@) is None,
    ensures
        spec_apply_changelog(rows, entries) == spec_apply_changelog(rows, entries.remove(i)),
    decreases entries.len(),
{
    if i == entries.len() - 1 {
        assert(entries.remove(i) =~= entries.drop_last());
    } else {
        assert(entries.remove(i).drop_last() =~= entries.drop_last().remove(i));
        assert(entries.remove(i).last() == entries.last());
        assert(entries.drop_last()[i] == entries[i]);
        lemma_changelog_skips_malformed(rows, entries.drop_last(), i);
    }
}

} // verus!

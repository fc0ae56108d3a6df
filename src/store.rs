use vstd::prelude::*;

verus! {

/// A source row ready to be persisted; `source` is the conflict key.
#[derive(Clone, Debug)]
pub struct NewSource {
    pub name: String,
    pub source: String,
    pub version: String,
}

/// A build record ready to be persisted: its identity, the version it was
/// taken from and the retrieved payload, verbatim.
#[derive(Clone, Debug)]
pub struct NewBuild {
    pub source: String,
    pub version: String,
    pub champion_alias: String,
    pub champion_id: String,
    pub content: String,
}

impl NewBuild {
    /// A field-by-field copy.
    pub fn copy(&self) -> (r: NewBuild)
        ensures
            r@ == self@,
    {
        NewBuild {
            source: self.source.clone(),
            version: self.version.clone(),
            champion_alias: self.champion_alias.clone(),
            champion_id: self.champion_id.clone(),
            content: self.content.clone(),
        }
    }
}

/// The identity of a build row: (source, champion id, champion alias).
pub type BuildKey = (Seq<char>, Seq<char>, Seq<char>);

/// The mathematical value of a [`NewBuild`].
pub struct BuildRecord {
    pub source: Seq<char>,
    pub version: Seq<char>,
    pub champion_alias: Seq<char>,
    pub champion_id: Seq<char>,
    pub content: Seq<char>,
}

impl BuildRecord {
    pub open spec fn key(self) -> BuildKey {
        (self.source, self.champion_id, self.champion_alias)
    }
}

impl View for NewBuild {
    type V = BuildRecord;

    open spec fn view(&self) -> BuildRecord {
        BuildRecord {
            source: self.source@,
            version: self.version@,
            champion_alias: self.champion_alias@,
            champion_id: self.champion_id@,
            content: self.content@,
        }
    }
}

/// A stored build row.
#[derive(Clone, Debug)]
pub struct Build {
    pub id: u64,
    pub source: String,
    pub version: String,
    pub champion_alias: String,
    pub champion_id: String,
    pub content: String,
}

/// The mathematical value of a stored [`Build`] row.
pub struct BuildRow {
    pub id: nat,
    pub source: Seq<char>,
    pub version: Seq<char>,
    pub champion_alias: Seq<char>,
    pub champion_id: Seq<char>,
    pub content: Seq<char>,
}

impl BuildRow {
    pub open spec fn key(self) -> BuildKey {
        (self.source, self.champion_id, self.champion_alias)
    }
}

impl View for Build {
    type V = BuildRow;

    open spec fn view(&self) -> BuildRow {
        BuildRow {
            id: self.id as nat,
            source: self.source@,
            version: self.version@,
            champion_alias: self.champion_alias@,
            champion_id: self.champion_id@,
            content: self.content@,
        }
    }
}

/// The values of a list of records.
pub open spec fn records_of(list: Seq<NewBuild>) -> Seq<BuildRecord> {
    list.map_values(|b: NewBuild| b@)
}

/// No two rows share a key.
pub open spec fn unique_keys(rows: Seq<BuildRow>) -> bool {
    forall|i: int, j: int|
        0 <= i < rows.len() && 0 <= j < rows.len() && i != j ==> #[trigger] rows[i].key()
            != #[trigger] rows[j].key()
}

/// The position of the last row with key `k`, or -1 when there is none.
pub open spec fn key_index(rows: Seq<BuildRow>, k: BuildKey) -> int
    decreases rows.len(),
{
    if rows.len() == 0 {
        -1
    } else if rows.last().key() == k {
        rows.len() - 1
    } else {
        key_index(rows.drop_last(), k)
    }
}

/// One record upserted: a row with the same key gets the record's version
/// and content and keeps its id; otherwise a row is appended with id `next`.
pub open spec fn upsert_one(rows: Seq<BuildRow>, next: nat, b: BuildRecord) -> (Seq<BuildRow>, nat) {
    let i = key_index(rows, b.key());
    if i >= 0 {
        (
            rows.update(
                i,
                BuildRow {
                    id: rows[i].id,
                    source: rows[i].source,
                    version: b.version,
                    champion_alias: rows[i].champion_alias,
                    champion_id: rows[i].champion_id,
                    content: b.content,
                },
            ),
            next,
        )
    } else {
        (
            rows.push(
                BuildRow {
                    id: next,
                    source: b.source,
                    version: b.version,
                    champion_alias: b.champion_alias,
                    champion_id: b.champion_id,
                    content: b.content,
                },
            ),
            next + 1,
        )
    }
}

/// A batch upserted record by record, in list order.
pub open spec fn upsert_all(rows: Seq<BuildRow>, next: nat, list: Seq<BuildRecord>) -> (
    Seq<BuildRow>,
    nat,
)
    decreases list.len(),
{
    if list.len() == 0 {
        (rows, next)
    } else {
        let (r, n) = upsert_all(rows, next, list.drop_last());
        upsert_one(r, n, list.last())
    }
}

/// The last record of `list` with key `k`, if any.
pub open spec fn last_record(list: Seq<BuildRecord>, k: BuildKey) -> Option<BuildRecord>
    decreases list.len(),
{
    if list.len() == 0 {
        None
    } else if list.last().key() == k {
        Some(list.last())
    } else {
        last_record(list.drop_last(), k)
    }
}

/// `key_index` finds the last row with the key, and -1 only when no row has it.
pub proof fn lemma_key_index(rows: Seq<BuildRow>, k: BuildKey)
    ensures
        -1 <= key_index(rows, k) < rows.len(),
        key_index(rows, k) >= 0 ==> rows[key_index(rows, k)].key() == k,
        forall|m: int| key_index(rows, k) < m < rows.len() ==> #[trigger] rows[m].key() != k,
    decreases rows.len(),
{
    if rows.len() > 0 {
        lemma_key_index(rows.drop_last(), k);
        assert forall|m: int| key_index(rows, k) < m < rows.len() implies #[trigger] rows[m].key()
            != k by {
            if m < rows.len() - 1 {
                assert(rows[m] == rows.drop_last()[m]);
            }
        }
    }
}

/// Every key of a list has a last record in it.
pub proof fn lemma_last_record_of_member(list: Seq<BuildRecord>, j: int)
    requires
        0 <= j < list.len(),
    ensures
        last_record(list, list[j].key()).is_some(),
    decreases list.len(),
{
    if j < list.len() - 1 && list.last().key() != list[j].key() {
        assert(list.drop_last()[j] == list[j]);
        lemma_last_record_of_member(list.drop_last(), j);
    }
}

proof fn lemma_upsert_one_shape(rows: Seq<BuildRow>, next: nat, b: BuildRecord)
    requires
        unique_keys(rows),
    ensures
        ({
            let (r, n) = upsert_one(rows, next, b);
            &&& unique_keys(r)
            &&& key_index(r, b.key()) >= 0
            &&& rows.len() <= r.len() <= rows.len() + 1
            &&& n == next + (r.len() - rows.len())
            &&& (key_index(rows, b.key()) >= 0 ==> r.len() == rows.len())
            &&& forall|i: int|
                0 <= i < rows.len() ==> (#[trigger] r[i]).id == rows[i].id && r[i].key()
                    == rows[i].key() && (rows[i].key() != b.key() ==> r[i] == rows[i]) && (
                rows[i].key() == b.key() ==> r[i].version == b.version && r[i].content
                    == b.content)
            &&& forall|i: int|
                rows.len() <= i < r.len() ==> (#[trigger] r[i]).key() == b.key() && r[i].version
                    == b.version && r[i].content == b.content
            &&& forall|k: BuildKey| key_index(rows, k) >= 0 ==> #[trigger] key_index(r, k) >= 0
        }),
{
    let (r, n) = upsert_one(rows, next, b);
    let i0 = key_index(rows, b.key());
    lemma_key_index(rows, b.key());
    lemma_key_index(r, b.key());
    assert forall|k: BuildKey| key_index(rows, k) >= 0 implies #[trigger] key_index(r, k) >= 0 by {
        lemma_key_index(rows, k);
        lemma_key_index(r, k);
        let m = key_index(rows, k);
        assert(r[m].key() == rows[m].key());
    }
    if i0 >= 0 {
        assert forall|i: int| 0 <= i < rows.len() && rows[i].key() == b.key() implies i == i0 by {}
    } else {
        assert forall|i: int| 0 <= i < rows.len() implies rows[i].key() != b.key() by {}
    }
}

/// What a batch does to a table whose keys are unique: rows keep their
/// position, id and key; a row whose key the batch names carries the last
/// such record's version and content; the others stay; new rows come after
/// the old ones, one per key that was absent, and every key of the batch ends
/// up present.
pub proof fn lemma_upsert_all_shape(rows: Seq<BuildRow>, next: nat, list: Seq<BuildRecord>)
    requires
        unique_keys(rows),
    ensures
        ({
            let (r, n) = upsert_all(rows, next, list);
            &&& unique_keys(r)
            &&& rows.len() <= r.len() <= rows.len() + list.len()
            &&& n == next + (r.len() - rows.len())
            &&& forall|i: int|
                0 <= i < rows.len() ==> (#[trigger] r[i]).id == rows[i].id && r[i].key()
                    == rows[i].key() && (last_record(list, rows[i].key()) is None ==> r[i]
                    == rows[i])
            &&& forall|i: int|
                0 <= i < r.len() ==> match last_record(list, (#[trigger] r[i]).key()) {
                    Some(b) => r[i].version == b.version && r[i].content == b.content,
                    None => i < rows.len(),
                }
            &&& forall|k: BuildKey| #[trigger]
                last_record(list, k) is Some ==> key_index(r, k) >= 0
            &&& forall|k: BuildKey| key_index(rows, k) >= 0 ==> #[trigger] key_index(r, k) >= 0
            &&& (forall|j: int| 0 <= j < list.len() ==> #[trigger] key_index(rows, list[j].key()) >= 0)
                ==> r.len() == rows.len()
        }),
    decreases list.len(),
{
    if list.len() > 0 {
        let pre = list.drop_last();
        let b = list.last();
        lemma_upsert_all_shape(rows, next, pre);
        let (r0, n0) = upsert_all(rows, next, pre);
        lemma_upsert_one_shape(r0, n0, b);
        let (r, n) = upsert_all(rows, next, list);
        assert((r, n) == upsert_one(r0, n0, b));
        assert forall|i: int| 0 <= i < r.len() implies match last_record(list, (#[trigger] r[i]).key()) {
            Some(c) => r[i].version == c.version && r[i].content == c.content,
            None => i < rows.len(),
        } by {
            if i < r0.len() {
                assert(r[i].key() == r0[i].key());
            }
        }
        assert forall|k: BuildKey| #[trigger] last_record(list, k) is Some implies key_index(r, k) >= 0 by {
            if k != b.key() {
                assert(last_record(pre, k) is Some);
            }
        }
        if forall|j: int| 0 <= j < list.len() ==> #[trigger] key_index(rows, list[j].key()) >= 0 {
            assert forall|j: int| 0 <= j < pre.len() implies #[trigger] key_index(rows, pre[j].key()) >= 0 by {
                assert(pre[j] == list[j]);
            }
            assert(key_index(rows, list[list.len() - 1].key()) >= 0);
        }
    }
}

/// Upserting the same batch a second time changes nothing: the rows and the
/// next id are those that the first time left.
pub proof fn lemma_upsert_idempotent(rows: Seq<BuildRow>, next: nat, list: Seq<BuildRecord>)
    requires
        unique_keys(rows),
    ensures
        upsert_all(upsert_all(rows, next, list).0, upsert_all(rows, next, list).1, list)
            == upsert_all(rows, next, list),
{
    let (r1, n1) = upsert_all(rows, next, list);
    lemma_upsert_all_shape(rows, next, list);
    lemma_upsert_all_shape(r1, n1, list);
    let (r2, n2) = upsert_all(r1, n1, list);
    assert forall|j: int| 0 <= j < list.len() implies #[trigger] key_index(r1, list[j].key()) >= 0 by {
        lemma_last_record_of_member(list, j);
    }
    assert forall|i: int| 0 <= i < r1.len() implies r2[i] == r1[i] by {
        assert(r2[i].key() == r1[i].key());
        if let Some(b) = last_record(list, r1[i].key()) {
            assert(r2[i].version == b.version);
        }
    }
    assert(r2 =~= r1);
}

/// Upserting a record whose key matches the row at `i` rewrites that row's
/// version and content in place: its id and every other row stay, and the
/// number of rows and the next id do not change.
pub proof fn lemma_conflict_updates_in_place(
    rows: Seq<BuildRow>,
    next: nat,
    b: BuildRecord,
    i: int,
)
    requires
        unique_keys(rows),
        0 <= i < rows.len(),
        rows[i].key() == b.key(),
    ensures
        ({
            let (r, n) = upsert_all(rows, next, seq![b]);
            &&& r.len() == rows.len()
            &&& n == next
            &&& r[i].id == rows[i].id
            &&& r[i].key() == rows[i].key()
            &&& r[i].version == b.version
            &&& r[i].content == b.content
            &&& forall|j: int| 0 <= j < rows.len() && j != i ==> r[j] == rows[j]
        }),
{
    let list = seq![b];
    assert(list.drop_last() =~= Seq::<BuildRecord>::empty());
    assert(list.last() == b);
    assert(upsert_all(rows, next, list.drop_last()) == (rows, next));
    lemma_key_index(rows, b.key());
    assert(key_index(rows, b.key()) == i);
    assert(upsert_all(rows, next, list) == upsert_one(rows, next, b));
}

/// The build rows of a store, with the conflict semantics of the builds table.
pub struct BuildTable {
    rows: Vec<Build>,
    next_id: u64,
}

/// The mathematical value of a [`BuildTable`]: its rows in insertion order and
/// the id that the next new row gets.
pub struct TableView {
    pub rows: Seq<BuildRow>,
    pub next_id: nat,
}

impl View for BuildTable {
    type V = TableView;

    closed spec fn view(&self) -> TableView {
        TableView { rows: self.rows@.map_values(|r: Build| r@), next_id: self.next_id as nat }
    }
}

impl BuildTable {
    /// No two rows share a key.
    pub open spec fn wf(&self) -> bool {
        unique_keys(self@.rows)
    }

    /// An empty table whose first row gets id 1.
    pub fn new() -> (t: Self)
        ensures
            t.wf(),
            t@.rows == Seq::<BuildRow>::empty(),
            t@.next_id == 1,
    {
        let t = BuildTable { rows: Vec::new(), next_id: 1 };
        assert(t@.rows =~= Seq::<BuildRow>::empty());
        t
    }

    /// The number of rows.
    pub fn len(&self) -> (r: usize)
        ensures
            r == self@.rows.len(),
    {
        self.rows.len()
    }

    /// The rows, in the order they were created.
    pub fn rows(&self) -> (r: &Vec<Build>)
        ensures
            r@.map_values(|b: Build| b@) == self@.rows,
    {
        &self.rows
    }

    fn find_key(&self, b: &NewBuild) -> (r: Option<usize>)
        ensures
            match r {
                Some(i) => i as int == key_index(self@.rows, b@.key()) && i < self.rows@.len(),
                None => key_index(self@.rows, b@.key()) == -1,
            },
    {
        proof {
            lemma_key_index(self@.rows, b@.key());
        }
        let mut j: usize = self.rows.len();
        while j > 0
            invariant
                j <= self.rows.len(),
                self@.rows.len() == self.rows.len(),
                forall|m: int| j <= m < self.rows.len() ==> #[trigger] self@.rows[m].key() != b@.key(),
                -1 <= key_index(self@.rows, b@.key()) < self@.rows.len(),
                key_index(self@.rows, b@.key()) >= 0 ==> self@.rows[key_index(self@.rows, b@.key())].key()
                    == b@.key(),
                forall|m: int|
                    key_index(self@.rows, b@.key()) < m < self@.rows.len() ==> #[trigger] self@.rows[m].key()
                        != b@.key(),
            decreases j,
        {
            let row = &self.rows[j - 1];
            assert(self@.rows[j - 1] == row@);
            if row.source == b.source && row.champion_id == b.champion_id && row.champion_alias
                == b.champion_alias {
                assert(self@.rows[j - 1].key() == b@.key());
                return Some(j - 1);
            }
            j = j - 1;
        }
        None
    }

    fn apply(&mut self, b: NewBuild)
        requires
            old(self).wf(),
            old(self).next_id < u64::MAX,
        ensures
            final(self).wf(),
            (final(self)@.rows, final(self)@.next_id) == upsert_one(
                old(self)@.rows,
                old(self)@.next_id,
                b@,
            ),
    {
        proof {
            lemma_upsert_one_shape(self@.rows, self@.next_id, b@);
        }
        let ghost before = self@;
        match self.find_key(&b) {
            Some(i) => {
                let old_row = &self.rows[i];
                assert(before.rows[i as int] == old_row@);
                let row = Build {
                    id: old_row.id,
                    source: old_row.source.clone(),
                    version: b.version,
                    champion_alias: old_row.champion_alias.clone(),
                    champion_id: old_row.champion_id.clone(),
                    content: b.content,
                };
                self.rows.set(i, row);
                assert(self@.rows =~= upsert_one(before.rows, before.next_id, b@).0);
            },
            None => {
                let row = Build {
                    id: self.next_id,
                    source: b.source,
                    version: b.version,
                    champion_alias: b.champion_alias,
                    champion_id: b.champion_id,
                    content: b.content,
                };
                self.rows.push(row);
                self.next_id = self.next_id + 1;
                assert(self@.rows =~= upsert_one(before.rows, before.next_id, b@).0);
            },
        }
    }

    /// Upserts a batch in one call. Each record either rewrites the version and
    /// content of the row with its key or adds a row; the count of affected
    /// rows is the length of the batch.
    pub fn upsert_builds(&mut self, list: Vec<NewBuild>) -> (count: usize)
        requires
            old(self).wf(),
            old(self)@.next_id + list@.len() < u64::MAX,
        ensures
            final(self).wf(),
            (final(self)@.rows, final(self)@.next_id) == upsert_all(
                old(self)@.rows,
                old(self)@.next_id,
                records_of(list@),
            ),
            count == list@.len(),
    {
        let ghost start = self@;
        let ghost recs = records_of(list@);
        let count = list.len();
        let mut idx: usize = 0;
        while idx < count
            invariant
                count == recs.len(),
                idx <= count,
                self.wf(),
                list@.len() == count,
                recs == records_of(list@),
                self@.next_id <= start.next_id + idx,
                start.next_id + count < u64::MAX,
                (self@.rows, self@.next_id) == upsert_all(start.rows, start.next_id, recs.take(idx as int)),
            decreases count - idx,
        {
            let b = list[idx].copy();
            assert(b@ == recs[idx as int]);
            assert(recs.take(idx + 1).drop_last() =~= recs.take(idx as int));
            self.apply(b);
            idx = idx + 1;
        }
        assert(recs.take(count as int) =~= recs);
        count
    }
}

} // verus!

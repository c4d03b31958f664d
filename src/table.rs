//! The reference table: company records rebuilt by position from a flat run
//! of table cells, nine cells to a record.

use vstd::prelude::*;

use crate::markup::{cell_texts, cell_texts_of};
use crate::text::{to_upper, trim, trim_of, upper_of};

verus! {

/// One listed company.
pub struct StockInfo {
    pub name: String,
    pub code: String,
    pub bussiness_type: String,
    pub product: String,
    pub listed_date: String,
    pub settlement_date: String,
    pub representative_name: String,
    pub homepage: String,
    pub location: String,
}

/// A company record as character sequences.
pub ghost struct StockInfoView {
    pub name: Seq<char>,
    pub code: Seq<char>,
    pub bussiness_type: Seq<char>,
    pub product: Seq<char>,
    pub listed_date: Seq<char>,
    pub settlement_date: Seq<char>,
    pub representative_name: Seq<char>,
    pub homepage: Seq<char>,
    pub location: Seq<char>,
}

impl View for StockInfo {
    type V = StockInfoView;

    open spec fn view(&self) -> StockInfoView {
        StockInfoView {
            name: self.name@,
            code: self.code@,
            bussiness_type: self.bussiness_type@,
            product: self.product@,
            listed_date: self.listed_date@,
            settlement_date: self.settlement_date@,
            representative_name: self.representative_name@,
            homepage: self.homepage@,
            location: self.location@,
        }
    }
}

impl Default for StockInfo {
    /// A record with every field empty.
    fn default() -> (r: StockInfo)
        ensures
            r.name@.len() == 0,
            r.code@.len() == 0,
            r.bussiness_type@.len() == 0,
            r.product@.len() == 0,
            r.listed_date@.len() == 0,
            r.settlement_date@.len() == 0,
            r.representative_name@.len() == 0,
            r.homepage@.len() == 0,
            r.location@.len() == 0,
    {
        StockInfo {
            name: String::new(),
            code: String::new(),
            bussiness_type: String::new(),
            product: String::new(),
            listed_date: String::new(),
            settlement_date: String::new(),
            representative_name: String::new(),
            homepage: String::new(),
            location: String::new(),
        }
    }
}

/// Cell `k`, or the empty text where the run of cells ends before it.
pub open spec fn cell_or_empty(cells: Seq<Seq<char>>, k: int) -> Seq<char> {
    if 0 <= k < cells.len() {
        cells[k]
    } else {
        Seq::empty()
    }
}

/// The record that starts at cell `9 * r`: the name is the first cell upper
/// cased, the homepage is trimmed, the other fields are the cells as they are,
/// and fields past the end of the run are empty.
pub open spec fn record_at(cells: Seq<Seq<char>>, r: int) -> StockInfoView {
    StockInfoView {
        name: upper_of(cells[9 * r]),
        code: cell_or_empty(cells, 9 * r + 1),
        bussiness_type: cell_or_empty(cells, 9 * r + 2),
        product: cell_or_empty(cells, 9 * r + 3),
        listed_date: cell_or_empty(cells, 9 * r + 4),
        settlement_date: cell_or_empty(cells, 9 * r + 5),
        representative_name: cell_or_empty(cells, 9 * r + 6),
        homepage: if 9 * r + 7 < cells.len() {
            trim_of(cells[9 * r + 7])
        } else {
            Seq::empty()
        },
        location: cell_or_empty(cells, 9 * r + 8),
    }
}

/// The key of record `r`: its first cell as it stands.
pub open spec fn key_of(cells: Seq<Seq<char>>, r: int) -> Seq<char> {
    cells[9 * r]
}

/// The number of records that the cells start, a trailing partial one included.
pub open spec fn record_count(cells: Seq<Seq<char>>) -> nat {
    ((cells.len() + 8) / 9) as nat
}

/// The table after the first `n` records went in, each keyed by its first
/// cell as it stands; a later record replaces an earlier one of the same key.
pub open spec fn table_upto(cells: Seq<Seq<char>>, n: nat) -> Map<Seq<char>, StockInfoView>
    decreases n,
{
    if n == 0 {
        Map::empty()
    } else {
        table_upto(cells, (n - 1) as nat).insert(key_of(cells, n - 1), record_at(cells, n - 1))
    }
}

/// The table that a run of cells describes.
pub open spec fn table_of(cells: Seq<Seq<char>>) -> Map<Seq<char>, StockInfoView> {
    table_upto(cells, record_count(cells))
}

/// Company records keyed by the raw text of their first cell.
pub struct StockTable {
    keys: Vec<String>,
    infos: Vec<StockInfo>,
}

impl View for StockTable {
    type V = Map<Seq<char>, StockInfoView>;

    closed spec fn view(&self) -> Map<Seq<char>, StockInfoView> {
        Map::new(
            |k: Seq<char>| exists|i: int| 0 <= i < self.keys.len() && #[trigger] self.keys[i]@ == k,
            |k: Seq<char>|
                self.infos[choose|i: int| 0 <= i < self.keys.len() && #[trigger] self.keys[i]@ == k]@,
        )
    }
}

impl StockTable {
    /// One record for each key, and no key twice.
    pub closed spec fn wf(&self) -> bool {
        &&& self.keys.len() == self.infos.len()
        &&& forall|i: int, j: int|
            0 <= i < self.keys.len() && 0 <= j < self.keys.len() && i != j ==> self.keys[i]@
                != self.keys[j]@
    }

    proof fn lemma_entry(&self, i: int)
        requires
            self.wf(),
            0 <= i < self.keys.len(),
        ensures
            self@.contains_key(self.keys[i]@),
            self@[self.keys[i]@] == self.infos[i]@,
    {
        let k = self.keys[i]@;
        assert(self@.dom().contains(k));
        let j = choose|j: int| 0 <= j < self.keys.len() && #[trigger] self.keys[j]@ == k;
        assert(j == i);
    }

    proof fn lemma_index_of(&self, k: Seq<char>) -> (i: int)
        requires
            self.wf(),
            self@.contains_key(k),
        ensures
            0 <= i < self.keys.len(),
            self.keys[i]@ == k,
    {
        choose|i: int| 0 <= i < self.keys.len() && #[trigger] self.keys[i]@ == k
    }

    /// The empty table.
    pub fn new() -> (r: StockTable)
        ensures
            r.wf(),
            r@ == Map::<Seq<char>, StockInfoView>::empty(),
    {
        let r = StockTable { keys: Vec::new(), infos: Vec::new() };
        assert(r@ =~= Map::<Seq<char>, StockInfoView>::empty());
        r
    }

    /// The number of records.
    pub fn len(&self) -> (r: usize)
        requires
            self.wf(),
        ensures
            r == self@.len(),
    {
        proof {
            self.lemma_len();
        }
        self.keys.len()
    }

    proof fn lemma_len(&self)
        requires
            self.wf(),
        ensures
            self@.len() == self.keys.len(),
    {
        let ks = Seq::new(self.keys.len() as nat, |i: int| self.keys[i]@);
        assert forall|i: int, j: int| 0 <= i < j < ks.len() implies ks[i] != ks[j] by {}
        ks.unique_seq_to_set();
        assert(ks.to_set() =~= self@.dom()) by {
            assert forall|k: Seq<char>| self@.dom().contains(k) implies ks.to_set().contains(k) by {
                let i = self.lemma_index_of(k);
                assert(ks[i] == k);
            }
            assert forall|k: Seq<char>| ks.to_set().contains(k) implies self@.dom().contains(k) by {
                let i = choose|i: int| 0 <= i < ks.len() && ks[i] == k;
                self.lemma_entry(i);
            }
        }
    }

    /// The record stored under `key`, if there is one.
    pub fn get(&self, key: &String) -> (r: Option<&StockInfo>)
        requires
            self.wf(),
        ensures
            r is None <==> !self@.contains_key(key@),
            r matches Some(info) ==> info@ == self@[key@],
    {
        let mut i: usize = 0;
        while i < self.keys.len()
            invariant
                self.wf(),
                i <= self.keys.len(),
                forall|t: int| 0 <= t < i ==> self.keys[t]@ != key@,
            decreases self.keys.len() - i,
        {
            if self.keys[i] == *key {
                proof {
                    self.lemma_entry(i as int);
                }
                return Some(&self.infos[i]);
            }
            i = i + 1;
        }
        proof {
            if self@.contains_key(key@) {
                let j = self.lemma_index_of(key@);
                assert(self.keys[j]@ != key@);
            }
        }
        None
    }

    /// Stores `info` under `key`, in place of any record that was there.
    pub fn insert(&mut self, key: String, info: StockInfo)
        requires
            old(self).wf(),
        ensures
            final(self).wf(),
            final(self)@ == old(self)@.insert(key@, info@),
    {
        let ghost pre = *self;
        let mut i: usize = 0;
        while i < self.keys.len()
            invariant
                *self == pre,
                pre == *old(self),
                pre.wf(),
                i <= self.keys.len(),
                forall|t: int| 0 <= t < i ==> self.keys[t]@ != key@,
            decreases self.keys.len() - i,
        {
            if self.keys[i] == key {
                self.infos.set(i, info);
                proof {
                    let post = *self;
                    assert(post.wf());
                    assert forall|k: Seq<char>| #[trigger] post@.contains_key(k) <==> pre@.insert(key@, info@).contains_key(k) by {
                        if post@.contains_key(k) {
                            let j = post.lemma_index_of(k);
                            if j != i {
                                pre.lemma_entry(j);
                            }
                        }
                        if pre@.contains_key(k) {
                            let j = pre.lemma_index_of(k);
                            post.lemma_entry(j);
                        }
                        if k == key@ {
                            post.lemma_entry(i as int);
                        }
                    }
                    assert forall|k: Seq<char>| #[trigger] post@.contains_key(k) implies post@[k] == pre@.insert(key@, info@)[k] by {
                        let j = post.lemma_index_of(k);
                        post.lemma_entry(j);
                        if j != i {
                            pre.lemma_entry(j);
                        }
                    }
                    assert(post@ =~= pre@.insert(key@, info@));
                }
                return;
            }
            i = i + 1;
        }
        let ghost k0 = key@;
        self.keys.push(key);
        self.infos.push(info);
        proof {
            let post = *self;
            assert(post.wf());
            let n = pre.keys.len() as int;
            assert forall|k: Seq<char>| #[trigger] post@.contains_key(k) <==> pre@.insert(k0, info@).contains_key(k) by {
                if post@.contains_key(k) {
                    let j = post.lemma_index_of(k);
                    if j != n {
                        pre.lemma_entry(j);
                    }
                }
                if pre@.contains_key(k) {
                    let j = pre.lemma_index_of(k);
                    post.lemma_entry(j);
                }
                if k == k0 {
                    post.lemma_entry(n);
                }
            }
            assert forall|k: Seq<char>| #[trigger] post@.contains_key(k) implies post@[k] == pre@.insert(k0, info@)[k] by {
                let j = post.lemma_index_of(k);
                post.lemma_entry(j);
                if j != n {
                    pre.lemma_entry(j);
                }
            }
            assert(post@ =~= pre@.insert(k0, info@));
        }
    }
}

fn cell_at(cells: &Vec<String>, start: usize, offset: usize) -> (r: String)
    requires
        start < cells.len(),
    ensures
        r@ == cell_or_empty(cells.deep_view(), start + offset),
{
    if offset < cells.len() - start {
        cells[start + offset].clone()
    } else {
        String::new()
    }
}

fn record_from(cells: &Vec<String>, start: usize, Ghost(r): Ghost<int>) -> (info: StockInfo)
    requires
        start < cells.len(),
        start == 9 * r,
    ensures
        info@ == record_at(cells.deep_view(), r),
{
    let homepage = if 7 < cells.len() - start {
        trim(cells[start + 7].as_str())
    } else {
        String::new()
    };
    let info = StockInfo {
        name: to_upper(cells[start].as_str()),
        code: cell_at(cells, start, 1),
        bussiness_type: cell_at(cells, start, 2),
        product: cell_at(cells, start, 3),
        listed_date: cell_at(cells, start, 4),
        settlement_date: cell_at(cells, start, 5),
        representative_name: cell_at(cells, start, 6),
        homepage,
        location: cell_at(cells, start, 8),
    };
    info
}

/// Rebuilds the table from a run of cell texts: cell `9 * r` starts record
/// `r` and is its key, the eight cells after it fill its other fields in
/// order, and a trailing partial record keeps empty fields.
pub fn load_from_cells(cells: &Vec<String>) -> (table: StockTable)
    ensures
        table.wf(),
        table@ == table_of(cells.deep_view()),
{
    let ghost c = cells.deep_view();
    let mut table = StockTable::new();
    let mut start: usize = 0;
    let ghost mut r: nat = 0;
    while start < cells.len()
        invariant
            c == cells.deep_view(),
            table.wf(),
            start <= cells.len(),
            start < cells.len() ==> start == 9 * r,
            start == cells.len() ==> r == record_count(c),
            table@ == table_upto(c, r),
        decreases cells.len() - start,
    {
        let info = record_from(cells, start, Ghost(r as int));
        let key = cells[start].clone();
        table.insert(key, info);
        proof {
            r = r + 1;
        }
        if cells.len() - start <= 9 {
            start = cells.len();
        } else {
            start = start + 9;
        }
    }
    proof {
        if cells.len() == 0 {
            assert(record_count(c) == 0);
        }
    }
    table
}

/// Rebuilds the reference table from markup: its table cells, in document
/// order, read nine to a record.
pub fn load(markup: &str) -> (table: StockTable)
    ensures
        table.wf(),
        table@ == table_of(cell_texts_of(markup@)),
{
    let cells = cell_texts(markup);
    load_from_cells(&cells)
}

proof fn lemma_upto_keys(cells: Seq<Seq<char>>, n: nat)
    requires
        9 * n <= cells.len() + 8,
    ensures
        table_upto(cells, n).dom().finite(),
        forall|k: Seq<char>|
            #[trigger] table_upto(cells, n).contains_key(k) <==> exists|r: int|
                0 <= r < n && #[trigger] key_of(cells, r) == k,
    decreases n,
{
    if n > 0 {
        lemma_upto_keys(cells, (n - 1) as nat);
        assert forall|k: Seq<char>|
            #[trigger] table_upto(cells, n).contains_key(k) <==> exists|r: int|
                0 <= r < n && #[trigger] key_of(cells, r) == k by {
            if k == key_of(cells, n - 1) {
                assert(0 <= n - 1 < n && key_of(cells, n - 1) == k);
            }
            if exists|r: int| 0 <= r < n && key_of(cells, r) == k {
                let r = choose|r: int| 0 <= r < n && key_of(cells, r) == k;
                if r < n - 1 {
                    assert(table_upto(cells, (n - 1) as nat).contains_key(k));
                }
            }
        }
    }
}

proof fn lemma_upto_later(cells: Seq<Seq<char>>, r: int, n: nat)
    requires
        0 <= r < n,
        9 * n <= cells.len() + 8,
        forall|s: int| r < s < n ==> key_of(cells, s) != key_of(cells, r),
    ensures
        table_upto(cells, n).contains_key(key_of(cells, r)),
        table_upto(cells, n)[key_of(cells, r)] == record_at(cells, r),
    decreases n,
{
    if n - 1 > r {
        lemma_upto_later(cells, r, (n - 1) as nat);
        assert(key_of(cells, n - 1) != key_of(cells, r));
    }
}

/// Of several records with one key, the table keeps the last: a record whose
/// key no later record repeats is what the table holds under that key.
pub proof fn law_last_record_wins(cells: Seq<Seq<char>>, r: int)
    requires
        0 <= r < record_count(cells),
        forall|s: int| r < s < record_count(cells) ==> key_of(cells, s) != key_of(cells, r),
    ensures
        table_of(cells).contains_key(key_of(cells, r)),
        table_of(cells)[key_of(cells, r)] == record_at(cells, r),
{
    lemma_upto_later(cells, r, record_count(cells));
}

/// A run of `n` complete records whose first cells are all distinct gives a
/// table of exactly `n` entries, one under each first cell, holding that
/// record.
pub proof fn law_one_entry_per_record(cells: Seq<Seq<char>>, n: nat)
    requires
        cells.len() == 9 * n,
        forall|a: int, b: int| 0 <= a < b < n ==> key_of(cells, a) != key_of(cells, b),
    ensures
        table_of(cells).len() == n,
        forall|r: int|
            0 <= r < n ==> table_of(cells).contains_key(#[trigger] key_of(cells, r)) && table_of(
                cells,
            )[key_of(cells, r)] == record_at(cells, r),
{
    assert(record_count(cells) == n);
    lemma_distinct_len(cells, n);
    assert forall|r: int| 0 <= r < n implies table_of(cells).contains_key(#[trigger] key_of(cells, r))
        && table_of(cells)[key_of(cells, r)] == record_at(cells, r) by {
        law_last_record_wins(cells, r);
    }
}

proof fn lemma_distinct_len(cells: Seq<Seq<char>>, m: nat)
    requires
        9 * m <= cells.len(),
        forall|a: int, b: int| 0 <= a < b < m ==> key_of(cells, a) != key_of(cells, b),
    ensures
        table_upto(cells, m).len() == m,
    decreases m,
{
    if m > 0 {
        lemma_distinct_len(cells, (m - 1) as nat);
        lemma_upto_keys(cells, (m - 1) as nat);
        let k = key_of(cells, m - 1);
        if table_upto(cells, (m - 1) as nat).contains_key(k) {
            let r = choose|r: int| 0 <= r < m - 1 && key_of(cells, r) == k;
            assert(key_of(cells, r) != key_of(cells, m - 1));
        }
    }
}

/// Loading is a function of the markup: the same markup always gives the
/// same table.
pub proof fn law_load_repeatable(a: Seq<char>, b: Seq<char>)
    requires
        a == b,
    ensures
        table_of(cell_texts_of(a)) == table_of(cell_texts_of(b)),
{
}

} // verus!

//! The catalog consistency engine: brands, products and the hot list, with
//! soft deletion and uniqueness scoped to live rows.
//!
//! Every operation checks its whole request before it writes anything, so a
//! rejected request leaves the catalog as it was.

use vstd::prelude::*;

use crate::cosmetics::{Brand, BrandItem, BrandSequence, HotProduct, NewBrand, NewProduct, Price, ProductItem};
use crate::models::{spec_clamped_limit, spec_offset, CatalogError, CommonStatus, Paging, Validate, MAX_ROWS, MIN_ROWS};

verus! {

/// A stored brand.
#[derive(Debug)]
pub struct BrandRow {
    pub id: u64,
    pub name: String,
    pub sequence: i32,
    pub status: CommonStatus,
    pub creator: String,
    pub modifier: String,
}

pub open spec fn is_active(row: BrandRow) -> bool {
    row.status == CommonStatus::Valid
}

/// Some live brand in `rows` is named `name`.
pub open spec fn name_is_active(rows: Seq<BrandRow>, name: Seq<char>) -> bool {
    exists|j: int| 0 <= j < rows.len() && is_active(#[trigger] rows[j]) && rows[j].name@ == name
}

/// The highest sequence among live brands, if any is live.
pub open spec fn max_active_sequence(rows: Seq<BrandRow>) -> Option<i32>
    decreases rows.len(),
{
    if rows.len() == 0 {
        None
    } else {
        let prev = max_active_sequence(rows.drop_last());
        let last = rows.last();
        if !is_active(last) {
            prev
        } else {
            match prev {
                Some(m) => if m >= last.sequence {
                    Some(m)
                } else {
                    Some(last.sequence)
                },
                None => Some(last.sequence),
            }
        }
    }
}

/// The sequence that the first brand of a new batch gets: one past the
/// highest live sequence, or 1 when no brand is live.
pub open spec fn next_sequence(rows: Seq<BrandRow>) -> int {
    match max_active_sequence(rows) {
        Some(m) => m + 1,
        None => 1,
    }
}

/// No two live brands share a name or a sequence.
pub open spec fn brands_unique(rows: Seq<BrandRow>) -> bool {
    forall|i: int, j: int|
        0 <= i < rows.len() && 0 <= j < rows.len() && i != j && is_active(#[trigger] rows[i])
            && is_active(#[trigger] rows[j]) ==> rows[i].name@ != rows[j].name@ && rows[i].sequence
            != rows[j].sequence
}

/// Every brand has a non-empty name.
pub open spec fn brand_names_nonempty(rows: Seq<BrandRow>) -> bool {
    forall|i: int| 0 <= i < rows.len() ==> (#[trigger] rows[i]).name@.len() != 0
}

/// Brand ids count from 1 in order of creation.
pub open spec fn brand_ids_ordered(rows: Seq<BrandRow>) -> bool {
    &&& rows.len() < u64::MAX
    &&& forall|i: int| 0 <= i < rows.len() ==> (#[trigger] rows[i]).id == i + 1
}

/// Why a batch of new brands is refused, if it is.
pub open spec fn create_brands_error(rows: Seq<BrandRow>, batch: Seq<NewBrand>) -> Option<CatalogError> {
    if batch.len() == 0 {
        Some(CatalogError::EmptyBatch)
    } else if exists|i: int| 0 <= i < batch.len() && (#[trigger] batch[i]).name@.len() == 0 {
        Some(CatalogError::EmptyName)
    } else if exists|i: int| 0 <= i < batch.len() && name_is_active(rows, (#[trigger] batch[i]).name@) {
        Some(CatalogError::NameTaken)
    } else if exists|i: int, j: int|
        0 <= i < j < batch.len() && (#[trigger] batch[i]).name@ == (#[trigger] batch[j]).name@ {
        Some(CatalogError::NameTaken)
    } else if next_sequence(rows) + batch.len() - 1 > i32::MAX || rows.len() + batch.len() >= u64::MAX {
        Some(CatalogError::NumbersExhausted)
    } else {
        None
    }
}

/// Some live brand in `rows` has sequence `sequence`.
pub open spec fn sequence_is_active(rows: Seq<BrandRow>, sequence: i32) -> bool {
    exists|j: int| 0 <= j < rows.len() && is_active(#[trigger] rows[j]) && rows[j].sequence == sequence
}

/// Why a single new brand is refused, if it is.
pub open spec fn create_brand_error(rows: Seq<BrandRow>, name: Seq<char>, sequence: i32) -> Option<CatalogError> {
    if name.len() == 0 {
        Some(CatalogError::EmptyName)
    } else if name_is_active(rows, name) {
        Some(CatalogError::NameTaken)
    } else if sequence_is_active(rows, sequence) {
        Some(CatalogError::DuplicateSequence)
    } else if rows.len() + 1 >= u64::MAX {
        Some(CatalogError::NumbersExhausted)
    } else {
        None
    }
}

/// `row` is the brand created as entry `k` of a batch named `name`, after
/// `old_len` brands, by `operator`.
pub open spec fn is_new_brand_row(
    row: BrandRow,
    old_len: int,
    first_sequence: int,
    k: int,
    name: Seq<char>,
    operator: Seq<char>,
) -> bool {
    &&& row.id == old_len + k + 1
    &&& row.name@ == name
    &&& row.sequence == first_sequence + k
    &&& row.status == CommonStatus::Valid
    &&& row.creator@ == operator
    &&& row.modifier@ == Seq::<char>::empty()
}

/// A stored product; `brand_id` names the brand it was filed under.
#[derive(Debug)]
pub struct ProductRow {
    pub id: u64,
    pub brand_id: u64,
    pub name: String,
    pub alias: String,
    pub title: String,
    pub subtitle: String,
    pub spec: String,
    pub kind: u8,
    pub sell_price: Price,
    pub import_price: Price,
    pub sequence: i32,
    pub jd_id: String,
    pub jd_url: String,
    pub img_url: String,
    pub comment: String,
    pub status: CommonStatus,
    pub creator: String,
    pub modifier: String,
}

/// A stored entry of the hot list.
#[derive(Debug)]
pub struct HotRow {
    pub id: u64,
    pub product_id: u64,
    pub status: CommonStatus,
    pub creator: String,
    pub modifier: String,
}

pub open spec fn product_is_active(row: ProductRow) -> bool {
    row.status == CommonStatus::Valid
}

pub open spec fn hot_is_active(row: HotRow) -> bool {
    row.status == CommonStatus::Valid
}

/// Product ids count from 1, and each product is filed under a stored brand.
pub open spec fn products_wf(rows: Seq<ProductRow>, n_brands: int) -> bool {
    &&& rows.len() < u64::MAX
    &&& forall|i: int| 0 <= i < rows.len() ==> (#[trigger] rows[i]).id == i + 1 && 1 <= rows[i].brand_id <= n_brands
}

/// Hot-list entry ids count from 1.
pub open spec fn hot_wf(rows: Seq<HotRow>) -> bool {
    &&& rows.len() < u64::MAX
    &&& forall|i: int| 0 <= i < rows.len() ==> (#[trigger] rows[i]).id == i + 1
}

/// The status that a submitted product status code stands for.
pub open spec fn status_of_code(code: u8) -> CommonStatus {
    if code == 0 {
        CommonStatus::Valid
    } else {
        CommonStatus::Invalid
    }
}

/// `row` holds the fields of `p`, filed under `brand_id`.
pub open spec fn holds_product(row: ProductRow, p: NewProduct, brand_id: u64) -> bool {
    &&& row.brand_id == brand_id
    &&& row.name@ == p.name@
    &&& row.alias@ == p.alias@
    &&& row.title@ == p.title@
    &&& row.subtitle@ == p.subtitle@
    &&& row.spec@ == p.spec@
    &&& row.kind == p.kind
    &&& row.sell_price == p.sell_price
    &&& row.import_price == p.import_price
    &&& row.sequence == p.sequence
    &&& row.jd_id@ == p.jd_id@
    &&& row.jd_url@ == p.jd_url@
    &&& row.img_url@ == p.img_url@
    &&& row.comment@ == p.comment@
    &&& row.status == status_of_code(p.status)
}

/// The live brand named `name`, if there is one.
pub open spec fn active_brand_named(rows: Seq<BrandRow>, name: Seq<char>, i: int) -> bool {
    0 <= i < rows.len() && is_active(rows[i]) && rows[i].name@ == name
}

/// Why a product submission for a new row is refused, if it is.
pub open spec fn product_error(brands: Seq<BrandRow>, p: NewProduct) -> Option<CatalogError> {
    match p.validation() {
        Err(e) => Some(e),
        Ok(_) => if !name_is_active(brands, p.brand_name@) {
            Some(CatalogError::BrandNameNotFound)
        } else {
            None
        },
    }
}

/// `new` is `old` soft-deleted by `operator`: only status and modifier change.
pub open spec fn brand_retired(new: BrandRow, old: BrandRow, operator: Seq<char>) -> bool {
    &&& new.id == old.id
    &&& new.name == old.name
    &&& new.sequence == old.sequence
    &&& new.creator == old.creator
    &&& new.status == CommonStatus::Invalid
    &&& new.modifier@ == operator
}

/// `new` is `old` soft-deleted by `operator`: only status and modifier change.
pub open spec fn product_retired(new: ProductRow, old: ProductRow, operator: Seq<char>) -> bool {
    &&& new == ProductRow { status: CommonStatus::Invalid, modifier: new.modifier, ..old }
    &&& new.modifier@ == operator
}

/// The product ids of the live hot list, oldest entry first.
pub open spec fn hot_list(rows: Seq<HotRow>) -> Seq<u64>
    decreases rows.len(),
{
    if rows.len() == 0 {
        Seq::empty()
    } else if hot_is_active(rows.last()) {
        hot_list(rows.drop_last()).push(rows.last().product_id)
    } else {
        hot_list(rows.drop_last())
    }
}

proof fn lemma_hot_list_push(rows: Seq<HotRow>, row: HotRow)
    ensures
        hot_list(rows.push(row)) == if hot_is_active(row) {
            hot_list(rows).push(row.product_id)
        } else {
            hot_list(rows)
        },
{
    assert(rows.push(row).drop_last() =~= rows);
}

proof fn lemma_hot_list_retired(rows: Seq<HotRow>)
    requires
        forall|i: int| 0 <= i < rows.len() ==> !hot_is_active(#[trigger] rows[i]),
    ensures
        hot_list(rows) == Seq::<u64>::empty(),
    decreases rows.len(),
{
    if rows.len() > 0 {
        assert(!hot_is_active(rows[rows.len() - 1]));
        lemma_hot_list_retired(rows.drop_last());
    }
}

/// The sequence that a reorder request gives brand `id`; the last entry for
/// an id wins.
pub open spec fn assigned_sequence(bss: Seq<BrandSequence>, id: u64) -> Option<i32>
    decreases bss.len(),
{
    if bss.len() == 0 {
        None
    } else if bss.last().id == id {
        Some(bss.last().sequence)
    } else {
        assigned_sequence(bss.drop_last(), id)
    }
}

/// The sequence of brand row `i` once the request is applied.
pub open spec fn sequence_after(rows: Seq<BrandRow>, bss: Seq<BrandSequence>, i: int) -> i32 {
    match assigned_sequence(bss, rows[i].id) {
        Some(s) => s,
        None => rows[i].sequence,
    }
}

/// Every entry names a live brand, and no brand twice.
pub open spec fn reorder_ids_valid(rows: Seq<BrandRow>, bss: Seq<BrandSequence>) -> bool {
    &&& forall|k: int| 0 <= k < bss.len() ==> 1 <= (#[trigger] bss[k]).id <= rows.len() && is_active(rows[bss[k].id - 1])
    &&& forall|k: int, l: int| 0 <= k < l < bss.len() ==> (#[trigger] bss[k]).id != (#[trigger] bss[l]).id
}

/// Live sequences stay unique once the request is applied.
pub open spec fn reorder_keeps_unique(rows: Seq<BrandRow>, bss: Seq<BrandSequence>) -> bool {
    forall|i: int, j: int|
        0 <= i < rows.len() && 0 <= j < rows.len() && i != j && is_active(#[trigger] rows[i]) && is_active(#[trigger] rows[j])
            ==> sequence_after(rows, bss, i) != sequence_after(rows, bss, j)
}

/// Why a reorder request of more than one entry is refused, if it is.
pub open spec fn reorder_error(rows: Seq<BrandRow>, bss: Seq<BrandSequence>) -> Option<CatalogError> {
    if !reorder_ids_valid(rows, bss) {
        Some(CatalogError::BrandIdsMismatch)
    } else if !reorder_keeps_unique(rows, bss) {
        Some(CatalogError::DuplicateSequence)
    } else {
        None
    }
}

/// `new` is `row` after the request: a brand that it names takes the new
/// sequence and `operator` as modifier; any other brand is untouched.
pub open spec fn reordered_row(row: BrandRow, bss: Seq<BrandSequence>, operator: Seq<char>, new: BrandRow) -> bool {
    match assigned_sequence(bss, row.id) {
        Some(s) => new == BrandRow { sequence: s, modifier: new.modifier, ..row } && new.modifier@ == operator,
        None => new == row,
    }
}

proof fn lemma_assigned_take(bss: Seq<BrandSequence>, k: int, id: u64)
    requires
        0 <= k < bss.len(),
    ensures
        assigned_sequence(bss.take(k + 1), id) == if bss[k].id == id {
            Some(bss[k].sequence)
        } else {
            assigned_sequence(bss.take(k), id)
        },
{
    assert(bss.take(k + 1).drop_last() =~= bss.take(k));
}

/// How a live brand row is listed.
pub open spec fn brand_view(row: BrandRow) -> (u64, Seq<char>, i32, bool) {
    (row.id, row.name@, row.sequence, false)
}

/// `x` is how some live brand of `rows` is listed.
pub open spec fn lists_live_brand(rows: Seq<BrandRow>, x: (u64, Seq<char>, i32, bool)) -> bool {
    exists|j: int| 0 <= j < rows.len() && is_active(#[trigger] rows[j]) && x == brand_view(rows[j])
}

/// `x` is an entry of `list`.
pub open spec fn listed<T>(list: Seq<T>, x: T) -> bool {
    exists|i: int| 0 <= i < list.len() && #[trigger] list[i] == x
}

/// `list` holds each live brand once, in ascending sequence.
pub open spec fn is_brand_listing(rows: Seq<BrandRow>, list: Seq<(u64, Seq<char>, i32, bool)>) -> bool {
    &&& forall|i: int| 0 <= i < list.len() ==> lists_live_brand(rows, #[trigger] list[i])
    &&& forall|j: int| 0 <= j < rows.len() && is_active(#[trigger] rows[j]) ==> listed(list, brand_view(rows[j]))
    &&& forall|i: int, k: int| 0 <= i < k < list.len() ==> (#[trigger] list[i]).2 < (#[trigger] list[k]).2
}

/// What a list of brands shows.
pub open spec fn brand_views(v: Seq<Brand>) -> Seq<(u64, Seq<char>, i32, bool)> {
    v.map_values(|b: Brand| b@)
}

/// The rows of `s` from `offset`, at most `limit` of them.
pub open spec fn page<T>(s: Seq<T>, offset: int, limit: int) -> Seq<T> {
    let start = if offset < s.len() { offset } else { s.len() as int };
    let end = if offset + limit < s.len() { offset + limit } else { s.len() as int };
    s.subrange(start, end)
}

/// `item` shows product row `row`, whose brand is named `brand_name`.
pub open spec fn shows_product(item: ProductItem, row: ProductRow, brand_name: Seq<char>) -> bool {
    &&& item.id == row.id
    &&& item.brand_id == row.brand_id
    &&& item.brand_name@ == brand_name
    &&& item.name@ == row.name@
    &&& item.alias@ == row.alias@
    &&& item.title@ == row.title@
    &&& item.subtitle@ == row.subtitle@
    &&& item.spec@ == row.spec@
    &&& item.kind == row.kind
    &&& item.sell_price == row.sell_price
    &&& item.import_price == row.import_price
    &&& item.sequence == row.sequence
    &&& item.jd_id@ == row.jd_id@
    &&& item.jd_url@ == row.jd_url@
    &&& item.img_url@ == row.img_url@
    &&& item.status == row.status.spec_code()
    &&& item.comment@ == row.comment@
}

/// How a product is listed under its brand.
pub open spec fn brand_item_view(row: ProductRow) -> (u64, Seq<char>, Seq<char>, Seq<char>, Seq<char>) {
    (row.id, row.name@, row.title@, row.subtitle@, row.img_url@)
}

/// The live products filed under `brand_id`, in id order.
pub open spec fn brand_items(rows: Seq<ProductRow>, brand_id: u64) -> Seq<(u64, Seq<char>, Seq<char>, Seq<char>, Seq<char>)>
    decreases rows.len(),
{
    if rows.len() == 0 {
        Seq::empty()
    } else if product_is_active(rows.last()) && rows.last().brand_id == brand_id {
        brand_items(rows.drop_last(), brand_id).push(brand_item_view(rows.last()))
    } else {
        brand_items(rows.drop_last(), brand_id)
    }
}

/// What a list of brand items shows.
pub open spec fn brand_item_views(v: Seq<BrandItem>) -> Seq<(u64, Seq<char>, Seq<char>, Seq<char>, Seq<char>)> {
    v.map_values(|b: BrandItem| (b.id, b.name@, b.title@, b.subtitle@, b.img_url@))
}

/// The product ids of a list of hot entries.
pub open spec fn hot_ids(v: Seq<HotProduct>) -> Seq<u64> {
    v.map_values(|h: HotProduct| h.product_id)
}

proof fn lemma_brand_items_push(rows: Seq<ProductRow>, row: ProductRow, brand_id: u64)
    ensures
        brand_items(rows.push(row), brand_id) == if product_is_active(row) && row.brand_id == brand_id {
            brand_items(rows, brand_id).push(brand_item_view(row))
        } else {
            brand_items(rows, brand_id)
        },
{
    assert(rows.push(row).drop_last() =~= rows);
}

/// Keeps the page of `v` from `offset`, at most `limit` entries.
fn take_page<T>(v: Vec<T>, offset: u32, limit: u32) -> (r: Vec<T>)
    ensures
        r@ == page(v@, offset as int, limit as int),
{
    let mut v = v;
    let ghost whole = v@;
    let len = v.len();
    let start: usize = if (offset as u64) < (len as u64) {
        offset as usize
    } else {
        len
    };
    let mut rest = v.split_off(start);
    let remaining = rest.len();
    if (limit as u64) < (remaining as u64) {
        rest.truncate(limit as usize);
    }
    assert(rest@ =~= page(whole, offset as int, limit as int));
    rest
}

/// A batch in which a name repeats, or names a live brand, is refused as a
/// whole with `NameTaken` (once it is non-empty and has no empty name); the
/// refusal leaves the brands as they were (see `Catalog::create_brands`).
pub proof fn lemma_colliding_batch_rejected(rows: Seq<BrandRow>, batch: Seq<NewBrand>)
    requires
        batch.len() > 0,
        forall|i: int| 0 <= i < batch.len() ==> (#[trigger] batch[i]).name@.len() != 0,
        (exists|i: int| 0 <= i < batch.len() && name_is_active(rows, (#[trigger] batch[i]).name@))
            || (exists|i: int, j: int| 0 <= i < j < batch.len() && (#[trigger] batch[i]).name@ == (#[trigger] batch[j]).name@),
    ensures
        create_brands_error(rows, batch) == Some(CatalogError::NameTaken),
{
}

/// Once the live brand `id` is soft-deleted, a new brand may take its name:
/// a batch of that one name is accepted, unless ids or sequences have run out.
pub proof fn lemma_deleted_name_reusable(
    before: Seq<BrandRow>,
    after: Seq<BrandRow>,
    id: u64,
    operator: Seq<char>,
    batch: Seq<NewBrand>,
)
    requires
        brands_unique(before),
        brand_names_nonempty(before),
        1 <= id <= before.len(),
        is_active(before[id - 1]),
        after.len() == before.len(),
        brand_retired(after[id - 1], before[id - 1], operator),
        forall|i: int| 0 <= i < before.len() && i != id - 1 ==> #[trigger] after[i] == before[i],
        batch.len() == 1,
        batch[0].name@ == before[id - 1].name@,
        next_sequence(after) <= i32::MAX,
        after.len() + 1 < u64::MAX,
    ensures
        create_brands_error(after, batch) is None,
{
    let name = before[id - 1].name@;
    assert forall|j: int| 0 <= j < after.len() && is_active(#[trigger] after[j]) implies after[j].name@ != name by {
        assert(j != id - 1);
        assert(after[j] == before[j]);
    }
    assert(!name_is_active(after, batch[0].name@));
}

proof fn lemma_next_sequence_bounds(rows: Seq<BrandRow>)
    ensures
        next_sequence(rows) >= i32::MIN + 1,
        forall|l: int| 0 <= l < rows.len() && is_active(#[trigger] rows[l]) ==> rows[l].sequence < next_sequence(rows),
{
    assert forall|l: int| 0 <= l < rows.len() && is_active(#[trigger] rows[l]) implies rows[l].sequence < next_sequence(rows) by {
        lemma_max_active_bounds(rows, l);
    }
}

proof fn lemma_max_active_bounds(rows: Seq<BrandRow>, j: int)
    requires
        0 <= j < rows.len(),
        is_active(rows[j]),
    ensures
        max_active_sequence(rows) matches Some(m) && rows[j].sequence <= m,
    decreases rows.len(),
{
    if j < rows.len() - 1 {
        lemma_max_active_bounds(rows.drop_last(), j);
    }
}

/// The invariants of the catalog's three tables.
pub open spec fn catalog_wf(brands: Seq<BrandRow>, products: Seq<ProductRow>, hot: Seq<HotRow>) -> bool {
    &&& brand_ids_ordered(brands)
    &&& brands_unique(brands)
    &&& brand_names_nonempty(brands)
    &&& products_wf(products, brands.len() as int)
    &&& hot_wf(hot)
}

/// The catalog's rows; ids are positions counted from 1.
pub struct Catalog {
    brands: Vec<BrandRow>,
    products: Vec<ProductRow>,
    hot: Vec<HotRow>,
}

impl Catalog {
    pub closed spec fn brand_rows(&self) -> Seq<BrandRow> {
        self.brands@
    }

    pub closed spec fn product_rows(&self) -> Seq<ProductRow> {
        self.products@
    }

    pub closed spec fn hot_rows(&self) -> Seq<HotRow> {
        self.hot@
    }

    /// The invariants: ids in order, brand names non-empty, live brand names
    /// and sequences unique, every product filed under a stored brand.
    pub open spec fn wf(&self) -> bool {
        catalog_wf(self.brand_rows(), self.product_rows(), self.hot_rows())
    }

    pub fn new() -> (r: Catalog)
        ensures
            r.wf(),
            r.brand_rows().len() == 0,
            r.product_rows().len() == 0,
            r.hot_rows().len() == 0,
    {
        Catalog { brands: Vec::new(), products: Vec::new(), hot: Vec::new() }
    }

    /// Checks that no name of the batch belongs to a live brand.
    pub fn is_brand_names_valid(&self, brands: &Vec<NewBrand>) -> (r: Result<(), CatalogError>)
        ensures
            match r {
                Ok(_) => forall|k: int| 0 <= k < brands@.len() ==> !name_is_active(self.brand_rows(), (#[trigger] brands@[k]).name@),
                Err(e) => e == CatalogError::NameTaken && exists|k: int|
                    0 <= k < brands@.len() && name_is_active(self.brand_rows(), (#[trigger] brands@[k]).name@),
            },
    {
        let ghost rows = self.brands@;
        let n = brands.len();
        let m = self.brands.len();
        let mut i: usize = 0;
        while i < n
            invariant
                i <= n,
                n == brands@.len(),
                m == rows.len(),
                rows == self.brands@,
                forall|k: int| 0 <= k < i ==> !name_is_active(rows, (#[trigger] brands@[k]).name@),
            decreases n - i,
        {
            let mut j: usize = 0;
            while j < m
                invariant
                    j <= m,
                    i < n,
                    n == brands@.len(),
                    m == rows.len(),
                    rows == self.brands@,
                    forall|k: int| 0 <= k < i ==> !name_is_active(rows, (#[trigger] brands@[k]).name@),
                    forall|l: int| 0 <= l < j ==> !(is_active(#[trigger] rows[l]) && rows[l].name@ == brands@[i as int].name@),
                decreases m - j,
            {
                if self.brands[j].status == CommonStatus::Valid && self.brands[j].name == brands[i].name {
                    assert(name_is_active(rows, brands@[i as int].name@));
                    return Err(CatalogError::NameTaken);
                }
                j = j + 1;
            }
            assert(!name_is_active(rows, brands@[i as int].name@));
            i = i + 1;
        }
        Ok(())
    }

    /// The highest sequence among live brands, 0 when none is live.
    pub fn get_max_brand_sequence(&self) -> (r: i32)
        ensures
            r == match max_active_sequence(self.brand_rows()) {
                Some(m) => m,
                None => 0,
            },
    {
        let ghost rows = self.brands@;
        let m = self.brands.len();
        let mut max: Option<i32> = None;
        let mut j: usize = 0;
        while j < m
            invariant
                j <= m,
                m == rows.len(),
                rows == self.brands@,
                max == max_active_sequence(rows.take(j as int)),
            decreases m - j,
        {
            proof {
                assert(rows.take(j + 1).drop_last() =~= rows.take(j as int));
            }
            if self.brands[j].status == CommonStatus::Valid {
                match max {
                    Some(x) => if x < self.brands[j].sequence {
                        max = Some(self.brands[j].sequence);
                    },
                    None => {
                        max = Some(self.brands[j].sequence);
                    },
                }
            }
            j = j + 1;
        }
        assert(rows.take(m as int) =~= rows);
        match max {
            Some(x) => x,
            None => 0,
        }
    }

    /// Checks a batch of new brands against the live ones; on success, the
    /// sequence of its first brand.
    fn plan_brands(&self, brands: &Vec<NewBrand>) -> (r: Result<i128, CatalogError>)
        requires
            self.wf(),
        ensures
            match create_brands_error(self.brand_rows(), brands@) {
                Some(e) => r == Err::<i128, CatalogError>(e),
                None => r == Ok::<i128, CatalogError>(next_sequence(self.brand_rows()) as i128),
            },
    {
        let ghost rows = self.brands@;
        let n = brands.len();
        if n == 0 {
            return Err(CatalogError::EmptyBatch);
        }
        let mut i: usize = 0;
        while i < n
            invariant
                i <= n,
                n == brands@.len(),
                rows == self.brands@,
                forall|k: int| 0 <= k < i ==> (#[trigger] brands@[k]).name@.len() != 0,
            decreases n - i,
        {
            if brands[i].validate().is_err() {
                return Err(CatalogError::EmptyName);
            }
            i = i + 1;
        }
        match self.is_brand_names_valid(brands) {
            Err(e) => return Err(e),
            Ok(_) => {},
        }
        let m = self.brands.len();
        i = 0;
        while i < n
            invariant
                i <= n,
                n == brands@.len(),
                m == rows.len(),
                rows == self.brands@,
                forall|k: int| 0 <= k < n ==> (#[trigger] brands@[k]).name@.len() != 0,
                forall|k: int| 0 <= k < n ==> !name_is_active(rows, (#[trigger] brands@[k]).name@),
                forall|a: int, b: int| 0 <= a < b < n && a < i ==> (#[trigger] brands@[a]).name@ != (#[trigger] brands@[b]).name@,
            decreases n - i,
        {
            let mut j: usize = i + 1;
            while j < n
                invariant
                    i < j <= n,
                    n == brands@.len(),
                    m == rows.len(),
                    rows == self.brands@,
                    forall|k: int| 0 <= k < n ==> (#[trigger] brands@[k]).name@.len() != 0,
                    forall|k: int| 0 <= k < n ==> !name_is_active(rows, (#[trigger] brands@[k]).name@),
                    forall|a: int, b: int| 0 <= a < b < n && a < i ==> (#[trigger] brands@[a]).name@ != (#[trigger] brands@[b]).name@,
                    forall|b: int| i < b < j ==> brands@[i as int].name@ != (#[trigger] brands@[b]).name@,
                decreases n - j,
            {
                if brands[i].name == brands[j].name {
                    assert(brands@[i as int].name@ == brands@[j as int].name@);
                    return Err(CatalogError::NameTaken);
                }
                j = j + 1;
            }
            i = i + 1;
        }
        let first: i128 = self.get_max_brand_sequence() as i128 + 1;
        assert(first == next_sequence(rows));
        if first + n as i128 - 1 > i32::MAX as i128 || n as u128 + m as u128 >= u64::MAX as u128 {
            return Err(CatalogError::NumbersExhausted);
        }
        Ok(first)
    }

    /// Whether a live brand has sequence `sequence`.
    fn sequence_in_use(&self, sequence: i32) -> (r: bool)
        ensures
            r == sequence_is_active(self.brand_rows(), sequence),
    {
        let ghost rows = self.brands@;
        let m = self.brands.len();
        let mut j: usize = 0;
        while j < m
            invariant
                j <= m,
                m == rows.len(),
                rows == self.brands@,
                forall|l: int| 0 <= l < j ==> !(is_active(#[trigger] rows[l]) && rows[l].sequence == sequence),
            decreases m - j,
        {
            if self.brands[j].status == CommonStatus::Valid && self.brands[j].sequence == sequence {
                return true;
            }
            j = j + 1;
        }
        false
    }

    /// Creates one brand at the sequence it names; the name and the sequence
    /// must both be free among live brands. Returns the new id.
    pub fn create_brand(&mut self, brand: Brand, operator: &str) -> (r: Result<u64, CatalogError>)
        requires
            old(self).wf(),
        ensures
            final(self).wf(),
            final(self).product_rows() == old(self).product_rows(),
            final(self).hot_rows() == old(self).hot_rows(),
            match create_brand_error(old(self).brand_rows(), brand.name@, brand.sequence) {
                Some(e) => r == Err::<u64, CatalogError>(e) && final(self).brand_rows() == old(self).brand_rows(),
                None => {
                    let row = final(self).brand_rows().last();
                    &&& r == Ok::<u64, CatalogError>(row.id)
                    &&& final(self).brand_rows() == old(self).brand_rows().push(row)
                    &&& is_new_brand_row(row, old(self).brand_rows().len() as int, brand.sequence as int, 0, brand.name@, operator@)
                },
            },
    {
        let ghost rows = self.brands@;
        if brand.name.as_str().is_empty() {
            return Err(CatalogError::EmptyName);
        }
        if self.find_active_brand(&brand.name).is_some() {
            return Err(CatalogError::NameTaken);
        }
        if self.sequence_in_use(brand.sequence) {
            return Err(CatalogError::DuplicateSequence);
        }
        let m = self.brands.len();
        if m as u64 >= u64::MAX - 1 {
            return Err(CatalogError::NumbersExhausted);
        }
        let id = m as u64 + 1;
        let row = BrandRow {
            id,
            name: brand.name,
            sequence: brand.sequence,
            status: CommonStatus::Valid,
            creator: operator.to_owned(),
            modifier: String::new(),
        };
        self.brands.push(row);
        proof {
            let s = self.brands@;
            assert(s.drop_last() =~= rows);
            assert forall|x: int, y: int|
                0 <= x < s.len() && 0 <= y < s.len() && x != y && is_active(#[trigger] s[x]) && is_active(#[trigger] s[y])
                implies s[x].name@ != s[y].name@ && s[x].sequence != s[y].sequence by {
                if x == m || y == m {
                    let o = if x == m { y } else { x };
                    assert(s[o] == rows[o]);
                }
            }
        }
        Ok(id)
    }

    /// Creates a batch of brands, all or none. The batch gets consecutive
    /// sequences, in submission order, after the highest live one.
    pub fn create_brands(&mut self, brands: &Vec<NewBrand>, operator: &str) -> (r: Result<(), CatalogError>)
        requires
            old(self).wf(),
        ensures
            final(self).wf(),
            final(self).product_rows() == old(self).product_rows(),
            final(self).hot_rows() == old(self).hot_rows(),
            match create_brands_error(old(self).brand_rows(), brands@) {
                Some(e) => r == Err::<(), CatalogError>(e) && final(self).brand_rows() == old(self).brand_rows(),
                None => r is Ok && final(self).brand_rows().len() == old(self).brand_rows().len() + brands@.len()
                    && (forall|i: int| 0 <= i < old(self).brand_rows().len() ==> #[trigger] final(self).brand_rows()[i] == old(self).brand_rows()[i])
                    && (forall|k: int| 0 <= k < brands@.len() ==> is_new_brand_row(
                        #[trigger] final(self).brand_rows()[old(self).brand_rows().len() + k],
                        old(self).brand_rows().len() as int,
                        next_sequence(old(self).brand_rows()),
                        k,
                        brands@[k].name@,
                        operator@,
                    )),
            },
    {
        let ghost rows = self.brands@;
        let first = match self.plan_brands(brands) {
            Ok(f) => f,
            Err(e) => return Err(e),
        };
        let n = brands.len();
        let m = self.brands.len();
        proof {
            lemma_next_sequence_bounds(rows);
        }
        let mut i: usize = 0;
        while i < n
            invariant
                i <= n,
                n == brands@.len(),
                m == rows.len(),
                rows == old(self).brands@,
                self.products@ == old(self).products@,
                self.hot@ == old(self).hot@,
                products_wf(self.products@, rows.len() as int),
                hot_wf(self.hot@),
                first == next_sequence(rows),
                first + n - 1 <= i32::MAX,
                first >= i32::MIN + 1,
                forall|l: int| 0 <= l < rows.len() && is_active(rows[l]) ==> rows[l].sequence < first,
                m + n < u64::MAX,
                self.brands@.len() == m + i,
                forall|l: int| 0 <= l < m ==> #[trigger] self.brands@[l] == rows[l],
                forall|k: int| 0 <= k < i ==> is_new_brand_row(#[trigger] self.brands@[m + k], m as int, first as int, k, brands@[k].name@, operator@),
                forall|k: int| 0 <= k < n ==> !name_is_active(rows, (#[trigger] brands@[k]).name@),
                forall|k: int| 0 <= k < n ==> (#[trigger] brands@[k]).name@.len() != 0,
                forall|a: int, b: int| 0 <= a < b < n ==> (#[trigger] brands@[a]).name@ != (#[trigger] brands@[b]).name@,
                brand_ids_ordered(rows),
                brands_unique(rows),
                brand_names_nonempty(rows),
                brand_ids_ordered(self.brands@),
                brands_unique(self.brands@),
                brand_names_nonempty(self.brands@),
            decreases n - i,
        {
            let row = BrandRow {
                id: self.brands.len() as u64 + 1,
                name: brands[i].name.clone(),
                sequence: (first + i as i128) as i32,
                status: CommonStatus::Valid,
                creator: operator.to_owned(),
                modifier: String::new(),
            };
            let ghost before = self.brands@;
            self.brands.push(row);
            proof {
                let s = self.brands@;
                assert(s =~= before.push(row));
                assert forall|x: int, y: int|
                    0 <= x < s.len() && 0 <= y < s.len() && x != y && is_active(#[trigger] s[x]) && is_active(#[trigger] s[y])
                    implies s[x].name@ != s[y].name@ && s[x].sequence != s[y].sequence by {
                    if x == s.len() - 1 || y == s.len() - 1 {
                        let o = if x == s.len() - 1 { y } else { x };
                        if o < m {
                            assert(s[o] == rows[o]);
                            assert(!name_is_active(rows, brands@[i as int].name@));
                        } else {
                            assert(is_new_brand_row(s[o], m as int, first as int, o - m, brands@[o - m].name@, operator@));
                        }
                    } else {
                        assert(s[x] == before[x] && s[y] == before[y]);
                    }
                }
            }
            i = i + 1;
        }
        Ok(())
    }
    /// Checks that every entry of a reorder request names a live brand, and
    /// no brand twice.
    pub fn is_brand_ids_valid(&self, bss: &Vec<BrandSequence>) -> (r: Result<(), CatalogError>)
        ensures
            match r {
                Ok(_) => reorder_ids_valid(self.brand_rows(), bss@),
                Err(e) => e == CatalogError::BrandIdsMismatch && !reorder_ids_valid(self.brand_rows(), bss@),
            },
    {
        let n = bss.len();
        let ghost rows = self.brands@;
        let m = self.brands.len();
        let mut k: usize = 0;
        while k < n
            invariant
                k <= n,
                n == bss@.len(),
                m == rows.len(),
                rows == self.brands@,
                forall|x: int| 0 <= x < k ==> 1 <= (#[trigger] bss@[x]).id <= rows.len() && is_active(rows[bss@[x].id - 1]),
            decreases n - k,
        {
            let id = bss[k].id;
            if id == 0 || id > m as u64 || self.brands[(id - 1) as usize].status != CommonStatus::Valid {
                assert(!reorder_ids_valid(rows, bss@));
                return Err(CatalogError::BrandIdsMismatch);
            }
            k = k + 1;
        }
        k = 0;
        while k < n
            invariant
                k <= n,
                n == bss@.len(),
                forall|x: int| 0 <= x < bss@.len() ==> 1 <= (#[trigger] bss@[x]).id <= rows.len() && is_active(rows[bss@[x].id - 1]),
                forall|x: int, y: int| 0 <= x < y < n && x < k ==> (#[trigger] bss@[x]).id != (#[trigger] bss@[y]).id,
            decreases n - k,
        {
            let mut l: usize = k + 1;
            while l < n
                invariant
                    k < l <= n,
                    n == bss@.len(),
                    forall|x: int| 0 <= x < bss@.len() ==> 1 <= (#[trigger] bss@[x]).id <= rows.len() && is_active(rows[bss@[x].id - 1]),
                    forall|x: int, y: int| 0 <= x < y < n && x < k ==> (#[trigger] bss@[x]).id != (#[trigger] bss@[y]).id,
                    forall|y: int| k < y < l ==> bss@[k as int].id != (#[trigger] bss@[y]).id,
                decreases n - l,
            {
                if bss[k].id == bss[l].id {
                    assert(bss@[k as int].id == bss@[l as int].id);
                    assert(!reorder_ids_valid(rows, bss@));
                    return Err(CatalogError::BrandIdsMismatch);
                }
                l = l + 1;
            }
            k = k + 1;
        }
        assert(reorder_ids_valid(rows, bss@));
        Ok(())
    }

    /// Checks a reorder request against the live brands.
    fn check_reorder(&self, bss: &Vec<BrandSequence>) -> (r: Result<(), CatalogError>)
        requires
            self.wf(),
        ensures
            match reorder_error(self.brand_rows(), bss@) {
                Some(e) => r == Err::<(), CatalogError>(e),
                None => r is Ok,
            },
    {
        let n = bss.len();
        let ghost rows = self.brands@;
        let m = self.brands.len();
        match self.is_brand_ids_valid(bss) {
            Err(e) => return Err(e),
            Ok(_) => {},
        }
        assert(reorder_ids_valid(rows, bss@));
        let mut seqs: Vec<i32> = Vec::new();
        let mut i: usize = 0;
        while i < m
            invariant
                i <= m,
                m == rows.len(),
                rows == self.brands@,
                seqs@.len() == i,
                forall|x: int| 0 <= x < i ==> #[trigger] seqs@[x] == rows[x].sequence,
            decreases m - i,
        {
            seqs.push(self.brands[i].sequence);
            i = i + 1;
        }
        assert(bss@.take(0) =~= Seq::<BrandSequence>::empty());
        let mut k: usize = 0;
        while k < n
            invariant
                k <= n,
                n == bss@.len(),
                m == rows.len(),
                seqs@.len() == m,
                brand_ids_ordered(rows),
                forall|x: int| 0 <= x < bss@.len() ==> 1 <= (#[trigger] bss@[x]).id <= rows.len() && is_active(rows[bss@[x].id - 1]),
                forall|x: int| 0 <= x < m ==> #[trigger] seqs@[x] == sequence_after(rows, bss@.take(k as int), x),
            decreases n - k,
        {
            let id = bss[k].id;
            seqs.set((id - 1) as usize, bss[k].sequence);
            proof {
                assert forall|x: int| 0 <= x < m implies #[trigger] seqs@[x] == sequence_after(rows, bss@.take(k + 1), x) by {
                    lemma_assigned_take(bss@, k as int, rows[x].id);
                }
            }
            k = k + 1;
        }
        assert(bss@.take(n as int) =~= bss@);
        i = 0;
        while i < m
            invariant
                i <= m,
                m == rows.len(),
                rows == self.brands@,
                seqs@.len() == m,
                forall|x: int| 0 <= x < m ==> #[trigger] seqs@[x] == sequence_after(rows, bss@, x),
                reorder_ids_valid(rows, bss@),
                forall|x: int, y: int| 0 <= x < y < m && x < i && is_active(#[trigger] rows[x]) && is_active(#[trigger] rows[y])
                    ==> sequence_after(rows, bss@, x) != sequence_after(rows, bss@, y),
            decreases m - i,
        {
            let mut j: usize = i + 1;
            while j < m
                invariant
                    i < j <= m,
                    m == rows.len(),
                    rows == self.brands@,
                    seqs@.len() == m,
                    forall|x: int| 0 <= x < m ==> #[trigger] seqs@[x] == sequence_after(rows, bss@, x),
                    reorder_ids_valid(rows, bss@),
                    forall|x: int, y: int| 0 <= x < y < m && x < i && is_active(#[trigger] rows[x]) && is_active(#[trigger] rows[y])
                        ==> sequence_after(rows, bss@, x) != sequence_after(rows, bss@, y),
                    forall|y: int| i < y < j && is_active(rows[i as int]) && is_active(#[trigger] rows[y])
                        ==> sequence_after(rows, bss@, i as int) != sequence_after(rows, bss@, y),
                decreases m - j,
            {
                if self.brands[i].status == CommonStatus::Valid && self.brands[j].status == CommonStatus::Valid
                    && seqs[i] == seqs[j] {
                    assert(is_active(rows[i as int]) && is_active(rows[j as int]));
                    assert(sequence_after(rows, bss@, i as int) == sequence_after(rows, bss@, j as int));
                    assert(!reorder_keeps_unique(rows, bss@));
                    return Err(CatalogError::DuplicateSequence);
                }
                j = j + 1;
            }
            i = i + 1;
        }
        assert forall|x: int, y: int|
            0 <= x < rows.len() && 0 <= y < rows.len() && x != y && is_active(#[trigger] rows[x]) && is_active(#[trigger] rows[y])
            implies sequence_after(rows, bss@, x) != sequence_after(rows, bss@, y) by {
            if y < x {
                assert(is_active(rows[y]) && is_active(rows[x]));
            }
        }
        Ok(())
    }

    /// Gives brands new display sequences. A single entry is a no-op, as
    /// reordering one brand means nothing; otherwise the whole request is
    /// checked before any sequence changes.
    pub fn update_brands_sequence(&mut self, bss: &Vec<BrandSequence>, operator: &str) -> (r: Result<(), CatalogError>)
        requires
            old(self).wf(),
        ensures
            final(self).wf(),
            final(self).product_rows() == old(self).product_rows(),
            final(self).hot_rows() == old(self).hot_rows(),
            bss@.len() == 1 ==> r is Ok && final(self).brand_rows() == old(self).brand_rows(),
            bss@.len() != 1 ==> match reorder_error(old(self).brand_rows(), bss@) {
                Some(e) => r == Err::<(), CatalogError>(e) && final(self).brand_rows() == old(self).brand_rows(),
                None => r is Ok && final(self).brand_rows().len() == old(self).brand_rows().len() && forall|i: int|
                    0 <= i < old(self).brand_rows().len() ==> reordered_row(
                        old(self).brand_rows()[i],
                        bss@,
                        operator@,
                        #[trigger] final(self).brand_rows()[i],
                    ),
            },
    {
        let n = bss.len();
        if n == 1 {
            return Ok(());
        }
        let ghost rows = self.brands@;
        let m = self.brands.len();
        match self.check_reorder(bss) {
            Err(e) => return Err(e),
            Ok(_) => {},
        }
        let mut k: usize = 0;
        while k < n
            invariant
                k <= n,
                n == bss@.len(),
                m == rows.len(),
                self.brands@.len() == m,
                rows == old(self).brands@,
                self.products@ == old(self).products@,
                self.hot@ == old(self).hot@,
                brand_ids_ordered(rows),
                brands_unique(rows),
                brand_names_nonempty(rows),
                reorder_keeps_unique(rows, bss@),
                products_wf(self.products@, m as int),
                hot_wf(self.hot@),
                reorder_ids_valid(rows, bss@),
                forall|x: int| 0 <= x < m ==> reordered_row(rows[x], bss@.take(k as int), operator@, #[trigger] self.brands@[x]),
            decreases n - k,
        {
            let idx = (bss[k].id - 1) as usize;
            self.brands[idx].sequence = bss[k].sequence;
            self.brands[idx].modifier = operator.to_owned();
            proof {
                assert forall|x: int| 0 <= x < m implies reordered_row(rows[x], bss@.take(k + 1), operator@, #[trigger] self.brands@[x]) by {
                    lemma_assigned_take(bss@, k as int, rows[x].id);
                    if x != idx {
                        assert(rows[x].id != bss@[k as int].id);
                    }
                }
            }
            k = k + 1;
        }
        assert(bss@.take(n as int) =~= bss@);
        proof {
            let s = self.brands@;
            assert forall|x: int, y: int|
                0 <= x < s.len() && 0 <= y < s.len() && x != y && is_active(#[trigger] s[x]) && is_active(#[trigger] s[y])
                implies s[x].name@ != s[y].name@ && s[x].sequence != s[y].sequence by {
                assert(reordered_row(rows[x], bss@, operator@, s[x]));
                assert(reordered_row(rows[y], bss@, operator@, s[y]));
                assert(is_active(rows[x]) && is_active(rows[y]));
            }
        }
        Ok(())
    }

    /// Position of the live brand named `name`, if there is one.
    fn find_active_brand(&self, name: &String) -> (r: Option<usize>)
        ensures
            match r {
                Some(i) => active_brand_named(self.brands@, name@, i as int),
                None => !name_is_active(self.brands@, name@),
            },
    {
        let mut j: usize = 0;
        while j < self.brands.len()
            invariant
                j <= self.brands@.len(),
                forall|l: int| 0 <= l < j ==> !(is_active(#[trigger] self.brands@[l]) && self.brands@[l].name@ == name@),
            decreases self.brands@.len() - j,
        {
            if self.brands[j].status == CommonStatus::Valid && self.brands[j].name == *name {
                return Some(j);
            }
            j = j + 1;
        }
        None
    }

    /// Soft-deletes the live brand `id`; its name and sequence are free again.
    pub fn delete_brand(&mut self, id: u64, operator: &str) -> (r: Result<(), CatalogError>)
        requires
            old(self).wf(),
        ensures
            final(self).wf(),
            final(self).product_rows() == old(self).product_rows(),
            final(self).hot_rows() == old(self).hot_rows(),
            if 1 <= id <= old(self).brand_rows().len() && is_active(old(self).brand_rows()[id - 1]) {
                &&& r is Ok
                &&& final(self).brand_rows().len() == old(self).brand_rows().len()
                &&& brand_retired(final(self).brand_rows()[id - 1], old(self).brand_rows()[id - 1], operator@)
                &&& forall|i: int| 0 <= i < old(self).brand_rows().len() && i != id - 1
                    ==> #[trigger] final(self).brand_rows()[i] == old(self).brand_rows()[i]
            } else {
                &&& r == Err::<(), CatalogError>(CatalogError::BrandNotFound)
                &&& final(self).brand_rows() == old(self).brand_rows()
            },
    {
        if id == 0 || id > self.brands.len() as u64 {
            return Err(CatalogError::BrandNotFound);
        }
        let i = (id - 1) as usize;
        if self.brands[i].status != CommonStatus::Valid {
            return Err(CatalogError::BrandNotFound);
        }
        let ghost before = self.brands@;
        self.brands[i].status = CommonStatus::Invalid;
        self.brands[i].modifier = operator.to_owned();
        proof {
            let s = self.brands@;
            assert forall|x: int, y: int|
                0 <= x < s.len() && 0 <= y < s.len() && x != y && is_active(#[trigger] s[x]) && is_active(#[trigger] s[y])
                implies s[x].name@ != s[y].name@ && s[x].sequence != s[y].sequence by {
                assert(s[x] == before[x] && s[y] == before[y]);
            }
        }
        Ok(())
    }

    /// Files a new product under the live brand that it names; returns its id.
    pub fn create_product(&mut self, product: NewProduct, operator: &str) -> (r: Result<u64, CatalogError>)
        requires
            old(self).wf(),
        ensures
            final(self).wf(),
            final(self).brand_rows() == old(self).brand_rows(),
            final(self).hot_rows() == old(self).hot_rows(),
            match product_error(old(self).brand_rows(), product) {
                Some(e) => r == Err::<u64, CatalogError>(e) && final(self).product_rows() == old(self).product_rows(),
                None => if old(self).product_rows().len() + 1 >= u64::MAX {
                    r == Err::<u64, CatalogError>(CatalogError::NumbersExhausted)
                        && final(self).product_rows() == old(self).product_rows()
                } else {
                    let row = final(self).product_rows().last();
                    &&& r == Ok::<u64, CatalogError>(row.id)
                    &&& final(self).product_rows() == old(self).product_rows().push(row)
                    &&& row.id == old(self).product_rows().len() + 1
                    &&& holds_product(row, product, row.brand_id)
                    &&& active_brand_named(old(self).brand_rows(), product.brand_name@, row.brand_id - 1)
                    &&& row.creator@ == operator@
                    &&& row.modifier@ == Seq::<char>::empty()
                },
            },
    {
        match product.validate() {
            Err(e) => return Err(e),
            Ok(_) => {},
        }
        let b = match self.find_active_brand(&product.brand_name) {
            Some(b) => b,
            None => return Err(CatalogError::BrandNameNotFound),
        };
        if self.products.len() as u64 >= u64::MAX - 1 {
            return Err(CatalogError::NumbersExhausted);
        }
        let id = self.products.len() as u64 + 1;
        let row = ProductRow {
            id,
            brand_id: self.brands[b].id,
            name: product.name,
            alias: product.alias,
            title: product.title,
            subtitle: product.subtitle,
            spec: product.spec,
            kind: product.kind,
            sell_price: product.sell_price,
            import_price: product.import_price,
            sequence: product.sequence,
            jd_id: product.jd_id,
            jd_url: product.jd_url,
            img_url: product.img_url,
            comment: product.comment,
            status: if product.status == 0 {
                CommonStatus::Valid
            } else {
                CommonStatus::Invalid
            },
            creator: operator.to_owned(),
            modifier: String::new(),
        };
        let ghost before = self.products@;
        self.products.push(row);
        assert(self.products@.drop_last() =~= before);
        Ok(id)
    }

    /// Replaces the live product `id` with the submitted fields.
    pub fn update_product(&mut self, id: u64, product: NewProduct, operator: &str) -> (r: Result<(), CatalogError>)
        requires
            old(self).wf(),
        ensures
            final(self).wf(),
            final(self).brand_rows() == old(self).brand_rows(),
            final(self).hot_rows() == old(self).hot_rows(),
            !(1 <= id <= old(self).product_rows().len() && product_is_active(old(self).product_rows()[id - 1]))
                ==> r == Err::<(), CatalogError>(CatalogError::ProductNotFound)
                    && final(self).product_rows() == old(self).product_rows(),
            (1 <= id <= old(self).product_rows().len() && product_is_active(old(self).product_rows()[id - 1]))
                ==> match product_error(old(self).brand_rows(), product) {
                Some(e) => r == Err::<(), CatalogError>(e) && final(self).product_rows() == old(self).product_rows(),
                None => {
                    let row = final(self).product_rows()[id - 1];
                    &&& r is Ok
                    &&& final(self).product_rows() == old(self).product_rows().update(id - 1, row)
                    &&& row.id == id
                    &&& holds_product(row, product, row.brand_id)
                    &&& active_brand_named(old(self).brand_rows(), product.brand_name@, row.brand_id - 1)
                    &&& row.creator@ == old(self).product_rows()[id - 1].creator@
                    &&& row.modifier@ == operator@
                },
            },
    {
        if id == 0 || id > self.products.len() as u64 {
            return Err(CatalogError::ProductNotFound);
        }
        let i = (id - 1) as usize;
        if self.products[i].status != CommonStatus::Valid {
            return Err(CatalogError::ProductNotFound);
        }
        match product.validate() {
            Err(e) => return Err(e),
            Ok(_) => {},
        }
        let b = match self.find_active_brand(&product.brand_name) {
            Some(b) => b,
            None => return Err(CatalogError::BrandNameNotFound),
        };
        let row = ProductRow {
            id,
            brand_id: self.brands[b].id,
            name: product.name,
            alias: product.alias,
            title: product.title,
            subtitle: product.subtitle,
            spec: product.spec,
            kind: product.kind,
            sell_price: product.sell_price,
            import_price: product.import_price,
            sequence: product.sequence,
            jd_id: product.jd_id,
            jd_url: product.jd_url,
            img_url: product.img_url,
            comment: product.comment,
            status: if product.status == 0 {
                CommonStatus::Valid
            } else {
                CommonStatus::Invalid
            },
            creator: self.products[i].creator.clone(),
            modifier: operator.to_owned(),
        };
        self.products.set(i, row);
        Ok(())
    }

    /// Soft-deletes the live product `id`.
    pub fn delete_product(&mut self, id: u64, operator: &str) -> (r: Result<(), CatalogError>)
        requires
            old(self).wf(),
        ensures
            final(self).wf(),
            final(self).brand_rows() == old(self).brand_rows(),
            final(self).hot_rows() == old(self).hot_rows(),
            if 1 <= id <= old(self).product_rows().len() && product_is_active(old(self).product_rows()[id - 1]) {
                &&& r is Ok
                &&& final(self).product_rows().len() == old(self).product_rows().len()
                &&& product_retired(final(self).product_rows()[id - 1], old(self).product_rows()[id - 1], operator@)
                &&& forall|i: int| 0 <= i < old(self).product_rows().len() && i != id - 1
                    ==> #[trigger] final(self).product_rows()[i] == old(self).product_rows()[i]
            } else {
                &&& r == Err::<(), CatalogError>(CatalogError::ProductNotFound)
                &&& final(self).product_rows() == old(self).product_rows()
            },
    {
        if id == 0 || id > self.products.len() as u64 {
            return Err(CatalogError::ProductNotFound);
        }
        let i = (id - 1) as usize;
        if self.products[i].status != CommonStatus::Valid {
            return Err(CatalogError::ProductNotFound);
        }
        self.products[i].status = CommonStatus::Invalid;
        self.products[i].modifier = operator.to_owned();
        Ok(())
    }

    /// Replaces the hot list with `ids`, in that order: every live entry is
    /// retired first, then one entry per id is added.
    pub fn add_hot_product(&mut self, ids: &Vec<u64>, operator: &str) -> (r: Result<(), CatalogError>)
        requires
            old(self).wf(),
        ensures
            final(self).wf(),
            final(self).brand_rows() == old(self).brand_rows(),
            final(self).product_rows() == old(self).product_rows(),
            old(self).hot_rows().len() + ids@.len() >= u64::MAX ==> r == Err::<(), CatalogError>(
                CatalogError::NumbersExhausted,
            ) && final(self).hot_rows() == old(self).hot_rows(),
            old(self).hot_rows().len() + ids@.len() < u64::MAX ==> r is Ok && hot_list(final(self).hot_rows()) == ids@
                && final(self).hot_rows().len() == old(self).hot_rows().len() + ids@.len()
                && (forall|i: int| 0 <= i < old(self).hot_rows().len() ==> !hot_is_active(#[trigger] final(self).hot_rows()[i])
                    && final(self).hot_rows()[i].product_id == old(self).hot_rows()[i].product_id),
    {
        let n = ids.len();
        let m = self.hot.len();
        if n as u128 + m as u128 >= u64::MAX as u128 {
            return Err(CatalogError::NumbersExhausted);
        }
        let mut i: usize = 0;
        while i < m
            invariant
                i <= m,
                m == self.hot@.len(),
                m + n < u64::MAX,
                hot_wf(self.hot@),
                self.brands@ == old(self).brands@,
                self.products@ == old(self).products@,
                brand_ids_ordered(self.brands@),
                brands_unique(self.brands@),
                brand_names_nonempty(self.brands@),
                products_wf(self.products@, self.brands@.len() as int),
                forall|l: int| 0 <= l < i ==> !hot_is_active(#[trigger] self.hot@[l]),
                m == old(self).hot@.len(),
                forall|l: int| 0 <= l < m ==> (#[trigger] self.hot@[l]).product_id == old(self).hot@[l].product_id,
            decreases m - i,
        {
            if self.hot[i].status == CommonStatus::Valid {
                self.hot[i].status = CommonStatus::Invalid;
                self.hot[i].modifier = operator.to_owned();
            }
            i = i + 1;
        }
        proof {
            lemma_hot_list_retired(self.hot@);
        }
        let mut k: usize = 0;
        while k < n
            invariant
                k <= n,
                n == ids@.len(),
                m + n < u64::MAX,
                self.hot@.len() == m + k,
                hot_wf(self.hot@),
                hot_list(self.hot@) == ids@.take(k as int),
                m == old(self).hot@.len(),
                forall|l: int| 0 <= l < m ==> !hot_is_active(#[trigger] self.hot@[l])
                    && self.hot@[l].product_id == old(self).hot@[l].product_id,
                self.brands@ == old(self).brands@,
                self.products@ == old(self).products@,
                brand_ids_ordered(self.brands@),
                brands_unique(self.brands@),
                brand_names_nonempty(self.brands@),
                products_wf(self.products@, self.brands@.len() as int),
            decreases n - k,
        {
            let row = HotRow {
                id: self.hot.len() as u64 + 1,
                product_id: ids[k],
                status: CommonStatus::Valid,
                creator: operator.to_owned(),
                modifier: String::new(),
            };
            proof {
                lemma_hot_list_push(self.hot@, row);
                assert(ids@.take(k + 1) =~= ids@.take(k as int).push(ids@[k as int]));
            }
            self.hot.push(row);
            k = k + 1;
        }
        assert(ids@.take(n as int) =~= ids@);
        Ok(())
    }
    /// The live brand named `brand_name`.
    pub fn get_brand_id(&self, brand_name: &String) -> (r: Result<u64, CatalogError>)
        requires
            self.wf(),
        ensures
            match r {
                Ok(id) => active_brand_named(self.brand_rows(), brand_name@, id - 1),
                Err(e) => e == CatalogError::BrandNameNotFound && !name_is_active(self.brand_rows(), brand_name@),
            },
    {
        match self.find_active_brand(brand_name) {
            Some(i) => Ok(self.brands[i].id),
            None => Err(CatalogError::BrandNameNotFound),
        }
    }

    /// Every live brand, in ascending sequence.
    pub fn get_all_brands(&self) -> (r: Vec<Brand>)
        requires
            self.wf(),
        ensures
            is_brand_listing(self.brand_rows(), brand_views(r@)),
    {
        let ghost rows = self.brands@;
        let mut out: Vec<Brand> = Vec::new();
        let ghost mut src: Seq<int> = Seq::empty();
        let m = self.brands.len();
        let mut j: usize = 0;
        while j < m
            invariant
                j <= m,
                m == rows.len(),
                rows == self.brands@,
                brands_unique(rows),
                brand_names_nonempty(rows),
                src.len() == out@.len(),
                forall|i: int| 0 <= i < src.len() ==> 0 <= #[trigger] src[i] < j && is_active(rows[src[i]]) && out@[i]@ == brand_view(rows[src[i]]),
                forall|l: int| 0 <= l < j && is_active(#[trigger] rows[l]) ==> exists|i: int| 0 <= i < src.len() && src[i] == l,
                forall|i: int, k: int| 0 <= i < k < out@.len() ==> (#[trigger] out@[i]).sequence < (#[trigger] out@[k]).sequence,
            decreases m - j,
        {
            if self.brands[j].status == CommonStatus::Valid {
                let s = self.brands[j].sequence;
                let mut p: usize = 0;
                while p < out.len() && out[p].sequence < s
                    invariant
                        p <= out@.len(),
                        forall|i: int| 0 <= i < p ==> (#[trigger] out@[i]).sequence < s,
                    decreases out@.len() - p,
                {
                    p = p + 1;
                }
                let b = Brand { id: self.brands[j].id, name: self.brands[j].name.clone(), sequence: s, is_hot: false };
                proof {
                    if p < out@.len() {
                        let q = src[p as int];
                        assert(q != j);
                        assert(out@[p as int].sequence != s);
                    }
                }
                let ghost old_out = out@;
                let ghost old_src = src;
                out.insert(p, b);
                proof {
                    src = src.insert(p as int, j as int);
                    old_out.insert_ensures(p as int, b);
                    old_src.insert_ensures(p as int, j as int);
                    assert forall|l: int| 0 <= l < j + 1 && is_active(#[trigger] rows[l]) implies exists|i: int| 0 <= i < src.len() && src[i] == l by {
                        if l == j {
                            assert(src[p as int] == l);
                        } else {
                            let i0 = choose|i: int| 0 <= i < old_src.len() && old_src[i] == l;
                            if i0 < p {
                                assert(src[i0] == l);
                            } else {
                                assert(src[i0 + 1] == l);
                            }
                        }
                    }
                    assert forall|i: int, k: int| 0 <= i < k < out@.len() implies (#[trigger] out@[i]).sequence < (#[trigger] out@[k]).sequence by {
                        if k < p {
                        } else if k == p {
                        } else if i < p {
                            assert(old_out[i].sequence < s);
                        } else if i == p {
                            assert(old_out[p as int].sequence >= s);
                            if p + 1 < k {
                                assert(old_out[p as int].sequence < old_out[k - 1].sequence);
                            }
                        } else {
                            assert(old_out[i - 1].sequence < old_out[k - 1].sequence);
                        }
                    }
                }
            } else {
                proof {
                    assert forall|l: int| 0 <= l < j + 1 && is_active(#[trigger] rows[l]) implies exists|i: int| 0 <= i < src.len() && src[i] == l by {
                        assert(l != j);
                    }
                }
            }
            j = j + 1;
        }
        proof {
            let list = brand_views(out@);
            assert forall|i: int| 0 <= i < list.len() implies lists_live_brand(rows, #[trigger] list[i]) by {
                assert(is_active(rows[src[i]]));
                assert(list[i] == brand_view(rows[src[i]]));
            }
            assert forall|l: int| 0 <= l < rows.len() && is_active(#[trigger] rows[l]) implies listed(list, brand_view(rows[l])) by {
                let i0 = choose|i: int| 0 <= i < src.len() && src[i] == l;
                assert(list[i0] == brand_view(rows[l]));
            }
            assert forall|i: int, k: int| 0 <= i < k < list.len() implies (#[trigger] list[i]).2 < (#[trigger] list[k]).2 by {
                assert(out@[i].sequence < out@[k].sequence);
            }
        }
        out
    }
    /// A page of the live brands in ascending sequence; at most `MAX_ROWS`.
    pub fn get_brands(&self, paging: Paging) -> (r: Vec<Brand>)
        requires
            self.wf(),
        ensures
            exists|all: Seq<(u64, Seq<char>, i32, bool)>|
                is_brand_listing(self.brand_rows(), all) && brand_views(r@) == page(
                    all,
                    spec_offset(paging) as int,
                    spec_clamped_limit(paging, MAX_ROWS) as int,
                ),
    {
        let all = self.get_all_brands();
        let ghost listing = brand_views(all@);
        let r = take_page(all, paging.start(), paging.clamped_limit(MAX_ROWS));
        assert(brand_views(r@) =~= page(listing, spec_offset(paging) as int, spec_clamped_limit(paging, MAX_ROWS) as int));
        r
    }

    /// A page of the live products filed under brand `id`, in id order;
    /// `MIN_ROWS` of them unless asked otherwise, at most `MAX_ROWS`.
    pub fn get_brand_detail(&self, id: u64, paging: Paging) -> (r: Vec<BrandItem>)
        requires
            self.wf(),
        ensures
            brand_item_views(r@) == page(
                brand_items(self.product_rows(), id),
                spec_offset(paging) as int,
                spec_clamped_limit(paging, MIN_ROWS) as int,
            ),
    {
        let mut out: Vec<BrandItem> = Vec::new();
        let n = self.products.len();
        let mut i: usize = 0;
        while i < n
            invariant
                i <= n,
                n == self.products@.len(),
                brand_item_views(out@) == brand_items(self.products@.take(i as int), id),
            decreases n - i,
        {
            proof {
                assert(self.products@.take(i + 1) =~= self.products@.take(i as int).push(self.products@[i as int]));
                lemma_brand_items_push(self.products@.take(i as int), self.products@[i as int], id);
            }
            let row = &self.products[i];
            if row.status == CommonStatus::Valid && row.brand_id == id {
                let item = BrandItem {
                    id: row.id,
                    name: row.name.clone(),
                    title: row.title.clone(),
                    subtitle: row.subtitle.clone(),
                    img_url: row.img_url.clone(),
                };
                let ghost before = out@;
                out.push(item);
                assert(brand_item_views(out@) =~= brand_item_views(before).push(brand_item_view(self.products@[i as int])));
            }
            i = i + 1;
        }
        assert(self.products@.take(n as int) =~= self.products@);
        let ghost items = out@;
        let r = take_page(out, paging.start(), paging.clamped_limit(MIN_ROWS));
        assert(brand_item_views(r@) =~= page(brand_item_views(items), spec_offset(paging) as int, spec_clamped_limit(paging, MIN_ROWS) as int));
        r
    }

    /// How product row `i` is shown, with the name of its brand.
    fn product_item(&self, i: usize) -> (r: ProductItem)
        requires
            self.wf(),
            i < self.product_rows().len(),
        ensures
            shows_product(r, self.product_rows()[i as int], self.brand_rows()[self.product_rows()[i as int].brand_id - 1].name@),
    {
        let row = &self.products[i];
        let nb = self.brands.len();
        assert(1 <= row.brand_id <= nb);
        let brand = &self.brands[(row.brand_id - 1) as usize];
        let r = ProductItem {
            id: row.id,
            name: row.name.clone(),
            alias: row.alias.clone(),
            title: row.title.clone(),
            subtitle: row.subtitle.clone(),
            brand_id: row.brand_id,
            brand_name: brand.name.clone(),
            spec: row.spec.clone(),
            kind: row.kind,
            sell_price: row.sell_price,
            import_price: row.import_price,
            sequence: row.sequence,
            jd_id: row.jd_id.clone(),
            jd_url: row.jd_url.clone(),
            img_url: row.img_url.clone(),
            status: row.status.code(),
            comment: row.comment.clone(),
        };
        r
    }

    /// Product `id`, live or not.
    pub fn get_product(&self, id: u64) -> (r: Option<ProductItem>)
        requires
            self.wf(),
        ensures
            match r {
                Some(item) => 1 <= id <= self.product_rows().len() && shows_product(
                    item,
                    self.product_rows()[id - 1],
                    self.brand_rows()[self.product_rows()[id - 1].brand_id - 1].name@,
                ),
                None => !(1 <= id <= self.product_rows().len()),
            },
    {
        if id == 0 || id > self.products.len() as u64 {
            return None;
        }
        Some(self.product_item((id - 1) as usize))
    }

    /// Product `id`, if it is live.
    pub fn get_valid_product(&self, id: u64) -> (r: Option<ProductItem>)
        requires
            self.wf(),
        ensures
            match r {
                Some(item) => 1 <= id <= self.product_rows().len() && product_is_active(self.product_rows()[id - 1])
                    && shows_product(
                    item,
                    self.product_rows()[id - 1],
                    self.brand_rows()[self.product_rows()[id - 1].brand_id - 1].name@,
                ),
                None => !(1 <= id <= self.product_rows().len() && product_is_active(self.product_rows()[id - 1])),
            },
    {
        if id == 0 || id > self.products.len() as u64 {
            return None;
        }
        let i = (id - 1) as usize;
        if self.products[i].status != CommonStatus::Valid {
            return None;
        }
        Some(self.product_item(i))
    }

    /// Whether product `id` is live.
    pub fn is_product_valid(&self, id: u64) -> (r: bool)
        ensures
            r == (1 <= id <= self.product_rows().len() && product_is_active(self.product_rows()[id - 1])),
    {
        id != 0 && id <= self.products.len() as u64 && self.products[(id - 1) as usize].status == CommonStatus::Valid
    }

    /// A page of all products, live or not, in id order; at most `MAX_ROWS`.
    pub fn get_all_products(&self, paging: Paging) -> (r: Vec<ProductItem>)
        requires
            self.wf(),
        ensures
            ({
                let rows = page(self.product_rows(), spec_offset(paging) as int, spec_clamped_limit(paging, MAX_ROWS) as int);
                &&& r@.len() == rows.len()
                &&& forall|i: int| 0 <= i < rows.len() ==> shows_product(
                    #[trigger] r@[i],
                    rows[i],
                    self.brand_rows()[rows[i].brand_id - 1].name@,
                )
            }),
    {
        let n = self.products.len();
        let start: usize = if (paging.start() as u64) < (n as u64) {
            paging.start() as usize
        } else {
            n
        };
        let limit = paging.clamped_limit(MAX_ROWS);
        let end: usize = if (limit as u64) < ((n - start) as u64) {
            start + limit as usize
        } else {
            n
        };
        let ghost rows = page(self.products@, spec_offset(paging) as int, spec_clamped_limit(paging, MAX_ROWS) as int);
        assert(rows =~= self.products@.subrange(start as int, end as int));
        let mut out: Vec<ProductItem> = Vec::new();
        let mut i: usize = start;
        while i < end
            invariant
                start <= i <= end,
                end <= n,
                n == self.products@.len(),
                self.wf(),
                rows =~= self.products@.subrange(start as int, end as int),
                out@.len() == i - start,
                forall|k: int| 0 <= k < out@.len() ==> shows_product(
                    #[trigger] out@[k],
                    rows[k],
                    self.brand_rows()[rows[k].brand_id - 1].name@,
                ),
            decreases end - i,
        {
            let item = self.product_item(i);
            out.push(item);
            i = i + 1;
        }
        out
    }

    /// The live hot list, oldest entry first.
    pub fn get_hot_products(&self) -> (r: Vec<HotProduct>)
        ensures
            hot_ids(r@) == hot_list(self.hot_rows()),
    {
        let mut out: Vec<HotProduct> = Vec::new();
        let n = self.hot.len();
        let mut i: usize = 0;
        while i < n
            invariant
                i <= n,
                n == self.hot@.len(),
                hot_ids(out@) == hot_list(self.hot@.take(i as int)),
            decreases n - i,
        {
            proof {
                assert(self.hot@.take(i + 1) =~= self.hot@.take(i as int).push(self.hot@[i as int]));
                lemma_hot_list_push(self.hot@.take(i as int), self.hot@[i as int]);
            }
            if self.hot[i].status == CommonStatus::Valid {
                let ghost before = out@;
                out.push(HotProduct { product_id: self.hot[i].product_id });
                assert(hot_ids(out@) =~= hot_ids(before).push(self.hot@[i as int].product_id));
            }
            i = i + 1;
        }
        assert(self.hot@.take(n as int) =~= self.hot@);
        out
    }
}

} // verus!

//! The process table: which records a search keeps, the order in which they
//! are listed, and the text of each cell.
use vstd::prelude::*;
use crate::text::{
    contains_seq, decimal, digit_char, digit_of, text_contains, push_decimal, push_char, decimal_text,
    lemma_empty_is_contained, lemma_text_lt_irreflexive,
};
use crate::order::{views, is_stable_order, ranks_before, stable_positions, lemma_stable_order_unique};

verus! {

/// One operating-system process at the instant of a snapshot.
pub struct ProcessRecord {
    pub pid: u64,
    pub name: String,
    /// CPU usage in tenths of a percent.
    pub cpu_usage_tenths: u64,
    pub memory_bytes: u64,
    pub disk_write_bytes_per_sec: u64,
}

/// Whole-system figures that head the CPU and memory columns.
pub struct SystemTotals {
    /// Global CPU usage in tenths of a percent.
    pub global_cpu_usage_tenths: u64,
    pub used_memory_bytes: u64,
    pub total_memory_bytes: u64,
}

/// All processes at one instant, in the order the source listed them, with
/// the system totals.
pub struct Snapshot {
    pub processes: Vec<ProcessRecord>,
    pub totals: SystemTotals,
}

/// The cells of one table row, as displayed.
pub struct DisplayRow {
    pub name: String,
    pub pid: String,
    pub cpu: String,
    pub memory: String,
    pub disk: String,
}

/// What `str::to_lowercase` makes of a text.
pub uninterp spec fn lower_of(s: Seq<char>) -> Seq<char>;

/// Relies on `str::to_lowercase`: the lowercase form of `s`, which depends on
/// the characters of `s` alone.
#[verifier::external_body]
fn lowercase(s: &str) -> (r: String)
    ensures
        r@ == lower_of(s@),
{
    s.to_lowercase()
}

/// A record is kept by a search when its PID's decimal text contains the
/// query, or its lowercase name contains the lowercase query.
pub open spec fn record_matches(p: ProcessRecord, q: Seq<char>) -> bool {
    contains_seq(decimal(p.pid as nat), q) || contains_seq(lower_of(p.name@), lower_of(q))
}

/// The sort keys of the records: their lowercase names.
pub open spec fn name_keys(recs: Seq<ProcessRecord>) -> Seq<Seq<char>> {
    recs.map_values(|p: ProcessRecord| lower_of(p.name@))
}

/// Which records a search keeps.
pub open spec fn match_flags(recs: Seq<ProcessRecord>, q: Seq<char>) -> Seq<bool> {
    recs.map_values(|p: ProcessRecord| record_matches(p, q))
}

/// `order` is the display order of `recs` under query `q`.
pub open spec fn is_display_order(recs: Seq<ProcessRecord>, q: Seq<char>, order: Seq<usize>) -> bool {
    is_stable_order(name_keys(recs), match_flags(recs, q), order)
}

/// Text of a percentage given in tenths: one decimal digit and `%`.
pub open spec fn percent_text(tenths: nat) -> Seq<char> {
    decimal(tenths / 10) + seq!['.', digit_char(tenths % 10), '%']
}

/// Text of a memory size: whole megabytes (bytes divided by 1,000,000,
/// truncated) with one decimal digit and ` MB`.
pub open spec fn memory_text(bytes: nat) -> Seq<char> {
    decimal(bytes / 1_000_000) + seq!['.', '0', ' ', 'M', 'B']
}

/// Text of a disk write rate: bytes per second and `/s`.
pub open spec fn disk_text(rate: nat) -> Seq<char> {
    decimal(rate) + seq!['/', 's']
}

/// `row` shows `p`.
pub open spec fn shows(row: DisplayRow, p: ProcessRecord) -> bool {
    &&& row.name@ == p.name@
    &&& row.pid@ == decimal(p.pid as nat)
    &&& row.cpu@ == percent_text(p.cpu_usage_tenths as nat)
    &&& row.memory@ == memory_text(p.memory_bytes as nat)
    &&& row.disk@ == disk_text(p.disk_write_bytes_per_sec as nat)
}

/// Used memory as a share of total memory, in tenths of a percent, rounded
/// half up; zero when the total is zero.
pub open spec fn memory_usage_tenths(used: nat, total: nat) -> nat {
    if total == 0 {
        0
    } else {
        (used * 2000 + total) / (2 * total)
    }
}

/// Whether a record with this PID text and lowercase name is kept by a query
/// whose lowercase form is `query_lower`.
pub fn matches_query(pid_text: &str, name_lower: &str, query: &str, query_lower: &str) -> (r: bool)
    ensures
        r == (contains_seq(pid_text@, query@) || contains_seq(name_lower@, query_lower@)),
{
    text_contains(pid_text, query) || text_contains(name_lower, query_lower)
}

/// The positions of the records that `query` keeps, in display order: by
/// lowercase name, records with equal lowercase names in snapshot order.
pub fn display_order(records: &Vec<ProcessRecord>, query: &str) -> (r: Vec<usize>)
    ensures
        is_display_order(records@, query@, r@),
{
    let query_lower = lowercase(query);
    let mut keys: Vec<String> = Vec::new();
    let mut keep: Vec<bool> = Vec::new();
    let mut i: usize = 0;
    while i < records.len()
        invariant
            i <= records.len(),
            query_lower@ == lower_of(query@),
            keys.len() == i,
            keep.len() == i,
            forall|k: int| 0 <= k < i ==> (#[trigger] keys@[k])@ == lower_of(records@[k].name@),
            forall|k: int| 0 <= k < i ==> #[trigger] keep@[k] == record_matches(records@[k], query@),
        decreases records.len() - i,
    {
        let rec = &records[i];
        let key = lowercase(rec.name.as_str());
        let pid_text = decimal_text(rec.pid as u128);
        let kept = matches_query(pid_text.as_str(), key.as_str(), query, query_lower.as_str());
        keys.push(key);
        keep.push(kept);
        i = i + 1;
    }
    assert(views(keys@) =~= name_keys(records@));
    assert(keep@ =~= match_flags(records@, query@));
    stable_positions(&keys, &keep)
}

/// Text of a percentage given in tenths of a percent.
pub fn percent_cell(tenths: u128) -> (r: String)
    ensures
        r@ == percent_text(tenths as nat),
{
    let mut s = String::new();
    push_decimal(&mut s, tenths / 10);
    push_char(&mut s, '.');
    push_char(&mut s, digit_of(tenths % 10));
    push_char(&mut s, '%');
    assert(s@ =~= percent_text(tenths as nat));
    s
}

/// Text of a memory size in whole megabytes.
pub fn memory_cell(bytes: u64) -> (r: String)
    ensures
        r@ == memory_text(bytes as nat),
{
    let mut s = String::new();
    push_decimal(&mut s, (bytes / 1_000_000) as u128);
    push_char(&mut s, '.');
    push_char(&mut s, '0');
    push_char(&mut s, ' ');
    push_char(&mut s, 'M');
    push_char(&mut s, 'B');
    assert(s@ =~= memory_text(bytes as nat));
    s
}

/// Text of a disk write rate in bytes per second.
pub fn disk_cell(rate: u64) -> (r: String)
    ensures
        r@ == disk_text(rate as nat),
{
    let mut s = String::new();
    push_decimal(&mut s, rate as u128);
    push_char(&mut s, '/');
    push_char(&mut s, 's');
    assert(s@ =~= disk_text(rate as nat));
    s
}

/// The cells that show one record.
pub fn format_row(p: &ProcessRecord) -> (r: DisplayRow)
    ensures
        shows(r, *p),
{
    DisplayRow {
        name: p.name.clone(),
        pid: decimal_text(p.pid as u128),
        cpu: percent_cell(p.cpu_usage_tenths as u128),
        memory: memory_cell(p.memory_bytes),
        disk: disk_cell(p.disk_write_bytes_per_sec),
    }
}

/// The rows of the table body for a snapshot and a search query: the kept
/// records in display order, each formatted.
pub fn compute_display_rows(snapshot: &Snapshot, query: &str) -> (r: Vec<DisplayRow>)
    ensures
        exists|order: Seq<usize>|
            #[trigger] is_display_order(snapshot.processes@, query@, order) && order.len() == r.len()
                && forall|k: int| 0 <= k < r.len() ==> shows(#[trigger] r@[k], snapshot.processes@[order[k] as int]),
{
    let order = display_order(&snapshot.processes, query);
    let mut rows: Vec<DisplayRow> = Vec::new();
    let mut k: usize = 0;
    while k < order.len()
        invariant
            is_display_order(snapshot.processes@, query@, order@),
            k <= order.len(),
            rows.len() == k,
            forall|j: int| 0 <= j < k ==> shows(#[trigger] rows@[j], snapshot.processes@[order@[j] as int]),
        decreases order.len() - k,
    {
        assert(order@[k as int] < snapshot.processes@.len());
        rows.push(format_row(&snapshot.processes[order[k]]));
        k = k + 1;
    }
    rows
}

/// Text heading the CPU column: the global CPU usage.
pub fn cpu_total_cell(totals: &SystemTotals) -> (r: String)
    ensures
        r@ == percent_text(totals.global_cpu_usage_tenths as nat),
{
    percent_cell(totals.global_cpu_usage_tenths as u128)
}

/// Used memory as a share of total memory, in tenths of a percent.
pub fn memory_usage(totals: &SystemTotals) -> (r: u128)
    ensures
        r == memory_usage_tenths(totals.used_memory_bytes as nat, totals.total_memory_bytes as nat),
{
    let used = totals.used_memory_bytes as u128;
    let total = totals.total_memory_bytes as u128;
    if total == 0 {
        return 0;
    }
    assert(used * 2000 + total <= 0xffff_ffff_ffff_ffffu128 * 2001) by (nonlinear_arith)
        requires used <= 0xffff_ffff_ffff_ffffu128, total <= 0xffff_ffff_ffff_ffffu128;
    let q = (used * 2000 + total) / (2 * total);
    q
}

/// Text heading the memory column: used memory as a share of the total.
pub fn memory_total_cell(totals: &SystemTotals) -> (r: String)
    ensures
        r@ == percent_text(memory_usage_tenths(totals.used_memory_bytes as nat, totals.total_memory_bytes as nat)),
{
    percent_cell(memory_usage(totals))
}

/// A record is listed exactly when the search keeps it; an empty query keeps
/// every record.
pub proof fn lemma_filter_correct(recs: Seq<ProcessRecord>, q: Seq<char>, order: Seq<usize>)
    requires
        is_display_order(recs, q, order),
        recs.len() <= usize::MAX,
    ensures
        forall|i: int| 0 <= i < recs.len() ==> (order.contains(i as usize) <==> record_matches(#[trigger] recs[i], q)),
        q.len() == 0 ==> forall|i: int| 0 <= i < recs.len() ==> #[trigger] order.contains(i as usize),
{
    let keys = name_keys(recs);
    let keep = match_flags(recs, q);
    assert forall|i: int| 0 <= i < recs.len() implies (order.contains(i as usize) <==> record_matches(#[trigger] recs[i], q)) by {
        assert(keys.len() == recs.len());
        assert(keep[i] == record_matches(recs[i], q));
        if keep[i] {
            assert(order.contains(i as usize));
        }
        if order.contains(i as usize) {
            let k = choose|k: int| 0 <= k < order.len() && order[k] == i as usize;
            assert(keep[order[k] as int]);
        }
    }
    if q.len() == 0 {
        assert forall|i: int| 0 <= i < recs.len() implies #[trigger] order.contains(i as usize) by {
            lemma_empty_is_contained(decimal(recs[i].pid as nat));
            assert(q =~= Seq::<char>::empty());
            assert(record_matches(recs[i], q));
        }
    }
}

/// A snapshot and a query determine the display order: no two different
/// orders both meet it.
pub proof fn lemma_display_order_unique(recs: Seq<ProcessRecord>, q: Seq<char>, o1: Seq<usize>, o2: Seq<usize>)
    requires
        is_display_order(recs, q, o1),
        is_display_order(recs, q, o2),
    ensures
        o1 == o2,
{
    lemma_stable_order_unique(name_keys(recs), match_flags(recs, q), o1, o2);
}

/// Two listed records with equal lowercase names are listed in the order in
/// which the snapshot holds them.
pub proof fn lemma_sort_stable(recs: Seq<ProcessRecord>, q: Seq<char>, order: Seq<usize>, x: int, y: int)
    requires
        is_display_order(recs, q, order),
        0 <= x < order.len(),
        0 <= y < order.len(),
        order[x] < order[y],
        lower_of(recs[order[x] as int].name@) == lower_of(recs[order[y] as int].name@),
    ensures
        x < y,
{
    let keys = name_keys(recs);
    if y < x {
        assert(ranks_before(keys, order[y] as int, order[x] as int));
        lemma_text_lt_irreflexive(keys[order[x] as int]);
    }
}

/// The cells of a row depend on the record's fields alone: records with
/// equal fields are shown by equal text.
pub proof fn lemma_format_deterministic(a: DisplayRow, b: DisplayRow, p: ProcessRecord, other: ProcessRecord)
    requires
        shows(a, p),
        shows(b, other),
        p.name@ == other.name@,
        p.pid == other.pid,
        p.cpu_usage_tenths == other.cpu_usage_tenths,
        p.memory_bytes == other.memory_bytes,
        p.disk_write_bytes_per_sec == other.disk_write_bytes_per_sec,
    ensures
        a.name@ == b.name@,
        a.pid@ == b.pid@,
        a.cpu@ == b.cpu@,
        a.memory@ == b.memory@,
        a.disk@ == b.disk@,
{
}

} // verus!

use vstd::prelude::*;
use vstd::multiset::Multiset;
use vstd::utf8::{encode_utf8, encode_utf8_decode_utf8};

verus! {

broadcast use vstd::seq_lib::group_to_multiset_ensures;

/// The summary of one metric's measurements in a benchmark run.
///
/// The mean is held as the decimal text it is written as; `quantiles` holds the
/// metric's value at each fraction of the quantile set, in that set's order.
pub struct MetricSample {
    pub name: String,
    pub samples: u64,
    pub min: u64,
    pub max: u64,
    pub mean: String,
    pub quantiles: Vec<u64>,
}

/// Strict lexicographic order on byte strings, the order of `str`'s `Ord`.
pub open spec fn lex_lt(a: Seq<u8>, b: Seq<u8>) -> bool
    decreases a.len(),
{
    if b.len() == 0 {
        false
    } else if a.len() == 0 {
        true
    } else if a[0] != b[0] {
        a[0] < b[0]
    } else {
        lex_lt(a.drop_first(), b.drop_first())
    }
}

pub proof fn lemma_lex_lt_irreflexive(a: Seq<u8>)
    ensures
        !lex_lt(a, a),
    decreases a.len(),
{
    if a.len() > 0 {
        lemma_lex_lt_irreflexive(a.drop_first());
    }
}

pub proof fn lemma_lex_lt_transitive(a: Seq<u8>, b: Seq<u8>, c: Seq<u8>)
    requires
        lex_lt(a, b),
        lex_lt(b, c),
    ensures
        lex_lt(a, c),
    decreases a.len(),
{
    if a.len() > 0 && a[0] == b[0] && b[0] == c[0] {
        lemma_lex_lt_transitive(a.drop_first(), b.drop_first(), c.drop_first());
    }
}

/// The bytes a metric is ordered by: its name in UTF-8.
pub open spec fn name_key(m: MetricSample) -> Seq<u8> {
    encode_utf8(m.name@)
}

/// No metric is placed after one whose name orders before it.
pub open spec fn sorted_by_name(s: Seq<MetricSample>) -> bool {
    forall|i: int, j: int|
        0 <= i < j < s.len() ==> !lex_lt(#[trigger] name_key(s[j]), #[trigger] name_key(s[i]))
}

/// Whether the name `a` orders before the name `b`.
pub fn name_lt(a: &String, b: &String) -> (r: bool)
    ensures
        r == lex_lt(encode_utf8(a@), encode_utf8(b@)),
{
    let x = a.as_str().as_bytes();
    let y = b.as_str().as_bytes();
    let mut i: usize = 0;
    proof {
        assert(x@.subrange(0, x@.len() as int) =~= x@);
        assert(y@.subrange(0, y@.len() as int) =~= y@);
    }
    while i < x.len() && i < y.len()
        invariant
            i <= x.len(),
            i <= y.len(),
            x@ == encode_utf8(a@),
            y@ == encode_utf8(b@),
            lex_lt(x@, y@) == lex_lt(x@.subrange(i as int, x@.len() as int), y@.subrange(i as int, y@.len() as int)),
        decreases x.len() - i,
    {
        if x[i] != y[i] {
            return x[i] < y[i];
        }
        proof {
            assert(x@.subrange(i as int, x@.len() as int).drop_first() =~= x@.subrange(i + 1, x@.len() as int));
            assert(y@.subrange(i as int, y@.len() as int).drop_first() =~= y@.subrange(i + 1, y@.len() as int));
        }
        i = i + 1;
    }
    i < y.len()
}

/// Orders the metrics by name, keeping each of them.
pub fn sort_by_name(metrics: Vec<MetricSample>) -> (r: Vec<MetricSample>)
    ensures
        sorted_by_name(r@),
        r@.to_multiset() == metrics@.to_multiset(),
{
    let ghost all = metrics@;
    let mut rest = metrics;
    let mut out: Vec<MetricSample> = Vec::new();
    while rest.len() > 0
        invariant
            sorted_by_name(out@),
            out@.to_multiset().add(rest@.to_multiset()) == all.to_multiset(),
        decreases rest.len(),
    {
        let ghost before = rest@;
        let m = rest.pop().unwrap();
        proof {
            assert(before =~= rest@.push(m));
        }
        let mut p: usize = 0;
        while p < out.len() && !name_lt(&m.name, &out[p].name)
            invariant
                p <= out.len(),
                forall|k: int| 0 <= k < p ==> !lex_lt(name_key(m), #[trigger] name_key(out@[k])),
            decreases out.len() - p,
        {
            p = p + 1;
        }
        let ghost old_out = out@;
        out.insert(p, m);
        proof {
            assert forall|i: int, j: int| 0 <= i < j < out@.len() implies !lex_lt(
                #[trigger] name_key(out@[j]),
                #[trigger] name_key(out@[i]),
            ) by {
                if i == p && j > p {
                    if lex_lt(name_key(out@[j]), name_key(m)) {
                        lemma_lex_lt_transitive(name_key(out@[j]), name_key(m), name_key(old_out[p as int]));
                        if j - 1 == p {
                            lemma_lex_lt_irreflexive(name_key(old_out[p as int]));
                        } else {
                            assert(out@[j] == old_out[j - 1]);
                        }
                    }
                } else if i < p && j == p {
                } else if i < p {
                    assert(out@[i] == old_out[i]);
                    if j < p {
                        assert(out@[j] == old_out[j]);
                    } else {
                        assert(out@[j] == old_out[j - 1]);
                    }
                } else {
                    assert(out@[i] == old_out[i - 1]);
                    assert(out@[j] == old_out[j - 1]);
                }
            }
            vstd::seq_lib::to_multiset_insert(old_out, p as int, m);
            vstd::seq_lib::to_multiset_build(rest@, m);
            assert(out@.to_multiset().add(rest@.to_multiset()) =~= all.to_multiset());
        }
    }
    proof {
        assert(rest@.to_multiset() =~= Multiset::empty());
        assert(out@.to_multiset().add(Multiset::empty()) =~= out@.to_multiset());
    }
    out
}

pub proof fn lemma_lex_lt_total(a: Seq<u8>, b: Seq<u8>)
    requires
        !lex_lt(a, b),
        !lex_lt(b, a),
    ensures
        a == b,
    decreases a.len(),
{
    if a.len() > 0 && b.len() > 0 {
        assert(a[0] == b[0]);
        lemma_lex_lt_total(a.drop_first(), b.drop_first());
        assert(a.len() == b.len());
        assert(a =~= b) by {
            assert forall|i: int| 0 < i < a.len() implies a[i] == b[i] by {
                assert(a[i] == a.drop_first()[i - 1]);
                assert(b[i] == b.drop_first()[i - 1]);
            }
        }
    } else {
        assert(a =~= b);
    }
}

/// No two metrics at different places share a name.
pub open spec fn distinct_names(s: Seq<MetricSample>) -> bool {
    forall|i: int, j: int|
        0 <= i < s.len() && 0 <= j < s.len() && i != j ==> (#[trigger] s[i]).name@ != (
        #[trigger] s[j]).name@
}

/// Any two metrics of the collection with the same name are the same metric.
pub open spec fn named_uniquely(m: Multiset<MetricSample>) -> bool {
    forall|a: MetricSample, b: MetricSample|
        #[trigger] m.contains(a) && #[trigger] m.contains(b) && a.name@ == b.name@ ==> a == b
}

proof fn lemma_sorted_by_name_unique(x: Seq<MetricSample>, y: Seq<MetricSample>)
    requires
        sorted_by_name(x),
        sorted_by_name(y),
        x.to_multiset() == y.to_multiset(),
        named_uniquely(x.to_multiset()),
    ensures
        x == y,
    decreases x.len(),
{
    broadcast use vstd::multiset::group_multiset_axioms;

    vstd::seq_lib::to_multiset_len(x);
    vstd::seq_lib::to_multiset_len(y);
    if x.len() == 0 || y.len() == 0 {
        assert(x.len() == y.len());
        assert(x =~= y);
    } else {
        let m = x.to_multiset();
        assert(m.contains(x[0]));
        assert(m.contains(y[0]));
        assert(y.contains(x[0]));
        assert(x.contains(y[0]));
        let k = choose|k: int| 0 <= k < y.len() && y[k] == x[0];
        let l = choose|l: int| 0 <= l < x.len() && x[l] == y[0];
        if k > 0 {
            assert(!lex_lt(name_key(y[k]), name_key(y[0])));
        }
        if l > 0 {
            assert(!lex_lt(name_key(x[l]), name_key(x[0])));
        }
        if k > 0 && l > 0 {
            lemma_lex_lt_total(name_key(x[0]), name_key(y[0]));
            encode_utf8_decode_utf8(x[0].name@);
            encode_utf8_decode_utf8(y[0].name@);
        }
        assert(x[0] == y[0]);
        let xr = x.drop_first();
        let yr = y.drop_first();
        assert(x =~= seq![x[0]] + xr);
        assert(y =~= seq![y[0]] + yr);
        assert(x.remove(0) =~= xr);
        assert(y.remove(0) =~= yr);
        vstd::seq_lib::to_multiset_remove(x, 0);
        vstd::seq_lib::to_multiset_remove(y, 0);
        assert(xr.to_multiset() == yr.to_multiset());
        assert forall|i: int, j: int| 0 <= i < j < xr.len() implies !lex_lt(
            #[trigger] name_key(xr[j]),
            #[trigger] name_key(xr[i]),
        ) by {
            assert(xr[i] == x[i + 1] && xr[j] == x[j + 1]);
        }
        assert forall|i: int, j: int| 0 <= i < j < yr.len() implies !lex_lt(
            #[trigger] name_key(yr[j]),
            #[trigger] name_key(yr[i]),
        ) by {
            assert(yr[i] == y[i + 1] && yr[j] == y[j + 1]);
        }
        assert forall|a: MetricSample, b: MetricSample|
            #[trigger] xr.to_multiset().contains(a) && #[trigger] xr.to_multiset().contains(b)
                && a.name@ == b.name@ implies a == b by {
            assert(m.contains(a) && m.contains(b));
        }
        lemma_sorted_by_name_unique(xr, yr);
    }
}

/// The row of a run does not depend on the order in which its metrics are
/// given: for metrics with distinct names, any two orderings by name of the
/// same metrics give the same row, so each metric's block stands where its
/// name places it.
pub proof fn lemma_row_ignores_metric_order(
    x_value: Seq<char>,
    a: Seq<MetricSample>,
    b: Seq<MetricSample>,
    sa: Seq<MetricSample>,
    sb: Seq<MetricSample>,
)
    requires
        distinct_names(a),
        a.to_multiset() == b.to_multiset(),
        sorted_by_name(sa),
        sa.to_multiset() == a.to_multiset(),
        sorted_by_name(sb),
        sb.to_multiset() == b.to_multiset(),
    ensures
        row_fields(x_value, sa) == row_fields(x_value, sb),
{
    assert forall|p: MetricSample, q: MetricSample|
        #[trigger] a.to_multiset().contains(p) && #[trigger] a.to_multiset().contains(q)
            && p.name@ == q.name@ implies p == q by {
        assert(a.contains(p) && a.contains(q));
        let i = choose|i: int| 0 <= i < a.len() && a[i] == p;
        let j = choose|j: int| 0 <= j < a.len() && a[j] == q;
        assert(i == j);
    }
    lemma_sorted_by_name_unique(sa, sb);
}

/// A row has one column for the axis value and, for each metric, four for
/// its statistics and one per quantile: with `k` quantiles that is
/// `1 + metrics * (4 + k)` columns.
pub proof fn lemma_row_width(x_value: Seq<char>, ms: Seq<MetricSample>, k: nat)
    requires
        forall|i: int| 0 <= i < ms.len() ==> (#[trigger] ms[i]).quantiles@.len() == k,
    ensures
        row_fields(x_value, ms).len() == 1 + ms.len() * (4 + k),
    decreases ms.len(),
{
    if ms.len() > 0 {
        let rest = ms.drop_last();
        assert forall|i: int| 0 <= i < rest.len() implies (#[trigger] rest[i]).quantiles@.len()
            == k by {
            assert(rest[i] == ms[i]);
        }
        lemma_row_width(x_value, rest, k);
        assert(ms[ms.len() - 1].quantiles@.len() == k);
        assert(metric_block(ms.last()).len() == 4 + k);
        assert(rest.len() * (4 + k) + (4 + k) == ms.len() * (4 + k)) by (nonlinear_arith)
            requires
                rest.len() + 1 == ms.len(),
        ;
    }
}

/// The decimal digit for `d < 10`.
pub open spec fn digit(d: nat) -> char {
    if d == 0 { '0' }
    else if d == 1 { '1' }
    else if d == 2 { '2' }
    else if d == 3 { '3' }
    else if d == 4 { '4' }
    else if d == 5 { '5' }
    else if d == 6 { '6' }
    else if d == 7 { '7' }
    else if d == 8 { '8' }
    else { '9' }
}

/// The canonical decimal text of a natural number: no sign, no leading zeros.
pub open spec fn decimal(n: nat) -> Seq<char>
    decreases n,
{
    if n < 10 {
        seq![digit(n)]
    } else {
        decimal(n / 10).push(digit(n % 10))
    }
}

/// The text of one decimal digit.
fn digit_text(d: u64) -> (r: String)
    requires
        d < 10,
    ensures
        r@ == seq![digit(d as nat)],
{
    proof {
        reveal_strlit("0");
        reveal_strlit("1");
        reveal_strlit("2");
        reveal_strlit("3");
        reveal_strlit("4");
        reveal_strlit("5");
        reveal_strlit("6");
        reveal_strlit("7");
        reveal_strlit("8");
        reveal_strlit("9");
    }
    if d == 0 {
        String::from_str("0")
    } else if d == 1 {
        String::from_str("1")
    } else if d == 2 {
        String::from_str("2")
    } else if d == 3 {
        String::from_str("3")
    } else if d == 4 {
        String::from_str("4")
    } else if d == 5 {
        String::from_str("5")
    } else if d == 6 {
        String::from_str("6")
    } else if d == 7 {
        String::from_str("7")
    } else if d == 8 {
        String::from_str("8")
    } else {
        String::from_str("9")
    }
}

/// The canonical decimal text of `n`.
pub fn decimal_text(n: u64) -> (r: String)
    ensures
        r@ == decimal(n as nat),
    decreases n,
{
    if n < 10 {
        digit_text(n)
    } else {
        let head = decimal_text(n / 10);
        let last = digit_text(n % 10);
        let r = head.concat(last.as_str());
        proof {
            assert(r@ =~= decimal((n / 10) as nat).push(digit((n % 10) as nat)));
        }
        r
    }
}

/// The columns written for one metric: sample count, minimum, maximum, mean,
/// then one per quantile in the quantile set's order.
pub open spec fn metric_block(m: MetricSample) -> Seq<Seq<char>> {
    seq![decimal(m.samples as nat), decimal(m.min as nat), decimal(m.max as nat), m.mean@]
        + m.quantiles@.map_values(|q: u64| decimal(q as nat))
}

/// The blocks of the metrics, one after another in the order given.
pub open spec fn blocks(ms: Seq<MetricSample>) -> Seq<Seq<char>>
    decreases ms.len(),
{
    if ms.len() == 0 {
        Seq::empty()
    } else {
        blocks(ms.drop_last()) + metric_block(ms.last())
    }
}

/// A results row: the axis value, then each metric's block in the order given.
pub open spec fn row_fields(x_value: Seq<char>, ms: Seq<MetricSample>) -> Seq<Seq<char>> {
    seq![x_value] + blocks(ms)
}

pub open spec fn strings_view(v: Seq<String>) -> Seq<Seq<char>> {
    v.map_values(|s: String| s@)
}

/// Writes the row for metrics that are already in column order.
pub fn fields_in_order(x_value: &str, metrics: &Vec<MetricSample>) -> (r: Vec<String>)
    ensures
        strings_view(r@) == row_fields(x_value@, metrics@),
{
    let mut out: Vec<String> = Vec::new();
    out.push(x_value.to_owned());
    let mut i: usize = 0;
    proof {
        assert(metrics@.take(0) =~= Seq::<MetricSample>::empty());
        assert(strings_view(out@) =~= row_fields(x_value@, metrics@.take(0)));
    }
    while i < metrics.len()
        invariant
            i <= metrics.len(),
            strings_view(out@) == row_fields(x_value@, metrics@.take(i as int)),
        decreases metrics.len() - i,
    {
        let m = &metrics[i];
        let ghost head = strings_view(out@);
        out.push(decimal_text(m.samples));
        out.push(decimal_text(m.min));
        out.push(decimal_text(m.max));
        out.push(m.mean.clone());
        proof {
            assert(strings_view(out@) =~= head + seq![
                decimal(m.samples as nat),
                decimal(m.min as nat),
                decimal(m.max as nat),
                m.mean@,
            ]);
        }
        let mut j: usize = 0;
        while j < m.quantiles.len()
            invariant
                i < metrics.len(),
                m == metrics@[i as int],
                j <= m.quantiles.len(),
                strings_view(out@) == head + seq![
                    decimal(m.samples as nat),
                    decimal(m.min as nat),
                    decimal(m.max as nat),
                    m.mean@,
                ] + m.quantiles@.take(j as int).map_values(|q: u64| decimal(q as nat)),
            decreases m.quantiles.len() - j,
        {
            let ghost prev = strings_view(out@);
            out.push(decimal_text(m.quantiles[j]));
            proof {
                assert(m.quantiles@.take(j + 1).map_values(|q: u64| decimal(q as nat))
                    =~= m.quantiles@.take(j as int).map_values(|q: u64| decimal(q as nat)).push(
                    decimal(m.quantiles@[j as int] as nat),
                ));
                assert(strings_view(out@) =~= prev.push(decimal(m.quantiles@[j as int] as nat)));
            }
            j = j + 1;
        }
        proof {
            assert(m.quantiles@.take(j as int) =~= m.quantiles@);
            assert(metrics@.take(i + 1).drop_last() =~= metrics@.take(i as int));
            assert(metrics@.take(i + 1).last() == metrics@[i as int]);
            assert(strings_view(out@) =~= row_fields(x_value@, metrics@.take(i + 1)));
        }
        i = i + 1;
    }
    proof {
        assert(metrics@.take(i as int) =~= metrics@);
    }
    out
}

/// The row for one benchmark run: the axis value, then each metric's block
/// with the metrics ordered by name.
pub fn result_row(x_value: &str, metrics: Vec<MetricSample>) -> (r: Vec<String>)
    ensures
        exists|s: Seq<MetricSample>|
            {
                &&& sorted_by_name(s)
                &&& s.to_multiset() == metrics@.to_multiset()
                &&& strings_view(r@) == row_fields(x_value@, s)
            },
{
    let sorted = sort_by_name(metrics);
    fields_in_order(x_value, &sorted)
}

/// The bytes of one CSV record holding the given fields, as the `csv` crate
/// writes it with its default settings: comma-separated, quoted where needed,
/// and ended by a line terminator.
pub uninterp spec fn csv_record(fields: Seq<Seq<char>>) -> Seq<u8>;

/// Relies on `csv::WriterBuilder::from_writer`, `Writer::write_record` and
/// `Writer::into_inner` over a fresh in-memory buffer: what comes back is the
/// one record written. Writing into a `Vec` cannot fail, and a first record
/// meets no field-count check, so the result is always present.
#[verifier::external_body]
fn csv_record_bytes(fields: &Vec<String>) -> (r: Option<Vec<u8>>)
    ensures
        r is Some,
        r matches Some(b) ==> b@ == csv_record(strings_view(fields@)),
{
    let mut writer = csv::WriterBuilder::new().from_writer(Vec::new());
    match writer.write_record(fields) {
        Ok(()) => writer.into_inner().ok(),
        Err(_) => None,
    }
}

/// Encodes one benchmark run as a CSV record: the axis value, then each
/// metric's block with the metrics ordered by name.
pub fn encode_result(x_value: &str, metrics: Vec<MetricSample>) -> (r: Vec<u8>)
    ensures
        exists|s: Seq<MetricSample>|
            {
                &&& sorted_by_name(s)
                &&& s.to_multiset() == metrics@.to_multiset()
                &&& r@ == csv_record(row_fields(x_value@, s))
            },
{
    let row = result_row(x_value, metrics);
    csv_record_bytes(&row).unwrap()
}

} // verus!

//! The vocabulary matcher: which observed headers a fixed reference
//! vocabulary does not recognize.
//!
//! Matching is case-sensitive, exact-string comparison with no
//! normalization.  The result is the plain set difference, reported as a
//! lexicographically sorted, duplicate-free list so that output is
//! deterministic and diffable.

use vstd::prelude::*;
use vstd::multiset::Multiset;
use vstd::seq_lib::group_to_multiset_ensures;
use vstd::string::StrSliceExecFns;
use crate::text::str_views;

verus! {

/// Lexicographic order on character sequences, by code point: the empty
/// sequence first, otherwise by first differing character.
pub open spec fn spec_lex_le(a: Seq<char>, b: Seq<char>) -> bool
    decreases a.len(),
{
    if a.len() == 0 {
        true
    } else if b.len() == 0 {
        false
    } else if (a[0] as u32) == (b[0] as u32) {
        spec_lex_le(a.drop_first(), b.drop_first())
    } else {
        (a[0] as u32) < (b[0] as u32)
    }
}

/// The order is reflexive.
pub proof fn lemma_lex_le_refl(a: Seq<char>)
    ensures
        spec_lex_le(a, a),
    decreases a.len(),
{
    if a.len() > 0 {
        lemma_lex_le_refl(a.drop_first());
    }
}

/// The order is total: of any two sequences, one is at or before the
/// other.
pub proof fn lemma_lex_le_total(a: Seq<char>, b: Seq<char>)
    ensures
        spec_lex_le(a, b) || spec_lex_le(b, a),
    decreases a.len(),
{
    if a.len() > 0 && b.len() > 0 && (a[0] as u32) == (b[0] as u32) {
        lemma_lex_le_total(a.drop_first(), b.drop_first());
    }
}

/// The order is transitive.
pub proof fn lemma_lex_le_trans(a: Seq<char>, b: Seq<char>, c: Seq<char>)
    requires
        spec_lex_le(a, b),
        spec_lex_le(b, c),
    ensures
        spec_lex_le(a, c),
    decreases a.len(),
{
    if a.len() == 0 {
    } else {
        if (a[0] as u32) == (b[0] as u32) && (b[0] as u32) == (c[0] as u32) {
            lemma_lex_le_trans(a.drop_first(), b.drop_first(), c.drop_first());
        }
    }
}

/// Compares two strings in the lexicographic order of their characters.
pub fn str_lex_le(a: &str, b: &str) -> (r: bool)
    ensures
        r == spec_lex_le(a@, b@),
{
    let la = a.unicode_len();
    let lb = b.unicode_len();
    proof {
        assert(a@.skip(0) =~= a@);
        assert(b@.skip(0) =~= b@);
    }
    let mut i: usize = 0;
    loop
        invariant
            i <= la,
            i <= lb,
            la == a@.len(),
            lb == b@.len(),
            spec_lex_le(a@, b@) == spec_lex_le(a@.skip(i as int), b@.skip(i as int)),
        decreases la - i,
    {
        if i == la {
            proof {
                assert(a@.skip(i as int) =~= Seq::<char>::empty());
            }
            return true;
        }
        if i == lb {
            proof {
                assert(b@.skip(i as int) =~= Seq::<char>::empty());
                assert(a@.skip(i as int).len() > 0);
            }
            return false;
        }
        let ca = a.get_char(i);
        let cb = b.get_char(i);
        if ca == cb {
            proof {
                assert(a@.skip(i as int).drop_first() =~= a@.skip(i + 1));
                assert(b@.skip(i as int).drop_first() =~= b@.skip(i + 1));
                assert(a@.skip(i as int)[0] == a@[i as int]);
                assert(b@.skip(i as int)[0] == b@[i as int]);
            }
            i += 1;
        } else {
            proof {
                assert(a@.skip(i as int)[0] == a@[i as int]);
                assert(b@.skip(i as int)[0] == b@[i as int]);
            }
            return (ca as u32) < (cb as u32);
        }
    }
}

/// A sequence of character sequences in nondecreasing lexicographic
/// order.
pub open spec fn spec_sorted(s: Seq<Seq<char>>) -> bool {
    forall|p: int, q: int| 0 <= p < q < s.len() ==> spec_lex_le(#[trigger] s[p], #[trigger] s[q])
}

/// Whether some string of `v` equals `x`, by exact character-sequence
/// comparison.
pub fn contains_str(v: &Vec<String>, x: &String) -> (r: bool)
    ensures
        r == str_views(v@).contains(x@),
{
    let mut i: usize = 0;
    while i < v.len()
        invariant
            i <= v@.len(),
            forall|j: int| 0 <= j < i ==> #[trigger] str_views(v@)[j] != x@,
        decreases v@.len() - i,
    {
        if v[i].eq(x) {
            proof {
                assert(str_views(v@)[i as int] == x@);
            }
            return true;
        }
        i += 1;
    }
    proof {
        if str_views(v@).contains(x@) {
            let j = choose|j: int|
                0 <= j < str_views(v@).len() && str_views(v@)[j] == x@;
            assert(str_views(v@)[j] != x@);
        }
    }
    false
}

fn min_index(v: &Vec<String>) -> (m: usize)
    requires
        v@.len() > 0,
    ensures
        m < v@.len(),
        forall|q: int|
            0 <= q < v@.len() ==> spec_lex_le(str_views(v@)[m as int], #[trigger] str_views(v@)[q]),
{
    let mut m: usize = 0;
    proof {
        lemma_lex_le_refl(str_views(v@)[0]);
    }
    let mut i: usize = 1;
    while i < v.len()
        invariant
            1 <= i <= v@.len(),
            m < i,
            forall|q: int|
                0 <= q < i ==> spec_lex_le(str_views(v@)[m as int], #[trigger] str_views(v@)[q]),
        decreases v@.len() - i,
    {
        if str_lex_le(v[i].as_str(), v[m].as_str()) {
            proof {
                assert forall|q: int| 0 <= q < i + 1 implies spec_lex_le(
                    str_views(v@)[i as int],
                    #[trigger] str_views(v@)[q],
                ) by {
                    if q == i {
                        lemma_lex_le_refl(str_views(v@)[i as int]);
                    } else {
                        lemma_lex_le_trans(
                            str_views(v@)[i as int],
                            str_views(v@)[m as int],
                            str_views(v@)[q],
                        );
                    }
                }
            }
            m = i;
        } else {
            proof {
                lemma_lex_le_total(str_views(v@)[i as int], str_views(v@)[m as int]);
            }
        }
        i += 1;
    }
    m
}

/// Sorts strings into nondecreasing lexicographic order; the result
/// holds exactly the input strings, multiplicity included.
pub fn sort_strings(v: Vec<String>) -> (out: Vec<String>)
    ensures
        spec_sorted(str_views(out@)),
        str_views(out@).to_multiset() == str_views(v@).to_multiset(),
{
    let ghost orig = str_views(v@);
    let mut v = v;
    let mut out: Vec<String> = Vec::new();
    proof {
        broadcast use group_to_multiset_ensures;

        assert(str_views(out@).to_multiset().add(str_views(v@).to_multiset()) =~= orig.to_multiset());
    }
    while v.len() > 0
        invariant
            str_views(out@).to_multiset().add(str_views(v@).to_multiset()) == orig.to_multiset(),
            spec_sorted(str_views(out@)),
            forall|p: int, q: int|
                0 <= p < str_views(out@).len() && 0 <= q < str_views(v@).len() ==> spec_lex_le(
                    #[trigger] str_views(out@)[p],
                    #[trigger] str_views(v@)[q],
                ),
        decreases v@.len(),
    {
        let m = min_index(&v);
        let ghost pre_v = v@;
        let ghost pre_out = out@;
        let x = v.remove(m);
        let ghost xv = x@;
        out.push(x);
        proof {
            broadcast use group_to_multiset_ensures;

            let pv = str_views(pre_v);
            let ov = str_views(pre_out);
            assert(xv == pv[m as int]);
            assert(str_views(v@) =~= pv.remove(m as int));
            assert(str_views(out@) =~= ov.push(xv));
            assert(pv.contains(xv)) by {
                assert(pv[m as int] == xv);
            }
            assert(pv.to_multiset().count(xv) > 0);
            assert(str_views(out@).to_multiset().add(str_views(v@).to_multiset())
                =~= orig.to_multiset());
            assert forall|p: int, q: int|
                0 <= p < str_views(out@).len() && 0 <= q < str_views(v@).len() implies spec_lex_le(
                #[trigger] str_views(out@)[p],
                #[trigger] str_views(v@)[q],
            ) by {
                let qq: int = if q < m { q } else { q + 1 };
                assert(str_views(v@)[q] == pv[qq]);
                if p < ov.len() {
                    assert(spec_lex_le(ov[p], pv[qq]));
                } else {
                    assert(str_views(out@)[p] == xv);
                }
            }
            assert forall|p: int, q: int|
                0 <= p < q < str_views(out@).len() implies spec_lex_le(
                #[trigger] str_views(out@)[p],
                #[trigger] str_views(out@)[q],
            ) by {
                if q < ov.len() {
                    assert(spec_lex_le(ov[p], ov[q]));
                } else {
                    assert(str_views(out@)[q] == xv);
                    assert(spec_lex_le(ov[p], pv[m as int]));
                }
            }
        }
    }
    proof {
        broadcast use group_to_multiset_ensures;

        assert(str_views(v@).to_multiset() =~= Multiset::<Seq<char>>::empty());
        assert(str_views(out@).to_multiset() =~= orig.to_multiset());
    }
    out
}

proof fn lemma_same_multiset_same_set(a: Seq<Seq<char>>, b: Seq<Seq<char>>)
    requires
        a.to_multiset() == b.to_multiset(),
        a.no_duplicates(),
    ensures
        b.to_set() == a.to_set(),
        b.no_duplicates(),
{
    broadcast use group_to_multiset_ensures;

    assert forall|x: Seq<char>| a.contains(x) == b.contains(x) by {
        assert(a.contains(x) <==> a.to_multiset().count(x) > 0);
        assert(b.contains(x) <==> b.to_multiset().count(x) > 0);
    }
    assert(b.to_set() =~= a.to_set());
    a.lemma_multiset_has_no_duplicates();
    b.lemma_multiset_has_no_duplicates_conv();
}

/// What the matcher computes: the observed headers the vocabulary does
/// not hold — the plain set difference, exactly.
pub open spec fn spec_unrecognized(headers: Set<Seq<char>>, vocab: Set<Seq<char>>) -> Set<
    Seq<char>,
> {
    headers.difference(vocab)
}

/// A header set matched against itself leaves nothing unrecognized.
pub proof fn lemma_unrecognized_self(h: Set<Seq<char>>)
    ensures
        spec_unrecognized(h, h) == Set::<Seq<char>>::empty(),
{
    assert(spec_unrecognized(h, h) =~= Set::<Seq<char>>::empty());
}

/// An empty header set leaves nothing unrecognized, whatever the
/// vocabulary.
pub proof fn lemma_unrecognized_empty(v: Set<Seq<char>>)
    ensures
        spec_unrecognized(Set::<Seq<char>>::empty(), v) == Set::<Seq<char>>::empty(),
{
    assert(spec_unrecognized(Set::<Seq<char>>::empty(), v) =~= Set::<Seq<char>>::empty());
}

/// Computes the headers the vocabulary does not recognize: exactly the
/// set difference of the observed headers and the vocabulary, as a
/// lexicographically sorted list without duplicates.
pub fn unrecognized_headers(headers: &Vec<String>, vocab: &Vec<String>) -> (out: Vec<String>)
    ensures
        spec_sorted(str_views(out@)),
        str_views(out@).no_duplicates(),
        str_views(out@).to_set() == spec_unrecognized(
            str_views(headers@).to_set(),
            str_views(vocab@).to_set(),
        ),
{
    let ghost hs = str_views(headers@);
    let ghost vset = str_views(vocab@).to_set();
    let mut acc: Vec<String> = Vec::new();
    proof {
        assert(hs.take(0) =~= Seq::<Seq<char>>::empty());
        assert(str_views(acc@).to_set() =~= hs.take(0).to_set().difference(vset));
    }
    let mut i: usize = 0;
    while i < headers.len()
        invariant
            i <= headers@.len(),
            hs == str_views(headers@),
            hs.len() == headers@.len(),
            vset == str_views(vocab@).to_set(),
            str_views(acc@).no_duplicates(),
            str_views(acc@).to_set() == hs.take(i as int).to_set().difference(vset),
        decreases headers@.len() - i,
    {
        let h = &headers[i];
        let ghost hv = h@;
        let ghost pre_acc = acc@;
        let in_vocab = contains_str(vocab, h);
        let mut keep = false;
        if !in_vocab {
            if !contains_str(&acc, h) {
                keep = true;
            }
        }
        if keep {
            acc.push(h.clone());
        }
        proof {
            assert(hv == hs[i as int]);
            assert(hs.take(i + 1) =~= hs.take(i as int).push(hs[i as int]));
            hs.take(i as int).lemma_push_to_set_commute(hs[i as int]);
            if in_vocab {
                assert(vset.contains(hv));
                assert(str_views(acc@).to_set() =~= hs.take(i + 1).to_set().difference(vset));
            } else if !keep {
                assert(str_views(pre_acc).contains(hv));
                assert(str_views(pre_acc).to_set().contains(hv));
                assert(str_views(acc@).to_set() =~= hs.take(i + 1).to_set().difference(vset));
            } else {
                assert(str_views(acc@) =~= str_views(pre_acc).push(hv));
                str_views(pre_acc).lemma_push_to_set_commute(hv);
                assert(str_views(acc@).to_set() =~= hs.take(i + 1).to_set().difference(vset));
                assert(!str_views(pre_acc).contains(hv));
                assert forall|p: int, q: int|
                    0 <= p < q < str_views(acc@).len() implies str_views(acc@)[p] != str_views(
                    acc@,
                )[q] by {
                    if q < str_views(pre_acc).len() {
                        assert(str_views(pre_acc)[p] != str_views(pre_acc)[q]);
                    } else {
                        assert(str_views(acc@)[q] == hv);
                        assert(str_views(pre_acc)[p] != hv);
                    }
                }
            }
        }
        i += 1;
    }
    proof {
        assert(hs.take(headers@.len() as int) =~= hs);
    }
    let ghost acc_views = str_views(acc@);
    let out = sort_strings(acc);
    proof {
        lemma_same_multiset_same_set(acc_views, str_views(out@));
    }
    out
}

/// The outcome of checking one workbook's headers.
#[derive(PartialEq, Eq, Debug)]
pub enum CheckOutcome {
    /// The header row was empty or the sheet had no rows: nothing to
    /// check; the file is skipped with a warning, not counted as a
    /// mismatch.
    EmptyHeaders,
    /// Every observed header is in the vocabulary.
    AllRecognized,
    /// The sorted, duplicate-free headers the vocabulary does not hold.
    Unrecognized(Vec<String>),
}

/// Checks one file's headers against the vocabulary: empty headers are
/// flagged as such, otherwise the set difference decides between
/// "all recognized" and the sorted list of unrecognized headers.
pub fn check_headers(headers: &Vec<String>, vocab: &Vec<String>) -> (r: CheckOutcome)
    ensures
        r is EmptyHeaders <==> headers@.len() == 0,
        r is AllRecognized <==> headers@.len() > 0 && spec_unrecognized(
            str_views(headers@).to_set(),
            str_views(vocab@).to_set(),
        ) == Set::<Seq<char>>::empty(),
        r matches CheckOutcome::Unrecognized(cols) ==> {
            &&& cols@.len() > 0
            &&& spec_sorted(str_views(cols@))
            &&& str_views(cols@).no_duplicates()
            &&& str_views(cols@).to_set() == spec_unrecognized(
                str_views(headers@).to_set(),
                str_views(vocab@).to_set(),
            )
        },
{
    if headers.len() == 0 {
        return CheckOutcome::EmptyHeaders;
    }
    let out = unrecognized_headers(headers, vocab);
    if out.len() == 0 {
        proof {
            assert(str_views(out@).to_set() =~= Set::<Seq<char>>::empty());
        }
        CheckOutcome::AllRecognized
    } else {
        proof {
            assert(str_views(out@).to_set().contains(str_views(out@)[0]));
        }
        CheckOutcome::Unrecognized(out)
    }
}

/// The aggregate of per-file unrecognized-header sets: their union, in
/// file order.
pub open spec fn spec_aggregate(file_sets: Seq<Set<Seq<char>>>) -> Set<Seq<char>>
    decreases file_sets.len(),
{
    if file_sets.len() == 0 {
        Set::<Seq<char>>::empty()
    } else {
        spec_aggregate(file_sets.drop_last()).union(file_sets.last())
    }
}

/// A header is in the aggregate exactly when some file reported it.
pub proof fn lemma_aggregate_membership(file_sets: Seq<Set<Seq<char>>>, x: Seq<char>)
    ensures
        spec_aggregate(file_sets).contains(x) <==> exists|i: int|
            0 <= i < file_sets.len() && (#[trigger] file_sets[i]).contains(x),
    decreases file_sets.len(),
{
    if file_sets.len() == 0 {
    } else {
        let rest = file_sets.drop_last();
        lemma_aggregate_membership(rest, x);
        if spec_aggregate(file_sets).contains(x) {
            if file_sets.last().contains(x) {
                assert(file_sets[file_sets.len() - 1].contains(x));
            } else {
                let i = choose|i: int| 0 <= i < rest.len() && (#[trigger] rest[i]).contains(x);
                assert(file_sets[i].contains(x));
            }
        }
        if exists|i: int| 0 <= i < file_sets.len() && (#[trigger] file_sets[i]).contains(x) {
            let i = choose|i: int|
                0 <= i < file_sets.len() && (#[trigger] file_sets[i]).contains(x);
            if i == file_sets.len() - 1 {
                assert(file_sets.last().contains(x));
            } else {
                assert(rest[i].contains(x));
            }
        }
    }
}

/// Aggregation is order-independent: processing the same files in any
/// order yields the same aggregate set of unrecognized headers.  (One
/// [`CheckReport::record`] call turns the aggregate into its union with
/// the file's set, so a run of calls computes [`spec_aggregate`] of the
/// files' sets.)
pub proof fn lemma_aggregate_reorder(a: Seq<Set<Seq<char>>>, b: Seq<Set<Seq<char>>>)
    requires
        a.to_multiset() == b.to_multiset(),
    ensures
        spec_aggregate(a) == spec_aggregate(b),
{
    broadcast use group_to_multiset_ensures;

    assert forall|x: Seq<char>| spec_aggregate(a).contains(x) == spec_aggregate(b).contains(
        x,
    ) by {
        lemma_aggregate_membership(a, x);
        lemma_aggregate_membership(b, x);
        if exists|i: int| 0 <= i < a.len() && (#[trigger] a[i]).contains(x) {
            let i = choose|i: int| 0 <= i < a.len() && (#[trigger] a[i]).contains(x);
            assert(a.contains(a[i]));
            assert(b.to_multiset().count(a[i]) > 0);
            assert(b.contains(a[i]));
            let j = choose|j: int| 0 <= j < b.len() && b[j] == a[i];
            assert(b[j].contains(x));
        }
        if exists|j: int| 0 <= j < b.len() && (#[trigger] b[j]).contains(x) {
            let j = choose|j: int| 0 <= j < b.len() && (#[trigger] b[j]).contains(x);
            assert(b.contains(b[j]));
            assert(a.to_multiset().count(b[j]) > 0);
            assert(a.contains(b[j]));
            let i = choose|i: int| 0 <= i < a.len() && a[i] == b[j];
            assert(a[i].contains(x));
        }
    }
    assert(spec_aggregate(a) =~= spec_aggregate(b));
}

/// One file's recorded finding: its path and the sorted unrecognized
/// headers it reported.
pub struct FileFinding {
    /// The path of the workbook, as the caller names it.
    pub path: String,
    /// The unrecognized headers of that workbook, sorted.
    pub columns: Vec<String>,
}

/// The mathematical value of one finding.
pub struct FindingV {
    pub path: Seq<char>,
    pub columns: Seq<Seq<char>>,
}

impl View for FileFinding {
    type V = FindingV;

    open spec fn view(&self) -> FindingV {
        FindingV { path: self.path@, columns: str_views(self.columns@) }
    }
}

/// The mathematical values of a sequence of findings.
pub open spec fn findings_view(s: Seq<FileFinding>) -> Seq<FindingV> {
    s.map_values(|f: FileFinding| f@)
}

/// The running result of checking many files: the aggregate set of
/// unrecognized headers — each header counted once however many files
/// report it — and the per-file breakdown for detailed reporting.
pub struct CheckReport {
    /// Every header reported unrecognized by some file, without
    /// duplicates, in first-seen order.
    pub aggregate: Vec<String>,
    /// One entry per file that reported unrecognized headers.
    pub findings: Vec<FileFinding>,
}

impl CheckReport {
    /// The aggregate as a set of character sequences.
    pub open spec fn agg_set(&self) -> Set<Seq<char>> {
        str_views(self.aggregate@).to_set()
    }

    /// The report's invariant: the aggregate list holds no duplicates.
    pub open spec fn wf(&self) -> bool {
        str_views(self.aggregate@).no_duplicates()
    }

    /// An empty report: nothing aggregated, no findings.
    pub fn new() -> (r: CheckReport)
        ensures
            r.wf(),
            r.agg_set() == Set::<Seq<char>>::empty(),
            r.findings@.len() == 0,
    {
        let r = CheckReport { aggregate: Vec::new(), findings: Vec::new() };
        proof {
            assert(r.agg_set() =~= Set::<Seq<char>>::empty());
        }
        r
    }

    /// Records one file's unrecognized headers: the aggregate becomes
    /// its union with the file's set — a header two files report is
    /// counted once — and a file that reported nothing adds no finding.
    pub fn record(&mut self, path: String, columns: Vec<String>)
        requires
            old(self).wf(),
        ensures
            final(self).wf(),
            final(self).agg_set() == old(self).agg_set().union(str_views(columns@).to_set()),
            columns@.len() == 0 ==> findings_view(final(self).findings@) == findings_view(
                old(self).findings@,
            ),
            columns@.len() > 0 ==> findings_view(final(self).findings@) == findings_view(
                old(self).findings@,
            ).push(FindingV { path: path@, columns: str_views(columns@) }),
    {
        let ghost cols = str_views(columns@);
        if columns.len() == 0 {
            proof {
                assert(cols.to_set() =~= Set::<Seq<char>>::empty());
                assert(final(self).agg_set() =~= old(self).agg_set().union(cols.to_set()));
            }
            return ;
        }
        let ghost agg0 = self.agg_set();
        let mut i: usize = 0;
        proof {
            assert(cols.take(0) =~= Seq::<Seq<char>>::empty());
            assert(self.agg_set() =~= agg0.union(cols.take(0).to_set()));
        }
        while i < columns.len()
            invariant
                i <= columns@.len(),
                cols == str_views(columns@),
                cols.len() == columns@.len(),
                self.wf(),
                self.agg_set() == agg0.union(cols.take(i as int).to_set()),
                self.findings@ == old(self).findings@,
            decreases columns@.len() - i,
        {
            let c = &columns[i];
            let ghost cv = c@;
            let ghost pre = self.aggregate@;
            let present = contains_str(&self.aggregate, c);
            if !present {
                let copy = c.clone();
                self.aggregate.push(copy);
            }
            proof {
                assert(cv == cols[i as int]);
                assert(cols.take(i + 1) =~= cols.take(i as int).push(cols[i as int]));
                cols.take(i as int).lemma_push_to_set_commute(cols[i as int]);
                if present {
                    assert(str_views(pre).to_set().contains(cv));
                    assert(self.agg_set() =~= agg0.union(cols.take(i + 1).to_set()));
                } else {
                    assert(str_views(self.aggregate@) =~= str_views(pre).push(cv));
                    str_views(pre).lemma_push_to_set_commute(cv);
                    assert(self.agg_set() =~= agg0.union(cols.take(i + 1).to_set()));
                    assert(!str_views(pre).contains(cv));
                    assert forall|p: int, q: int|
                        0 <= p < q < str_views(self.aggregate@).len() implies str_views(
                        self.aggregate@,
                    )[p] != str_views(self.aggregate@)[q] by {
                        if q < str_views(pre).len() {
                            assert(str_views(pre)[p] != str_views(pre)[q]);
                        } else {
                            assert(str_views(self.aggregate@)[q] == cv);
                            assert(str_views(pre)[p] != cv);
                        }
                    }
                }
            }
            i += 1;
        }
        proof {
            assert(cols.take(columns@.len() as int) =~= cols);
        }
        let ghost pre_findings = self.findings@;
        let ghost fv = FindingV { path: path@, columns: cols };
        let finding = FileFinding { path, columns };
        self.findings.push(finding);
        proof {
            assert(findings_view(self.findings@) =~= findings_view(pre_findings).push(fv));
        }
    }

    /// The aggregate, sorted lexicographically for deterministic output;
    /// it holds exactly the aggregate set, without duplicates.
    pub fn sorted_aggregate(&self) -> (out: Vec<String>)
        requires
            self.wf(),
        ensures
            spec_sorted(str_views(out@)),
            str_views(out@).no_duplicates(),
            str_views(out@).to_set() == self.agg_set(),
    {
        let copy = clone_strings(&self.aggregate);
        let ghost acc_views = str_views(copy@);
        let out = sort_strings(copy);
        proof {
            lemma_same_multiset_same_set(acc_views, str_views(out@));
        }
        out
    }
}

/// Copies a list of strings, character sequences preserved.
pub fn clone_strings(v: &Vec<String>) -> (out: Vec<String>)
    ensures
        str_views(out@) == str_views(v@),
{
    let mut out: Vec<String> = Vec::new();
    proof {
        assert(str_views(out@) =~= str_views(v@).take(0));
    }
    let mut i: usize = 0;
    while i < v.len()
        invariant
            i <= v@.len(),
            str_views(out@) == str_views(v@).take(i as int),
        decreases v@.len() - i,
    {
        let ghost pre = out@;
        let copy = v[i].clone();
        out.push(copy);
        proof {
            assert(str_views(out@) =~= str_views(pre).push(v@[i as int]@));
            assert(str_views(v@).take(i + 1) =~= str_views(v@).take(i as int).push(
                str_views(v@)[i as int],
            ));
        }
        i += 1;
    }
    proof {
        assert(str_views(v@).take(v@.len() as int) =~= str_views(v@));
    }
    out
}

} // verus!

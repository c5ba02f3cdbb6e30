//! What the pop-ups list: the rows of a section that pass its filter, the
//! results of a search over every entry, and the commands of the palette
//! that match its query.
use vstd::prelude::*;

use crate::diff_model::DiffKind;
use crate::search::{CompiledSearch, search_matches};
use crate::session::{HaystackEntry, string_views};
use crate::state::{DiffFilter, PaletteCommand, SearchResult, Section};

verus! {

/// Whether a section's list shows an entry of `kind`: it passes the filter,
/// and it is not hidden as an order-only change.
pub open spec fn shows_entry(kind: DiffKind, order_only: bool, filter: DiffFilter, ignore_order: bool) -> bool {
    !(ignore_order && order_only) && filter.spec_matches(kind)
}

/// The positions of the entries a section's list shows, in entry order.
pub open spec fn visible_positions(
    entries: Seq<(DiffKind, bool)>,
    filter: DiffFilter,
    ignore_order: bool,
) -> Seq<usize>
    decreases entries.len(),
{
    if entries.len() == 0 {
        Seq::empty()
    } else {
        let before = visible_positions(entries.drop_last(), filter, ignore_order);
        let (kind, order_only) = entries.last();
        if shows_entry(kind, order_only, filter, ignore_order) {
            before.push((entries.len() - 1) as usize)
        } else {
            before
        }
    }
}

/// The entries a section's list shows under `filter`, as positions into
/// `entries`, each given as its kind and whether its only change is
/// coefficient order. Entries stay in report (name) order.
pub fn visible_indices(entries: &Vec<(DiffKind, bool)>, filter: DiffFilter, ignore_order: bool) -> (res: Vec<usize>)
    ensures
        res@ == visible_positions(entries@, filter, ignore_order),
{
    let mut shown: Vec<usize> = Vec::new();
    let mut i: usize = 0;
    while i < entries.len()
        invariant
            i <= entries@.len(),
            shown@ == visible_positions(entries@.take(i as int), filter, ignore_order),
        decreases entries@.len() - i,
    {
        let (kind, order_only) = entries[i];
        proof {
            assert(entries@.take(i + 1).drop_last() =~= entries@.take(i as int));
            assert(entries@.take(i + 1).last() == entries@[i as int]);
        }
        if !(ignore_order && order_only) && filter.matches(kind) {
            shown.push(i);
        }
        i = i + 1;
    }
    assert(entries@.take(i as int) =~= entries@);
    shown
}

/// Every row a list shows is an entry of the section that passes the filter,
/// listed once and in order.
pub proof fn lemma_visible_rows_pass_the_filter(
    entries: Seq<(DiffKind, bool)>,
    filter: DiffFilter,
    ignore_order: bool,
)
    requires
        entries.len() <= usize::MAX,
    ensures
        forall|k: int|
            0 <= k < visible_positions(entries, filter, ignore_order).len() ==> {
                let i = #[trigger] visible_positions(entries, filter, ignore_order)[k];
                &&& i < entries.len()
                &&& shows_entry(entries[i as int].0, entries[i as int].1, filter, ignore_order)
            },
        forall|a: int, b: int|
            0 <= a < b < visible_positions(entries, filter, ignore_order).len() ==> visible_positions(
                entries,
                filter,
                ignore_order,
            )[a] < visible_positions(entries, filter, ignore_order)[b],
    decreases entries.len(),
{
    if entries.len() > 0 {
        let rest = entries.drop_last();
        lemma_visible_rows_pass_the_filter(rest, filter, ignore_order);
        let before = visible_positions(rest, filter, ignore_order);
        let whole = visible_positions(entries, filter, ignore_order);
        let last = (entries.len() - 1) as usize;
        assert(whole == before.push(last) || whole == before);
        assert forall|k: int| 0 <= k < whole.len() implies {
            let i = #[trigger] whole[k];
            &&& i < entries.len()
            &&& shows_entry(entries[i as int].0, entries[i as int].1, filter, ignore_order)
        } by {
            if k < before.len() {
                assert(whole[k] == before[k]);
                assert(before[k] < rest.len());
                assert(entries[before[k] as int] == rest[before[k] as int]);
            }
        }
        assert forall|a: int, b: int| 0 <= a < b < whole.len() implies whole[a] < whole[b] by {
            assert(whole[a] == before[a]);
            if b < before.len() {
                assert(whole[b] == before[b]);
            } else {
                assert(before[a] < rest.len());
            }
        }
    }
}

/// The search result for haystack entry `index`, unscored.
pub open spec fn plain_result(entry: HaystackEntry, index: int) -> (Section, usize, u16, Seq<usize>, usize, DiffKind) {
    (entry.section, entry.index, 0u16, Seq::empty(), index as usize, entry.kind)
}

/// A search result as plain values.
pub open spec fn result_view(result: SearchResult) -> (Section, usize, u16, Seq<usize>, usize, DiffKind) {
    (result.section, result.entry_index, result.score, result.match_indices@, result.haystack_index, result.kind)
}

/// The views of a list of results.
pub open spec fn results_view(results: Seq<SearchResult>) -> Seq<(Section, usize, u16, Seq<usize>, usize, DiffKind)> {
    results.map_values(|result: SearchResult| result_view(result))
}

/// The results a non-fuzzy search gives: every haystack entry whose text
/// matches the search, in haystack order, unscored.
pub open spec fn filtered_results(
    haystack: Seq<HaystackEntry>,
    texts: Seq<Seq<char>>,
    search: CompiledSearch,
) -> Seq<(Section, usize, u16, Seq<usize>, usize, DiffKind)>
    decreases haystack.len(),
{
    if haystack.len() == 0 {
        Seq::empty()
    } else {
        let n = haystack.len() - 1;
        let before = filtered_results(haystack.drop_last(), texts, search);
        if search_matches(search, texts[n]) {
            before.push(plain_result(haystack[n], n))
        } else {
            before
        }
    }
}

/// A non-fuzzy search returns exactly the haystack entries whose text it
/// matches, each once, in haystack order: every result names a matching
/// entry and carries that entry's section, index and kind, unscored; and
/// every matching entry is among the results.
pub proof fn lemma_search_returns_exactly_the_matches(
    haystack: Seq<HaystackEntry>,
    texts: Seq<Seq<char>>,
    search: CompiledSearch,
)
    requires
        texts.len() == haystack.len(),
        haystack.len() <= usize::MAX,
    ensures
        forall|k: int|
            0 <= k < filtered_results(haystack, texts, search).len() ==> {
                let i = (#[trigger] filtered_results(haystack, texts, search)[k]).4 as int;
                &&& 0 <= i < haystack.len()
                &&& search_matches(search, texts[i])
                &&& filtered_results(haystack, texts, search)[k] == (
                    haystack[i].section,
                    haystack[i].index,
                    0u16,
                    Seq::<usize>::empty(),
                    i as usize,
                    haystack[i].kind,
                )
            },
        forall|i: int|
            0 <= i < haystack.len() && search_matches(search, #[trigger] texts[i]) ==> exists|k: int|
                0 <= k < filtered_results(haystack, texts, search).len() && filtered_results(haystack, texts, search)[k].4
                    == i,
        forall|k1: int, k2: int|
            0 <= k1 < k2 < filtered_results(haystack, texts, search).len() ==> (#[trigger] filtered_results(
                haystack,
                texts,
                search,
            )[k1]).4 < (#[trigger] filtered_results(haystack, texts, search)[k2]).4,
    decreases haystack.len(),
{
    lemma_filtered_prefix(haystack, texts, search, haystack.len() as int);
    assert(haystack.take(haystack.len() as int) =~= haystack);
}

proof fn lemma_filtered_prefix(haystack: Seq<HaystackEntry>, texts: Seq<Seq<char>>, search: CompiledSearch, n: int)
    requires
        texts.len() == haystack.len(),
        haystack.len() <= usize::MAX,
        0 <= n <= haystack.len(),
    ensures
        ({
            let r = filtered_results(haystack.take(n), texts, search);
            &&& forall|k: int|
                0 <= k < r.len() ==> {
                    let i = (#[trigger] r[k]).4 as int;
                    &&& 0 <= i < n
                    &&& search_matches(search, texts[i])
                    &&& r[k] == (
                        haystack[i].section,
                        haystack[i].index,
                        0u16,
                        Seq::<usize>::empty(),
                        i as usize,
                        haystack[i].kind,
                    )
                }
            &&& forall|i: int|
                0 <= i < n && search_matches(search, #[trigger] texts[i]) ==> exists|k: int|
                    0 <= k < r.len() && r[k].4 == i
            &&& forall|k1: int, k2: int| 0 <= k1 < k2 < r.len() ==> (#[trigger] r[k1]).4 < (#[trigger] r[k2]).4
        }),
    decreases n,
{
    if n > 0 {
        lemma_filtered_prefix(haystack, texts, search, n - 1);
        let prefix = haystack.take(n);
        assert(prefix.drop_last() =~= haystack.take(n - 1));
        assert(prefix[n - 1] == haystack[n - 1]);
        let before = filtered_results(haystack.take(n - 1), texts, search);
        let r = filtered_results(prefix, texts, search);
        if search_matches(search, texts[n - 1]) {
            assert(r == before.push(plain_result(haystack[n - 1], n - 1)));
            assert(r[before.len() as int].4 == n - 1);
            assert forall|i: int| 0 <= i < n && search_matches(search, #[trigger] texts[i]) implies exists|k: int|
                0 <= k < r.len() && r[k].4 == i by {
                if i < n - 1 {
                    let k = choose|k: int| 0 <= k < before.len() && before[k].4 == i;
                    assert(r[k] == before[k]);
                } else {
                    assert(r[before.len() as int].4 == i);
                }
            }
            assert forall|k1: int, k2: int| 0 <= k1 < k2 < r.len() implies (#[trigger] r[k1]).4 < (#[trigger] r[k2]).4 by {
                assert(r[k1] == before[k1]);
                if k2 < before.len() {
                    assert(r[k2] == before[k2]);
                }
            }
            assert forall|k: int| 0 <= k < r.len() implies {
                let i = (#[trigger] r[k]).4 as int;
                &&& 0 <= i < n
                &&& search_matches(search, texts[i])
                &&& r[k] == (
                    haystack[i].section,
                    haystack[i].index,
                    0u16,
                    Seq::<usize>::empty(),
                    i as usize,
                    haystack[i].kind,
                )
            } by {
                if k < before.len() {
                    assert(r[k] == before[k]);
                }
            }
        } else {
            assert(r == before);
        }
    } else {
        assert(haystack.take(0) =~= Seq::<HaystackEntry>::empty());
    }
}

/// The results of an empty query: every haystack entry, in order.
pub fn all_results(haystack: &Vec<HaystackEntry>) -> (res: Vec<SearchResult>)
    ensures
        results_view(res@) == Seq::new(haystack@.len(), |i: int| plain_result(haystack@[i], i)),
{
    let mut results: Vec<SearchResult> = Vec::new();
    let mut i: usize = 0;
    while i < haystack.len()
        invariant
            i <= haystack@.len(),
            results_view(results@) == Seq::new(i as nat, |k: int| plain_result(haystack@[k], k)),
        decreases haystack@.len() - i,
    {
        let entry = haystack[i];
        let ghost before = results@;
        results.push(
            SearchResult {
                section: entry.section,
                entry_index: entry.index,
                score: 0,
                match_indices: Vec::new(),
                haystack_index: i,
                kind: entry.kind,
            },
        );
        assert(results_view(results@) =~= results_view(before).push(plain_result(haystack@[i as int], i as int)));
        i = i + 1;
        assert(results_view(results@) =~= Seq::new(i as nat, |k: int| plain_result(haystack@[k], k)));
    }
    results
}

/// The results of a regex, substring or content search: the haystack
/// entries whose text (`texts[i]` for entry `i`) matches, in haystack order.
pub fn search_results(haystack: &Vec<HaystackEntry>, texts: &Vec<String>, search: &CompiledSearch) -> (res: Vec<
    SearchResult,
>)
    requires
        texts@.len() == haystack@.len(),
    ensures
        results_view(res@) == filtered_results(haystack@, string_views(texts@), *search),
{
    let mut results: Vec<SearchResult> = Vec::new();
    let mut i: usize = 0;
    while i < haystack.len()
        invariant
            i <= haystack@.len(),
            texts@.len() == haystack@.len(),
            results_view(results@) == filtered_results(haystack@.take(i as int), string_views(texts@), *search),
        decreases haystack@.len() - i,
    {
        proof {
            assert(haystack@.take(i + 1).drop_last() =~= haystack@.take(i as int));
            assert(string_views(texts@)[i as int] == texts@[i as int]@);
        }
        let entry = haystack[i];
        if search.matches(texts[i].as_str()) {
            let ghost before = results@;
            results.push(
                SearchResult {
                    section: entry.section,
                    entry_index: entry.index,
                    score: 0,
                    match_indices: Vec::new(),
                    haystack_index: i,
                    kind: entry.kind,
                },
            );
            assert(results_view(results@) =~= results_view(before).push(plain_result(haystack@[i as int], i as int)));
        }
        i = i + 1;
    }
    assert(haystack@.take(i as int) =~= haystack@);
    results
}

/// One match the fuzzy matcher reports: its score, the index of the matched
/// text in the list it was given, and the character positions that matched.
#[derive(Debug, Clone)]
pub struct FuzzyHit {
    pub score: u16,
    pub index: u32,
    pub positions: Vec<u32>,
}

/// A fuzzy hit as plain values.
pub open spec fn hit_view(hit: FuzzyHit) -> (u16, u32, Seq<u32>) {
    (hit.score, hit.index, hit.positions@)
}

/// The ranked matches the `frizbee` matcher, with its default configuration
/// (best score first, then list order), reports for `query` over `texts`.
pub uninterp spec fn fuzzy_ranking(query: Seq<char>, texts: Seq<Seq<char>>) -> Seq<(u16, u32, Seq<u32>)>;

#[verifier::external_type_specification]
#[verifier::external_body]
pub struct ExMatcher(frizbee::Matcher);

/// A fuzzy matcher built for one query, kept together with that query. Its
/// fields are private and it is only built by [`FuzzyMatcher::new`], so
/// `matcher` always matches `query`.
pub struct FuzzyMatcher {
    query: String,
    matcher: frizbee::Matcher,
}

impl FuzzyMatcher {
    /// The query the matcher was built for.
    pub closed spec fn query(&self) -> Seq<char> {
        self.query@
    }

    /// Build a matcher for `query` with the crate's default configuration.
    ///
    /// Wraps `frizbee::Matcher::new`; the contract says the matcher is kept
    /// with its query.
    #[verifier::external_body]
    fn new(query: &str) -> (res: FuzzyMatcher)
        ensures
            res.query() == query@,
    {
        FuzzyMatcher { query: query.to_string(), matcher: frizbee::Matcher::new(query, &frizbee::Config::default()) }
    }

    /// Rank `texts` against the query.
    ///
    /// Wraps `Matcher::match_list_indices`, which panics on more than
    /// `u32::MAX` texts. The contract names the ranking, and states what the
    /// crate documents of each match: its index is that of a text in the
    /// list given.
    #[verifier::external_body]
    fn match_list(&mut self, texts: &Vec<String>) -> (res: Vec<FuzzyHit>)
        requires
            texts@.len() <= u32::MAX,
        ensures
            final(self).query() == old(self).query(),
            res@.map_values(|hit: FuzzyHit| hit_view(hit)) == fuzzy_ranking(old(self).query(), string_views(texts@)),
            forall|k: int| 0 <= k < res@.len() ==> (#[trigger] res@[k]).index < texts@.len(),
    {
        self.matcher.match_list_indices(texts).into_iter().map(
            |matched| FuzzyHit { score: matched.score, index: matched.index, positions: matched.indices },
        ).collect()
    }
}

/// Rank `texts` against a fuzzy `query`: the crate's ranking, each match
/// naming a text of the list.
fn fuzzy_match(query: &str, texts: &Vec<String>) -> (res: Vec<FuzzyHit>)
    requires
        texts@.len() <= u32::MAX,
    ensures
        res@.map_values(|hit: FuzzyHit| hit_view(hit)) == fuzzy_ranking(query@, string_views(texts@)),
        forall|k: int| 0 <= k < res@.len() ==> (#[trigger] res@[k]).index < texts@.len(),
{
    let mut matcher = FuzzyMatcher::new(query);
    matcher.match_list(texts)
}

/// Whether a sequence never decreases.
pub open spec fn ascending(s: Seq<usize>) -> bool {
    forall|a: int, b: int| 0 <= a < b < s.len() ==> s[a] <= s[b]
}

/// The positions of a hit widened to `usize`.
pub open spec fn widened(positions: Seq<u32>) -> Seq<usize> {
    positions.map_values(|p: u32| p as usize)
}

fn insert_sorted(sorted: &mut Vec<usize>, value: usize)
    requires
        ascending(old(sorted)@),
    ensures
        ascending(final(sorted)@),
        final(sorted)@.to_multiset() == old(sorted)@.to_multiset().insert(value),
{
    let mut k: usize = sorted.len();
    while k > 0 && sorted[k - 1] > value
        invariant
            k <= sorted@.len(),
            sorted@ == old(sorted)@,
            ascending(sorted@),
            forall|m: int| k <= m < sorted@.len() ==> sorted@[m] > value,
        decreases k,
    {
        k = k - 1;
    }
    let ghost before = sorted@;
    sorted.insert(k, value);
    proof {
        assert(sorted@ =~= before.subrange(0, k as int).push(value) + before.subrange(k as int, before.len() as int));
        assert forall|a: int, b: int| 0 <= a < b < sorted@.len() implies sorted@[a] <= sorted@[b] by {
            if a < k && b == k {
                assert(before[a] <= before[k - 1]);
            }
        }
        vstd::seq_lib::lemma_seq_union_to_multiset_commutative(before.subrange(0, k as int), before.subrange(k as int, before.len() as int));
        assert(before =~= before.subrange(0, k as int) + before.subrange(k as int, before.len() as int));
        vstd::seq_lib::lemma_multiset_commutative(before.subrange(0, k as int), before.subrange(k as int, before.len() as int));
        vstd::seq_lib::lemma_multiset_commutative(
            before.subrange(0, k as int).push(value),
            before.subrange(k as int, before.len() as int),
        );
        assert(before.subrange(0, k as int).push(value).to_multiset() =~= before.subrange(0, k as int).to_multiset().insert(value)) by {
            broadcast use vstd::seq_lib::group_to_multiset_ensures;
        }
    }
}

/// The matched positions of a hit in ascending order: the same positions,
/// each as often as the matcher reported it.
pub fn sorted_positions(positions: &Vec<u32>) -> (res: Vec<usize>)
    ensures
        ascending(res@),
        res@.to_multiset() == widened(positions@).to_multiset(),
{
    let mut sorted: Vec<usize> = Vec::new();
    let mut i: usize = 0;
    assert(sorted@ =~= widened(positions@.take(0)));
    while i < positions.len()
        invariant
            i <= positions@.len(),
            ascending(sorted@),
            sorted@.to_multiset() == widened(positions@.take(i as int)).to_multiset(),
        decreases positions@.len() - i,
    {
        let value = positions[i] as usize;
        insert_sorted(&mut sorted, value);
        proof {
            assert(widened(positions@.take(i + 1)) =~= widened(positions@.take(i as int)).push(value));
            broadcast use vstd::seq_lib::group_to_multiset_ensures;
        }
        i = i + 1;
    }
    assert(positions@.take(i as int) =~= positions@);
    sorted
}

/// The results of a fuzzy search: one per hit, in the matcher's rank order,
/// carrying the hit's score and its matched positions in ascending order.
pub open spec fn fuzzy_result_matches(result: SearchResult, hit: FuzzyHit, haystack: Seq<HaystackEntry>) -> bool {
    let entry = haystack[hit.index as int];
    &&& result.section == entry.section
    &&& result.entry_index == entry.index
    &&& result.score == hit.score
    &&& result.haystack_index == hit.index as usize
    &&& result.kind == entry.kind
    &&& ascending(result.match_indices@)
    &&& result.match_indices@.to_multiset() == widened(hit.positions@).to_multiset()
}

/// Turn the matcher's hits into search results over the haystack.
pub fn fuzzy_results(haystack: &Vec<HaystackEntry>, hits: &Vec<FuzzyHit>) -> (res: Vec<SearchResult>)
    requires
        forall|k: int| 0 <= k < hits@.len() ==> (#[trigger] hits@[k]).index < haystack@.len(),
    ensures
        res@.len() == hits@.len(),
        forall|k: int| 0 <= k < res@.len() ==> fuzzy_result_matches(#[trigger] res@[k], hits@[k], haystack@),
{
    let mut results: Vec<SearchResult> = Vec::new();
    let mut i: usize = 0;
    while i < hits.len()
        invariant
            i <= hits@.len(),
            results@.len() == i,
            forall|k: int| 0 <= k < hits@.len() ==> (#[trigger] hits@[k]).index < haystack@.len(),
            forall|k: int| 0 <= k < i ==> fuzzy_result_matches(#[trigger] results@[k], hits@[k], haystack@),
        decreases hits@.len() - i,
    {
        let hit = &hits[i];
        let entry = haystack[hit.index as usize];
        let match_indices = sorted_positions(&hit.positions);
        results.push(
            SearchResult {
                section: entry.section,
                entry_index: entry.index,
                score: hit.score,
                match_indices,
                haystack_index: hit.index as usize,
                kind: entry.kind,
            },
        );
        i = i + 1;
    }
    results
}

/// Search the haystack's names for a fuzzy query, best matches first.
pub fn fuzzy_search(query: &str, haystack: &Vec<HaystackEntry>, names: &Vec<String>) -> (res: Vec<SearchResult>)
    requires
        names@.len() == haystack@.len(),
        names@.len() <= u32::MAX,
    ensures
        res@.len() == fuzzy_ranking(query@, string_views(names@)).len(),
        forall|k: int|
            0 <= k < res@.len() ==> {
                let (score, index, positions) = fuzzy_ranking(query@, string_views(names@))[k];
                let entry = haystack@[index as int];
                &&& (#[trigger] res@[k]).section == entry.section
                &&& res@[k].entry_index == entry.index
                &&& res@[k].score == score
                &&& res@[k].haystack_index == index as usize
                &&& res@[k].kind == entry.kind
                &&& ascending(res@[k].match_indices@)
                &&& res@[k].match_indices@.to_multiset() == widened(positions).to_multiset()
            },
{
    let hits = fuzzy_match(query, names);
    let res = fuzzy_results(haystack, &hits);
    proof {
        assert forall|k: int| 0 <= k < res@.len() implies hit_view(hits@[k]) == fuzzy_ranking(
            query@,
            string_views(names@),
        )[k] by {
            assert(hits@.map_values(|hit: FuzzyHit| hit_view(hit))[k] == hit_view(hits@[k]));
        }
    }
    res
}

/// The palette's rows for a query: with no query every command offered in
/// this mode, in palette order; otherwise the commands whose labels the
/// fuzzy matcher ranks for the query, in rank order, less those not offered.
pub open spec fn palette_rows(query: Seq<char>, inspect: bool) -> Seq<usize> {
    if query.len() == 0 {
        offered_from(Seq::new(crate::state::PALETTE_COMMAND_COUNT as nat, |i: int| i as usize), inspect)
    } else {
        offered_from(
            fuzzy_ranking(query, palette_labels()).map_values(|hit: (u16, u32, Seq<u32>)| hit.1 as usize),
            inspect,
        )
    }
}

/// The labels of the palette's commands, in palette order.
pub open spec fn palette_labels() -> Seq<Seq<char>> {
    Seq::new(crate::state::PALETTE_COMMAND_COUNT as nat, |i: int| PaletteCommand::spec_at(i as nat).spec_label())
}

/// Whether the command at palette position `index` is offered.
pub open spec fn offered(index: usize, inspect: bool) -> bool {
    !inspect || !PaletteCommand::spec_at(index as nat).spec_diff_only()
}

/// The positions among `candidates` whose commands are offered, in order.
pub open spec fn offered_from(candidates: Seq<usize>, inspect: bool) -> Seq<usize>
    decreases candidates.len(),
{
    if candidates.len() == 0 {
        Seq::empty()
    } else {
        let before = offered_from(candidates.drop_last(), inspect);
        if offered(candidates.last(), inspect) {
            before.push(candidates.last())
        } else {
            before
        }
    }
}

fn keep_offered(candidates: &Vec<usize>, inspect: bool) -> (res: Vec<usize>)
    requires
        forall|k: int| 0 <= k < candidates@.len() ==> (#[trigger] candidates@[k]) < crate::state::PALETTE_COMMAND_COUNT,
    ensures
        res@ == offered_from(candidates@, inspect),
{
    let mut kept: Vec<usize> = Vec::new();
    let mut i: usize = 0;
    while i < candidates.len()
        invariant
            i <= candidates@.len(),
            forall|k: int| 0 <= k < candidates@.len() ==> (#[trigger] candidates@[k]) < crate::state::PALETTE_COMMAND_COUNT,
            kept@ == offered_from(candidates@.take(i as int), inspect),
        decreases candidates@.len() - i,
    {
        proof {
            assert(candidates@.take(i + 1).drop_last() =~= candidates@.take(i as int));
            assert(candidates@.take(i + 1).last() == candidates@[i as int]);
        }
        let index = candidates[i];
        let command = PaletteCommand::at(index);
        if !inspect || command.available_in_inspect() {
            kept.push(index);
        }
        i = i + 1;
    }
    assert(candidates@.take(i as int) =~= candidates@);
    kept
}

/// The palette rows (command positions) that match `query`, in rank order,
/// without the commands inspect mode does not offer.
pub fn palette_filter(query: &str, inspect: bool) -> (res: Vec<usize>)
    ensures
        res@ == palette_rows(query@, inspect),
{
    let count = crate::state::PALETTE_COMMAND_COUNT;
    let mut candidates: Vec<usize> = Vec::new();
    if vstd::string::StrSliceExecFns::unicode_len(query) == 0 {
        let mut i: usize = 0;
        while i < count
            invariant
                i <= count,
                count == crate::state::PALETTE_COMMAND_COUNT,
                candidates@ == Seq::new(i as nat, |k: int| k as usize),
            decreases count - i,
        {
            candidates.push(i);
            i = i + 1;
            assert(candidates@ =~= Seq::new(i as nat, |k: int| k as usize));
        }
        return keep_offered(&candidates, inspect);
    }
    let mut labels: Vec<String> = Vec::new();
    let mut i: usize = 0;
    while i < count
        invariant
            i <= count,
            count == crate::state::PALETTE_COMMAND_COUNT,
            string_views(labels@) == Seq::new(i as nat, |k: int| PaletteCommand::spec_at(k as nat).spec_label()),
        decreases count - i,
    {
        let label = PaletteCommand::at(i).label();
        let ghost before = labels@;
        labels.push(label.to_string());
        assert(string_views(labels@) =~= string_views(before).push(label@));
        i = i + 1;
        assert(string_views(labels@) =~= Seq::new(i as nat, |k: int| PaletteCommand::spec_at(k as nat).spec_label()));
    }
    let hits = fuzzy_match(query, &labels);
    let mut ranked: Vec<usize> = Vec::new();
    let mut k: usize = 0;
    while k < hits.len()
        invariant
            k <= hits@.len(),
            labels@.len() == crate::state::PALETTE_COMMAND_COUNT,
            forall|m: int| 0 <= m < hits@.len() ==> (#[trigger] hits@[m]).index < labels@.len(),
            ranked@ == hits@.take(k as int).map_values(|hit: FuzzyHit| hit.index as usize),
        decreases hits@.len() - k,
    {
        ranked.push(hits[k].index as usize);
        k = k + 1;
        assert(ranked@ =~= hits@.take(k as int).map_values(|hit: FuzzyHit| hit.index as usize));
    }
    proof {
        assert(hits@.take(k as int) =~= hits@);
        assert(ranked@ =~= fuzzy_ranking(query@, palette_labels()).map_values(
            |hit: (u16, u32, Seq<u32>)| hit.1 as usize,
        )) by {
            assert(string_views(labels@) =~= palette_labels());
            assert forall|m: int| 0 <= m < ranked@.len() implies ranked@[m] == fuzzy_ranking(
                query@,
                palette_labels(),
            )[m].1 as usize by {
                assert(hits@.map_values(|hit: FuzzyHit| hit_view(hit))[m] == hit_view(hits@[m]));
            }
        }
    }
    keep_offered(&ranked, inspect)
}

} // verus!

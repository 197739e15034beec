//! The parts of long-term memory that decide rather than store: how retrieved
//! relations become the context handed to the model, and the word-overlap
//! measure used when a node has no usable embedding.
use crate::text::{contains, lowercase_of, seq_contains, split_whitespace, to_lowercase, words, occurs_at};
use vstd::prelude::*;

verus! {

broadcast use vstd::seq_lib::group_seq_properties;

/// A relation of the knowledge graph: source concept, relation, target concept.
pub type Relation = (String, String, String);

/// A relation as one line of context: `"- a -> r -> b\n"`.
pub open spec fn relation_entry(r: (Seq<char>, Seq<char>, Seq<char>)) -> Seq<char> {
    "- "@ + r.0 + " -> "@ + r.1 + " -> "@ + r.2 + "\n"@
}

/// The lines of the relations, in order, each added unless the text gathered
/// so far already contains it.
pub open spec fn gathered(rows: Seq<(Seq<char>, Seq<char>, Seq<char>)>) -> Seq<char>
    decreases rows.len(),
{
    if rows.len() == 0 {
        seq![]
    } else {
        let acc = gathered(rows.drop_last());
        let e = relation_entry(rows.last());
        if seq_contains(acc, e) {
            acc
        } else {
            acc + e
        }
    }
}

/// The notice given when memory holds nothing about the concept.
pub open spec fn no_memory_notice() -> Seq<char> {
    "No hay recuerdos previos estructurados sobre este concepto."@
}

/// The context answered to a query: the gathered relations under a heading,
/// or the notice when there are none.
pub open spec fn context_text(rows: Seq<(Seq<char>, Seq<char>, Seq<char>)>) -> Seq<char> {
    if gathered(rows).len() == 0 {
        no_memory_notice()
    } else {
        "Sabes que (cadena de conocimiento):\n"@ + gathered(rows)
    }
}

fn relation_line(r: &Relation) -> (e: String)
    ensures
        e@ == relation_entry(r.deep_view()),
{
    let mut e = "- ".to_string();
    e.append(r.0.as_str());
    e.append(" -> ");
    e.append(r.1.as_str());
    e.append(" -> ");
    e.append(r.2.as_str());
    e.append("\n");
    e
}

/// Builds the context for the model from the relations retrieved around the
/// most relevant nodes (in retrieval order), leaving out lines already present.
pub fn assemble_context(rows: &Vec<Relation>) -> (r: String)
    ensures
        r@ == context_text(rows.deep_view()),
{
    let ghost rv = rows.deep_view();
    let mut acc = String::new();
    let n = rows.len();
    let mut i: usize = 0;
    while i < n
        invariant
            i <= n == rows@.len(),
            rv == rows.deep_view(),
            acc@ == gathered(rv.take(i as int)),
        decreases n - i,
    {
        assert(rv.take(i + 1).drop_last() == rv.take(i as int));
        assert(rv.take(i + 1).last() == rv[i as int]);
        let entry = relation_line(&rows[i]);
        if !contains(acc.as_str(), entry.as_str()) {
            acc.append(entry.as_str());
        }
        i += 1;
    }
    assert(rv.take(n as int) == rv);
    if acc.as_str().is_empty() {
        "No hay recuerdos previos estructurados sobre este concepto.".to_string()
    } else {
        let mut out = "Sabes que (cadena de conocimiento):\n".to_string();
        out.append(acc.as_str());
        out
    }
}

/// Text that occurs in `s` still occurs once more text is appended.
proof fn lemma_contains_append(s: Seq<char>, t: Seq<char>, e: Seq<char>)
    requires
        seq_contains(s, e),
    ensures
        seq_contains(s + t, e),
{
    let i = choose|i: int| occurs_at(s, e, i);
    assert((s + t).subrange(i, i + e.len()) =~= s.subrange(i, i + e.len()));
    assert(occurs_at(s + t, e, i));
}

/// A relation whose line is already in the gathered context adds nothing:
/// retrieving it once more leaves the context as it was.
pub proof fn lemma_repeated_relation_adds_nothing(
    rows: Seq<(Seq<char>, Seq<char>, Seq<char>)>,
    r: (Seq<char>, Seq<char>, Seq<char>),
)
    requires
        seq_contains(gathered(rows), "- "@ + r.0 + " -> "@ + r.1 + " -> "@ + r.2 + "\n"@),
    ensures
        gathered(rows.push(r)) == gathered(rows),
{
    assert(rows.push(r).drop_last() == rows);
}

/// A relation whose line is new is appended at the end of the context.
pub proof fn lemma_new_relation_is_appended(
    rows: Seq<(Seq<char>, Seq<char>, Seq<char>)>,
    r: (Seq<char>, Seq<char>, Seq<char>),
)
    requires
        !seq_contains(gathered(rows), "- "@ + r.0 + " -> "@ + r.1 + " -> "@ + r.2 + "\n"@),
    ensures
        gathered(rows.push(r)) == gathered(rows) + ("- "@ + r.0 + " -> "@ + r.1 + " -> "@ + r.2
            + "\n"@),
{
    assert(rows.push(r).drop_last() == rows);
}

/// Every retrieved relation is in the gathered context: a line is only left
/// out when the text already holds it.
pub proof fn lemma_context_covers_relations(rows: Seq<(Seq<char>, Seq<char>, Seq<char>)>, k: int)
    requires
        0 <= k < rows.len(),
    ensures
        seq_contains(gathered(rows), relation_entry(rows[k])),
    decreases rows.len(),
{
    let acc = gathered(rows.drop_last());
    let e = relation_entry(rows.last());
    if k < rows.len() - 1 {
        lemma_context_covers_relations(rows.drop_last(), k);
        assert(rows.drop_last()[k] == rows[k]);
        if !seq_contains(acc, e) {
            lemma_contains_append(acc, e, relation_entry(rows[k]));
        }
    } else {
        if !seq_contains(acc, e) {
            assert((acc + e).subrange(acc.len() as int, (acc.len() + e.len()) as int) =~= e);
            assert(occurs_at(acc + e, e, acc.len() as int));
        }
    }
}

/// With at least one relation retrieved, the context is never the notice of
/// an empty memory: it is the heading followed by the relations.
pub proof fn lemma_context_nonempty_with_relations(rows: Seq<(Seq<char>, Seq<char>, Seq<char>)>)
    requires
        rows.len() > 0,
    ensures
        gathered(rows).len() > 0,
        context_text(rows) == "Sabes que (cadena de conocimiento):\n"@ + gathered(rows),
{
    lemma_context_covers_relations(rows, 0);
    let e = relation_entry(rows[0]);
    let i = choose|i: int| occurs_at(gathered(rows), e, i);
    assert(e.len() > 0) by {
        assert(e == "- "@ + rows[0].0 + " -> "@ + rows[0].1 + " -> "@ + rows[0].2 + "\n"@);
        reveal_strlit("\n");
    }
}

// ---------------------------------------------------------------------------
// Word overlap (Jaccard) between a query and a stored concept
// ---------------------------------------------------------------------------

/// The lowercased words of a query.
pub open spec fn query_keywords_spec(query: Seq<char>) -> Seq<Seq<char>> {
    words(query).map_values(|w: Seq<char>| lowercase_of(w))
}

/// The words of a query, each lowercased: the keywords matched against
/// stored concepts.
pub fn query_keywords(query: &str) -> (r: Vec<String>)
    ensures
        r.deep_view() == query_keywords_spec(query@),
{
    let ws = split_whitespace(query);
    let ghost wv = ws.deep_view();
    let mut out: Vec<String> = Vec::new();
    let n = ws.len();
    let mut i: usize = 0;
    while i < n
        invariant
            i <= n == ws@.len(),
            wv == ws.deep_view(),
            wv == words(query@),
            out.deep_view().len() == i,
            forall|k: int| 0 <= k < i ==> #[trigger] out.deep_view()[k] == lowercase_of(wv[k]),
        decreases n - i,
    {
        let l = to_lowercase(ws[i].as_str());
        let ghost before = out.deep_view();
        out.push(l);
        assert(out.deep_view() =~= before.push(lowercase_of(wv[i as int])));
        i += 1;
    }
    assert(out.deep_view() =~= query_keywords_spec(query@));
    out
}

fn vec_contains(v: &Vec<String>, x: &String) -> (r: bool)
    ensures
        r == v.deep_view().contains(x@),
{
    let n = v.len();
    let mut i: usize = 0;
    while i < n
        invariant
            i <= n == v@.len(),
            forall|k: int| 0 <= k < i ==> v.deep_view()[k] != x@,
        decreases n - i,
    {
        if v[i] == *x {
            assert(v.deep_view()[i as int] == x@);
            return true;
        }
        i += 1;
    }
    false
}

/// The distinct strings of `v`, in order of first occurrence.
fn distinct(v: &Vec<String>) -> (r: Vec<String>)
    ensures
        r.deep_view().no_duplicates(),
        r.deep_view().to_set() == v.deep_view().to_set(),
{
    let ghost vv = v.deep_view();
    let mut out: Vec<String> = Vec::new();
    let n = v.len();
    let mut i: usize = 0;
    while i < n
        invariant
            i <= n == v@.len(),
            vv == v.deep_view(),
            out.deep_view().no_duplicates(),
            out.deep_view().to_set() == vv.take(i as int).to_set(),
        decreases n - i,
    {
        assert(vv.take(i + 1) == vv.take(i as int).push(vv[i as int]));
        assert(vv.take(i + 1).to_set() =~= vv.take(i as int).to_set().insert(vv[i as int]));
        let ghost before = out.deep_view();
        if !vec_contains(&out, &v[i]) {
            out.push(v[i].clone());
            assert(out.deep_view() =~= before.push(vv[i as int]));
            assert(out.deep_view().to_set() =~= before.to_set().insert(vv[i as int]));
        } else {
            assert(before.to_set().contains(vv[i as int]));
            assert(before.to_set().insert(vv[i as int]) =~= before.to_set());
        }
        i += 1;
    }
    assert(vv.take(n as int) == vv);
    out
}

/// The word sets compared: the query's keywords and the concept's words.
pub open spec fn keyword_set(a_words: Seq<Seq<char>>) -> Set<Seq<char>> {
    a_words.to_set()
}

/// The set of words of a stored concept.
pub open spec fn concept_word_set(b_concept: Seq<char>) -> Set<Seq<char>> {
    words(b_concept).to_set()
}

/// The sizes of the intersection and of the union of the keyword set and the
/// word set of the concept; their ratio is the Jaccard similarity (0 when the
/// union is empty).
pub fn jaccard_counts(a_words: &Vec<String>, b_concept: &str) -> (r: (usize, usize))
    ensures
        r.0 == keyword_set(a_words.deep_view()).intersect(concept_word_set(b_concept@)).len(),
        r.1 == keyword_set(a_words.deep_view()).union(concept_word_set(b_concept@)).len(),
{
    let a = distinct(a_words);
    let b_all = split_whitespace(b_concept);
    let b = distinct(&b_all);
    let ghost sa = a_words.deep_view().to_set();
    let ghost sb = words(b_concept@).to_set();
    let ghost av = a.deep_view();
    let ghost bv = b.deep_view();
    let mut common: Vec<String> = Vec::new();
    let n = a.len();
    let mut i: usize = 0;
    while i < n
        invariant
            i <= n == a@.len(),
            av == a.deep_view(),
            bv == b.deep_view(),
            av.no_duplicates(),
            bv.to_set() == sb,
            common.deep_view().no_duplicates(),
            common.deep_view().to_set() == av.take(i as int).to_set().intersect(sb),
            forall|k: int| 0 <= k < common.deep_view().len() ==> #[trigger] av.take(
                i as int,
            ).contains(common.deep_view()[k]),
        decreases n - i,
    {
        assert(av.take(i + 1) == av.take(i as int).push(av[i as int]));
        assert(av.take(i + 1).to_set() =~= av.take(i as int).to_set().insert(av[i as int]));
        assert(!av.take(i as int).contains(av[i as int])) by {
            if av.take(i as int).contains(av[i as int]) {
                let k = choose|k: int| 0 <= k < i && av.take(i as int)[k] == av[i as int];
                assert(av[k] == av[i as int]);
            }
        }
        let ghost before = common.deep_view();
        if vec_contains(&b, &a[i]) {
            common.push(a[i].clone());
            assert(common.deep_view() =~= before.push(av[i as int]));
            assert(common.deep_view().to_set() =~= before.to_set().insert(av[i as int]));
            assert(common.deep_view().to_set() =~= av.take(i + 1).to_set().intersect(sb));
        } else {
            assert(!sb.contains(av[i as int]));
            assert(common.deep_view().to_set() =~= av.take(i + 1).to_set().intersect(sb));
        }
        i += 1;
    }
    assert(av.take(n as int) == av);
    let mut all: Vec<String> = Vec::new();
    let mut j: usize = 0;
    while j < n
        invariant
            j <= n == a@.len(),
            av == a.deep_view(),
            av.no_duplicates(),
            all.deep_view() == av.take(j as int),
        decreases n - j,
    {
        let ghost before = all.deep_view();
        all.push(a[j].clone());
        assert(all.deep_view() =~= before.push(av[j as int]));
        assert(av.take(j + 1) =~= av.take(j as int).push(av[j as int]));
        j += 1;
    }
    assert(av.take(n as int) == av);
    let m = b.len();
    let mut k: usize = 0;
    while k < m
        invariant
            k <= m == b@.len(),
            av == a.deep_view(),
            bv == b.deep_view(),
            bv.no_duplicates(),
            av.to_set() == sa,
            all.deep_view().no_duplicates(),
            all.deep_view().to_set() == sa.union(bv.take(k as int).to_set()),
        decreases m - k,
    {
        assert(bv.take(k + 1) == bv.take(k as int).push(bv[k as int]));
        assert(bv.take(k + 1).to_set() =~= bv.take(k as int).to_set().insert(bv[k as int]));
        let ghost before = all.deep_view();
        if !vec_contains(&a, &b[k]) {
            all.push(b[k].clone());
            assert(all.deep_view() =~= before.push(bv[k as int]));
            assert(!before.to_set().contains(bv[k as int]));
            assert(all.deep_view().to_set() =~= before.to_set().insert(bv[k as int]));
        } else {
            assert(sa.contains(bv[k as int]));
        }
        assert(all.deep_view().to_set() =~= sa.union(bv.take(k + 1).to_set()));
        k += 1;
    }
    assert(bv.take(m as int) == bv);
    proof {
        common.deep_view().unique_seq_to_set();
        all.deep_view().unique_seq_to_set();
    }
    (common.len(), all.len())
}

/// The overlap never exceeds the union, and the union is empty only when
/// both word sets are.
pub proof fn lemma_jaccard_bounds(a_words: Seq<Seq<char>>, b_concept: Seq<char>)
    ensures
        keyword_set(a_words).intersect(concept_word_set(b_concept)).len() <= keyword_set(
            a_words,
        ).union(concept_word_set(b_concept)).len(),
        keyword_set(a_words).union(concept_word_set(b_concept)).len() == 0 <==> (a_words.len()
            == 0 && words(b_concept).len() == 0),
{
    let sa = keyword_set(a_words);
    let sb = concept_word_set(b_concept);
    vstd::seq_lib::seq_to_set_is_finite(a_words);
    vstd::seq_lib::seq_to_set_is_finite(words(b_concept));
    vstd::set_lib::lemma_len_subset(sa.intersect(sb), sa.union(sb));
    vstd::set_lib::lemma_len_intersect(sa, sb);
    vstd::set_lib::lemma_len_union(sa, sb);
    vstd::set_lib::lemma_set_intersect_union_lens(sa, sb);
    a_words.lemma_cardinality_of_empty_set_is_0();
    words(b_concept).lemma_cardinality_of_empty_set_is_0();
    if sa.union(sb).len() == 0 {
        assert(sa.len() <= sa.union(sb).len()) by {
            vstd::set_lib::lemma_len_subset(sa, sa.union(sb));
        }
        assert(sb.len() <= sa.union(sb).len()) by {
            vstd::set_lib::lemma_len_subset(sb, sa.union(sb));
        }
    }
    if a_words.len() == 0 && words(b_concept).len() == 0 {
        assert(sa.union(sb) =~= Set::<Seq<char>>::empty());
    }
}

} // verus!

//! Reading the facts that the model writes when it condenses a conversation.
//!
//! The model is asked for JSON-L: one object per line with the members
//! `subject`, `predicate`, `object` and `valence`.  Lines that are not JSON
//! objects, and objects without a non-empty subject, predicate and object,
//! are skipped.
use crate::json::{document_members, json_document, json_members, scalars_view, JsonScalar, ScalarView};
use crate::text::{lines, split_lines, starts_with, trim, trimmed};
use vstd::prelude::*;

verus! {

/// One fact condensed from the conversation.
#[derive(Debug)]
pub struct ExtractedFact {
    /// What the fact is about.
    pub subject: String,
    /// The relation.
    pub predicate: String,
    /// What the subject is related to.
    pub object: String,
    /// The emotional valence, as the text of the JSON number, when the member
    /// is a number (the valence counts as 0.0 otherwise).
    pub valence: Option<String>,
}

/// The view of an [`ExtractedFact`].
pub struct FactView {
    pub subject: Seq<char>,
    pub predicate: Seq<char>,
    pub object: Seq<char>,
    pub valence: Option<Seq<char>>,
}

impl View for ExtractedFact {
    type V = FactView;

    open spec fn view(&self) -> FactView {
        FactView {
            subject: self.subject@,
            predicate: self.predicate@,
            object: self.object@,
            valence: match self.valence {
                Some(v) => Some(v@),
                None => None,
            },
        }
    }
}

/// The members read from each fact line, in this order.
pub open spec fn fact_keys() -> Seq<Seq<char>> {
    seq!["subject"@, "predicate"@, "object"@, "valence"@]
}

/// A string member as text; anything else reads as the empty string.
pub open spec fn text_or_empty(s: ScalarView) -> Seq<char> {
    match s {
        ScalarView::Str(t) => t,
        _ => seq![],
    }
}

/// The text of a number member, if it is one.
pub open spec fn number_text(s: ScalarView) -> Option<Seq<char>> {
    match s {
        ScalarView::Number(t) => Some(t),
        _ => None,
    }
}

/// The fact a line of model output holds: the trimmed line must start with
/// `{`, parse as JSON, and carry a non-empty subject, predicate and object.
pub open spec fn fact_of_line(line: Seq<char>) -> Option<FactView> {
    let t = trimmed(line);
    if !"{"@.is_prefix_of(t) {
        None
    } else {
        match document_members(t, fact_keys()) {
            None => None,
            Some(m) => fact_of_members(m),
        }
    }
}

/// The fact held by the members `subject`, `predicate`, `object` and
/// `valence` of a parsed line, when the first three are non-empty strings.
pub open spec fn fact_of_members(m: Seq<ScalarView>) -> Option<FactView> {
    let f = FactView {
        subject: text_or_empty(m[0]),
        predicate: text_or_empty(m[1]),
        object: text_or_empty(m[2]),
        valence: number_text(m[3]),
    };
    if f.subject.len() > 0 && f.predicate.len() > 0 && f.object.len() > 0 {
        Some(f)
    } else {
        None
    }
}

/// A line's members give a fact exactly when subject, predicate and object
/// are non-empty strings; the fact carries those strings, and a valence only
/// when the valence member is a number.
pub proof fn lemma_fact_from_string_members(
    subject: ScalarView,
    predicate: ScalarView,
    object: ScalarView,
    valence: ScalarView,
)
    ensures
        ({
            let m = seq![subject, predicate, object, valence];
            &&& fact_of_members(m) is Some <==> (subject is Str && subject->Str_0.len() > 0
                && predicate is Str && predicate->Str_0.len() > 0 && object is Str
                && object->Str_0.len() > 0)
            &&& fact_of_members(m) is Some ==> {
                let f = fact_of_members(m)->Some_0;
                &&& ScalarView::Str(f.subject) == subject
                &&& ScalarView::Str(f.predicate) == predicate
                &&& ScalarView::Str(f.object) == object
                &&& (f.valence is Some <==> valence is Number)
                &&& (valence is Number ==> f.valence == Some(valence->Number_0))
            }
        }),
{
}

/// The facts held by a sequence of lines, in order.
pub open spec fn facts_of_lines(ls: Seq<Seq<char>>) -> Seq<FactView>
    decreases ls.len(),
{
    if ls.len() == 0 {
        seq![]
    } else {
        facts_of_lines(ls.drop_last()) + match fact_of_line(ls.last()) {
            Some(f) => seq![f],
            None => seq![],
        }
    }
}

/// The facts held by the raw output of a compression run.
pub open spec fn facts_of(raw: Seq<char>) -> Seq<FactView> {
    facts_of_lines(lines(raw))
}

/// The views of a sequence of facts.
pub open spec fn facts_view(v: Seq<ExtractedFact>) -> Seq<FactView> {
    v.map_values(|f: ExtractedFact| f@)
}

fn text_member(s: &JsonScalar) -> (r: String)
    ensures
        r@ == text_or_empty(s@),
{
    match s {
        JsonScalar::Str(t) => t.clone(),
        _ => String::new(),
    }
}

fn number_member(s: &JsonScalar) -> (r: Option<String>)
    ensures
        r.deep_view() == number_text(s@),
{
    match s {
        JsonScalar::Number(t) => Some(t.clone()),
        _ => None,
    }
}

/// Reads the fact on one line of model output, if it holds one.
pub fn parse_fact_line(line: &str) -> (r: Option<ExtractedFact>)
    ensures
        match r {
            Some(f) => fact_of_line(line@) == Some(f@),
            None => fact_of_line(line@) is None,
        },
{
    let t = trim(line);
    if !starts_with(t.as_str(), "{") {
        return None;
    }
    let keys = vec![
        "subject".to_string(),
        "predicate".to_string(),
        "object".to_string(),
        "valence".to_string(),
    ];
    assert(keys.deep_view() =~= fact_keys());
    match json_members(t.as_str(), &keys) {
        None => None,
        Some(m) => {
            assert(json_document(t@) is Some);
            assert(scalars_view(m@).len() == 4);
            fact_from_members(&m)
        },
    }
}

/// Reads the fact held by the members `subject`, `predicate`, `object` and
/// `valence` (in this order) of a parsed line.
pub fn fact_from_members(m: &Vec<JsonScalar>) -> (r: Option<ExtractedFact>)
    requires
        m@.len() == 4,
    ensures
        match r {
            Some(f) => fact_of_members(scalars_view(m@)) == Some(f@),
            None => fact_of_members(scalars_view(m@)) is None,
        },
{
    let subject = text_member(&m[0]);
    let predicate = text_member(&m[1]);
    let object = text_member(&m[2]);
    let valence = number_member(&m[3]);
    if subject.as_str().is_empty() || predicate.as_str().is_empty() || object.as_str().is_empty() {
        None
    } else {
        Some(ExtractedFact { subject, predicate, object, valence })
    }
}

/// Reads every fact in the raw output of a compression run, in order of the lines.
pub fn parse_facts(raw: &str) -> (r: Vec<ExtractedFact>)
    ensures
        facts_view(r@) == facts_of(raw@),
{
    let ls = split_lines(raw);
    let ghost lv = ls.deep_view();
    let mut out: Vec<ExtractedFact> = Vec::new();
    let n = ls.len();
    let mut i: usize = 0;
    while i < n
        invariant
            i <= n == ls@.len(),
            lv == ls.deep_view(),
            lv == lines(raw@),
            facts_view(out@) == facts_of_lines(lv.take(i as int)),
        decreases n - i,
    {
        assert(lv.take(i + 1).drop_last() == lv.take(i as int));
        assert(lv.take(i + 1).last() == ls@[i as int]@);
        let ghost before = out@;
        match parse_fact_line(ls[i].as_str()) {
            Some(f) => {
                out.push(f);
                assert(facts_view(out@) == facts_view(before).push(out@.last()@));
            },
            None => {
                assert(facts_view(before) + Seq::<FactView>::empty() == facts_view(before));
            },
        }
        i += 1;
    }
    assert(lv.take(n as int) == lv);
    out
}

/// Every fact read from a line has a non-empty subject, predicate and object.
pub proof fn lemma_fact_lines_complete(ls: Seq<Seq<char>>)
    ensures
        forall|k: int|
            0 <= k < facts_of_lines(ls).len() ==> {
                &&& (#[trigger] facts_of_lines(ls)[k]).subject.len() > 0
                &&& facts_of_lines(ls)[k].predicate.len() > 0
                &&& facts_of_lines(ls)[k].object.len() > 0
            },
    decreases ls.len(),
{
    if ls.len() > 0 {
        lemma_fact_lines_complete(ls.drop_last());
    }
}

/// Every fact read from the output of a compression run has a non-empty
/// subject, predicate and object.
pub proof fn lemma_facts_complete(raw: Seq<char>)
    ensures
        forall|k: int|
            0 <= k < facts_of(raw).len() ==> {
                &&& (#[trigger] facts_of(raw)[k]).subject.len() > 0
                &&& facts_of(raw)[k].predicate.len() > 0
                &&& facts_of(raw)[k].object.len() > 0
            },
{
    lemma_fact_lines_complete(lines(raw));
}

} // verus!

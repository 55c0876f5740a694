//! Reading the initial entries of a ledger snapshot document.

use vstd::prelude::*;
use crate::data::DataFormatError;

verus! {

#[verifier::external_type_specification]
#[verifier::external_body]
pub struct ExValue(serde_json::Value);

/// A JSON value. A number keeps its value where it is a whole number that
/// fits `u64`; an object keeps its members in the order the parser gives.
#[derive(Debug)]
pub enum Json {
    Null,
    Bool(bool),
    Number(Option<u64>),
    Text(String),
    Array(Vec<Json>),
    Object(Vec<(String, Json)>),
}

/// The JSON value that a text holds, if it is one JSON document.
pub uninterp spec fn json_of(s: Seq<char>) -> Option<Json>;

/// Relies on `serde_json::from_str`: whether a text is one JSON document,
/// and which value it holds, depends on the text alone.
#[verifier::external_body]
fn parse_document(s: &str) -> (r: Option<Json>)
    ensures
        r == json_of(s@),
{
    match serde_json::from_str::<serde_json::Value>(s) {
        Ok(v) => Some(json_value(&v)),
        Err(_) => None,
    }
}

/// Relies on `serde_json::Value`'s variants and `Number::as_u64`: each
/// value becomes the `Json` variant of the same name, member by member.
/// Only `parse_document` uses it, to convert what it parsed.
#[verifier::external_body]
fn json_value(v: &serde_json::Value) -> (r: Json) {
    match v {
        serde_json::Value::Null => Json::Null,
        serde_json::Value::Bool(b) => Json::Bool(*b),
        serde_json::Value::Number(n) => Json::Number(n.as_u64()),
        serde_json::Value::String(t) => Json::Text(t.clone()),
        serde_json::Value::Array(a) => Json::Array(a.iter().map(json_value).collect()),
        serde_json::Value::Object(m) => Json::Object(
            m.iter().map(|(k, x)| (k.clone(), json_value(x))).collect(),
        ),
    }
}

/// Funds handed to one address when the ledger starts.
#[derive(Clone, Debug, PartialEq, Eq)]
pub struct InitialFund {
    pub address: String,
    pub value: u64,
}

/// One entry of a snapshot's initial section.
#[derive(Clone, Debug, PartialEq, Eq)]
pub enum Initial {
    Fund(Vec<InitialFund>),
    LegacyFund(Vec<InitialFund>),
    Cert(String),
}

/// What an initial entry holds, as plain values.
pub enum InitialView {
    Fund(Seq<(Seq<char>, u64)>),
    LegacyFund(Seq<(Seq<char>, u64)>),
    Cert(Seq<char>),
}

pub open spec fn funds_view(v: Seq<InitialFund>) -> Seq<(Seq<char>, u64)> {
    v.map_values(|f: InitialFund| (f.address@, f.value))
}

pub open spec fn initial_view(i: Initial) -> InitialView {
    match i {
        Initial::Fund(v) => InitialView::Fund(funds_view(v@)),
        Initial::LegacyFund(v) => InitialView::LegacyFund(funds_view(v@)),
        Initial::Cert(c) => InitialView::Cert(c@),
    }
}

/// The value of the first member named `key`.
pub open spec fn obj_member(ms: Seq<(String, Json)>, key: Seq<char>) -> Option<Json>
    decreases ms.len(),
{
    if ms.len() == 0 {
        None
    } else if ms[0].0@ == key {
        Some(ms[0].1)
    } else {
        obj_member(ms.drop_first(), key)
    }
}

/// The member `key` of an object; nothing for any other value.
pub open spec fn json_member(j: Json, key: Seq<char>) -> Option<Json> {
    match j {
        Json::Object(ms) => obj_member(ms@, key),
        _ => None,
    }
}

/// A `{ "address": text, "value": number }` record.
pub open spec fn fund_of(j: Json) -> Option<(Seq<char>, u64)> {
    match (json_member(j, "address"@), json_member(j, "value"@)) {
        (Some(Json::Text(a)), Some(Json::Number(Some(n)))) => Some((a@, n)),
        _ => None,
    }
}

/// Every item a fund record, in order.
pub open spec fn funds_of(items: Seq<Json>) -> Option<Seq<(Seq<char>, u64)>>
    decreases items.len(),
{
    if items.len() == 0 {
        Some(Seq::empty())
    } else {
        match (funds_of(items.drop_last()), fund_of(items.last())) {
            (Some(fs), Some(f)) => Some(fs.push(f)),
            _ => None,
        }
    }
}

/// An array of fund records.
pub open spec fn fund_list_of(j: Json) -> Option<Seq<(Seq<char>, u64)>> {
    match j {
        Json::Array(xs) => funds_of(xs@),
        _ => None,
    }
}

/// An entry: its `fund` member if it has one, else its `legacy_fund`
/// member if it has one, else its `cert` member, a text.
pub open spec fn entry_of(j: Json) -> Option<InitialView> {
    match json_member(j, "fund"@) {
        Some(f) => match fund_list_of(f) {
            Some(v) => Some(InitialView::Fund(v)),
            None => None,
        },
        None => match json_member(j, "legacy_fund"@) {
            Some(f) => match fund_list_of(f) {
                Some(v) => Some(InitialView::LegacyFund(v)),
                None => None,
            },
            None => match json_member(j, "cert"@) {
                Some(Json::Text(c)) => Some(InitialView::Cert(c@)),
                _ => None,
            },
        },
    }
}

/// Every item an entry, in order.
pub open spec fn entries_of(items: Seq<Json>) -> Option<Seq<InitialView>>
    decreases items.len(),
{
    if items.len() == 0 {
        Some(Seq::empty())
    } else {
        match (entries_of(items.drop_last()), entry_of(items.last())) {
            (Some(es), Some(e)) => Some(es.push(e)),
            _ => None,
        }
    }
}

/// The initial entries of a parsed document: no document is
/// `BadDocument`, no `initial` member is `MissingInitial`, a member that is
/// not an array of entries is `BadDocument`.
pub open spec fn initials_of(doc: Option<Json>) -> Result<Seq<InitialView>, DataFormatError> {
    match doc {
        None => Err(DataFormatError::BadDocument),
        Some(d) => match json_member(d, "initial"@) {
            None => Err(DataFormatError::MissingInitial),
            Some(Json::Array(xs)) => match entries_of(xs@) {
                Some(es) => Ok(es),
                None => Err(DataFormatError::BadDocument),
            },
            Some(_) => Err(DataFormatError::BadDocument),
        },
    }
}

/// The member `key` of `j`, when `j` is an object that has one.
fn member<'a>(j: &'a Json, key: &str) -> (r: Option<&'a Json>)
    ensures
        match r {
            Some(x) => json_member(*j, key@) == Some(*x),
            None => json_member(*j, key@) is None,
        },
{
    match j {
        Json::Object(ms) => {
            assert(json_member(*j, key@) == obj_member(ms@, key@));
            let k = key.to_owned();
            let mut i: usize = 0;
            assert(ms@.subrange(0, ms@.len() as int) =~= ms@);
            while i < ms.len()
                invariant
                    0 <= i <= ms@.len(),
                    k@ == key@,
                    json_member(*j, key@) == obj_member(ms@, key@),
                    obj_member(ms@, key@) == obj_member(ms@.subrange(i as int, ms@.len() as int), key@),
                decreases ms@.len() - i,
            {
                let ghost rest = ms@.subrange(i as int, ms@.len() as int);
                assert(rest.drop_first() =~= ms@.subrange(i + 1, ms@.len() as int));
                if ms[i].0 == k {
                    assert(rest[0] == ms@[i as int]);
                    return Some(&ms[i].1);
                }
                i = i + 1;
            }
            None
        },
        _ => None,
    }
}

/// An array of `{ "address": .., "value": .. }` records.
fn read_funds(list: &Json) -> (r: Result<Vec<InitialFund>, DataFormatError>)
    ensures
        match (r, fund_list_of(*list)) {
            (Ok(v), Some(w)) => funds_view(v@) == w,
            (Err(e), None) => e == DataFormatError::BadDocument,
            _ => false,
        },
{
    let entries = match list {
        Json::Array(xs) => xs,
        _ => return Err(DataFormatError::BadDocument),
    };
    assert(fund_list_of(*list) == funds_of(entries@));
    let mut funds: Vec<InitialFund> = Vec::new();
    let mut i: usize = 0;
    while i < entries.len()
        invariant
            0 <= i <= entries@.len(),
            fund_list_of(*list) == funds_of(entries@),
            funds_of(entries@.subrange(0, i as int)) == Some(funds_view(funds@)),
        decreases entries@.len() - i,
    {
        let ghost pre = entries@.subrange(0, i as int + 1);
        assert(pre.drop_last() =~= entries@.subrange(0, i as int));
        assert(pre.last() == entries@[i as int]);
        let address = match member(&entries[i], "address") {
            Some(Json::Text(t)) => t.clone(),
            _ => {
                proof {
                    lemma_funds_prefix_fails(entries@, i as int);
                }
                return Err(DataFormatError::BadDocument);
            },
        };
        let value = match member(&entries[i], "value") {
            Some(Json::Number(Some(n))) => *n,
            _ => {
                proof {
                    lemma_funds_prefix_fails(entries@, i as int);
                }
                return Err(DataFormatError::BadDocument);
            },
        };
        let ghost before = funds@;
        funds.push(InitialFund { address, value });
        assert(funds_view(funds@) =~= funds_view(before).push((address@, value)));
        i = i + 1;
    }
    assert(entries@.subrange(0, entries@.len() as int) =~= entries@);
    Ok(funds)
}

/// Where the item at `i` is no fund record, the whole list is none.
proof fn lemma_funds_prefix_fails(items: Seq<Json>, i: int)
    requires
        0 <= i < items.len(),
        fund_of(items[i]) is None,
    ensures
        funds_of(items) is None,
    decreases items.len(),
{
    if i < items.len() - 1 {
        lemma_funds_prefix_fails(items.drop_last(), i);
    }
}

/// Where the item at `i` is no entry, the whole list is none.
proof fn lemma_entries_prefix_fails(items: Seq<Json>, i: int)
    requires
        0 <= i < items.len(),
        entry_of(items[i]) is None,
    ensures
        entries_of(items) is None,
    decreases items.len(),
{
    if i < items.len() - 1 {
        lemma_entries_prefix_fails(items.drop_last(), i);
    }
}

/// One entry of the initial section.
fn read_entry(entry: &Json) -> (r: Result<Initial, DataFormatError>)
    ensures
        match (r, entry_of(*entry)) {
            (Ok(v), Some(w)) => initial_view(v) == w,
            (Err(e), None) => e == DataFormatError::BadDocument,
            _ => false,
        },
{
    if let Some(f) = member(entry, "fund") {
        return match read_funds(f) {
            Ok(v) => Ok(Initial::Fund(v)),
            Err(e) => Err(e),
        };
    }
    if let Some(f) = member(entry, "legacy_fund") {
        return match read_funds(f) {
            Ok(v) => Ok(Initial::LegacyFund(v)),
            Err(e) => Err(e),
        };
    }
    match member(entry, "cert") {
        Some(Json::Text(t)) => Ok(Initial::Cert(t.clone())),
        _ => Err(DataFormatError::BadDocument),
    }
}

/// The entries of the `initial` section of a snapshot document, in order.
/// A text that is not JSON, or whose section is not an array of entries,
/// is `BadDocument`; a document without the section is `MissingInitial`,
/// never an empty list.
pub fn read_initials(snapshot: &str) -> (r: Result<Vec<Initial>, DataFormatError>)
    ensures
        match (r, initials_of(json_of(snapshot@))) {
            (Ok(v), Ok(w)) => v@.map_values(|i: Initial| initial_view(i)) == w,
            (Err(e), Err(f)) => e == f,
            _ => false,
        },
{
    let document = match parse_document(snapshot) {
        Some(d) => d,
        None => return Err(DataFormatError::BadDocument),
    };
    let entries = match member(&document, "initial") {
        Some(Json::Array(xs)) => xs,
        Some(_) => return Err(DataFormatError::BadDocument),
        None => return Err(DataFormatError::MissingInitial),
    };
    assert(initials_of(json_of(snapshot@)) == match entries_of(entries@) {
        Some(es) => Ok(es),
        None => Err::<Seq<InitialView>, DataFormatError>(DataFormatError::BadDocument),
    });
    let mut out: Vec<Initial> = Vec::new();
    let mut i: usize = 0;
    while i < entries.len()
        invariant
            0 <= i <= entries@.len(),
            initials_of(json_of(snapshot@)) == match entries_of(entries@) {
                Some(es) => Ok(es),
                None => Err::<Seq<InitialView>, DataFormatError>(DataFormatError::BadDocument),
            },
            entries_of(entries@.subrange(0, i as int)) == Some(
                out@.map_values(|x: Initial| initial_view(x)),
            ),
        decreases entries@.len() - i,
    {
        let ghost pre = entries@.subrange(0, i as int + 1);
        assert(pre.drop_last() =~= entries@.subrange(0, i as int));
        assert(pre.last() == entries@[i as int]);
        let e = match read_entry(&entries[i]) {
            Ok(e) => e,
            Err(err) => {
                proof {
                    lemma_entries_prefix_fails(entries@, i as int);
                }
                return Err(err);
            },
        };
        let ghost before = out@;
        out.push(e);
        assert(out@.map_values(|x: Initial| initial_view(x)) =~= before.map_values(
            |x: Initial| initial_view(x),
        ).push(initial_view(e)));
        i = i + 1;
    }
    assert(entries@.subrange(0, entries@.len() as int) =~= entries@);
    Ok(out)
}

} // verus!

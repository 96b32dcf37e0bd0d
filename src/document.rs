use vstd::prelude::*;

use std::collections::BTreeMap;

use crate::codes::{codes_wf, entries_of, lists_view, CodeEntry, CodeList, CodeLocalStorage};
use crate::error::LocalStorageError;
use crate::text::{lemma_text_lt_irreflexive, lemma_text_lt_transitive, text_less, text_lt};
use crate::token::pairs_view;

verus! {

/// The text of an instant in the code document: ISO-8601 in UTC.
pub uninterp spec fn instant_text(secs: i64) -> Seq<char>;

/// The instant an ISO-8601 text names, in whole seconds.
pub uninterp spec fn instant_of_text(text: Seq<char>) -> Option<i64>;

/// The code document of a store's entries.
pub uninterp spec fn codes_yaml(entries: Seq<(Seq<char>, Seq<(Seq<char>, Seq<char>)>)>) -> Seq<char>;

/// The entries a code document holds, in key order.
pub uninterp spec fn codes_of_yaml(text: Seq<char>) -> Option<Seq<(Seq<char>, Seq<(Seq<char>, Seq<char>)>)>>;

/// The last instant of the year 9999, in seconds since the Unix epoch.
pub const LAST_INSTANT: i64 = 253402300799;

/// Relies on chrono's `DateTime::<Utc>::from_timestamp` and
/// `to_rfc3339_opts(SecondsFormat::Secs, true)`: the instant as ISO-8601
/// text such as `2015-05-15T00:00:00Z`, which depends on the seconds alone;
/// `None` where the seconds are outside chrono's range, which holds every
/// instant from the epoch to the end of the year 9999.
#[verifier::external_body]
fn format_instant(secs: i64) -> (r: Option<String>)
    ensures
        r matches Some(t) ==> t@ == instant_text(secs),
        0 <= secs <= LAST_INSTANT ==> r is Some,
{
    chrono::DateTime::<chrono::Utc>::from_timestamp(secs, 0).map(
        |d| d.to_rfc3339_opts(chrono::SecondsFormat::Secs, true),
    )
}

/// Relies on chrono's `FromStr` for `DateTime<Utc>` and
/// `DateTime::timestamp`: the instant a text names, in whole seconds; `None`
/// where chrono cannot read the text. The outcome depends on the text alone.
#[verifier::external_body]
fn parse_instant(text: &str) -> (r: Option<i64>)
    ensures
        r == instant_of_text(text@),
        forall|s: i64| 0 <= s <= LAST_INSTANT && text@ == #[trigger] instant_text(s) ==> r == Some(s),
{
    text.parse::<chrono::DateTime<chrono::Utc>>().ok().map(|d| d.timestamp())
}

/// Entries of a code document as plain values.
pub open spec fn doc_view(d: Seq<(String, Vec<(String, String)>)>) -> Seq<
    (Seq<char>, Seq<(Seq<char>, Seq<char>)>),
> {
    d.map_values(|p: (String, Vec<(String, String)>)| (p.0@, pairs_view(p.1@)))
}

/// Relies on `serde_yaml::to_string` of a `BTreeMap<String, Vec<(String,
/// String)>>` collected from the entries: a mapping from each address to its
/// list of `[code, expiry]` pairs, which depends on the entries alone. A map
/// of strings to lists of string pairs always serializes.
#[verifier::external_body]
fn write_codes_yaml(entries: &Vec<(String, Vec<(String, String)>)>) -> (r: String)
    ensures
        r@ == codes_yaml(doc_view(entries@)),
{
    let map: BTreeMap<String, Vec<(String, String)>> = entries.iter().cloned().collect();
    serde_yaml::to_string(&map).expect("a map of strings always serializes")
}

/// The addresses of a document's entries strictly increase.
pub open spec fn keys_sorted(e: Seq<(Seq<char>, Seq<(Seq<char>, Seq<char>)>)>) -> bool {
    forall|a: int, b: int| 0 <= a < b < e.len() ==> text_lt(e[a].0, e[b].0)
}

/// Where `text` is the document `write_codes_yaml` makes of entries whose
/// addresses strictly increase, reading it gives those entries.
pub open spec fn doc_reads_back(
    r: Result<Vec<(String, Vec<(String, String)>)>, LocalStorageError>,
    text: Seq<char>,
) -> bool {
    forall|e: Seq<(Seq<char>, Seq<(Seq<char>, Seq<char>)>)>|
        keys_sorted(e) && text == #[trigger] codes_yaml(e) ==> (r matches Ok(d) && doc_view(d@) == e)
}

/// Relies on `serde_yaml::from_str` into a `BTreeMap<String, Vec<(String,
/// String)>>`: the mapping's entries in key order, which depend on the text
/// alone, or `YamlError` where the text is not such a mapping. What
/// `serde_yaml::to_string` wrote for such a map reads back as the same map,
/// so entries already in key order come back unchanged.
#[verifier::external_body]
fn read_codes_yaml(text: &str) -> (r: Result<Vec<(String, Vec<(String, String)>)>, LocalStorageError>)
    ensures
        r matches Ok(d) ==> codes_of_yaml(text@) == Some(doc_view(d@)),
        r matches Err(e) ==> codes_of_yaml(text@) is None && e == LocalStorageError::YamlError,
        doc_reads_back(r, text@),
{
    match serde_yaml::from_str::<BTreeMap<String, Vec<(String, String)>>>(text) {
        Ok(m) => Ok(m.into_iter().collect()),
        Err(_) => Err(LocalStorageError::YamlError),
    }
}

/// Every expiry of the store lies between the epoch and the end of the year
/// 9999.
pub open spec fn instants_in_range(m: Seq<(Seq<char>, Seq<(Seq<char>, i64)>)>) -> bool {
    forall|i: int, j: int|
        0 <= i < m.len() && 0 <= j < m[i].1.len() ==> 0 <= #[trigger] m[i].1[j].1 <= LAST_INSTANT
}

/// `text` is the code document of the well-formed store `m`, whose expiries
/// all have ISO-8601 text.
pub open spec fn written_by(text: Seq<char>, m: Seq<(Seq<char>, Seq<(Seq<char>, i64)>)>) -> bool {
    codes_wf(m) && instants_in_range(m) && text == codes_yaml(store_text(m))
}

/// Where `text` is the code document of a well-formed store whose expiries
/// all have ISO-8601 text, reading it gives that store back.
pub open spec fn loads_back(r: Result<CodeLocalStorage, LocalStorageError>, text: Seq<char>) -> bool {
    forall|m: Seq<(Seq<char>, Seq<(Seq<char>, i64)>)>|
        #[trigger] written_by(text, m) ==> (r matches Ok(s) && s@ == m)
}

/// The written entries of a well-formed store are in key order.
proof fn lemma_store_text_sorted(m: Seq<(Seq<char>, Seq<(Seq<char>, i64)>)>)
    requires
        codes_wf(m),
    ensures
        keys_sorted(store_text(m)),
        store_text(m).len() == m.len(),
        forall|i: int| 0 <= i < m.len() ==> (#[trigger] store_text(m)[i]) == (m[i].0, list_text(m[i].1)),
{
}

/// A list with each expiry written as text.
pub open spec fn list_text(l: Seq<(Seq<char>, i64)>) -> Seq<(Seq<char>, Seq<char>)> {
    l.map_values(|e: (Seq<char>, i64)| (e.0, instant_text(e.1)))
}

/// A store's entries with each expiry written as text.
pub open spec fn store_text(m: Seq<(Seq<char>, Seq<(Seq<char>, i64)>)>) -> Seq<
    (Seq<char>, Seq<(Seq<char>, Seq<char>)>),
> {
    m.map_values(|p: (Seq<char>, Seq<(Seq<char>, i64)>)| (p.0, list_text(p.1)))
}

/// Every expiry text of the document names an instant.
pub open spec fn instants_readable(d: Seq<(Seq<char>, Seq<(Seq<char>, Seq<char>)>)>) -> bool {
    forall|i: int, j: int|
        0 <= i < d.len() && 0 <= j < d[i].1.len() ==> (#[trigger] instant_of_text(d[i].1[j].1)) is Some
}

/// A list with each expiry text read as an instant.
pub open spec fn list_instants(l: Seq<(Seq<char>, Seq<char>)>) -> Seq<(Seq<char>, i64)> {
    l.map_values(|e: (Seq<char>, Seq<char>)| (e.0, instant_of_text(e.1)->0))
}

/// The document's entries with each expiry text read as an instant.
pub open spec fn store_of_text(d: Seq<(Seq<char>, Seq<(Seq<char>, Seq<char>)>)>) -> Seq<
    (Seq<char>, Seq<(Seq<char>, i64)>),
> {
    d.map_values(|p: (Seq<char>, Seq<(Seq<char>, Seq<char>)>)| (p.0, list_instants(p.1)))
}

proof fn lemma_pairs_view_push(old: Seq<(String, String)>, x: (String, String))
    ensures
        pairs_view(old.push(x)) == pairs_view(old).push((x.0@, x.1@)),
{
    assert(pairs_view(old.push(x)) =~= pairs_view(old).push((x.0@, x.1@)));
}

proof fn lemma_list_text_push(l: Seq<(Seq<char>, i64)>, j: int)
    requires
        0 <= j < l.len(),
    ensures
        list_text(l.subrange(0, j + 1)) == list_text(l.subrange(0, j)).push(
            (l[j].0, instant_text(l[j].1)),
        ),
{
    assert(list_text(l.subrange(0, j + 1)) =~= list_text(l.subrange(0, j)).push(
        (l[j].0, instant_text(l[j].1)),
    ));
}

proof fn lemma_doc_view_push(old: Seq<(String, Vec<(String, String)>)>, x: (String, Vec<(String, String)>))
    ensures
        doc_view(old.push(x)) == doc_view(old).push((x.0@, pairs_view(x.1@))),
{
    assert(doc_view(old.push(x)) =~= doc_view(old).push((x.0@, pairs_view(x.1@))));
}

proof fn lemma_store_text_push(m: Seq<(Seq<char>, Seq<(Seq<char>, i64)>)>, i: int)
    requires
        0 <= i < m.len(),
    ensures
        store_text(m.subrange(0, i + 1)) == store_text(m.subrange(0, i)).push(
            (m[i].0, list_text(m[i].1)),
        ),
{
    assert(store_text(m.subrange(0, i + 1)) =~= store_text(m.subrange(0, i)).push(
        (m[i].0, list_text(m[i].1)),
    ));
}

proof fn lemma_entries_push(old: Seq<CodeEntry>, x: CodeEntry)
    ensures
        entries_of(old.push(x)) == entries_of(old).push(x@),
{
    assert(entries_of(old.push(x)) =~= entries_of(old).push(x@));
}

proof fn lemma_list_instants_push(l: Seq<(Seq<char>, Seq<char>)>, j: int)
    requires
        0 <= j < l.len(),
    ensures
        list_instants(l.subrange(0, j + 1)) == list_instants(l.subrange(0, j)).push(
            (l[j].0, instant_of_text(l[j].1)->0),
        ),
{
    assert(list_instants(l.subrange(0, j + 1)) =~= list_instants(l.subrange(0, j)).push(
        (l[j].0, instant_of_text(l[j].1)->0),
    ));
}

proof fn lemma_lists_view_push(old: Seq<CodeList>, x: CodeList)
    ensures
        lists_view(old.push(x)) == lists_view(old).push(x@),
{
    assert(lists_view(old.push(x)) =~= lists_view(old).push(x@));
}

proof fn lemma_store_of_text_push(d: Seq<(Seq<char>, Seq<(Seq<char>, Seq<char>)>)>, i: int)
    requires
        0 <= i < d.len(),
    ensures
        store_of_text(d.subrange(0, i + 1)) == store_of_text(d.subrange(0, i)).push(
            (d[i].0, list_instants(d[i].1)),
        ),
{
    assert(store_of_text(d.subrange(0, i + 1)) =~= store_of_text(d.subrange(0, i)).push(
        (d[i].0, list_instants(d[i].1)),
    ));
}

impl CodeLocalStorage {
    /// The code document of the store: each address with its list of
    /// `[code, expiry]` pairs, expiries as ISO-8601 text in UTC. The caller
    /// writes it to the store's file. It is refused, with `YamlError`, only
    /// where an expiry has no ISO-8601 text; every expiry from the epoch to
    /// the end of the year 9999 has one.
    pub fn store_codes(&self) -> (r: Result<String, LocalStorageError>)
        ensures
            r matches Ok(t) ==> t@ == codes_yaml(store_text(self@)),
            r matches Err(e) ==> e == LocalStorageError::YamlError,
            instants_in_range(self@) ==> (r matches Ok(t) && written_by(t@, self@)),
    {
        let lists = self.lists();
        let ghost m = self@;
        let mut entries: Vec<(String, Vec<(String, String)>)> = Vec::new();
        let mut i: usize = 0;
        while i < lists.len()
            invariant
                i <= lists@.len(),
                lists_view(lists@) == m,
                m == self@,
                m.len() == lists@.len(),
                entries@.len() == i,
                doc_view(entries@) == store_text(m.subrange(0, i as int)),
            decreases lists@.len() - i,
        {
            let codes = &lists[i].codes;
            let ghost l = entries_of(codes@);
            assert(m[i as int] == lists@[i as int]@);
            let mut pairs: Vec<(String, String)> = Vec::new();
            let mut j: usize = 0;
            while j < codes.len()
                invariant
                    j <= codes@.len(),
                    l == entries_of(codes@),
                    i < m.len(),
                    l == m[i as int].1,
                    m == self@,
                    l.len() == codes@.len(),
                    pairs@.len() == j,
                    pairs_view(pairs@) == list_text(
                        l.subrange(0, j as int),
                    ),
                decreases codes@.len() - j,
            {
                let text = match format_instant(codes[j].expires_at) {
                    None => {
                        proof {
                            assert(m[i as int].1[j as int].1 == codes@[j as int].expires_at);
                        }
                        return Err(LocalStorageError::YamlError);
                    },
                    Some(t) => t,
                };
                assert(l[j as int] == codes@[j as int]@);
                let ghost old_pairs = pairs@;
                let item = (codes[j].code.clone(), text);
                pairs.push(item);
                proof {
                    lemma_pairs_view_push(old_pairs, item);
                    lemma_list_text_push(l, j as int);
                }
                assert(pairs_view(pairs@) =~= list_text(
                    l.subrange(0, j + 1),
                ));
                j = j + 1;
            }
            assert(l.subrange(0, j as int) =~= l);
            let ghost old_entries = entries@;
            let item = (lists[i].email.clone(), pairs);
            entries.push(item);
            proof {
                lemma_doc_view_push(old_entries, item);
                lemma_store_text_push(m, i as int);
            }
            i = i + 1;
        }
        assert(m.subrange(0, i as int) =~= m);
        Ok(write_codes_yaml(&entries))
    }

    /// Reads a code document. It is refused, with `YamlError`, where it is
    /// not a mapping of addresses to lists of `[code, expiry]` pairs, where
    /// an expiry is not an instant, or where a list is empty.
    pub fn load_codes(text: &str) -> (r: Result<CodeLocalStorage, LocalStorageError>)
        ensures
            r is Ok <==> (codes_of_yaml(text@) matches Some(d) && instants_readable(d) && codes_wf(
                store_of_text(d),
            )),
            r matches Ok(s) ==> codes_of_yaml(text@) matches Some(d) && s@ == store_of_text(d),
            r matches Err(e) ==> e == LocalStorageError::YamlError,
            loads_back(r, text@),
    {
        let doc = match read_codes_yaml(text) {
            Err(e) => {
                proof {
                    assert forall|m: Seq<(Seq<char>, Seq<(Seq<char>, i64)>)>|
                        #[trigger] written_by(text@, m) implies false by {
                        lemma_store_text_sorted(m);
                    }
                }
                return Err(e);
            },
            Ok(doc) => doc,
        };
        let ghost d = doc_view(doc@);
        proof {
            assert forall|m: Seq<(Seq<char>, Seq<(Seq<char>, i64)>)>|
                #[trigger] written_by(text@, m) implies d == store_text(m) by {
                lemma_store_text_sorted(m);
            }
        }
        let mut out: Vec<CodeList> = Vec::new();
        let mut i: usize = 0;
        assert(lists_view(out@) =~= store_of_text(d.subrange(0, 0)));
        while i < doc.len()
            invariant
                i <= doc@.len(),
                d == doc_view(doc@),
                d.len() == doc@.len(),
                out@.len() == i,
                codes_of_yaml(text@) == Some(d),
                lists_view(out@) == store_of_text(d.subrange(0, i as int)),
                codes_wf(lists_view(out@)),
                instants_readable(d.subrange(0, i as int)),
                forall|m: Seq<(Seq<char>, Seq<(Seq<char>, i64)>)>|
                    #[trigger] written_by(text@, m) ==> d == store_text(m) && lists_view(out@)
                        == m.subrange(0, i as int),
            decreases doc@.len() - i,
        {
            let ghost di = d[i as int];
            let pairs = &doc[i].1;
            assert(di.1 == pairs_view(pairs@));
            if pairs.len() == 0 {
                proof {
                    assert(store_of_text(d)[i as int].1.len() == 0);
                    assert forall|m: Seq<(Seq<char>, Seq<(Seq<char>, i64)>)>|
                        #[trigger] written_by(text@, m) implies false by {
                        lemma_store_text_sorted(m);
                        assert(m[i as int].1.len() > 0);
                    }
                }
                return Err(LocalStorageError::YamlError);
            }
            let mut codes: Vec<CodeEntry> = Vec::new();
            let mut j: usize = 0;
            while j < pairs.len()
                invariant
                    j <= pairs@.len(),
                    i < doc@.len(),
                    d == doc_view(doc@),
                    codes_of_yaml(text@) == Some(d),
                    di == d[i as int],
                    di.1 == pairs_view(pairs@),
                    di.1.len() == pairs@.len(),
                    codes@.len() == j,
                    forall|k: int| 0 <= k < j ==> (#[trigger] instant_of_text(di.1[k].1)) is Some,
                    entries_of(codes@) == list_instants(di.1.subrange(0, j as int)),
                    forall|m: Seq<(Seq<char>, Seq<(Seq<char>, i64)>)>|
                        #[trigger] written_by(text@, m) ==> d == store_text(m) && entries_of(codes@)
                            == m[i as int].1.subrange(0, j as int),
                decreases pairs@.len() - j,
            {
                let at = match parse_instant(pairs[j].1.as_str()) {
                    None => {
                        proof {
                            assert(d[i as int].1[j as int].1 == pairs@[j as int].1@);
                            assert(instant_of_text(d[i as int].1[j as int].1) is None);
                            assert(!instants_readable(d));
                            assert forall|m: Seq<(Seq<char>, Seq<(Seq<char>, i64)>)>|
                                #[trigger] written_by(text@, m) implies false by {
                                lemma_store_text_sorted(m);
                                assert(d[i as int].1[j as int].1 == instant_text(
                                    m[i as int].1[j as int].1,
                                ));
                            }
                        }
                        return Err(LocalStorageError::YamlError);
                    },
                    Some(t) => t,
                };
                let ghost old_codes = codes@;
                let entry = CodeEntry { code: pairs[j].0.clone(), expires_at: at };
                codes.push(entry);
                proof {
                    lemma_entries_push(old_codes, entry);
                    lemma_list_instants_push(di.1, j as int);
                    assert forall|m: Seq<(Seq<char>, Seq<(Seq<char>, i64)>)>|
                        #[trigger] written_by(text@, m) implies entries_of(codes@)
                        == m[i as int].1.subrange(0, j + 1) by {
                        lemma_store_text_sorted(m);
                        let x = m[i as int].1[j as int];
                        assert(d[i as int].1[j as int] == (x.0, instant_text(x.1)));
                        assert(d[i as int].1[j as int].1 == pairs@[j as int].1@);
                        assert(0 <= x.1 <= LAST_INSTANT);
                        assert(entry@ == x);
                        assert(entries_of(codes@) =~= m[i as int].1.subrange(0, j + 1));
                    }
                }
                j = j + 1;
            }
            assert(di.1.subrange(0, j as int) =~= di.1);
            let key = doc[i].0.clone();
            if out.len() > 0 && !text_less(&out[out.len() - 1].email, &key) {
                proof {
                    let last = (out@.len() - 1) as int;
                    assert(lists_view(out@)[last] == out@[last]@);
                    assert(lists_view(out@)[last] == store_of_text(d.subrange(0, i as int))[last]);
                    assert(store_of_text(d)[last].0 == d[last].0);
                    assert(d[i as int].0 == key@);
                    assert(store_of_text(d)[i as int].0 == d[i as int].0);
                    assert forall|m: Seq<(Seq<char>, Seq<(Seq<char>, i64)>)>|
                        #[trigger] written_by(text@, m) implies false by {
                        lemma_store_text_sorted(m);
                        assert(m.subrange(0, i as int)[last] == m[last]);
                    }
                }
                return Err(LocalStorageError::YamlError);
            }
            let ghost before = lists_view(out@);
            let ghost old_out = out@;
            let list = CodeList { email: key, codes };
            out.push(list);
            proof {
                lemma_lists_view_push(old_out, list);
                lemma_store_of_text_push(d, i as int);
                assert(d[i as int].0 == key@);
                assert forall|a: int, b: int|
                    0 <= a < b < lists_view(out@).len() implies lists_view(out@)[a].0 != lists_view(
                    out@,
                )[b].0 && text_lt(lists_view(out@)[a].0, lists_view(out@)[b].0) by {
                    if b == i {
                        assert(lists_view(out@)[a] == before[a]);
                        let last = i - 1;
                        assert(before[last] == old_out[last]@);
                        if a < last {
                            lemma_text_lt_transitive(before[a].0, before[last].0, key@);
                        }
                        lemma_text_lt_irreflexive(key@);
                    } else {
                        assert(lists_view(out@)[a] == before[a]);
                        assert(lists_view(out@)[b] == before[b]);
                    }
                }
                let o = lists_view(out@);
                assert(forall|a: int, b: int| 0 <= a < b < o.len() ==> text_lt(o[a].0, o[b].0));
                assert forall|a: int, b: int| 0 <= a < b < o.len() implies o[a].0 != o[b].0 by {
                    lemma_text_lt_irreflexive(o[a].0);
                }
                assert forall|a: int| 0 <= a < lists_view(out@).len() implies (#[trigger] lists_view(
                    out@,
                )[a]).1.len() > 0 by {
                    if a < i {
                        assert(lists_view(out@)[a] == before[a]);
                    }
                }
                assert forall|m: Seq<(Seq<char>, Seq<(Seq<char>, i64)>)>|
                    #[trigger] written_by(text@, m) implies lists_view(out@) == m.subrange(
                    0,
                    i + 1,
                ) by {
                    lemma_store_text_sorted(m);
                    assert(m[i as int].0 == d[i as int].0);
                    assert(before == m.subrange(0, i as int));
                    assert(d[i as int].1.len() == m[i as int].1.len());
                    assert(m[i as int].1.subrange(0, j as int) =~= m[i as int].1);
                    assert(list@ == m[i as int]);
                    assert(lists_view(out@) =~= m.subrange(0, i + 1));
                }
                let p = d.subrange(0, i + 1);
                assert forall|a: int, b: int|
                    0 <= a < p.len() && 0 <= b < p[a].1.len() implies (#[trigger] instant_of_text(
                    p[a].1[b].1,
                )) is Some by {
                    if a < i {
                        assert(p[a] == d.subrange(0, i as int)[a]);
                    }
                }
            }
            i = i + 1;
        }
        assert(d.subrange(0, i as int) =~= d);
        proof {
            assert forall|m: Seq<(Seq<char>, Seq<(Seq<char>, i64)>)>|
                #[trigger] written_by(text@, m) implies lists_view(out@) == m by {
                lemma_store_text_sorted(m);
                assert(m.subrange(0, i as int) =~= m);
            }
        }
        Ok(CodeLocalStorage::from_lists(out))
    }
}

} // verus!

use vstd::prelude::*;

use rand::Rng;

use crate::clock::now_unix_seconds;
use crate::email::EMail;
use crate::error::LocalStorageError;
use crate::text::{
    lemma_text_lt_irreflexive, lemma_text_lt_total, lemma_text_lt_transitive, push_char, text_less,
    text_lt,
};
use crate::user_store::Storage;

verus! {

/// How many letters an access code has.
pub const CODE_SIZE: usize = 8;

/// How many letters the code alphabet has.
pub const ALPHABET_SIZE: usize = 26;

/// An access code: eight uppercase ASCII letters.
pub open spec fn is_code(c: Seq<char>) -> bool {
    &&& c.len() == CODE_SIZE
    &&& forall|i: int| 0 <= i < c.len() ==> 'A' <= #[trigger] c[i] <= 'Z'
}

/// The letter of the code alphabet at position `d` (`0` is `A`).
pub open spec fn letter(d: int) -> char {
    (65 + d) as char
}

/// The code spelled by a sequence of alphabet positions.
pub open spec fn code_of(draws: Seq<usize>) -> Seq<char> {
    draws.map_values(|d: usize| letter(d as int))
}

/// Relies on `rand::Rng::gen_range` with the thread-local generator: a
/// value drawn uniformly from `0..bound` (the call panics on an empty range).
#[verifier::external_body]
fn random_below(bound: usize) -> (r: usize)
    requires
        bound > 0,
    ensures
        r < bound,
{
    rand::thread_rng().gen_range(0..bound)
}

/// Spells a code from alphabet positions: position `d` gives the `d`-th
/// uppercase letter.
pub fn code_of_draws(draws: &Vec<usize>) -> (r: String)
    requires
        forall|i: int| 0 <= i < draws@.len() ==> draws@[i] < ALPHABET_SIZE,
    ensures
        r@ == code_of(draws@),
{
    let mut out = String::new();
    let mut i: usize = 0;
    while i < draws.len()
        invariant
            i <= draws@.len(),
            forall|j: int| 0 <= j < draws@.len() ==> draws@[j] < ALPHABET_SIZE,
            out@ == code_of(draws@.subrange(0, i as int)),
        decreases draws@.len() - i,
    {
        let d = draws[i] as u8;
        let c = (65u8 + d) as char;
        assert(c == letter(draws@[i as int] as int));
        push_char(&mut out, c);
        assert(code_of(draws@.subrange(0, i + 1)) =~= code_of(draws@.subrange(0, i as int)).push(c));
        i = i + 1;
    }
    assert(draws@.subrange(0, i as int) =~= draws@);
    out
}

/// Every code spelled from positions inside the alphabet is a code, given
/// eight positions.
pub proof fn lemma_code_of_is_code(draws: Seq<usize>)
    requires
        draws.len() == CODE_SIZE,
        forall|i: int| 0 <= i < draws.len() ==> draws[i] < ALPHABET_SIZE,
    ensures
        is_code(code_of(draws)),
{
    assert forall|i: int| 0 <= i < code_of(draws).len() implies 'A' <= #[trigger] code_of(draws)[i]
        <= 'Z' by {
        assert(code_of(draws)[i] == letter(draws[i] as int));
    }
}

/// Draws a fresh code: eight letters chosen uniformly and independently from
/// `A` to `Z`.
pub fn generate_code() -> (r: String)
    ensures
        is_code(r@),
{
    let mut draws: Vec<usize> = Vec::new();
    let mut i: usize = 0;
    while i < CODE_SIZE
        invariant
            i <= CODE_SIZE,
            draws@.len() == i,
            forall|j: int| 0 <= j < draws@.len() ==> draws@[j] < ALPHABET_SIZE,
        decreases CODE_SIZE - i,
    {
        let d = random_below(ALPHABET_SIZE);
        draws.push(d);
        i = i + 1;
    }
    proof {
        lemma_code_of_is_code(draws@);
    }
    code_of_draws(&draws)
}

/// How long a code stays valid: three hours, in seconds.
pub const CODE_LIFETIME: i64 = 10800;

/// When a code issued at `now` expires: three hours later, or at the last
/// representable instant where that is past it.
pub open spec fn expiry_after(now: i64) -> i64 {
    if now <= i64::MAX - CODE_LIFETIME {
        (now + CODE_LIFETIME) as i64
    } else {
        i64::MAX
    }
}

/// A code and the instant (seconds since the Unix epoch) after which it no
/// longer validates.
#[derive(Debug)]
pub struct CodeEntry {
    pub code: String,
    pub expires_at: i64,
}

impl View for CodeEntry {
    type V = (Seq<char>, i64);

    open spec fn view(&self) -> (Seq<char>, i64) {
        (self.code@, self.expires_at)
    }
}

/// The entries of a list, as plain values.
pub open spec fn entries_of(v: Seq<CodeEntry>) -> Seq<(Seq<char>, i64)> {
    v.map_values(|e: CodeEntry| e@)
}

/// The codes issued for one address, oldest first.
#[derive(Debug)]
pub struct CodeList {
    pub email: String,
    pub codes: Vec<CodeEntry>,
}

impl View for CodeList {
    type V = (Seq<char>, Seq<(Seq<char>, i64)>);

    open spec fn view(&self) -> (Seq<char>, Seq<(Seq<char>, i64)>) {
        (self.email@, entries_of(self.codes@))
    }
}

/// The lists of a store, as plain values.
pub open spec fn lists_view(v: Seq<CodeList>) -> Seq<(Seq<char>, Seq<(Seq<char>, i64)>)> {
    v.map_values(|l: CodeList| l@)
}

/// A store of code lists: addresses in strictly increasing order, so none
/// twice, and no empty list.
pub open spec fn codes_wf(m: Seq<(Seq<char>, Seq<(Seq<char>, i64)>)>) -> bool {
    &&& forall|i: int, j: int| 0 <= i < j < m.len() ==> m[i].0 != m[j].0
    &&& forall|i: int, j: int| 0 <= i < j < m.len() ==> text_lt(m[i].0, m[j].0)
    &&& forall|i: int| 0 <= i < m.len() ==> (#[trigger] m[i]).1.len() > 0
}

/// The store has a list for `email`.
pub open spec fn has_list(m: Seq<(Seq<char>, Seq<(Seq<char>, i64)>)>, email: Seq<char>) -> bool {
    exists|i: int| 0 <= i < m.len() && (#[trigger] m[i]).0 == email
}

/// The list of codes for `email`, if the store has one.
pub open spec fn codes_for(m: Seq<(Seq<char>, Seq<(Seq<char>, i64)>)>, email: Seq<char>) -> Option<
    Seq<(Seq<char>, i64)>,
> {
    if has_list(m, email) {
        Some(m[choose|i: int| 0 <= i < m.len() && (#[trigger] m[i]).0 == email].1)
    } else {
        None
    }
}

/// The list of codes for `email`, empty where the store has none.
pub open spec fn list_or_empty(m: Seq<(Seq<char>, Seq<(Seq<char>, i64)>)>, email: Seq<char>) -> Seq<
    (Seq<char>, i64),
> {
    match codes_for(m, email) {
        Some(l) => l,
        None => Seq::empty(),
    }
}

/// The expiry of the first entry at or after position `i` whose code is `code`.
pub open spec fn first_expiry_from(l: Seq<(Seq<char>, i64)>, code: Seq<char>, i: int) -> Option<i64>
    decreases l.len() - i,
{
    if i < 0 || i >= l.len() {
        None
    } else if l[i].0 == code {
        Some(l[i].1)
    } else {
        first_expiry_from(l, code, i + 1)
    }
}

/// The expiry of the first entry whose code is `code`.
pub open spec fn first_expiry(l: Seq<(Seq<char>, i64)>, code: Seq<char>) -> Option<i64> {
    first_expiry_from(l, code, 0)
}

/// The outcome of presenting `code` for `email` at instant `now`.
pub open spec fn code_check(
    m: Seq<(Seq<char>, Seq<(Seq<char>, i64)>)>,
    email: Seq<char>,
    code: Seq<char>,
    now: i64,
) -> Result<(), LocalStorageError> {
    match codes_for(m, email) {
        None => Err(LocalStorageError::UserNotFound),
        Some(l) => match first_expiry(l, code) {
            None => Err(LocalStorageError::CodeNotValid),
            Some(exp) => if exp < now {
                Err(LocalStorageError::CodeExpired)
            } else {
                Ok(())
            },
        },
    }
}

/// An entry whose code is not `code`.
pub open spec fn other_code(code: Seq<char>) -> spec_fn((Seq<char>, i64)) -> bool {
    |e: (Seq<char>, i64)| e.0 != code
}

/// An entry that has not expired at `now`.
pub open spec fn unexpired(now: i64) -> spec_fn((Seq<char>, i64)) -> bool {
    |e: (Seq<char>, i64)| e.1 >= now
}

/// A list, or nothing where it is empty.
pub open spec fn prune(l: Seq<(Seq<char>, i64)>) -> Option<Seq<(Seq<char>, i64)>> {
    if l.len() == 0 {
        None
    } else {
        Some(l)
    }
}

/// A list after the entries that fail `keep` are dropped, or nothing where
/// none is left.
pub open spec fn retained(o: Option<Seq<(Seq<char>, i64)>>, keep: spec_fn((Seq<char>, i64)) -> bool) -> Option<
    Seq<(Seq<char>, i64)>,
> {
    match o {
        None => None,
        Some(l) => prune(l.filter(keep)),
    }
}

proof fn lemma_codes_for_at(m: Seq<(Seq<char>, Seq<(Seq<char>, i64)>)>, i: int)
    requires
        codes_wf(m),
        0 <= i < m.len(),
    ensures
        codes_for(m, m[i].0) == Some(m[i].1),
{
    assert(has_list(m, m[i].0));
    let j = choose|j: int| 0 <= j < m.len() && (#[trigger] m[j]).0 == m[i].0;
    if j != i {
        if j < i {
            assert(m[j].0 != m[i].0);
        } else {
            assert(m[i].0 != m[j].0);
        }
    }
}

proof fn lemma_codes_for_push(
    m: Seq<(Seq<char>, Seq<(Seq<char>, i64)>)>,
    email: Seq<char>,
    l: Seq<(Seq<char>, i64)>,
)
    requires
        codes_wf(m),
        codes_for(m, email) is None,
        l.len() > 0,
        forall|j: int| 0 <= j < m.len() ==> text_lt(#[trigger] m[j].0, email),
    ensures
        codes_wf(m.push((email, l))),
        codes_for(m.push((email, l)), email) == Some(l),
        forall|k: Seq<char>| k != email ==> #[trigger] codes_for(m.push((email, l)), k) == codes_for(m, k),
{
    let n = m.push((email, l));
    assert forall|i: int| 0 <= i < m.len() implies n[i].0 != email by {
        assert(n[i] == m[i]);
    }
    assert forall|i: int, j: int| 0 <= i < j < n.len() implies n[i].0 != n[j].0 by {
        if j < m.len() {
            assert(n[i] == m[i] && n[j] == m[j]);
        }
    }
    assert forall|i: int, j: int| 0 <= i < j < n.len() implies text_lt(n[i].0, n[j].0) by {
        assert(n[i] == m[i]);
        if j < m.len() {
            assert(n[j] == m[j]);
        }
    }
    assert forall|i: int| 0 <= i < n.len() implies (#[trigger] n[i]).1.len() > 0 by {
        if i < m.len() {
            assert(n[i] == m[i]);
        }
    }
    lemma_codes_for_at(n, m.len() as int);
    assert forall|k: Seq<char>| k != email implies #[trigger] codes_for(n, k) == codes_for(m, k) by {
        if has_list(m, k) {
            let i = choose|i: int| 0 <= i < m.len() && (#[trigger] m[i]).0 == k;
            lemma_codes_for_at(m, i);
            assert(n[i] == m[i]);
            lemma_codes_for_at(n, i);
        } else {
            if has_list(n, k) {
                let i = choose|i: int| 0 <= i < n.len() && (#[trigger] n[i]).0 == k;
                assert(i < m.len());
                assert(n[i] == m[i]);
            }
        }
    }
}

proof fn lemma_codes_for_insert(
    m: Seq<(Seq<char>, Seq<(Seq<char>, i64)>)>,
    p: int,
    email: Seq<char>,
    l: Seq<(Seq<char>, i64)>,
)
    requires
        codes_wf(m),
        0 <= p <= m.len(),
        l.len() > 0,
        forall|j: int| 0 <= j < p ==> text_lt(#[trigger] m[j].0, email),
        forall|j: int| p <= j < m.len() ==> text_lt(email, #[trigger] m[j].0),
    ensures
        codes_wf(m.insert(p, (email, l))),
        codes_for(m.insert(p, (email, l)), email) == Some(l),
        forall|k: Seq<char>| k != email ==> #[trigger] codes_for(m.insert(p, (email, l)), k) == codes_for(m, k),
{
    let n = m.insert(p, (email, l));
    assert forall|a: int| 0 <= a < n.len() implies n[a] == (if a < p {
        m[a]
    } else if a == p {
        (email, l)
    } else {
        m[a - 1]
    }) by {}
    assert forall|a: int, b: int| 0 <= a < b < n.len() implies text_lt(n[a].0, n[b].0) by {
        if a < p && b > p {
            lemma_text_lt_transitive(m[a].0, email, m[b - 1].0);
        }
    }
    assert forall|a: int, b: int| 0 <= a < b < n.len() implies n[a].0 != n[b].0 by {
        lemma_text_lt_irreflexive(n[a].0);
    }
    assert forall|a: int| 0 <= a < n.len() implies (#[trigger] n[a]).1.len() > 0 by {}
    lemma_codes_for_at(n, p);
    assert forall|k: Seq<char>| k != email implies #[trigger] codes_for(n, k) == codes_for(m, k) by {
        if has_list(m, k) {
            let j = choose|j: int| 0 <= j < m.len() && (#[trigger] m[j]).0 == k;
            lemma_codes_for_at(m, j);
            let a = if j < p {
                j
            } else {
                j + 1
            };
            assert(n[a] == m[j]);
            lemma_codes_for_at(n, a);
        } else {
            if has_list(n, k) {
                let a = choose|a: int| 0 <= a < n.len() && (#[trigger] n[a]).0 == k;
                if a < p {
                    assert(m[a].0 == k);
                } else if a > p {
                    assert(m[a - 1].0 == k);
                }
            }
        }
    }
}

proof fn lemma_codes_for_update(
    m: Seq<(Seq<char>, Seq<(Seq<char>, i64)>)>,
    i: int,
    l: Seq<(Seq<char>, i64)>,
)
    requires
        codes_wf(m),
        0 <= i < m.len(),
        l.len() > 0,
    ensures
        codes_wf(m.update(i, (m[i].0, l))),
        codes_for(m.update(i, (m[i].0, l)), m[i].0) == Some(l),
        forall|k: Seq<char>| k != m[i].0 ==> #[trigger] codes_for(m.update(i, (m[i].0, l)), k) == codes_for(m, k),
{
    let n = m.update(i, (m[i].0, l));
    assert forall|a: int, b: int| 0 <= a < b < n.len() implies n[a].0 != n[b].0 && text_lt(
        n[a].0,
        n[b].0,
    ) by {
        assert(n[a].0 == m[a].0 && n[b].0 == m[b].0);
    }
    assert forall|a: int| 0 <= a < n.len() implies (#[trigger] n[a]).1.len() > 0 by {
        if a != i {
            assert(n[a] == m[a]);
        }
    }
    lemma_codes_for_at(n, i);
    assert forall|k: Seq<char>| k != m[i].0 implies #[trigger] codes_for(n, k) == codes_for(m, k) by {
        if has_list(m, k) {
            let j = choose|j: int| 0 <= j < m.len() && (#[trigger] m[j]).0 == k;
            lemma_codes_for_at(m, j);
            assert(n[j] == m[j]);
            lemma_codes_for_at(n, j);
        } else {
            if has_list(n, k) {
                let j = choose|j: int| 0 <= j < n.len() && (#[trigger] n[j]).0 == k;
                assert(n[j] == m[j]);
            }
        }
    }
}

proof fn lemma_codes_for_remove(m: Seq<(Seq<char>, Seq<(Seq<char>, i64)>)>, i: int)
    requires
        codes_wf(m),
        0 <= i < m.len(),
    ensures
        codes_wf(m.remove(i)),
        codes_for(m.remove(i), m[i].0) is None,
        forall|k: Seq<char>| k != m[i].0 ==> #[trigger] codes_for(m.remove(i), k) == codes_for(m, k),
{
    let n = m.remove(i);
    assert forall|a: int| 0 <= a < n.len() implies n[a] == (if a < i {
        m[a]
    } else {
        m[a + 1]
    }) by {}
    assert forall|a: int, b: int| 0 <= a < b < n.len() implies n[a].0 != n[b].0 && text_lt(
        n[a].0,
        n[b].0,
    ) by {}
    assert forall|a: int| 0 <= a < n.len() implies (#[trigger] n[a]).1.len() > 0 by {}
    if has_list(n, m[i].0) {
        let a = choose|a: int| 0 <= a < n.len() && (#[trigger] n[a]).0 == m[i].0;
        assert(false);
    }
    assert forall|k: Seq<char>| k != m[i].0 implies #[trigger] codes_for(n, k) == codes_for(m, k) by {
        if has_list(m, k) {
            let j = choose|j: int| 0 <= j < m.len() && (#[trigger] m[j]).0 == k;
            lemma_codes_for_at(m, j);
            let a = if j < i {
                j
            } else {
                j - 1
            };
            assert(n[a] == m[j]);
            lemma_codes_for_at(n, a);
        } else {
            if has_list(n, k) {
                let a = choose|a: int| 0 <= a < n.len() && (#[trigger] n[a]).0 == k;
                if a < i {
                    assert(m[a].0 == k);
                } else {
                    assert(m[a + 1].0 == k);
                }
            }
        }
    }
}

proof fn lemma_wf_prefix(m: Seq<(Seq<char>, Seq<(Seq<char>, i64)>)>, i: int)
    requires
        codes_wf(m),
        0 <= i < m.len(),
    ensures
        codes_wf(m.subrange(0, i)),
        codes_for(m.subrange(0, i), m[i].0) is None,
        m.subrange(0, i + 1) == m.subrange(0, i).push(m[i]),
{
    let p = m.subrange(0, i);
    assert forall|a: int, b: int| 0 <= a < b < p.len() implies p[a].0 != p[b].0 && text_lt(
        p[a].0,
        p[b].0,
    ) by {
        assert(p[a] == m[a] && p[b] == m[b]);
    }
    assert forall|a: int| 0 <= a < p.len() implies (#[trigger] p[a]).1.len() > 0 by {
        assert(p[a] == m[a]);
    }
    if has_list(p, m[i].0) {
        let a = choose|a: int| 0 <= a < p.len() && (#[trigger] p[a]).0 == m[i].0;
        assert(p[a] == m[a]);
    }
    assert(m.subrange(0, i + 1) =~= p.push(m[i]));
}

fn clone_entry(e: &CodeEntry) -> (r: CodeEntry)
    ensures
        r@ == e@,
{
    CodeEntry { code: e.code.clone(), expires_at: e.expires_at }
}

/// The entries of `v` whose code is not `code`, in order.
fn entries_without(v: &Vec<CodeEntry>, code: &String) -> (r: Vec<CodeEntry>)
    ensures
        entries_of(r@) == entries_of(v@).filter(other_code(code@)),
{
    let mut out: Vec<CodeEntry> = Vec::new();
    let mut i: usize = 0;
    while i < v.len()
        invariant
            i <= v@.len(),
            entries_of(out@) == entries_of(v@.subrange(0, i as int)).filter(other_code(code@)),
        decreases v@.len() - i,
    {
        let ghost before = entries_of(v@.subrange(0, i as int));
        let ghost after = entries_of(v@.subrange(0, i + 1));
        assert(after.drop_last() =~= before);
        assert(after.last() == v@[i as int]@);
        proof {
            reveal(Seq::filter);
        }
        if v[i].code != *code {
            out.push(clone_entry(&v[i]));
            assert(entries_of(out@) =~= before.filter(other_code(code@)).push(v@[i as int]@));
        }
        i = i + 1;
    }
    assert(v@.subrange(0, i as int) =~= v@);
    out
}

/// The entries of `v` that have not expired at `now`, in order.
fn entries_unexpired(v: &Vec<CodeEntry>, now: i64) -> (r: Vec<CodeEntry>)
    ensures
        entries_of(r@) == entries_of(v@).filter(unexpired(now)),
{
    let mut out: Vec<CodeEntry> = Vec::new();
    let mut i: usize = 0;
    while i < v.len()
        invariant
            i <= v@.len(),
            entries_of(out@) == entries_of(v@.subrange(0, i as int)).filter(unexpired(now)),
        decreases v@.len() - i,
    {
        let ghost before = entries_of(v@.subrange(0, i as int));
        let ghost after = entries_of(v@.subrange(0, i + 1));
        assert(after.drop_last() =~= before);
        assert(after.last() == v@[i as int]@);
        proof {
            reveal(Seq::filter);
        }
        if v[i].expires_at >= now {
            out.push(clone_entry(&v[i]));
            assert(entries_of(out@) =~= before.filter(unexpired(now)).push(v@[i as int]@));
        }
        i = i + 1;
    }
    assert(v@.subrange(0, i as int) =~= v@);
    out
}


proof fn lemma_first_expiry_push(
    l: Seq<(Seq<char>, i64)>,
    e: (Seq<char>, i64),
    code: Seq<char>,
    i: int,
)
    requires
        0 <= i <= l.len(),
        e.0 == code,
        first_expiry_from(l, code, i) is None,
    ensures
        first_expiry_from(l.push(e), code, i) == Some(e.1),
    decreases l.len() - i,
{
    let n = l.push(e);
    if i < l.len() {
        assert(n[i] == l[i]);
        lemma_first_expiry_push(l, e, code, i + 1);
    } else {
        assert(n[i] == e);
    }
}

/// A code just issued at `now` validates at every instant from `now` up to
/// its expiry, three hours later, and reports `CodeExpired` at every instant
/// after that, provided the address's list held no entry with the same code.
pub proof fn lemma_issued_code_validates(
    before: Seq<(Seq<char>, Seq<(Seq<char>, i64)>)>,
    after: Seq<(Seq<char>, Seq<(Seq<char>, i64)>)>,
    email: Seq<char>,
    code: Seq<char>,
    now: i64,
    t: i64,
)
    requires
        codes_for(after, email) == Some(
            list_or_empty(before, email).push((code, expiry_after(now))),
        ),
        first_expiry(list_or_empty(before, email), code) is None,
    ensures
        now <= i64::MAX - CODE_LIFETIME ==> expiry_after(now) == now + CODE_LIFETIME,
        now <= t <= expiry_after(now) ==> code_check(after, email, code, t) == Ok::<
            (),
            LocalStorageError,
        >(()),
        t > expiry_after(now) ==> code_check(after, email, code, t) == Err::<(), LocalStorageError>(
            LocalStorageError::CodeExpired,
        ),
{
    lemma_first_expiry_push(list_or_empty(before, email), (code, expiry_after(now)), code, 0);
}

/// After cleaning at `now`, no list holds an entry whose expiry is before
/// `now`, and no address keeps an empty list.
pub proof fn lemma_clean_leaves_no_expired(o: Option<Seq<(Seq<char>, i64)>>, now: i64)
    ensures
        retained(o, unexpired(now)) matches Some(l) ==> l.len() > 0 && forall|i: int|
            0 <= i < l.len() ==> (#[trigger] l[i]).1 >= now,
{
    if let Some(l) = o {
        broadcast use vstd::seq_lib::group_filter_ensures;

        let f = l.filter(unexpired(now));
        assert forall|i: int| 0 <= i < f.len() implies (#[trigger] f[i]).1 >= now by {
            assert(unexpired(now)(f[i]));
        }
    }
}


/// Index of the list for `email`, if any.
pub(crate) fn find_list(lists: &Vec<CodeList>, email: &String) -> (r: Option<usize>)
    ensures
        match r {
            Some(i) => i < lists@.len() && lists@[i as int]@.0 == email@,
            None => forall|i: int| 0 <= i < lists@.len() ==> lists@[i]@.0 != email@,
        },
{
    let mut i: usize = 0;
    while i < lists.len()
        invariant
            i <= lists@.len(),
            forall|j: int| 0 <= j < i ==> lists@[j]@.0 != email@,
        decreases lists@.len() - i,
    {
        if lists[i].email == *email {
            return Some(i);
        }
        i = i + 1;
    }
    None
}

/// Where a list for `email`, which the store does not have, goes to keep
/// the addresses in order.
fn insert_position(lists: &Vec<CodeList>, email: &String) -> (p: usize)
    requires
        codes_wf(lists_view(lists@)),
        forall|i: int| 0 <= i < lists@.len() ==> lists@[i]@.0 != email@,
    ensures
        p <= lists@.len(),
        forall|j: int| 0 <= j < p ==> text_lt(#[trigger] lists_view(lists@)[j].0, email@),
        forall|j: int| p <= j < lists@.len() ==> text_lt(email@, #[trigger] lists_view(lists@)[j].0),
{
    let ghost m = lists_view(lists@);
    let mut i: usize = 0;
    while i < lists.len()
        invariant
            i <= lists@.len(),
            m == lists_view(lists@),
            codes_wf(m),
            forall|k: int| 0 <= k < lists@.len() ==> lists@[k]@.0 != email@,
            forall|j: int| 0 <= j < i ==> text_lt(#[trigger] m[j].0, email@),
        decreases lists@.len() - i,
    {
        assert(m[i as int] == lists@[i as int]@);
        if text_less(email, &lists[i].email) {
            assert forall|j: int| i <= j < lists@.len() implies text_lt(email@, #[trigger] m[j].0) by {
                if j > i {
                    lemma_text_lt_transitive(email@, m[i as int].0, m[j].0);
                }
            }
            return i;
        }
        proof {
            lemma_text_lt_total(email@, m[i as int].0);
        }
        i = i + 1;
    }
    i
}

/// The codes issued for each address, each with its expiry. Each address
/// has one list, never empty, that keeps the order in which its codes were
/// issued.
#[derive(Debug)]
pub struct CodeLocalStorage {
    lists: Vec<CodeList>,
}

impl View for CodeLocalStorage {
    type V = Seq<(Seq<char>, Seq<(Seq<char>, i64)>)>;

    closed spec fn view(&self) -> Seq<(Seq<char>, Seq<(Seq<char>, i64)>)> {
        lists_view(self.lists@)
    }
}

impl Storage for CodeLocalStorage {

}

impl CodeLocalStorage {
    #[verifier::type_invariant]
    spec fn inv(self) -> bool {
        codes_wf(self@)
    }

    /// The outcome of presenting `code` for `email` at instant `now`: no list
    /// for the address, no entry with that code, the first such entry
    /// expired, or valid. Nothing is consumed.
    pub fn validate_code_at(&self, email: &EMail, code: &str, now: i64) -> (r: Result<
        (),
        LocalStorageError,
    >)
        ensures
            r == code_check(self@, email@, code@, now),
    {
        proof {
            use_type_invariant(self);
        }
        let key = String::from_str(email.as_str());
        let wanted = String::from_str(code);
        match find_list(&self.lists, &key) {
            None => {
                proof {
                    if has_list(self@, email@) {
                        let i = choose|i: int| 0 <= i < self@.len() && (#[trigger] self@[i]).0 == email@;
                        assert(self@[i] == self.lists@[i]@);
                    }
                }
                Err(LocalStorageError::UserNotFound)
            },
            Some(i) => {
                proof {
                    assert(self@[i as int] == self.lists@[i as int]@);
                    lemma_codes_for_at(self@, i as int);
                }
                let l = &self.lists[i].codes;
                let ghost entries = entries_of(l@);
                assert(codes_for(self@, email@) == Some(entries));
                let mut j: usize = 0;
                while j < l.len()
                    invariant
                        j <= l@.len(),
                        entries == entries_of(l@),
                        wanted@ == code@,
                        codes_for(self@, email@) == Some(entries),
                        first_expiry(entries, code@) == first_expiry_from(entries, code@, j as int),
                    decreases l@.len() - j,
                {
                    assert(entries[j as int] == l@[j as int]@);
                    if l[j].code == wanted {
                        if l[j].expires_at < now {
                            return Err(LocalStorageError::CodeExpired);
                        } else {
                            return Ok(());
                        }
                    }
                    j = j + 1;
                }
                Err(LocalStorageError::CodeNotValid)
            },
        }
    }

    /// Appends `code`, expiring three hours after `now`, to the list for
    /// `email`, which is created where there is none. Other lists stay.
    pub fn issue_code(&mut self, email: &EMail, code: &str, now: i64)
        ensures
            codes_for(final(self)@, email@) == Some(
                list_or_empty(old(self)@, email@).push((code@, expiry_after(now))),
            ),
            forall|k: Seq<char>|
                k != email@ ==> #[trigger] codes_for(final(self)@, k) == codes_for(old(self)@, k),
    {
        proof {
            use_type_invariant(&*self);
        }
        let expires_at = if now <= i64::MAX - CODE_LIFETIME {
            now + CODE_LIFETIME
        } else {
            i64::MAX
        };
        let entry = CodeEntry { code: String::from_str(code), expires_at };
        let key = String::from_str(email.as_str());
        let ghost m = self@;
        let mut lists: Vec<CodeList> = Vec::new();
        std::mem::swap(&mut self.lists, &mut lists);
        assert(lists_view(lists@) == m);
        match find_list(&lists, &key) {
            Some(i) => {
                proof {
                    assert(m[i as int] == lists@[i as int]@);
                    lemma_codes_for_at(m, i as int);
                }
                let ghost before = lists@[i as int];
                lists[i].codes.push(entry);
                proof {
                    let l = m[i as int].1.push((code@, expiry_after(now)));
                    assert(entries_of(lists@[i as int].codes@) =~= l);
                    assert(lists_view(lists@) =~= m.update(i as int, (m[i as int].0, l)));
                    lemma_codes_for_update(m, i as int, l);
                }
                self.lists = lists;
            },
            None => {
                proof {
                    if has_list(m, email@) {
                        let i = choose|i: int| 0 <= i < m.len() && (#[trigger] m[i]).0 == email@;
                        assert(m[i] == lists@[i]@);
                    }
                }
                let p = insert_position(&lists, &key);
                let mut codes: Vec<CodeEntry> = Vec::new();
                codes.push(entry);
                lists.insert(p, CodeList { email: key, codes });
                proof {
                    let l = seq![(code@, expiry_after(now))];
                    assert(entries_of(lists@[p as int].codes@) =~= l);
                    assert(lists_view(lists@) =~= m.insert(p as int, (email@, l)));
                    assert(Seq::<(Seq<char>, i64)>::empty().push((code@, expiry_after(now))) =~= l);
                    lemma_codes_for_insert(m, p as int, email@, l);
                }
                self.lists = lists;
            },
        }
    }

    /// Drops every entry of the list for `email` whose code is `code`; the
    /// list goes where none is left. Other lists stay.
    pub fn remove_code(&mut self, email: &EMail, code: &str)
        ensures
            codes_for(final(self)@, email@) == retained(
                codes_for(old(self)@, email@),
                other_code(code@),
            ),
            forall|k: Seq<char>|
                k != email@ ==> #[trigger] codes_for(final(self)@, k) == codes_for(old(self)@, k),
    {
        proof {
            use_type_invariant(&*self);
        }
        let key = String::from_str(email.as_str());
        let unwanted = String::from_str(code);
        let ghost m = self@;
        let mut lists: Vec<CodeList> = Vec::new();
        std::mem::swap(&mut self.lists, &mut lists);
        assert(lists_view(lists@) == m);
        match find_list(&lists, &key) {
            None => {
                proof {
                    if has_list(m, email@) {
                        let i = choose|i: int| 0 <= i < m.len() && (#[trigger] m[i]).0 == email@;
                        assert(m[i] == lists@[i]@);
                    }
                }
                self.lists = lists;
            },
            Some(i) => {
                proof {
                    assert(m[i as int] == lists@[i as int]@);
                    lemma_codes_for_at(m, i as int);
                }
                let kept = entries_without(&lists[i].codes, &unwanted);
                if kept.len() == 0 {
                    lists.remove(i);
                    proof {
                        assert(lists_view(lists@) =~= m.remove(i as int));
                        lemma_codes_for_remove(m, i as int);
                    }
                    self.lists = lists;
                } else {
                    let ghost l = entries_of(kept@);
                    lists[i].codes = kept;
                    proof {
                        assert(lists_view(lists@) =~= m.update(
                            i as int,
                            (m[i as int].0, l),
                        ));
                        lemma_codes_for_update(m, i as int, l);
                    }
                    self.lists = lists;
                }
            },
        }
    }

    /// Drops every entry that has expired at `now` (its expiry is before
    /// `now`); a list goes where none is left.
    pub fn clean_codes_at(&mut self, now: i64)
        ensures
            forall|k: Seq<char>|
                #[trigger] codes_for(final(self)@, k) == retained(
                    codes_for(old(self)@, k),
                    unexpired(now),
                ),
    {
        proof {
            use_type_invariant(&*self);
        }
        let ghost m = self@;
        let mut lists: Vec<CodeList> = Vec::new();
        std::mem::swap(&mut self.lists, &mut lists);
        assert(lists_view(lists@) == m);
        let mut out: Vec<CodeList> = Vec::new();
        let mut i: usize = 0;
        proof {
            assert(lists_view(out@) =~= Seq::<
                (Seq<char>, Seq<(Seq<char>, i64)>),
            >::empty());
            assert forall|k: Seq<char>|
                #[trigger] codes_for(lists_view(out@), k) == retained(
                    codes_for(m.subrange(0, 0), k),
                    unexpired(now),
                ) by {
                assert(!has_list(m.subrange(0, 0), k));
            }
        }
        while i < lists.len()
            invariant
                i <= lists@.len(),
                m == lists_view(lists@),
                codes_wf(m),
                codes_wf(lists_view(out@)),
                forall|a: int, k: int|
                    0 <= a < out@.len() && i <= k < m.len() ==> text_lt(
                        #[trigger] lists_view(out@)[a].0,
                        #[trigger] m[k].0,
                    ),
                forall|k: Seq<char>|
                    #[trigger] codes_for(lists_view(out@), k) == retained(
                        codes_for(m.subrange(0, i as int), k),
                        unexpired(now),
                    ),
            decreases lists@.len() - i,
        {
            let ghost o = lists_view(out@);
            let ghost prefix = m.subrange(0, i as int);
            proof {
                assert(m[i as int] == lists@[i as int]@);
                lemma_wf_prefix(m, i as int);
                lemma_codes_for_push(prefix, m[i as int].0, m[i as int].1);
            }
            let kept = entries_unexpired(&lists[i].codes, now);
            if kept.len() > 0 {
                let ghost l = entries_of(kept@);
                let email = lists[i].email.clone();
                out.push(CodeList { email, codes: kept });
                proof {
                    assert(lists_view(out@) =~= o.push((m[i as int].0, l)));
                    assert forall|a: int, k: int|
                        0 <= a < out@.len() && i + 1 <= k < m.len() implies text_lt(
                        #[trigger] lists_view(out@)[a].0,
                        #[trigger] m[k].0,
                    ) by {
                        if a < o.len() {
                            assert(lists_view(out@)[a] == o[a]);
                        }
                    }
                    assert(codes_for(o, m[i as int].0) == retained(
                        codes_for(prefix, m[i as int].0),
                        unexpired(now),
                    ));
                    lemma_codes_for_push(o, m[i as int].0, l);
                }
            } else {
                assert(lists_view(out@) == o);
            }
            i = i + 1;
        }
        assert(m.subrange(0, i as int) =~= m);
        self.lists = out;
    }

    /// `validate_code_at` at the current time.
    pub fn validate_code(&self, email: &EMail, code: &str) -> (r: Result<(), LocalStorageError>)
        ensures
            exists|now: i64| now >= 0 && r == code_check(self@, email@, code@, now),
    {
        let now = now_unix_seconds();
        self.validate_code_at(email, code, now)
    }

    /// Issues a fresh code for `email` at the current time and returns it.
    pub fn create_code(&mut self, email: &EMail) -> (r: String)
        ensures
            is_code(r@),
            exists|now: i64|
                now >= 0 && codes_for(final(self)@, email@) == Some(
                    list_or_empty(old(self)@, email@).push((r@, expiry_after(now))),
                ),
            forall|k: Seq<char>|
                k != email@ ==> #[trigger] codes_for(final(self)@, k) == codes_for(old(self)@, k),
    {
        let code = generate_code();
        let now = now_unix_seconds();
        self.issue_code(email, code.as_str(), now);
        code
    }

    /// `clean_codes_at` at the current time.
    pub fn clean_codes(&mut self)
        ensures
            exists|now: i64|
                #![trigger unexpired(now)]
                now >= 0 && forall|k: Seq<char>|
                    #[trigger] codes_for(final(self)@, k) == retained(
                        codes_for(old(self)@, k),
                        unexpired(now),
                    ),
    {
        let now = now_unix_seconds();
        self.clean_codes_at(now);
    }

    /// A store made of lists that are already well formed.
    pub(crate) fn from_lists(lists: Vec<CodeList>) -> (r: CodeLocalStorage)
        requires
            codes_wf(lists_view(lists@)),
        ensures
            r@ == lists_view(lists@),
    {
        CodeLocalStorage { lists }
    }

    /// The store's lists.
    pub(crate) fn lists(&self) -> (r: &Vec<CodeList>)
        ensures
            lists_view(r@) == self@,
            codes_wf(self@),
    {
        proof {
            use_type_invariant(self);
        }
        &self.lists
    }

    /// An empty store.
    pub fn new() -> (r: CodeLocalStorage)
        ensures
            r@ == Seq::<(Seq<char>, Seq<(Seq<char>, i64)>)>::empty(),
    {
        let r = CodeLocalStorage { lists: Vec::new() };
        assert(r@ =~= Seq::<(Seq<char>, Seq<(Seq<char>, i64)>)>::empty());
        r
    }
}


} // verus!

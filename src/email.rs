use vstd::prelude::*;

use crate::text::chars_of;

verus! {

/// A lowercase ASCII letter.
pub open spec fn is_lower(c: char) -> bool {
    'a' <= c <= 'z'
}

/// A lowercase ASCII letter or a decimal digit.
pub open spec fn is_alnum(c: char) -> bool {
    is_lower(c) || ('0' <= c <= '9')
}

/// A character that may start or end the local part: `[a-z0-9_+]`.
pub open spec fn is_local_edge(c: char) -> bool {
    is_alnum(c) || c == '_' || c == '+'
}

/// A separator between two runs of the host name: `[-.]`.
pub open spec fn is_host_sep(c: char) -> bool {
    c == '-' || c == '.'
}

/// The local part: `[a-z0-9_+]([a-z0-9_+.]*[a-z0-9_+])?`.
pub open spec fn is_local_part(s: Seq<char>) -> bool {
    &&& s.len() >= 1
    &&& is_local_edge(s[0])
    &&& is_local_edge(s[s.len() - 1])
    &&& forall|i: int| 0 <= i < s.len() ==> is_local_edge(#[trigger] s[i]) || s[i] == '.'
}

/// The host name before the last dot: `[a-z0-9]+([-.][a-z0-9]+)*`.
pub open spec fn is_host_part(s: Seq<char>) -> bool {
    &&& s.len() >= 1
    &&& is_alnum(s[0])
    &&& is_alnum(s[s.len() - 1])
    &&& forall|i: int| 0 <= i < s.len() ==> is_alnum(#[trigger] s[i]) || is_host_sep(s[i])
    &&& forall|i: int|
        0 <= i < s.len() - 1 ==> !(is_host_sep(#[trigger] s[i]) && is_host_sep(s[i + 1]))
}

/// The top-level label: `[a-z]{2,6}`.
pub open spec fn is_top_label(s: Seq<char>) -> bool {
    &&& 2 <= s.len() <= 6
    &&& forall|i: int| 0 <= i < s.len() ==> is_lower(#[trigger] s[i])
}

/// The domain: a host name, a dot, and a top-level label.
pub open spec fn is_domain(s: Seq<char>) -> bool {
    exists|k: int|
        0 <= k < s.len() && s[k] == '.' && is_host_part(#[trigger] s.subrange(0, k))
            && is_top_label(s.subrange(k + 1, s.len() as int))
}

/// The whole address grammar: a local part, `@`, and a domain, with nothing
/// before or after.
pub open spec fn is_email(s: Seq<char>) -> bool {
    exists|k: int|
        0 <= k < s.len() && s[k] == '@' && is_local_part(#[trigger] s.subrange(0, k))
            && is_domain(s.subrange(k + 1, s.len() as int))
}

/// A character that can stand somewhere in an address: `[a-z0-9_+.@-]`.
pub open spec fn is_address_char(c: char) -> bool {
    is_local_edge(c) || c == '.' || c == '@' || c == '-'
}

/// Every character of an address is an address character.
pub proof fn lemma_address_chars(s: Seq<char>)
    requires
        is_email(s),
    ensures
        forall|i: int| 0 <= i < s.len() ==> is_address_char(#[trigger] s[i]),
{
    let k = choose|k: int|
        0 <= k < s.len() && s[k] == '@' && is_local_part(#[trigger] s.subrange(0, k))
            && is_domain(s.subrange(k + 1, s.len() as int));
    let local = s.subrange(0, k);
    let domain = s.subrange(k + 1, s.len() as int);
    let d = choose|d: int|
        0 <= d < domain.len() && domain[d] == '.' && is_host_part(
            #[trigger] domain.subrange(0, d),
        ) && is_top_label(domain.subrange(d + 1, domain.len() as int));
    let host = domain.subrange(0, d);
    let top = domain.subrange(d + 1, domain.len() as int);
    assert forall|i: int| 0 <= i < s.len() implies is_address_char(#[trigger] s[i]) by {
        if i < k {
            assert(local[i] == s[i]);
        } else if i > k {
            let j = i - k - 1;
            assert(domain[j] == s[i]);
            if j < d {
                assert(host[j] == s[i]);
            } else if j > d {
                assert(top[j - d - 1] == s[i]);
            }
        }
    }
}

/// Text without `@`, text whose local part is empty, and text holding a
/// character outside `[a-z0-9_+.@-]` (an uppercase letter, a space, a
/// non-ASCII character) never matches the address grammar, so
/// `EMail::create` refuses it.
pub proof fn lemma_malformed_rejected(s: Seq<char>)
    ensures
        (forall|i: int| 0 <= i < s.len() ==> s[i] != '@') ==> !is_email(s),
        (s.len() > 0 && s[0] == '@') ==> !is_email(s),
        (exists|i: int| 0 <= i < s.len() && !is_address_char(#[trigger] s[i])) ==> !is_email(
            s,
        ),
{
    if is_email(s) {
        lemma_address_chars(s);
        let k = choose|k: int|
            0 <= k < s.len() && s[k] == '@' && is_local_part(#[trigger] s.subrange(0, k))
                && is_domain(s.subrange(k + 1, s.len() as int));
        assert(s.subrange(0, k).len() >= 1);
        assert(s.subrange(0, k)[0] == s[0]);
    }
}

/// Index of the first `c` in `s`, if any.
fn find_first(s: &Vec<char>, c: char) -> (r: Option<usize>)
    ensures
        match r {
            Some(k) => k < s@.len() && s@[k as int] == c && forall|j: int|
                0 <= j < k ==> s@[j] != c,
            None => forall|j: int| 0 <= j < s@.len() ==> s@[j] != c,
        },
{
    let mut i: usize = 0;
    while i < s.len()
        invariant
            i <= s@.len(),
            forall|j: int| 0 <= j < i ==> s@[j] != c,
        decreases s@.len() - i,
    {
        if s[i] == c {
            return Some(i);
        }
        i = i + 1;
    }
    None
}

/// Index of the last `c` in `s[from..]`, if any.
fn find_last_from(s: &Vec<char>, from: usize, c: char) -> (r: Option<usize>)
    requires
        from <= s@.len(),
    ensures
        match r {
            Some(k) => from <= k < s@.len() && s@[k as int] == c && forall|j: int|
                k < j < s@.len() ==> s@[j] != c,
            None => forall|j: int| from <= j < s@.len() ==> s@[j] != c,
        },
{
    let mut i: usize = s.len();
    while i > from
        invariant
            from <= i <= s@.len(),
            forall|j: int| i <= j < s@.len() ==> s@[j] != c,
        decreases i,
    {
        if s[i - 1] == c {
            return Some(i - 1);
        }
        i = i - 1;
    }
    None
}

fn check_lower(c: char) -> (r: bool)
    ensures
        r == is_lower(c),
{
    'a' <= c && c <= 'z'
}

fn check_alnum(c: char) -> (r: bool)
    ensures
        r == is_alnum(c),
{
    check_lower(c) || ('0' <= c && c <= '9')
}

fn check_local_edge(c: char) -> (r: bool)
    ensures
        r == is_local_edge(c),
{
    check_alnum(c) || c == '_' || c == '+'
}

/// Whether `s[lo..hi]` is a local part.
fn check_local_part(s: &Vec<char>, lo: usize, hi: usize) -> (r: bool)
    requires
        lo <= hi <= s@.len(),
    ensures
        r == is_local_part(s@.subrange(lo as int, hi as int)),
{
    let ghost part = s@.subrange(lo as int, hi as int);
    if lo == hi {
        return false;
    }
    if !check_local_edge(s[lo]) || !check_local_edge(s[hi - 1]) {
        return false;
    }
    let mut i: usize = lo;
    while i < hi
        invariant
            lo <= i <= hi <= s@.len(),
            part == s@.subrange(lo as int, hi as int),
            forall|j: int| 0 <= j < i - lo ==> is_local_edge(#[trigger] part[j]) || part[j] == '.',
        decreases hi - i,
    {
        if !check_local_edge(s[i]) && s[i] != '.' {
            assert(!(is_local_edge(part[i - lo]) || part[i - lo] == '.'));
            return false;
        }
        i = i + 1;
    }
    true
}

/// Whether `s[lo..hi]` is a host name.
fn check_host_part(s: &Vec<char>, lo: usize, hi: usize) -> (r: bool)
    requires
        lo <= hi <= s@.len(),
    ensures
        r == is_host_part(s@.subrange(lo as int, hi as int)),
{
    let ghost part = s@.subrange(lo as int, hi as int);
    if lo == hi {
        return false;
    }
    if !check_alnum(s[lo]) || !check_alnum(s[hi - 1]) {
        return false;
    }
    let mut i: usize = lo;
    while i < hi
        invariant
            lo <= i <= hi <= s@.len(),
            part == s@.subrange(lo as int, hi as int),
            forall|j: int| 0 <= j < i - lo ==> is_alnum(#[trigger] part[j]) || is_host_sep(part[j]),
            forall|j: int|
                0 <= j < i - lo && j < part.len() - 1 ==> !(is_host_sep(#[trigger] part[j])
                    && is_host_sep(part[j + 1])),
        decreases hi - i,
    {
        let c = s[i];
        if !check_alnum(c) && c != '-' && c != '.' {
            assert(!(is_alnum(part[i - lo]) || is_host_sep(part[i - lo])));
            return false;
        }
        if i + 1 < hi && (c == '-' || c == '.') && (s[i + 1] == '-' || s[i + 1] == '.') {
            assert(is_host_sep(part[i - lo]) && is_host_sep(part[i - lo + 1]));
            return false;
        }
        i = i + 1;
    }
    true
}

/// Whether `s[lo..hi]` is a top-level label.
fn check_top_label(s: &Vec<char>, lo: usize, hi: usize) -> (r: bool)
    requires
        lo <= hi <= s@.len(),
    ensures
        r == is_top_label(s@.subrange(lo as int, hi as int)),
{
    let ghost part = s@.subrange(lo as int, hi as int);
    if hi - lo < 2 || hi - lo > 6 {
        return false;
    }
    let mut i: usize = lo;
    while i < hi
        invariant
            lo <= i <= hi <= s@.len(),
            part == s@.subrange(lo as int, hi as int),
            forall|j: int| 0 <= j < i - lo ==> is_lower(#[trigger] part[j]),
        decreases hi - i,
    {
        if !check_lower(s[i]) {
            assert(!is_lower(part[i - lo]));
            return false;
        }
        i = i + 1;
    }
    true
}

/// Tells whether `email` matches the address grammar from its first to its
/// last character.
pub fn validate_email(email: &str) -> (r: bool)
    ensures
        r == is_email(email@),
{
    let s = chars_of(email);
    let n = s.len();
    let at = match find_first(&s, '@') {
        Some(k) => k,
        None => {
            return false;
        },
    };
    let ghost local = s@.subrange(0, at as int);
    let ghost domain = s@.subrange(at + 1, n as int);
    proof {
        // A local part holds no `@`, so the only split is at the first one.
        assert forall|k: int|
            0 <= k < s@.len() && s@[k] == '@' && is_local_part(
                #[trigger] s@.subrange(0, k),
            ) implies k == at by {
            if k > at {
                assert(s@.subrange(0, k)[at as int] == '@');
            }
        }
    }
    if !check_local_part(&s, 0, at) {
        return false;
    }
    let dot = match find_last_from(&s, at + 1, '.') {
        Some(k) => k,
        None => {
            proof {
                assert forall|k: int|
                    0 <= k < domain.len() && domain[k] == '.' implies false by {
                    assert(s@[at + 1 + k] == '.');
                }
            }
            return false;
        },
    };
    let ghost d = (dot - at - 1) as int;
    proof {
        // The top-level label holds no dot, so the only split is at the last one.
        assert forall|k: int|
            0 <= k < domain.len() && domain[k] == '.' && is_host_part(
                #[trigger] domain.subrange(0, k),
            ) && is_top_label(domain.subrange(k + 1, domain.len() as int)) implies k == d by {
            if k < d {
                let t = domain.subrange(k + 1, domain.len() as int);
                assert(t[d - k - 1] == domain[d]);
            }
            if k > d {
                assert(s@[at + 1 + k] == '.');
            }
        }
        assert(domain.subrange(0, d) == s@.subrange(at + 1, dot as int));
        assert(domain.subrange(d + 1, domain.len() as int) == s@.subrange(dot + 1, n as int));
    }
    let ok = check_host_part(&s, at + 1, dot) && check_top_label(&s, dot + 1, n);
    proof {
        if ok {
            assert(is_domain(domain));
        }
    }
    ok
}

/// An email address that matches the address grammar.
#[derive(Debug)]
pub struct EMail {
    text: String,
}

/// Why an email address was refused.
#[derive(Debug, Clone, Copy, PartialEq, Eq)]
pub enum EMailError {
    EmailInvalid,
}

impl View for EMail {
    type V = Seq<char>;

    closed spec fn view(&self) -> Seq<char> {
        self.text@
    }
}

impl Clone for EMail {
    fn clone(&self) -> (r: EMail)
        ensures
            r@ == self@,
    {
        proof {
            use_type_invariant(self);
        }
        EMail { text: self.text.clone() }
    }
}

impl EMail {
    #[verifier::type_invariant]
    spec fn inv(self) -> bool {
        is_email(self.text@)
    }

    /// Checks `email` against the address grammar and keeps it unchanged.
    pub fn create(email: &str) -> (r: Result<EMail, EMailError>)
        ensures
            is_email(email@) <==> r is Ok,
            r matches Ok(e) ==> e@ == email@,
            r matches Err(e) ==> e == EMailError::EmailInvalid,
    {
        if validate_email(email) {
            Ok(EMail { text: email.to_string() })
        } else {
            Err(EMailError::EmailInvalid)
        }
    }

    /// The address as text.
    pub fn as_str(&self) -> (r: &str)
        ensures
            r@ == self@,
            is_email(r@),
    {
        proof {
            use_type_invariant(self);
        }
        self.text.as_str()
    }
}

} // verus!

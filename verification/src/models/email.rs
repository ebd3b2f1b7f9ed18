//! A validated email address.
//!
//! An address is accepted when a prefix of it has the shape
//! `local@domain.tld`: a local part of lower-case letters, digits, `_` and
//! `+` (with `.` allowed inside), a domain of lower-case alphanumeric
//! labels joined by `-` or `.`, and a final label of two to six letters.
//! Nothing is required after the final label, so trailing text is ignored.

use vstd::prelude::*;

use crate::text::{find_char, lemma_first_index_of};

verus! {

/// A lower-case letter.
pub open spec fn alpha(c: char) -> bool {
    'a' as u32 <= c as u32 <= 'z' as u32
}

/// A decimal digit.
pub open spec fn num(c: char) -> bool {
    '0' as u32 <= c as u32 <= '9' as u32
}

/// A lower-case letter or digit.
pub open spec fn alnum(c: char) -> bool {
    alpha(c) || num(c)
}

/// A character allowed at the ends of the local part.
pub open spec fn local_char(c: char) -> bool {
    alnum(c) || c == '_' || c == '+'
}

/// A character allowed inside the local part.
pub open spec fn local_mid_char(c: char) -> bool {
    local_char(c) || c == '.'
}

/// A label separator inside the domain.
pub open spec fn sep(c: char) -> bool {
    c == '-' || c == '.'
}

/// The local part: non-empty, ends made of [`local_char`], inside made of
/// [`local_mid_char`].
pub open spec fn is_local(t: Seq<char>) -> bool {
    &&& t.len() >= 1
    &&& local_char(t[0])
    &&& local_char(t.last())
    &&& (forall|k: int| 0 < k < t.len() - 1 ==> local_mid_char(#[trigger] t[k]))
}

/// The domain up to its final label: non-empty alphanumeric labels joined
/// by single separators.
pub open spec fn is_domain_chain(t: Seq<char>) -> bool {
    &&& t.len() >= 1
    &&& alnum(t[0])
    &&& alnum(t.last())
    &&& (forall|k: int| 0 <= k < t.len() ==> alnum(#[trigger] t[k]) || sep(t[k]))
    &&& (forall|k: int| 0 <= k < t.len() - 1 ==> !(sep(#[trigger] t[k]) && sep(t[k + 1])))
}

/// The final label: two to six letters.
pub open spec fn is_tld(t: Seq<char>) -> bool {
    &&& 2 <= t.len() <= 6
    &&& (forall|k: int| 0 <= k < t.len() ==> alpha(#[trigger] t[k]))
}

/// A decomposition of a valid prefix: local part up to `a`, `@` at `a`,
/// domain chain up to the dot at `m`, final label up to `n`.
pub open spec fn email_parts(s: Seq<char>, a: int, m: int, n: int) -> bool {
    &&& 1 <= a
    &&& a < m < n <= s.len()
    &&& is_local(s.subrange(0, a))
    &&& s[a] == '@'
    &&& is_domain_chain(s.subrange(a + 1, m))
    &&& s[m] == '.'
    &&& is_tld(s.subrange(m + 1, n))
}

/// Whether some prefix of `s` is a well-formed address.
pub open spec fn is_email(s: Seq<char>) -> bool {
    exists|a: int, m: int, n: int| email_parts(s, a, m, n)
}

/// In any decomposition, the `@` is the first `@` of the string.
proof fn lemma_at_is_first(s: Seq<char>, a: int, m: int, n: int, a2: int)
    requires
        email_parts(s, a, m, n),
        0 <= a2 < s.len(),
        s[a2] == '@',
        forall|j: int| 0 <= j < a2 ==> s[j] != '@',
    ensures
        a == a2,
{
    assert(!local_char('@'));
    assert(!local_mid_char('@'));
    if a2 < a {
        let t = s.subrange(0, a);
        assert(t[a2] == s[a2]);
        if a2 == 0 {
            assert(local_char(t[0]));
        } else if a2 == a - 1 {
            assert(local_char(t.last()));
        } else {
            assert(local_mid_char(t[a2]));
        }
    }
    if a2 > a {
        assert(s[a] != '@');
    }
}

/// A dot position that completes a valid prefix after the `@` at `a`.
pub open spec fn dot_candidate(s: Seq<char>, a: int, m: int) -> bool {
    &&& a + 1 < m < s.len()
    &&& s[m] == '.'
    &&& is_domain_chain(s.subrange(a + 1, m))
    &&& m + 3 <= s.len()
    &&& alpha(s[m + 1])
    &&& alpha(s[m + 2])
}

/// With the local part and the `@` in place, a valid prefix exists exactly
/// when some dot completes one.
proof fn lemma_candidate_iff(s: Seq<char>, a: int)
    requires
        1 <= a < s.len(),
        s[a] == '@',
        is_local(s.subrange(0, a)),
    ensures
        (exists|m: int, n: int| email_parts(s, a, m, n)) <==> (exists|m: int|
            dot_candidate(s, a, m)),
{
    if exists|m: int, n: int| email_parts(s, a, m, n) {
        let (m, n) = choose|m: int, n: int| email_parts(s, a, m, n);
        let tld = s.subrange(m + 1, n);
        assert(tld.len() >= 2);
        assert(alpha(tld[0]) && alpha(tld[1]));
        assert(s[m + 1] == tld[0] && s[m + 2] == tld[1]);
        assert(s.subrange(a + 1, m).len() >= 1);
        assert(dot_candidate(s, a, m));
    }
    if exists|m: int| dot_candidate(s, a, m) {
        let m = choose|m: int| dot_candidate(s, a, m);
        let tld = s.subrange(m + 1, m + 3);
        assert(tld[0] == s[m + 1] && tld[1] == s[m + 2]);
        assert(is_tld(tld));
        assert(email_parts(s, a, m, m + 3));
    }
}

fn is_alnum_c(c: char) -> (r: bool)
    ensures
        r == alnum(c),
{
    let u = c as u32;
    (97 <= u && u <= 122) || (48 <= u && u <= 57)
}

fn is_alpha_c(c: char) -> (r: bool)
    ensures
        r == alpha(c),
{
    let u = c as u32;
    97 <= u && u <= 122
}

fn is_sep_c(c: char) -> (r: bool)
    ensures
        r == sep(c),
{
    c == '-' || c == '.'
}

fn is_local_c(c: char) -> (r: bool)
    ensures
        r == local_char(c),
{
    let u = c as u32;
    (97 <= u && u <= 122) || (48 <= u && u <= 57) || c == '_' || c == '+'
}

fn is_local_mid_c(c: char) -> (r: bool)
    ensures
        r == local_mid_char(c),
{
    is_local_c(c) || c == '.'
}

/// Whether `s` up to `to` is a well-formed local part.
fn local_ok(s: &str, to: usize) -> (r: bool)
    requires
        to <= s@.len(),
    ensures
        r == is_local(s@.subrange(0, to as int)),
{
    let ghost t = s@.subrange(0, to as int);
    if to == 0 {
        return false;
    }
    if !is_local_c(s.get_char(0)) {
        proof {
            assert(t[0] == s@[0]);
        }
        return false;
    }
    if !is_local_c(s.get_char(to - 1)) {
        proof {
            assert(t.last() == s@[to - 1]);
        }
        return false;
    }
    let mut k: usize = 1;
    while k < to - 1
        invariant
            1 <= k <= to,
            1 <= to <= s@.len(),
            t == s@.subrange(0, to as int),
            forall|j: int| 0 < j < k ==> local_mid_char(#[trigger] s@[j]),
        decreases to - k,
    {
        if !is_local_mid_c(s.get_char(k)) {
            proof {
                assert(t[k as int] == s@[k as int]);
            }
            return false;
        }
        k = k + 1;
    }
    proof {
        assert(forall|j: int| 0 < j < t.len() - 1 ==> #[trigger] t[j] == s@[j]);
        assert(t[0] == s@[0] && t.last() == s@[to - 1]);
        assert(is_local(t));
    }
    true
}

/// Whether `s` between `from` and `to` is a well-formed domain chain.
fn chain_ok(s: &str, from: usize, to: usize) -> (r: bool)
    requires
        from < to <= s@.len(),
    ensures
        r == is_domain_chain(s@.subrange(from as int, to as int)),
{
    let ghost t = s@.subrange(from as int, to as int);
    if !is_alnum_c(s.get_char(from)) {
        proof {
            assert(t[0] == s@[from as int]);
        }
        return false;
    }
    if !is_alnum_c(s.get_char(to - 1)) {
        proof {
            assert(t.last() == s@[to - 1]);
        }
        return false;
    }
    let mut k = from;
    while k < to
        invariant
            from <= k <= to <= s@.len(),
            t == s@.subrange(from as int, to as int),
            forall|j: int| from <= j < k ==> alnum(#[trigger] s@[j]) || sep(s@[j]),
            forall|j: int| from <= j && j + 1 < k ==> !(sep(#[trigger] s@[j]) && sep(s@[j + 1])),
        decreases to - k,
    {
        let c = s.get_char(k);
        if !(is_alnum_c(c) || is_sep_c(c)) {
            proof {
                assert(t[k - from] == s@[k as int]);
            }
            return false;
        }
        if k > from {
            let p = s.get_char(k - 1);
            if is_sep_c(p) && is_sep_c(c) {
                proof {
                    assert(t[k - 1 - from] == s@[k - 1]);
                    assert(t[k - from] == s@[k as int]);
                }
                return false;
            }
        }
        k = k + 1;
    }
    proof {
        assert(t[0] == s@[from as int] && t.last() == s@[to - 1]);
        assert(forall|j: int| 0 <= j < t.len() ==> #[trigger] t[j] == s@[from + j]);
        assert(is_domain_chain(t));
    }
    true
}

/// Whether some prefix of `s` is a well-formed address.
pub fn is_valid_email(s: &str) -> (r: bool)
    ensures
        r == is_email(s@),
{
    let n = s.unicode_len();
    let a = match find_char(s, '@') {
        Some(a) => a,
        None => {
            proof {
                lemma_first_index_of(s@, '@');
                if is_email(s@) {
                    let (a2, m2, n2) = choose|a2: int, m2: int, n2: int|
                        email_parts(s@, a2, m2, n2);
                    assert(s@[a2] == '@');
                }
            }
            return false;
        },
    };
    proof {
        lemma_first_index_of(s@, '@');
    }
    if a == 0 {
        proof {
            if is_email(s@) {
                let (a2, m2, n2) = choose|a2: int, m2: int, n2: int| email_parts(s@, a2, m2, n2);
                lemma_at_is_first(s@, a2, m2, n2, 0);
            }
        }
        return false;
    }
    if !local_ok(s, a) {
        proof {
            if is_email(s@) {
                let (a2, m2, n2) = choose|a2: int, m2: int, n2: int| email_parts(s@, a2, m2, n2);
                lemma_at_is_first(s@, a2, m2, n2, a as int);
                assert(is_local(s@.subrange(0, a as int)));
            }
        }
        return false;
    }
    if n - a < 5 {
        proof {
            if is_email(s@) {
                let (a2, m2, n2) = choose|a2: int, m2: int, n2: int| email_parts(s@, a2, m2, n2);
                lemma_at_is_first(s@, a2, m2, n2, a as int);
                lemma_candidate_iff(s@, a as int);
                let mc = choose|mc: int| dot_candidate(s@, a as int, mc);
                assert(mc + 3 <= n && a + 2 <= mc);
            }
        }
        return false;
    }
    let mut m = a + 2;
    while m < n
        invariant
            n == s@.len(),
            1 <= a,
            a + 5 <= n,
            s@[a as int] == '@',
            is_local(s@.subrange(0, a as int)),
            a + 2 <= m <= n,
            forall|j: int| a + 2 <= j < m ==> !dot_candidate(s@, a as int, j),
        decreases n - m,
    {
        if s.get_char(m) == '.' {
            if chain_ok(s, a + 1, m) {
                if m <= n - 3 {
                    let t1 = s.get_char(m + 1);
                    let t2 = s.get_char(m + 2);
                    if is_alpha_c(t1) && is_alpha_c(t2) {
                        proof {
                            assert(dot_candidate(s@, a as int, m as int));
                            lemma_candidate_iff(s@, a as int);
                            let (mm, nn) = choose|mm: int, nn: int|
                                email_parts(s@, a as int, mm, nn);
                            assert(email_parts(s@, a as int, mm, nn));
                        }
                        return true;
                    }
                }
            }
        }
        m = m + 1;
    }
    proof {
        if is_email(s@) {
            let (a2, m2, n2) = choose|a2: int, m2: int, n2: int| email_parts(s@, a2, m2, n2);
            lemma_at_is_first(s@, a2, m2, n2, a as int);
            lemma_candidate_iff(s@, a as int);
            let mc = choose|mc: int| dot_candidate(s@, a as int, mc);
            assert(!dot_candidate(s@, a as int, mc));
        }
    }
    false
}

/// The reason an address was rejected.
#[derive(Clone, Copy, Debug, PartialEq, Eq, Structural)]
pub enum EmailError {
    BadFormat,
}

/// A validated email address.
#[derive(Clone, Debug, Hash)]
pub struct Email(String);

impl View for Email {
    type V = Seq<char>;

    closed spec fn view(&self) -> Seq<char> {
        self.0@
    }
}

impl Email {
    /// Accept `s` as an address exactly when a prefix of it is
    /// well-formed.
    pub fn new(s: String) -> (r: Result<Email, EmailError>)
        ensures
            r matches Ok(e) ==> is_email(s@) && e@ == s@,
            r matches Err(_) ==> !is_email(s@),
    {
        if is_valid_email(s.as_str()) {
            Ok(Email(s))
        } else {
            Err(EmailError::BadFormat)
        }
    }

    pub fn as_string(&self) -> (r: &String)
        ensures
            r@ == self@,
    {
        &self.0
    }

    pub fn as_str(&self) -> (r: &str)
        ensures
            r@ == self@,
    {
        self.0.as_str()
    }
}

} // verus!

//! The anonymous session cookie: generating ids, reading them back from a
//! `Cookie` request header, and writing the `Set-Cookie` value.

use vstd::prelude::*;

use crate::text::{
    char_is_ascii_alphanumeric, char_is_whitespace, chars_of, decimal, is_ascii_alphanumeric,
    is_whitespace, push_char, push_decimal, string_from_range,
};

verus! {

broadcast use vstd::string::group_string_axioms;

/// Number of characters in a freshly generated session id.
pub const SESSION_ID_LEN: usize = 40;

/// Fewest characters a session id read back from a request may have.
pub const MIN_SESSION_ID_LEN: usize = 32;

/// A session id is accepted when it has at least [`MIN_SESSION_ID_LEN`]
/// characters, all ASCII letters or digits.
pub open spec fn valid_session_id(s: Seq<char>) -> bool {
    &&& s.len() >= MIN_SESSION_ID_LEN
    &&& forall|i: int| 0 <= i < s.len() ==> is_ascii_alphanumeric(#[trigger] s[i])
}

/// The pieces of `s` between occurrences of `sep` (what `str::split` yields):
/// `k` separators give `k + 1` pieces, possibly empty.
pub open spec fn split_on(s: Seq<char>, sep: char) -> Seq<Seq<char>>
    decreases s.len(),
{
    if s.len() == 0 {
        seq![Seq::empty()]
    } else {
        let parts = split_on(s.drop_last(), sep);
        if s.last() == sep {
            parts.push(Seq::empty())
        } else {
            parts.update(parts.len() - 1, parts.last().push(s.last()))
        }
    }
}

/// `s` without its leading whitespace.
pub open spec fn trim_start(s: Seq<char>) -> Seq<char>
    decreases s.len(),
{
    if s.len() > 0 && is_whitespace(s[0]) {
        trim_start(s.drop_first())
    } else {
        s
    }
}

/// `s` without its trailing whitespace.
pub open spec fn trim_end(s: Seq<char>) -> Seq<char>
    decreases s.len(),
{
    if s.len() > 0 && is_whitespace(s.last()) {
        trim_end(s.drop_last())
    } else {
        s
    }
}

/// `s` without leading and trailing whitespace (what `str::trim` returns).
pub open spec fn trim(s: Seq<char>) -> Seq<char> {
    trim_end(trim_start(s))
}

/// `s` cut at the first `c` (what `str::split_once` returns): the part before
/// it and the part after it, or `None` when `c` does not occur.
pub open spec fn split_once(s: Seq<char>, c: char) -> Option<(Seq<char>, Seq<char>)>
    decreases s.len(),
{
    if s.len() == 0 {
        None
    } else if s[0] == c {
        Some((Seq::empty(), s.drop_first()))
    } else {
        match split_once(s.drop_first(), c) {
            Some((k, v)) => Some((seq![s[0]] + k, v)),
            None => None,
        }
    }
}

/// The session id carried by one `;`-separated piece of a `Cookie` header:
/// the piece, trimmed, is `name=value` with this `name` and a valid `value`.
pub open spec fn cookie_value(part: Seq<char>, name: Seq<char>) -> Option<Seq<char>> {
    match split_once(trim(part), '=') {
        Some((k, v)) => if k == name && valid_session_id(v) {
            Some(v)
        } else {
            None
        },
        None => None,
    }
}

/// The value of the first piece, in order, that carries a session id for `name`.
pub open spec fn first_cookie_value(parts: Seq<Seq<char>>, name: Seq<char>) -> Option<Seq<char>>
    decreases parts.len(),
{
    if parts.len() == 0 {
        None
    } else {
        match first_cookie_value(parts.drop_last(), name) {
            Some(v) => Some(v),
            None => cookie_value(parts.last(), name),
        }
    }
}

/// `Some` of the characters of `o`, when there is one.
pub open spec fn opt_str_view(o: Option<&str>) -> Option<Seq<char>> {
    match o {
        Some(s) => Some(s@),
        None => None,
    }
}

/// The session id that a request carrying the `Cookie` header `header` (if any)
/// presents under the cookie name `name`.
pub open spec fn session_cookie(header: Option<Seq<char>>, name: Seq<char>) -> Option<Seq<char>> {
    match header {
        Some(h) => first_cookie_value(split_on(h, ';'), name),
        None => None,
    }
}

/// The `Set-Cookie` value that stores `value` under `name` for `max_age_seconds`.
pub open spec fn set_cookie_value(name: Seq<char>, value: Seq<char>, max_age_seconds: u64) -> Seq<
    char,
> {
    name + seq!['='] + value + "; Max-Age="@ + decimal(max_age_seconds as nat)
        + "; Path=/; SameSite=Lax; HttpOnly"@
}

/// One character drawn from `rand`'s `Alphanumeric` distribution with the
/// thread-local generator: `rand::Rng::sample(&mut rand::thread_rng(), Alphanumeric)`.
/// The distribution picks from `A`-`Z`, `a`-`z` and `0`-`9`; that is all this
/// contract claims. Which character comes back is chance, and `thread_rng`
/// panics when the operating system's generator cannot be initialised.
#[verifier::external_body]
fn random_alphanumeric() -> (c: char)
    ensures
        is_ascii_alphanumeric(c),
{
    rand::Rng::sample(&mut rand::thread_rng(), rand::distributions::Alphanumeric) as char
}

/// A fresh random session id of [`SESSION_ID_LEN`] ASCII letters and digits.
pub fn new_session_id() -> (id: String)
    ensures
        id@.len() == SESSION_ID_LEN,
        valid_session_id(id@),
{
    let mut id = String::new();
    let mut i: usize = 0;
    while i < SESSION_ID_LEN
        invariant
            i <= SESSION_ID_LEN,
            id@.len() == i,
            forall|j: int| 0 <= j < id@.len() ==> is_ascii_alphanumeric(#[trigger] id@[j]),
        decreases SESSION_ID_LEN - i,
    {
        let c = random_alphanumeric();
        push_char(&mut id, c);
        i = i + 1;
    }
    id
}

/// Whether `v[lo..hi]` is a valid session id.
fn range_is_session_id(v: &Vec<char>, lo: usize, hi: usize) -> (b: bool)
    requires
        lo <= hi <= v.len(),
    ensures
        b == valid_session_id(v@.subrange(lo as int, hi as int)),
{
    if hi - lo < MIN_SESSION_ID_LEN {
        return false;
    }
    let mut i: usize = lo;
    while i < hi
        invariant
            lo <= i <= hi <= v.len(),
            forall|j: int| lo <= j < i ==> is_ascii_alphanumeric(#[trigger] v@[j]),
        decreases hi - i,
    {
        if !char_is_ascii_alphanumeric(v[i]) {
            assert(v@.subrange(lo as int, hi as int)[i - lo] == v@[i as int]);
            return false;
        }
        i = i + 1;
    }
    true
}

/// Whether `value` is a valid session id: at least [`MIN_SESSION_ID_LEN`]
/// characters, all ASCII letters or digits.
pub fn is_valid_session_id(value: &str) -> (b: bool)
    ensures
        b == valid_session_id(value@),
{
    let v = chars_of(value);
    assert(v@.subrange(0, v@.len() as int) == v@);
    range_is_session_id(&v, 0, v.len())
}

/// The `Set-Cookie` header value `name=value; Max-Age=...; Path=/; SameSite=Lax; HttpOnly`.
pub fn cookie_header(name: &str, value: &str, max_age_seconds: u64) -> (h: String)
    ensures
        h@ == set_cookie_value(name@, value@, max_age_seconds),
{
    let mut h = String::new();
    h.append(name);
    push_char(&mut h, '=');
    h.append(value);
    h.append("; Max-Age=");
    push_decimal(&mut h, max_age_seconds);
    h.append("; Path=/; SameSite=Lax; HttpOnly");
    h
}

proof fn lemma_split_on_nonempty(s: Seq<char>, sep: char)
    ensures
        split_on(s, sep).len() >= 1,
    decreases s.len(),
{
    if s.len() > 0 {
        lemma_split_on_nonempty(s.drop_last(), sep);
    }
}

proof fn lemma_split_once_absent(s: Seq<char>, c: char)
    requires
        !s.contains(c),
    ensures
        split_once(s, c) is None,
    decreases s.len(),
{
    if s.len() > 0 {
        assert(s[0] != c);
        assert(!s.drop_first().contains(c)) by {
            if s.drop_first().contains(c) {
                let j = choose|j: int| 0 <= j < s.drop_first().len() && s.drop_first()[j] == c;
                assert(s[j + 1] == c);
            }
        }
        lemma_split_once_absent(s.drop_first(), c);
    }
}

proof fn lemma_split_once_concat(k: Seq<char>, v: Seq<char>, c: char)
    requires
        !k.contains(c),
    ensures
        split_once(k + seq![c] + v, c) == Some((k, v)),
    decreases k.len(),
{
    let s = k + seq![c] + v;
    if k.len() == 0 {
        assert(s.drop_first() =~= v);
    } else {
        assert(s[0] == k[0]);
        assert(k[0] != c);
        assert(!k.drop_first().contains(c)) by {
            if k.drop_first().contains(c) {
                let j = choose|j: int| 0 <= j < k.drop_first().len() && k.drop_first()[j] == c;
                assert(k[j + 1] == c);
            }
        }
        lemma_split_once_concat(k.drop_first(), v, c);
        assert(s.drop_first() =~= k.drop_first() + seq![c] + v);
        assert(seq![k[0]] + k.drop_first() =~= k);
    }
}

/// The bounds of `v[start..end]` without its leading and trailing whitespace.
fn trim_range(v: &Vec<char>, start: usize, end: usize) -> (r: (usize, usize))
    requires
        start <= end <= v.len(),
    ensures
        start <= r.0 <= r.1 <= end,
        v@.subrange(r.0 as int, r.1 as int) == trim(v@.subrange(start as int, end as int)),
{
    let ghost part = v@.subrange(start as int, end as int);
    let mut lo: usize = start;
    while lo < end && char_is_whitespace(v[lo])
        invariant
            start <= lo <= end <= v.len(),
            trim_start(v@.subrange(lo as int, end as int)) == trim_start(part),
        decreases end - lo,
    {
        assert(v@.subrange(lo as int, end as int).drop_first() =~= v@.subrange(
            lo + 1,
            end as int,
        ));
        lo = lo + 1;
    }
    let mut hi: usize = end;
    while hi > lo && char_is_whitespace(v[hi - 1])
        invariant
            start <= lo <= hi <= end <= v.len(),
            trim_end(v@.subrange(lo as int, hi as int)) == trim_end(v@.subrange(
                lo as int,
                end as int,
            )),
            trim_start(part) == v@.subrange(lo as int, end as int),
        decreases hi - lo,
    {
        assert(v@.subrange(lo as int, hi as int).drop_last() =~= v@.subrange(
            lo as int,
            hi - 1,
        ));
        hi = hi - 1;
    }
    (lo, hi)
}

/// `s` without leading and trailing whitespace.
pub fn trim_text(s: &str) -> (r: String)
    ensures
        r@ == trim(s@),
{
    let v = chars_of(s);
    assert(v@.subrange(0, v@.len() as int) =~= v@);
    let (lo, hi) = trim_range(&v, 0, v.len());
    string_from_range(&v, lo, hi)
}

/// The session id carried by the piece `v[start..end]` of a `Cookie` header.
fn range_cookie_value(v: &Vec<char>, start: usize, end: usize, name: &Vec<char>) -> (r: Option<
    String,
>)
    requires
        start <= end <= v.len(),
    ensures
        match r {
            Some(id) => cookie_value(v@.subrange(start as int, end as int), name@) == Some(id@),
            None => cookie_value(v@.subrange(start as int, end as int), name@) is None,
        },
{
    let ghost part = v@.subrange(start as int, end as int);
    let (lo, hi) = trim_range(v, start, end);
    let ghost t = v@.subrange(lo as int, hi as int);
    assert(trim(part) == t);
    let mut k: usize = lo;
    while k < hi && v[k] != '='
        invariant
            lo <= k <= hi <= v.len(),
            forall|j: int| lo <= j < k ==> v@[j] != '=',
        decreases hi - k,
    {
        k = k + 1;
    }
    if k == hi {
        proof {
            assert(!t.contains('=')) by {
                if t.contains('=') {
                    let j = choose|j: int| 0 <= j < t.len() && t[j] == '=';
                    assert(v@[lo + j] == '=');
                }
            }
            lemma_split_once_absent(t, '=');
        }
        return None;
    }
    let ghost key = v@.subrange(lo as int, k as int);
    let ghost value = v@.subrange(k + 1, hi as int);
    proof {
        assert(!key.contains('=')) by {
            if key.contains('=') {
                let j = choose|j: int| 0 <= j < key.len() && key[j] == '=';
                assert(v@[lo + j] == '=');
            }
        }
        assert(t =~= key + seq!['='] + value);
        lemma_split_once_concat(key, value, '=');
    }
    if k - lo != name.len() {
        return None;
    }
    let mut j: usize = 0;
    #[verifier::loop_isolation(false)]
    while j < name.len()
        invariant
            lo <= k <= hi <= v.len(),
            k - lo == name.len(),
            j <= name.len(),
            forall|m: int| 0 <= m < j ==> v@[lo + m] == name@[m],
        decreases name.len() - j,
    {
        if v[lo + j] != name[j] {
            assert(key[j as int] == v@[lo + j]);
            return None;
        }
        j = j + 1;
    }
    assert(key =~= name@);
    if !range_is_session_id(v, k + 1, hi) {
        return None;
    }
    Some(string_from_range(v, k + 1, hi))
}

/// The session id that a request presents under the cookie name `name`,
/// given its `Cookie` header `header` (if it has one): the value of the first
/// `;`-separated piece that, trimmed, reads `name=value` with a valid `value`.
pub fn find_cookie(header: Option<&str>, name: &str) -> (r: Option<String>)
    ensures
        match r {
            Some(id) => session_cookie(opt_str_view(header), name@) == Some(id@),
            None => session_cookie(opt_str_view(header), name@) is None,
        },
{
    let h = match header {
        Some(h) => h,
        None => {
            return None;
        },
    };
    let v = chars_of(h);
    let n = chars_of(name);
    let mut found: Option<String> = None;
    let mut start: usize = 0;
    let mut i: usize = 0;
    proof {
        lemma_split_on_nonempty(v@.take(0), ';');
        assert(v@.take(0) =~= Seq::<char>::empty());
        assert(v@.subrange(0, 0) =~= Seq::<char>::empty());
    }
    while i < v.len()
        invariant
            start <= i <= v.len(),
            split_on(v@.take(i as int), ';').len() >= 1,
            split_on(v@.take(i as int), ';').last() == v@.subrange(start as int, i as int),
            match found {
                Some(id) => first_cookie_value(split_on(v@.take(i as int), ';').drop_last(), n@)
                    == Some(id@),
                None => first_cookie_value(split_on(v@.take(i as int), ';').drop_last(), n@) is None,
            },
        decreases v.len() - i,
    {
        let ghost parts = split_on(v@.take(i as int), ';');
        proof {
            assert(v@.take(i + 1).drop_last() =~= v@.take(i as int));
            assert(v@.take(i + 1).last() == v@[i as int]);
        }
        if v[i] == ';' {
            assert(split_on(v@.take(i + 1), ';') == parts.push(Seq::empty()));
            assert(parts.push(Seq::<char>::empty()).drop_last() =~= parts);
            if found.is_none() {
                found = range_cookie_value(&v, start, i, &n);
            }
            start = i + 1;
            assert(v@.subrange(start as int, start as int) =~= Seq::<char>::empty());
        } else {
            let ghost next = parts.update(parts.len() - 1, parts.last().push(v@[i as int]));
            assert(split_on(v@.take(i + 1), ';') == next);
            assert(next.drop_last() =~= parts.drop_last());
            assert(v@.subrange(start as int, i + 1) =~= v@.subrange(start as int, i as int).push(
                v@[i as int],
            ));
        }
        i = i + 1;
    }
    assert(v@.take(v.len() as int) =~= v@);
    match found {
        Some(id) => Some(id),
        None => range_cookie_value(&v, start, v.len(), &n),
    }
}

proof fn lemma_split_on_without_sep(a: Seq<char>, sep: char)
    requires
        !a.contains(sep),
    ensures
        split_on(a, sep) == seq![a],
    decreases a.len(),
{
    if a.len() == 0 {
        assert(a =~= Seq::<char>::empty());
    } else {
        assert(!a.drop_last().contains(sep)) by {
            if a.drop_last().contains(sep) {
                let j = choose|j: int| 0 <= j < a.drop_last().len() && a.drop_last()[j] == sep;
                assert(a[j] == sep);
            }
        }
        lemma_split_on_without_sep(a.drop_last(), sep);
        assert(a[a.len() - 1] != sep);
        assert(a.drop_last().push(a.last()) =~= a);
        assert(seq![a.drop_last()].update(0, a.drop_last().push(a.last())) =~= seq![a]);
    }
}

proof fn lemma_split_on_concat(a: Seq<char>, b: Seq<char>, sep: char)
    requires
        !a.contains(sep),
    ensures
        split_on(a + seq![sep] + b, sep) == seq![a] + split_on(b, sep),
    decreases b.len(),
{
    let s = a + seq![sep] + b;
    if b.len() == 0 {
        assert(s.drop_last() =~= a);
        lemma_split_on_without_sep(a, sep);
        assert(seq![a].push(Seq::<char>::empty()) =~= seq![a] + seq![Seq::<char>::empty()]);
    } else {
        assert(s.drop_last() =~= a + seq![sep] + b.drop_last());
        lemma_split_on_concat(a, b.drop_last(), sep);
        lemma_split_on_nonempty(b.drop_last(), sep);
        let p = split_on(b.drop_last(), sep);
        if b.last() == sep {
            assert((seq![a] + p).push(Seq::<char>::empty()) =~= seq![a] + p.push(
                Seq::<char>::empty(),
            ));
        } else {
            let q = seq![a] + p;
            assert(q.update(q.len() - 1, q.last().push(b.last())) =~= seq![a] + p.update(
                p.len() - 1,
                p.last().push(b.last()),
            ));
        }
    }
}

proof fn lemma_first_cookie_value_head(p: Seq<char>, rest: Seq<Seq<char>>, name: Seq<char>)
    requires
        cookie_value(p, name) is Some,
    ensures
        first_cookie_value(seq![p] + rest, name) == cookie_value(p, name),
    decreases rest.len(),
{
    if rest.len() == 0 {
        assert(seq![p] + rest =~= seq![p]);
        assert(seq![p].drop_last() =~= Seq::<Seq<char>>::empty());
        assert(first_cookie_value(Seq::<Seq<char>>::empty(), name) is None);
        assert(first_cookie_value(seq![p], name) == cookie_value(p, name));
    } else {
        assert((seq![p] + rest).drop_last() =~= seq![p] + rest.drop_last());
        lemma_first_cookie_value_head(p, rest.drop_last(), name);
    }
}

/// Reading back a session cookie: a `Cookie` header that begins with the pair
/// `name=value`, followed by nothing or by `;` and anything, presents `value`
/// under `name`, whenever `value` is a valid session id and the cookie name
/// holds no `;` or `=` and does not begin with whitespace.
pub proof fn lemma_cookie_pair_read_back(name: Seq<char>, value: Seq<char>, rest: Seq<char>)
    requires
        valid_session_id(value),
        !name.contains(';'),
        !name.contains('='),
        name.len() > 0 ==> !is_whitespace(name[0]),
        rest.len() > 0 ==> rest[0] == ';',
    ensures
        session_cookie(Some(name + seq!['='] + value + rest), name) == Some(value),
{
    let a = name + seq!['='] + value;
    assert(!a.contains(';')) by {
        if a.contains(';') {
            let j = choose|j: int| 0 <= j < a.len() && a[j] == ';';
            if j < name.len() {
                assert(name[j] == ';');
            } else if j > name.len() {
                assert(value[j - name.len() - 1] == ';');
            }
        }
    }
    assert(trim_start(a) == a);
    assert(a.last() == value[value.len() - 1]);
    assert(trim_end(a) == a);
    lemma_split_once_concat(name, value, '=');
    assert(cookie_value(a, name) == Some(value));
    if rest.len() == 0 {
        assert(a + rest =~= a);
        lemma_split_on_without_sep(a, ';');
        assert(seq![a].drop_last() =~= Seq::<Seq<char>>::empty());
        assert(first_cookie_value(Seq::<Seq<char>>::empty(), name) is None);
        assert(first_cookie_value(seq![a], name) == cookie_value(a, name));
    } else {
        assert(a + rest =~= a + seq![';'] + rest.drop_first());
        lemma_split_on_concat(a, rest.drop_first(), ';');
        lemma_first_cookie_value_head(a, split_on(rest.drop_first(), ';'), name);
    }
}

/// A session cookie survives the round trip through the browser: the
/// `Set-Cookie` value written for `name` and a valid id `value`, and the bare
/// pair `name=value` that a browser sends back, both present `value` under
/// `name`, for any cookie name that holds no `;` or `=` and does not begin
/// with whitespace.
pub proof fn lemma_set_cookie_round_trip(name: Seq<char>, value: Seq<char>, max_age_seconds: u64)
    requires
        valid_session_id(value),
        !name.contains(';'),
        !name.contains('='),
        name.len() > 0 ==> !is_whitespace(name[0]),
    ensures
        session_cookie(Some(set_cookie_value(name, value, max_age_seconds)), name) == Some(value),
        session_cookie(Some(name + seq!['='] + value), name) == Some(value),
{
    let rest = "; Max-Age="@ + decimal(max_age_seconds as nat) + "; Path=/; SameSite=Lax; HttpOnly"@;
    reveal_strlit("; Max-Age=");
    assert(set_cookie_value(name, value, max_age_seconds) =~= name + seq!['='] + value + rest);
    lemma_cookie_pair_read_back(name, value, rest);
    assert(name + seq!['='] + value + Seq::<char>::empty() =~= name + seq!['='] + value);
    lemma_cookie_pair_read_back(name, value, Seq::empty());
}

/// Every character of `s` is whitespace.
pub open spec fn all_whitespace(s: Seq<char>) -> bool {
    forall|i: int| 0 <= i < s.len() ==> is_whitespace(#[trigger] s[i])
}

proof fn lemma_trim_start_skips(w: Seq<char>, x: Seq<char>)
    requires
        all_whitespace(w),
        x.len() > 0 ==> !is_whitespace(x[0]),
    ensures
        trim_start(w + x) == x,
    decreases w.len(),
{
    if w.len() == 0 {
        assert(w + x =~= x);
    } else {
        assert((w + x)[0] == w[0]);
        assert((w + x).drop_first() =~= w.drop_first() + x);
        assert(all_whitespace(w.drop_first())) by {
            assert forall|i: int| 0 <= i < w.drop_first().len() implies is_whitespace(
                #[trigger] w.drop_first()[i],
            ) by {
                assert(w.drop_first()[i] == w[i + 1]);
            }
        }
        lemma_trim_start_skips(w.drop_first(), x);
    }
}

proof fn lemma_trim_end_skips(x: Seq<char>, w: Seq<char>)
    requires
        all_whitespace(w),
        x.len() > 0 ==> !is_whitespace(x.last()),
    ensures
        trim_end(x + w) == x,
    decreases w.len(),
{
    if w.len() == 0 {
        assert(x + w =~= x);
    } else {
        assert((x + w).last() == w.last());
        assert((x + w).drop_last() =~= x + w.drop_last());
        assert(all_whitespace(w.drop_last())) by {
            assert forall|i: int| 0 <= i < w.drop_last().len() implies is_whitespace(
                #[trigger] w.drop_last()[i],
            ) by {
                assert(w.drop_last()[i] == w[i]);
            }
        }
        lemma_trim_end_skips(x, w.drop_last());
    }
}

/// Trimming takes off exactly the whitespace around the text: whitespace
/// before and after a text that neither begins nor ends with whitespace is
/// all removed, and the text itself is kept whole.
pub proof fn lemma_trim_removes_surrounding_whitespace(before: Seq<char>, t: Seq<char>, after: Seq<char>)
    requires
        all_whitespace(before),
        all_whitespace(after),
        t.len() > 0 ==> !is_whitespace(t[0]) && !is_whitespace(t.last()),
    ensures
        trim(before + t + after) == t,
{
    if t.len() > 0 {
        assert(before + t + after =~= before + (t + after));
        assert((t + after)[0] == t[0]);
        lemma_trim_start_skips(before, t + after);
        lemma_trim_end_skips(t, after);
    } else {
        let w = before + after;
        assert(before + t + after =~= w + Seq::<char>::empty());
        assert(all_whitespace(w)) by {
            assert forall|i: int| 0 <= i < w.len() implies is_whitespace(#[trigger] w[i]) by {
                if i < before.len() {
                    assert(w[i] == before[i]);
                } else {
                    assert(w[i] == after[i - before.len()]);
                }
            }
        }
        lemma_trim_start_skips(w, Seq::<char>::empty());
        assert(trim_end(Seq::<char>::empty()) == Seq::<char>::empty());
        assert(t =~= Seq::<char>::empty());
    }
}

proof fn lemma_split_on_join(a: Seq<char>, b: Seq<char>, sep: char)
    ensures
        split_on(a + seq![sep] + b, sep) == split_on(a, sep) + split_on(b, sep),
    decreases b.len(),
{
    let s = a + seq![sep] + b;
    if b.len() == 0 {
        assert(s.drop_last() =~= a);
        assert(split_on(a, sep).push(Seq::<char>::empty()) =~= split_on(a, sep) + seq![
            Seq::<char>::empty(),
        ]);
    } else {
        assert(s.drop_last() =~= a + seq![sep] + b.drop_last());
        lemma_split_on_join(a, b.drop_last(), sep);
        lemma_split_on_nonempty(b.drop_last(), sep);
        let p = split_on(b.drop_last(), sep);
        let q = split_on(a, sep) + p;
        if b.last() == sep {
            assert(q.push(Seq::<char>::empty()) =~= split_on(a, sep) + p.push(Seq::<char>::empty()));
        } else {
            assert(q.update(q.len() - 1, q.last().push(b.last())) =~= split_on(a, sep) + p.update(
                p.len() - 1,
                p.last().push(b.last()),
            ));
        }
    }
}

proof fn lemma_first_cookie_value_join(a: Seq<Seq<char>>, b: Seq<Seq<char>>, name: Seq<char>)
    ensures
        first_cookie_value(a + b, name) == match first_cookie_value(a, name) {
            Some(v) => Some(v),
            None => first_cookie_value(b, name),
        },
    decreases b.len(),
{
    if b.len() == 0 {
        assert(a + b =~= a);
    } else {
        assert((a + b).drop_last() =~= a + b.drop_last());
        lemma_first_cookie_value_join(a, b.drop_last(), name);
    }
}

/// The first cookie of the name wins, wherever the header puts it: a header
/// made of two parts joined by `;` presents what its first part presents
/// under `name`, and when the first part presents nothing, what the second
/// part presents.
pub proof fn lemma_session_cookie_join(first: Seq<char>, second: Seq<char>, name: Seq<char>)
    ensures
        session_cookie(Some(first + seq![';'] + second), name) == match session_cookie(
            Some(first),
            name,
        ) {
            Some(v) => Some(v),
            None => session_cookie(Some(second), name),
        },
{
    lemma_split_on_join(first, second, ';');
    lemma_first_cookie_value_join(split_on(first, ';'), split_on(second, ';'), name);
}

/// A session cookie is found wherever it stands among the cookies: after any
/// cookies that present no session id under `name`, the pair `name=value`
/// that follows `"; "` (as browsers join cookies), up to the next `;` or the
/// end, presents `value`, for every valid id `value` and every cookie name
/// that holds no `;` or `=` and does not begin with whitespace.
pub proof fn lemma_cookie_found_after_others(
    others: Seq<char>,
    name: Seq<char>,
    value: Seq<char>,
    rest: Seq<char>,
)
    requires
        session_cookie(Some(others), name) is None,
        valid_session_id(value),
        !name.contains(';'),
        !name.contains('='),
        name.len() > 0 ==> !is_whitespace(name[0]),
        rest.len() > 0 ==> rest[0] == ';',
    ensures
        session_cookie(Some(others + "; "@ + name + seq!['='] + value + rest), name) == Some(value),
{
    reveal_strlit("; ");
    let a = name + seq!['='] + value;
    let q = seq![' '] + a + rest;
    assert(others + "; "@ + name + seq!['='] + value + rest =~= others + seq![';'] + q);
    lemma_session_cookie_join(others, q, name);
    let pa = seq![' '] + a;
    assert(!pa.contains(';')) by {
        if pa.contains(';') {
            let j = choose|j: int| 0 <= j < pa.len() && pa[j] == ';';
            if 1 <= j < 1 + name.len() {
                assert(name[j - 1] == ';');
            } else if j > 1 + name.len() {
                assert(value[j - name.len() - 2] == ';');
            }
        }
    }
    assert(is_whitespace(' '));
    assert(pa.drop_first() =~= a);
    assert(trim_start(a) == a);
    assert(trim_start(pa) == a);
    assert(a.last() == value[value.len() - 1]);
    assert(trim_end(a) == a);
    lemma_split_once_concat(name, value, '=');
    assert(cookie_value(pa, name) == Some(value));
    if rest.len() == 0 {
        assert(q =~= pa);
        lemma_split_on_without_sep(pa, ';');
        assert(seq![pa].drop_last() =~= Seq::<Seq<char>>::empty());
        assert(first_cookie_value(Seq::<Seq<char>>::empty(), name) is None);
        assert(first_cookie_value(seq![pa], name) == cookie_value(pa, name));
    } else {
        assert(q =~= pa + seq![';'] + rest.drop_first());
        lemma_split_on_concat(pa, rest.drop_first(), ';');
        lemma_first_cookie_value_head(pa, split_on(rest.drop_first(), ';'), name);
    }
}

proof fn lemma_first_cookie_value_is_valid(parts: Seq<Seq<char>>, name: Seq<char>)
    ensures
        first_cookie_value(parts, name) matches Some(v) ==> valid_session_id(v),
    decreases parts.len(),
{
    if parts.len() > 0 {
        lemma_first_cookie_value_is_valid(parts.drop_last(), name);
    }
}

/// Only valid session ids are read from a `Cookie` header: whatever session
/// id a header presents is at least [`MIN_SESSION_ID_LEN`] ASCII letters and
/// digits.
pub proof fn lemma_session_cookie_is_valid(header: Option<Seq<char>>, name: Seq<char>)
    ensures
        session_cookie(header, name) matches Some(v) ==> valid_session_id(v),
{
    if let Some(h) = header {
        lemma_first_cookie_value_is_valid(split_on(h, ';'), name);
    }
}

/// A byte that an HTTP header value may hold as text: visible ASCII or tab.
pub open spec fn is_visible_ascii(b: u8) -> bool {
    (32 <= b && b < 127) || b == 9
}

/// The text of a header value `b`: its bytes as characters when every byte is
/// visible ASCII or tab (what `http::HeaderValue::to_str` accepts), else `None`.
pub open spec fn header_text(b: Seq<u8>) -> Option<Seq<char>> {
    if forall|i: int| 0 <= i < b.len() ==> is_visible_ascii(#[trigger] b[i]) {
        Some(b.map_values(|x: u8| x as char))
    } else {
        None
    }
}

/// The text of the header value `value`, if it is visible ASCII.
pub fn header_value_text(value: &[u8]) -> (r: Option<String>)
    ensures
        match r {
            Some(t) => header_text(value@) == Some(t@),
            None => header_text(value@) is None,
        },
{
    let mut t = String::new();
    let mut i: usize = 0;
    while i < value.len()
        invariant
            i <= value.len(),
            forall|j: int| 0 <= j < i ==> is_visible_ascii(#[trigger] value@[j]),
            t@ == value@.take(i as int).map_values(|x: u8| x as char),
        decreases value.len() - i,
    {
        let b = value[i];
        if !((32 <= b && b < 127) || b == 9) {
            return None;
        }
        push_char(&mut t, b as char);
        assert(value@.take(i + 1).map_values(|x: u8| x as char) =~= value@.take(i as int).map_values(
            |x: u8| x as char,
        ).push(b as char));
        i = i + 1;
    }
    assert(value@.take(value.len() as int) =~= value@);
    Some(t)
}

} // verus!

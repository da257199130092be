//! Small verified helpers over `String` / `&str` shared by the other modules.
use vstd::prelude::*;

verus! {

/// Appends one character: a call of `String::push`, believed to leave the
/// string's characters as they were followed by `c`, as the standard
/// library documents it.
#[verifier::external_body]
pub(crate) fn push_char(s: &mut String, c: char)
    ensures
        final(s)@ == old(s)@.push(c),
{
    s.push(c);
}

/// Character-wise equality of two string slices.
pub fn str_eq(a: &str, b: &str) -> (res: bool)
    ensures
        res == (a@ == b@),
{
    let n = a.unicode_len();
    if n != b.unicode_len() {
        return false;
    }
    let mut i: usize = 0;
    while i < n
        invariant
            n == a@.len(),
            n == b@.len(),
            0 <= i <= n,
            forall|j: int| 0 <= j < i ==> a@[j] == b@[j],
        decreases n - i,
    {
        if a.get_char(i) != b.get_char(i) {
            return false;
        }
        i = i + 1;
    }
    assert(a@ =~= b@);
    true
}

/// The Unicode `White_Space` characters, which `str::trim` strips.
pub open spec fn is_white_space(c: char) -> bool {
    ||| ('\u{9}' <= c && c <= '\u{d}')
    ||| c == ' '
    ||| c == '\u{85}'
    ||| c == '\u{a0}'
    ||| c == '\u{1680}'
    ||| ('\u{2000}' <= c && c <= '\u{200a}')
    ||| c == '\u{2028}'
    ||| c == '\u{2029}'
    ||| c == '\u{202f}'
    ||| c == '\u{205f}'
    ||| c == '\u{3000}'
}

pub fn is_white_space_char(c: char) -> (r: bool)
    ensures
        r == is_white_space(c),
{
    ('\u{9}' <= c && c <= '\u{d}') || c == ' ' || c == '\u{85}' || c == '\u{a0}' || c
        == '\u{1680}' || ('\u{2000}' <= c && c <= '\u{200a}') || c == '\u{2028}' || c
        == '\u{2029}' || c == '\u{202f}' || c == '\u{205f}' || c == '\u{3000}'
}

/// Number of white-space characters at the start of `s`.
pub open spec fn leading_white_space(s: Seq<char>) -> nat
    decreases s.len(),
{
    if s.len() == 0 {
        0
    } else if is_white_space(s[0]) {
        1 + leading_white_space(s.drop_first())
    } else {
        0
    }
}

/// Number of white-space characters at the end of `s`.
pub open spec fn trailing_white_space(s: Seq<char>) -> nat
    decreases s.len(),
{
    if s.len() == 0 {
        0
    } else if is_white_space(s.last()) {
        1 + trailing_white_space(s.drop_last())
    } else {
        0
    }
}

/// `s` without leading and trailing white space (`str::trim`).
pub open spec fn trim(s: Seq<char>) -> Seq<char> {
    let t = s.skip(leading_white_space(s) as int);
    t.take(t.len() - trailing_white_space(t))
}

proof fn lemma_leading_white_space(s: Seq<char>, p: int)
    requires
        0 <= p <= s.len(),
        forall|j: int| 0 <= j < p ==> is_white_space(#[trigger] s[j]),
        p == s.len() || !is_white_space(s[p]),
    ensures
        leading_white_space(s) == p,
    decreases p,
{
    if p > 0 {
        assert forall|j: int| 0 <= j < p - 1 implies is_white_space(#[trigger] s.drop_first()[j]) by {
            assert(s.drop_first()[j] == s[j + 1]);
        }
        lemma_leading_white_space(s.drop_first(), p - 1);
    }
}

proof fn lemma_trailing_white_space(s: Seq<char>, q: int)
    requires
        0 <= q <= s.len(),
        forall|j: int| q <= j < s.len() ==> is_white_space(#[trigger] s[j]),
        q == 0 || !is_white_space(s[q - 1]),
    ensures
        trailing_white_space(s) == s.len() - q,
    decreases s.len() - q,
{
    if q < s.len() {
        assert forall|j: int| q <= j < s.drop_last().len() implies is_white_space(
            #[trigger] s.drop_last()[j],
        ) by {
            assert(s.drop_last()[j] == s[j]);
        }
        lemma_trailing_white_space(s.drop_last(), q);
    }
}

/// The bounds `(start, end)` of `s` without surrounding white space.
pub fn trim_bounds(s: &str) -> (r: (usize, usize))
    ensures
        r.0 <= r.1 <= s@.len(),
        s@.subrange(r.0 as int, r.1 as int) == trim(s@),
{
    let n = s.unicode_len();
    let mut a: usize = 0;
    while a < n && is_white_space_char(s.get_char(a))
        invariant
            n == s@.len(),
            a <= n,
            forall|j: int| 0 <= j < a ==> is_white_space(#[trigger] s@[j]),
        decreases n - a,
    {
        a = a + 1;
    }
    proof {
        lemma_leading_white_space(s@, a as int);
    }
    let mut b: usize = n;
    while b > a && is_white_space_char(s.get_char(b - 1))
        invariant
            n == s@.len(),
            a <= b <= n,
            forall|j: int| b <= j < n ==> is_white_space(#[trigger] s@[j]),
        decreases b - a,
    {
        b = b - 1;
    }
    proof {
        let t = s@.skip(a as int);
        lemma_trailing_white_space(t, (b - a) as int);
        assert(t.take(t.len() - trailing_white_space(t)) =~= s@.subrange(a as int, b as int));
    }
    (a, b)
}

/// `s` without leading and trailing white space, as a new `String`.
pub fn trimmed(s: &str) -> (r: String)
    ensures
        r@ == trim(s@),
{
    let (a, b) = trim_bounds(s);
    String::from_str(s.substring_char(a, b))
}

/// The decimal digit for `d` (0 to 9).
pub open spec fn digit(d: nat) -> char {
    if d == 0 {
        '0'
    } else if d == 1 {
        '1'
    } else if d == 2 {
        '2'
    } else if d == 3 {
        '3'
    } else if d == 4 {
        '4'
    } else if d == 5 {
        '5'
    } else if d == 6 {
        '6'
    } else if d == 7 {
        '7'
    } else if d == 8 {
        '8'
    } else {
        '9'
    }
}

/// `n` written in decimal, without leading zeros.
pub open spec fn decimal(n: nat) -> Seq<char>
    decreases n,
{
    if n < 10 {
        seq![digit(n)]
    } else {
        decimal(n / 10).push(digit(n % 10))
    }
}

fn digit_char(d: u64) -> (c: char)
    requires
        d < 10,
    ensures
        c == digit(d as nat),
{
    if d == 0 {
        '0'
    } else if d == 1 {
        '1'
    } else if d == 2 {
        '2'
    } else if d == 3 {
        '3'
    } else if d == 4 {
        '4'
    } else if d == 5 {
        '5'
    } else if d == 6 {
        '6'
    } else if d == 7 {
        '7'
    } else if d == 8 {
        '8'
    } else {
        '9'
    }
}

/// Appends `n` in decimal.
pub fn push_decimal(s: &mut String, n: u64)
    ensures
        final(s)@ == old(s)@ + decimal(n as nat),
    decreases n,
{
    if n >= 10 {
        push_decimal(s, n / 10);
    }
    push_char(s, digit_char(n % 10));
    proof {
        if n >= 10 {
            assert(decimal(n as nat) == decimal((n / 10) as nat).push(digit((n % 10) as nat)));
        }
    }
}

/// ASCII upper-case letters lowered; every other character kept.
pub open spec fn ascii_lower(c: char) -> char {
    if 'A' <= c && c <= 'Z' {
        ((c as u32) + 32) as char
    } else {
        c
    }
}

/// Equal up to ASCII case (`str::eq_ignore_ascii_case`).
pub open spec fn eq_ignore_ascii_case(a: Seq<char>, b: Seq<char>) -> bool {
    a.len() == b.len() && forall|i: int| 0 <= i < a.len() ==> ascii_lower(#[trigger] a[i]) == ascii_lower(b[i])
}

pub fn ascii_lower_char(c: char) -> (r: char)
    ensures
        r == ascii_lower(c),
{
    if 'A' <= c && c <= 'Z' {
        let b = c as u8;
        let l = b + 32;
        let r = l as char;
        assert(r == ascii_lower(c)) by {
            assert((c as u32) < 256);
        }
        r
    } else {
        c
    }
}

/// Whether `a` and `b` are equal up to ASCII case.
pub fn str_eq_ignore_ascii_case(a: &str, b: &str) -> (r: bool)
    ensures
        r == eq_ignore_ascii_case(a@, b@),
{
    let n = a.unicode_len();
    if n != b.unicode_len() {
        return false;
    }
    let mut i: usize = 0;
    while i < n
        invariant
            n == a@.len(),
            n == b@.len(),
            i <= n,
            forall|j: int| 0 <= j < i ==> ascii_lower(#[trigger] a@[j]) == ascii_lower(b@[j]),
        decreases n - i,
    {
        if ascii_lower_char(a.get_char(i)) != ascii_lower_char(b.get_char(i)) {
            return false;
        }
        i = i + 1;
    }
    true
}

} // verus!

verus! {

/// Lexicographic order of character sequences by code point, the order
/// `str` and `String` compare in (UTF-8 bytes order as code points do).
pub open spec fn seq_lt(a: Seq<char>, b: Seq<char>) -> bool
    decreases a.len(),
{
    if b.len() == 0 {
        false
    } else if a.len() == 0 {
        true
    } else if a[0] < b[0] {
        true
    } else if a[0] == b[0] {
        seq_lt(a.drop_first(), b.drop_first())
    } else {
        false
    }
}

/// Exactly one of `a < b`, `a == b`, `b < a` holds.
pub proof fn lemma_seq_lt_trichotomy(a: Seq<char>, b: Seq<char>)
    ensures
        seq_lt(a, b) || a == b || seq_lt(b, a),
        !(seq_lt(a, b) && seq_lt(b, a)),
        !(seq_lt(a, b) && a == b),
    decreases a.len(),
{
    if a.len() > 0 && b.len() > 0 && a[0] == b[0] {
        lemma_seq_lt_trichotomy(a.drop_first(), b.drop_first());
        if a.drop_first() == b.drop_first() {
            assert forall|i: int| 0 <= i < a.len() implies a[i] == b[i] by {
                if i > 0 {
                    assert(a[i] == a.drop_first()[i - 1]);
                    assert(b[i] == b.drop_first()[i - 1]);
                }
            }
            assert(a =~= b);
        }
    } else if a.len() == 0 && b.len() == 0 {
        assert(a =~= b);
    }
}

/// The order is transitive.
pub proof fn lemma_seq_lt_transitive(a: Seq<char>, b: Seq<char>, c: Seq<char>)
    requires
        seq_lt(a, b),
        seq_lt(b, c),
    ensures
        seq_lt(a, c),
    decreases a.len(),
{
    if a.len() > 0 && a[0] == b[0] && b[0] == c[0] {
        lemma_seq_lt_transitive(a.drop_first(), b.drop_first(), c.drop_first());
    }
}

/// `a < b` in the order of [`seq_lt`].
pub fn str_lt(a: &str, b: &str) -> (r: bool)
    ensures
        r == seq_lt(a@, b@),
{
    let n = a.unicode_len();
    let m = b.unicode_len();
    let mut i: usize = 0;
    assert(a@.skip(0) =~= a@);
    assert(b@.skip(0) =~= b@);
    while i < n && i < m
        invariant
            n == a@.len(),
            m == b@.len(),
            0 <= i <= n,
            i <= m,
            seq_lt(a@, b@) == seq_lt(a@.skip(i as int), b@.skip(i as int)),
        decreases n - i,
    {
        let x = a.get_char(i);
        let y = b.get_char(i);
        if x < y {
            return true;
        }
        if x != y {
            return false;
        }
        assert(a@.skip(i as int).drop_first() =~= a@.skip(i + 1));
        assert(b@.skip(i as int).drop_first() =~= b@.skip(i + 1));
        i = i + 1;
    }
    i == n && i < m
}

/// Strictly increasing: sorted, with no name twice.
pub open spec fn strictly_sorted(v: Seq<String>) -> bool {
    forall|i: int, j: int| 0 <= i < j < v.len() ==> seq_lt(#[trigger] v[i]@, #[trigger] v[j]@)
}

/// Some element of `v` has the text `x`.
pub open spec fn has_text(v: Seq<String>, x: Seq<char>) -> bool {
    exists|i: int| 0 <= i < v.len() && #[trigger] v[i]@ == x
}

/// `v` holds exactly the texts of `w`.
pub open spec fn same_texts(v: Seq<String>, w: Seq<String>) -> bool {
    forall|x: Seq<char>| #![trigger has_text(v, x)] #![trigger has_text(w, x)] has_text(v, x) == has_text(w, x)
}

/// Adds `name` to a sorted set of names, where it belongs; no change when
/// it is there already.
fn insert_sorted(names: &mut Vec<String>, name: String)
    requires
        strictly_sorted(old(names)@),
    ensures
        strictly_sorted(final(names)@),
        forall|x: Seq<char>|
            #![trigger has_text(final(names)@, x)]
            #![trigger has_text(old(names)@, x)]
            has_text(final(names)@, x) == (x == name@ || has_text(old(names)@, x)),
{
    let mut p: usize = 0;
    while p < names.len() && str_lt(names[p].as_str(), name.as_str())
        invariant
            names@ == old(names)@,
            strictly_sorted(names@),
            0 <= p <= names@.len(),
            forall|i: int| 0 <= i < p ==> seq_lt(#[trigger] names@[i]@, name@),
        decreases names@.len() - p,
    {
        p = p + 1;
    }
    let ghost s = names@;
    if p < names.len() && str_eq(names[p].as_str(), name.as_str()) {
        assert forall|x: Seq<char>| has_text(names@, x) == (x == name@ || has_text(s, x)) by {
            if x == name@ {
                assert(names@[p as int]@ == x);
            }
        }
        return;
    }
    proof {
        if p < s.len() {
            lemma_seq_lt_trichotomy(s[p as int]@, name@);
        }
    }
    names.insert(p, name);
    proof {
        let t = names@;
        assert(t == s.insert(p as int, name));
        assert forall|i: int, j: int| 0 <= i < j < t.len() implies seq_lt(#[trigger] t[i]@, #[trigger] t[j]@) by {
            if j < p {
                assert(t[i] == s[i] && t[j] == s[j]);
            } else if j == p {
                assert(t[i] == s[i]);
            } else if i == p {
                assert(t[j] == s[j - 1]);
                if j - 1 > p {
                    lemma_seq_lt_transitive(name@, s[p as int]@, s[j - 1]@);
                }
            } else if i < p {
                assert(t[i] == s[i] && t[j] == s[j - 1]);
                lemma_seq_lt_transitive(s[i]@, name@, s[p as int]@);
                if p < j - 1 {
                    lemma_seq_lt_transitive(s[i]@, s[p as int]@, s[j - 1]@);
                }
            } else {
                assert(t[i] == s[i - 1] && t[j] == s[j - 1]);
            }
        }
        assert forall|x: Seq<char>| has_text(t, x) == (x == name@ || has_text(s, x)) by {
            if x == name@ {
                assert(t[p as int]@ == x);
            }
            if has_text(s, x) {
                let j = choose|j: int| 0 <= j < s.len() && #[trigger] s[j]@ == x;
                if j < p {
                    assert(t[j]@ == x);
                } else {
                    assert(t[j + 1]@ == x);
                }
            }
            if has_text(t, x) {
                let i = choose|i: int| 0 <= i < t.len() && #[trigger] t[i]@ == x;
                if i < p {
                    assert(s[i]@ == x);
                } else if i > p {
                    assert(s[i - 1]@ == x);
                }
            }
        }
    }
}

/// The names of `v` as a sorted set: in increasing order, each once.
pub fn sorted_set(v: &Vec<String>) -> (r: Vec<String>)
    ensures
        strictly_sorted(r@),
        same_texts(r@, v@),
{
    let mut r: Vec<String> = Vec::new();
    let mut i: usize = 0;
    while i < v.len()
        invariant
            0 <= i <= v@.len(),
            strictly_sorted(r@),
            forall|x: Seq<char>|
                #![trigger has_text(r@, x)]
                has_text(r@, x) == has_text(v@.take(i as int), x),
        decreases v@.len() - i,
    {
        let ghost before = r@;
        insert_sorted(&mut r, v[i].clone());
        assert forall|x: Seq<char>| has_text(r@, x) == has_text(v@.take(i + 1), x) by {
            let a = v@.take(i as int);
            let b = v@.take(i + 1);
            assert(has_text(before, x) == has_text(a, x));
            if has_text(a, x) {
                let j = choose|j: int| 0 <= j < a.len() && #[trigger] a[j]@ == x;
                assert(b[j]@ == x);
            }
            if x == v@[i as int]@ {
                assert(b[i as int]@ == x);
            }
            if has_text(b, x) {
                let j = choose|j: int| 0 <= j < b.len() && #[trigger] b[j]@ == x;
                if j < i {
                    assert(a[j]@ == x);
                }
            }
        }
        i = i + 1;
    }
    assert(v@.take(v@.len() as int) =~= v@);
    r
}

} // verus!

verus! {

proof fn lemma_leading_bound(s: Seq<char>)
    ensures
        leading_white_space(s) <= s.len(),
        forall|j: int| 0 <= j < leading_white_space(s) ==> is_white_space(#[trigger] s[j]),
        leading_white_space(s) < s.len() ==> !is_white_space(s[leading_white_space(s) as int]),
    decreases s.len(),
{
    if s.len() > 0 && is_white_space(s[0]) {
        lemma_leading_bound(s.drop_first());
        assert forall|j: int| 0 <= j < leading_white_space(s) implies is_white_space(#[trigger] s[j]) by {
            if j > 0 {
                assert(s[j] == s.drop_first()[j - 1]);
            }
        }
    }
}

proof fn lemma_trailing_bound(s: Seq<char>)
    ensures
        trailing_white_space(s) <= s.len(),
        forall|j: int|
            s.len() - trailing_white_space(s) <= j < s.len() ==> is_white_space(#[trigger] s[j]),
    decreases s.len(),
{
    if s.len() > 0 && is_white_space(s.last()) {
        lemma_trailing_bound(s.drop_last());
        assert forall|j: int|
            s.len() - trailing_white_space(s) <= j < s.len() implies is_white_space(#[trigger] s[j]) by {
            if j < s.len() - 1 {
                assert(s[j] == s.drop_last()[j]);
            }
        }
    }
}

/// Trimming leaves nothing exactly when every character is white space.
pub proof fn lemma_trim_empty_iff_blank(s: Seq<char>)
    ensures
        trim(s).len() == 0 <==> forall|j: int| 0 <= j < s.len() ==> is_white_space(#[trigger] s[j]),
{
    lemma_leading_bound(s);
    let l = leading_white_space(s);
    let t = s.skip(l as int);
    lemma_trailing_bound(t);
    if l < s.len() {
        assert(t[0] == s[l as int]);
        if trailing_white_space(t) == t.len() {
            assert(is_white_space(t[0]));
        }
        assert(trim(s).len() > 0);
        assert(!is_white_space(s[l as int]));
    } else {
        assert(t.len() == 0);
        assert(trim(s).len() == 0);
    }
}

/// A text that starts and ends with something other than white space is
/// its own trim.
pub proof fn lemma_trim_of_clean(s: Seq<char>)
    requires
        s.len() > 0,
        !is_white_space(s[0]),
        !is_white_space(s.last()),
    ensures
        trim(s) == s,
{
    assert(leading_white_space(s) == 0);
    assert(s.skip(0) =~= s);
    assert(trailing_white_space(s) == 0);
    assert(s.take(s.len() as int) =~= s);
}

} // verus!

verus! {

/// What trimming keeps of a text that is not blank: one contiguous part of
/// it, starting and ending with something other than white space, with
/// only white space before and after it.
pub proof fn lemma_trim_shape(s: Seq<char>)
    requires
        exists|i: int| 0 <= i < s.len() && !is_white_space(#[trigger] s[i]),
    ensures
        ({
            let r = trim(s);
            let a = leading_white_space(s) as int;
            &&& r.len() > 0
            &&& !is_white_space(r[0])
            &&& !is_white_space(r.last())
            &&& 0 <= a && a + r.len() <= s.len()
            &&& s.subrange(a, a + r.len()) == r
            &&& forall|j: int| 0 <= j < a ==> is_white_space(#[trigger] s[j])
            &&& forall|j: int| a + r.len() <= j < s.len() ==> is_white_space(#[trigger] s[j])
        }),
{
    lemma_leading_bound(s);
    lemma_trim_empty_iff_blank(s);
    let a = leading_white_space(s) as int;
    let t = s.skip(a);
    lemma_trailing_bound(t);
    lemma_trailing_last(t);
    let r = trim(s);
    assert(r =~= s.subrange(a, a + r.len()));
    assert(r[0] == s[a]);
    assert forall|j: int| a + r.len() <= j < s.len() implies is_white_space(#[trigger] s[j]) by {
        assert(s[j] == t[j - a]);
    }
}

proof fn lemma_trailing_last(s: Seq<char>)
    ensures
        trailing_white_space(s) < s.len() ==> !is_white_space(s[s.len() - 1 - trailing_white_space(s)]),
    decreases s.len(),
{
    if s.len() > 0 && is_white_space(s.last()) {
        lemma_trailing_last(s.drop_last());
    }
}

} // verus!

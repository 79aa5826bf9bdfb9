//! Character-level text utilities used to render GraphQL documents and diagnostics.
use vstd::prelude::*;
use vstd::string::*;

verus! {

/// The character that spells decimal digit `d` (`d < 10`).
pub open spec fn digit_char(d: nat) -> char {
    ((d + 48) as u32) as char
}

/// Decimal spelling of a natural number, most significant digit first, no leading zeros.
pub open spec fn dec_digits(n: nat) -> Seq<char>
    decreases n,
{
    if n < 10 {
        seq![digit_char(n)]
    } else {
        dec_digits(n / 10).push(digit_char(n % 10))
    }
}

/// Decimal spelling of an integer, with a leading `-` for negative values.
pub open spec fn int_text(v: int) -> Seq<char> {
    if v < 0 {
        seq!['-'] + dec_digits((-v) as nat)
    } else {
        dec_digits(v as nat)
    }
}

/// Calls `String::push`, which the standard library documents as appending the given char to
/// the end of the string; that is all this contract claims, unproved.
#[verifier::external_body]
fn push_char(s: &mut String, c: char)
    ensures
        final(s)@ == old(s)@.push(c),
{
    s.push(c);
}

fn digit(d: u128) -> (c: char)
    requires
        d < 10,
    ensures
        c == digit_char(d as nat),
{
    let b: u8 = 48u8 + (d as u8);
    b as char
}

/// Appends the decimal spelling of `n` to `s`.
pub fn append_u128(s: &mut String, n: u128)
    ensures
        final(s)@ == old(s)@ + dec_digits(n as nat),
    decreases n,
{
    if n >= 10 {
        append_u128(s, n / 10);
    }
    push_char(s, digit(n % 10));
    assert(n >= 10 ==> dec_digits(n as nat) == dec_digits((n / 10) as nat).push(digit_char((n % 10) as nat)));
}

/// Appends the decimal spelling of `n` to `s`.
pub fn append_u64(s: &mut String, n: u64)
    ensures
        final(s)@ == old(s)@ + dec_digits(n as nat),
{
    append_u128(s, n as u128);
}

/// Appends the decimal spelling of `v` (with `-` when negative) to `s`.
pub fn append_i64(s: &mut String, v: i64)
    ensures
        final(s)@ == old(s)@ + int_text(v as int),
{
    if v < 0 {
        push_char(s, '-');
        let m: u64 = ((-(v + 1)) as u64) + 1;
        append_u64(s, m);
    } else {
        append_u64(s, v as u64);
    }
}

/// Decimal spelling of an unsigned integer.
pub fn u128_text(n: u128) -> (s: String)
    ensures
        s@ == dec_digits(n as nat),
{
    let mut s = String::new();
    append_u128(&mut s, n);
    s
}

/// Decimal spelling of an unsigned integer.
pub fn u64_text(n: u64) -> (s: String)
    ensures
        s@ == dec_digits(n as nat),
{
    let mut s = String::new();
    append_u64(&mut s, n);
    s
}

/// The views of a sequence of strings.
pub open spec fn texts(v: Seq<String>) -> Seq<Seq<char>> {
    v.map_values(|s: String| s@)
}

/// `items` joined with `sep` between consecutive items.
pub open spec fn join(items: Seq<Seq<char>>, sep: Seq<char>) -> Seq<char>
    decreases items.len(),
{
    if items.len() == 0 {
        Seq::empty()
    } else if items.len() == 1 {
        items[0]
    } else {
        join(items.drop_last(), sep) + sep + items.last()
    }
}

/// Joins the strings of `items`, placing `sep` between consecutive ones.
pub fn join_strings(items: &Vec<String>, sep: &str) -> (r: String)
    ensures
        r@ == join(texts(items@), sep@),
{
    let mut r = String::new();
    let ghost all = texts(items@);
    let n = items.len();
    let mut i: usize = 0;
    while i < n
        invariant
            n == items@.len(),
            i <= n,
            all == texts(items@),
            r@ == join(all.take(i as int), sep@),
        decreases n - i,
    {
        if i > 0 {
            r.append(sep);
        }
        r.append(items[i].as_str());
        i = i + 1;
        assert(all.take(i as int).drop_last() =~= all.take(i - 1));
        assert(all.take(i as int).last() == items@[i - 1]@);
    }
    assert(all.take(n as int) =~= all);
    r
}

/// Lexicographic order on character sequences by code point: `a` sorts strictly before `b`.
/// On valid UTF-8 text this is the byte order that `Ord for String` uses.
pub open spec fn text_lt(a: Seq<char>, b: Seq<char>) -> bool {
    exists|k: int| #[trigger] mismatch_at(a, b, k)
}

/// `a` and `b` agree below `k`, and position `k` decides that `a` comes first.
pub open spec fn mismatch_at(a: Seq<char>, b: Seq<char>, k: int) -> bool {
    &&& 0 <= k <= a.len()
    &&& k <= b.len()
    &&& forall|i: int| 0 <= i < k ==> a[i] == b[i]
    &&& ((k == a.len() && k < b.len()) || (k < a.len() && k < b.len() && a[k] < b[k]))
}

pub proof fn lemma_text_lt_irreflexive(a: Seq<char>)
    ensures
        !text_lt(a, a),
{
}

pub proof fn lemma_text_lt_transitive(a: Seq<char>, b: Seq<char>, c: Seq<char>)
    requires
        text_lt(a, b),
        text_lt(b, c),
    ensures
        text_lt(a, c),
{
    let k1 = choose|k: int| mismatch_at(a, b, k);
    let k2 = choose|k: int| mismatch_at(b, c, k);
    if k1 < k2 {
        assert(mismatch_at(a, c, k1));
    } else if k2 < k1 {
        assert(mismatch_at(a, c, k2));
    } else {
        assert(mismatch_at(a, c, k1));
    }
}

pub proof fn lemma_text_lt_asymmetric(a: Seq<char>, b: Seq<char>)
    requires
        text_lt(a, b),
    ensures
        !text_lt(b, a),
{
    if text_lt(b, a) {
        lemma_text_lt_transitive(a, b, a);
        lemma_text_lt_irreflexive(a);
    }
}

pub proof fn lemma_text_lt_total(a: Seq<char>, b: Seq<char>)
    requires
        a != b,
    ensures
        text_lt(a, b) || text_lt(b, a),
{
    let m = if a.len() < b.len() { a.len() as int } else { b.len() as int };
    if exists|i: int| 0 <= i < m && a[i] != b[i] {
        let j = choose|i: int| 0 <= i < m && a[i] != b[i];
        lemma_first_mismatch(a, b, j);
    } else if a.len() < b.len() {
        assert(mismatch_at(a, b, m));
    } else if b.len() < a.len() {
        assert(mismatch_at(b, a, m));
    } else {
        assert(a =~= b);
    }
}

proof fn lemma_first_mismatch(a: Seq<char>, b: Seq<char>, j: int)
    requires
        0 <= j < a.len(),
        j < b.len(),
        a[j] != b[j],
    ensures
        text_lt(a, b) || text_lt(b, a),
    decreases j,
{
    if exists|i: int| 0 <= i < j && a[i] != b[i] {
        let i = choose|i: int| 0 <= i < j && a[i] != b[i];
        lemma_first_mismatch(a, b, i);
    } else {
        if a[j] < b[j] {
            assert(mismatch_at(a, b, j));
        } else {
            assert(mismatch_at(b, a, j));
        }
    }
}

/// Decides `text_lt` on two strings.
pub fn str_lt(a: &str, b: &str) -> (r: bool)
    ensures
        r == text_lt(a@, b@),
{
    let la = a.unicode_len();
    let lb = b.unicode_len();
    let mut i: usize = 0;
    while i < la && i < lb
        invariant
            la == a@.len(),
            lb == b@.len(),
            i <= la,
            i <= lb,
            forall|j: int| 0 <= j < i ==> a@[j] == b@[j],
        decreases la - i,
    {
        let ca = a.get_char(i);
        let cb = b.get_char(i);
        if ca != cb {
            let r = ca < cb;
            proof {
                if r {
                    assert(mismatch_at(a@, b@, i as int));
                } else {
                    assert(mismatch_at(b@, a@, i as int));
                    lemma_text_lt_asymmetric(b@, a@);
                }
            }
            return r;
        }
        i = i + 1;
    }
    let r = la < lb;
    proof {
        if r {
            assert(mismatch_at(a@, b@, i as int));
        } else if text_lt(a@, b@) {
            let k = choose|k: int| mismatch_at(a@, b@, k);
            assert(k <= i);
            assert(false);
        }
    }
    r
}

/// Strictly increasing in `text_lt` order, hence free of duplicates.
pub open spec fn strictly_sorted(s: Seq<Seq<char>>) -> bool {
    forall|i: int, j: int| 0 <= i < j < s.len() ==> text_lt(#[trigger] s[i], #[trigger] s[j])
}

/// Two strictly sorted sequences that hold the same elements are equal.
pub proof fn lemma_sorted_unique(s1: Seq<Seq<char>>, s2: Seq<Seq<char>>)
    requires
        strictly_sorted(s1),
        strictly_sorted(s2),
        s1.to_set() == s2.to_set(),
    ensures
        s1 == s2,
    decreases s1.len(),
{
    if s1.len() == 0 {
        if s2.len() > 0 {
            assert(s2.to_set().contains(s2[0]));
        }
        assert(s2.len() == 0);
        assert(s1 =~= s2);
    } else {
        assert(s1.to_set().contains(s1[0]));
        assert(s2.to_set().contains(s1[0]));
        assert(s2.len() > 0);
        assert(s2.to_set().contains(s2[0]));
        assert(s1.to_set().contains(s2[0]));
        let j1 = choose|j: int| 0 <= j < s1.len() && s1[j] == s2[0];
        let j2 = choose|j: int| 0 <= j < s2.len() && s2[j] == s1[0];
        if s1[0] != s2[0] {
            assert(j1 > 0);
            assert(j2 > 0);
            assert(text_lt(s1[0], s1[j1]));
            assert(text_lt(s2[0], s2[j2]));
            lemma_text_lt_asymmetric(s1[0], s2[0]);
            assert(false);
        }
        let t1 = s1.drop_first();
        let t2 = s2.drop_first();
        assert forall|x: Seq<char>| t1.to_set().contains(x) implies t2.to_set().contains(x) by {
            let j = choose|j: int| 0 <= j < t1.len() && t1[j] == x;
            assert(s1[j + 1] == x);
            assert(s1.to_set().contains(x));
            assert(s2.to_set().contains(x));
            let k = choose|k: int| 0 <= k < s2.len() && s2[k] == x;
            if k == 0 {
                assert(text_lt(s1[0], s1[j + 1]));
                lemma_text_lt_irreflexive(x);
                assert(false);
            }
            assert(t2[k - 1] == x);
        }
        assert forall|x: Seq<char>| t2.to_set().contains(x) implies t1.to_set().contains(x) by {
            let j = choose|j: int| 0 <= j < t2.len() && t2[j] == x;
            assert(s2[j + 1] == x);
            assert(s2.to_set().contains(x));
            assert(s1.to_set().contains(x));
            let k = choose|k: int| 0 <= k < s1.len() && s1[k] == x;
            if k == 0 {
                assert(text_lt(s2[0], s2[j + 1]));
                lemma_text_lt_irreflexive(x);
                assert(false);
            }
            assert(t1[k - 1] == x);
        }
        assert(t1.to_set() =~= t2.to_set());
        lemma_sorted_unique(t1, t2);
        assert(s1 =~= seq![s1[0]] + t1);
        assert(s2 =~= seq![s2[0]] + t2);
    }
}

/// Inserts `x` into the strictly sorted vector `v`, keeping it strictly sorted;
/// nothing changes when `x` is already present.
pub fn insert_sorted(v: &mut Vec<String>, x: String)
    requires
        strictly_sorted(texts(old(v)@)),
    ensures
        strictly_sorted(texts(final(v)@)),
        texts(final(v)@).to_set() == texts(old(v)@).to_set().insert(x@),
        texts(old(v)@).contains(x@) ==> texts(final(v)@) == texts(old(v)@),
{
    let ghost old_t = texts(v@);
    let n = v.len();
    let mut p: usize = 0;
    while p < n && str_lt(v[p].as_str(), x.as_str())
        invariant
            n == v@.len(),
            p <= n,
            old_t == texts(v@),
            strictly_sorted(old_t),
            forall|i: int| 0 <= i < p ==> text_lt(#[trigger] old_t[i], x@),
        decreases n - p,
    {
        p = p + 1;
    }
    if p < n && v[p] == x {
        assert(old_t.contains(x@)) by {
            assert(old_t[p as int] == x@);
        }
        assert(old_t.to_set().insert(x@) =~= old_t.to_set());
        return;
    }
    proof {
        if old_t.contains(x@) {
            let j = choose|j: int| 0 <= j < old_t.len() && old_t[j] == x@;
            if j < p {
                lemma_text_lt_irreflexive(x@);
            } else if j > p {
                assert(!text_lt(old_t[p as int], x@));
                assert(old_t[p as int] != x@);
                lemma_text_lt_total(old_t[p as int], x@);
                assert(text_lt(x@, old_t[p as int]));
                assert(text_lt(old_t[p as int], old_t[j]));
                lemma_text_lt_transitive(x@, old_t[p as int], x@);
                lemma_text_lt_irreflexive(x@);
            }
        }
        if p < n {
            assert(!text_lt(old_t[p as int], x@));
            lemma_text_lt_total(old_t[p as int], x@);
        }
    }
    v.insert(p, x);
    proof {
        let nt = texts(v@);
        assert(nt =~= old_t.insert(p as int, x@));
        assert forall|i: int, j: int| 0 <= i < j < nt.len() implies text_lt(#[trigger] nt[i], #[trigger] nt[j]) by {
            if j < p {
            } else if j == p {
            } else if i < p {
                if j > p + 1 {
                    assert(text_lt(old_t[i], old_t[p as int]));
                }
                if p < n {
                    assert(text_lt(x@, old_t[p as int]));
                    lemma_text_lt_transitive(old_t[i], x@, old_t[p as int]);
                }
                assert(nt[j] == old_t[j - 1]);
                if j - 1 > i {
                    assert(text_lt(old_t[i], old_t[j - 1]));
                } else {
                    assert(j - 1 == p);
                }
            } else if i == p {
                assert(nt[j] == old_t[j - 1]);
                if j - 1 > p {
                    assert(text_lt(old_t[p as int], old_t[j - 1]));
                    lemma_text_lt_transitive(x@, old_t[p as int], old_t[j - 1]);
                }
            } else {
                assert(nt[j] == old_t[j - 1]);
                assert(nt[i] == old_t[i - 1]);
            }
        }
        assert(nt.to_set() =~= old_t.to_set().insert(x@)) by {
            assert forall|y: Seq<char>| nt.to_set().contains(y) implies old_t.to_set().insert(x@).contains(y) by {
                let j = choose|j: int| 0 <= j < nt.len() && nt[j] == y;
                if j < p {
                    assert(old_t[j] == y);
                } else if j > p {
                    assert(old_t[j - 1] == y);
                }
            }
            assert forall|y: Seq<char>| old_t.to_set().insert(x@).contains(y) implies nt.to_set().contains(y) by {
                if y == x@ {
                    assert(nt[p as int] == y);
                } else {
                    let j = choose|j: int| 0 <= j < old_t.len() && old_t[j] == y;
                    if j < p {
                        assert(nt[j] == y);
                    } else {
                        assert(nt[j + 1] == y);
                    }
                }
            }
        }
    }
}

/// Number of bytes in the UTF-8 encoding of `c`.
pub open spec fn utf8_width(c: char) -> nat {
    if (c as u32) < 0x80 {
        1
    } else if (c as u32) < 0x800 {
        2
    } else if (c as u32) < 0x10000 {
        3
    } else {
        4
    }
}

/// Number of bytes in the UTF-8 encoding of `s` (what `str::len` reports).
pub open spec fn utf8_len(s: Seq<char>) -> nat
    decreases s.len(),
{
    if s.len() == 0 {
        0
    } else {
        utf8_len(s.drop_last()) + utf8_width(s.last())
    }
}

/// Computes `utf8_len`.
pub fn utf8_byte_len(s: &str) -> (r: u128)
    ensures
        r == utf8_len(s@),
{
    let n = s.unicode_len();
    let mut total: u128 = 0;
    let mut i: usize = 0;
    while i < n
        invariant
            n == s@.len(),
            i <= n,
            total == utf8_len(s@.take(i as int)),
            total <= 4 * i,
        decreases n - i,
    {
        let c = s.get_char(i);
        let code = c as u32;
        let w: u128 = if code < 0x80 {
            1
        } else if code < 0x800 {
            2
        } else if code < 0x10000 {
            3
        } else {
            4
        };
        total = total + w;
        i = i + 1;
        assert(s@.take(i as int).drop_last() =~= s@.take(i - 1));
    }
    assert(s@.take(n as int) =~= s@);
    total
}

/// The Unicode `White_Space` characters, which `char::is_whitespace` recognizes.
pub open spec fn is_ws(c: char) -> bool {
    ||| ('\u{9}' <= c && c <= '\u{d}')
    ||| c == ' '
    ||| c == '\u{85}'
    ||| c == '\u{a0}'
    ||| c == '\u{1680}'
    ||| ('\u{2000}' <= c && c <= '\u{200a}')
    ||| c == '\u{2028}'
    ||| c == '\u{2029}'
    ||| c == '\u{202f}'
    ||| c == '\u{205f}'
    ||| c == '\u{3000}'
}

/// Decides `is_ws`.
pub fn is_ws_char(c: char) -> (r: bool)
    ensures
        r == is_ws(c),
{
    ('\u{9}' <= c && c <= '\u{d}') || c == ' ' || c == '\u{85}' || c == '\u{a0}' || c == '\u{1680}'
        || ('\u{2000}' <= c && c <= '\u{200a}') || c == '\u{2028}' || c == '\u{2029}' || c
        == '\u{202f}' || c == '\u{205f}' || c == '\u{3000}'
}

/// The one-element sequence `[cur]` when `cur` is not empty, else nothing.
pub open spec fn flush(cur: Seq<char>) -> Seq<Seq<char>> {
    if cur.len() > 0 {
        seq![cur]
    } else {
        Seq::empty()
    }
}

/// The whitespace-separated words of `s`, continuing a word `cur` already begun.
pub open spec fn words_from(s: Seq<char>, cur: Seq<char>) -> Seq<Seq<char>>
    decreases s.len(),
{
    if s.len() == 0 {
        flush(cur)
    } else if is_ws(s[0]) {
        flush(cur) + words_from(s.drop_first(), Seq::empty())
    } else {
        words_from(s.drop_first(), cur.push(s[0]))
    }
}

/// The maximal runs of non-whitespace characters of `s`, in order (as `str::split_whitespace`).
pub open spec fn words(s: Seq<char>) -> Seq<Seq<char>> {
    words_from(s, Seq::empty())
}

/// Splits `s` into its whitespace-separated words.
pub fn split_words(s: &str) -> (r: Vec<String>)
    ensures
        texts(r@) == words(s@),
{
    let n = s.unicode_len();
    let mut out: Vec<String> = Vec::new();
    let mut cur = String::new();
    let mut i: usize = 0;
    assert(s@.skip(0) =~= s@);
    assert(texts(out@) =~= Seq::<Seq<char>>::empty());
    assert(texts(out@) + words(s@) =~= words(s@));
    while i < n
        invariant
            n == s@.len(),
            i <= n,
            words(s@) == texts(out@) + words_from(s@.skip(i as int), cur@),
        decreases n - i,
    {
        let c = s.get_char(i);
        let ghost rest = s@.skip(i as int);
        assert(rest[0] == c);
        assert(rest.drop_first() =~= s@.skip(i + 1));
        if is_ws_char(c) {
            if cur.unicode_len() > 0 {
                let ghost before = texts(out@);
                let w = cur;
                out.push(w);
                cur = String::new();
                assert(texts(out@) =~= before + seq![w@]);
            } else {
                assert(flush(cur@) =~= Seq::<Seq<char>>::empty());
                assert(texts(out@) + flush(cur@) =~= texts(out@));
                cur = String::new();
            }
        } else {
            push_char(&mut cur, c);
        }
        i = i + 1;
    }
    assert(s@.skip(n as int) =~= Seq::<char>::empty());
    if cur.unicode_len() > 0 {
        let ghost before = texts(out@);
        let w = cur;
        out.push(w);
        assert(texts(out@) =~= before + seq![w@]);
    } else {
        assert(texts(out@) + Seq::<Seq<char>>::empty() =~= texts(out@));
    }
    out
}

/// Decides whether two strings hold the same characters.
pub fn str_eq(a: &str, b: &str) -> (r: bool)
    ensures
        r == (a@ == b@),
{
    let n = a.unicode_len();
    if n != b.unicode_len() {
        return false;
    }
    let mut i: usize = 0;
    while i < n
        invariant
            n == a@.len() == b@.len(),
            i <= n,
            forall|j: int| 0 <= j < i ==> a@[j] == b@[j],
        decreases n - i,
    {
        if a.get_char(i) != b.get_char(i) {
            return false;
        }
        i = i + 1;
    }
    assert(a@ =~= b@);
    true
}

/// A copy of a vector of strings, element by element.
pub fn copy_strings(v: &Vec<String>) -> (r: Vec<String>)
    ensures
        r@ == v@,
{
    let mut r: Vec<String> = Vec::new();
    let n = v.len();
    let mut i: usize = 0;
    while i < n
        invariant
            n == v@.len(),
            i <= n,
            r@ == v@.take(i as int),
        decreases n - i,
    {
        r.push(v[i].clone());
        i = i + 1;
        assert(r@ =~= v@.take(i as int));
    }
    assert(v@.take(n as int) =~= v@);
    r
}

/// The number a sequence of decimal digit characters spells, most significant first.
pub open spec fn digits_value(s: Seq<char>) -> int
    decreases s.len(),
{
    if s.len() == 0 {
        0
    } else {
        digits_value(s.drop_last()) * 10 + ((s.last() as int) - 48)
    }
}

/// Law (decimal spelling): `dec_digits(n)` is a non-empty run of the characters `0`..`9`,
/// without a leading zero unless `n` is 0, that spells `n`; so different numbers get different
/// spellings.
pub proof fn law_dec_digits(n: nat)
    ensures
        dec_digits(n).len() > 0,
        forall|i: int| 0 <= i < dec_digits(n).len() ==> '0' <= #[trigger] dec_digits(n)[i] && dec_digits(n)[i] <= '9',
        digits_value(dec_digits(n)) == n,
        n > 0 ==> dec_digits(n)[0] != '0',
        n == 0 ==> dec_digits(n) == seq!['0'],
    decreases n,
{
    assert(digit_char(n % 10) as int == (n % 10) + 48);
    if n >= 10 {
        law_dec_digits(n / 10);
        let s = dec_digits(n);
        assert(s.drop_last() =~= dec_digits(n / 10));
        assert(s.last() == digit_char(n % 10));
        assert((n / 10) * 10 + n % 10 == n) by (nonlinear_arith);
        assert forall|i: int| 0 <= i < s.len() implies '0' <= #[trigger] s[i] && s[i] <= '9' by {
            if i < s.len() - 1 {
                assert(s[i] == dec_digits(n / 10)[i]);
            }
        }
        assert(s[0] == dec_digits(n / 10)[0]);
    } else {
        assert(dec_digits(n) == seq![digit_char(n)]);
        assert(digits_value(dec_digits(n)) == digits_value(seq![digit_char(n)].drop_last()) * 10 + ((digit_char(n) as int) - 48));
        assert(seq![digit_char(n)].drop_last() =~= Seq::<char>::empty());
    }
}

/// Law (integer spelling): `int_text(v)` starts with `-` exactly when `v` is negative, and the
/// rest is the decimal spelling of `|v|`.
pub proof fn law_int_text(v: int)
    ensures
        (int_text(v)[0] == '-') <==> v < 0,
        v < 0 ==> int_text(v) == seq!['-'] + dec_digits((-v) as nat),
        v >= 0 ==> int_text(v) == dec_digits(v as nat),
{
    if v < 0 {
        assert((seq!['-'] + dec_digits((-v) as nat))[0] == '-');
    } else {
        law_dec_digits(v as nat);
    }
}

} // verus!

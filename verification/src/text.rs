//! Character-level text utilities for the daemon's listing output:
//! whitespace tokenization, line splitting, and lexicographic key order.

use vstd::prelude::*;

verus! {

/// Unicode whitespace: the closed set of characters the listing parser
/// splits fields on.
pub open spec fn is_space(c: char) -> bool {
    let u = c as u32;
    u == 32 || u == 9 || u == 10 || u == 13 || u == 11 || u == 12 || u == 0x85 || u == 0xA0 || u
        == 0x1680 || (0x2000 <= u && u <= 0x200A) || u == 0x2028 || u == 0x2029 || u == 0x202F
        || u == 0x205F || u == 0x3000
}

fn is_space_char(c: char) -> (r: bool)
    ensures
        r == is_space(c),
{
    let u = c as u32;
    u == 32 || u == 9 || u == 10 || u == 13 || u == 11 || u == 12 || u == 0x85 || u == 0xA0 || u
        == 0x1680 || (0x2000 <= u && u <= 0x200A) || u == 0x2028 || u == 0x2029 || u == 0x202F
        || u == 0x205F || u == 0x3000
}

/// The maximal non-whitespace runs of `s` after the current token `cur`,
/// appended to `acc`: one character of `s` is consumed per step.
pub open spec fn tokens_acc(s: Seq<char>, cur: Seq<char>, acc: Seq<Seq<char>>) -> Seq<Seq<char>>
    decreases s.len(),
{
    if s.len() == 0 {
        if cur.len() == 0 {
            acc
        } else {
            acc.push(cur)
        }
    } else if is_space(s[0]) {
        if cur.len() == 0 {
            tokens_acc(s.drop_first(), Seq::empty(), acc)
        } else {
            tokens_acc(s.drop_first(), Seq::empty(), acc.push(cur))
        }
    } else {
        tokens_acc(s.drop_first(), cur.push(s[0]), acc)
    }
}

/// The maximal non-whitespace runs of `s`, in order: what splitting on
/// whitespace yields, with no empty tokens.
pub open spec fn tokens(s: Seq<char>) -> Seq<Seq<char>> {
    tokens_acc(s, Seq::empty(), Seq::empty())
}

/// Splits `s` on whitespace into its maximal non-whitespace runs.
pub fn tokenize(s: &str) -> (r: Vec<String>)
    ensures
        r@.map_values(|t: String| t@) == tokens(s@),
{
    let n = s.unicode_len();
    let mut acc: Vec<String> = Vec::new();
    let mut i: usize = 0;
    let mut start: usize = 0;
    proof {
        assert(acc@.map_values(|t: String| t@) =~= Seq::<Seq<char>>::empty());
        assert(s@.skip(0) =~= s@);
        assert(s@.subrange(0, 0) =~= Seq::<char>::empty());
    }
    while i < n
        invariant
            n == s@.len(),
            start <= i <= n,
            tokens(s@) == tokens_acc(
                s@.skip(i as int),
                s@.subrange(start as int, i as int),
                acc@.map_values(|t: String| t@),
            ),
        decreases n - i,
    {
        let ghost cur = s@.subrange(start as int, i as int);
        let ghost accm = acc@.map_values(|t: String| t@);
        let c = s.get_char(i);
        proof {
            assert(s@.skip(i as int)[0] == s@[i as int]);
            assert(s@.skip(i as int).drop_first() =~= s@.skip(i as int + 1));
        }
        if is_space_char(c) {
            if start < i {
                let tok = s.substring_char(start, i).to_owned();
                acc.push(tok);
                proof {
                    assert(acc@.map_values(|t: String| t@) =~= accm.push(cur));
                }
            }
            i = i + 1;
            start = i;
            proof {
                assert(s@.subrange(i as int, i as int) =~= Seq::<char>::empty());
            }
        } else {
            i = i + 1;
            proof {
                assert(s@.subrange(start as int, i as int) =~= cur.push(c));
            }
        }
    }
    proof {
        assert(s@.skip(n as int) =~= Seq::<char>::empty());
    }
    if start < n {
        let ghost accm = acc@.map_values(|t: String| t@);
        let tok = s.substring_char(start, n).to_owned();
        acc.push(tok);
        proof {
            assert(acc@.map_values(|t: String| t@) =~= accm.push(
                s@.subrange(start as int, n as int),
            ));
        }
    }
    acc
}

/// A line with one trailing carriage return removed, as the listing's
/// line-splitting does.
pub open spec fn strip_cr(l: Seq<char>) -> Seq<char> {
    if l.len() > 0 && l.last() == '\r' {
        l.drop_last()
    } else {
        l
    }
}

/// The lines of `s` after the current line `cur`, appended to `acc`: split
/// at every newline, each line with a trailing carriage return stripped,
/// and no empty segment after a final newline.
pub open spec fn lines_acc(s: Seq<char>, cur: Seq<char>, acc: Seq<Seq<char>>) -> Seq<Seq<char>>
    decreases s.len(),
{
    if s.len() == 0 {
        if cur.len() == 0 {
            acc
        } else {
            acc.push(strip_cr(cur))
        }
    } else if s[0] == '\n' {
        lines_acc(s.drop_first(), Seq::empty(), acc.push(strip_cr(cur)))
    } else {
        lines_acc(s.drop_first(), cur.push(s[0]), acc)
    }
}

/// The lines of `s`.
pub open spec fn lines_of(s: Seq<char>) -> Seq<Seq<char>> {
    lines_acc(s, Seq::empty(), Seq::empty())
}

/// Splits `s` into lines at each newline, stripping one trailing carriage
/// return per line and dropping the empty segment after a final newline.
pub fn split_lines(s: &str) -> (r: Vec<String>)
    ensures
        r@.map_values(|l: String| l@) == lines_of(s@),
{
    let n = s.unicode_len();
    let mut acc: Vec<String> = Vec::new();
    let mut i: usize = 0;
    let mut start: usize = 0;
    proof {
        assert(acc@.map_values(|l: String| l@) =~= Seq::<Seq<char>>::empty());
        assert(s@.skip(0) =~= s@);
        assert(s@.subrange(0, 0) =~= Seq::<char>::empty());
    }
    while i < n
        invariant
            n == s@.len(),
            start <= i <= n,
            lines_of(s@) == lines_acc(
                s@.skip(i as int),
                s@.subrange(start as int, i as int),
                acc@.map_values(|l: String| l@),
            ),
        decreases n - i,
    {
        let ghost cur = s@.subrange(start as int, i as int);
        let ghost accm = acc@.map_values(|l: String| l@);
        let c = s.get_char(i);
        proof {
            assert(s@.skip(i as int)[0] == s@[i as int]);
            assert(s@.skip(i as int).drop_first() =~= s@.skip(i as int + 1));
        }
        if c == '\n' {
            let line_end = if start < i && s.get_char(i - 1) == '\r' {
                i - 1
            } else {
                i
            };
            let line = s.substring_char(start, line_end).to_owned();
            proof {
                if start < i && s@[i as int - 1] == '\r' {
                    assert(cur.last() == s@[i as int - 1]);
                    assert(s@.subrange(start as int, i as int - 1) =~= cur.drop_last());
                } else if start < i {
                    assert(cur.last() == s@[i as int - 1]);
                }
                assert(line@ == strip_cr(cur));
            }
            acc.push(line);
            proof {
                assert(acc@.map_values(|l: String| l@) =~= accm.push(strip_cr(cur)));
            }
            i = i + 1;
            start = i;
            proof {
                assert(s@.subrange(i as int, i as int) =~= Seq::<char>::empty());
            }
        } else {
            i = i + 1;
            proof {
                assert(s@.subrange(start as int, i as int) =~= cur.push(c));
            }
        }
    }
    proof {
        assert(s@.skip(n as int) =~= Seq::<char>::empty());
    }
    if start < n {
        let ghost cur = s@.subrange(start as int, n as int);
        let ghost accm = acc@.map_values(|l: String| l@);
        let line_end = if s.get_char(n - 1) == '\r' {
            n - 1
        } else {
            n
        };
        let line = s.substring_char(start, line_end).to_owned();
        proof {
            assert(cur.last() == s@[n as int - 1]);
            if s@[n as int - 1] == '\r' {
                assert(s@.subrange(start as int, n as int - 1) =~= cur.drop_last());
            }
            assert(line@ == strip_cr(cur));
        }
        acc.push(line);
        proof {
            assert(acc@.map_values(|l: String| l@) =~= accm.push(strip_cr(cur)));
        }
    }
    acc
}

/// Strict lexicographic order on character sequences by code point: the
/// order the daemon's listing keys are held in.
pub open spec fn chars_lt(a: Seq<char>, b: Seq<char>) -> bool
    decreases a.len(),
{
    if b.len() == 0 {
        false
    } else if a.len() == 0 {
        true
    } else if (a[0] as u32) < (b[0] as u32) {
        true
    } else if a[0] == b[0] {
        chars_lt(a.drop_first(), b.drop_first())
    } else {
        false
    }
}

proof fn lemma_char_cast_injective(c1: char, c2: char)
    requires
        c1 as u32 == c2 as u32,
    ensures
        c1 == c2,
{
}

/// Law: `chars_lt` orders totally — it is asymmetric, and two sequences
/// neither of which precedes the other are equal.
pub proof fn lemma_chars_lt_trichotomy(a: Seq<char>, b: Seq<char>)
    ensures
        chars_lt(a, b) ==> !chars_lt(b, a) && a != b,
        !chars_lt(a, b) && !chars_lt(b, a) ==> a == b,
    decreases a.len(),
{
    if a.len() > 0 && b.len() > 0 {
        lemma_chars_lt_trichotomy(a.drop_first(), b.drop_first());
        if !chars_lt(a, b) && !chars_lt(b, a) {
            assert((a[0] as u32) == (b[0] as u32));
            lemma_char_cast_injective(a[0], b[0]);
            assert(a[0] == b[0]);
            assert(a =~= seq![a[0]] + a.drop_first());
            assert(b =~= seq![b[0]] + b.drop_first());
        }
        if chars_lt(a, b) && a[0] == b[0] && a.drop_first() == b.drop_first() {
            assert(a =~= b);
        }
    } else if a.len() == 0 && b.len() == 0 {
        assert(a =~= b);
    }
}

/// Law: `chars_lt` is transitive.
pub proof fn lemma_chars_lt_trans(a: Seq<char>, b: Seq<char>, c: Seq<char>)
    requires
        chars_lt(a, b),
        chars_lt(b, c),
    ensures
        chars_lt(a, c),
    decreases a.len(),
{
    if a.len() > 0 && b.len() > 0 && c.len() > 0 {
        if a[0] == b[0] && b[0] == c[0] {
            lemma_chars_lt_trans(a.drop_first(), b.drop_first(), c.drop_first());
        }
    }
}

/// Compares two strings in the lexicographic code-point order.
pub fn str_lt(a: &str, b: &str) -> (r: bool)
    ensures
        r == chars_lt(a@, b@),
{
    let an = a.unicode_len();
    let bn = b.unicode_len();
    let mut i: usize = 0;
    proof {
        assert(a@.skip(0) =~= a@);
        assert(b@.skip(0) =~= b@);
    }
    while i < an && i < bn
        invariant
            an == a@.len(),
            bn == b@.len(),
            i <= an,
            i <= bn,
            chars_lt(a@, b@) == chars_lt(a@.skip(i as int), b@.skip(i as int)),
        decreases an - i,
    {
        let ca = a.get_char(i);
        let cb = b.get_char(i);
        proof {
            assert(a@.skip(i as int)[0] == a@[i as int]);
            assert(b@.skip(i as int)[0] == b@[i as int]);
            assert(a@.skip(i as int).drop_first() =~= a@.skip(i as int + 1));
            assert(b@.skip(i as int).drop_first() =~= b@.skip(i as int + 1));
        }
        if (ca as u32) < (cb as u32) {
            return true;
        }
        if (cb as u32) < (ca as u32) {
            return false;
        }
        proof {
            assert(ca == cb);
        }
        i = i + 1;
    }
    an < bn
}

/// Sorted-map insertion into a key-ordered entry sequence: a matching key
/// has its value replaced in place, any other key enters before the first
/// greater one.
pub open spec fn sorted_insert(
    es: Seq<(Seq<char>, Seq<char>)>,
    k: Seq<char>,
    v: Seq<char>,
) -> Seq<(Seq<char>, Seq<char>)>
    decreases es.len(),
{
    if es.len() == 0 {
        seq![(k, v)]
    } else if chars_lt(k, es[0].0) {
        seq![(k, v)] + es
    } else if k == es[0].0 {
        seq![(k, v)] + es.drop_first()
    } else {
        seq![es[0]] + sorted_insert(es.drop_first(), k, v)
    }
}

/// Whether an entry sequence is strictly ordered by key: the shape a
/// key-ordered map's entries always have, keys unique.
pub open spec fn sorted_by_key(es: Seq<(Seq<char>, Seq<char>)>) -> bool {
    forall|i: int, j: int| 0 <= i < j < es.len() ==> chars_lt(es[i].0, es[j].0)
}

/// Law: inserting at the first position whose key does not precede `k`
/// leaves everything before it, replaces an equal key in place, and shifts
/// the rest.
pub(crate) proof fn lemma_sorted_insert_at(
    es: Seq<(Seq<char>, Seq<char>)>,
    k: Seq<char>,
    v: Seq<char>,
    p: int,
)
    requires
        0 <= p <= es.len(),
        forall|j: int| 0 <= j < p ==> chars_lt(#[trigger] es[j].0, k),
        p < es.len() ==> !chars_lt(es[p].0, k),
    ensures
        sorted_insert(es, k, v) == es.take(p) + seq![(k, v)] + (if p < es.len() && es[p].0 == k {
            es.skip(p + 1)
        } else {
            es.skip(p)
        }),
    decreases es.len(),
{
    if es.len() == 0 {
        assert(sorted_insert(es, k, v) =~= es.take(0) + seq![(k, v)] + es.skip(0));
    } else if p == 0 {
        lemma_chars_lt_trichotomy(k, es[0].0);
        if chars_lt(k, es[0].0) {
            assert(seq![(k, v)] + es =~= es.take(0) + seq![(k, v)] + es.skip(0));
        } else {
            assert(k == es[0].0);
            assert(seq![(k, v)] + es.drop_first() =~= es.take(0) + seq![(k, v)] + es.skip(1));
        }
    } else {
        lemma_chars_lt_trichotomy(es[0].0, k);
        let dt = es.drop_first();
        assert(forall|j: int| 0 <= j < p - 1 ==> #[trigger] dt[j].0 == es[j + 1].0);
        lemma_sorted_insert_at(dt, k, v, p - 1);
        let tail = if p < es.len() && es[p].0 == k {
            es.skip(p + 1)
        } else {
            es.skip(p)
        };
        let dtail = if p - 1 < dt.len() && dt[p - 1].0 == k {
            dt.skip(p)
        } else {
            dt.skip(p - 1)
        };
        assert(p < es.len() ==> es[p] == dt[p - 1]);
        assert(tail =~= dtail);
        assert(seq![es[0]] + (dt.take(p - 1) + seq![(k, v)] + dtail) =~= es.take(p) + seq![(k, v)]
            + tail);
    }
}

/// The number of colons in `t`.
pub open spec fn colon_count(t: Seq<char>) -> nat
    decreases t.len(),
{
    if t.len() == 0 {
        0
    } else {
        colon_count(t.drop_last()) + (if t.last() == ':' {
            1nat
        } else {
            0nat
        })
    }
}

/// The index of the first colon of `t`; `t.len()` when there is none.
pub open spec fn first_colon(t: Seq<char>) -> int
    decreases t.len(),
{
    if t.len() == 0 {
        0
    } else if t[0] == ':' {
        0
    } else {
        1 + first_colon(t.drop_first())
    }
}

/// The key/value reading of one attribute token: kept only when the token
/// holds exactly one colon, split there; any other token is dropped.
pub open spec fn pair_of(t: Seq<char>) -> Option<(Seq<char>, Seq<char>)> {
    if colon_count(t) == 1 {
        Some((t.take(first_colon(t)), t.skip(first_colon(t) + 1)))
    } else {
        None
    }
}

proof fn lemma_colon_count_zero(t: Seq<char>)
    requires
        colon_count(t) == 0,
    ensures
        forall|j: int| 0 <= j < t.len() ==> t[j] != ':',
    decreases t.len(),
{
    if t.len() > 0 {
        lemma_colon_count_zero(t.drop_last());
        assert(forall|j: int| 0 <= j < t.len() - 1 ==> t[j] == t.drop_last()[j]);
        assert(t.last() != ':');
    }
}

proof fn lemma_first_colon_at(t: Seq<char>, k: int)
    requires
        0 <= k < t.len(),
        t[k] == ':',
        forall|j: int| 0 <= j < k ==> t[j] != ':',
    ensures
        first_colon(t) == k,
    decreases k,
{
    if k > 0 {
        lemma_first_colon_at(t.drop_first(), k - 1);
    }
}

/// Splits an attribute token at its colon: `Some` exactly when the token
/// holds one colon, with the key before it and the value after it.
pub fn split_pair(t: &str) -> (r: Option<(String, String)>)
    ensures
        pair_of(t@) matches Some(kv) ==> (r matches Some(p) && p.0@ == kv.0 && p.1@ == kv.1),
        pair_of(t@) is None ==> r is None,
{
    let n = t.unicode_len();
    let mut i: usize = 0;
    let mut count: usize = 0;
    let mut first: usize = 0;
    proof {
        assert(t@.subrange(0, 0) =~= Seq::<char>::empty());
    }
    while i < n
        invariant
            n == t@.len(),
            i <= n,
            count <= i,
            count == colon_count(t@.take(i as int)),
            count > 0 ==> (first < i && t@[first as int] == ':' && (forall|j: int|
                0 <= j < first ==> t@[j] != ':')),
        decreases n - i,
    {
        let c = t.get_char(i);
        proof {
            assert(t@.take(i as int + 1).drop_last() =~= t@.take(i as int));
            assert(t@.take(i as int + 1).last() == t@[i as int]);
        }
        if c == ':' {
            if count == 0 {
                proof {
                    lemma_colon_count_zero(t@.take(i as int));
                    assert(forall|j: int| 0 <= j < i ==> t@[j] == t@.take(i as int)[j]);
                }
                first = i;
            }
            count = count + 1;
        }
        i = i + 1;
    }
    proof {
        assert(t@.take(n as int) =~= t@);
    }
    if count == 1 {
        proof {
            lemma_first_colon_at(t@, first as int);
        }
        let key = t.substring_char(0, first).to_owned();
        let value = t.substring_char(first + 1, n).to_owned();
        proof {
            assert(t@.subrange(0, first as int) =~= t@.take(first as int));
            assert(t@.subrange(first as int + 1, n as int) =~= t@.skip(first as int + 1));
        }
        Some((key, value))
    } else {
        None
    }
}

} // verus!

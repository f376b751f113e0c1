//! Ordering of names and small string utilities.
use vstd::prelude::*;

verus! {

/// Lexicographic order on sequences, given a strict order `less` on their
/// elements: a proper prefix comes first.
pub open spec fn lex_lt<T>(a: Seq<T>, b: Seq<T>, less: spec_fn(T, T) -> bool) -> bool
    decreases a.len(),
{
    if a.len() == 0 {
        b.len() > 0
    } else if b.len() == 0 {
        false
    } else if a[0] != b[0] {
        less(a[0], b[0])
    } else {
        lex_lt(a.subrange(1, a.len() as int), b.subrange(1, b.len() as int), less)
    }
}

/// When `less` orders any two different elements, of two different
/// sequences one is below the other.
pub proof fn lemma_lex_lt_total<T>(a: Seq<T>, b: Seq<T>, less: spec_fn(T, T) -> bool)
    requires
        a != b,
        forall|x: T, y: T| #![trigger less(x, y)] x != y ==> less(x, y) || less(y, x),
    ensures
        lex_lt(a, b, less) || lex_lt(b, a, less),
    decreases a.len(),
{
    if a.len() > 0 && b.len() > 0 && a[0] == b[0] {
        let ta = a.subrange(1, a.len() as int);
        let tb = b.subrange(1, b.len() as int);
        if ta == tb {
            assert(a =~= seq![a[0]] + ta);
            assert(b =~= seq![b[0]] + tb);
        }
        lemma_lex_lt_total(ta, tb, less);
    } else if a.len() == 0 && b.len() == 0 {
        assert(a =~= b);
    }
}

/// Characters ordered by code point.
pub open spec fn char_less() -> spec_fn(char, char) -> bool {
    |x: char, y: char| (x as int) < (y as int)
}

/// Lexicographic order on character sequences, by code point. For UTF-8
/// text this is the same order as the byte-wise order of `String`.
pub open spec fn chars_lt(a: Seq<char>, b: Seq<char>) -> bool {
    lex_lt(a, b, char_less())
}

/// Of two different character sequences, one is below the other.
pub proof fn lemma_chars_lt_total(a: Seq<char>, b: Seq<char>)
    requires
        a != b,
    ensures
        chars_lt(a, b) || chars_lt(b, a),
{
    assert forall|x: char, y: char| #![trigger char_less()(x, y)] x != y implies char_less()(x, y) || char_less()(y, x) by {
        assert(x as int != y as int);
    }
    lemma_lex_lt_total(a, b, char_less());
}

/// Whether `a` sorts strictly before `b`.
pub fn str_lt(a: &str, b: &str) -> (r: bool)
    ensures
        r == chars_lt(a@, b@),
{
    let la = a.unicode_len();
    let lb = b.unicode_len();
    let mut i: usize = 0;
    assert(a@.skip(0) =~= a@);
    assert(b@.skip(0) =~= b@);
    while i < la && i < lb
        invariant
            la == a@.len(),
            lb == b@.len(),
            i <= la,
            i <= lb,
            chars_lt(a@, b@) == chars_lt(a@.skip(i as int), b@.skip(i as int)),
        decreases la - i,
    {
        let ca = a.get_char(i);
        let cb = b.get_char(i);
        if ca != cb {
            return (ca as u32) < (cb as u32);
        }
        assert(a@.skip(i as int).subrange(1, a@.skip(i as int).len() as int) =~= a@.skip(
            i as int + 1,
        ));
        assert(b@.skip(i as int).subrange(1, b@.skip(i as int).len() as int) =~= b@.skip(
            i as int + 1,
        ));
        i = i + 1;
    }
    i == la && i < lb
}

/// Whether each element comes strictly before the next one by `lt`.
pub open spec fn sorted_by<A>(s: Seq<A>, lt: spec_fn(A, A) -> bool) -> bool {
    forall|i: int| 0 <= i < s.len() - 1 ==> lt(s[i], #[trigger] s[i + 1])
}

/// Names ordered by `chars_lt`.
pub open spec fn name_less() -> spec_fn(Seq<char>, Seq<char>) -> bool {
    |a: Seq<char>, b: Seq<char>| chars_lt(a, b)
}

/// Whether each name sorts strictly before the next one.
pub open spec fn strictly_sorted(names: Seq<Seq<char>>) -> bool {
    sorted_by(names, name_less())
}

/// The characters of each string.
pub open spec fn names_of(v: Seq<String>) -> Seq<Seq<char>> {
    v.map_values(|s: String| s@)
}

/// Putting an element that is not yet there between its neighbours keeps a
/// sequence sorted and free of duplicates.
pub proof fn lemma_sorted_insert<A>(s: Seq<A>, p: int, x: A, lt: spec_fn(A, A) -> bool)
    requires
        sorted_by(s, lt),
        s.no_duplicates(),
        !s.contains(x),
        0 <= p <= s.len(),
        p > 0 ==> lt(s[p - 1], x),
        p < s.len() ==> lt(x, s[p]),
    ensures
        sorted_by(s.insert(p, x), lt),
        s.insert(p, x).no_duplicates(),
{
    let r = s.insert(p, x);
    assert forall|i: int| 0 <= i < r.len() - 1 implies lt(r[i], #[trigger] r[i + 1]) by {
        if i < p - 1 {
            assert(r[i] == s[i] && r[i + 1] == s[i + 1]);
        } else if i == p - 1 {
            assert(r[i] == s[p - 1] && r[i + 1] == x);
        } else if i == p {
            assert(r[i] == x && r[i + 1] == s[p]);
        } else {
            let k = i - 1;
            assert(lt(s[k], s[k + 1]));
            assert(r[i] == s[k] && r[i + 1] == s[k + 1]);
        }
    }
    assert forall|i: int, j: int| 0 <= i < r.len() && 0 <= j < r.len() && i != j implies r[i]
        != r[j] by {
        let oi = if i < p {
            i
        } else {
            i - 1
        };
        let oj = if j < p {
            j
        } else {
            j - 1
        };
        if i != p && j != p {
            assert(r[i] == s[oi] && r[j] == s[oj]);
        } else if i == p {
            assert(r[j] == s[oj]);
        } else {
            assert(r[i] == s[oi]);
        }
    }
}

/// What a sequence holds after an insertion.
pub proof fn lemma_insert_contains<A>(s: Seq<A>, p: int, x: A)
    requires
        0 <= p <= s.len(),
    ensures
        forall|n: A| #[trigger] s.insert(p, x).contains(n) <==> s.contains(n) || n == x,
{
    let r = s.insert(p, x);
    assert forall|n: A| #[trigger] r.contains(n) <==> s.contains(n) || n == x by {
        if s.contains(n) {
            let k = choose|k: int| 0 <= k < s.len() && s[k] == n;
            if k < p {
                assert(r[k] == n);
            } else {
                assert(r[k + 1] == n);
            }
        }
        if n == x {
            assert(r[p] == x);
        }
        if r.contains(n) {
            let k = choose|k: int| 0 <= k < r.len() && r[k] == n;
            if k < p {
                assert(s[k] == n);
            } else if k > p {
                assert(s[k - 1] == n);
            }
        }
    }
}

/// Whether `a` and `b` hold the same characters.
pub fn str_eq(a: &str, b: &str) -> (r: bool)
    ensures
        r == (a@ == b@),
{
    let la = a.unicode_len();
    let lb = b.unicode_len();
    if la != lb {
        return false;
    }
    let mut i: usize = 0;
    while i < la
        invariant
            la == a@.len(),
            lb == b@.len(),
            la == lb,
            i <= la,
            a@.take(i as int) == b@.take(i as int),
        decreases la - i,
    {
        if a.get_char(i) != b.get_char(i) {
            return false;
        }
        assert(a@.take(i as int + 1) =~= a@.take(i as int).push(a@[i as int]));
        assert(b@.take(i as int + 1) =~= b@.take(i as int).push(b@[i as int]));
        i = i + 1;
    }
    assert(a@.take(la as int) =~= a@);
    assert(b@.take(lb as int) =~= b@);
    true
}

} // verus!

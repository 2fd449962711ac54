//! Character-sequence helpers shared by the text pipeline: whitespace
//! classification, scanning, trimming, joining, substring removal and
//! decimal rendering, each proved against a direct specification.
use vstd::prelude::*;
use vstd::string::StrSliceExecFns;
use vstd::string::StringExecFns;

verus! {

/// A character with the Unicode `White_Space` property, the class that
/// whitespace collapsing and trimming work over.
pub open spec fn is_space_char(c: char) -> bool {
    ||| c == ' '
    ||| c == '\t'
    ||| c == '\n'
    ||| c == '\r'
    ||| c == '\u{b}'
    ||| c == '\u{c}'
    ||| c == '\u{85}'
    ||| c == '\u{a0}'
    ||| c == '\u{1680}'
    ||| c == '\u{2000}'
    ||| c == '\u{2001}'
    ||| c == '\u{2002}'
    ||| c == '\u{2003}'
    ||| c == '\u{2004}'
    ||| c == '\u{2005}'
    ||| c == '\u{2006}'
    ||| c == '\u{2007}'
    ||| c == '\u{2008}'
    ||| c == '\u{2009}'
    ||| c == '\u{200a}'
    ||| c == '\u{2028}'
    ||| c == '\u{2029}'
    ||| c == '\u{202f}'
    ||| c == '\u{205f}'
    ||| c == '\u{3000}'
}

pub fn is_space(c: char) -> (r: bool)
    ensures
        r == is_space_char(c),
{
    c == ' ' || c == '\t' || c == '\n' || c == '\r' || c == '\u{b}' || c == '\u{c}'
        || c == '\u{85}' || c == '\u{a0}' || c == '\u{1680}' || c == '\u{2000}' || c == '\u{2001}'
        || c == '\u{2002}' || c == '\u{2003}' || c == '\u{2004}' || c == '\u{2005}'
        || c == '\u{2006}' || c == '\u{2007}' || c == '\u{2008}' || c == '\u{2009}'
        || c == '\u{200a}' || c == '\u{2028}' || c == '\u{2029}' || c == '\u{202f}'
        || c == '\u{205f}' || c == '\u{3000}'
}

/// The prefix of `s` before the first occurrence of `c` (all of `s` when
/// `c` does not occur).
pub open spec fn take_until(s: Seq<char>, c: char) -> Seq<char>
    decreases s.len(),
{
    if s.len() == 0 {
        Seq::empty()
    } else if s[0] == c {
        Seq::empty()
    } else {
        seq![s[0]] + take_until(s.drop_first(), c)
    }
}

pub fn split_before(v: &Vec<char>, c: char) -> (r: Vec<char>)
    ensures
        r@ == take_until(v@, c),
{
    let mut out: Vec<char> = Vec::new();
    let mut i: usize = 0;
    proof {
        assert(v@.skip(0) =~= v@);
        assert(Seq::<char>::empty() + take_until(v@, c) =~= take_until(v@, c));
    }
    while i < v.len()
        invariant
            i <= v@.len(),
            take_until(v@, c) == out@ + take_until(v@.skip(i as int), c),
        decreases v@.len() - i,
    {
        proof {
            assert(v@.skip(i as int).len() == v@.len() - i);
            assert(v@.skip(i as int)[0] == v@[i as int]);
        }
        if v[i] == c {
            proof {
                assert(take_until(v@.skip(i as int), c) =~= Seq::<char>::empty());
                assert(take_until(v@, c) =~= out@);
            }
            return out;
        }
        proof {
            assert(v@.skip(i as int).drop_first() =~= v@.skip(i as int + 1));
            assert(take_until(v@.skip(i as int), c) == seq![v@[i as int]] + take_until(
                v@.skip(i as int + 1),
                c,
            ));
            assert(out@ + take_until(v@.skip(i as int), c) =~= (out@ + seq![v@[i as int]])
                + take_until(v@.skip(i as int + 1), c));
        }
        out.push(v[i]);
        i = i + 1;
    }
    proof {
        assert(v@.skip(i as int) =~= Seq::<char>::empty());
        assert(take_until(v@.skip(i as int), c) =~= Seq::<char>::empty());
        assert(take_until(v@, c) =~= out@);
    }
    out
}

/// `s` with its leading whitespace removed.
pub open spec fn trim_start_spec(s: Seq<char>) -> Seq<char>
    decreases s.len(),
{
    if s.len() == 0 {
        s
    } else if is_space_char(s[0]) {
        trim_start_spec(s.drop_first())
    } else {
        s
    }
}

/// `s` with its trailing whitespace removed.
pub open spec fn trim_end_spec(s: Seq<char>) -> Seq<char>
    decreases s.len(),
{
    if s.len() == 0 {
        s
    } else if is_space_char(s.last()) {
        trim_end_spec(s.drop_last())
    } else {
        s
    }
}

/// `s` without leading and trailing whitespace.
pub open spec fn trim_spec(s: Seq<char>) -> Seq<char> {
    trim_end_spec(trim_start_spec(s))
}

pub fn trim(v: &Vec<char>) -> (r: Vec<char>)
    ensures
        r@ == trim_spec(v@),
{
    let mut a: usize = 0;
    proof {
        assert(v@.skip(0) =~= v@);
    }
    while a < v.len() && is_space(v[a])
        invariant
            a <= v@.len(),
            trim_start_spec(v@) == trim_start_spec(v@.skip(a as int)),
        decreases v@.len() - a,
    {
        proof {
            assert(v@.skip(a as int)[0] == v@[a as int]);
            assert(v@.skip(a as int).drop_first() =~= v@.skip(a as int + 1));
        }
        a = a + 1;
    }
    proof {
        if a < v@.len() {
            assert(v@.skip(a as int)[0] == v@[a as int]);
        } else {
            assert(v@.skip(a as int) =~= Seq::<char>::empty());
        }
        assert(trim_start_spec(v@) == v@.skip(a as int));
    }
    let ghost u = v@.skip(a as int);
    let mut e: usize = v.len();
    proof {
        assert(u.take(e - a) =~= u);
    }
    while e > a && is_space(v[e - 1])
        invariant
            a <= e <= v@.len(),
            u == v@.skip(a as int),
            trim_end_spec(u) == trim_end_spec(u.take(e - a)),
        decreases e,
    {
        proof {
            assert(u.take(e - a).last() == u[e - a - 1]);
            assert(u[e - a - 1] == v@[e - 1]);
            assert(u.take(e - a).drop_last() =~= u.take(e - 1 - a));
        }
        e = e - 1;
    }
    proof {
        if e > a {
            assert(u.take(e - a).last() == u[e - a - 1]);
            assert(u[e - a - 1] == v@[e - 1]);
        } else {
            assert(u.take(0) =~= Seq::<char>::empty());
        }
        assert(trim_end_spec(u) == u.take(e - a));
    }
    let mut out: Vec<char> = Vec::new();
    let mut i: usize = a;
    proof {
        assert(u.take(e - a).take(0) =~= Seq::<char>::empty());
    }
    while i < e
        invariant
            a <= i <= e <= v@.len(),
            u == v@.skip(a as int),
            out@ == u.take(e - a).take(i - a),
        decreases e - i,
    {
        proof {
            assert(u.take(e - a)[i - a] == v@[i as int]);
            assert(u.take(e - a).take(i - a).push(u.take(e - a)[i - a]) =~= u.take(e - a).take(
                i + 1 - a,
            ));
        }
        out.push(v[i]);
        i = i + 1;
    }
    proof {
        assert(u.take(e - a).take(e - a) =~= u.take(e - a));
    }
    out
}

pub fn str_to_chars(s: &str) -> (r: Vec<char>)
    ensures
        r@ == s@,
{
    let n = s.unicode_len();
    let mut r: Vec<char> = Vec::new();
    let mut i: usize = 0;
    while i < n
        invariant
            i <= n,
            n == s@.len(),
            r@ == s@.take(i as int),
        decreases n - i,
    {
        let c = s.get_char(i);
        proof {
            assert(s@.take(i as int).push(s@[i as int]) =~= s@.take(i as int + 1));
        }
        r.push(c);
        i = i + 1;
    }
    proof {
        assert(s@.take(n as int) =~= s@);
    }
    r
}

/// Relies on std's String::push: appends one character at the end.
#[verifier::external_body]
fn push_char(s: &mut String, c: char)
    ensures
        final(s)@ == old(s)@.push(c),
{
    s.push(c);
}

pub fn chars_to_string(v: &Vec<char>) -> (r: String)
    ensures
        r@ == v@,
{
    let mut out = String::new();
    let mut i: usize = 0;
    while i < v.len()
        invariant
            i <= v@.len(),
            out@ == v@.take(i as int),
        decreases v@.len() - i,
    {
        proof {
            assert(v@.take(i as int).push(v@[i as int]) =~= v@.take(i as int + 1));
        }
        push_char(&mut out, v[i]);
        i = i + 1;
    }
    proof {
        assert(v@.take(v@.len() as int) =~= v@);
    }
    out
}

pub fn eq_chars(a: &Vec<char>, b: &Vec<char>) -> (r: bool)
    ensures
        r == (a@ == b@),
{
    if a.len() != b.len() {
        proof {
            assert(a@ != b@);
        }
        return false;
    }
    let mut i: usize = 0;
    while i < a.len()
        invariant
            i <= a@.len(),
            a@.len() == b@.len(),
            forall|k: int| 0 <= k < i ==> a@[k] == b@[k],
        decreases a@.len() - i,
    {
        if a[i] != b[i] {
            proof {
                assert(a@[i as int] != b@[i as int]);
                assert(a@ != b@);
            }
            return false;
        }
        i = i + 1;
    }
    proof {
        assert(a@ =~= b@);
    }
    true
}

/// Length of the leading run of non-whitespace characters of `s`.
pub open spec fn word_len(s: Seq<char>) -> nat
    decreases s.len(),
{
    if s.len() == 0 || is_space_char(s[0]) {
        0
    } else {
        1 + word_len(s.drop_first())
    }
}

proof fn lemma_word_len_le(s: Seq<char>)
    ensures
        word_len(s) <= s.len(),
    decreases s.len(),
{
    if s.len() != 0 && !is_space_char(s[0]) {
        lemma_word_len_le(s.drop_first());
    }
}

/// `word_len` is exactly the position of the first whitespace character.
proof fn lemma_word_len_at(t: Seq<char>, k: nat)
    requires
        k <= t.len(),
        forall|m: int| 0 <= m < k ==> !is_space_char(t[m]),
        k == t.len() || is_space_char(t[k as int]),
    ensures
        word_len(t) == k,
    decreases k,
{
    if k > 0 {
        assert(!is_space_char(t[0]));
        let t2 = t.drop_first();
        assert(forall|m: int| 0 <= m < k - 1 ==> t2[m] == t[m + 1] && !is_space_char(#[trigger] t2[m]));
        if k < t.len() {
            assert(t2[k - 1] == t[k as int]);
        }
        lemma_word_len_at(t2, (k - 1) as nat);
    }
}

/// The maximal non-whitespace runs of `s`, in order.
pub open spec fn words(s: Seq<char>) -> Seq<Seq<char>>
    decreases s.len(),
    via words_decreases
{
    if s.len() == 0 {
        Seq::empty()
    } else if is_space_char(s[0]) {
        words(s.drop_first())
    } else {
        seq![s.take(word_len(s) as int)] + words(s.skip(word_len(s) as int))
    }
}

#[via_fn]
proof fn words_decreases(s: Seq<char>) {
    if s.len() != 0 && !is_space_char(s[0]) {
        lemma_word_len_le(s);
    }
}

/// The pieces of `ts` joined with a single space between consecutive pieces.
pub open spec fn join_space(ts: Seq<Seq<char>>) -> Seq<char>
    decreases ts.len(),
{
    if ts.len() == 0 {
        Seq::empty()
    } else if ts.len() == 1 {
        ts[0]
    } else {
        ts[0] + seq![' '] + join_space(ts.drop_first())
    }
}

/// All whitespace runs of `s` collapsed to one space, ends trimmed: the
/// words of `s` joined by single spaces.
pub open spec fn collapse_ws_spec(s: Seq<char>) -> Seq<char> {
    join_space(words(s))
}

/// The finished prefix `done` combined with the words still to come.
spec fn glue(done: Seq<char>, rest: Seq<Seq<char>>) -> Seq<char> {
    if done.len() == 0 {
        join_space(rest)
    } else if rest.len() == 0 {
        done
    } else {
        done + seq![' '] + join_space(rest)
    }
}

proof fn lemma_glue_word(done: Seq<char>, w: Seq<char>, rest: Seq<Seq<char>>)
    requires
        w.len() > 0,
    ensures
        glue(done, seq![w] + rest) == glue(
            if done.len() == 0 {
                w
            } else {
                done + seq![' '] + w
            },
            rest,
        ),
{
    let ws = seq![w] + rest;
    assert(ws[0] == w);
    assert(ws.drop_first() =~= rest);
    if done.len() == 0 {
        if rest.len() == 0 {
            assert(ws.len() == 1);
        } else {
            assert(join_space(ws) == w + seq![' '] + join_space(rest));
        }
    } else {
        let d2 = done + seq![' '] + w;
        if rest.len() == 0 {
            assert(ws.len() == 1);
            assert(join_space(ws) == w);
        } else {
            assert(join_space(ws) == w + seq![' '] + join_space(rest));
            assert(done + seq![' '] + (w + seq![' '] + join_space(rest)) =~= d2 + seq![' ']
                + join_space(rest));
        }
    }
}

pub fn collapse_whitespace(v: &Vec<char>) -> (r: Vec<char>)
    ensures
        r@ == collapse_ws_spec(v@),
{
    let mut out: Vec<char> = Vec::new();
    let mut i: usize = 0;
    proof {
        assert(v@.skip(0) =~= v@);
    }
    while i < v.len()
        invariant
            i <= v@.len(),
            glue(out@, words(v@.skip(i as int))) == collapse_ws_spec(v@),
        decreases v@.len() - i,
    {
        if is_space(v[i]) {
            proof {
                assert(v@.skip(i as int)[0] == v@[i as int]);
                assert(v@.skip(i as int).drop_first() =~= v@.skip(i as int + 1));
            }
            i = i + 1;
        } else {
            let ghost j0 = i as int;
            let ghost t = v@.skip(j0);
            let ghost wl = word_len(t) as int;
            let ghost out0 = out@;
            proof {
                lemma_word_len_le(t);
                assert(t[0] == v@[j0]);
                assert(words(t) == seq![t.take(wl)] + words(t.skip(wl)));
            }
            if out.len() > 0 {
                out.push(' ');
            }
            let ghost out1 = out@;
            proof {
                assert(out1 + v@.subrange(j0, j0) =~= out1);
            }
            while i < v.len() && !is_space(v[i])
                invariant
                    0 <= j0 <= i <= v@.len(),
                    t == v@.skip(j0),
                    out@ == out1 + v@.subrange(j0, i as int),
                    forall|m: int| j0 <= m < i ==> !is_space_char(v@[m]),
                decreases v@.len() - i,
            {
                proof {
                    assert(v@.len() == v.len());
                    assert(i < v@.len());
                    assert(v@.subrange(j0, i as int).push(v@[i as int]) =~= v@.subrange(
                        j0,
                        i as int + 1,
                    ));
                    assert(out@ + seq![v@[i as int]] =~= out1 + v@.subrange(j0, i as int + 1));
                }
                out.push(v[i]);
                i = i + 1;
            }
            proof {
                let k = i - j0;
                assert(forall|m: int| 0 <= m < k ==> t[m] == v@[j0 + m] && !is_space_char(
                    #[trigger] t[m],
                ));
                if i < v@.len() {
                    assert(t[k] == v@[i as int]);
                }
                lemma_word_len_at(t, k as nat);
                assert(wl == k);
                let w = t.take(wl);
                assert(w =~= v@.subrange(j0, i as int));
                assert(w.len() == wl);
                assert(wl >= 1);
                if out0.len() == 0 {
                    assert(out1 == out0);
                    assert(out@ =~= w);
                } else {
                    assert(out1 =~= out0 + seq![' ']);
                    assert(out@ =~= out0 + seq![' '] + w);
                }
                lemma_glue_word(out0, w, words(t.skip(wl)));
                assert(t.skip(wl) =~= v@.skip(i as int));
                assert(glue(out@, words(v@.skip(i as int))) == collapse_ws_spec(v@));
            }
        }
    }
    proof {
        assert(v@.skip(i as int) =~= Seq::<char>::empty());
        assert(words(v@.skip(i as int)) =~= Seq::<Seq<char>>::empty());
        if out@.len() == 0 {
            assert(out@ =~= collapse_ws_spec(v@));
        }
    }
    out
}

/// `s` with every occurrence of the non-empty pattern `pat` removed,
/// scanning left to right and never re-examining replaced text; an empty
/// pattern removes nothing.
pub open spec fn remove_occurrences(s: Seq<char>, pat: Seq<char>) -> Seq<char>
    decreases s.len(),
{
    if pat.len() == 0 {
        s
    } else if s.len() < pat.len() {
        s
    } else if s.take(pat.len() as int) == pat {
        remove_occurrences(s.skip(pat.len() as int), pat)
    } else {
        seq![s[0]] + remove_occurrences(s.drop_first(), pat)
    }
}

fn is_match_at(v: &Vec<char>, i: usize, pat: &Vec<char>) -> (r: bool)
    requires
        i + pat@.len() <= v@.len(),
    ensures
        r == (v@.subrange(i as int, i as int + pat@.len() as int) == pat@),
{
    let ghost sub = v@.subrange(i as int, i as int + pat@.len() as int);
    let mut k: usize = 0;
    while k < pat.len()
        invariant
            k <= pat@.len(),
            i + pat@.len() <= v@.len(),
            sub == v@.subrange(i as int, i as int + pat@.len() as int),
            forall|m: int| 0 <= m < k ==> v@[i + m] == pat@[m],
        decreases pat@.len() - k,
    {
        proof {
            assert(v@.len() == v.len());
        }
        if v[i + k] != pat[k] {
            proof {
                assert(sub[k as int] == v@[i + k]);
                assert(sub != pat@);
            }
            return false;
        }
        k = k + 1;
    }
    proof {
        assert(sub =~= pat@);
    }
    true
}

pub fn remove_all(v: &Vec<char>, pat: &Vec<char>) -> (r: Vec<char>)
    ensures
        r@ == remove_occurrences(v@, pat@),
{
    let mut out: Vec<char> = Vec::new();
    let mut i: usize = 0;
    proof {
        assert(v@.skip(0) =~= v@);
        assert(Seq::<char>::empty() + remove_occurrences(v@, pat@) =~= remove_occurrences(
            v@,
            pat@,
        ));
    }
    if pat.len() == 0 {
        while i < v.len()
            invariant
                i <= v@.len(),
                pat@.len() == 0,
                out@ == v@.take(i as int),
            decreases v@.len() - i,
        {
            proof {
                assert(v@.take(i as int).push(v@[i as int]) =~= v@.take(i as int + 1));
            }
            out.push(v[i]);
            i = i + 1;
        }
        proof {
            assert(v@.take(i as int) =~= v@);
        }
        return out;
    }
    while i < v.len()
        invariant
            i <= v@.len(),
            pat@.len() >= 1,
            remove_occurrences(v@, pat@) == out@ + remove_occurrences(v@.skip(i as int), pat@),
        decreases v@.len() - i,
    {
        let ghost rest = v@.skip(i as int);
        proof {
            assert(v@.len() == v.len());
            assert(rest.len() == v@.len() - i);
            assert(rest[0] == v@[i as int]);
        }
        if pat.len() <= v.len() - i && is_match_at(v, i, pat) {
            proof {
                assert(rest.take(pat@.len() as int) =~= v@.subrange(
                    i as int,
                    i as int + pat@.len() as int,
                ));
                assert(rest.skip(pat@.len() as int) =~= v@.skip(i as int + pat@.len() as int));
                assert(remove_occurrences(rest, pat@) == remove_occurrences(
                    v@.skip(i as int + pat@.len() as int),
                    pat@,
                ));
            }
            i = i + pat.len();
        } else {
            proof {
                if pat@.len() <= rest.len() {
                    assert(rest.take(pat@.len() as int) =~= v@.subrange(
                        i as int,
                        i as int + pat@.len() as int,
                    ));
                    assert(rest.take(pat@.len() as int) != pat@);
                }
                assert(rest.drop_first() =~= v@.skip(i as int + 1));
                assert(remove_occurrences(rest, pat@) == seq![v@[i as int]] + remove_occurrences(
                    v@.skip(i as int + 1),
                    pat@,
                ));
                assert(out@ + remove_occurrences(rest, pat@) =~= (out@ + seq![v@[i as int]])
                    + remove_occurrences(v@.skip(i as int + 1), pat@));
            }
            out.push(v[i]);
            i = i + 1;
        }
    }
    proof {
        assert(v@.skip(i as int) =~= Seq::<char>::empty());
        assert(remove_occurrences(Seq::<char>::empty(), pat@) =~= Seq::<char>::empty());
        assert(remove_occurrences(v@, pat@) =~= out@);
    }
    out
}

/// `s` with the occurrences of each pattern removed in turn, first pattern
/// first.
pub open spec fn remove_list(s: Seq<char>, pats: Seq<Seq<char>>) -> Seq<char>
    decreases pats.len(),
{
    if pats.len() == 0 {
        s
    } else {
        remove_list(remove_occurrences(s, pats[0]), pats.drop_first())
    }
}

/// The digit character for a value below ten.
pub open spec fn dec_digit_char(d: nat) -> char {
    if d == 0 {
        '0'
    } else if d == 1 {
        '1'
    } else if d == 2 {
        '2'
    } else if d == 3 {
        '3'
    } else if d == 4 {
        '4'
    } else if d == 5 {
        '5'
    } else if d == 6 {
        '6'
    } else if d == 7 {
        '7'
    } else if d == 8 {
        '8'
    } else {
        '9'
    }
}

/// The decimal rendering of `n`, most significant digit first, without
/// leading zeros (a single `'0'` for zero).
pub open spec fn dec_rep(n: nat) -> Seq<char>
    decreases n,
    via dec_rep_decreases
{
    if n < 10 {
        seq![dec_digit_char(n)]
    } else {
        dec_rep(n / 10) + seq![dec_digit_char(n % 10)]
    }
}

#[via_fn]
proof fn dec_rep_decreases(n: nat) {
    if n >= 10 {
        vstd::arithmetic::div_mod::lemma_div_is_strictly_smaller(n as int, 10);
    }
}

fn dec_digit(d: usize) -> (c: char)
    requires
        d < 10,
    ensures
        c == dec_digit_char(d as nat),
{
    if d == 0 {
        '0'
    } else if d == 1 {
        '1'
    } else if d == 2 {
        '2'
    } else if d == 3 {
        '3'
    } else if d == 4 {
        '4'
    } else if d == 5 {
        '5'
    } else if d == 6 {
        '6'
    } else if d == 7 {
        '7'
    } else if d == 8 {
        '8'
    } else {
        '9'
    }
}

proof fn lemma_reverse_push(s: Seq<char>, c: char)
    ensures
        s.push(c).reverse() =~= seq![c] + s.reverse(),
{
}

pub fn usize_to_string(n: usize) -> (r: String)
    ensures
        r@ == dec_rep(n as nat),
{
    let mut digits: Vec<char> = Vec::new();
    let mut m: usize = n;
    digits.push(dec_digit(m % 10));
    m = m / 10;
    proof {
        lemma_reverse_push(Seq::<char>::empty(), dec_digit_char((n % 10) as nat));
        assert(Seq::<char>::empty().reverse() =~= Seq::<char>::empty());
        assert(digits@.reverse() =~= seq![dec_digit_char((n % 10) as nat)]);
        if n < 10 {
            assert(n % 10 == n);
        }
    }
    while m > 0
        invariant
            digits@.len() >= 1,
            dec_rep(n as nat) == if m == 0 {
                digits@.reverse()
            } else {
                dec_rep(m as nat) + digits@.reverse()
            },
        decreases m,
    {
        let d = dec_digit(m % 10);
        proof {
            lemma_reverse_push(digits@, dec_digit_char((m % 10) as nat));
            if m < 10 {
                assert(m % 10 == m);
                assert(dec_rep(m as nat) == seq![dec_digit_char((m % 10) as nat)]);
            } else {
                assert(dec_rep(m as nat) == dec_rep((m / 10) as nat) + seq![
                    dec_digit_char((m % 10) as nat),
                ]);
                assert(dec_rep((m / 10) as nat) + (seq![dec_digit_char((m % 10) as nat)]
                    + digits@.reverse()) =~= dec_rep((m / 10) as nat) + seq![
                    dec_digit_char((m % 10) as nat),
                ] + digits@.reverse());
            }
        }
        digits.push(d);
        m = m / 10;
    }
    let ghost rep = dec_rep(n as nat);
    let mut out = String::new();
    let mut j: usize = digits.len();
    proof {
        assert(rep.take(0) =~= Seq::<char>::empty());
    }
    while j > 0
        invariant
            j <= digits@.len(),
            rep == digits@.reverse(),
            rep == dec_rep(n as nat),
            out@ == rep.take(digits@.len() - j),
        decreases j,
    {
        j = j - 1;
        proof {
            assert(digits@[j as int] == rep[digits@.len() - 1 - j]);
            assert(rep.take(digits@.len() - j - 1).push(rep[digits@.len() - 1 - j]) =~= rep.take(
                digits@.len() - j,
            ));
        }
        push_char(&mut out, digits[j]);
    }
    proof {
        assert(rep.take(digits@.len() as int) =~= rep);
    }
    out
}

/// The display title of the chapter at the given one-based position.
pub open spec fn chapter_title_spec(n: nat) -> Seq<char> {
    "Chapter "@ + dec_rep(n)
}

pub fn chapter_title(n: usize) -> (r: String)
    ensures
        r@ == chapter_title_spec(n as nat),
{
    let mut s = String::from_str("Chapter ");
    let num = usize_to_string(n);
    s.append(num.as_str());
    s
}

} // verus!


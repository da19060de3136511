//! Text handling: whitespace classification and normalisation of clipboard text.

use vstd::prelude::*;

verus! {

/// The characters that carry the Unicode `White_Space` property, which is
/// what `char::is_whitespace` tests.
pub open spec fn is_ws(c: char) -> bool {
    let u = c as u32;
    ||| (0x09 <= u && u <= 0x0D)
    ||| u == 0x20
    ||| u == 0x85
    ||| u == 0xA0
    ||| u == 0x1680
    ||| (0x2000 <= u && u <= 0x200A)
    ||| u == 0x2028
    ||| u == 0x2029
    ||| u == 0x202F
    ||| u == 0x205F
    ||| u == 0x3000
}

/// Whether `c` is Unicode white space.
pub fn is_whitespace(c: char) -> (r: bool)
    ensures
        r == is_ws(c),
{
    let u = c as u32;
    (0x09 <= u && u <= 0x0D) || u == 0x20 || u == 0x85 || u == 0xA0 || u == 0x1680 || (0x2000
        <= u && u <= 0x200A) || u == 0x2028 || u == 0x2029 || u == 0x202F || u == 0x205F || u
        == 0x3000
}

/// The characters of `s`, in order.
pub fn chars_of(s: &str) -> (v: Vec<char>)
    ensures
        v@ == s@,
{
    let mut v: Vec<char> = Vec::new();
    for c in it: s.chars()
        invariant
            v@ == it.seq().take(it.index() as int),
            it.seq() == s@,
    {
        v.push(c);
    }
    v
}

/// The words of `s`: its maximal runs of characters that are not white space,
/// in order.
pub open spec fn words(s: Seq<char>) -> Seq<Seq<char>>
    decreases s.len(),
{
    if s.len() == 0 {
        seq![]
    } else {
        let prev = words(s.drop_last());
        let c = s.last();
        if is_ws(c) {
            prev
        } else if s.len() >= 2 && !is_ws(s[s.len() - 2]) {
            prev.update(prev.len() - 1, prev.last().push(c))
        } else {
            prev.push(seq![c])
        }
    }
}

/// The pieces of `ws` concatenated with `sep` between each two neighbours.
pub open spec fn join(ws: Seq<Seq<char>>, sep: char) -> Seq<char>
    decreases ws.len(),
{
    if ws.len() == 0 {
        seq![]
    } else if ws.len() == 1 {
        ws[0]
    } else {
        join(ws.drop_last(), sep) + seq![sep] + ws.last()
    }
}

/// `raw` with its words joined by single spaces.
pub open spec fn normalized(raw: Seq<char>) -> Seq<char> {
    join(words(raw), ' ')
}

/// Every word is non-empty and holds no white space; the last word ends at
/// the end of `s` exactly when `s` ends in a character that is not white space.
pub proof fn lemma_words_shape(s: Seq<char>)
    ensures
        forall|k: int|
            0 <= k < words(s).len() ==> #[trigger] words(s)[k].len() > 0 && forall|j: int|
                0 <= j < words(s)[k].len() ==> !is_ws(#[trigger] words(s)[k][j]),
        (s.len() > 0 && !is_ws(s.last())) ==> words(s).len() > 0,
    decreases s.len(),
{
    if s.len() > 0 {
        lemma_words_shape(s.drop_last());
        if s.len() >= 2 && !is_ws(s[s.len() - 2]) {
            assert(s.drop_last().last() == s[s.len() - 2]);
        }
    }
}

proof fn lemma_join_push(ws: Seq<Seq<char>>, w: Seq<char>, sep: char)
    requires
        ws.len() > 0,
    ensures
        join(ws.push(w), sep) == join(ws, sep) + seq![sep] + w,
{
    assert(ws.push(w).drop_last() =~= ws);
}

proof fn lemma_join_extend_last(ws: Seq<Seq<char>>, c: char, sep: char)
    requires
        ws.len() > 0,
    ensures
        join(ws.update(ws.len() - 1, ws.last().push(c)), sep) == join(ws, sep).push(c),
{
    let ws2 = ws.update(ws.len() - 1, ws.last().push(c));
    if ws.len() == 1 {
        assert(join(ws2, sep) =~= join(ws, sep).push(c));
    } else {
        assert(ws2.drop_last() =~= ws.drop_last());
        assert(join(ws2, sep) =~= join(ws, sep).push(c));
    }
}

proof fn lemma_join_empty(ws: Seq<Seq<char>>, sep: char)
    requires
        forall|k: int| 0 <= k < ws.len() ==> #[trigger] ws[k].len() > 0,
    ensures
        (join(ws, sep).len() == 0) == (ws.len() == 0),
{
    if ws.len() >= 2 {
        assert(ws.last() == ws[ws.len() - 1]);
    } else if ws.len() == 1 {
        assert(ws[0].len() > 0);
    }
}

/// `String::push` from std: afterwards the string holds its old characters
/// followed by `ch`.
pub assume_specification[ String::push ](s: &mut String, ch: char)
    ensures
        final(s)@ == old(s)@.push(ch),
;

/// Collapses every run of white space in `raw` to a single space and drops
/// leading and trailing white space.
pub fn normalize(raw: String) -> (r: String)
    ensures
        r@ == normalized(raw@),
{
    let cs = chars_of(raw.as_str());
    let mut out = String::new();
    let mut in_word = false;
    let mut i: usize = 0;
    while i < cs.len()
        invariant
            i <= cs.len(),
            cs@ == raw@,
            out@ == join(words(cs@.take(i as int)), ' '),
            in_word == (i > 0 && !is_ws(cs@[i - 1])),
        decreases cs.len() - i,
    {
        let c = cs[i];
        let ghost pre = cs@.take(i as int);
        let ghost post = cs@.take(i + 1);
        proof {
            assert(post.drop_last() =~= pre);
            assert(post.last() == c);
            lemma_words_shape(pre);
            lemma_join_empty(words(pre), ' ');
            if i > 0 {
                assert(post[post.len() - 2] == cs@[i - 1]);
            }
        }
        if is_whitespace(c) {
            in_word = false;
        } else if in_word {
            proof {
                lemma_join_extend_last(words(pre), c, ' ');
            }
            out.push(c);
        } else {
            if !out.as_str().is_empty() {
                proof {
                    lemma_join_push(words(pre), seq![c], ' ');
                }
                out.push(' ');
            } else {
                assert(join(words(post), ' ') =~= seq![c]);
            }
            out.push(c);
            in_word = true;
        }
        i += 1;
    }
    assert(cs@.take(cs.len() as int) =~= raw@);
    out
}

} // verus!

verus! {

/// Whether the two character sequences are equal.
pub fn chars_eq(a: &Vec<char>, b: &Vec<char>) -> (r: bool)
    ensures
        r == (a@ == b@),
{
    if a.len() != b.len() {
        return false;
    }
    let mut i: usize = 0;
    while i < a.len()
        invariant
            a.len() == b.len(),
            i <= a.len(),
            forall|j: int| 0 <= j < i ==> a@[j] == b@[j],
        decreases a.len() - i,
    {
        if a[i] != b[i] {
            return false;
        }
        i += 1;
    }
    assert(a@ =~= b@);
    true
}

/// Whether the two strings hold the same characters.
pub fn str_eq(a: &str, b: &str) -> (r: bool)
    ensures
        r == (a@ == b@),
{
    let ca = chars_of(a);
    let cb = chars_of(b);
    chars_eq(&ca, &cb)
}

/// Whether `pat` occurs in `s` starting at position `at`.
pub open spec fn occurs_at(s: Seq<char>, pat: Seq<char>, at: int) -> bool {
    0 <= at && at + pat.len() <= s.len() && s.subrange(at, at + pat.len()) == pat
}

fn occurs_at_exec(s: &Vec<char>, pat: &Vec<char>, at: usize) -> (r: bool)
    ensures
        r == occurs_at(s@, pat@, at as int),
{
    if at > s.len() || pat.len() > s.len() - at {
        return false;
    }
    let mut j: usize = 0;
    while j < pat.len()
        invariant
            at + pat.len() <= s.len(),
            j <= pat.len(),
            forall|k: int| 0 <= k < j ==> s@[at + k] == pat@[k],
        decreases pat.len() - j,
    {
        if s[at + j] != pat[j] {
            assert(s@.subrange(at as int, at + pat.len())[j as int] != pat@[j as int]);
            return false;
        }
        j += 1;
    }
    assert(s@.subrange(at as int, at + pat.len()) =~= pat@);
    true
}

/// Whether `s` begins with `prefix`.
pub fn starts_with(s: &str, prefix: &str) -> (r: bool)
    ensures
        r == occurs_at(s@, prefix@, 0),
{
    let cs = chars_of(s);
    let cp = chars_of(prefix);
    occurs_at_exec(&cs, &cp, 0)
}

/// Whether `pat` occurs anywhere in `s`.
pub fn contains(s: &str, pat: &str) -> (r: bool)
    ensures
        r == exists|at: int| occurs_at(s@, pat@, at),
{
    let cs = chars_of(s);
    let cp = chars_of(pat);
    if cp.len() > cs.len() {
        return false;
    }
    let last = cs.len() - cp.len();
    let mut at: usize = 0;
    loop
        invariant
            cs@ == s@,
            cp@ == pat@,
            last == cs.len() - cp.len(),
            at <= last,
            forall|k: int| 0 <= k < at ==> !occurs_at(s@, pat@, k),
        ensures
            forall|k: int| 0 <= k <= last ==> !occurs_at(s@, pat@, k),
        decreases last - at,
    {
        if occurs_at_exec(&cs, &cp, at) {
            return true;
        }
        if at == last {
            break;
        }
        at += 1;
    }
    assert forall|k: int| !occurs_at(s@, pat@, k) by {
        if 0 <= k <= last {
        }
    }
    false
}

} // verus!

verus! {

/// `s` without its leading white space.
pub open spec fn trim_start(s: Seq<char>) -> Seq<char>
    decreases s.len(),
{
    if s.len() > 0 && is_ws(s[0]) {
        trim_start(s.drop_first())
    } else {
        s
    }
}

/// `s` without its trailing white space.
pub open spec fn trim_end(s: Seq<char>) -> Seq<char>
    decreases s.len(),
{
    if s.len() > 0 && is_ws(s.last()) {
        trim_end(s.drop_last())
    } else {
        s
    }
}

/// `s` without leading and trailing white space.
pub open spec fn trimmed(s: Seq<char>) -> Seq<char> {
    trim_end(trim_start(s))
}

proof fn lemma_trim_start_skip(s: Seq<char>, a: int)
    requires
        0 <= a <= s.len(),
        forall|j: int| 0 <= j < a ==> is_ws(#[trigger] s[j]),
    ensures
        trim_start(s) == trim_start(s.subrange(a, s.len() as int)),
    decreases a,
{
    if a > 0 {
        lemma_trim_start_skip(s, a - 1);
        let t = s.subrange(a - 1, s.len() as int);
        assert(t[0] == s[a - 1]);
        assert(t.drop_first() =~= s.subrange(a, s.len() as int));
    } else {
        assert(s.subrange(0, s.len() as int) =~= s);
    }
}

proof fn lemma_trim_end_cut(s: Seq<char>, b: int)
    requires
        0 <= b <= s.len(),
        forall|j: int| b <= j < s.len() ==> is_ws(#[trigger] s[j]),
    ensures
        trim_end(s) == trim_end(s.subrange(0, b)),
    decreases s.len() - b,
{
    if b < s.len() {
        lemma_trim_end_cut(s, b + 1);
        let t = s.subrange(0, b + 1);
        assert(t.last() == s[b]);
        assert(t.drop_last() =~= s.subrange(0, b));
    } else {
        assert(s.subrange(0, s.len() as int) =~= s);
    }
}

/// `s` with leading and trailing white space removed.
pub fn trim(s: &str) -> (r: String)
    ensures
        r@ == trimmed(s@),
{
    let cs = chars_of(s);
    let n = cs.len();
    let mut a: usize = 0;
    while a < n && is_whitespace(cs[a])
        invariant
            cs@ == s@,
            n == cs.len(),
            a <= n,
            forall|j: int| 0 <= j < a ==> is_ws(#[trigger] cs@[j]),
        decreases n - a,
    {
        a += 1;
    }
    let ghost t = cs@.subrange(a as int, n as int);
    proof {
        lemma_trim_start_skip(cs@, a as int);
        if a < n {
            assert(t[0] == cs@[a as int]);
        }
        assert(trim_start(s@) == t);
    }
    let mut b: usize = n;
    while b > a && is_whitespace(cs[b - 1])
        invariant
            cs@ == s@,
            n == cs.len(),
            a <= b <= n,
            t == cs@.subrange(a as int, n as int),
            forall|j: int| b - a <= j < t.len() ==> is_ws(#[trigger] t[j]),
        decreases b - a,
    {
        b -= 1;
    }
    proof {
        lemma_trim_end_cut(t, b - a);
        let u = t.subrange(0, b - a);
        if b > a {
            assert(u.last() == cs@[b - 1]);
        }
        assert(trim_end(t) == u);
    }
    let mut out = String::new();
    let mut i: usize = a;
    while i < b
        invariant
            cs@ == s@,
            a <= i <= b <= n,
            n == cs.len(),
            out@ == cs@.subrange(a as int, i as int),
        decreases b - i,
    {
        out.push(cs[i]);
        assert(cs@.subrange(a as int, i + 1) =~= cs@.subrange(a as int, i as int).push(cs@[i as int]));
        i += 1;
    }
    assert(out@ =~= t.subrange(0, b - a));
    out
}

} // verus!

verus! {

/// A non-empty piece without white space.
pub open spec fn is_word(t: Seq<char>) -> bool {
    t.len() > 0 && forall|j: int| 0 <= j < t.len() ==> !is_ws(#[trigger] t[j])
}

proof fn lemma_words_of_word(t: Seq<char>)
    requires
        is_word(t),
    ensures
        words(t) == seq![t],
    decreases t.len(),
{
    if t.len() == 1 {
        assert(t.drop_last() =~= Seq::<char>::empty());
        assert(words(t.drop_last()) =~= Seq::<Seq<char>>::empty());
        assert(!is_ws(t[0]));
        assert(seq![t.last()] =~= t);
        assert(words(t) =~= seq![t]);
    } else {
        let u = t.drop_last();
        assert(is_word(u));
        lemma_words_of_word(u);
        assert(t[t.len() - 2] == u[u.len() - 1]);
        assert(u.push(t.last()) =~= t);
        assert(words(t) =~= seq![t]);
    }
}

proof fn lemma_words_space_word(p: Seq<char>, t: Seq<char>)
    requires
        is_word(t),
    ensures
        words(p + seq![' '] + t) == words(p).push(t),
    decreases t.len(),
{
    let s = p + seq![' '] + t;
    assert(is_ws(' '));
    if t.len() == 1 {
        assert(s.drop_last() =~= p + seq![' ']);
        assert((p + seq![' ']).drop_last() =~= p);
        assert(words(p + seq![' ']) == words(p));
        assert(s[s.len() - 2] == ' ');
        assert(seq![s.last()] =~= t);
    } else {
        let u = t.drop_last();
        assert(is_word(u));
        lemma_words_space_word(p, u);
        assert(s.drop_last() =~= p + seq![' '] + u);
        assert(s[s.len() - 2] == u.last());
        assert(u.push(t.last()) =~= t);
        assert(words(s) =~= words(p).push(t));
    }
}

/// Splitting text that is already a space-joined list of words gives back
/// those words.
pub proof fn lemma_words_of_join(ws: Seq<Seq<char>>)
    requires
        forall|k: int| 0 <= k < ws.len() ==> is_word(#[trigger] ws[k]),
    ensures
        words(join(ws, ' ')) == ws,
    decreases ws.len(),
{
    if ws.len() == 0 {
        assert(words(join(ws, ' ')) =~= ws);
    } else if ws.len() == 1 {
        lemma_words_of_word(ws[0]);
        assert(seq![ws[0]] =~= ws);
    } else {
        let rest = ws.drop_last();
        assert forall|k: int| 0 <= k < rest.len() implies is_word(#[trigger] rest[k]) by {
            assert(rest[k] == ws[k]);
        }
        lemma_words_of_join(rest);
        assert(is_word(ws[ws.len() - 1]));
        lemma_words_space_word(join(rest, ' '), ws.last());
        assert(rest.push(ws.last()) =~= ws);
    }
}

/// Normalising twice gives the same text as normalising once.
pub proof fn lemma_normalized_idempotent(s: Seq<char>)
    ensures
        normalized(normalized(s)) == normalized(s),
{
    lemma_words_shape(s);
    let ws = words(s);
    assert forall|k: int| 0 <= k < ws.len() implies is_word(#[trigger] ws[k]) by {
        assert(ws[k].len() > 0);
    }
    lemma_words_of_join(ws);
}

} // verus!

verus! {

/// Every white-space character of `t` is a single space standing between two
/// characters that are not white space.
pub open spec fn single_spaced(t: Seq<char>) -> bool {
    forall|j: int|
        0 <= j < t.len() && is_ws(#[trigger] t[j]) ==> t[j] == ' ' && 0 < j < t.len() - 1
            && !is_ws(t[j - 1]) && !is_ws(t[j + 1])
}

proof fn lemma_join_single_spaced(ws: Seq<Seq<char>>)
    requires
        forall|k: int| 0 <= k < ws.len() ==> is_word(#[trigger] ws[k]),
    ensures
        single_spaced(join(ws, ' ')),
        ws.len() > 0 ==> join(ws, ' ').len() > 0 && !is_ws(join(ws, ' ')[0]) && !is_ws(
            join(ws, ' ').last(),
        ),
    decreases ws.len(),
{
    if ws.len() == 1 {
        assert(is_word(ws[0]));
        let w = ws[0];
        assert(!is_ws(w[0]));
        assert(!is_ws(w[w.len() - 1]));
    } else if ws.len() >= 2 {
        let rest = ws.drop_last();
        assert forall|k: int| 0 <= k < rest.len() implies is_word(#[trigger] rest[k]) by {
            assert(rest[k] == ws[k]);
        }
        lemma_join_single_spaced(rest);
        let a = join(rest, ' ');
        let w = ws.last();
        assert(is_word(ws[ws.len() - 1]));
        let t = join(ws, ' ');
        assert(t == a + seq![' '] + w);
        assert(is_ws(' '));
        assert forall|j: int| 0 <= j < t.len() && is_ws(#[trigger] t[j]) implies t[j] == ' ' && 0
            < j < t.len() - 1 && !is_ws(t[j - 1]) && !is_ws(t[j + 1]) by {
            if j < a.len() {
                assert(t[j] == a[j]);
                assert(j != a.len() - 1);
                assert(t[j - 1] == a[j - 1] && t[j + 1] == a[j + 1]);
            } else if j == a.len() {
                assert(t[j - 1] == a.last());
                assert(t[j + 1] == w[0]);
            } else {
                assert(t[j] == w[j - a.len() - 1]);
            }
        }
        assert(t[0] == a[0]);
        assert(t.last() == w[w.len() - 1]);
    }
}

/// Normalised text has no white space other than single spaces between
/// words: none at either end, and never two in a row.
pub proof fn lemma_normalized_single_spaced(s: Seq<char>)
    ensures
        single_spaced(normalized(s)),
{
    lemma_words_shape(s);
    let ws = words(s);
    assert forall|k: int| 0 <= k < ws.len() implies is_word(#[trigger] ws[k]) by {
        assert(ws[k].len() > 0);
    }
    lemma_join_single_spaced(ws);
}

} // verus!

verus! {

/// `s` holds no character but white space.
pub open spec fn is_blank(s: Seq<char>) -> bool {
    forall|i: int| 0 <= i < s.len() ==> is_ws(#[trigger] s[i])
}

/// Text has no words exactly when it is blank.
pub proof fn lemma_words_empty_iff_blank(s: Seq<char>)
    ensures
        (words(s).len() == 0) == is_blank(s),
    decreases s.len(),
{
    if s.len() > 0 {
        let p = s.drop_last();
        lemma_words_empty_iff_blank(p);
        if is_ws(s.last()) {
            if is_blank(p) {
                assert forall|i: int| 0 <= i < s.len() implies is_ws(#[trigger] s[i]) by {
                    if i < p.len() {
                        assert(s[i] == p[i]);
                    }
                }
            } else {
                let i = choose|i: int| 0 <= i < p.len() && !is_ws(#[trigger] p[i]);
                assert(s[i] == p[i]);
            }
        } else {
            assert(!is_ws(s[s.len() - 1]));
            if s.len() >= 2 && !is_ws(s[s.len() - 2]) {
                assert(p[p.len() - 1] == s[s.len() - 2]);
                assert(!is_blank(p));
            }
        }
    }
}

/// The normal form of text is empty exactly when the text is blank.
pub proof fn lemma_normalized_empty_iff_blank(s: Seq<char>)
    ensures
        (normalized(s).len() == 0) == is_blank(s),
{
    lemma_words_shape(s);
    lemma_join_empty(words(s), ' ');
    lemma_words_empty_iff_blank(s);
}

} // verus!

verus! {

/// Normalising keeps the words of the text.
pub proof fn lemma_words_of_normalized(s: Seq<char>)
    ensures
        words(normalized(s)) == words(s),
{
    lemma_words_shape(s);
    let ws = words(s);
    assert forall|k: int| 0 <= k < ws.len() implies is_word(#[trigger] ws[k]) by {
        assert(ws[k].len() > 0);
    }
    lemma_words_of_join(ws);
}

} // verus!

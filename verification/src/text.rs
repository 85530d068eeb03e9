//! Characters and strings: the searches, splits and comparisons that the other modules are made
//! of, over the sequence of characters that a string holds.
use vstd::prelude::*;

verus! {

// ---------------------------------------------------------------------------------------------
// Characters

/// The characters that Unicode calls white space (property `White_Space`).
pub open spec fn is_whitespace(c: char) -> bool {
    ||| '\u{0009}' <= c <= '\u{000D}'
    ||| c == '\u{0020}'
    ||| c == '\u{0085}'
    ||| c == '\u{00A0}'
    ||| c == '\u{1680}'
    ||| '\u{2000}' <= c <= '\u{200A}'
    ||| c == '\u{2028}'
    ||| c == '\u{2029}'
    ||| c == '\u{202F}'
    ||| c == '\u{205F}'
    ||| c == '\u{3000}'
}

/// Whether `c` is white space.
pub fn whitespace(c: char) -> (r: bool)
    ensures
        r == is_whitespace(c),
{
    ('\u{0009}' <= c && c <= '\u{000D}') || c == '\u{0020}' || c == '\u{0085}' || c == '\u{00A0}'
        || c == '\u{1680}' || ('\u{2000}' <= c && c <= '\u{200A}') || c == '\u{2028}' || c
        == '\u{2029}' || c == '\u{202F}' || c == '\u{205F}' || c == '\u{3000}'
}

/// The lower-case form of an ASCII upper-case letter; any other character as it is.
pub open spec fn ascii_lower(c: char) -> char {
    if 'A' <= c <= 'Z' {
        ((c as u32) + 32) as char
    } else {
        c
    }
}

/// Replaces an ASCII upper-case letter by its lower-case form.
pub fn lower(c: char) -> (r: char)
    ensures
        r == ascii_lower(c),
{
    if 'A' <= c && c <= 'Z' {
        ((c as u8) + 32) as char
    } else {
        c
    }
}

/// The text with every ASCII upper-case letter replaced by its lower-case form.
pub open spec fn lower_text(s: Seq<char>) -> Seq<char> {
    s.map_values(|c: char| ascii_lower(c))
}

// ---------------------------------------------------------------------------------------------
// Strings and the characters they hold

/// What a list of strings holds.
pub open spec fn texts(v: Seq<String>) -> Seq<Seq<char>> {
    v.map_values(|s: String| s@)
}

/// What an optional string holds.
pub open spec fn opt_text(s: Option<String>) -> Option<Seq<char>> {
    match s {
        Some(t) => Some(t@),
        None => None,
    }
}

/// The characters of `s`.
pub fn chars_of(s: &str) -> (r: Vec<char>)
    ensures
        r@ == s@,
{
    let mut out: Vec<char> = Vec::new();
    for c in it: s.chars()
        invariant
            out@ == it.seq().take(it.index() as int),
            it.seq() == s@,
    {
        out.push(c);
    }
    out
}

/// The part of `s` from character `from` up to character `to`, as a string of its own.
pub fn slice(s: &str, from: usize, to: usize) -> (r: String)
    requires
        from <= to <= s@.len(),
    ensures
        r@ == s@.subrange(from as int, to as int),
{
    s.substring_char(from, to).to_owned()
}

/// Whether two strings hold the same characters.
pub fn same(a: &str, b: &str) -> (r: bool)
    ensures
        r == (a@ == b@),
{
    let x: Vec<char> = chars_of(a);
    let y: Vec<char> = chars_of(b);
    if x.len() != y.len() {
        return false;
    }
    let mut i: usize = 0;
    while i < x.len()
        invariant
            i <= x.len(),
            x@ == a@,
            y@ == b@,
            x.len() == y.len(),
            forall|k: int| 0 <= k < i ==> x@[k] == y@[k],
        decreases x.len() - i,
    {
        if x[i] != y[i] {
            assert(x@[i as int] != y@[i as int]);
            return false;
        }
        i = i + 1;
    }
    assert(a@ =~= b@);
    true
}

// ---------------------------------------------------------------------------------------------
// Blank text, and text up to a character

/// Text that is empty once white space is trimmed from its ends.
pub open spec fn is_blank(s: Seq<char>) -> bool {
    forall|i: int| 0 <= i < s.len() ==> is_whitespace(#[trigger] s[i])
}

/// Whether `s` holds nothing but white space.
pub fn blank(s: &str) -> (r: bool)
    ensures
        r == is_blank(s@),
{
    let v: Vec<char> = chars_of(s);
    let mut i: usize = 0;
    while i < v.len()
        invariant
            i <= v.len(),
            v@ == s@,
            forall|k: int| 0 <= k < i ==> is_whitespace(#[trigger] s@[k]),
        decreases v.len() - i,
    {
        if !whitespace(v[i]) {
            assert(!is_whitespace(s@[i as int]));
            return false;
        }
        i = i + 1;
    }
    true
}

/// How many characters stand before the first `c`: all of them where there is no `c`.
pub open spec fn before(s: Seq<char>, c: char) -> nat
    decreases s.len(),
{
    if s.len() == 0 || s[0] == c {
        0
    } else {
        1 + before(s.drop_first(), c)
    }
}

pub proof fn lemma_before(s: Seq<char>, c: char)
    ensures
        before(s, c) <= s.len(),
        forall|i: int| 0 <= i < before(s, c) ==> s[i] != c,
        before(s, c) < s.len() ==> s[before(s, c) as int] == c,
    decreases s.len(),
{
    if s.len() != 0 && s[0] != c {
        lemma_before(s.drop_first(), c);
        assert forall|i: int| 0 <= i < before(s, c) implies s[i] != c by {
            if i > 0 {
                assert(s.drop_first()[i - 1] == s[i]);
            }
        }
    }
}

/// `before` is the only position with no `c` in front of it and `c`, or the end, behind it.
pub proof fn lemma_before_is(s: Seq<char>, c: char, n: int)
    requires
        0 <= n <= s.len(),
        forall|i: int| 0 <= i < n ==> s[i] != c,
        n < s.len() ==> s[n] == c,
    ensures
        before(s, c) == n,
{
    lemma_before(s, c);
}

/// The position of the first `c` at or after `from`, or the end.
pub fn find_char(v: &Vec<char>, c: char, from: usize) -> (r: usize)
    requires
        from <= v@.len(),
    ensures
        from <= r <= v@.len(),
        r - from == before(v@.skip(from as int), c),
{
    let mut i: usize = from;
    while i < v.len() && v[i] != c
        invariant
            from <= i <= v@.len(),
            forall|k: int| from <= k < i ==> v@[k] != c,
        decreases v.len() - i,
    {
        i = i + 1;
    }
    proof {
        let t = v@.skip(from as int);
        assert(forall|k: int| 0 <= k < t.len() ==> t[k] == v@[k + from]);
        lemma_before_is(t, c, i - from);
    }
    i
}

/// The position of the last `c`.
pub open spec fn last_index(s: Seq<char>, c: char) -> Option<int>
    decreases s.len(),
{
    if s.len() == 0 {
        None
    } else if s.last() == c {
        Some(s.len() - 1)
    } else {
        last_index(s.drop_last(), c)
    }
}

/// `last_index` finds `c` exactly where there is one, and no `c` stands behind what it finds.
pub proof fn lemma_last_index(s: Seq<char>, c: char)
    ensures
        match last_index(s, c) {
            Some(i) => {
                &&& 0 <= i < s.len()
                &&& s[i] == c
                &&& forall|k: int| i < k < s.len() ==> s[k] != c
            },
            None => forall|k: int| 0 <= k < s.len() ==> s[k] != c,
        },
    decreases s.len(),
{
    if s.len() != 0 && s.last() != c {
        lemma_last_index(s.drop_last(), c);
        assert(forall|k: int| 0 <= k < s.len() - 1 ==> s.drop_last()[k] == s[k]);
    }
}

/// Finds the last `c`.
pub fn find_last_char(v: &Vec<char>, c: char) -> (r: Option<usize>)
    ensures
        match r {
            Some(i) => last_index(v@, c) == Some(i as int),
            None => last_index(v@, c) is None,
        },
{
    let mut i: usize = v.len();
    while i > 0
        invariant
            i <= v.len(),
            forall|k: int| i <= k < v.len() ==> v@[k] != c,
        decreases i,
    {
        i = i - 1;
        if v[i] == c {
            proof {
                lemma_last_index(v@, c);
                assert(v@[i as int] == c);
            }
            return Some(i);
        }
    }
    proof {
        lemma_last_index(v@, c);
    }
    None
}

// ---------------------------------------------------------------------------------------------
// Text within text

/// `p` stands in `s` at position `i`.
pub open spec fn occurs_at(s: Seq<char>, p: Seq<char>, i: int) -> bool {
    0 <= i && i + p.len() <= s.len() && s.subrange(i, i + p.len()) == p
}

/// `p` stands somewhere in `s`.
pub open spec fn contains_text(s: Seq<char>, p: Seq<char>) -> bool {
    exists|i: int| occurs_at(s, p, i)
}

/// The first position at or after `from` at which `p` stands in `s`.
pub open spec fn find_text(s: Seq<char>, p: Seq<char>, from: int) -> Option<int>
    decreases s.len() + 1 - from,
{
    if from < 0 || from + p.len() > s.len() {
        None
    } else if occurs_at(s, p, from) {
        Some(from)
    } else {
        find_text(s, p, from + 1)
    }
}

/// What `find_text` finds is an occurrence, and the first one from `from` on; it finds nothing
/// only where there is none.
pub proof fn lemma_find_text(s: Seq<char>, p: Seq<char>, from: int)
    requires
        0 <= from,
    ensures
        match find_text(s, p, from) {
            Some(i) => {
                &&& from <= i
                &&& occurs_at(s, p, i)
                &&& forall|k: int| from <= k < i ==> !occurs_at(s, p, k)
            },
            None => forall|k: int| from <= k ==> !occurs_at(s, p, k),
        },
    decreases s.len() + 1 - from,
{
    if from + p.len() <= s.len() && !occurs_at(s, p, from) {
        lemma_find_text(s, p, from + 1);
    }
}

/// Whether `p` stands in `s` at position `i`.
fn stands_at(s: &Vec<char>, p: &Vec<char>, i: usize) -> (r: bool)
    requires
        i + p@.len() <= s@.len(),
    ensures
        r == occurs_at(s@, p@, i as int),
{
    let ghost part = s@.subrange(i as int, i + p@.len());
    let n: usize = s.len();
    let mut k: usize = 0;
    while k < p.len()
        invariant
            k <= p.len(),
            n == s@.len(),
            i + p@.len() <= s@.len(),
            part == s@.subrange(i as int, i + p@.len()),
            forall|j: int| 0 <= j < k ==> part[j] == p@[j],
        decreases p.len() - k,
    {
        if s[i + k] != p[k] {
            assert(part[k as int] != p@[k as int]);
            return false;
        }
        k = k + 1;
    }
    assert(part =~= p@);
    true
}

/// Finds the first position at or after `from` at which `p` stands in `s`.
pub fn find(s: &Vec<char>, p: &Vec<char>, from: usize) -> (r: Option<usize>)
    requires
        from <= s@.len(),
    ensures
        match r {
            Some(i) => find_text(s@, p@, from as int) == Some(i as int),
            None => find_text(s@, p@, from as int) is None,
        },
{
    let mut i: usize = from;
    while p.len() <= s.len() - i
        invariant
            from <= i <= s.len(),
            find_text(s@, p@, from as int) == find_text(s@, p@, i as int),
        decreases s.len() - i,
    {
        if stands_at(s, p, i) {
            return Some(i);
        }
        assert(p@.len() > 0) by {
            assert(s@.subrange(i as int, i as int) =~= Seq::<char>::empty());
            if p@.len() == 0 {
                assert(p@ =~= Seq::<char>::empty());
            }
        }
        i = i + 1;
    }
    None
}

/// Whether `p` stands somewhere in `s`.
pub fn contains(s: &str, p: &str) -> (r: bool)
    ensures
        r == contains_text(s@, p@),
{
    let x: Vec<char> = chars_of(s);
    let y: Vec<char> = chars_of(p);
    proof {
        lemma_find_text(s@, p@, 0);
    }
    match find(&x, &y, 0) {
        Some(_) => true,
        None => false,
    }
}

/// The characters of `s`, each ASCII upper-case letter replaced by its lower-case form.
pub fn lower_chars(s: &str) -> (r: Vec<char>)
    ensures
        r@ == lower_text(s@),
{
    let v: Vec<char> = chars_of(s);
    let mut out: Vec<char> = Vec::new();
    let mut i: usize = 0;
    while i < v.len()
        invariant
            i <= v.len(),
            v@ == s@,
            out@ =~= lower_text(s@).take(i as int),
        decreases v.len() - i,
    {
        out.push(lower(v[i]));
        i = i + 1;
    }
    assert(lower_text(s@).take(s@.len() as int) =~= lower_text(s@));
    out
}

/// Whether `s` starts with `p`, an ASCII letter of `s` in either case matching its lower-case form.
pub fn starts_with_lowered(s: &str, p: &str) -> (r: bool)
    ensures
        r == p@.is_prefix_of(lower_text(s@)),
{
    let x: Vec<char> = lower_chars(s);
    let y: Vec<char> = chars_of(p);
    if y.len() > x.len() {
        return false;
    }
    let r: bool = stands_at(&x, &y, 0);
    r
}

// ---------------------------------------------------------------------------------------------
// Lines

/// The line without the carriage return that ends it.
pub open spec fn without_cr(s: Seq<char>) -> Seq<char> {
    if s.len() > 0 && s.last() == '\r' {
        s.drop_last()
    } else {
        s
    }
}

/// The lines of a text. A line ends at a line feed or at a carriage return and a line feed; the
/// end of the last line is optional, and a carriage return that no line feed follows stays.
pub open spec fn lines(s: Seq<char>) -> Seq<Seq<char>>
    decreases s.len(),
{
    if s.len() == 0 {
        seq![]
    } else if before(s, '\n') >= s.len() {
        seq![s]
    } else {
        seq![without_cr(s.take(before(s, '\n') as int))] + lines(s.skip(before(s, '\n') as int + 1))
    }
}

/// Splits a text into its lines.
pub fn split_lines(s: &str) -> (r: Vec<String>)
    ensures
        texts(r@) == lines(s@),
{
    let v: Vec<char> = chars_of(s);
    let mut out: Vec<String> = Vec::new();
    let mut i: usize = 0;
    assert(s@.skip(0) =~= s@);
    assert(texts(out@) + lines(s@.skip(0)) =~= lines(s@));
    while i < v.len()
        invariant
            i <= v.len(),
            v@ == s@,
            texts(out@) + lines(s@.skip(i as int)) == lines(s@),
        decreases v.len() - i,
    {
        let ghost rest = s@.skip(i as int);
        let ghost done = texts(out@);
        let j: usize = find_char(&v, '\n', i);
        assert(rest.len() == v@.len() - i);
        if j >= v.len() {
            out.push(slice(s, i, j));
            assert(texts(out@) =~= done.push(rest));
            assert(lines(rest) =~= seq![rest]);
            assert(done + seq![rest] =~= done.push(rest));
            return out;
        }
        let mut e: usize = j;
        if j > i && v[j - 1] == '\r' {
            e = j - 1;
        }
        out.push(slice(s, i, e));
        proof {
            let line = without_cr(rest.take(before(rest, '\n') as int));
            assert(rest.take(j - i).len() == j - i);
            assert(j > i ==> rest.take(j - i).last() == v@[j - 1]);
            assert(s@.subrange(i as int, e as int) =~= line);
            assert(texts(out@) =~= done.push(line));
            assert(rest.skip(before(rest, '\n') as int + 1) =~= s@.skip(j + 1));
            assert(done.push(line) + lines(s@.skip(j + 1)) =~= done + (seq![line] + lines(
                s@.skip(j + 1),
            )));
        }
        i = j + 1;
    }
    assert(lines(s@.skip(i as int)) =~= seq![]);
    assert(texts(out@) + seq![] =~= texts(out@));
    out
}

// ---------------------------------------------------------------------------------------------
// Words

/// How many characters at the start of `s` are white space (`space`) or are not (`!space`).
pub open spec fn run(s: Seq<char>, space: bool) -> nat
    decreases s.len(),
{
    if s.len() == 0 || is_whitespace(s[0]) != space {
        0
    } else {
        1 + run(s.drop_first(), space)
    }
}

pub proof fn lemma_run(s: Seq<char>, space: bool)
    ensures
        run(s, space) <= s.len(),
        forall|i: int| 0 <= i < run(s, space) ==> is_whitespace(#[trigger] s[i]) == space,
        run(s, space) < s.len() ==> is_whitespace(s[run(s, space) as int]) != space,
    decreases s.len(),
{
    if s.len() != 0 && is_whitespace(s[0]) == space {
        lemma_run(s.drop_first(), space);
        assert forall|i: int| 0 <= i < run(s, space) implies is_whitespace(#[trigger] s[i])
            == space by {
            if i > 0 {
                assert(s.drop_first()[i - 1] == s[i]);
            }
        }
    }
}

/// The words of a text: its longest stretches without white space, in order.
pub open spec fn words(s: Seq<char>) -> Seq<Seq<char>>
    decreases s.len(),
{
    let t = s.skip(run(s, true) as int);
    if t.len() == 0 {
        seq![]
    } else {
        proof {
            lemma_run(s, true);
            lemma_run(t, false);
        }
        seq![t.take(run(t, false) as int)] + words(t.skip(run(t, false) as int))
    }
}

/// The end of the stretch that starts at `from` and is all white space (`space`) or free of it.
fn run_end(v: &Vec<char>, space: bool, from: usize) -> (r: usize)
    requires
        from <= v@.len(),
    ensures
        from <= r <= v@.len(),
        r - from == run(v@.skip(from as int), space),
{
    let mut i: usize = from;
    while i < v.len() && whitespace(v[i]) == space
        invariant
            from <= i <= v@.len(),
            forall|k: int| from <= k < i ==> is_whitespace(#[trigger] v@[k]) == space,
        decreases v.len() - i,
    {
        i = i + 1;
    }
    proof {
        let t = v@.skip(from as int);
        assert(forall|k: int| 0 <= k < t.len() ==> #[trigger] t[k] == v@[k + from]);
        lemma_run(t, space);
        let n = run(t, space) as int;
        if n < i - from {
            assert(is_whitespace(t[n]) == space);
        }
        if n > i - from {
            assert(is_whitespace(t[i - from]) == space);
        }
    }
    i
}

/// Splits a text into its words.
pub fn split_words(s: &str) -> (r: Vec<String>)
    ensures
        texts(r@) == words(s@),
{
    let v: Vec<char> = chars_of(s);
    let mut out: Vec<String> = Vec::new();
    let mut i: usize = 0;
    assert(s@.skip(0) =~= s@);
    assert(texts(out@) + words(s@.skip(0)) =~= words(s@));
    loop
        invariant
            i <= v.len(),
            v@ == s@,
            texts(out@) + words(s@.skip(i as int)) == words(s@),
        decreases v.len() - i,
    {
        let ghost rest = s@.skip(i as int);
        let ghost done = texts(out@);
        let j: usize = run_end(&v, true, i);
        let ghost t = rest.skip(run(rest, true) as int);
        assert(t =~= s@.skip(j as int));
        if j >= v.len() {
            assert(words(rest) =~= seq![]);
            assert(done + seq![] =~= done);
            return out;
        }
        let k: usize = run_end(&v, false, j);
        out.push(slice(s, j, k));
        proof {
            lemma_run(rest, true);
            lemma_run(t, false);
            assert(t[0] == v@[j as int]);
            let word = t.take(run(t, false) as int);
            assert(word =~= s@.subrange(j as int, k as int));
            assert(texts(out@) =~= done.push(word));
            assert(t.skip(run(t, false) as int) =~= s@.skip(k as int));
            assert(done.push(word) + words(s@.skip(k as int)) =~= done + (seq![word] + words(
                s@.skip(k as int),
            )));
            assert(rest[run(rest, true) as int] == t[0]);
        }
        i = k;
    }
}

// ---------------------------------------------------------------------------------------------
// Parts

/// The parts of a text between one separator and the next.
pub open spec fn parts(s: Seq<char>, sep: char) -> Seq<Seq<char>>
    decreases s.len(),
{
    if before(s, sep) >= s.len() {
        seq![s]
    } else {
        seq![s.take(before(s, sep) as int)] + parts(s.skip(before(s, sep) as int + 1), sep)
    }
}

/// Splits a text at every separator.
pub fn split_parts(s: &str, sep: char) -> (r: Vec<String>)
    ensures
        texts(r@) == parts(s@, sep),
{
    let v: Vec<char> = chars_of(s);
    let mut out: Vec<String> = Vec::new();
    let mut i: usize = 0;
    assert(s@.skip(0) =~= s@);
    assert(texts(out@) + parts(s@.skip(0), sep) =~= parts(s@, sep));
    loop
        invariant
            i <= v.len(),
            v@ == s@,
            texts(out@) + parts(s@.skip(i as int), sep) == parts(s@, sep),
        decreases v.len() - i,
    {
        let ghost rest = s@.skip(i as int);
        let ghost done = texts(out@);
        let j: usize = find_char(&v, sep, i);
        out.push(slice(s, i, j));
        assert(rest.take(j - i) =~= s@.subrange(i as int, j as int));
        assert(texts(out@) =~= done.push(rest.take(j - i)));
        if j >= v.len() {
            assert(rest.take(j - i) =~= rest);
            assert(done + seq![rest] =~= done.push(rest));
            return out;
        }
        proof {
            assert(rest.skip(before(rest, sep) as int + 1) =~= s@.skip(j + 1));
            assert(done.push(rest.take(j - i)) + parts(s@.skip(j + 1), sep) =~= done + (
            seq![rest.take(j - i)] + parts(s@.skip(j + 1), sep)));
        }
        i = j + 1;
    }
}

// ---------------------------------------------------------------------------------------------
// Order

/// `a` stands before `b` in the order of their first differing characters, a text before any
/// longer text that it starts.
pub open spec fn text_less(a: Seq<char>, b: Seq<char>) -> bool
    decreases a.len(),
{
    if b.len() == 0 {
        false
    } else if a.len() == 0 {
        true
    } else if a[0] == b[0] {
        text_less(a.drop_first(), b.drop_first())
    } else {
        a[0] < b[0]
    }
}

/// The order of texts is strict and total.
pub proof fn lemma_text_order(a: Seq<char>, b: Seq<char>)
    ensures
        !(text_less(a, b) && text_less(b, a)),
        a == b <==> !text_less(a, b) && !text_less(b, a),
    decreases a.len(),
{
    if a.len() > 0 && b.len() > 0 {
        lemma_text_order(a.drop_first(), b.drop_first());
        if a[0] == b[0] && a.drop_first() == b.drop_first() {
            assert(a =~= seq![a[0]] + a.drop_first());
            assert(b =~= seq![b[0]] + b.drop_first());
        }
    } else if a.len() == 0 && b.len() == 0 {
        assert(a =~= b);
    }
}

/// The order of texts is transitive.
pub proof fn lemma_text_order_transitive(a: Seq<char>, b: Seq<char>, c: Seq<char>)
    requires
        text_less(a, b),
        text_less(b, c),
    ensures
        text_less(a, c),
    decreases a.len(),
{
    if a.len() > 0 && a[0] == b[0] && b[0] == c[0] {
        lemma_text_order_transitive(a.drop_first(), b.drop_first(), c.drop_first());
    }
}

/// Whether `a` stands before `b`.
pub fn less(a: &str, b: &str) -> (r: bool)
    ensures
        r == text_less(a@, b@),
{
    let x: Vec<char> = chars_of(a);
    let y: Vec<char> = chars_of(b);
    let mut i: usize = 0;
    assert(a@.skip(0) =~= a@ && b@.skip(0) =~= b@);
    while i < x.len() && i < y.len()
        invariant
            i <= x.len(),
            i <= y.len(),
            x@ == a@,
            y@ == b@,
            text_less(a@, b@) == text_less(a@.skip(i as int), b@.skip(i as int)),
        decreases x.len() - i,
    {
        assert(a@.skip(i as int)[0] == x@[i as int]);
        assert(b@.skip(i as int)[0] == y@[i as int]);
        if x[i] != y[i] {
            return x[i] < y[i];
        }
        assert(a@.skip(i as int).drop_first() =~= a@.skip(i + 1));
        assert(b@.skip(i as int).drop_first() =~= b@.skip(i + 1));
        i = i + 1;
    }
    i < y.len()
}

// ---------------------------------------------------------------------------------------------
// Laws

/// A list of strings holds what each of them holds, in order, and an optional string what the
/// string does.
pub proof fn texts_hold_each_string(v: Seq<String>, s: String)
    ensures
        texts(v).len() == v.len(),
        forall|i: int| 0 <= i < v.len() ==> #[trigger] texts(v)[i] == v[i]@,
        opt_text(Some(s)) == Some(s@),
        opt_text(None) is None,
{
}

/// Lowering takes the characters one by one: the 26 letters from `A` on move up to those from `a`
/// on, everything else stays, and lowering twice is lowering once.
pub proof fn lowering_goes_by_character(a: Seq<char>, b: Seq<char>, c: char)
    ensures
        lower_text(a).len() == a.len(),
        lower_text(a + b) == lower_text(a) + lower_text(b),
        lower_text(lower_text(a)) == lower_text(a),
        lower_text(seq![c]).len() == 1,
        'A' <= c <= 'Z' ==> lower_text(seq![c])[0] as int == c as int + 32,
        c < 'A' || c > 'Z' ==> lower_text(seq![c])[0] == c,
{
    assert(lower_text(a + b) =~= lower_text(a) + lower_text(b));
    assert forall|i: int| 0 <= i < a.len() implies #[trigger] lower_text(lower_text(a))[i]
        == lower_text(a)[i] by {
        assert(lower_text(lower_text(a))[i] == ascii_lower(ascii_lower(a[i])));
    }
    assert(lower_text(lower_text(a)) =~= lower_text(a));
}

/// Text is blank exactly where all that it is made of is: nothing, white space, blank text.
pub proof fn blank_text_is_made_of_white_space(a: Seq<char>, b: Seq<char>, c: char)
    ensures
        is_blank(seq![]),
        is_blank(seq![c]) <==> is_whitespace(c),
        is_blank(a + b) <==> is_blank(a) && is_blank(b),
{
    if is_blank(seq![c]) {
        assert(is_whitespace(seq![c][0]));
    }
    if is_blank(a + b) {
        assert forall|i: int| 0 <= i < a.len() implies is_whitespace(#[trigger] a[i]) by {
            assert((a + b)[i] == a[i]);
        }
        assert forall|i: int| 0 <= i < b.len() implies is_whitespace(#[trigger] b[i]) by {
            assert((a + b)[a.len() + i] == b[i]);
        }
    }
}

/// Text stands within any text that is put together around it, at the place where it was put.
pub proof fn text_stands_where_it_was_put(a: Seq<char>, p: Seq<char>, b: Seq<char>)
    ensures
        occurs_at(a + p + b, p, a.len() as int),
        contains_text(a + p + b, p),
{
    assert((a + p + b).subrange(a.len() as int, a.len() as int + p.len()) =~= p);
}

/// Where text stands within another, the other is put together around it.
pub proof fn text_within_parts_the_rest(s: Seq<char>, p: Seq<char>)
    requires
        contains_text(s, p),
    ensures
        exists|a: Seq<char>, b: Seq<char>| s == #[trigger] (a + p + b),
        forall|i: int| #[trigger]
            occurs_at(s, p, i) ==> s == s.take(i) + p + s.skip(i + p.len()),
{
    assert forall|i: int| #[trigger] occurs_at(s, p, i) implies s == s.take(i) + p + s.skip(
        i + p.len(),
    ) by {
        assert(s =~= s.take(i) + s.subrange(i, i + p.len()) + s.skip(i + p.len()));
    }
    let i = choose|i: int| occurs_at(s, p, i);
    assert(s == s.take(i) + p + s.skip(i + p.len()));
}

/// The lines of a text that starts with a line are that line, without the carriage return that may
/// end it, and then those of the rest. Text without a line feed is one line, as it is, and no text
/// is no line.
pub proof fn line_in_front(line: Seq<char>, rest: Seq<char>)
    requires
        !line.contains('\n'),
    ensures
        lines(line + seq!['\n'] + rest) == seq![
            if line.len() > 0 && line.last() == '\r' {
                line.drop_last()
            } else {
                line
            },
        ] + lines(rest),
        line.len() > 0 ==> lines(line) == seq![line],
        lines(seq![]) == Seq::<Seq<char>>::empty(),
{
    let s = line + seq!['\n'] + rest;
    assert forall|i: int| 0 <= i < line.len() implies line[i] != '\n' by {
        assert(line.contains(line[i]));
    }
    lemma_before_is(s, '\n', line.len() as int);
    lemma_before_is(line, '\n', line.len() as int);
    assert(s.take(line.len() as int) =~= line);
    assert(s.skip(line.len() as int + 1) =~= rest);
}

proof fn lemma_run_is(s: Seq<char>, space: bool, n: int)
    requires
        0 <= n <= s.len(),
        forall|i: int| 0 <= i < n ==> is_whitespace(#[trigger] s[i]) == space,
        n < s.len() ==> is_whitespace(s[n]) != space,
    ensures
        run(s, space) == n,
{
    lemma_run(s, space);
    let m = run(s, space) as int;
    if m < n {
        assert(is_whitespace(s[m]) == space);
    }
    if n < m {
        assert(is_whitespace(s[n]) == space);
    }
}

/// A word: text without white space that is not empty.
pub open spec fn is_word(s: Seq<char>) -> bool {
    s.len() > 0 && forall|i: int| 0 <= i < s.len() ==> !is_whitespace(#[trigger] s[i])
}

/// The words of a text that starts with white space and a word are that word and then those of the
/// rest. Blank text has none.
pub proof fn word_in_front(gap: Seq<char>, word: Seq<char>, rest: Seq<char>)
    requires
        is_blank(gap),
        is_word(word),
        rest.len() == 0 || is_whitespace(rest[0]),
    ensures
        words(gap + word + rest) == seq![word] + words(rest),
        words(gap) == Seq::<Seq<char>>::empty(),
{
    let s = gap + word + rest;
    assert forall|i: int| 0 <= i < gap.len() implies is_whitespace(#[trigger] s[i]) by {
        assert(is_whitespace(gap[i]));
    }
    assert(s[gap.len() as int] == word[0]);
    lemma_run_is(s, true, gap.len() as int);
    let t = s.skip(gap.len() as int);
    assert(t =~= word + rest);
    assert forall|i: int| 0 <= i < word.len() implies !is_whitespace(#[trigger] t[i]) by {
        assert(!is_whitespace(word[i]));
    }
    if rest.len() > 0 {
        assert(t[word.len() as int] == rest[0]);
    }
    lemma_run_is(t, false, word.len() as int);
    assert(t.take(word.len() as int) =~= word);
    assert(t.skip(word.len() as int) =~= rest);
    lemma_run_is(gap, true, gap.len() as int);
    assert(gap.skip(gap.len() as int).len() == 0);
}

/// The parts of a text that starts with a part and a separator are that part and then those of the
/// rest. Text without a separator is one part.
pub proof fn part_in_front(part: Seq<char>, sep: char, rest: Seq<char>)
    requires
        !part.contains(sep),
    ensures
        parts(part + seq![sep] + rest, sep) == seq![part] + parts(rest, sep),
        parts(part, sep) == seq![part],
{
    let s = part + seq![sep] + rest;
    assert forall|i: int| 0 <= i < part.len() implies part[i] != sep by {
        assert(part.contains(part[i]));
    }
    lemma_before_is(s, sep, part.len() as int);
    lemma_before_is(part, sep, part.len() as int);
    assert(s.take(part.len() as int) =~= part);
    assert(s.skip(part.len() as int + 1) =~= rest);
}

/// The order of two texts is that of the first characters in which they differ, whatever they
/// start with in common; a text stands before all that it starts.
pub proof fn first_difference_orders(same: Seq<char>, a: Seq<char>, b: Seq<char>)
    ensures
        a.len() > 0 && b.len() > 0 && a[0] != b[0] ==> text_less(same + a, same + b) == (a[0]
            < b[0]),
        a.len() == 0 ==> text_less(same + a, same + b) == (b.len() > 0),
        b.len() == 0 ==> !text_less(same + a, same + b),
    decreases same.len(),
{
    if same.len() == 0 {
        assert(same + a =~= a);
        assert(same + b =~= b);
    } else {
        first_difference_orders(same.drop_first(), a, b);
        assert((same + a).drop_first() =~= same.drop_first() + a);
        assert((same + b).drop_first() =~= same.drop_first() + b);
    }
}

proof fn lemma_gap_in_front(gap: Seq<char>, s: Seq<char>)
    requires
        is_blank(gap),
    ensures
        words(gap + s) == words(s),
{
    lemma_run(s, true);
    let n = run(s, true) as int;
    let all = gap + s;
    assert forall|i: int| 0 <= i < gap.len() + n implies is_whitespace(#[trigger] all[i]) by {
        if i < gap.len() {
            assert(is_whitespace(gap[i]));
        } else {
            assert(is_whitespace(s[i - gap.len()]));
        }
    }
    if n < s.len() {
        assert(all[gap.len() + n] == s[n]);
    }
    lemma_run_is(all, true, gap.len() + n);
    assert(all.skip(gap.len() + n) =~= s.skip(n));
}

/// White space parts words: the words of a text that is parted there are those of its two parts.
pub proof fn white_space_parts_words(a: Seq<char>, b: Seq<char>)
    requires
        b.len() > 0,
        is_whitespace(b[0]),
    ensures
        words(a + b) == words(a) + words(b),
    decreases a.len(),
{
    lemma_run(a, true);
    let n = run(a, true) as int;
    let gap = a.take(n);
    let t = a.skip(n);
    assert forall|i: int| 0 <= i < gap.len() implies is_whitespace(#[trigger] gap[i]) by {
        assert(is_whitespace(a[i]));
    }
    if t.len() == 0 {
        assert(gap =~= a);
        lemma_gap_in_front(a, b);
        assert(words(a) =~= seq![]);
        assert(seq![] + words(b) =~= words(b));
    } else {
        lemma_run(t, false);
        let m = run(t, false) as int;
        assert(t[0] == a[n]);
        let word = t.take(m);
        let rest = t.skip(m);
        assert(m > 0);
        assert forall|i: int| 0 <= i < word.len() implies !is_whitespace(#[trigger] word[i]) by {
            assert(is_whitespace(t[i]) == false);
        }
        if rest.len() > 0 {
            assert(rest[0] == t[m]);
        }
        assert(a =~= gap + word + rest);
        assert(a + b =~= gap + word + (rest + b));
        assert((rest + b)[0] == if rest.len() > 0 {
            rest[0]
        } else {
            b[0]
        });
        word_in_front(gap, word, rest);
        word_in_front(gap, word, rest + b);
        white_space_parts_words(rest, b);
        assert(words(a + b) =~= words(a) + words(b));
    }
}

} // verus!

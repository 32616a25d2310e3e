//! Text on the level of characters: equality, white space, searching and splitting, each with
//! what it means as a sequence of `char`.
use vstd::prelude::*;

verus! {

// ── Characters and equality ─────────────────────────────────────────────────

/// `String::push` appends one character.
pub assume_specification[ String::push ](s: &mut String, c: char)
    ensures
        final(s)@ == old(s)@.push(c),
;

/// The characters of `s`.
pub fn chars_of(s: &str) -> (r: Vec<char>)
    ensures
        r@ == s@,
{
    let mut out: Vec<char> = Vec::new();
    for c in iter: s.chars()
        invariant
            out@ == iter.seq().take(iter.index() as int),
            iter.seq() == s@,
    {
        out.push(c);
        assert(iter.seq().take(iter.index() as int + 1) =~= iter.seq().take(
            iter.index() as int,
        ).push(c));
    }
    assert(s@.take(s@.len() as int) =~= s@);
    out
}

/// The characters from `from` up to `to` as a string.
pub fn string_of(v: &Vec<char>, from: usize, to: usize) -> (r: String)
    requires
        from <= to <= v@.len(),
    ensures
        r@ == v@.subrange(from as int, to as int),
{
    let mut out = String::new();
    let mut i: usize = from;
    while i < to
        invariant
            from <= i <= to <= v@.len(),
            out@ == v@.subrange(from as int, i as int),
        decreases to - i,
    {
        out.push(v[i]);
        assert(v@.subrange(from as int, i as int + 1) =~= v@.subrange(from as int, i as int).push(
            v@[i as int],
        ));
        i = i + 1;
    }
    out
}

/// A new string with the characters of `s`.
pub fn owned(s: &str) -> (r: String)
    ensures
        r@ == s@,
{
    s.to_owned()
}

/// Whether two texts have the same characters.
pub fn str_eq(a: &str, b: &str) -> (r: bool)
    ensures
        r == (a@ == b@),
{
    a.to_owned() == b.to_owned()
}

/// The characters of an optional text.
pub open spec fn opt_text(o: Option<String>) -> Option<Seq<char>> {
    match o {
        Some(s) => Some(s@),
        None => None,
    }
}

/// Copies an optional text.
pub fn clone_opt_text(o: &Option<String>) -> (r: Option<String>)
    ensures
        opt_text(r) == opt_text(*o),
        r is Some <==> o is Some,
{
    match o {
        Some(s) => Some(s.clone()),
        None => None,
    }
}

// ── White space ─────────────────────────────────────────────────────────────

/// Whether `c` has the Unicode property `White_Space`.
pub open spec fn white(c: char) -> bool {
    ||| '\u{9}' <= c <= '\u{d}'
    ||| c == ' '
    ||| c == '\u{85}'
    ||| c == '\u{a0}'
    ||| c == '\u{1680}'
    ||| '\u{2000}' <= c <= '\u{200a}'
    ||| c == '\u{2028}'
    ||| c == '\u{2029}'
    ||| c == '\u{202f}'
    ||| c == '\u{205f}'
    ||| c == '\u{3000}'
}

/// Whether `c` is white space.
pub fn is_white(c: char) -> (r: bool)
    ensures
        r == white(c),
{
    ('\u{9}' <= c && c <= '\u{d}') || c == ' ' || c == '\u{85}' || c == '\u{a0}' || c == '\u{1680}'
        || ('\u{2000}' <= c && c <= '\u{200a}') || c == '\u{2028}' || c == '\u{2029}' || c
        == '\u{202f}' || c == '\u{205f}' || c == '\u{3000}'
}

/// Whether every character of `s` is white space; the empty text counts.
pub open spec fn blank(s: Seq<char>) -> bool {
    forall|i: int| 0 <= i < s.len() ==> white(#[trigger] s[i])
}

/// `s` without the white space at its start.
pub open spec fn trimmed_start(s: Seq<char>) -> Seq<char>
    decreases s.len(),
{
    if s.len() > 0 && white(s[0]) {
        trimmed_start(s.subrange(1, s.len() as int))
    } else {
        s
    }
}

/// `s` without the white space at its end.
pub open spec fn trimmed_end(s: Seq<char>) -> Seq<char>
    decreases s.len(),
{
    if s.len() > 0 && white(s.last()) {
        trimmed_end(s.drop_last())
    } else {
        s
    }
}

/// `s` without the white space at either end.
pub open spec fn trimmed(s: Seq<char>) -> Seq<char> {
    trimmed_end(trimmed_start(s))
}

proof fn lemma_trimmed_start_at(s: Seq<char>, n: int)
    requires
        0 <= n <= s.len(),
        forall|i: int| 0 <= i < n ==> white(#[trigger] s[i]),
        n < s.len() ==> !white(s[n]),
    ensures
        trimmed_start(s) == s.subrange(n, s.len() as int),
    decreases s.len(),
{
    if n == 0 {
        assert(s.subrange(0, s.len() as int) =~= s);
    } else {
        let t = s.subrange(1, s.len() as int);
        lemma_trimmed_start_at(t, n - 1);
        assert(t.subrange(n - 1, t.len() as int) =~= s.subrange(n, s.len() as int));
    }
}

proof fn lemma_trimmed_end_at(s: Seq<char>, n: int)
    requires
        0 <= n <= s.len(),
        forall|i: int| n <= i < s.len() ==> white(#[trigger] s[i]),
        n > 0 ==> !white(s[n - 1]),
    ensures
        trimmed_end(s) == s.subrange(0, n),
    decreases s.len(),
{
    if n == s.len() {
        assert(s.subrange(0, s.len() as int) =~= s);
    } else {
        let t = s.drop_last();
        lemma_trimmed_end_at(t, n);
        assert(t.subrange(0, n) =~= s.subrange(0, n));
    }
}

/// Trimming leaves nothing exactly where the text is blank.
pub proof fn trimmed_empty_iff_blank(s: Seq<char>)
    ensures
        trimmed(s).len() == 0 <==> blank(s),
{
    lemma_trimmed_start_len(s);
    let t = trimmed_start(s);
    lemma_trimmed_end_len(t);
}

proof fn lemma_trimmed_start_len(s: Seq<char>)
    ensures
        trimmed_start(s).len() <= s.len(),
        trimmed_start(s) == s.subrange(s.len() - trimmed_start(s).len(), s.len() as int),
        blank(s) <==> trimmed_start(s).len() == 0,
        trimmed_start(s).len() > 0 ==> !white(trimmed_start(s)[0]),
    decreases s.len(),
{
    if s.len() > 0 && white(s[0]) {
        let t = s.subrange(1, s.len() as int);
        lemma_trimmed_start_len(t);
        assert(trimmed_start(s) =~= s.subrange(s.len() - trimmed_start(s).len(), s.len() as int));
        if blank(t) {
            assert forall|i: int| 0 <= i < s.len() implies white(#[trigger] s[i]) by {
                if i > 0 {
                    assert(s[i] == t[i - 1]);
                }
            }
        } else {
            let k = choose|k: int| 0 <= k < t.len() && !white(#[trigger] t[k]);
            assert(!white(s[k + 1]));
        }
    } else {
        assert(s.subrange(0, s.len() as int) =~= s);
    }
}

proof fn lemma_trimmed_end_len(s: Seq<char>)
    ensures
        trimmed_end(s).len() <= s.len(),
        s.len() > 0 && !white(s[0]) ==> trimmed_end(s).len() > 0,
    decreases s.len(),
{
    if s.len() > 0 && white(s.last()) {
        lemma_trimmed_end_len(s.drop_last());
        if !white(s[0]) {
            assert(s.len() > 1);
            assert(s.drop_last()[0] == s[0]);
        }
    }
}

/// The text without the white space at either end.
pub fn trim(s: &str) -> (r: String)
    ensures
        r@ == trimmed(s@),
{
    let v: Vec<char> = chars_of(s);
    let mut a: usize = 0;
    while a < v.len() && is_white(v[a])
        invariant
            a <= v@.len(),
            forall|i: int| 0 <= i < a ==> white(#[trigger] v@[i]),
        ensures
            a <= v@.len(),
            forall|i: int| 0 <= i < a ==> white(#[trigger] v@[i]),
            a < v@.len() ==> !white(v@[a as int]),
        decreases v@.len() - a,
    {
        a = a + 1;
    }
    let mut b: usize = v.len();
    while b > a && is_white(v[b - 1])
        invariant
            a <= b <= v@.len(),
            forall|i: int| b <= i < v@.len() ==> white(#[trigger] v@[i]),
        ensures
            a <= b <= v@.len(),
            forall|i: int| b <= i < v@.len() ==> white(#[trigger] v@[i]),
            b > a ==> !white(v@[b - 1]),
        decreases b,
    {
        b = b - 1;
    }
    proof {
        lemma_trimmed_start_at(v@, a as int);
        let t = v@.subrange(a as int, v@.len() as int);
        assert forall|i: int| b - a <= i < t.len() implies white(#[trigger] t[i]) by {
            assert(t[i] == v@[i + a]);
        }
        lemma_trimmed_end_at(t, b - a);
        assert(t.subrange(0, b - a) =~= v@.subrange(a as int, b as int));
    }
    string_of(&v, a, b)
}

/// Whether the text holds nothing but white space.
pub fn is_blank(s: &str) -> (r: bool)
    ensures
        r == blank(s@),
{
    let v: Vec<char> = chars_of(s);
    let mut i: usize = 0;
    while i < v.len()
        invariant
            i <= v@.len(),
            v@ == s@,
            forall|k: int| 0 <= k < i ==> white(#[trigger] v@[k]),
        decreases v@.len() - i,
    {
        if !is_white(v[i]) {
            assert(!white(s@[i as int]));
            return false;
        }
        i = i + 1;
    }
    true
}

// ── Searching and splitting ─────────────────────────────────────────────────

/// Whether `needle` occurs in `hay` at position `at`.
pub open spec fn occurs_at(hay: Seq<char>, needle: Seq<char>, at: int) -> bool {
    &&& 0 <= at
    &&& at + needle.len() <= hay.len()
    &&& hay.subrange(at, at + needle.len()) == needle
}

/// Whether `needle` occurs anywhere in `hay`.
pub open spec fn occurs(hay: Seq<char>, needle: Seq<char>) -> bool {
    exists|at: int| occurs_at(hay, needle, at)
}

/// Whether `needle` stands in `v` at position `at`.
fn matches_at(v: &Vec<char>, needle: &Vec<char>, at: usize) -> (r: bool)
    ensures
        r == occurs_at(v@, needle@, at as int),
{
    if needle.len() > v.len() || at > v.len() - needle.len() {
        return false;
    }
    let mut i: usize = 0;
    while i < needle.len()
        invariant
            i <= needle@.len(),
            at + needle@.len() <= v.len(),
            forall|k: int| 0 <= k < i ==> v@[at + k] == #[trigger] needle@[k],
        decreases needle@.len() - i,
    {
        if v[at + i] != needle[i] {
            assert(v@.subrange(at as int, at + needle@.len())[i as int] != needle@[i as int]);
            return false;
        }
        i = i + 1;
    }
    assert(v@.subrange(at as int, at + needle@.len()) =~= needle@);
    true
}

/// Whether `needle` occurs in `hay`.
pub fn contains_text(hay: &str, needle: &str) -> (r: bool)
    ensures
        r == occurs(hay@, needle@),
{
    let h: Vec<char> = chars_of(hay);
    let n: Vec<char> = chars_of(needle);
    let mut at: usize = 0;
    while at < h.len()
        invariant
            at <= h@.len(),
            h@ == hay@,
            n@ == needle@,
            forall|k: int| 0 <= k < at ==> !occurs_at(hay@, needle@, k),
        decreases h@.len() - at,
    {
        if matches_at(&h, &n, at) {
            assert(occurs_at(hay@, needle@, at as int));
            return true;
        }
        at = at + 1;
    }
    matches_at(&h, &n, at)
}

/// What stands before the first `c`, all of `s` where there is none.
pub open spec fn before_first(s: Seq<char>, c: char) -> Seq<char>
    decreases s.len(),
{
    if s.len() == 0 || s[0] == c {
        Seq::empty()
    } else {
        seq![s[0]] + before_first(s.subrange(1, s.len() as int), c)
    }
}

/// What stands behind the last `c`, all of `s` where there is none.
pub open spec fn after_last(s: Seq<char>, c: char) -> Seq<char>
    decreases s.len(),
{
    if s.len() == 0 || s.last() == c {
        Seq::empty()
    } else {
        after_last(s.drop_last(), c).push(s.last())
    }
}

proof fn lemma_before_first_at(s: Seq<char>, c: char, n: int)
    requires
        0 <= n <= s.len(),
        forall|i: int| 0 <= i < n ==> #[trigger] s[i] != c,
        n < s.len() ==> s[n] == c,
    ensures
        before_first(s, c) == s.subrange(0, n),
    decreases s.len(),
{
    if n == 0 {
        assert(s.subrange(0, 0) =~= Seq::empty());
    } else {
        let t = s.subrange(1, s.len() as int);
        lemma_before_first_at(t, c, n - 1);
        assert(seq![s[0]] + t.subrange(0, n - 1) =~= s.subrange(0, n));
    }
}

proof fn lemma_after_last_at(s: Seq<char>, c: char, n: int)
    requires
        0 <= n <= s.len(),
        forall|i: int| n <= i < s.len() ==> #[trigger] s[i] != c,
        n > 0 ==> s[n - 1] == c,
    ensures
        after_last(s, c) == s.subrange(n, s.len() as int),
    decreases s.len(),
{
    if n == s.len() {
        assert(s.subrange(n, s.len() as int) =~= Seq::empty());
    } else {
        let t = s.drop_last();
        lemma_after_last_at(t, c, n);
        assert(t.subrange(n, t.len() as int).push(s.last()) =~= s.subrange(n, s.len() as int));
    }
}

/// What stands before the first `c`.
pub fn split_before_first(s: &str, c: char) -> (r: String)
    ensures
        r@ == before_first(s@, c),
{
    let v: Vec<char> = chars_of(s);
    let mut n: usize = 0;
    while n < v.len() && v[n] != c
        invariant
            n <= v@.len(),
            forall|i: int| 0 <= i < n ==> #[trigger] v@[i] != c,
        ensures
            n <= v@.len(),
            forall|i: int| 0 <= i < n ==> #[trigger] v@[i] != c,
            n < v@.len() ==> v@[n as int] == c,
        decreases v@.len() - n,
    {
        n = n + 1;
    }
    proof {
        lemma_before_first_at(v@, c, n as int);
    }
    string_of(&v, 0, n)
}

/// What stands behind the last `c`.
pub fn split_after_last(s: &str, c: char) -> (r: String)
    ensures
        r@ == after_last(s@, c),
{
    let v: Vec<char> = chars_of(s);
    let mut n: usize = v.len();
    while n > 0 && v[n - 1] != c
        invariant
            n <= v@.len(),
            forall|i: int| n <= i < v@.len() ==> #[trigger] v@[i] != c,
        ensures
            n <= v@.len(),
            forall|i: int| n <= i < v@.len() ==> #[trigger] v@[i] != c,
            n > 0 ==> v@[n - 1] == c,
        decreases n,
    {
        n = n - 1;
    }
    proof {
        lemma_after_last_at(v@, c, n as int);
    }
    string_of(&v, n, v.len())
}

/// What stands behind the first `c`, nothing where there is none.
pub open spec fn after_first(s: Seq<char>, c: char) -> Seq<char>
    decreases s.len(),
{
    if s.len() == 0 {
        Seq::empty()
    } else if s[0] == c {
        s.subrange(1, s.len() as int)
    } else {
        after_first(s.subrange(1, s.len() as int), c)
    }
}

proof fn lemma_after_first_at(s: Seq<char>, c: char, n: int)
    requires
        0 <= n < s.len(),
        forall|i: int| 0 <= i < n ==> #[trigger] s[i] != c,
        s[n] == c,
    ensures
        after_first(s, c) == s.subrange(n + 1, s.len() as int),
    decreases s.len(),
{
    if n > 0 {
        let t = s.subrange(1, s.len() as int);
        lemma_after_first_at(t, c, n - 1);
        assert(t.subrange(n, t.len() as int) =~= s.subrange(n + 1, s.len() as int));
    }
}

/// What stands before and behind the first `c`, `None` where there is none.
pub fn split_once(s: &str, c: char) -> (r: Option<(String, String)>)
    ensures
        match r {
            Some((before, behind)) => s@.contains(c) && before@ == before_first(s@, c) && behind@
                == after_first(s@, c),
            None => !s@.contains(c),
        },
{
    let v: Vec<char> = chars_of(s);
    let mut n: usize = 0;
    while n < v.len() && v[n] != c
        invariant
            n <= v@.len(),
            forall|i: int| 0 <= i < n ==> #[trigger] v@[i] != c,
        ensures
            n <= v@.len(),
            forall|i: int| 0 <= i < n ==> #[trigger] v@[i] != c,
            n < v@.len() ==> v@[n as int] == c,
        decreases v@.len() - n,
    {
        n = n + 1;
    }
    if n == v.len() {
        return None;
    }
    proof {
        assert(s@.contains(c)) by {
            assert(s@[n as int] == c);
        }
        lemma_before_first_at(v@, c, n as int);
        lemma_after_first_at(v@, c, n as int);
    }
    Some((string_of(&v, 0, n), string_of(&v, n + 1, v.len())))
}

/// What stands before the first white space.
pub open spec fn before_white(s: Seq<char>) -> Seq<char>
    decreases s.len(),
{
    if s.len() == 0 || white(s[0]) {
        Seq::empty()
    } else {
        seq![s[0]] + before_white(s.subrange(1, s.len() as int))
    }
}

/// The first run of characters that are not white space.
pub open spec fn first_word(s: Seq<char>) -> Seq<char> {
    before_white(trimmed_start(s))
}

proof fn lemma_before_white_at(s: Seq<char>, n: int)
    requires
        0 <= n <= s.len(),
        forall|i: int| 0 <= i < n ==> !white(#[trigger] s[i]),
        n < s.len() ==> white(s[n]),
    ensures
        before_white(s) == s.subrange(0, n),
    decreases s.len(),
{
    if n == 0 {
        assert(s.subrange(0, 0) =~= Seq::empty());
    } else {
        let t = s.subrange(1, s.len() as int);
        lemma_before_white_at(t, n - 1);
        assert(seq![s[0]] + t.subrange(0, n - 1) =~= s.subrange(0, n));
    }
}

/// The first word of `s`, empty where the text is blank.
pub fn take_first_word(s: &str) -> (r: String)
    ensures
        r@ == first_word(s@),
{
    let v: Vec<char> = chars_of(s);
    let mut a: usize = 0;
    while a < v.len() && is_white(v[a])
        invariant
            a <= v@.len(),
            forall|i: int| 0 <= i < a ==> white(#[trigger] v@[i]),
        ensures
            a <= v@.len(),
            forall|i: int| 0 <= i < a ==> white(#[trigger] v@[i]),
            a < v@.len() ==> !white(v@[a as int]),
        decreases v@.len() - a,
    {
        a = a + 1;
    }
    let mut b: usize = a;
    while b < v.len() && !is_white(v[b])
        invariant
            a <= b <= v@.len(),
            forall|i: int| a <= i < b ==> !white(#[trigger] v@[i]),
        ensures
            a <= b <= v@.len(),
            forall|i: int| a <= i < b ==> !white(#[trigger] v@[i]),
            b < v@.len() ==> white(v@[b as int]),
        decreases v@.len() - b,
    {
        b = b + 1;
    }
    proof {
        lemma_trimmed_start_at(v@, a as int);
        let t = v@.subrange(a as int, v@.len() as int);
        assert forall|i: int| 0 <= i < b - a implies !white(#[trigger] t[i]) by {
            assert(t[i] == v@[i + a]);
        }
        lemma_before_white_at(t, b - a);
        assert(t.subrange(0, b - a) =~= v@.subrange(a as int, b as int));
    }
    string_of(&v, a, b)
}

/// The first `n` characters of `s`, all of it where it is shorter.
pub open spec fn first_chars(s: Seq<char>, n: nat) -> Seq<char> {
    if s.len() <= n {
        s
    } else {
        s.subrange(0, n as int)
    }
}

/// The first `n` characters of `s`.
pub fn take_chars(s: &str, n: usize) -> (r: String)
    ensures
        r@ == first_chars(s@, n as nat),
{
    let v: Vec<char> = chars_of(s);
    if v.len() <= n {
        return s.to_owned();
    }
    string_of(&v, 0, n)
}

// ── Lists of texts ──────────────────────────────────────────────────────────

/// The texts of a list.
pub open spec fn texts(v: Seq<String>) -> Seq<Seq<char>> {
    Seq::new(v.len(), |i: int| v[i]@)
}

/// Copies a list of texts.
pub fn clone_texts(v: &Vec<String>) -> (r: Vec<String>)
    ensures
        texts(r@) == texts(v@),
{
    let mut out: Vec<String> = Vec::new();
    let mut i: usize = 0;
    while i < v.len()
        invariant
            i <= v@.len(),
            out@.len() == i,
            forall|k: int| 0 <= k < i ==> (#[trigger] out@[k])@ == v@[k]@,
        decreases v@.len() - i,
    {
        out.push(v[i].clone());
        i = i + 1;
    }
    assert(texts(out@) =~= texts(v@));
    out
}

/// Whether `s` is one of the texts of the list.
pub fn list_contains(list: &Vec<String>, s: &str) -> (r: bool)
    ensures
        r == texts(list@).contains(s@),
{
    let mut i: usize = 0;
    while i < list.len()
        invariant
            i <= list@.len(),
            forall|k: int| 0 <= k < i ==> #[trigger] list@[k]@ != s@,
        decreases list@.len() - i,
    {
        if str_eq(list[i].as_str(), s) {
            assert(texts(list@)[i as int] == s@);
            return true;
        }
        i = i + 1;
    }
    assert forall|k: int| 0 <= k < texts(list@).len() implies #[trigger] texts(list@)[k] != s@ by {
        assert(list@[k]@ != s@);
    }
    false
}

// ── Letter case ─────────────────────────────────────────────────────────────

/// The lower-case form of a text.
pub uninterp spec fn lowered(s: Seq<char>) -> Seq<char>;

/// `str::to_lowercase`: the lower-case form of the text, by Unicode's tables.
#[verifier::external_body]
pub(crate) fn lowercase(s: &str) -> (r: String)
    ensures
        r@ == lowered(s@),
{
    s.to_lowercase()
}

// ── Laws ────────────────────────────────────────────────────────────────────

proof fn lemma_first_ink(s: Seq<char>) -> (n: int)
    ensures
        0 <= n <= s.len(),
        forall|i: int| 0 <= i < n ==> white(#[trigger] s[i]),
        n < s.len() ==> !white(s[n]),
    decreases s.len(),
{
    if s.len() == 0 || !white(s[0]) {
        0
    } else {
        let t = s.subrange(1, s.len() as int);
        let n = lemma_first_ink(t);
        assert forall|i: int| 0 <= i < n + 1 implies white(#[trigger] s[i]) by {
            if i > 0 {
                assert(t[i - 1] == s[i]);
            }
        }
        n + 1
    }
}

proof fn lemma_last_ink(s: Seq<char>) -> (n: int)
    ensures
        0 <= n <= s.len(),
        forall|i: int| n <= i < s.len() ==> white(#[trigger] s[i]),
        n > 0 ==> !white(s[n - 1]),
    decreases s.len(),
{
    if s.len() == 0 || !white(s.last()) {
        s.len() as int
    } else {
        let n = lemma_last_ink(s.drop_last());
        assert forall|i: int| n <= i < s.len() implies white(#[trigger] s[i]) by {
            if i < s.len() - 1 {
                assert(s.drop_last()[i] == s[i]);
            }
        }
        n
    }
}

proof fn lemma_first_place(s: Seq<char>, c: char) -> (n: int)
    ensures
        0 <= n <= s.len(),
        forall|i: int| 0 <= i < n ==> #[trigger] s[i] != c,
        n < s.len() ==> s[n] == c,
    decreases s.len(),
{
    if s.len() == 0 || s[0] == c {
        0
    } else {
        let t = s.subrange(1, s.len() as int);
        let n = lemma_first_place(t, c);
        assert forall|i: int| 0 <= i < n + 1 implies #[trigger] s[i] != c by {
            if i > 0 {
                assert(t[i - 1] == s[i]);
            }
        }
        n + 1
    }
}

/// Trimming cuts off exactly the white space at either end: `r` is where what is left begins and
/// ends, and it begins and ends with a character that is none.
pub proof fn trimming_cuts_off_white_ends(s: Seq<char>) -> (r: (int, int))
    ensures
        0 <= r.0 <= r.1 <= s.len(),
        trimmed(s) == s.subrange(r.0, r.1),
        forall|i: int| 0 <= i < r.0 ==> white(#[trigger] s[i]),
        forall|i: int| r.1 <= i < s.len() ==> white(#[trigger] s[i]),
        r.0 < r.1 ==> !white(s[r.0]) && !white(s[r.1 - 1]),
{
    let a = lemma_first_ink(s);
    lemma_trimmed_start_at(s, a);
    let t = s.subrange(a, s.len() as int);
    let n = lemma_last_ink(t);
    lemma_trimmed_end_at(t, n);
    assert(t.subrange(0, n) =~= s.subrange(a, a + n));
    assert forall|i: int| a + n <= i < s.len() implies white(#[trigger] s[i]) by {
        assert(t[i - a] == s[i]);
    }
    if n > 0 {
        assert(t[n - 1] == s[a + n - 1]);
        assert(a < s.len());
    }
    (a, a + n)
}

/// A text that begins and ends with characters that are no white space is left as it is by
/// trimming, and so is the empty text.
pub proof fn trimming_twice_is_trimming_once(s: Seq<char>)
    ensures
        s.len() == 0 || (!white(s[0]) && !white(s.last())) ==> trimmed(s) == s,
        trimmed(trimmed(s)) == trimmed(s),
{
    let r = trimming_cuts_off_white_ends(s);
    let t = trimmed(s);
    let q = trimming_cuts_off_white_ends(t);
    if t.len() > 0 {
        assert(t[0] == s[r.0]);
        assert(t[t.len() - 1] == s[r.1 - 1]);
        if q.0 > 0 {
            assert(white(t[0]));
        }
        if q.1 < t.len() {
            assert(white(t[t.len() - 1]));
        }
    }
    assert(t.subrange(q.0, q.1) =~= t);
    if s.len() > 0 && !white(s[0]) && !white(s.last()) {
        if r.0 > 0 {
            assert(white(s[0]));
        }
        if r.1 < s.len() {
            assert(white(s[s.len() - 1]));
        }
        assert(s.subrange(r.0, r.1) =~= s);
    }
    if s.len() == 0 {
        assert(t =~= s);
    }
}

/// What stands before the first `c` is the text up to a place `n` before which there is no `c`,
/// and which is that of a `c` or the end.
pub proof fn before_first_ends_at_the_first(s: Seq<char>, c: char) -> (n: int)
    ensures
        0 <= n <= s.len(),
        before_first(s, c) == s.subrange(0, n),
        forall|i: int| 0 <= i < n ==> #[trigger] s[i] != c,
        n < s.len() ==> s[n] == c,
{
    let n = lemma_first_place(s, c);
    lemma_before_first_at(s, c, n);
    n
}

/// What stands behind the first `c` is the text after a place `n` that is that of a `c` and
/// before which there is none; where there is none at all, nothing stands there.
pub proof fn after_first_begins_at_the_first(s: Seq<char>, c: char) -> (n: int)
    ensures
        0 <= n <= s.len(),
        forall|i: int| 0 <= i < n ==> #[trigger] s[i] != c,
        n < s.len() ==> s[n] == c && after_first(s, c) == s.subrange(n + 1, s.len() as int),
        n == s.len() ==> after_first(s, c).len() == 0,
{
    let n = lemma_first_place(s, c);
    if n < s.len() {
        lemma_after_first_at(s, c, n);
    } else {
        lemma_after_none(s, c);
    }
    n
}

proof fn lemma_after_none(s: Seq<char>, c: char)
    requires
        forall|i: int| 0 <= i < s.len() ==> #[trigger] s[i] != c,
    ensures
        after_first(s, c).len() == 0,
    decreases s.len(),
{
    if s.len() > 0 {
        let t = s.subrange(1, s.len() as int);
        assert forall|i: int| 0 <= i < t.len() implies #[trigger] t[i] != c by {
            assert(t[i] == s[i + 1]);
        }
        lemma_after_none(t, c);
        assert(s[0] != c);
    }
}

/// What stands behind the last `c` is the text from a place `n` on, from which on there is no
/// `c`, and which stands behind a `c` or is the start.
pub proof fn after_last_begins_at_the_last(s: Seq<char>, c: char) -> (n: int)
    ensures
        0 <= n <= s.len(),
        after_last(s, c) == s.subrange(n, s.len() as int),
        forall|i: int| n <= i < s.len() ==> #[trigger] s[i] != c,
        n > 0 ==> s[n - 1] == c,
    decreases s.len(),
{
    if s.len() == 0 {
        assert(after_last(s, c) =~= s.subrange(0, 0));
        0
    } else if s.last() == c {
        assert(after_last(s, c) =~= s.subrange(s.len() as int, s.len() as int));
        s.len() as int
    } else {
        let n = after_last_begins_at_the_last(s.drop_last(), c);
        assert(after_last(s, c) =~= s.subrange(n, s.len() as int));
        assert forall|i: int| n <= i < s.len() implies #[trigger] s[i] != c by {
            if i < s.len() - 1 {
                assert(s.drop_last()[i] == s[i]);
            }
        }
        n
    }
}

/// The first word is the text between two places: only white space stands before the first, none
/// between them, and the second is the end or has white space.
pub proof fn first_word_is_the_first_ink(s: Seq<char>) -> (r: (int, int))
    ensures
        0 <= r.0 <= r.1 <= s.len(),
        first_word(s) == s.subrange(r.0, r.1),
        forall|i: int| 0 <= i < r.0 ==> white(#[trigger] s[i]),
        forall|i: int| r.0 <= i < r.1 ==> !white(#[trigger] s[i]),
        r.1 < s.len() ==> white(s[r.1]),
        r.0 == r.1 ==> r.0 == s.len(),
{
    let a = lemma_first_ink(s);
    lemma_trimmed_start_at(s, a);
    let t = s.subrange(a, s.len() as int);
    let n = lemma_first_white(t);
    lemma_before_white_at(t, n);
    assert(t.subrange(0, n) =~= s.subrange(a, a + n));
    assert forall|i: int| a <= i < a + n implies !white(#[trigger] s[i]) by {
        assert(t[i - a] == s[i]);
    }
    if n == 0 && a < s.len() {
        assert(t[0] == s[a]);
    }
    (a, a + n)
}

proof fn lemma_first_white(s: Seq<char>) -> (n: int)
    ensures
        0 <= n <= s.len(),
        forall|i: int| 0 <= i < n ==> !white(#[trigger] s[i]),
        n < s.len() ==> white(s[n]),
    decreases s.len(),
{
    if s.len() == 0 || white(s[0]) {
        0
    } else {
        let t = s.subrange(1, s.len() as int);
        let n = lemma_first_white(t);
        assert forall|i: int| 0 <= i < n + 1 implies !white(#[trigger] s[i]) by {
            if i > 0 {
                assert(t[i - 1] == s[i]);
            }
        }
        n + 1
    }
}

/// The first characters of a text are a prefix of it, as long as asked for where the text is that
/// long, and otherwise the text.
pub proof fn first_chars_are_a_prefix(s: Seq<char>, n: nat)
    ensures
        first_chars(s, n).is_prefix_of(s),
        first_chars(s, n).len() == if n < s.len() {
            n
        } else {
            s.len()
        },
{
    assert(s.is_prefix_of(s));
    if n < s.len() {
        assert(s.subrange(0, n as int).is_prefix_of(s));
    }
}

/// White space is what Unicode calls so: the tab, the line feeds and returns, the space, the
/// no-break space and the other spaces and separators.
pub proof fn white_space_is_that_of_unicode(c: char)
    ensures
        white(c) <==> {
            let n = c as u32;
            ||| 0x9 <= n <= 0xD
            ||| n == 0x20
            ||| n == 0x85
            ||| n == 0xA0
            ||| n == 0x1680
            ||| 0x2000 <= n <= 0x200A
            ||| n == 0x2028
            ||| n == 0x2029
            ||| n == 0x202F
            ||| n == 0x205F
            ||| n == 0x3000
        },
{
}

/// A text occurs in another exactly where all its characters stand there, one after the other.
pub proof fn occurring_is_standing_in_a_row(hay: Seq<char>, needle: Seq<char>)
    ensures
        occurs(hay, needle) <==> exists|at: int| #[trigger] stands_at(hay, needle, at),
{
    if occurs(hay, needle) {
        let at = choose|at: int| occurs_at(hay, needle, at);
        assert forall|i: int| 0 <= i < needle.len() implies #[trigger] needle[i] == hay[at + i] by {
            assert(hay.subrange(at, at + needle.len())[i] == hay[at + i]);
        }
        assert(stands_at(hay, needle, at));
    }
    if exists|at: int| #[trigger] stands_at(hay, needle, at) {
        let at = choose|at: int| #[trigger] stands_at(hay, needle, at);
        assert(hay.subrange(at, at + needle.len()) =~= needle);
        assert(occurs_at(hay, needle, at));
    }
}

/// Whether every character of a text stands in another from a place on.
pub open spec fn stands_at(hay: Seq<char>, needle: Seq<char>, at: int) -> bool {
    &&& 0 <= at
    &&& at + needle.len() <= hay.len()
    &&& forall|i: int| 0 <= i < needle.len() ==> #[trigger] needle[i] == hay[at + i]
}

} // verus!

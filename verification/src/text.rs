//! Text helpers over `Seq<char>` models: whitespace trimming, line splitting,
//! prefix stripping and path joining.

use vstd::prelude::*;

verus! {

/// `String::push` appends one character to the end of the string.
pub assume_specification[ String::push ](s: &mut String, c: char)
    ensures
        final(s)@ == old(s)@.push(c),
;

/// The characters with the Unicode property `White_Space`.
pub open spec fn is_whitespace(c: char) -> bool {
    ||| '\u{9}' <= c <= '\u{D}'
    ||| c == ' '
    ||| c == '\u{85}'
    ||| c == '\u{A0}'
    ||| c == '\u{1680}'
    ||| '\u{2000}' <= c <= '\u{200A}'
    ||| c == '\u{2028}'
    ||| c == '\u{2029}'
    ||| c == '\u{202F}'
    ||| c == '\u{205F}'
    ||| c == '\u{3000}'
}

/// `s` without its leading whitespace.
pub open spec fn trim_start(s: Seq<char>) -> Seq<char>
    decreases s.len(),
{
    if s.len() > 0 && is_whitespace(s[0]) {
        trim_start(s.drop_first())
    } else {
        s
    }
}

/// `s` without its trailing whitespace.
pub open spec fn trim_end(s: Seq<char>) -> Seq<char>
    decreases s.len(),
{
    if s.len() > 0 && is_whitespace(s.last()) {
        trim_end(s.drop_last())
    } else {
        s
    }
}

/// `s` without leading and trailing whitespace.
pub open spec fn trimmed(s: Seq<char>) -> Seq<char> {
    trim_end(trim_start(s))
}

/// Whether `s` neither starts nor ends with whitespace.
pub open spec fn is_trimmed(s: Seq<char>) -> bool {
    s.len() > 0 ==> !is_whitespace(s[0]) && !is_whitespace(s.last())
}

/// Whether every character of `s` is whitespace.
pub open spec fn all_whitespace(s: Seq<char>) -> bool {
    forall|i: int| 0 <= i < s.len() ==> is_whitespace(#[trigger] s[i])
}

/// Whether `s` begins with `prefix`.
pub open spec fn has_prefix(s: Seq<char>, prefix: Seq<char>) -> bool {
    prefix.len() <= s.len() && s.take(prefix.len() as int) == prefix
}

/// Number of characters of `s` before its first line feed, or its length if it has none.
pub open spec fn line_len(s: Seq<char>) -> nat
    decreases s.len(),
{
    if s.len() == 0 || s[0] == '\n' {
        0
    } else {
        1 + line_len(s.drop_first())
    }
}

/// A line without the carriage return that preceded its line feed.
pub open spec fn strip_cr(line: Seq<char>) -> Seq<char> {
    if line.len() > 0 && line.last() == '\r' {
        line.drop_last()
    } else {
        line
    }
}

/// The first line of a non-empty text, without its terminator.
pub open spec fn first_line(s: Seq<char>) -> Seq<char> {
    let n = line_len(s) as int;
    if n < s.len() {
        strip_cr(s.take(n))
    } else {
        s
    }
}

/// What follows the first line and its line feed.
pub open spec fn after_first_line(s: Seq<char>) -> Seq<char> {
    let n = line_len(s) as int;
    if n < s.len() {
        s.skip(n + 1)
    } else {
        Seq::empty()
    }
}

/// The lines of `s`. A line ends at a line feed, or at a carriage return
/// directly followed by one; the terminator is not part of the line, and a
/// final terminator opens no further line.
pub open spec fn lines(s: Seq<char>) -> Seq<Seq<char>>
    decreases s.len(),
{
    if s.len() == 0 {
        Seq::empty()
    } else {
        seq![first_line(s)] + lines(after_first_line(s))
    }
}

/// The path of `name` below `base`: `name` itself if it is absolute, otherwise
/// `base` and `name` with exactly one `/` supplied between them when `base` is
/// non-empty and does not already end in one.
pub open spec fn joined(base: Seq<char>, name: Seq<char>) -> Seq<char> {
    if name.len() > 0 && name[0] == '/' {
        name
    } else if base.len() == 0 || base.last() == '/' {
        base + name
    } else {
        base + seq!['/'] + name
    }
}

/// The texts that a vector of strings holds.
pub open spec fn texts(v: Seq<String>) -> Seq<Seq<char>> {
    Seq::new(v.len(), |i: int| v[i]@)
}

/// `line_len` stays within the text, passes no line feed, and stops at one
/// unless it reaches the end.
pub proof fn lemma_line_len_bound(s: Seq<char>)
    ensures
        line_len(s) <= s.len(),
        forall|i: int| 0 <= i < line_len(s) ==> s[i] != '\n',
        line_len(s) < s.len() ==> s[line_len(s) as int] == '\n',
    decreases s.len(),
{
    if s.len() == 0 || s[0] == '\n' {
    } else {
        let t = s.drop_first();
        lemma_line_len_bound(t);
        assert forall|i: int| 0 <= i < line_len(s) implies s[i] != '\n' by {
            if i > 0 {
                assert(s[i] == t[i - 1]);
            }
        }
        if line_len(s) < s.len() {
            assert(s[line_len(s) as int] == t[line_len(t) as int]);
        }
    }
}

/// `line_len` is the only position that holds a line feed after none.
pub proof fn lemma_line_len_unique(s: Seq<char>, n: int)
    requires
        0 <= n <= s.len(),
        forall|i: int| 0 <= i < n ==> s[i] != '\n',
        n < s.len() ==> s[n] == '\n',
    ensures
        line_len(s) == n,
{
    lemma_line_len_bound(s);
    let m = line_len(s) as int;
    if m < n {
        assert(s[m] == '\n');
    } else if n < m {
        assert(s[n] != '\n');
    }
}

/// Whether `c` is whitespace.
pub fn is_whitespace_char(c: char) -> (b: bool)
    ensures
        b == is_whitespace(c),
{
    ('\u{9}' <= c && c <= '\u{D}') || c == ' ' || c == '\u{85}' || c == '\u{A0}' || c
        == '\u{1680}' || ('\u{2000}' <= c && c <= '\u{200A}') || c == '\u{2028}' || c
        == '\u{2029}' || c == '\u{202F}' || c == '\u{205F}' || c == '\u{3000}'
}

/// The characters of `s`, in order.
pub fn chars_of(s: &str) -> (v: Vec<char>)
    ensures
        v@ == s@,
{
    let mut v: Vec<char> = Vec::new();
    for c in it: s.chars()
        invariant
            v@ == it.seq().take(it.index() as int),
    {
        v.push(c);
    }
    v
}

/// The string made of `v[from..to]`.
pub fn string_of(v: &Vec<char>, from: usize, to: usize) -> (s: String)
    requires
        from <= to <= v.len(),
    ensures
        s@ == v@.subrange(from as int, to as int),
{
    let mut s = String::new();
    let mut i: usize = from;
    while i < to
        invariant
            from <= i <= to <= v.len(),
            s@ == v@.subrange(from as int, i as int),
        decreases to - i,
    {
        s.push(v[i]);
        i += 1;
        assert(v@.subrange(from as int, i as int) == v@.subrange(from as int, i - 1).push(
            v@[i - 1],
        ));
    }
    s
}

proof fn lemma_trim_start_skip(s: Seq<char>, a: int)
    requires
        0 <= a <= s.len(),
        forall|i: int| 0 <= i < a ==> is_whitespace(#[trigger] s[i]),
    ensures
        trim_start(s) == trim_start(s.skip(a)),
    decreases a,
{
    if a == 0 {
        assert(s.skip(0) == s);
    } else {
        lemma_trim_start_skip(s, a - 1);
        let t = s.skip(a - 1);
        assert(t[0] == s[a - 1]);
        assert(t.drop_first() == s.skip(a));
    }
}

proof fn lemma_trim_end_take(s: Seq<char>, b: int)
    requires
        0 <= b <= s.len(),
        forall|i: int| b <= i < s.len() ==> is_whitespace(#[trigger] s[i]),
    ensures
        trim_end(s) == trim_end(s.take(b)),
    decreases s.len() - b,
{
    if b == s.len() {
        assert(s.take(b) == s);
    } else {
        lemma_trim_end_take(s, b + 1);
        let t = s.take(b + 1);
        assert(t.last() == s[b]);
        assert(t.drop_last() == s.take(b));
    }
}

/// `s` without leading and trailing whitespace, as a new string.
pub fn trim(s: &str) -> (t: String)
    ensures
        t@ == trimmed(s@),
{
    let v = chars_of(s);
    let mut a: usize = 0;
    while a < v.len() && is_whitespace_char(v[a])
        invariant
            a <= v.len(),
            forall|i: int| 0 <= i < a ==> is_whitespace(#[trigger] v@[i]),
        decreases v.len() - a,
    {
        a += 1;
    }
    let mut b: usize = v.len();
    while b > a && is_whitespace_char(v[b - 1])
        invariant
            a <= b <= v.len(),
            forall|i: int| b <= i < v.len() ==> is_whitespace(#[trigger] v@[i]),
        decreases b,
    {
        b -= 1;
    }
    proof {
        let rest = v@.skip(a as int);
        lemma_trim_start_skip(v@, a as int);
        assert(trim_start(v@) == rest) by {
            if a < v.len() {
                assert(rest[0] == v@[a as int]);
            }
        }
        assert forall|i: int| b - a <= i < rest.len() implies is_whitespace(
            #[trigger] rest[i],
        ) by {
            assert(rest[i] == v@[i + a]);
        }
        lemma_trim_end_take(rest, b - a);
        let core = rest.take(b - a);
        assert(core == v@.subrange(a as int, b as int));
        assert(trim_end(core) == core) by {
            if b > a {
                assert(core.last() == v@[b - 1]);
            }
        }
    }
    string_of(&v, a, b)
}

/// `s` without `prefix` in front, if it begins with `prefix`.
pub fn strip_prefix(s: &str, prefix: &str) -> (rest: Option<String>)
    ensures
        rest is Some <==> has_prefix(s@, prefix@),
        rest matches Some(r) ==> r@ == s@.skip(prefix@.len() as int),
{
    let v = chars_of(s);
    let p = chars_of(prefix);
    if p.len() > v.len() {
        return None;
    }
    let mut i: usize = 0;
    while i < p.len()
        invariant
            i <= p.len() <= v.len(),
            v@ == s@,
            p@ == prefix@,
            v@.take(i as int) == p@.take(i as int),
        decreases p.len() - i,
    {
        if v[i] != p[i] {
            proof {
                if has_prefix(s@, prefix@) {
                    let head = s@.take(prefix@.len() as int);
                    assert(head[i as int] == s@[i as int]);
                    assert(head[i as int] == prefix@[i as int]);
                }
            }
            return None;
        }
        i += 1;
        assert(v@.take(i as int) == v@.take(i - 1).push(v@[i - 1]));
        assert(p@.take(i as int) == p@.take(i - 1).push(p@[i - 1]));
    }
    assert(p@.take(p.len() as int) == p@);
    assert(v@.skip(p.len() as int) == v@.subrange(p.len() as int, v.len() as int));
    Some(string_of(&v, p.len(), v.len()))
}

/// The path of `name` below `base`.
pub fn join_path(base: &str, name: &str) -> (path: String)
    ensures
        path@ == joined(base@, name@),
{
    let n = chars_of(name);
    if n.len() > 0 && n[0] == '/' {
        return name.to_owned();
    }
    let b = chars_of(base);
    let mut path = base.to_owned();
    if b.len() > 0 && b[b.len() - 1] != '/' {
        path.push('/');
    }
    path.append(name);
    path
}

/// The lines of `s`, each as a string of its own.
pub fn split_lines(s: &str) -> (out: Vec<String>)
    ensures
        texts(out@) == lines(s@),
{
    let v = chars_of(s);
    let mut out: Vec<String> = Vec::new();
    let mut pos: usize = 0;
    assert(v@.skip(0) == v@);
    assert(texts(out@) == Seq::<Seq<char>>::empty());
    while pos < v.len()
        invariant
            pos <= v.len(),
            texts(out@) + lines(v@.skip(pos as int)) == lines(v@),
        decreases v.len() - pos,
    {
        let ghost rest = v@.skip(pos as int);
        let mut end: usize = pos;
        while end < v.len() && v[end] != '\n'
            invariant
                pos <= end <= v.len(),
                forall|i: int| pos <= i < end ==> v@[i] != '\n',
            decreases v.len() - end,
        {
            end += 1;
        }
        proof {
            assert forall|i: int| 0 <= i < end - pos implies rest[i] != '\n' by {
                assert(rest[i] == v@[pos + i]);
            }
            if end < v.len() {
                assert(rest[end - pos] == v@[end as int]);
            }
            lemma_line_len_unique(rest, end - pos);
        }
        let ghost before = texts(out@);
        let line: String;
        let next: usize;
        if end < v.len() {
            let stop = if end > pos && v[end - 1] == '\r' {
                end - 1
            } else {
                end
            };
            line = string_of(&v, pos, stop);
            next = end + 1;
            proof {
                let raw = rest.take(end - pos);
                assert(raw == v@.subrange(pos as int, end as int));
                if end > pos {
                    assert(raw.last() == v@[end - 1]);
                }
                assert(strip_cr(raw) == v@.subrange(pos as int, stop as int));
                assert(rest.skip(end - pos + 1) == v@.skip(next as int));
            }
        } else {
            line = string_of(&v, pos, end);
            next = end;
            proof {
                assert(v@.subrange(pos as int, end as int) == rest);
                assert(v@.skip(next as int) == Seq::<char>::empty());
            }
        }
        assert(line@ == first_line(rest));
        assert(v@.skip(next as int) == after_first_line(rest));
        out.push(line);
        proof {
            assert(texts(out@) == before + seq![first_line(rest)]);
            assert(lines(rest) == seq![first_line(rest)] + lines(after_first_line(rest)));
            assert(texts(out@) + lines(v@.skip(next as int)) == before + lines(rest));
        }
        pos = next;
    }
    assert(lines(v@.skip(pos as int)) == Seq::<Seq<char>>::empty());
    out
}

/// Text that neither starts nor ends with whitespace is its own trimmed form.
pub proof fn lemma_trimmed_of_trimmed(s: Seq<char>)
    requires
        is_trimmed(s),
    ensures
        trimmed(s) == s,
{
}

/// A line feed at the end does not change the trimmed form.
pub proof fn lemma_trimmed_ignores_trailing_newline(s: Seq<char>)
    ensures
        trimmed(s + seq!['\n']) == trimmed(s),
    decreases s.len(),
{
    let t = s + seq!['\n'];
    if s.len() == 0 {
        assert(t[0] == '\n');
        assert(is_whitespace('\n'));
        assert(t.drop_first() == Seq::<char>::empty());
        assert(trim_start(Seq::<char>::empty()) == Seq::<char>::empty());
        assert(trim_start(t) == Seq::<char>::empty());
        assert(trim_start(s) == s);
    } else if is_whitespace(s[0]) {
        assert(t[0] == s[0]);
        assert(t.drop_first() == s.drop_first() + seq!['\n']);
        lemma_trimmed_ignores_trailing_newline(s.drop_first());
    } else {
        assert(t[0] == s[0]);
        assert(trim_start(t) == t);
        assert(t.last() == '\n');
        assert(t.drop_last() == s);
    }
}

} // verus!

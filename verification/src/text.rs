//! Character-level string handling with contracts over `Seq<char>`:
//! substring search, trimming, line splitting and concatenation.

use vstd::prelude::*;

verus! {

/// `String::push` appends one character at the end of the string.
pub assume_specification[ String::push ](s: &mut String, ch: char)
    ensures
        final(s)@ == old(s)@.push(ch),
;

/// `String::push_str` appends the characters of `string` at the end.
pub assume_specification[ String::push_str ](s: &mut String, string: &str)
    ensures
        final(s)@ == old(s)@ + string@,
;

/// Whether a character has the Unicode `White_Space` property, as
/// `char::is_whitespace` decides it.
pub uninterp spec fn is_white_space(c: char) -> bool;

/// `char::is_whitespace` reports the Unicode `White_Space` property; its
/// result is given the name `is_white_space` and nothing more is claimed.
pub assume_specification[ char::is_whitespace ](c: char) -> (b: bool)
    ensures
        b == is_white_space(c),
;

// ---------------------------------------------------------------------
// Specifications
// ---------------------------------------------------------------------

/// `pat` occurs in `s` starting at index `i`.
pub open spec fn matches_at(s: Seq<char>, pat: Seq<char>, i: int) -> bool {
    0 <= i && i + pat.len() <= s.len() && s.subrange(i, i + pat.len()) == pat
}

/// Index of the first occurrence of `pat` in `s` at or after `from`.
pub open spec fn find_from(s: Seq<char>, pat: Seq<char>, from: nat) -> Option<int>
    decreases s.len() + 1 - from,
{
    if from + pat.len() > s.len() {
        None
    } else if s.subrange(from as int, (from + pat.len()) as int) == pat {
        Some(from as int)
    } else {
        find_from(s, pat, from + 1)
    }
}

/// Index of the first occurrence of `pat` in `s` (what `str::find` gives,
/// counted in characters).
pub open spec fn find_first(s: Seq<char>, pat: Seq<char>) -> Option<int> {
    find_from(s, pat, 0)
}

/// `s` contains `pat` (what `str::contains` decides).
pub open spec fn contains(s: Seq<char>, pat: Seq<char>) -> bool {
    find_first(s, pat) is Some
}

/// `s` starts with `pat` (what `str::starts_with` decides).
pub open spec fn starts_with(s: Seq<char>, pat: Seq<char>) -> bool {
    pat.len() <= s.len() && s.take(pat.len() as int) == pat
}

/// Index of the first `c` in `s` at or after `from`.
pub open spec fn char_index_from(s: Seq<char>, c: char, from: nat) -> Option<int>
    decreases s.len() - from,
{
    if from >= s.len() {
        None
    } else if s[from as int] == c {
        Some(from as int)
    } else {
        char_index_from(s, c, from + 1)
    }
}

/// `s` without its leading white space.
pub open spec fn trim_start(s: Seq<char>) -> Seq<char>
    decreases s.len(),
{
    if s.len() > 0 && is_white_space(s[0]) {
        trim_start(s.drop_first())
    } else {
        s
    }
}

/// `s` without its trailing white space.
pub open spec fn trim_end(s: Seq<char>) -> Seq<char>
    decreases s.len(),
{
    if s.len() > 0 && is_white_space(s.last()) {
        trim_end(s.drop_last())
    } else {
        s
    }
}

/// `s` without leading and trailing white space (what `str::trim` gives).
pub open spec fn trim(s: Seq<char>) -> Seq<char> {
    trim_end(trim_start(s))
}

/// A line's text without the carriage return of a `\r\n` ending.
pub open spec fn strip_cr(line: Seq<char>) -> Seq<char> {
    if line.len() > 0 && line.last() == '\r' {
        line.drop_last()
    } else {
        line
    }
}

/// The lines of `s` as `str::lines` yields them: split at `\n` or
/// `\r\n`, terminators removed, the final line ending optional, and a
/// `\r` that ends the last, unterminated line kept.
pub open spec fn lines(s: Seq<char>) -> Seq<Seq<char>>
    decreases s.len(),
{
    if s.len() == 0 {
        Seq::empty()
    } else {
        match char_index_from(s, '\n', 0) {
            Some(i) => if 0 <= i < s.len() {
                seq![strip_cr(s.take(i))] + lines(s.skip(i + 1))
            } else {
                seq![s]
            },
            None => seq![s],
        }
    }
}

/// The views of a sequence of strings.
pub open spec fn views(v: Seq<String>) -> Seq<Seq<char>> {
    v.map_values(|x: String| x@)
}

// ---------------------------------------------------------------------
// Facts about the specifications
// ---------------------------------------------------------------------

/// `find_from` gives the least index at or after `from` where `pat`
/// occurs, and `None` exactly when there is none.
pub proof fn lemma_find_from(s: Seq<char>, pat: Seq<char>, from: nat)
    ensures
        match find_from(s, pat, from) {
            Some(i) => from <= i && matches_at(s, pat, i) && forall|j: int|
                from <= j < i ==> !matches_at(s, pat, j),
            None => forall|j: int| from <= j ==> !matches_at(s, pat, j),
        },
    decreases s.len() + 1 - from,
{
    if from + pat.len() > s.len() {
    } else if s.subrange(from as int, (from + pat.len()) as int) == pat {
    } else {
        lemma_find_from(s, pat, from + 1);
    }
}

/// `char_index_from` gives the least index at or after `from` holding `c`.
pub proof fn lemma_char_index_from(s: Seq<char>, c: char, from: nat)
    ensures
        match char_index_from(s, c, from) {
            Some(i) => from <= i < s.len() && s[i] == c && forall|j: int|
                from <= j < i ==> s[j] != c,
            None => forall|j: int| from <= j < s.len() ==> s[j] != c,
        },
    decreases s.len() - from,
{
    if from >= s.len() {
    } else if s[from as int] == c {
    } else {
        lemma_char_index_from(s, c, from + 1);
    }
}

/// No line holds a newline, and there are no more lines than characters.
pub proof fn lines_have_no_newline(s: Seq<char>)
    ensures
        forall|k: int| 0 <= k < lines(s).len() ==> !(#[trigger] lines(s)[k]).contains('\n'),
        lines(s).len() <= s.len(),
    decreases s.len(),
{
    if s.len() > 0 {
        lemma_char_index_from(s, '\n', 0);
        match char_index_from(s, '\n', 0) {
            Some(i) => {
                lines_have_no_newline(s.skip(i + 1));
                let first = strip_cr(s.take(i));
                assert(!first.contains('\n')) by {
                    if first.contains('\n') {
                        let j = choose|j: int| 0 <= j < first.len() && first[j] == '\n';
                        assert(s[j] == '\n');
                    }
                }
                let rest = lines(s.skip(i + 1));
                assert forall|k: int| 0 <= k < lines(s).len() implies !(#[trigger] lines(
                    s,
                )[k]).contains('\n') by {
                    if k > 0 {
                        assert(lines(s)[k] == rest[k - 1]);
                    }
                }
            },
            None => {
                assert forall|k: int| 0 <= k < lines(s).len() implies !(#[trigger] lines(
                    s,
                )[k]).contains('\n') by {
                    if s.contains('\n') {
                        let j = choose|j: int| 0 <= j < s.len() && s[j] == '\n';
                    }
                }
            },
        }
    }
}

/// `trim_start` keeps a suffix that is empty or starts with a character
/// that is not white space.
proof fn lemma_trim_start(s: Seq<char>)
    ensures
        exists|k: int| 0 <= k <= s.len() && trim_start(s) == s.skip(k),
        trim_start(s).len() > 0 ==> !is_white_space(trim_start(s)[0]),
    decreases s.len(),
{
    if s.len() > 0 && is_white_space(s[0]) {
        lemma_trim_start(s.drop_first());
        let k = choose|k: int| 0 <= k <= s.drop_first().len() && trim_start(s.drop_first()) == s.drop_first().skip(k);
        assert(s.drop_first().skip(k) =~= s.skip(k + 1));
    } else {
        assert(s.skip(0) =~= s);
    }
}

/// `trim_end` keeps a prefix that is empty or ends with a character that
/// is not white space.
proof fn lemma_trim_end(s: Seq<char>)
    ensures
        exists|k: int| 0 <= k <= s.len() && trim_end(s) == s.take(k),
        trim_end(s).len() > 0 ==> !is_white_space(trim_end(s).last()),
    decreases s.len(),
{
    if s.len() > 0 && is_white_space(s.last()) {
        lemma_trim_end(s.drop_last());
        let k = choose|k: int| 0 <= k <= s.drop_last().len() && trim_end(s.drop_last()) == s.drop_last().take(k);
        assert(s.drop_last().take(k) =~= s.take(k));
    } else {
        assert(s.take(s.len() as int) =~= s);
    }
}

/// Trimming leaves no white space at either end, and keeps a contiguous
/// part of the text.
pub proof fn trim_leaves_no_edge_space(s: Seq<char>)
    ensures
        trim(s).len() > 0 ==> !is_white_space(trim(s)[0]) && !is_white_space(trim(s).last()),
        exists|a: int, b: int| 0 <= a <= b <= s.len() && trim(s) == s.subrange(a, b),
{
    lemma_trim_start(s);
    lemma_trim_end(trim_start(s));
    let a = choose|k: int| 0 <= k <= s.len() && trim_start(s) == s.skip(k);
    let t = trim_start(s);
    let b = choose|k: int| 0 <= k <= t.len() && trim_end(t) == t.take(k);
    assert(t.take(b) =~= s.subrange(a, a + b));
    if trim(s).len() > 0 {
        assert(trim(s)[0] == t[0]);
    }
}

/// Text made of complete lines (empty, or ending with a newline) splits
/// apart from whatever follows it.
pub proof fn lines_after_complete_lines(p: Seq<char>, x: Seq<char>)
    requires
        p.len() == 0 || p.last() == '\n',
    ensures
        lines(p + x) == lines(p) + lines(x),
    decreases p.len(),
{
    if p.len() == 0 {
        assert(p + x =~= x);
        assert(lines(p) + lines(x) =~= lines(x));
    } else {
        let s = p + x;
        lemma_char_index_from(p, '\n', 0);
        lemma_char_index_from(s, '\n', 0);
        assert(p[p.len() - 1] == '\n');
        let i = char_index_from(p, '\n', 0)->0;
        let k = char_index_from(s, '\n', 0)->0;
        assert(s[i] == '\n');
        assert(k <= i);
        assert(p[k] == s[k]);
        assert(k == i);
        let p2 = p.skip(i + 1);
        assert(s.take(i) =~= p.take(i));
        assert(s.skip(i + 1) =~= p2 + x);
        if p2.len() > 0 {
            assert(p2.last() == p.last());
        }
        lines_after_complete_lines(p2, x);
        assert(lines(s) == seq![strip_cr(p.take(i))] + lines(p2 + x));
        assert(lines(p) == seq![strip_cr(p.take(i))] + lines(p2));
        assert(lines(s) =~= lines(p) + lines(x));
    }
}

/// A last line without newline, with or without a final line ending,
/// comes out as it is.
pub proof fn lines_of_last_line(p: Seq<char>, l: Seq<char>, terminated: bool)
    requires
        p.len() == 0 || p.last() == '\n',
        !l.contains('\n'),
        l.len() > 0,
        l.last() != '\r',
    ensures
        lines(p + if terminated { l.push('\n') } else { l }) == lines(p).push(l),
{
    let x = if terminated { l.push('\n') } else { l };
    lines_after_complete_lines(p, x);
    lemma_char_index_from(x, '\n', 0);
    if terminated {
        assert(x[l.len() as int] == '\n');
        let k = char_index_from(x, '\n', 0)->0;
        assert(k == l.len()) by {
            if k < l.len() {
                assert(l[k] == x[k]);
            }
        }
        assert(x.take(l.len() as int) =~= l);
        assert(x.skip((l.len() + 1) as int) =~= Seq::<char>::empty());
        assert(lines(x.skip((l.len() + 1) as int)) =~= Seq::<Seq<char>>::empty());
        assert(strip_cr(x.take(l.len() as int)) == l);
        assert(lines(x) == seq![strip_cr(x.take(l.len() as int))] + lines(x.skip((l.len() + 1) as int)));
        assert(lines(x) =~= seq![l]);
    } else {
        assert(char_index_from(x, '\n', 0) is None) by {
            if char_index_from(x, '\n', 0) is Some {
                let k = char_index_from(x, '\n', 0)->0;
                assert(l.contains('\n'));
            }
        }
        assert(lines(x) =~= seq![l]);
    }
    assert(lines(p) + seq![l] =~= lines(p).push(l));
}

/// Shifting the start of a character search by a dropped prefix.
proof fn lemma_char_index_skip(s: Seq<char>, c: char, k: nat, from: nat)
    requires
        k <= s.len(),
    ensures
        char_index_from(s.skip(k as int), c, from) == match char_index_from(s, c, k + from) {
            Some(i) => Some(i - k),
            None => None::<int>,
        },
    decreases s.len() - k - from,
{
    if k + from >= s.len() {
    } else {
        assert(s.skip(k as int)[from as int] == s[(k + from) as int]);
        lemma_char_index_skip(s, c, k, from + 1);
    }
}

// ---------------------------------------------------------------------
// Executable helpers
// ---------------------------------------------------------------------

/// The characters of `s`, in order.
pub fn chars_of(s: &str) -> (res: Vec<char>)
    ensures
        res@ == s@,
{
    let mut res: Vec<char> = Vec::new();
    for c in it: s.chars()
        invariant
            res@ == it.seq().take(it.index() as int),
    {
        res.push(c);
    }
    res
}

/// The string made of the characters `v[from..to]`.
pub fn string_of_range(v: &Vec<char>, from: usize, to: usize) -> (res: String)
    requires
        from <= to <= v@.len(),
    ensures
        res@ == v@.subrange(from as int, to as int),
{
    let mut res = String::new();
    let mut i = from;
    while i < to
        invariant
            from <= i <= to <= v@.len(),
            res@ == v@.subrange(from as int, i as int),
        decreases to - i,
    {
        res.push(v[i]);
        i = i + 1;
        assert(res@ =~= v@.subrange(from as int, i as int));
    }
    res
}

/// The string made of all characters of `v`.
pub fn string_of(v: &Vec<char>) -> (res: String)
    ensures
        res@ == v@,
{
    let res = string_of_range(v, 0, v.len());
    assert(v@.subrange(0, v@.len() as int) =~= v@);
    res
}

/// Whether `pat` occurs in `s` at index `i`.
fn matches_at_exec(s: &Vec<char>, pat: &Vec<char>, i: usize) -> (res: bool)
    requires
        i + pat@.len() <= s@.len(),
    ensures
        res == (s@.subrange(i as int, i + pat@.len()) == pat@),
{
    let sl = s.len();
    let mut k: usize = 0;
    while k < pat.len()
        invariant
            sl == s@.len(),
            i + pat@.len() <= s@.len(),
            k <= pat@.len(),
            forall|j: int| 0 <= j < k ==> s@[i + j] == pat@[j],
        decreases pat@.len() - k,
    {
        if s[i + k] != pat[k] {
            assert(s@.subrange(i as int, i + pat@.len())[k as int] != pat@[k as int]);
            return false;
        }
        k = k + 1;
    }
    assert(s@.subrange(i as int, i + pat@.len()) =~= pat@);
    true
}

/// Index of the first occurrence of `pat` in `s` at or after `from`.
pub fn find_seq_from(s: &Vec<char>, pat: &Vec<char>, from: usize) -> (res: Option<usize>)
    ensures
        match res {
            Some(r) => find_from(s@, pat@, from as nat) == Some(r as int),
            None => find_from(s@, pat@, from as nat) is None,
        },
{
    if pat.len() > s.len() {
        return None;
    }
    let last = s.len() - pat.len();
    let mut i = from;
    while i <= last
        invariant
            last + pat@.len() == s@.len(),
            from <= i,
            find_from(s@, pat@, from as nat) == find_from(s@, pat@, i as nat),
        decreases last + 1 - i,
    {
        if matches_at_exec(s, pat, i) {
            return Some(i);
        }
        assert(find_from(s@, pat@, i as nat) == find_from(s@, pat@, (i + 1) as nat));
        if i == last {
            assert(find_from(s@, pat@, (i + 1) as nat) is None);
            return None;
        }
        i = i + 1;
    }
    None
}

/// Whether `pat` occurs in `s`.
pub fn contains_seq(s: &Vec<char>, pat: &Vec<char>) -> (res: bool)
    ensures
        res == contains(s@, pat@),
{
    find_seq_from(s, pat, 0).is_some()
}

/// Whether `s` starts with `pat`.
pub fn starts_with_seq(s: &Vec<char>, pat: &Vec<char>) -> (res: bool)
    ensures
        res == starts_with(s@, pat@),
{
    if pat.len() > s.len() {
        return false;
    }
    let r = matches_at_exec(s, pat, 0);
    assert(s@.subrange(0, pat@.len() as int) =~= s@.take(pat@.len() as int));
    r
}

/// Index of the first `c` in `s` at or after `from`.
pub fn find_char_from(s: &Vec<char>, c: char, from: usize) -> (res: Option<usize>)
    ensures
        match res {
            Some(r) => char_index_from(s@, c, from as nat) == Some(r as int),
            None => char_index_from(s@, c, from as nat) is None,
        },
{
    let mut i = from;
    while i < s.len()
        invariant
            from <= i,
            char_index_from(s@, c, from as nat) == char_index_from(s@, c, i as nat),
        decreases s@.len() - i,
    {
        if s[i] == c {
            return Some(i);
        }
        i = i + 1;
    }
    None
}

/// Whether two character sequences are equal.
pub fn seq_eq(a: &Vec<char>, b: &Vec<char>) -> (res: bool)
    ensures
        res == (a@ == b@),
{
    if a.len() != b.len() {
        return false;
    }
    let r = matches_at_exec(a, b, 0);
    assert(a@.subrange(0, b@.len() as int) =~= a@);
    r
}

/// `s` without leading and trailing white space.
pub fn trim_chars(s: &Vec<char>) -> (res: Vec<char>)
    ensures
        res@ == trim(s@),
{
    let n = s.len();
    let mut a: usize = 0;
    assert(s@.skip(0) =~= s@);
    while a < n && s[a].is_whitespace()
        invariant
            n == s@.len(),
            a <= n,
            trim_start(s@) == trim_start(s@.skip(a as int)),
        decreases n - a,
    {
        assert(s@.skip(a as int).drop_first() =~= s@.skip(a + 1));
        a = a + 1;
    }
    assert(trim_start(s@) == s@.skip(a as int));
    let mut b: usize = n;
    assert(s@.skip(a as int) =~= s@.subrange(a as int, n as int));
    while b > a && s[b - 1].is_whitespace()
        invariant
            n == s@.len(),
            a <= b <= n,
            trim(s@) == trim_end(s@.subrange(a as int, b as int)),
        decreases b - a,
    {
        assert(s@.subrange(a as int, b as int).drop_last() =~= s@.subrange(a as int, b - 1));
        b = b - 1;
    }
    let mut res: Vec<char> = Vec::new();
    let mut i = a;
    while i < b
        invariant
            a <= i <= b <= n,
            n == s@.len(),
            res@ == s@.subrange(a as int, i as int),
        decreases b - i,
    {
        res.push(s[i]);
        i = i + 1;
        assert(res@ =~= s@.subrange(a as int, i as int));
    }
    res
}

/// The lines of `s`, as `str::lines` yields them.
pub fn split_lines(s: &Vec<char>) -> (res: Vec<Vec<char>>)
    ensures
        res@.map_values(|l: Vec<char>| l@) == lines(s@),
{
    let n = s.len();
    let mut res: Vec<Vec<char>> = Vec::new();
    let mut pos: usize = 0;
    assert(s@.skip(0) =~= s@);
    while pos < n
        invariant
            n == s@.len(),
            pos <= n,
            lines(s@) == res@.map_values(|l: Vec<char>| l@) + lines(s@.skip(pos as int)),
        decreases n - pos,
    {
        let ghost rest = s@.skip(pos as int);
        proof {
            lemma_char_index_skip(s@, '\n', pos as nat, 0);
            lemma_char_index_from(s@, '\n', pos as nat);
        }
        match find_char_from(s, '\n', pos) {
            Some(i) => {
                let mut end = i;
                if end > pos && s[end - 1] == '\r' {
                    end = end - 1;
                }
                let mut line: Vec<char> = Vec::new();
                let mut k = pos;
                while k < end
                    invariant
                        pos <= k <= end <= i < n,
                        n == s@.len(),
                        line@ == s@.subrange(pos as int, k as int),
                    decreases end - k,
                {
                    line.push(s[k]);
                    k = k + 1;
                    assert(line@ =~= s@.subrange(pos as int, k as int));
                }
                assert(rest.take(i - pos) =~= s@.subrange(pos as int, i as int));
                assert(line@ == strip_cr(rest.take(i - pos)));
                assert(rest.skip(i - pos + 1) =~= s@.skip(i + 1));
                let ghost before = res@;
                res.push(line);
                assert(res@.map_values(|l: Vec<char>| l@) =~= before.map_values(|l: Vec<char>| l@).push(line@));
                pos = i + 1;
            }
            None => {
                let mut line: Vec<char> = Vec::new();
                let mut k = pos;
                while k < n
                    invariant
                        pos <= k <= n,
                        n == s@.len(),
                        line@ == s@.subrange(pos as int, k as int),
                    decreases n - k,
                {
                    line.push(s[k]);
                    k = k + 1;
                    assert(line@ =~= s@.subrange(pos as int, k as int));
                }
                assert(line@ =~= rest);
                let ghost before = res@;
                res.push(line);
                assert(res@.map_values(|l: Vec<char>| l@) =~= before.map_values(|l: Vec<char>| l@).push(line@));
                assert(s@.skip(n as int) =~= Seq::<char>::empty());
                pos = n;
            }
        }
    }
    assert(s@.skip(n as int) =~= Seq::<char>::empty());
    assert(lines(s@.skip(n as int)) =~= Seq::<Seq<char>>::empty());
    assert(res@.map_values(|l: Vec<char>| l@) + Seq::<Seq<char>>::empty() =~= res@.map_values(|l: Vec<char>| l@));
    res
}

} // verus!

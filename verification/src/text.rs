use vstd::prelude::*;

verus! {

/// The characters with the Unicode `White_Space` property.
pub open spec fn is_white_space(c: char) -> bool {
    let u = c as u32;
    ||| 0x09 <= u <= 0x0D
    ||| u == 0x20
    ||| u == 0x85
    ||| u == 0xA0
    ||| u == 0x1680
    ||| 0x2000 <= u <= 0x200A
    ||| u == 0x2028
    ||| u == 0x2029
    ||| u == 0x202F
    ||| u == 0x205F
    ||| u == 0x3000
}

/// The characters of the Unicode general category `Cc` (control codes).
pub open spec fn is_control_code(c: char) -> bool {
    let u = c as u32;
    u <= 0x1F || (0x7F <= u <= 0x9F)
}

/// Whether `c` is a white-space character.
pub fn is_whitespace_char(c: char) -> (r: bool)
    ensures
        r == is_white_space(c),
{
    let u = c as u32;
    (0x09 <= u && u <= 0x0D) || u == 0x20 || u == 0x85 || u == 0xA0 || u == 0x1680 || (0x2000 <= u
        && u <= 0x200A) || u == 0x2028 || u == 0x2029 || u == 0x202F || u == 0x205F || u == 0x3000
}

/// Whether `c` is a control code.
pub fn is_control_char(c: char) -> (r: bool)
    ensures
        r == is_control_code(c),
{
    let u = c as u32;
    u <= 0x1F || (0x7F <= u && u <= 0x9F)
}

/// The characters of `s`, in order.
pub fn chars_of(s: &str) -> (v: Vec<char>)
    ensures
        v@ == s@,
{
    let mut v: Vec<char> = Vec::new();
    for c in it: s.chars()
        invariant
            v@ == it.seq().take(it.index() as int),
            it.seq() == s@,
    {
        v.push(c);
    }
    v
}

} // verus!

verus! {

/// The views of a sequence of strings.
pub open spec fn string_views(v: Seq<String>) -> Seq<Seq<char>> {
    v.map_values(|w: String| w@)
}

/// The white-space separated words of `s`, where `cur` holds the characters
/// of a word whose start was already read.
pub open spec fn words_after(s: Seq<char>, cur: Seq<char>) -> Seq<Seq<char>>
    decreases s.len(),
{
    if s.len() == 0 {
        if cur.len() == 0 {
            seq![]
        } else {
            seq![cur]
        }
    } else if is_white_space(s[0]) {
        if cur.len() == 0 {
            words_after(s.drop_first(), seq![])
        } else {
            seq![cur] + words_after(s.drop_first(), seq![])
        }
    } else {
        words_after(s.drop_first(), cur.push(s[0]))
    }
}

/// The maximal runs of non-white-space characters of `s`, in order.
pub open spec fn words(s: Seq<char>) -> Seq<Seq<char>> {
    words_after(s, seq![])
}

proof fn lemma_string_views_push(v: Seq<String>, w: String)
    ensures
        string_views(v.push(w)) == string_views(v).push(w@),
{
    assert(string_views(v.push(w)) =~= string_views(v).push(w@));
}

/// Splits `s` into its white-space separated words.
pub fn split_whitespace(s: &str) -> (r: Vec<String>)
    ensures
        string_views(r@) == words(s@),
{
    let cs = chars_of(s);
    let n = cs.len();
    let mut out: Vec<String> = Vec::new();
    let mut in_word = false;
    let mut start: usize = 0;
    let mut i: usize = 0;
    assert(s@.skip(0) =~= s@);
    while i < n
        invariant
            n == cs@.len(),
            cs@ == s@,
            i <= n,
            start <= i,
            in_word ==> start < i,
            string_views(out@) + words_after(
                s@.skip(i as int),
                if in_word { s@.subrange(start as int, i as int) } else { seq![] },
            ) == words(s@),
        decreases n - i,
    {
        let c = cs[i];
        let ghost rest = s@.skip(i as int);
        assert(rest[0] == c);
        assert(rest.drop_first() =~= s@.skip(i + 1));
        if is_whitespace_char(c) {
            if in_word {
                let w = String::from_str(s.substring_char(start, i));
                proof {
                    lemma_string_views_push(out@, w);
                    assert(string_views(out@.push(w)) + words_after(s@.skip(i + 1), seq![])
                        =~= string_views(out@) + (seq![w@] + words_after(s@.skip(i + 1), seq![])));
                }
                out.push(w);
                in_word = false;
            }
        } else {
            if in_word {
                assert(s@.subrange(start as int, i as int).push(c) =~= s@.subrange(
                    start as int,
                    i + 1,
                ));
            } else {
                assert(Seq::<char>::empty().push(c) =~= s@.subrange(i as int, i + 1));
                start = i;
                in_word = true;
            }
        }
        i = i + 1;
    }
    if in_word {
        let w = String::from_str(s.substring_char(start, n));
        proof {
            lemma_string_views_push(out@, w);
            assert(string_views(out@) + words_after(s@.skip(n as int), s@.subrange(start as int, n as int))
                =~= string_views(out@).push(w@));
        }
        out.push(w);
    } else {
        assert(string_views(out@) + words_after(s@.skip(n as int), seq![]) =~= string_views(out@));
    }
    out
}

} // verus!

verus! {

/// `list` joined with `sep` between consecutive elements.
pub open spec fn joined(list: Seq<Seq<char>>, sep: Seq<char>) -> Seq<char>
    decreases list.len(),
{
    if list.len() == 0 {
        seq![]
    } else if list.len() == 1 {
        list[0]
    } else {
        joined(list.drop_last(), sep) + sep + list.last()
    }
}

/// Joins `parts[from..to]` with `sep` between consecutive parts.
pub fn join_range(parts: &Vec<String>, from: usize, to: usize, sep: &str) -> (r: String)
    requires
        from <= to <= parts@.len(),
    ensures
        r@ == joined(string_views(parts@).subrange(from as int, to as int), sep@),
{
    let mut r = String::new();
    let mut i = from;
    while i < to
        invariant
            from <= i <= to <= parts@.len(),
            r@ == joined(string_views(parts@).subrange(from as int, i as int), sep@),
        decreases to - i,
    {
        let ghost prev = string_views(parts@).subrange(from as int, i as int);
        let ghost next = string_views(parts@).subrange(from as int, i + 1);
        assert(next.drop_last() =~= prev);
        assert(next.last() == parts@[i as int]@);
        if i == from {
            r.append(parts[i].as_str());
            assert(r@ =~= joined(next, sep@));
        } else {
            r.append(sep);
            r.append(parts[i].as_str());
        }
        i = i + 1;
    }
    r
}

/// Whether `pat` occurs in `s` at position `i`.
pub open spec fn occurs_at(s: Seq<char>, pat: Seq<char>, i: int) -> bool {
    0 <= i && i + pat.len() <= s.len() && s.subrange(i, i + pat.len()) == pat
}

/// The first position at or after `i` where `pat` occurs in `s`.
pub open spec fn find_from(s: Seq<char>, pat: Seq<char>, i: int) -> Option<int>
    decreases s.len() + 1 - i,
{
    if i < 0 || i + pat.len() > s.len() {
        None
    } else if occurs_at(s, pat, i) {
        Some(i)
    } else {
        find_from(s, pat, i + 1)
    }
}

/// The first position where `pat` occurs in `s`.
pub open spec fn find(s: Seq<char>, pat: Seq<char>) -> Option<int> {
    find_from(s, pat, 0)
}

/// Whether `pat` occurs somewhere in `s`.
pub open spec fn contains_seq(s: Seq<char>, pat: Seq<char>) -> bool {
    exists|i: int| occurs_at(s, pat, i)
}

/// `find_from` gives the first occurrence at or after `i`.
pub proof fn lemma_find_from(s: Seq<char>, pat: Seq<char>, i: int)
    requires
        0 <= i,
    ensures
        find_from(s, pat, i) matches Some(k) ==> i <= k && occurs_at(s, pat, k) && forall|j: int|
            i <= j < k ==> !occurs_at(s, pat, j),
        find_from(s, pat, i) is None ==> forall|j: int| i <= j ==> !occurs_at(s, pat, j),
    decreases s.len() + 1 - i,
{
    if i + pat.len() > s.len() {
    } else if occurs_at(s, pat, i) {
    } else {
        lemma_find_from(s, pat, i + 1);
    }
}

/// `find` gives the first occurrence, and there is one exactly when `pat` occurs.
pub proof fn lemma_find(s: Seq<char>, pat: Seq<char>)
    ensures
        find(s, pat) matches Some(k) ==> occurs_at(s, pat, k) && forall|j: int|
            0 <= j < k ==> !occurs_at(s, pat, j),
        find(s, pat) is Some <==> contains_seq(s, pat),
{
    lemma_find_from(s, pat, 0);
    if let Some(k) = find(s, pat) {
        assert(occurs_at(s, pat, k));
    }
}

/// Whether `pat` occurs in `cs` at position `i`.
pub fn matches_at(cs: &Vec<char>, pat: &Vec<char>, i: usize) -> (r: bool)
    requires
        i + pat@.len() <= cs@.len(),
    ensures
        r == occurs_at(cs@, pat@, i as int),
{
    let m = pat.len();
    let n = cs.len();
    let mut j: usize = 0;
    while j < m
        invariant
            m == pat@.len(),
            n == cs@.len(),
            i + m <= cs@.len(),
            j <= m,
            forall|k: int| 0 <= k < j ==> cs@[i + k] == pat@[k],
        decreases m - j,
    {
        if cs[i + j] != pat[j] {
            assert(cs@.subrange(i as int, i + m)[j as int] != pat@[j as int]);
            return false;
        }
        j = j + 1;
    }
    assert(cs@.subrange(i as int, i + m) =~= pat@);
    true
}

/// The first position where `pat` occurs in `cs`.
pub fn find_chars(cs: &Vec<char>, pat: &Vec<char>) -> (r: Option<usize>)
    ensures
        r matches Some(k) ==> find(cs@, pat@) == Some(k as int),
        r is None ==> find(cs@, pat@) is None,
{
    let n = cs.len();
    let m = pat.len();
    if m > n {
        return None;
    }
    if m == 0 {
        assert(cs@.subrange(0, 0) =~= pat@);
        return Some(0);
    }
    let mut i: usize = 0;
    while i <= n - m
        invariant
            n == cs@.len(),
            m == pat@.len(),
            1 <= m <= n,
            i <= n - m + 1,
            find_from(cs@, pat@, i as int) == find(cs@, pat@),
        decreases n - i,
    {
        if matches_at(cs, pat, i) {
            return Some(i);
        }
        i = i + 1;
    }
    None
}

/// Whether `pat` occurs in `s`.
pub fn contains_str(s: &str, pat: &str) -> (r: bool)
    ensures
        r == contains_seq(s@, pat@),
{
    let cs = chars_of(s);
    let ps = chars_of(pat);
    proof {
        lemma_find(s@, pat@);
    }
    find_chars(&cs, &ps).is_some()
}

/// Whether `s` begins with `pat`.
pub open spec fn starts_with_seq(s: Seq<char>, pat: Seq<char>) -> bool {
    occurs_at(s, pat, 0)
}

/// Whether `s` begins with `pat`.
pub fn starts_with(s: &str, pat: &str) -> (r: bool)
    ensures
        r == starts_with_seq(s@, pat@),
{
    let cs = chars_of(s);
    let ps = chars_of(pat);
    if ps.len() > cs.len() {
        false
    } else {
        matches_at(&cs, &ps, 0)
    }
}

/// Whether `a` and `b` hold the same characters.
pub fn same_text(a: &str, b: &str) -> (r: bool)
    ensures
        r == (a@ == b@),
{
    let x = chars_of(a);
    let y = chars_of(b);
    if x.len() != y.len() {
        return false;
    }
    if x.len() == 0 {
        assert(a@ =~= b@);
        return true;
    }
    let r = matches_at(&x, &y, 0);
    assert(x@.subrange(0, y@.len() as int) =~= x@);
    r
}

} // verus!

verus! {

/// `s` without its leading white space.
pub open spec fn strip_leading_ws(s: Seq<char>) -> Seq<char>
    decreases s.len(),
{
    if s.len() > 0 && is_white_space(s[0]) {
        strip_leading_ws(s.drop_first())
    } else {
        s
    }
}

/// `s` without its trailing white space.
pub open spec fn strip_trailing_ws(s: Seq<char>) -> Seq<char>
    decreases s.len(),
{
    if s.len() > 0 && is_white_space(s.last()) {
        strip_trailing_ws(s.drop_last())
    } else {
        s
    }
}

/// `s` without leading and trailing white space.
pub open spec fn trimmed(s: Seq<char>) -> Seq<char> {
    strip_trailing_ws(strip_leading_ws(s))
}

/// `s` without any trailing run of the character `c`.
pub open spec fn strip_trailing_char(s: Seq<char>, c: char) -> Seq<char>
    decreases s.len(),
{
    if s.len() > 0 && s.last() == c {
        strip_trailing_char(s.drop_last(), c)
    } else {
        s
    }
}

/// The part of `s` after the last occurrence of `c`; all of `s` if `c` does not occur.
pub open spec fn after_last(s: Seq<char>, c: char) -> Seq<char>
    decreases s.len(),
{
    if s.len() == 0 {
        s
    } else if s.last() == c {
        seq![]
    } else {
        after_last(s.drop_last(), c).push(s.last())
    }
}

/// The characters of `s` from `from` to `to`, as a new string.
pub fn substring(s: &str, from: usize, to: usize) -> (r: String)
    requires
        from <= to <= s@.len(),
    ensures
        r@ == s@.subrange(from as int, to as int),
{
    String::from_str(s.substring_char(from, to))
}

/// `s` without leading and trailing white space.
pub fn trim(s: &str) -> (r: String)
    ensures
        r@ == trimmed(s@),
{
    let cs = chars_of(s);
    let n = cs.len();
    let mut a: usize = 0;
    assert(s@.skip(0) =~= s@);
    while a < n && is_whitespace_char(cs[a])
        invariant
            n == cs@.len(),
            cs@ == s@,
            a <= n,
            strip_leading_ws(s@.skip(a as int)) == strip_leading_ws(s@),
        decreases n - a,
    {
        assert(s@.skip(a as int).drop_first() =~= s@.skip(a + 1));
        a = a + 1;
    }
    assert(strip_leading_ws(s@.skip(a as int)) == s@.skip(a as int));
    let mut b: usize = n;
    assert(s@.subrange(a as int, n as int) =~= s@.skip(a as int));
    while b > a && is_whitespace_char(cs[b - 1])
        invariant
            n == cs@.len(),
            cs@ == s@,
            a <= b <= n,
            strip_leading_ws(s@) == s@.skip(a as int),
            strip_trailing_ws(s@.subrange(a as int, b as int)) == trimmed(s@),
        decreases b,
    {
        assert(s@.subrange(a as int, b as int).drop_last() =~= s@.subrange(a as int, b - 1));
        b = b - 1;
    }
    substring(s, a, b)
}

/// `s` without any trailing run of the character `c`.
pub fn trim_end_char(s: &str, c: char) -> (r: String)
    ensures
        r@ == strip_trailing_char(s@, c),
{
    let cs = chars_of(s);
    let n = cs.len();
    let mut b: usize = n;
    assert(s@.subrange(0, n as int) =~= s@);
    while b > 0 && cs[b - 1] == c
        invariant
            n == cs@.len(),
            cs@ == s@,
            b <= n,
            strip_trailing_char(s@.subrange(0, b as int), c) == strip_trailing_char(s@, c),
        decreases b,
    {
        assert(s@.subrange(0, b as int).drop_last() =~= s@.subrange(0, b - 1));
        b = b - 1;
    }
    substring(s, 0, b)
}

/// The part of `s` after the last occurrence of `c`; all of `s` if `c` does not occur.
pub fn after_last_char(s: &str, c: char) -> (r: String)
    ensures
        r@ == after_last(s@, c),
{
    let cs = chars_of(s);
    let n = cs.len();
    let mut b: usize = n;
    assert(s@.subrange(0, n as int) =~= s@);
    assert(s@.subrange(n as int, n as int) =~= Seq::<char>::empty());
    while b > 0 && cs[b - 1] != c
        invariant
            n == cs@.len(),
            cs@ == s@,
            b <= n,
            after_last(s@, c) == after_last(s@.subrange(0, b as int), c) + s@.subrange(
                b as int,
                n as int,
            ),
        decreases b,
    {
        let ghost pre = s@.subrange(0, b as int);
        assert(pre.drop_last() =~= s@.subrange(0, b - 1));
        assert(after_last(pre, c) == after_last(pre.drop_last(), c).push(pre.last()));
        assert(after_last(s@.subrange(0, b - 1), c).push(cs@[b - 1]) + s@.subrange(b as int, n as int)
            =~= after_last(s@.subrange(0, b - 1), c) + s@.subrange(b - 1, n as int));
        b = b - 1;
    }
    if b > 0 {
        assert(after_last(s@.subrange(0, b as int), c) =~= Seq::<char>::empty());
        assert(Seq::<char>::empty() + s@.subrange(b as int, n as int) =~= s@.subrange(b as int, n as int));
    } else {
        assert(s@.subrange(0, 0) =~= Seq::<char>::empty());
        assert(Seq::<char>::empty() + s@.subrange(0, n as int) =~= s@.subrange(0, n as int));
    }
    substring(s, b, n)
}

} // verus!

verus! {

/// `line` without one trailing carriage return.
pub open spec fn strip_cr(line: Seq<char>) -> Seq<char> {
    if line.len() > 0 && line.last() == '\r' {
        line.drop_last()
    } else {
        line
    }
}

/// The lines of `s`, where `cur` holds the characters of a line whose start was already read.
pub open spec fn lines_after(s: Seq<char>, cur: Seq<char>) -> Seq<Seq<char>>
    decreases s.len(),
{
    if s.len() == 0 {
        if cur.len() == 0 {
            seq![]
        } else {
            seq![cur]
        }
    } else if s[0] == '\n' {
        seq![strip_cr(cur)] + lines_after(s.drop_first(), seq![])
    } else {
        lines_after(s.drop_first(), cur.push(s[0]))
    }
}

/// The lines of `s`: the text between line feeds, each without a carriage return that
/// precedes its line feed; a final line feed ends the last line rather than starting an
/// empty one.
pub open spec fn lines(s: Seq<char>) -> Seq<Seq<char>> {
    lines_after(s, seq![])
}

/// Splits `s` into its lines.
pub fn split_lines(s: &str) -> (r: Vec<String>)
    ensures
        string_views(r@) == lines(s@),
{
    let cs = chars_of(s);
    let n = cs.len();
    let mut out: Vec<String> = Vec::new();
    let mut start: usize = 0;
    let mut i: usize = 0;
    assert(s@.skip(0) =~= s@);
    assert(s@.subrange(0, 0) =~= Seq::<char>::empty());
    while i < n
        invariant
            n == cs@.len(),
            cs@ == s@,
            start <= i <= n,
            string_views(out@) + lines_after(s@.skip(i as int), s@.subrange(start as int, i as int))
                == lines(s@),
        decreases n - i,
    {
        let c = cs[i];
        let ghost rest = s@.skip(i as int);
        let ghost cur = s@.subrange(start as int, i as int);
        assert(rest[0] == c);
        assert(rest.drop_first() =~= s@.skip(i + 1));
        if c == '\n' {
            let w = if i > start && cs[i - 1] == '\r' {
                assert(cur.drop_last() =~= s@.subrange(start as int, i - 1));
                substring(s, start, i - 1)
            } else {
                substring(s, start, i)
            };
            proof {
                lemma_string_views_push(out@, w);
                assert(string_views(out@.push(w)) + lines_after(s@.skip(i + 1), seq![])
                    =~= string_views(out@) + (seq![strip_cr(cur)] + lines_after(s@.skip(i + 1), seq![])));
                assert(s@.subrange(i + 1, i + 1) =~= Seq::<char>::empty());
            }
            out.push(w);
            start = i + 1;
        } else {
            assert(cur.push(c) =~= s@.subrange(start as int, i + 1));
        }
        i = i + 1;
    }
    if start < n {
        let w = substring(s, start, n);
        proof {
            lemma_string_views_push(out@, w);
            assert(string_views(out@) + lines_after(s@.skip(n as int), s@.subrange(start as int, n as int))
                =~= string_views(out@).push(w@));
        }
        out.push(w);
    } else {
        assert(s@.subrange(start as int, n as int) =~= Seq::<char>::empty());
        assert(string_views(out@) + lines_after(s@.skip(n as int), seq![]) =~= string_views(out@));
    }
    out
}

/// The decimal digit for `d`.
pub open spec fn digit(d: nat) -> char {
    seq!['0', '1', '2', '3', '4', '5', '6', '7', '8', '9'][d as int]
}

/// The decimal notation of `n`, without leading zeros.
pub open spec fn decimal(n: nat) -> Seq<char>
    decreases n,
{
    if n < 10 {
        seq![digit(n)]
    } else {
        decimal(n / 10).push(digit(n % 10))
    }
}

fn digit_str(d: u64) -> (r: &'static str)
    requires
        d < 10,
    ensures
        r@ == seq![digit(d as nat)],
{
    proof {
        reveal_strlit("0");
        reveal_strlit("1");
        reveal_strlit("2");
        reveal_strlit("3");
        reveal_strlit("4");
        reveal_strlit("5");
        reveal_strlit("6");
        reveal_strlit("7");
        reveal_strlit("8");
        reveal_strlit("9");
    }
    match d {
        0 => "0",
        1 => "1",
        2 => "2",
        3 => "3",
        4 => "4",
        5 => "5",
        6 => "6",
        7 => "7",
        8 => "8",
        _ => "9",
    }
}

/// The decimal notation of `n`.
pub fn decimal_string(n: u64) -> (r: String)
    ensures
        r@ == decimal(n as nat),
    decreases n,
{
    if n < 10 {
        String::from_str(digit_str(n))
    } else {
        let mut s = decimal_string(n / 10);
        s.append(digit_str(n % 10));
        s
    }
}

} // verus!

verus! {

proof fn lemma_words_after_clean(s: Seq<char>, cur: Seq<char>)
    requires
        forall|k: int| 0 <= k < cur.len() ==> !is_white_space(#[trigger] cur[k]),
    ensures
        forall|i: int|
            0 <= i < words_after(s, cur).len() ==> (#[trigger] words_after(s, cur)[i]).len() > 0
                && forall|k: int|
                0 <= k < words_after(s, cur)[i].len() ==> !is_white_space(
                    #[trigger] words_after(s, cur)[i][k],
                ),
    decreases s.len(),
{
    let w = words_after(s, cur);
    if s.len() == 0 {
        if cur.len() > 0 {
            assert(w == seq![cur]);
            assert forall|i: int| 0 <= i < w.len() implies (#[trigger] w[i]).len() > 0 && forall|k: int|
                0 <= k < w[i].len() ==> !is_white_space(#[trigger] w[i][k]) by {
                assert(w[i] == cur);
            }
        }
    } else if is_white_space(s[0]) {
        lemma_words_after_clean(s.drop_first(), seq![]);
        let rest = words_after(s.drop_first(), seq![]);
        if cur.len() > 0 {
            assert(w == seq![cur] + rest);
            assert forall|i: int| 0 <= i < w.len() implies (#[trigger] w[i]).len() > 0 && forall|k: int|
                0 <= k < w[i].len() ==> !is_white_space(#[trigger] w[i][k]) by {
                if i > 0 {
                    assert(w[i] == rest[i - 1]);
                } else {
                    assert(w[i] == cur);
                }
            }
        } else {
            assert(w == rest);
        }
    } else {
        let next = cur.push(s[0]);
        assert forall|k: int| 0 <= k < next.len() implies !is_white_space(#[trigger] next[k]) by {
            if k < cur.len() {
                assert(next[k] == cur[k]);
            }
        }
        lemma_words_after_clean(s.drop_first(), next);
        assert(w == words_after(s.drop_first(), next));
    }
}

/// Every word is non-empty and holds no white space.
pub proof fn lemma_words_clean(s: Seq<char>)
    ensures
        forall|i: int|
            0 <= i < words(s).len() ==> (#[trigger] words(s)[i]).len() > 0 && forall|k: int|
                0 <= k < words(s)[i].len() ==> !is_white_space(#[trigger] words(s)[i][k]),
{
    lemma_words_after_clean(s, seq![]);
}

proof fn lemma_lines_after_clean(s: Seq<char>, cur: Seq<char>)
    requires
        forall|k: int| 0 <= k < cur.len() ==> #[trigger] cur[k] != '\n',
    ensures
        forall|i: int, k: int|
            0 <= i < lines_after(s, cur).len() && 0 <= k < lines_after(s, cur)[i].len()
                ==> #[trigger] lines_after(s, cur)[i][k] != '\n',
    decreases s.len(),
{
    let w = lines_after(s, cur);
    if s.len() == 0 {
        if cur.len() > 0 {
            assert(w == seq![cur]);
            assert forall|i: int, k: int| 0 <= i < w.len() && 0 <= k < w[i].len() implies #[trigger] w[i][k]
                != '\n' by {
                assert(w[i] == cur);
            }
        }
    } else if s[0] == '\n' {
        lemma_lines_after_clean(s.drop_first(), seq![]);
        let rest = lines_after(s.drop_first(), seq![]);
        let first = strip_cr(cur);
        assert(w == seq![first] + rest);
        assert forall|i: int, k: int| 0 <= i < w.len() && 0 <= k < w[i].len() implies #[trigger] w[i][k]
            != '\n' by {
            if i > 0 {
                assert(w[i] == rest[i - 1]);
            } else {
                assert(w[i] == first);
                assert(first[k] == cur[k]);
            }
        }
    } else {
        let next = cur.push(s[0]);
        assert forall|k: int| 0 <= k < next.len() implies #[trigger] next[k] != '\n' by {
            if k < cur.len() {
                assert(next[k] == cur[k]);
            }
        }
        lemma_lines_after_clean(s.drop_first(), next);
        assert(w == lines_after(s.drop_first(), next));
    }
}

/// No line holds a line feed.
pub proof fn lemma_lines_clean(s: Seq<char>)
    ensures
        forall|i: int, k: int|
            0 <= i < lines(s).len() && 0 <= k < lines(s)[i].len() ==> #[trigger] lines(s)[i][k]
                != '\n',
{
    lemma_lines_after_clean(s, seq![]);
}

proof fn lemma_lines_after_one_line(s: Seq<char>, cur: Seq<char>)
    requires
        forall|k: int| 0 <= k < s.len() ==> #[trigger] s[k] != '\n',
    ensures
        lines_after(s, cur) == if (cur + s).len() == 0 {
            Seq::<Seq<char>>::empty()
        } else {
            seq![cur + s]
        },
        lines_after(s.push('\n'), cur) == seq![strip_cr(cur + s)],
    decreases s.len(),
{
    if s.len() == 0 {
        assert(cur + s =~= cur);
        let nl = s.push('\n');
        assert(nl[0] == '\n');
        assert(nl.drop_first() =~= Seq::<char>::empty());
        assert(lines_after(nl.drop_first(), seq![]) =~= Seq::<Seq<char>>::empty());
        assert(lines_after(nl, cur) == seq![strip_cr(cur)] + lines_after(nl.drop_first(), seq![]));
        assert(seq![strip_cr(cur)] + Seq::<Seq<char>>::empty() =~= seq![strip_cr(cur)]);
    } else {
        let rest = s.drop_first();
        assert forall|k: int| 0 <= k < rest.len() implies #[trigger] rest[k] != '\n' by {
            assert(rest[k] == s[k + 1]);
        }
        lemma_lines_after_one_line(rest, cur.push(s[0]));
        assert(cur.push(s[0]) + rest =~= cur + s);
        assert(s.push('\n')[0] == s[0]);
        assert(s.push('\n').drop_first() =~= rest.push('\n'));
    }
}

/// A text without line feeds is a single line, or none when it is empty; followed by a line
/// feed it is still that one line, without a carriage return that ends it.
pub proof fn lemma_one_line(s: Seq<char>)
    requires
        forall|k: int| 0 <= k < s.len() ==> #[trigger] s[k] != '\n',
    ensures
        s.len() > 0 ==> lines(s) == seq![s],
        s.len() == 0 ==> lines(s) == Seq::<Seq<char>>::empty(),
        lines(s.push('\n')) == seq![strip_cr(s)],
{
    lemma_lines_after_one_line(s, seq![]);
    assert(Seq::<char>::empty() + s =~= s);
}

/// What follows the last `c` holds no `c` and ends `s`.
pub proof fn lemma_after_last(s: Seq<char>, c: char)
    ensures
        forall|k: int| 0 <= k < after_last(s, c).len() ==> #[trigger] after_last(s, c)[k] != c,
        after_last(s, c).len() <= s.len(),
        after_last(s, c) == s.subrange(s.len() - after_last(s, c).len(), s.len() as int),
        !s.contains(c) ==> after_last(s, c) == s,
    decreases s.len(),
{
    if s.len() == 0 {
        assert(s.subrange(0, 0) =~= s);
    } else if s.last() == c {
        assert(s.subrange(s.len() as int, s.len() as int) =~= Seq::<char>::empty());
        assert(s.contains(c)) by {
            assert(s[s.len() - 1] == c);
        }
    } else {
        let p = s.drop_last();
        lemma_after_last(p, c);
        let a = after_last(p, c);
        assert(after_last(s, c) == a.push(s.last()));
        assert forall|k: int| 0 <= k < after_last(s, c).len() implies #[trigger] after_last(s, c)[k]
            != c by {
            if k < a.len() {
                assert(after_last(s, c)[k] == a[k]);
            }
        }
        assert(a.push(s.last()) =~= s.subrange(s.len() - a.len() - 1, s.len() as int));
        if !s.contains(c) {
            assert(!p.contains(c)) by {
                if p.contains(c) {
                    let k = choose|k: int| 0 <= k < p.len() && p[k] == c;
                    assert(s[k] == c);
                }
            }
            assert(a.push(s.last()) =~= s);
        }
    }
}

/// The trimmed text starts and ends with no white space and is a contiguous part of `s`.
pub proof fn lemma_trimmed(s: Seq<char>)
    ensures
        trimmed(s).len() > 0 ==> !is_white_space(trimmed(s)[0]) && !is_white_space(
            trimmed(s).last(),
        ),
        exists|a: int, b: int| 0 <= a <= b <= s.len() && trimmed(s) == s.subrange(a, b),
{
    lemma_strip_leading(s);
    let t = strip_leading_ws(s);
    lemma_strip_trailing(t);
    let a = choose|a: int| 0 <= a <= s.len() && t == s.subrange(a, s.len() as int);
    let b = choose|b: int| 0 <= b <= t.len() && strip_trailing_ws(t) == t.subrange(0, b);
    assert(strip_trailing_ws(t) =~= s.subrange(a, a + b));
    if trimmed(s).len() > 0 {
        assert(trimmed(s)[0] == t[0]);
    }
}

proof fn lemma_strip_leading(s: Seq<char>)
    ensures
        strip_leading_ws(s).len() > 0 ==> !is_white_space(strip_leading_ws(s)[0]),
        exists|a: int| 0 <= a <= s.len() && strip_leading_ws(s) == s.subrange(a, s.len() as int),
    decreases s.len(),
{
    if s.len() > 0 && is_white_space(s[0]) {
        lemma_strip_leading(s.drop_first());
        let a = choose|a: int|
            0 <= a <= s.len() - 1 && strip_leading_ws(s.drop_first()) == #[trigger] s.drop_first().subrange(
                a,
                s.len() - 1,
            );
        assert(s.drop_first().subrange(a, s.len() - 1) =~= s.subrange(a + 1, s.len() as int));
    } else {
        assert(s.subrange(0, s.len() as int) =~= s);
    }
}

proof fn lemma_strip_trailing(s: Seq<char>)
    ensures
        strip_trailing_ws(s).len() > 0 ==> !is_white_space(strip_trailing_ws(s).last()),
        strip_trailing_ws(s).len() > 0 ==> strip_trailing_ws(s)[0] == s[0],
        exists|b: int| 0 <= b <= s.len() && strip_trailing_ws(s) == s.subrange(0, b),
    decreases s.len(),
{
    if s.len() > 0 && is_white_space(s.last()) {
        lemma_strip_trailing(s.drop_last());
        let b = choose|b: int|
            0 <= b <= s.len() - 1 && strip_trailing_ws(s.drop_last()) == #[trigger] s.drop_last().subrange(
                0,
                b,
            );
        assert(s.drop_last().subrange(0, b) =~= s.subrange(0, b));
    } else {
        assert(s.subrange(0, s.len() as int) =~= s);
    }
}

} // verus!

verus! {

/// The value of a decimal digit character; 0 for other characters.
pub open spec fn digit_value(c: char) -> nat {
    if '0' <= c <= '9' {
        (c as u32 - '0' as u32) as nat
    } else {
        0
    }
}

/// The number that a string of decimal digits denotes.
pub open spec fn digits_value(s: Seq<char>) -> nat
    decreases s.len(),
{
    if s.len() == 0 {
        0
    } else {
        digits_value(s.drop_last()) * 10 + digit_value(s.last())
    }
}

proof fn lemma_digit_value(d: nat)
    requires
        d < 10,
    ensures
        digit_value(digit(d)) == d,
        '0' <= digit(d) <= '9',
        d > 0 ==> digit(d) != '0',
{
    if d == 0 {
        assert(digit(d) == '0');
    } else if d == 1 {
        assert(digit(d) == '1');
    } else if d == 2 {
        assert(digit(d) == '2');
    } else if d == 3 {
        assert(digit(d) == '3');
    } else if d == 4 {
        assert(digit(d) == '4');
    } else if d == 5 {
        assert(digit(d) == '5');
    } else if d == 6 {
        assert(digit(d) == '6');
    } else if d == 7 {
        assert(digit(d) == '7');
    } else if d == 8 {
        assert(digit(d) == '8');
    } else {
        assert(digit(d) == '9');
    }
}

/// The decimal notation of `n` consists of digits, starts with a non-zero digit unless `n`
/// is zero, and denotes `n`.
pub proof fn lemma_decimal(n: nat)
    ensures
        digits_value(decimal(n)) == n,
        decimal(n).len() > 0,
        forall|k: int| 0 <= k < decimal(n).len() ==> '0' <= #[trigger] decimal(n)[k] <= '9',
        n > 0 ==> decimal(n)[0] != '0',
    decreases n,
{
    let d = decimal(n);
    if n < 10 {
        lemma_digit_value(n);
        assert(d == seq![digit(n)]);
        assert(d.drop_last() =~= Seq::<char>::empty());
        assert(digits_value(d.drop_last()) == 0);
        assert(d.last() == digit(n));
        assert(digits_value(d) == digits_value(d.drop_last()) * 10 + digit_value(d.last()));
    } else {
        lemma_digit_value(n % 10);
        assert((n / 10) * 10 + n % 10 == n) by (nonlinear_arith);
        assert(n / 10 > 0) by (nonlinear_arith)
            requires
                n >= 10,
        ;
        lemma_decimal(n / 10);
        let p = decimal(n / 10);
        assert(d == p.push(digit(n % 10)));
        assert(d.drop_last() =~= p);
        assert(d.last() == digit(n % 10));
        assert(digits_value(d) == digits_value(p) * 10 + digit_value(d.last()));
        assert forall|k: int| 0 <= k < d.len() implies '0' <= #[trigger] d[k] <= '9' by {
            if k < p.len() {
                assert(d[k] == p[k]);
            }
        }
        assert(d[0] == p[0]);
    }
}

} // verus!

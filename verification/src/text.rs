//! Character-level text helpers: editing within a line, splitting a document
//! into lines and joining it back, trimming and tokenizing command input, and
//! decimal rendering of counters.
//!
//! All operations work in character (Unicode scalar) coordinates, never in
//! storage bytes; every function's contract is stated over `Seq<char>` views.

use vstd::prelude::*;

verus! {

/// Relies on `String::push` from std: appends exactly one character to the
/// end of the string.
#[verifier::external_body]
pub fn push_char(s: &mut String, c: char)
    ensures
        final(s)@ == old(s)@.push(c),
{
    s.push(c);
}

/// Number of characters in the string (not bytes).
pub fn char_count(s: &String) -> (n: usize)
    ensures
        n == s@.len(),
{
    s.as_str().unicode_len()
}

/// A copy of `line` with `c` inserted before the character at `col`.
/// If `col` lies past the end, the character is appended at the end,
/// mirroring how a cursor beyond the line inserts at the line's end.
pub fn insert_char_at(line: &String, col: usize, c: char) -> (r: String)
    ensures
        r@ == line@.take(char_clamp(line@, col)) + seq![c] + line@.skip(char_clamp(line@, col)),
{
    let n = char_count(line);
    let k = if col < n {
        col
    } else {
        n
    };
    let mut r = line.as_str().substring_char(0, k).to_owned();
    push_char(&mut r, c);
    let tail = line.as_str().substring_char(k, n);
    r.append(tail);
    assert(r@ =~= line@.take(k as int) + seq![c] + line@.skip(k as int));
    r
}

/// The insertion position that `insert_char_at` uses: `col`, clamped to the
/// line's character length.
pub open spec fn char_clamp(line: Seq<char>, col: usize) -> int {
    if col < line.len() {
        col as int
    } else {
        line.len() as int
    }
}

/// A copy of `line` with the character at `col` removed.
pub fn remove_char_at(line: &String, col: usize) -> (r: String)
    requires
        col < line@.len(),
    ensures
        r@ == line@.take(col as int) + line@.skip(col as int + 1),
{
    let n = char_count(line);
    let mut r = line.as_str().substring_char(0, col).to_owned();
    let tail = line.as_str().substring_char(col + 1, n);
    r.append(tail);
    assert(r@ =~= line@.take(col as int) + line@.skip(col as int + 1));
    r
}

/// Splits `line` at character position `col` (clamped to the line's length):
/// the first result holds the characters before `col`, the second the rest.
pub fn split_line_at(line: &String, col: usize) -> (r: (String, String))
    ensures
        r.0@ == line@.take(char_clamp(line@, col)),
        r.1@ == line@.skip(char_clamp(line@, col)),
{
    let n = char_count(line);
    let k = if col < n {
        col
    } else {
        n
    };
    let left = line.as_str().substring_char(0, k).to_owned();
    let right = line.as_str().substring_char(k, n).to_owned();
    assert(left@ =~= line@.take(k as int));
    assert(right@ =~= line@.skip(k as int));
    (left, right)
}

/// The concatenation of two lines.
pub fn concat_lines(a: &String, b: &String) -> (r: String)
    ensures
        r@ == a@ + b@,
{
    let mut r = a.clone();
    r.append(b.as_str());
    r
}

/// The lines of a document: the text split on every `'\n'`. A document with
/// N line breaks has N + 1 lines; the empty document has one empty line.
pub open spec fn split_lines(s: Seq<char>) -> Seq<Seq<char>>
    decreases s.len(),
{
    if s.len() == 0 {
        seq![Seq::<char>::empty()]
    } else if s[0] == '\n' {
        seq![Seq::<char>::empty()] + split_lines(s.skip(1))
    } else {
        let rest = split_lines(s.skip(1));
        seq![seq![s[0]] + rest[0]] + rest.skip(1)
    }
}

/// The document that a sequence of lines denotes: the lines joined with
/// `'\n'`, so N lines produce exactly N - 1 breaks.
pub open spec fn join_lines(lines: Seq<Seq<char>>) -> Seq<char>
    decreases lines.len(),
{
    if lines.len() == 0 {
        Seq::<char>::empty()
    } else if lines.len() == 1 {
        lines[0]
    } else {
        lines[0] + seq!['\n'] + join_lines(lines.skip(1))
    }
}

/// True when no character of `s` is a line break.
pub open spec fn no_newline(s: Seq<char>) -> bool {
    forall|i: int| 0 <= i < s.len() ==> s[i] != '\n'
}

/// Splitting always yields at least one line.
pub proof fn lemma_split_lines_nonempty(s: Seq<char>)
    ensures
        split_lines(s).len() >= 1,
    decreases s.len(),
{
    if s.len() != 0 {
        lemma_split_lines_nonempty(s.skip(1));
    }
}

/// A text without line breaks splits into exactly itself.
pub proof fn lemma_split_no_newline(s: Seq<char>)
    requires
        no_newline(s),
    ensures
        split_lines(s) =~~= seq![s],
    decreases s.len(),
{
    if s.len() == 0 {
        assert(split_lines(s) =~~= seq![s]);
    } else {
        assert(no_newline(s.skip(1)));
        lemma_split_no_newline(s.skip(1));
        let rest = split_lines(s.skip(1));
        assert(rest =~~= seq![s.skip(1)]);
        assert(seq![s[0]] + rest[0] =~= s);
        assert(split_lines(s) =~~= seq![s]);
    }
}

/// Splitting a text of the form `a ++ '\n' ++ b`, where `a` holds no break,
/// yields `a` followed by the lines of `b`.
pub proof fn lemma_split_around_newline(a: Seq<char>, b: Seq<char>)
    requires
        no_newline(a),
    ensures
        split_lines(a + seq!['\n'] + b) =~~= seq![a] + split_lines(b),
    decreases a.len(),
{
    let s = a + seq!['\n'] + b;
    if a.len() == 0 {
        assert(s[0] == '\n');
        assert(s.skip(1) =~= b);
        assert(split_lines(s) =~~= seq![a] + split_lines(b));
    } else {
        let a1 = a.skip(1);
        assert(no_newline(a1));
        lemma_split_around_newline(a1, b);
        assert(s.skip(1) =~= a1 + seq!['\n'] + b);
        let rest = split_lines(s.skip(1));
        assert(rest =~~= seq![a1] + split_lines(b));
        lemma_split_lines_nonempty(b);
        assert(rest[0] == a1);
        assert(seq![s[0]] + rest[0] =~= a);
        assert(rest.skip(1) =~~= split_lines(b));
        assert(split_lines(s) =~~= seq![a] + split_lines(b));
    }
}

/// Round trip: a non-empty sequence of break-free lines, joined into one
/// document and split again, yields exactly the original lines. This is what
/// makes saving and reloading a buffer reproduce its content.
pub proof fn lemma_join_then_split(lines: Seq<Seq<char>>)
    requires
        lines.len() >= 1,
        forall|i: int| 0 <= i < lines.len() ==> no_newline(#[trigger] lines[i]),
    ensures
        split_lines(join_lines(lines)) =~~= lines,
    decreases lines.len(),
{
    if lines.len() == 1 {
        lemma_split_no_newline(lines[0]);
        assert(split_lines(join_lines(lines)) =~~= lines);
    } else {
        let tail = lines.skip(1);
        assert(forall|i: int| 0 <= i < tail.len() ==> no_newline(#[trigger] tail[i]));
        lemma_join_then_split(tail);
        lemma_split_around_newline(lines[0], join_lines(tail));
        assert(join_lines(lines) =~= lines[0] + seq!['\n'] + join_lines(tail));
        assert(split_lines(join_lines(lines)) =~~= seq![lines[0]] + tail);
        assert(seq![lines[0]] + tail =~~= lines);
    }
}

/// Joining a non-empty prefix extended by one more line appends one break
/// and that line.
pub proof fn lemma_join_snoc(lines: Seq<Seq<char>>)
    requires
        lines.len() >= 2,
    ensures
        join_lines(lines) =~= join_lines(lines.drop_last()) + seq!['\n'] + lines.last(),
    decreases lines.len(),
{
    if lines.len() == 2 {
        assert(lines.skip(1).len() == 1);
        assert(join_lines(lines.skip(1)) == lines.skip(1)[0]);
        assert(lines.drop_last().len() == 1);
        assert(join_lines(lines.drop_last()) == lines.drop_last()[0]);
        assert(join_lines(lines) =~= join_lines(lines.drop_last()) + seq!['\n'] + lines.last());
    } else {
        let tail = lines.skip(1);
        lemma_join_snoc(tail);
        let front = lines.drop_last();
        assert(front.len() >= 2);
        assert(front[0] == lines[0]);
        assert(front.skip(1) =~= tail.drop_last());
        assert(tail.last() == lines.last());
        assert(join_lines(front) == front[0] + seq!['\n'] + join_lines(front.skip(1)));
        assert(join_lines(lines) =~= join_lines(front) + seq!['\n'] + lines.last());
    }
}

/// Splits a document string into its lines, one `String` per line.
pub fn lines_of_string(contents: &String) -> (lines: Vec<String>)
    ensures
        lines.deep_view() == split_lines(contents@),
        lines.len() >= 1,
{
    let n = char_count(contents);
    let mut lines: Vec<String> = Vec::new();
    let mut cur = String::new();
    let mut i: usize = 0;
    proof {
        assert(cur@ + contents@.skip(0) =~= contents@);
    }
    while i < n
        invariant
            i <= n,
            n == contents@.len(),
            no_newline(cur@),
            split_lines(contents@) =~~= lines.deep_view() + split_lines(cur@ + contents@.skip(i as int)),
        decreases n - i,
    {
        let c = contents.as_str().get_char(i);
        proof {
            assert(cur@ + contents@.skip(i as int) =~= (cur@ + contents@.skip(i as int)));
        }
        let ghost pending = cur@ + contents@.skip(i as int);
        if c == '\n' {
            proof {
                assert(pending =~= cur@ + seq!['\n'] + contents@.skip(i as int + 1));
                lemma_split_around_newline(cur@, contents@.skip(i as int + 1));
                assert(lines.deep_view().push(cur@) =~~= lines.deep_view() + seq![cur@]);
            }
            lines.push(cur);
            cur = String::new();
            proof {
                assert(cur@ + contents@.skip(i as int + 1) =~= contents@.skip(i as int + 1));
            }
        } else {
            push_char(&mut cur, c);
            proof {
                assert(cur@ + contents@.skip(i as int + 1) =~= pending);
            }
        }
        i = i + 1;
    }
    proof {
        assert(cur@ + contents@.skip(n as int) =~= cur@);
        lemma_split_no_newline(cur@);
        assert(lines.deep_view().push(cur@) =~~= lines.deep_view() + seq![cur@]);
    }
    lines.push(cur);
    lines
}

/// Joins lines back into one document string, with a `'\n'` between each
/// pair of adjacent lines.
pub fn string_of_lines(lines: &Vec<String>) -> (contents: String)
    ensures
        contents@ == join_lines(lines.deep_view()),
{
    let mut out = String::new();
    let mut i: usize = 0;
    let n = lines.len();
    while i < n
        invariant
            i <= n,
            n == lines.len(),
            lines.deep_view().len() == n,
            out@ == join_lines(lines.deep_view().take(i as int)),
        decreases n - i,
    {
        let ghost dv = lines.deep_view();
        if i > 0 {
            push_char(&mut out, '\n');
        }
        out.append(lines[i].as_str());
        proof {
            assert(dv[i as int] == lines[i as int]@);
            if i == 0 {
                assert(dv.take(1).len() == 1);
                assert(dv.take(1)[0] == dv[0]);
                assert(out@ =~= join_lines(dv.take(1)));
            } else {
                lemma_join_snoc(dv.take(i as int + 1));
                assert(dv.take(i as int + 1).drop_last() =~~= dv.take(i as int));
                assert(dv.take(i as int + 1).last() == dv[i as int]);
                assert(out@ =~= join_lines(dv.take(i as int + 1)));
            }
        }
        i = i + 1;
    }
    proof {
        assert(lines.deep_view().take(n as int) =~~= lines.deep_view());
    }
    out
}

/// True for the whitespace characters that command input recognizes.
pub open spec fn is_blank(c: char) -> bool {
    c == ' ' || c == '\t' || c == '\r' || c == '\n'
}

/// Executable test matching `is_blank`.
pub fn blank_char(c: char) -> (b: bool)
    ensures
        b == is_blank(c),
{
    c == ' ' || c == '\t' || c == '\r' || c == '\n'
}

/// The text with leading and trailing blanks removed.
pub open spec fn spec_trim(s: Seq<char>) -> Seq<char>
    decreases s.len(),
{
    if s.len() == 0 {
        s
    } else if is_blank(s[0]) {
        spec_trim(s.skip(1))
    } else if is_blank(s.last()) {
        spec_trim(s.drop_last())
    } else {
        s
    }
}

proof fn lemma_trim_front(s: Seq<char>, lo: int, hi: int)
    requires
        0 <= lo < hi <= s.len(),
        is_blank(s[lo]),
    ensures
        spec_trim(s.subrange(lo, hi)) == spec_trim(s.subrange(lo + 1, hi)),
{
    assert(s.subrange(lo, hi).skip(1) =~= s.subrange(lo + 1, hi));
}

proof fn lemma_trim_back(s: Seq<char>, lo: int, hi: int)
    requires
        0 <= lo < hi <= s.len(),
        !is_blank(s[lo]),
        is_blank(s[hi - 1]),
    ensures
        spec_trim(s.subrange(lo, hi)) == spec_trim(s.subrange(lo, hi - 1)),
{
    assert(s.subrange(lo, hi).drop_last() =~= s.subrange(lo, hi - 1));
}

/// Removes leading and trailing blanks.
pub fn trim_string(s: &String) -> (r: String)
    ensures
        r@ == spec_trim(s@),
{
    let n = char_count(s);
    let mut lo: usize = 0;
    let mut hi: usize = n;
    proof {
        assert(s@.subrange(0, n as int) =~= s@);
    }
    while lo < hi && blank_char(s.as_str().get_char(lo))
        invariant
            0 <= lo <= hi <= n,
            n == s@.len(),
            spec_trim(s@) == spec_trim(s@.subrange(lo as int, hi as int)),
        decreases hi - lo,
    {
        proof {
            lemma_trim_front(s@, lo as int, hi as int);
        }
        lo = lo + 1;
    }
    while hi > lo && blank_char(s.as_str().get_char(hi - 1))
        invariant
            0 <= lo <= hi <= n,
            n == s@.len(),
            lo < hi ==> !is_blank(s@[lo as int]),
            spec_trim(s@) == spec_trim(s@.subrange(lo as int, hi as int)),
        decreases hi,
    {
        proof {
            lemma_trim_back(s@, lo as int, hi as int);
        }
        hi = hi - 1;
    }
    let r = s.as_str().substring_char(lo, hi).to_owned();
    proof {
        let sub = s@.subrange(lo as int, hi as int);
        if lo == hi {
            assert(sub.len() == 0);
        } else {
            assert(!is_blank(sub[0]));
            assert(!is_blank(sub.last()));
        }
        assert(r@ =~= sub);
    }
    r
}

/// The blank-separated tokens of the text, in order; each token is a maximal
/// run of non-blank characters.
pub open spec fn spec_tokens(s: Seq<char>) -> Seq<Seq<char>>
    decreases s.len(),
{
    if s.len() == 0 {
        Seq::<Seq<char>>::empty()
    } else if is_blank(s[0]) {
        spec_tokens(s.skip(1))
    } else {
        let rest = spec_tokens(s.skip(1));
        if s.len() > 1 && !is_blank(s[1]) {
            seq![seq![s[0]] + rest[0]] + rest.skip(1)
        } else {
            seq![seq![s[0]]] + rest
        }
    }
}

/// A maximal non-blank run at the front of `s` is the first token, and the
/// rest of the tokens are those of the remainder.
proof fn lemma_tokens_run(s: Seq<char>, k: int)
    requires
        1 <= k <= s.len(),
        forall|i: int| 0 <= i < k ==> !is_blank(#[trigger] s[i]),
        k == s.len() || is_blank(s[k]),
    ensures
        spec_tokens(s) =~~= seq![s.take(k)] + spec_tokens(s.skip(k)),
    decreases k,
{
    if k == 1 {
        if s.len() == 1 {
            assert(spec_tokens(s) =~~= seq![s.take(1)] + spec_tokens(s.skip(1)));
        } else {
            assert(is_blank(s[1]));
            assert(s.take(1) =~= seq![s[0]]);
            assert(spec_tokens(s) =~~= seq![s.take(1)] + spec_tokens(s.skip(1)));
        }
    } else {
        let t = s.skip(1);
        assert(forall|i: int| 0 <= i < k - 1 ==> !is_blank(#[trigger] t[i]));
        assert(k - 1 == t.len() || is_blank(t[k - 1]));
        lemma_tokens_run(t, k - 1);
        let rest = spec_tokens(t);
        assert(rest =~~= seq![t.take(k - 1)] + spec_tokens(t.skip(k - 1)));
        assert(!is_blank(s[1]));
        assert(seq![s[0]] + rest[0] =~= s.take(k));
        assert(rest.skip(1) =~~= spec_tokens(t.skip(k - 1)));
        assert(t.skip(k - 1) =~= s.skip(k));
        assert(spec_tokens(s) =~~= seq![s.take(k)] + spec_tokens(s.skip(k)));
    }
}

/// Splits command input into its blank-separated tokens.
pub fn split_tokens(s: &String) -> (toks: Vec<String>)
    ensures
        toks.deep_view() == spec_tokens(s@),
{
    let n = char_count(s);
    let mut toks: Vec<String> = Vec::new();
    let mut i: usize = 0;
    proof {
        assert(s@.skip(0) =~= s@);
    }
    while i < n
        invariant
            i <= n,
            n == s@.len(),
            spec_tokens(s@) =~~= toks.deep_view() + spec_tokens(s@.skip(i as int)),
        decreases n - i,
    {
        let c = s.as_str().get_char(i);
        if blank_char(c) {
            proof {
                assert(s@.skip(i as int)[0] == s@[i as int]);
                assert(s@.skip(i as int).skip(1) =~= s@.skip(i as int + 1));
            }
            i = i + 1;
        } else {
            let start = i;
            let mut j = i + 1;
            while j < n && !blank_char(s.as_str().get_char(j))
                invariant
                    start < j <= n,
                    n == s@.len(),
                    forall|m: int| start <= m < j ==> !is_blank(#[trigger] s@[m]),
                decreases n - j,
            {
                j = j + 1;
            }
            let tok = s.as_str().substring_char(start, j).to_owned();
            proof {
                let rem = s@.skip(start as int);
                let k = j - start;
                assert(forall|m: int| 0 <= m < k ==> !is_blank(#[trigger] rem[m]));
                assert(k == rem.len() || is_blank(rem[k]));
                lemma_tokens_run(rem, k);
                assert(rem.take(k) =~= s@.subrange(start as int, j as int));
                assert(tok@ == rem.take(k));
                assert(rem.skip(k) =~= s@.skip(j as int));
                assert(toks.deep_view().push(tok@) =~~= toks.deep_view() + seq![tok@]);
            }
            toks.push(tok);
            i = j;
        }
    }
    proof {
        assert(s@.skip(n as int).len() == 0);
    }
    toks
}

/// The decimal digit character for a value below ten.
pub open spec fn digit_char(d: nat) -> char {
    if d == 0 { '0' }
    else if d == 1 { '1' }
    else if d == 2 { '2' }
    else if d == 3 { '3' }
    else if d == 4 { '4' }
    else if d == 5 { '5' }
    else if d == 6 { '6' }
    else if d == 7 { '7' }
    else if d == 8 { '8' }
    else { '9' }
}

/// The decimal representation of `n`, most significant digit first, with no
/// leading zeros (zero itself is `"0"`).
pub open spec fn dec_rep(n: nat) -> Seq<char>
    decreases n,
{
    if n < 10 {
        seq![digit_char(n)]
    } else {
        dec_rep(n / 10).push(digit_char(n % 10))
    }
}

fn digit_char_of(d: u64) -> (c: char)
    requires
        d < 10,
    ensures
        c == digit_char(d as nat),
{
    if d == 0 { '0' }
    else if d == 1 { '1' }
    else if d == 2 { '2' }
    else if d == 3 { '3' }
    else if d == 4 { '4' }
    else if d == 5 { '5' }
    else if d == 6 { '6' }
    else if d == 7 { '7' }
    else if d == 8 { '8' }
    else { '9' }
}

/// Renders a counter in decimal.
pub fn u64_to_string(n: u64) -> (s: String)
    ensures
        s@ == dec_rep(n as nat),
{
    let mut digits: Vec<char> = Vec::new();
    let mut m = n;
    while m >= 10
        invariant
            dec_rep(n as nat) =~= dec_rep(m as nat) + digits@.reverse(),
        decreases m,
    {
        let d = digit_char_of(m % 10);
        proof {
            assert(dec_rep(m as nat) == dec_rep((m as nat) / 10).push(digit_char((m as nat) % 10)));
            assert((dec_rep((m as nat) / 10) + digits@.push(d).reverse()) =~= (dec_rep((m as nat) / 10).push(d) + digits@.reverse()));
            assert((m / 10) as nat == (m as nat) / 10) by {
                assert(m / 10 == (m as nat) / 10);
            }
        }
        digits.push(d);
        m = m / 10;
    }
    let mut s = String::new();
    push_char(&mut s, digit_char_of(m));
    proof {
        assert(dec_rep(m as nat) =~= seq![digit_char(m as nat)]);
        assert(s@ =~= dec_rep(m as nat) + digits@.reverse().take(0));
    }
    let total = digits.len();
    let mut k: usize = 0;
    while k < total
        invariant
            k <= total,
            total == digits@.len(),
            dec_rep(n as nat) =~= dec_rep(m as nat) + digits@.reverse(),
            s@ =~= dec_rep(m as nat) + digits@.reverse().take(k as int),
        decreases total - k,
    {
        let c = digits[total - 1 - k];
        proof {
            assert(digits@.reverse()[k as int] == digits@[total - 1 - k]);
            assert(digits@.reverse().take(k as int + 1) =~= digits@.reverse().take(k as int).push(c));
        }
        push_char(&mut s, c);
        k = k + 1;
    }
    proof {
        assert(digits@.reverse().take(total as int) =~= digits@.reverse());
    }
    s
}

/// A run of `n` spaces.
pub fn spaces(n: usize) -> (s: String)
    ensures
        s@ == Seq::new(n as nat, |i: int| ' '),
{
    let mut s = String::new();
    let mut i: usize = 0;
    while i < n
        invariant
            i <= n,
            s@ =~= Seq::new(i as nat, |j: int| ' '),
        decreases n - i,
    {
        push_char(&mut s, ' ');
        proof {
            assert(s@ =~= Seq::new(i as nat + 1, |j: int| ' '));
        }
        i = i + 1;
    }
    s
}

/// Character-for-character equality of a string with a literal.
pub fn str_equal(a: &String, b: &str) -> (r: bool)
    ensures
        r == (a@ == b@),
{
    *a == b.to_owned()
}

/// Equality of two optional strings by their character content.
pub fn opt_str_equal(a: &Option<String>, b: &Option<String>) -> (r: bool)
    ensures
        r == (a.deep_view() == b.deep_view()),
{
    match (a, b) {
        (Some(x), Some(y)) => {
            let r = *x == *y;
            proof {
                if x@ == y@ {
                    assert(a.deep_view() =~= b.deep_view());
                } else {
                    assert(a.deep_view() != b.deep_view()) by {
                        assert(a.deep_view() == Some(x@));
                        assert(b.deep_view() == Some(y@));
                    }
                }
            }
            r
        },
        (None, None) => true,
        _ => false,
    }
}

/// The first `w` characters of the text, or all of it when it is shorter.
pub open spec fn take_chars(s: Seq<char>, w: nat) -> Seq<char> {
    if s.len() <= w {
        s
    } else {
        s.take(w as int)
    }
}

/// Truncates the text to at most `w` characters.
pub fn truncate_chars(s: &String, w: usize) -> (r: String)
    ensures
        r@ == take_chars(s@, w as nat),
{
    let n = char_count(s);
    if n <= w {
        s.clone()
    } else {
        let r = s.as_str().substring_char(0, w).to_owned();
        proof {
            assert(r@ =~= s@.take(w as int));
        }
        r
    }
}

} // verus!



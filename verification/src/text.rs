//! Character-level string helpers: equality, trimming, decimal rendering and
//! shell quoting.
use vstd::prelude::*;

verus! {

/// Appends one character to a string (`String::push`).
#[verifier::external_body]
pub(crate) fn push_char(s: &mut String, c: char)
    ensures
        final(s)@ == old(s)@.push(c),
{
    s.push(c);
}

/// The characters of `s`, in order.
fn chars_of(s: &str) -> (r: Vec<char>)
    ensures
        r@ == s@,
{
    let mut out: Vec<char> = Vec::new();
    for ch in it: s.chars()
        invariant
            it.seq() == s@,
            out@ == s@.take(it.index() as int),
    {
        out.push(ch);
        assert(s@.take(it.index() + 1) =~= s@.take(it.index() as int).push(ch));
    }
    assert(s@.take(s@.len() as int) =~= s@);
    out
}

/// Whether two string slices hold the same characters.
pub(crate) fn str_eq(a: &str, b: &str) -> (r: bool)
    ensures
        r == (a@ == b@),
{
    let xs = chars_of(a);
    let ys = chars_of(b);
    if xs.len() != ys.len() {
        return false;
    }
    let mut i: usize = 0;
    while i < xs.len()
        invariant
            xs@ == a@,
            ys@ == b@,
            xs@.len() == ys@.len(),
            i <= xs@.len(),
            forall|k: int| 0 <= k < i ==> xs@[k] == ys@[k],
        decreases xs@.len() - i,
    {
        if xs[i] != ys[i] {
            return false;
        }
        i = i + 1;
    }
    assert(a@ =~= b@);
    true
}

/// The characters that carry the Unicode `White_Space` property, which is what
/// `char::is_whitespace` tests for.
pub open spec fn is_unicode_whitespace(c: char) -> bool {
    let n = c as u32;
    ||| 0x09 <= n <= 0x0d
    ||| n == 0x20
    ||| n == 0x85
    ||| n == 0xa0
    ||| n == 0x1680
    ||| 0x2000 <= n <= 0x200a
    ||| n == 0x2028
    ||| n == 0x2029
    ||| n == 0x202f
    ||| n == 0x205f
    ||| n == 0x3000
}

/// `s` without its leading and trailing Unicode whitespace.
pub open spec fn trimmed(s: Seq<char>) -> Seq<char>
    decreases s.len(),
{
    if s.len() > 0 && is_unicode_whitespace(s[0]) {
        trimmed(s.drop_first())
    } else if s.len() > 0 && is_unicode_whitespace(s.last()) {
        trimmed(s.drop_last())
    } else {
        s
    }
}

fn is_whitespace_char(c: char) -> (r: bool)
    ensures
        r == is_unicode_whitespace(c),
{
    let n = c as u32;
    (0x09 <= n && n <= 0x0d) || n == 0x20 || n == 0x85 || n == 0xa0 || n == 0x1680 || (0x2000 <= n
        && n <= 0x200a) || n == 0x2028 || n == 0x2029 || n == 0x202f || n == 0x205f || n == 0x3000
}

proof fn lemma_trimmed_front(s: Seq<char>, k: int)
    requires
        0 <= k <= s.len(),
        forall|i: int| 0 <= i < k ==> is_unicode_whitespace(#[trigger] s[i]),
    ensures
        trimmed(s) == trimmed(s.subrange(k, s.len() as int)),
    decreases k,
{
    if k == 0 {
        assert(s.subrange(0, s.len() as int) =~= s);
    } else {
        let rest = s.drop_first();
        assert forall|i: int| 0 <= i < k - 1 implies is_unicode_whitespace(#[trigger] rest[i]) by {
            assert(rest[i] == s[i + 1]);
        }
        lemma_trimmed_front(rest, k - 1);
        assert(rest.subrange(k - 1, rest.len() as int) =~= s.subrange(k, s.len() as int));
    }
}

proof fn lemma_trimmed_back(s: Seq<char>, q: int)
    requires
        0 <= q <= s.len(),
        s.len() > 0 ==> !is_unicode_whitespace(s[0]),
        q > 0 ==> !is_unicode_whitespace(s[q - 1]),
        forall|i: int| q <= i < s.len() ==> is_unicode_whitespace(#[trigger] s[i]),
    ensures
        trimmed(s) == s.subrange(0, q),
    decreases s.len() - q,
{
    if q == s.len() {
        assert(s.subrange(0, q) =~= s);
    } else {
        assert(is_unicode_whitespace(s[s.len() - 1]));
        let init = s.drop_last();
        assert forall|i: int| q <= i < init.len() implies is_unicode_whitespace(#[trigger] init[i]) by {
            assert(init[i] == s[i]);
        }
        lemma_trimmed_back(init, q);
        assert(init.subrange(0, q) =~= s.subrange(0, q));
    }
}

/// `s` without its leading and trailing whitespace, where whitespace is what
/// carries the Unicode `White_Space` property (as for `str::trim`).
pub(crate) fn trim(s: &str) -> (r: &str)
    ensures
        r@ == trimmed(s@),
{
    let cs = chars_of(s);
    let n = cs.len();
    let mut start: usize = 0;
    while start < n && is_whitespace_char(cs[start])
        invariant
            cs@ == s@,
            n == cs@.len(),
            start <= n,
            forall|i: int| 0 <= i < start ==> is_unicode_whitespace(#[trigger] s@[i]),
        decreases n - start,
    {
        start = start + 1;
    }
    let mut end: usize = n;
    while end > start && is_whitespace_char(cs[end - 1])
        invariant
            cs@ == s@,
            n == cs@.len(),
            start <= end <= n,
            forall|i: int| end <= i < n ==> is_unicode_whitespace(#[trigger] s@[i]),
        decreases end - start,
    {
        end = end - 1;
    }
    proof {
        lemma_trimmed_front(s@, start as int);
        let rest = s@.subrange(start as int, s@.len() as int);
        assert forall|i: int| end - start <= i < rest.len() implies is_unicode_whitespace(#[trigger] rest[i]) by {
            assert(rest[i] == s@[i + start]);
        }
        if rest.len() > 0 {
            assert(rest[0] == s@[start as int]);
        }
        if end > start {
            assert(rest[end - start - 1] == s@[end - 1]);
        }
        lemma_trimmed_back(rest, end - start);
        assert(rest.subrange(0, end - start) =~= s@.subrange(start as int, end as int));
    }
    s.substring_char(start, end)
}

/// The decimal digit for `d < 10`.
pub open spec fn digit_char(d: nat) -> char {
    if d == 0 { '0' }
    else if d == 1 { '1' }
    else if d == 2 { '2' }
    else if d == 3 { '3' }
    else if d == 4 { '4' }
    else if d == 5 { '5' }
    else if d == 6 { '6' }
    else if d == 7 { '7' }
    else if d == 8 { '8' }
    else { '9' }
}

/// The decimal rendering of a natural number, without leading zeros.
pub open spec fn decimal(n: nat) -> Seq<char>
    decreases n,
{
    if n < 10 {
        seq![digit_char(n)]
    } else {
        decimal(n / 10).push(digit_char(n % 10))
    }
}

fn digit(d: u64) -> (c: char)
    requires
        d < 10,
    ensures
        c == digit_char(d as nat),
{
    if d == 0 { '0' }
    else if d == 1 { '1' }
    else if d == 2 { '2' }
    else if d == 3 { '3' }
    else if d == 4 { '4' }
    else if d == 5 { '5' }
    else if d == 6 { '6' }
    else if d == 7 { '7' }
    else if d == 8 { '8' }
    else { '9' }
}

/// Appends the decimal rendering of `n` to `out`.
pub fn push_decimal(out: &mut String, n: u64)
    ensures
        final(out)@ == old(out)@ + decimal(n as nat),
    decreases n,
{
    if n < 10 {
        push_char(out, digit(n));
    } else {
        push_decimal(out, n / 10);
        push_char(out, digit(n % 10));
    }
}

/// The characters of `s` with every single quote spelled `'\''`.
pub open spec fn shell_escaped(s: Seq<char>) -> Seq<char>
    decreases s.len(),
{
    if s.len() == 0 {
        Seq::empty()
    } else {
        let last = s.last();
        let piece = if last == '\'' { seq!['\'', '\\', '\'', '\''] } else { seq![last] };
        shell_escaped(s.drop_last()) + piece
    }
}

/// `s` as one single-quoted shell word.
pub open spec fn shell_quoted(s: Seq<char>) -> Seq<char> {
    seq!['\''] + shell_escaped(s) + seq!['\'']
}

/// How a POSIX shell reads a word made of plain characters, single-quoted
/// runs and backslash-escaped characters; `quoted` says whether reading
/// starts inside a single-quoted run. `None` when a quote is left open or the
/// text holds a character that would end the word.
pub open spec fn shell_word_read(q: Seq<char>, quoted: bool) -> Option<Seq<char>>
    decreases q.len(),
{
    if q.len() == 0 {
        if quoted { None } else { Some(Seq::empty()) }
    } else if quoted {
        if q[0] == '\'' {
            shell_word_read(q.drop_first(), false)
        } else {
            match shell_word_read(q.drop_first(), true) {
                Some(rest) => Some(seq![q[0]] + rest),
                None => None,
            }
        }
    } else if q[0] == '\'' {
        shell_word_read(q.drop_first(), true)
    } else if q[0] == '\\' {
        if q.len() >= 2 {
            match shell_word_read(q.skip(2), false) {
                Some(rest) => Some(seq![q[1]] + rest),
                None => None,
            }
        } else {
            None
        }
    } else {
        None
    }
}

proof fn lemma_shell_escaped_concat(a: Seq<char>, b: Seq<char>)
    ensures
        shell_escaped(a + b) == shell_escaped(a) + shell_escaped(b),
    decreases b.len(),
{
    if b.len() == 0 {
        assert(a + b =~= a);
        assert(shell_escaped(b) =~= Seq::<char>::empty());
        assert(shell_escaped(a) + shell_escaped(b) =~= shell_escaped(a));
    } else {
        lemma_shell_escaped_concat(a, b.drop_last());
        assert((a + b).drop_last() =~= a + b.drop_last());
        assert((a + b).last() == b.last());
    }
}

proof fn lemma_shell_escaped_front(s: Seq<char>)
    requires
        s.len() > 0,
    ensures
        shell_escaped(s) == (if s[0] == '\'' { seq!['\'', '\\', '\'', '\''] } else { seq![s[0]] })
            + shell_escaped(s.drop_first()),
{
    lemma_shell_escaped_concat(seq![s[0]], s.drop_first());
    assert(seq![s[0]] + s.drop_first() =~= s);
    let one = seq![s[0]];
    assert(one.drop_last() =~= Seq::<char>::empty());
    assert(shell_escaped(one.drop_last()) =~= Seq::<char>::empty());
    let piece = if s[0] == '\'' { seq!['\'', '\\', '\'', '\''] } else { seq![s[0]] };
    assert(shell_escaped(one) =~= Seq::<char>::empty() + piece);
}

proof fn lemma_shell_read_escaped(s: Seq<char>)
    ensures
        shell_word_read(shell_escaped(s) + seq!['\''], true) == Some(s),
    decreases s.len(),
{
    if s.len() == 0 {
        assert(shell_escaped(s) + seq!['\''] =~= seq!['\'']);
        assert(seq!['\''].drop_first() =~= Seq::<char>::empty());
        assert(shell_word_read(Seq::<char>::empty(), false) == Some(Seq::<char>::empty()));
        assert(shell_word_read(seq!['\''], true) == Some(Seq::<char>::empty()));
        assert(s =~= Seq::<char>::empty());
    } else {
        let rest = s.drop_first();
        lemma_shell_read_escaped(rest);
        lemma_shell_escaped_front(s);
        let tail = shell_escaped(rest) + seq!['\''];
        if s[0] == '\'' {
            let q = seq!['\'', '\\', '\'', '\''] + tail;
            assert(shell_escaped(s) + seq!['\''] =~= q);
            assert(q.drop_first() =~= seq!['\\', '\'', '\''] + tail);
            assert((seq!['\\', '\'', '\''] + tail).skip(2) =~= seq!['\''] + tail);
            assert((seq!['\''] + tail).drop_first() =~= tail);
            assert(shell_word_read(seq!['\''] + tail, false) == shell_word_read(tail, true));
            assert(shell_word_read(seq!['\\', '\'', '\''] + tail, false) == Some(seq!['\''] + rest));
            assert(shell_word_read(q, true) == Some(seq!['\''] + rest));
            assert(seq![s[0]] + rest =~= s);
        } else {
            let q = seq![s[0]] + tail;
            assert(shell_escaped(s) + seq!['\''] =~= q);
            assert(q.drop_first() =~= tail);
            assert(shell_word_read(q, true) == Some(seq![s[0]] + rest));
            assert(seq![s[0]] + rest =~= s);
        }
    }
}

/// A shell reads the single-quoted word back as the quoted string itself, for
/// every string.
pub proof fn lemma_shell_quote_reads_back(s: Seq<char>)
    ensures
        shell_word_read(shell_quoted(s), false) == Some(s),
{
    lemma_shell_read_escaped(s);
    let q = shell_quoted(s);
    assert(q.drop_first() =~= shell_escaped(s) + seq!['\'']);
}

/// Shell-quote a string for safe inclusion in a single-quoted command segment.
pub fn shell_single_quote(s: &str) -> (out: String)
    ensures
        out@ == shell_quoted(s@),
{
    let mut out = String::new();
    push_char(&mut out, '\'');
    for ch in it: s.chars()
        invariant
            it.seq() == s@,
            out@ == seq!['\''] + shell_escaped(s@.take(it.index() as int)),
    {
        if ch == '\'' {
            push_char(&mut out, '\'');
            push_char(&mut out, '\\');
            push_char(&mut out, '\'');
            push_char(&mut out, '\'');
        } else {
            push_char(&mut out, ch);
        }
        assert(s@.take(it.index() + 1).drop_last() =~= s@.take(it.index() as int));
    }
    assert(s@.take(s@.len() as int) =~= s@);
    push_char(&mut out, '\'');
    out
}

/// The characters an HTTP header value may hold to be read as text: visible
/// ASCII, the space, and the horizontal tab.
pub open spec fn is_visible_header_char(c: char) -> bool {
    c == '\t' || (' ' <= c && c <= '~')
}

/// A header value as text, when every character is one that a header value
/// may hold as text; `None` otherwise.
pub fn header_value_text(value: &str) -> (r: Option<String>)
    ensures
        r is Some <==> forall|i: int| 0 <= i < value@.len() ==> is_visible_header_char(#[trigger] value@[i]),
        r matches Some(t) ==> t@ == value@,
{
    let mut visible = true;
    for ch in it: value.chars()
        invariant
            it.seq() == value@,
            visible <==> forall|i: int| 0 <= i < it.index() ==> is_visible_header_char(#[trigger] value@[i]),
    {
        if !(ch == '\t' || (' ' <= ch && ch <= '~')) {
            visible = false;
        }
    }
    if visible {
        Some(String::from_str(value))
    } else {
        None
    }
}

} // verus!

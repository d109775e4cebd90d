//! Text handling shared by the machines: whitespace, decimal numerals,
//! trimming, and splitting a program source into tokens.
use crate::positional::{horner, lemma_horner_prefix, lemma_horner_step};
use vstd::prelude::*;

verus! {

/// Unicode `White_Space`, the property `char::is_whitespace` tests.
pub open spec fn is_space(c: char) -> bool {
    let u = c as u32;
    ||| 0x9 <= u <= 0xd
    ||| u == 0x20
    ||| u == 0x85
    ||| u == 0xa0
    ||| u == 0x1680
    ||| 0x2000 <= u <= 0x200a
    ||| u == 0x2028
    ||| u == 0x2029
    ||| u == 0x202f
    ||| u == 0x205f
    ||| u == 0x3000
}

/// Whether `c` is whitespace.
pub fn is_whitespace(c: char) -> (r: bool)
    ensures
        r == is_space(c),
{
    let u = c as u32;
    (0x9 <= u && u <= 0xd) || u == 0x20 || u == 0x85 || u == 0xa0 || u == 0x1680 || (0x2000 <= u
        && u <= 0x200a) || u == 0x2028 || u == 0x2029 || u == 0x202f || u == 0x205f || u == 0x3000
}

/// The characters of `s`, in order.
pub fn chars_of(s: &str) -> (v: Vec<char>)
    ensures
        v@ == s@,
{
    let mut v: Vec<char> = Vec::new();
    for c in it: s.chars()
        invariant
            v@ == it.seq().take(it.index() as int),
            it.seq() == s@,
    {
        v.push(c);
    }
    v
}

/// Appends one character to a `String` by std's `String::push`, which vstd
/// gives no contract. The contract claims what its documentation says: the
/// characters afterwards are the ones before followed by `c`.
#[verifier::external_body]
fn push_char(s: &mut String, c: char)
    ensures
        final(s)@ == old(s)@.push(c),
{
    s.push(c);
}

/// The `String` made of the characters `cs`.
pub fn string_of(cs: &[char]) -> (s: String)
    ensures
        s@ == cs@,
{
    let mut s = String::new();
    let mut i: usize = 0;
    while i < cs.len()
        invariant
            i <= cs.len(),
            s@ == cs@.take(i as int),
        decreases cs.len() - i,
    {
        push_char(&mut s, cs[i]);
        i += 1;
        proof {
            assert(cs@.take(i as int) =~= cs@.take(i - 1).push(cs@[i - 1]));
        }
    }
    proof {
        assert(cs@.take(cs.len() as int) =~= cs@);
    }
    s
}

/// Appends the characters of `cs` to `v`.
pub fn append_chars(v: &mut Vec<char>, cs: &[char])
    ensures
        final(v)@ == old(v)@ + cs@,
{
    let ghost start = v@;
    let mut i: usize = 0;
    while i < cs.len()
        invariant
            i <= cs.len(),
            v@ == start + cs@.take(i as int),
        decreases cs.len() - i,
    {
        v.push(cs[i]);
        i += 1;
        proof {
            assert(cs@.take(i as int) =~= cs@.take(i - 1).push(cs@[i - 1]));
            assert(start + cs@.take(i as int) =~= (start + cs@.take(i - 1)).push(cs@[i - 1]));
        }
    }
    proof {
        assert(cs@.take(cs.len() as int) =~= cs@);
    }
}

/// Appends the characters of `s` to `v`.
pub fn append_str(v: &mut Vec<char>, s: &str)
    ensures
        final(v)@ == old(v)@ + s@,
{
    let cs = chars_of(s);
    append_chars(v, cs.as_slice());
}

/// The character for a decimal digit.
pub open spec fn digit_char(d: nat) -> char {
    if d == 0 {
        '0'
    } else if d == 1 {
        '1'
    } else if d == 2 {
        '2'
    } else if d == 3 {
        '3'
    } else if d == 4 {
        '4'
    } else if d == 5 {
        '5'
    } else if d == 6 {
        '6'
    } else if d == 7 {
        '7'
    } else if d == 8 {
        '8'
    } else {
        '9'
    }
}

/// The decimal numeral of `n`, without leading zeros.
pub open spec fn decimal(n: nat) -> Seq<char>
    decreases n,
{
    if n < 10 {
        seq![digit_char(n)]
    } else {
        decimal(n / 10).push(digit_char(n % 10))
    }
}

/// The character for the decimal digit `d`.
pub fn digit_to_char(d: u64) -> (c: char)
    requires
        d < 10,
    ensures
        c == digit_char(d as nat),
{
    if d == 0 {
        '0'
    } else if d == 1 {
        '1'
    } else if d == 2 {
        '2'
    } else if d == 3 {
        '3'
    } else if d == 4 {
        '4'
    } else if d == 5 {
        '5'
    } else if d == 6 {
        '6'
    } else if d == 7 {
        '7'
    } else if d == 8 {
        '8'
    } else {
        '9'
    }
}

/// Appends the decimal numeral of `n` to `v`.
pub fn push_decimal(v: &mut Vec<char>, n: u64)
    ensures
        final(v)@ == old(v)@ + decimal(n as nat),
    decreases n,
{
    if n >= 10 {
        push_decimal(v, n / 10);
    }
    v.push(digit_to_char(n % 10));
    proof {
        if n >= 10 {
            assert(old(v)@ + decimal(n as nat) =~= (old(v)@ + decimal((n / 10) as nat)).push(
                digit_char((n % 10) as nat),
            ));
        } else {
            assert(old(v)@ + decimal(n as nat) =~= old(v)@.push(digit_char((n % 10) as nat)));
        }
    }
}

/// `s` without its leading whitespace.
pub open spec fn trim_start(s: Seq<char>) -> Seq<char>
    decreases s.len(),
{
    if s.len() > 0 && is_space(s[0]) {
        trim_start(s.drop_first())
    } else {
        s
    }
}

/// `s` without its trailing whitespace.
pub open spec fn trim_end(s: Seq<char>) -> Seq<char>
    decreases s.len(),
{
    if s.len() > 0 && is_space(s.last()) {
        trim_end(s.drop_last())
    } else {
        s
    }
}

/// `s` without leading and trailing whitespace, as `str::trim` gives it.
pub open spec fn trim(s: Seq<char>) -> Seq<char> {
    trim_end(trim_start(s))
}

proof fn lemma_trim_start_skip(s: Seq<char>, i: int)
    requires
        0 <= i <= s.len(),
        forall|j: int| 0 <= j < i ==> is_space(#[trigger] s[j]),
        i == s.len() || !is_space(s[i]),
    ensures
        trim_start(s) == s.skip(i),
    decreases i,
{
    if i == 0 {
        assert(s.skip(0) =~= s);
    } else {
        let t = s.drop_first();
        assert forall|j: int| 0 <= j < i - 1 implies is_space(#[trigger] t[j]) by {
            assert(t[j] == s[j + 1]);
        }
        if i < s.len() {
            assert(t[i - 1] == s[i]);
        }
        lemma_trim_start_skip(t, i - 1);
        assert(t.skip(i - 1) =~= s.skip(i));
    }
}

proof fn lemma_trim_end_take(s: Seq<char>, k: int)
    requires
        0 <= k <= s.len(),
        forall|j: int| k <= j < s.len() ==> is_space(#[trigger] s[j]),
        k == 0 || !is_space(s[k - 1]),
    ensures
        trim_end(s) == s.take(k),
    decreases s.len() - k,
{
    if k == s.len() {
        assert(s.take(k) =~= s);
    } else {
        let t = s.drop_last();
        assert(is_space(s[s.len() - 1]));
        assert forall|j: int| k <= j < t.len() implies is_space(#[trigger] t[j]) by {
            assert(t[j] == s[j]);
        }
        if k > 0 {
            assert(t[k - 1] == s[k - 1]);
        }
        lemma_trim_end_take(t, k);
        assert(t.take(k) =~= s.take(k));
    }
}

/// The characters of `cs` without leading and trailing whitespace.
pub fn trim_chars(cs: &[char]) -> (r: Vec<char>)
    ensures
        r@ == trim(cs@),
{
    let n = cs.len();
    let mut i: usize = 0;
    while i < n && is_whitespace(cs[i])
        invariant
            n == cs.len(),
            i <= n,
            forall|j: int| 0 <= j < i ==> is_space(#[trigger] cs@[j]),
        decreases n - i,
    {
        i += 1;
    }
    proof {
        lemma_trim_start_skip(cs@, i as int);
    }
    let ghost t = cs@.skip(i as int);
    let mut k: usize = n;
    while k > i && is_whitespace(cs[k - 1])
        invariant
            n == cs.len(),
            i <= k <= n,
            t == cs@.skip(i as int),
            forall|j: int| k <= j < n ==> is_space(#[trigger] cs@[j]),
        decreases k,
    {
        k -= 1;
    }
    proof {
        assert forall|j: int| k - i <= j < t.len() implies is_space(#[trigger] t[j]) by {
            assert(t[j] == cs@[j + i]);
        }
        if k > i {
            assert(t[k - i - 1] == cs@[k - 1]);
        }
        lemma_trim_end_take(t, k - i);
    }
    let mut r: Vec<char> = Vec::new();
    let mut j: usize = i;
    while j < k
        invariant
            n == cs.len(),
            i <= j <= k <= n,
            r@ == cs@.subrange(i as int, j as int),
        decreases k - j,
    {
        r.push(cs[j]);
        j += 1;
        proof {
            assert(cs@.subrange(i as int, j as int) =~= cs@.subrange(i as int, j - 1).push(
                cs@[j - 1],
            ));
        }
    }
    proof {
        assert(r@ =~= t.take(k - i));
    }
    r
}

/// Whether `c` is one of the ASCII digits `0`..`9`.
pub open spec fn is_ascii_digit(c: char) -> bool {
    '0' <= c <= '9'
}

/// The value of an ASCII digit.
pub open spec fn digit_value(c: char) -> nat {
    (c as u32 - '0' as u32) as nat
}

/// The number an unsigned decimal numeral stands for.
pub open spec fn numeral_value(s: Seq<char>) -> nat {
    horner(s.map_values(|c: char| digit_value(c)), 10)
}

/// `s` without one leading `+`.
pub open spec fn without_plus(s: Seq<char>) -> Seq<char> {
    if s.len() > 0 && s[0] == '+' {
        s.drop_first()
    } else {
        s
    }
}

/// Every character of `s` is an ASCII digit.
pub open spec fn all_ascii_digits(s: Seq<char>) -> bool {
    forall|i: int| 0 <= i < s.len() ==> is_ascii_digit(#[trigger] s[i])
}

/// What `str::parse::<u16>` accepts: an optional `+`, then one or more ASCII
/// digits whose value fits a `u16`.
pub open spec fn parse_u16_spec(s: Seq<char>) -> Option<u16> {
    let d = without_plus(s);
    if d.len() == 0 || !all_ascii_digits(d) || numeral_value(d) > 0xffff {
        None
    } else {
        Some(numeral_value(d) as u16)
    }
}

/// Reads an unsigned decimal numeral the way `str::parse::<u16>` does.
pub fn parse_u16(s: &[char]) -> (r: Option<u16>)
    ensures
        r == parse_u16_spec(s@),
{
    let start: usize = if s.len() > 0 && s[0] == '+' {
        1
    } else {
        0
    };
    let ghost d = without_plus(s@);
    proof {
        assert(d =~= s@.skip(start as int));
    }
    if start >= s.len() {
        return None;
    }
    let ghost vals = d.map_values(|c: char| digit_value(c));
    let mut val: u32 = 0;
    let mut i: usize = start;
    proof {
        assert(vals.take(0).len() == 0);
    }
    while i < s.len()
        invariant
            start <= i <= s.len(),
            d == s@.skip(start as int),
            d == without_plus(s@),
            vals == d.map_values(|c: char| digit_value(c)),
            forall|j: int| 0 <= j < i - start ==> is_ascii_digit(#[trigger] d[j]),
            val == horner(vals.take(i - start), 10),
            val <= 0xffff,
        decreases s.len() - i,
    {
        let c = s[i];
        if !('0' <= c && c <= '9') {
            proof {
                assert(d[i - start] == c);
                assert(!is_ascii_digit(d[i - start]));
                assert(!(forall|j: int| 0 <= j < d.len() ==> is_ascii_digit(#[trigger] d[j])));
                assert(d.len() > 0);

            }
            return None;
        }
        proof {
            assert(d[i - start] == c);
            lemma_horner_step(vals, 10, i - start);
            assert(vals[i - start] == digit_value(c));
        }
        let next = val * 10 + (c as u32 - '0' as u32);
        if next > 0xffff {
            proof {
                assert(next == horner(vals.take(i - start + 1), 10));
                lemma_horner_prefix(vals, 10, i - start + 1);
                assert(vals.take(d.len() as int) =~= vals);
                assert(numeral_value(d) == horner(vals, 10));
                assert(numeral_value(d) > 0xffff);
                assert(d.len() > 0);

            }
            return None;
        }
        val = next;
        i += 1;
    }
    proof {
        assert(vals.take(d.len() as int) =~= vals);
        assert(i - start == d.len());
    }
    Some(val as u16)
}

/// A decimal digit's character is an ASCII digit with that value.
pub proof fn lemma_digit_char(d: nat)
    requires
        d < 10,
    ensures
        is_ascii_digit(digit_char(d)),
        digit_value(digit_char(d)) == d,
        !is_space(digit_char(d)),
{
}

/// A decimal numeral is a non-empty run of ASCII digits that reads back as
/// its number.
pub proof fn lemma_decimal_reads_back(n: nat)
    ensures
        decimal(n).len() >= 1,
        all_ascii_digits(decimal(n)),
        numeral_value(decimal(n)) == n,
    decreases n,
{
    let f = |c: char| digit_value(c);
    if n < 10 {
        lemma_digit_char(n);
        assert(decimal(n).map_values(f) =~= seq![n]);
        assert(seq![n].drop_last() =~= Seq::<nat>::empty());
        assert(horner(Seq::<nat>::empty(), 10) == 0);
        assert(numeral_value(decimal(n)) == horner(seq![n], 10));
    } else {
        lemma_decimal_reads_back(n / 10);
        lemma_digit_char(n % 10);
        let p = decimal(n / 10);
        let s = decimal(n);
        assert(s == p.push(digit_char(n % 10)));
        let ms = s.map_values(f);
        assert(ms.drop_last() =~= p.map_values(f));
        assert(ms.last() == n % 10);
        assert(numeral_value(p) == horner(p.map_values(f), 10));
        assert(numeral_value(s) == horner(ms, 10));
        assert(horner(ms, 10) == horner(ms.drop_last(), 10) * 10 + ms.last());
        assert(n == (n / 10) * 10 + n % 10);
        assert forall|i: int| 0 <= i < s.len() implies is_ascii_digit(#[trigger] s[i]) by {
            if i < p.len() {
                assert(s[i] == p[i]);
            }
        }
    }
}

/// `str::parse::<u16>` reads the decimal numeral of a number up to 65535
/// back as that number.
pub proof fn lemma_parse_u16_decimal(n: nat)
    requires
        n <= 0xffff,
    ensures
        parse_u16_spec(decimal(n)) == Some(n as u16),
{
    lemma_decimal_reads_back(n);
    assert(is_ascii_digit(decimal(n)[0]));
    assert(without_plus(decimal(n)) == decimal(n));
}

/// A text that neither starts nor ends with whitespace is its own trim.
pub proof fn lemma_trim_unspaced(s: Seq<char>)
    requires
        s.len() > 0,
        !is_space(s[0]),
        !is_space(s.last()),
    ensures
        trim(s) == s,
{
    lemma_trim_start_skip(s, 0);
    assert(s.skip(0) =~= s);
    lemma_trim_end_take(s, s.len() as int);
    assert(s.take(s.len() as int) =~= s);
}

/// A word of a program source, with the number (from 1) of the line it is on.
pub struct Token {
    pub line: usize,
    pub text: Vec<char>,
}

/// Progress through a program source: the tokens so far, the current line
/// number, the word being read, and whether the rest of the line is a comment.
pub type ScanState = (Seq<(nat, Seq<char>)>, nat, Seq<char>, bool);

/// Ends the word being read, if any.
pub open spec fn flush(st: ScanState) -> ScanState {
    if st.2.len() > 0 {
        (st.0.push((st.1, st.2)), st.1, Seq::empty(), st.3)
    } else {
        st
    }
}

/// Reads one more character: a newline ends the line and any comment, `;`
/// starts a comment that runs to the end of the line, whitespace ends a word.
pub open spec fn scan_char(st: ScanState, c: char) -> ScanState {
    if c == '\n' {
        let f = flush(st);
        (f.0, f.1 + 1, Seq::empty(), false)
    } else if st.3 {
        st
    } else if c == ';' {
        let f = flush(st);
        (f.0, f.1, f.2, true)
    } else if is_space(c) {
        flush(st)
    } else {
        (st.0, st.1, st.2.push(c), st.3)
    }
}

pub open spec fn scan(s: Seq<char>) -> ScanState
    decreases s.len(),
{
    if s.len() == 0 {
        (Seq::empty(), 1, Seq::empty(), false)
    } else {
        scan_char(scan(s.drop_last()), s.last())
    }
}

/// The words of a program source with their line numbers: each line is cut
/// at its first `;` and split at whitespace, as `str::lines`, `split(';')`
/// and `split_whitespace` cut it.
pub open spec fn program_tokens(s: Seq<char>) -> Seq<(nat, Seq<char>)> {
    flush(scan(s)).0
}

/// A word that the scanner reads whole: non-empty, without whitespace and
/// without `;`.
pub open spec fn plain_word(w: Seq<char>) -> bool {
    &&& w.len() > 0
    &&& forall|i: int| 0 <= i < w.len() ==> !is_space(#[trigger] w[i]) && w[i] != ';'
}

/// Words, each followed by one space, on one line.
pub open spec fn spaced(ws: Seq<Seq<char>>) -> Seq<char>
    decreases ws.len(),
{
    if ws.len() == 0 {
        Seq::empty()
    } else {
        spaced(ws.drop_last()) + ws.last().push(' ')
    }
}

/// Reading a plain word outside a comment adds it to the word being read.
proof fn lemma_scan_word(s: Seq<char>, w: Seq<char>)
    requires
        !scan(s).3,
        forall|i: int| 0 <= i < w.len() ==> !is_space(#[trigger] w[i]) && w[i] != ';',
    ensures
        scan(s + w) == (scan(s).0, scan(s).1, scan(s).2 + w, false),
    decreases w.len(),
{
    if w.len() == 0 {
        assert(s + w =~= s);
        assert(scan(s).2 + w =~= scan(s).2);
    } else {
        let p = w.drop_last();
        assert forall|i: int| 0 <= i < p.len() implies !is_space(#[trigger] p[i]) && p[i] != ';' by {
            assert(p[i] == w[i]);
        }
        lemma_scan_word(s, p);
        let c = w.last();
        assert(!is_space(w[w.len() - 1]) && w[w.len() - 1] != ';');
        assert(c != '\n') by {
            assert(is_space('\n'));
        }
        assert((s + w).drop_last() =~= s + p);
        assert((s + w).last() == c);
        assert(scan(s).2 + p.push(c) =~= (scan(s).2 + p).push(c));
        assert(p.push(c) =~= w);
    }
}

/// The words of plain words written one after another, each followed by a
/// space, are those words, all on line 1.
pub proof fn lemma_program_tokens_spaced(ws: Seq<Seq<char>>)
    requires
        forall|i: int| 0 <= i < ws.len() ==> plain_word(#[trigger] ws[i]),
    ensures
        scan(spaced(ws)) == (ws.map_values(|w: Seq<char>| (1nat, w)), 1nat, Seq::<char>::empty(), false),
        program_tokens(spaced(ws)) == ws.map_values(|w: Seq<char>| (1nat, w)),
    decreases ws.len(),
{
    let f = |w: Seq<char>| (1nat, w);
    if ws.len() == 0 {
        assert(ws.map_values(f) =~= Seq::<(nat, Seq<char>)>::empty());
    } else {
        let p = ws.drop_last();
        let w = ws.last();
        assert forall|i: int| 0 <= i < p.len() implies plain_word(#[trigger] p[i]) by {
            assert(p[i] == ws[i]);
        }
        lemma_program_tokens_spaced(p);
        assert(plain_word(ws[ws.len() - 1]));
        lemma_scan_word(spaced(p), w);
        let t = spaced(p) + w;
        assert(spaced(ws) =~= t.push(' '));
        assert(t.push(' ').drop_last() =~= t);
        assert(is_space(' '));
        assert(Seq::<char>::empty() + w =~= w);
        assert(ws.map_values(f) =~= p.map_values(f).push((1nat, w)));
    }
}

pub open spec fn token_view(t: &Token) -> (nat, Seq<char>) {
    (t.line as nat, t.text@)
}

/// Splits a program source into its words, each with its line number.
pub fn tokenize(src: &[char]) -> (r: Vec<Token>)
    requires
        src@.len() < usize::MAX,
    ensures
        r@.len() == program_tokens(src@).len(),
        forall|k: int| 0 <= k < r@.len() ==> token_view(&#[trigger] r@[k]) == program_tokens(src@)[k],
{
    let mut tokens: Vec<Token> = Vec::new();
    let mut line: usize = 1;
    let mut word: Vec<char> = Vec::new();
    let mut comment = false;
    let mut i: usize = 0;
    while i < src.len()
        invariant
            i <= src.len(),
            src@.len() < usize::MAX,
            1 <= line <= i + 1,
            ({
                let st = scan(src@.take(i as int));
                &&& tokens@.len() == st.0.len()
                &&& forall|k: int| 0 <= k < tokens@.len() ==> token_view(&#[trigger] tokens@[k]) == st.0[k]
                &&& line == st.1
                &&& word@ == st.2
                &&& comment == st.3
            }),
        decreases src.len() - i,
    {
        let c = src[i];
        proof {
            assert(src@.take(i + 1).drop_last() =~= src@.take(i as int));
        }
        if c == '\n' {
            if word.len() > 0 {
                let w = word;
                tokens.push(Token { line, text: w });
                word = Vec::new();
            }
            line += 1;
            comment = false;
        } else if comment {
        } else if c == ';' {
            if word.len() > 0 {
                let w = word;
                tokens.push(Token { line, text: w });
                word = Vec::new();
            }
            comment = true;
        } else if is_whitespace(c) {
            if word.len() > 0 {
                let w = word;
                tokens.push(Token { line, text: w });
                word = Vec::new();
            }
        } else {
            word.push(c);
        }
        i += 1;
    }
    if word.len() > 0 {
        tokens.push(Token { line, text: word });
    }
    proof {
        assert(src@.take(src.len() as int) =~= src@);
    }
    tokens
}

} // verus!

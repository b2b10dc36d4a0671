//! Text utilities shared across the library: whitespace classification and
//! byte-budget truncation that never splits a UTF-8 character.

use vstd::prelude::*;
use vstd::utf8::*;
use vstd::string::*;

verus! {

broadcast use vstd::utf8::encode_utf8_valid_utf8;

/// The whitespace characters the library recognises (the ASCII ones).
pub open spec fn spec_is_space(c: char) -> bool {
    c == ' ' || c == '\t' || c == '\n' || c == '\r' || c == '\x0b' || c == '\x0c'
}

/// Runtime check matching [`spec_is_space`].
pub fn is_space(c: char) -> (r: bool)
    ensures
        r == spec_is_space(c),
{
    c == ' ' || c == '\t' || c == '\n' || c == '\r' || c == '\x0b' || c == '\x0c'
}

/// The largest index `n <= max_len` that is a character boundary of `bytes`.
/// For a byte budget this is where a cut must fall so that no encoded
/// character is split.
pub open spec fn spec_truncation_index(bytes: Seq<u8>, max_len: int) -> int
    recommends
        valid_utf8(bytes),
        0 <= max_len,
    decreases max_len,
{
    if max_len <= 0 {
        0
    } else if max_len <= bytes.len() && is_char_boundary(bytes, max_len) {
        max_len
    } else {
        spec_truncation_index(bytes, max_len - 1)
    }
}

/// Number of bytes kept when `bytes` is cut to at most `max_len` bytes on a
/// character boundary: everything when it already fits, else the largest
/// boundary not past the budget.
pub open spec fn spec_trunc_len(bytes: Seq<u8>, max_len: int) -> int {
    if bytes.len() <= max_len {
        bytes.len() as int
    } else {
        spec_truncation_index(bytes, max_len)
    }
}

/// The characters that remain when a text is cut to a byte budget on a
/// character boundary.
pub open spec fn spec_truncate_chars(s: Seq<char>, max_len: int) -> Seq<char> {
    decode_utf8(encode_utf8(s).take(spec_trunc_len(encode_utf8(s), max_len)))
}

/// A text cut to a byte budget, with `marker` appended whenever a cut was
/// actually made.
pub open spec fn spec_truncate_with_marker(s: Seq<char>, max_len: int, marker: Seq<char>) -> Seq<
    char,
> {
    if encode_utf8(s).len() <= max_len {
        s
    } else {
        spec_truncate_chars(s, max_len) + marker
    }
}

/// Law: a cut to a byte budget lands on a character boundary, within the
/// budget, and the bytes kept are a valid UTF-8 prefix of the original.
pub proof fn lemma_truncation_safe(bytes: Seq<u8>, max_len: int)
    requires
        valid_utf8(bytes),
        0 <= max_len,
    ensures
        0 <= spec_trunc_len(bytes, max_len) <= max_len,
        spec_trunc_len(bytes, max_len) <= bytes.len(),
        is_char_boundary(bytes, spec_trunc_len(bytes, max_len)),
        valid_utf8(bytes.take(spec_trunc_len(bytes, max_len))),
{
    broadcast use vstd::utf8::is_char_boundary_start_end_of_seq;

    if bytes.len() <= max_len {
        assert(bytes.take(bytes.len() as int) =~= bytes);
    } else {
        lemma_truncation_index_props(bytes, max_len);
        let n = spec_truncation_index(bytes, max_len);
        vstd::utf8::valid_utf8_split(bytes, n);
        assert(bytes.take(n) =~= bytes.subrange(0, n));
    }
}

/// Basic bounds of [`spec_truncation_index`]: it stays within `0..=max_len`,
/// within the sequence, and lands on a character boundary.
pub proof fn lemma_truncation_index_props(bytes: Seq<u8>, max_len: int)
    requires
        valid_utf8(bytes),
        0 <= max_len,
    ensures
        0 <= spec_truncation_index(bytes, max_len) <= max_len,
        spec_truncation_index(bytes, max_len) <= bytes.len(),
        is_char_boundary(bytes, spec_truncation_index(bytes, max_len)),
    decreases max_len,
{
    if max_len <= 0 {
    } else if max_len <= bytes.len() && is_char_boundary(bytes, max_len) {
    } else {
        lemma_truncation_index_props(bytes, max_len - 1);
    }
}

/// When every index in `lo < i <= hi` fails to be a boundary, the truncation
/// index below `hi` equals the one below `lo`.
proof fn lemma_truncation_index_skip(bytes: Seq<u8>, lo: int, hi: int)
    requires
        valid_utf8(bytes),
        0 <= lo <= hi,
        forall|i: int| lo < i <= hi ==> !(i <= bytes.len() && is_char_boundary(bytes, i)),
    ensures
        spec_truncation_index(bytes, hi) == spec_truncation_index(bytes, lo),
    decreases hi - lo,
{
    if hi > lo {
        lemma_truncation_index_skip(bytes, lo, hi - 1);
    }
}

/// Cuts `text` to at most `max_len` bytes without splitting a UTF-8
/// character: the longest prefix of the text that fits the budget and ends
/// on a character boundary.
pub fn truncate_at_boundary<'a>(text: &'a str, max_len: usize) -> (r: &'a str)
    ensures
        r.spec_bytes() == text.spec_bytes().take(spec_trunc_len(text.spec_bytes(), max_len as int)),
        r.spec_bytes().len() <= max_len || text.spec_bytes().len() <= max_len,
        valid_utf8(r.spec_bytes()),
        r@ == spec_truncate_chars(text@, max_len as int),
        text.spec_bytes().len() <= max_len ==> r@ == text@,
{
    broadcast use vstd::utf8::is_char_boundary_start_end_of_seq;
    broadcast use vstd::utf8::encode_utf8_decode_utf8;

    let ghost bytes = text.spec_bytes();
    let byte_len = text.as_bytes().len();
    if byte_len <= max_len {
        proof {
            assert(bytes.take(bytes.len() as int) =~= bytes);
        }
        return text;
    }
    let mut end: usize = max_len;
    while !text.is_char_boundary(end) && end > 0
        invariant
            end <= max_len,
            max_len < bytes.len(),
            bytes == text.spec_bytes(),
            valid_utf8(bytes),
            spec_truncation_index(bytes, max_len as int) == spec_truncation_index(
                bytes,
                end as int,
            ),
        decreases end,
    {
        proof {
            lemma_truncation_index_skip(bytes, end as int - 1, end as int);
        }
        end = end - 1;
    }
    proof {
        if end == 0 {
            assert(is_char_boundary(bytes, 0));
        }
        assert(spec_truncation_index(bytes, end as int) == end as int);
        lemma_truncation_index_props(bytes, max_len as int);
        vstd::utf8::valid_utf8_split(bytes, end as int);
    }
    let r = text.split_at(end).0;
    proof {
        assert(r.spec_bytes() =~= bytes.take(end as int));
    }
    r
}

/// Relies on String::push: appends exactly the one character.
#[verifier::external_body]
pub fn push_char(s: &mut String, c: char)
    ensures
        final(s)@ == old(s)@ + seq![c],
{
    s.push(c);
}

/// Cuts `text` to at most `max_len` bytes on a character boundary and marks
/// a cut that was actually made.
pub fn truncate_content(text: &str, max_len: usize) -> (r: String)
    ensures
        r@ == spec_truncate_with_marker(text@, max_len as int, "\n\n[Content truncated...]"@),
{
    let byte_len = text.as_bytes().len();
    if byte_len <= max_len {
        return text.to_owned();
    }
    let prefix = truncate_at_boundary(text, max_len);
    let mut result = prefix.to_owned();
    result.append("\n\n[Content truncated...]");
    result
}

/// Character-wise string equality.
pub fn str_eq(a: &str, b: &str) -> (r: bool)
    ensures
        r == (a@ == b@),
{
    let n = a.unicode_len();
    if n != b.unicode_len() {
        return false;
    }
    for i in 0..n
        invariant
            n == a@.len(),
            n == b@.len(),
            forall|j: int| 0 <= j < i ==> a@[j] == b@[j],
    {
        if a.get_char(i) != b.get_char(i) {
            return false;
        }
    }
    proof {
        assert(a@ =~= b@);
    }
    true
}

/// True when `p` is a prefix of `s`.
pub open spec fn spec_has_prefix(s: Seq<char>, p: Seq<char>) -> bool {
    p.len() <= s.len() && s.take(p.len() as int) == p
}

/// True when `p` is a suffix of `s`.
pub open spec fn spec_has_suffix(s: Seq<char>, p: Seq<char>) -> bool {
    p.len() <= s.len() && s.skip(s.len() - p.len()) == p
}

/// True when `needle` occurs somewhere in `hay`.
pub open spec fn spec_contains_str(hay: Seq<char>, needle: Seq<char>) -> bool {
    exists|i: int|
        0 <= i <= hay.len() - needle.len() && #[trigger] hay.subrange(i, i + needle.len())
            == needle
}

/// Runtime prefix test matching [`spec_has_prefix`].
pub fn has_prefix(s: &str, p: &str) -> (r: bool)
    ensures
        r == spec_has_prefix(s@, p@),
{
    let np = p.unicode_len();
    if np > s.unicode_len() {
        return false;
    }
    for i in 0..np
        invariant
            np == p@.len(),
            np <= s@.len(),
            forall|j: int| 0 <= j < i ==> s@[j] == p@[j],
    {
        if s.get_char(i) != p.get_char(i) {
            proof {
                assert(s@.take(np as int)[i as int] != p@[i as int]);
            }
            return false;
        }
    }
    proof {
        assert(s@.take(np as int) =~= p@);
    }
    true
}

/// Runtime suffix test matching [`spec_has_suffix`].
pub fn has_suffix(s: &str, p: &str) -> (r: bool)
    ensures
        r == spec_has_suffix(s@, p@),
{
    let np = p.unicode_len();
    let ns = s.unicode_len();
    if np > ns {
        return false;
    }
    let off = ns - np;
    for i in 0..np
        invariant
            np == p@.len(),
            ns == s@.len(),
            off == ns - np,
            forall|j: int| 0 <= j < i ==> s@[off + j] == p@[j],
    {
        if s.get_char(off + i) != p.get_char(i) {
            proof {
                assert(s@.skip(off as int)[i as int] != p@[i as int]);
            }
            return false;
        }
    }
    proof {
        assert(s@.skip(off as int) =~= p@);
    }
    true
}

/// True when `hay` matches `needle` starting at position `i`.
spec fn spec_match_at(hay: Seq<char>, needle: Seq<char>, i: int) -> bool {
    0 <= i <= hay.len() - needle.len() && hay.subrange(i, i + needle.len()) == needle
}

/// Runtime substring test matching [`spec_contains_str`].
pub fn contains_str(hay: &str, needle: &str) -> (r: bool)
    ensures
        r == spec_contains_str(hay@, needle@),
{
    let nn = needle.unicode_len();
    let nh = hay.unicode_len();
    if nn > nh {
        return false;
    }
    let last = nh - nn;
    let mut i: usize = 0;
    while i <= last
        invariant
            nn == needle@.len(),
            nh == hay@.len(),
            last == nh - nn,
            i <= last + 1,
            forall|k: int| 0 <= k < i ==> #[trigger] hay@.subrange(k, k + needle@.len()) != needle@,
        decreases last + 1 - i,
    {
        let mut all: bool = true;
        let mut j: usize = 0;
        while j < nn
            invariant
                nn == needle@.len(),
                nh == hay@.len(),
                i <= last,
                last == nh - nn,
                j <= nn,
                all == (forall|t: int| 0 <= t < j ==> hay@[i + t] == needle@[t]),
            decreases nn - j,
        {
            if hay.get_char(i + j) != needle.get_char(j) {
                all = false;
                proof {
                    assert(!(forall|t: int| 0 <= t < j + 1 ==> hay@[i + t] == needle@[t]));
                }
                j = nn;
            } else {
                j = j + 1;
            }
        }
        if all {
            proof {
                assert(hay@.subrange(i as int, i + nn) =~= needle@);
                assert(spec_match_at(hay@, needle@, i as int));
            }
            return true;
        }
        proof {
            if hay@.subrange(i as int, i + nn) == needle@ {
                assert(forall|t: int|
                    0 <= t < nn ==> hay@.subrange(i as int, i + nn)[t] == needle@[t]);
                assert(false);
            }
        }
        i = i + 1;
    }
    false
}

/// `s` with leading whitespace removed.
pub open spec fn spec_trim_start(s: Seq<char>) -> Seq<char>
    decreases s.len(),
{
    if s.len() > 0 && spec_is_space(s[0]) {
        spec_trim_start(s.drop_first())
    } else {
        s
    }
}

/// `s` with trailing whitespace removed.
pub open spec fn spec_trim_end(s: Seq<char>) -> Seq<char>
    decreases s.len(),
{
    if s.len() > 0 && spec_is_space(s.last()) {
        spec_trim_end(s.drop_last())
    } else {
        s
    }
}

/// `s` with whitespace removed from both ends.
pub open spec fn spec_trim(s: Seq<char>) -> Seq<char> {
    spec_trim_end(spec_trim_start(s))
}

/// Runtime trim matching [`spec_trim`].
pub fn trim_str<'a>(s: &'a str) -> (r: &'a str)
    ensures
        r@ == spec_trim(s@),
{
    let n = s.unicode_len();
    proof {
        assert(s@.skip(0) =~= s@);
    }
    let mut a: usize = 0;
    while a < n && is_space(s.get_char(a))
        invariant
            n == s@.len(),
            a <= n,
            spec_trim_start(s@) == spec_trim_start(s@.skip(a as int)),
        decreases n - a,
    {
        proof {
            assert(s@.skip(a as int).drop_first() =~= s@.skip(a as int + 1));
        }
        a = a + 1;
    }
    proof {
        if a == n {
            assert(s@.skip(a as int) =~= Seq::<char>::empty());
        }
        assert(spec_trim_start(s@) == s@.skip(a as int));
    }
    let mut b: usize = n;
    while b > a && is_space(s.get_char(b - 1))
        invariant
            n == s@.len(),
            a <= b <= n,
            spec_trim_start(s@) == s@.skip(a as int),
            spec_trim(s@) == spec_trim_end(s@.subrange(a as int, b as int)),
        decreases b,
    {
        proof {
            assert(s@.subrange(a as int, b as int).drop_last() =~= s@.subrange(
                a as int,
                b as int - 1,
            ));
            assert(s@.subrange(a as int, b as int).last() == s@[b - 1]);
        }
        b = b - 1;
    }
    proof {
        assert(spec_trim_end(s@.subrange(a as int, b as int)) == s@.subrange(a as int, b as int));
    }
    s.substring_char(a, b)
}

/// An ASCII letter mapped to lower case; anything else unchanged.
pub open spec fn spec_lower_char(c: char) -> char {
    if 65 <= c as u32 && c as u32 <= 90 {
        (((c as u32) + 32) as u8) as char
    } else {
        c
    }
}

/// An ASCII letter mapped to upper case; anything else unchanged.
pub open spec fn spec_upper_char(c: char) -> char {
    if 97 <= c as u32 && c as u32 <= 122 {
        (((c as u32) - 32) as u8) as char
    } else {
        c
    }
}

/// `s` with every ASCII letter mapped to lower case.
pub open spec fn spec_to_lower(s: Seq<char>) -> Seq<char> {
    s.map_values(|c: char| spec_lower_char(c))
}

/// `s` with every ASCII letter mapped to upper case.
pub open spec fn spec_to_upper(s: Seq<char>) -> Seq<char> {
    s.map_values(|c: char| spec_upper_char(c))
}

/// Runtime ASCII lower-casing matching [`spec_to_lower`].
pub fn to_ascii_lowercase(s: &str) -> (r: String)
    ensures
        r@ == spec_to_lower(s@),
{
    let n = s.unicode_len();
    let mut out = String::new();
    for i in 0..n
        invariant
            n == s@.len(),
            out@ == spec_to_lower(s@.take(i as int)),
    {
        let c = s.get_char(i);
        let l: char = if 65 <= c as u32 && c as u32 <= 90 {
            (((c as u32) + 32) as u8) as char
        } else {
            c
        };
        push_char(&mut out, l);
        proof {
            assert(spec_to_lower(s@.take(i + 1)) =~= spec_to_lower(s@.take(i as int)) + seq![
                spec_lower_char(s@[i as int]),
            ]);
        }
    }
    proof {
        assert(s@.take(n as int) =~= s@);
    }
    out
}

/// Runtime ASCII upper-casing matching [`spec_to_upper`].
pub fn to_ascii_uppercase(s: &str) -> (r: String)
    ensures
        r@ == spec_to_upper(s@),
{
    let n = s.unicode_len();
    let mut out = String::new();
    for i in 0..n
        invariant
            n == s@.len(),
            out@ == spec_to_upper(s@.take(i as int)),
    {
        let c = s.get_char(i);
        let u: char = if 97 <= c as u32 && c as u32 <= 122 {
            (((c as u32) - 32) as u8) as char
        } else {
            c
        };
        push_char(&mut out, u);
        proof {
            assert(spec_to_upper(s@.take(i + 1)) =~= spec_to_upper(s@.take(i as int)) + seq![
                spec_upper_char(s@[i as int]),
            ]);
        }
    }
    proof {
        assert(s@.take(n as int) =~= s@);
    }
    out
}

/// Decimal digits of `n`, most significant first.
pub open spec fn spec_decimal(n: nat) -> Seq<char>
    decreases n,
{
    if n < 10 {
        seq![((48 + n) as u8) as char]
    } else {
        spec_decimal(n / 10) + seq![((48 + n % 10) as u8) as char]
    }
}

/// Decimal rendering of a number, matching [`spec_decimal`].
pub fn u32_to_string(n: u32) -> (r: String)
    ensures
        r@ == spec_decimal(n as nat),
    decreases n,
{
    if n < 10 {
        let mut s = String::new();
        push_char(&mut s, ((48 + n) as u8) as char);
        s
    } else {
        let mut s = u32_to_string(n / 10);
        push_char(&mut s, ((48 + n % 10) as u8) as char);
        s
    }
}

/// Words joined with single spaces.
pub open spec fn spec_join_words(words: Seq<Seq<char>>) -> Seq<char>
    decreases words.len(),
{
    if words.len() == 0 {
        Seq::empty()
    } else if words.len() == 1 {
        words[0]
    } else {
        spec_join_words(words.drop_last()) + seq![' '] + words.last()
    }
}

/// Joins `words` with single spaces, matching [`spec_join_words`].
pub fn join_words(words: &Vec<String>) -> (r: String)
    ensures
        r@ == spec_join_words(words.deep_view()),
{
    let ghost all = words.deep_view();
    let mut out = String::new();
    proof {
        reveal_strlit(" ");
        assert(all.take(0) =~= Seq::<Seq<char>>::empty());
    }
    for i in 0..words.len()
        invariant
            all == words.deep_view(),
            all.len() == words.len(),
            forall|j: int| 0 <= j < all.len() ==> all[j] == #[trigger] words[j]@,
            out@ == spec_join_words(all.take(i as int)),
    {
        if i > 0 {
            out.append(" ");
        }
        out.append(words[i].as_str());
        proof {
            reveal_strlit(" ");
            assert(all.take(i + 1).drop_last() =~= all.take(i as int));
            assert(all.take(i + 1).last() == all[i as int]);
            if i > 0 {
                assert(" "@ =~= seq![' ']);
            }
        }
    }
    proof {
        assert(all.take(words.len() as int) =~= all);
    }
    out
}

/// A line with one trailing carriage return removed.
pub open spec fn spec_strip_cr(l: Seq<char>) -> Seq<char> {
    if l.len() > 0 && l.last() == '\r' {
        l.drop_last()
    } else {
        l
    }
}

/// The lines of `s` from position `i` on, with `cur` the part of the current
/// line already read: split at newlines, a carriage return before a newline
/// dropped, and no final empty line after a trailing newline.
pub open spec fn spec_lines_from(s: Seq<char>, i: int, cur: Seq<char>) -> Seq<Seq<char>>
    decreases s.len() - i,
{
    if i < 0 || i >= s.len() {
        if cur.len() == 0 {
            Seq::empty()
        } else {
            seq![cur]
        }
    } else if s[i] == '\n' {
        seq![spec_strip_cr(cur)] + spec_lines_from(s, i + 1, Seq::empty())
    } else {
        spec_lines_from(s, i + 1, cur.push(s[i]))
    }
}

/// The lines of a text.
pub open spec fn spec_lines(s: Seq<char>) -> Seq<Seq<char>> {
    spec_lines_from(s, 0, Seq::empty())
}

/// Splits a text into lines, matching [`spec_lines`].
pub fn split_lines(text: &str) -> (r: Vec<String>)
    ensures
        r.deep_view() == spec_lines(text@),
{
    let n = text.unicode_len();
    let mut out: Vec<String> = Vec::new();
    let mut cur = String::new();
    for i in 0..n
        invariant
            n == text@.len(),
            out.deep_view() + spec_lines_from(text@, i as int, cur@) == spec_lines(text@),
    {
        let c = text.get_char(i);
        if c == '\n' {
            let ghost prev_out = out.deep_view();
            let ghost prev_cur = cur@;
            let cur_len = cur.as_str().unicode_len();
            let stripped_len: usize = if cur_len > 0 && cur.as_str().get_char(cur_len - 1)
                == '\r' {
                cur_len - 1
            } else {
                cur_len
            };
            let line = cur.as_str().substring_char(0, stripped_len).to_owned();
            proof {
                assert(line@ =~= spec_strip_cr(prev_cur));
            }
            out.push(line);
            cur = String::new();
            proof {
                assert(out.deep_view() =~= prev_out.push(spec_strip_cr(prev_cur)));
                assert(prev_out.push(spec_strip_cr(prev_cur)) + spec_lines_from(
                    text@,
                    i + 1,
                    Seq::empty(),
                ) =~= prev_out + (seq![spec_strip_cr(prev_cur)] + spec_lines_from(
                    text@,
                    i + 1,
                    Seq::empty(),
                )));
            }
        } else {
            let ghost prev_cur = cur@;
            push_char(&mut cur, c);
            proof {
                assert(cur@ =~= prev_cur.push(text@[i as int]));
            }
        }
    }
    if cur.as_str().unicode_len() > 0 {
        out.push(cur);
    }
    proof {
        assert(out.deep_view() =~= spec_lines(text@));
    }
    out
}

/// True for an ASCII letter, the terminator of an ANSI control sequence.
pub open spec fn spec_is_ascii_alpha(c: char) -> bool {
    (65 <= c as u32 && c as u32 <= 90) || (97 <= c as u32 && c as u32 <= 122)
}

/// State of the escape-stripping automaton: plain text, just after an
/// escape byte, or inside a bracketed control sequence.
pub enum StripState {
    /// Plain text.
    Plain,
    /// An escape character was just read.
    AfterEscape,
    /// Inside a control sequence, waiting for its letter terminator.
    InSequence,
}

/// One step of the escape-stripping automaton: the next state and the
/// characters emitted for `c`.
pub open spec fn spec_strip_step(st: StripState, c: char) -> (StripState, Seq<char>) {
    match st {
        StripState::Plain => if c == '\u{1b}' {
            (StripState::AfterEscape, Seq::empty())
        } else {
            (StripState::Plain, seq![c])
        },
        StripState::AfterEscape => if c == '[' {
            (StripState::InSequence, Seq::empty())
        } else if c == '\u{1b}' {
            (StripState::AfterEscape, Seq::empty())
        } else {
            (StripState::Plain, seq![c])
        },
        StripState::InSequence => if spec_is_ascii_alpha(c) {
            (StripState::Plain, Seq::empty())
        } else {
            (StripState::InSequence, Seq::empty())
        },
    }
}

/// What the escape-stripping automaton emits for `s` from position `i` on,
/// starting in state `st`.
pub open spec fn spec_strip_escapes_from(s: Seq<char>, i: int, st: StripState) -> Seq<char>
    decreases s.len() - i,
{
    if i < 0 || i >= s.len() {
        Seq::empty()
    } else {
        spec_strip_step(st, s[i]).1 + spec_strip_escapes_from(s, i + 1, spec_strip_step(st, s[i]).0)
    }
}

/// `s` with ANSI escape sequences removed.
pub open spec fn spec_strip_escapes(s: Seq<char>) -> Seq<char> {
    spec_strip_escapes_from(s, 0, StripState::Plain)
}

/// One step of whitespace collapsing, given whether the previous character
/// was whitespace and whether it was a newline: the new flags and the
/// characters emitted for `c`.
pub open spec fn spec_collapse_step(prev_ws: bool, prev_nl: bool, c: char) -> (
    bool,
    bool,
    Seq<char>,
) {
    if c == '\n' {
        if !prev_nl {
            (true, true, seq!['\n'])
        } else {
            (true, true, Seq::empty())
        }
    } else if spec_is_space(c) {
        if !prev_ws {
            (true, false, seq![' '])
        } else {
            (true, false, Seq::empty())
        }
    } else {
        (false, false, seq![c])
    }
}

/// What whitespace collapsing emits for `s` from position `i` on.
pub open spec fn spec_collapse_from(s: Seq<char>, i: int, prev_ws: bool, prev_nl: bool) -> Seq<
    char,
>
    decreases s.len() - i,
{
    if i < 0 || i >= s.len() {
        Seq::empty()
    } else {
        spec_collapse_step(prev_ws, prev_nl, s[i]).2 + spec_collapse_from(
            s,
            i + 1,
            spec_collapse_step(prev_ws, prev_nl, s[i]).0,
            spec_collapse_step(prev_ws, prev_nl, s[i]).1,
        )
    }
}

/// `s` with runs of whitespace collapsed: a run holding a newline keeps one
/// newline, any other run becomes one space.
pub open spec fn spec_collapse_whitespace(s: Seq<char>) -> Seq<char> {
    spec_collapse_from(s, 0, false, false)
}

/// A page as handed to the model: ANSI escapes removed, then whitespace
/// runs collapsed.
pub open spec fn spec_clean_page(s: Seq<char>) -> Seq<char> {
    spec_collapse_whitespace(spec_strip_escapes(s))
}

/// Removes ANSI escape sequences and collapses whitespace runs, matching
/// [`spec_clean_page`].
pub fn clean_escape_sequences(text: &str) -> (r: String)
    ensures
        r@ == spec_clean_page(text@),
{
    let n = text.unicode_len();
    let mut stripped = String::new();
    let mut st = StripState::Plain;
    for i in 0..n
        invariant
            n == text@.len(),
            stripped@ + spec_strip_escapes_from(text@, i as int, st) == spec_strip_escapes(text@),
    {
        let c = text.get_char(i);
        let cu = c as u32;
        match st {
            StripState::Plain => {
                if c == '\u{1b}' {
                    st = StripState::AfterEscape;
                } else {
                    push_char(&mut stripped, c);
                }
            },
            StripState::AfterEscape => {
                if c == '[' {
                    st = StripState::InSequence;
                } else if c == '\u{1b}' {
                    st = StripState::AfterEscape;
                } else {
                    push_char(&mut stripped, c);
                    st = StripState::Plain;
                }
            },
            StripState::InSequence => {
                if (65 <= cu && cu <= 90) || (97 <= cu && cu <= 122) {
                    st = StripState::Plain;
                } else {
                    st = StripState::InSequence;
                }
            },
        }
        proof {
            assert(stripped@ + spec_strip_escapes_from(text@, i + 1, st) =~= spec_strip_escapes(
                text@,
            ));
        }
    }
    let ns = stripped.as_str().unicode_len();
    let mut normalized = String::new();
    let mut prev_ws = false;
    let mut prev_nl = false;
    for i in 0..ns
        invariant
            ns == stripped@.len(),
            normalized@ + spec_collapse_from(stripped@, i as int, prev_ws, prev_nl)
                == spec_collapse_whitespace(stripped@),
    {
        let c = stripped.as_str().get_char(i);
        if c == '\n' {
            if !prev_nl {
                push_char(&mut normalized, '\n');
            }
            prev_ws = true;
            prev_nl = true;
        } else if is_space(c) {
            if !prev_ws {
                push_char(&mut normalized, ' ');
            }
            prev_ws = true;
            prev_nl = false;
        } else {
            push_char(&mut normalized, c);
            prev_ws = false;
            prev_nl = false;
        }
        proof {
            assert(normalized@ + spec_collapse_from(stripped@, i + 1, prev_ws, prev_nl)
                =~= spec_collapse_whitespace(stripped@));
        }
    }
    proof {
        assert(stripped@ == spec_strip_escapes(text@));
        assert(normalized@ =~= spec_clean_page(text@));
    }
    normalized
}

/// True when some element of `v` reads `s`.
pub fn vec_contains_str(v: &Vec<String>, s: &str) -> (r: bool)
    ensures
        r == v.deep_view().to_set().contains(s@),
{
    let ghost views = v.deep_view();
    for i in 0..v.len()
        invariant
            views == v.deep_view(),
            views.len() == v.len(),
            forall|j: int| 0 <= j < views.len() ==> views[j] == #[trigger] v[j]@,
            forall|j: int| 0 <= j < i ==> views[j] != s@,
    {
        if str_eq(v[i].as_str(), s) {
            proof {
                assert(views.contains(s@));
            }
            return true;
        }
    }
    proof {
        if views.to_set().contains(s@) {
            let k = choose|k: int| 0 <= k < views.len() && views[k] == s@;
            assert(false);
        }
    }
    false
}

/// The byte length of a text in UTF-8.
pub open spec fn spec_byte_len(s: Seq<char>) -> nat {
    encode_utf8(s).len()
}

/// UTF-8 encoding distributes over concatenation.
pub proof fn lemma_encode_concat(a: Seq<char>, b: Seq<char>)
    ensures
        encode_utf8(a + b) == encode_utf8(a) + encode_utf8(b),
    decreases a.len(),
{
    if a.len() == 0 {
        assert(a + b =~= b);
        assert(encode_utf8(a) + encode_utf8(b) =~= encode_utf8(b));
    } else {
        lemma_encode_concat(a.drop_first(), b);
        assert((a + b).drop_first() =~= a.drop_first() + b);
        assert(encode_scalar(a[0] as u32) + (encode_utf8(a.drop_first()) + encode_utf8(b))
            =~= (encode_scalar(a[0] as u32) + encode_utf8(a.drop_first())) + encode_utf8(b));
    }
}

} // verus!

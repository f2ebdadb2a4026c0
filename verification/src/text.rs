//! Text primitives for the configuration file format: line splitting,
//! whitespace trimming, string escaping and decimal numbers, each with the
//! lemmas that make the write/read round trip provable.

use vstd::prelude::*;

verus! {

// ---------------------------------------------------------------------------
// searching
// ---------------------------------------------------------------------------

/// Index of the first occurrence of `c` in `s`, or `-1` when absent.
pub open spec fn find_char(s: Seq<char>, c: char) -> int
    decreases s.len(),
{
    if s.len() == 0 {
        -1
    } else if s[0] == c {
        0
    } else {
        let r = find_char(s.drop_first(), c);
        if r < 0 {
            -1
        } else {
            r + 1
        }
    }
}

pub proof fn lemma_find_char_props(s: Seq<char>, c: char)
    ensures
        find_char(s, c) == -1 ==> forall|i: int| 0 <= i < s.len() ==> s[i] != c,
        find_char(s, c) >= 0 ==> {
            &&& find_char(s, c) < s.len()
            &&& s[find_char(s, c)] == c
            &&& forall|i: int| 0 <= i < find_char(s, c) ==> s[i] != c
        },
    decreases s.len(),
{
    if s.len() > 0 && s[0] != c {
        let s2 = s.drop_first();
        lemma_find_char_props(s2, c);
        if find_char(s, c) == -1 {
            assert forall|i: int| 0 <= i < s.len() implies s[i] != c by {
                if i > 0 {
                    assert(s[i] == s2[i - 1]);
                }
            }
        } else {
            let r = find_char(s, c);
            assert(s[r] == s2[r - 1]);
            assert forall|i: int| 0 <= i < r implies s[i] != c by {
                if i > 0 {
                    assert(s[i] == s2[i - 1]);
                }
            }
        }
    }
}

/// In `a + [c] + b`, the first occurrence of `c` is right after `a` when
/// `a` does not hold `c`.
pub proof fn lemma_find_char_concat(a: Seq<char>, b: Seq<char>, c: char)
    requires
        forall|i: int| 0 <= i < a.len() ==> a[i] != c,
    ensures
        find_char(a + seq![c] + b, c) == a.len(),
    decreases a.len(),
{
    let s = a + seq![c] + b;
    if a.len() == 0 {
        assert(s[0] == c);
    } else {
        assert(s[0] == a[0]);
        assert(s[0] != c);
        let a2 = a.drop_first();
        assert(forall|i: int| 0 <= i < a2.len() ==> a2[i] != c);
        lemma_find_char_concat(a2, b, c);
        assert(s.drop_first() =~= a2 + seq![c] + b);
    }
}

// ---------------------------------------------------------------------------
// whitespace
// ---------------------------------------------------------------------------

/// Space or horizontal tab.
pub open spec fn is_ws(c: char) -> bool {
    c == ' ' || c == '\t'
}

/// `s` without its leading whitespace.
pub open spec fn trim_start(s: Seq<char>) -> Seq<char>
    decreases s.len(),
{
    if s.len() > 0 && is_ws(s[0]) {
        trim_start(s.drop_first())
    } else {
        s
    }
}

/// `s` without its trailing whitespace.
pub open spec fn trim_end(s: Seq<char>) -> Seq<char>
    decreases s.len(),
{
    if s.len() > 0 && is_ws(s.last()) {
        trim_end(s.drop_last())
    } else {
        s
    }
}

/// `s` without leading and trailing whitespace.
pub open spec fn trim(s: Seq<char>) -> Seq<char> {
    trim_end(trim_start(s))
}

pub proof fn lemma_trim_start_skip(s: Seq<char>, k: int)
    requires
        0 <= k <= s.len(),
        forall|i: int| 0 <= i < k ==> is_ws(#[trigger] s[i]),
        k < s.len() ==> !is_ws(s[k]),
    ensures
        trim_start(s) == s.skip(k),
    decreases k,
{
    if k == 0 {
        if s.len() > 0 {
            assert(!is_ws(s[0]));
        }
        assert(s.skip(0) =~= s);
    } else {
        assert(is_ws(s[0]));
        let s2 = s.drop_first();
        lemma_trim_start_skip(s2, k - 1);
        assert(s2.skip(k - 1) =~= s.skip(k));
    }
}

pub proof fn lemma_trim_end_take(s: Seq<char>, k: int)
    requires
        0 <= k <= s.len(),
        forall|i: int| k <= i < s.len() ==> is_ws(#[trigger] s[i]),
        k > 0 ==> !is_ws(s[k - 1]),
    ensures
        trim_end(s) == s.take(k),
    decreases s.len() - k,
{
    if k == s.len() {
        if s.len() > 0 {
            assert(!is_ws(s.last()));
        }
        assert(s.take(k) =~= s);
    } else {
        assert(is_ws(s.last()));
        let s2 = s.drop_last();
        lemma_trim_end_take(s2, k);
        assert(s2.take(k) =~= s.take(k));
    }
}

/// The head of a non-empty trim-start result is not whitespace.
pub proof fn lemma_trim_start_head(s: Seq<char>)
    ensures
        trim_start(s).len() > 0 ==> !is_ws(trim_start(s)[0]),
    decreases s.len(),
{
    if s.len() > 0 && is_ws(s[0]) {
        lemma_trim_start_head(s.drop_first());
    }
}

/// Trim-start keeps a suffix: in particular the last character survives.
pub proof fn lemma_trim_start_is_suffix(s: Seq<char>)
    ensures
        trim_start(s).len() <= s.len(),
        trim_start(s).len() > 0 ==> trim_start(s).last() == s.last(),
    decreases s.len(),
{
    if s.len() > 0 && is_ws(s[0]) {
        lemma_trim_start_is_suffix(s.drop_first());
        if trim_start(s).len() > 0 {
            assert(s.drop_first().last() == s.last());
        }
    }
}

/// Trim-end keeps a prefix: every surviving index reads as in the input,
/// and the last surviving character is not whitespace.
pub proof fn lemma_trim_end_is_prefix(s: Seq<char>)
    ensures
        trim_end(s).len() <= s.len(),
        forall|i: int| 0 <= i < trim_end(s).len() ==> #[trigger] trim_end(s)[i] == s[i],
        trim_end(s).len() > 0 ==> !is_ws(trim_end(s).last()),
    decreases s.len(),
{
    if s.len() > 0 && is_ws(s.last()) {
        lemma_trim_end_is_prefix(s.drop_last());
        assert(forall|i: int| 0 <= i < s.len() - 1 ==> #[trigger] s.drop_last()[i] == s[i]);
    }
}

/// A non-empty trimmed string neither starts nor ends with whitespace.
pub proof fn lemma_trim_props(s: Seq<char>)
    ensures
        trim(s).len() > 0 ==> !is_ws(trim(s)[0]),
        trim(s).len() > 0 ==> !is_ws(trim(s).last()),
    decreases s.len(),
{
    let ts = trim_start(s);
    lemma_trim_start_head(s);
    lemma_trim_end_is_prefix(ts);
    if trim(s).len() > 0 {
        assert(trim(s)[0] == ts[0]);
    }
}

/// Trimming a string whose ends are not whitespace changes nothing.
pub proof fn lemma_trim_id(s: Seq<char>)
    requires
        s.len() > 0,
        !is_ws(s[0]),
        !is_ws(s.last()),
    ensures
        trim(s) == s,
{
    lemma_trim_start_skip(s, 0);
    assert(s.skip(0) =~= s);
    lemma_trim_end_take(s, s.len() as int);
    assert(s.take(s.len() as int) =~= s);
}

// ---------------------------------------------------------------------------
// string escaping
// ---------------------------------------------------------------------------

/// How one character is written inside a quoted string.
pub open spec fn escape_char(c: char) -> Seq<char> {
    if c == '"' {
        seq!['\\', '"']
    } else if c == '\\' {
        seq!['\\', '\\']
    } else if c == '\n' {
        seq!['\\', 'n']
    } else if c == '\r' {
        seq!['\\', 'r']
    } else if c == '\t' {
        seq!['\\', 't']
    } else {
        seq![c]
    }
}

/// The quoted-string body for `s`.
pub open spec fn escape(s: Seq<char>) -> Seq<char>
    decreases s.len(),
{
    if s.len() == 0 {
        Seq::empty()
    } else {
        escape_char(s[0]) + escape(s.drop_first())
    }
}

/// The value a quoted-string body denotes, or `None` on a bad escape or a
/// raw quote.
pub open spec fn unescape(s: Seq<char>) -> Option<Seq<char>>
    decreases s.len(),
{
    if s.len() == 0 {
        Some(Seq::empty())
    } else if s[0] == '\\' {
        if s.len() >= 2 {
            let decoded = if s[1] == '"' {
                Some('"')
            } else if s[1] == '\\' {
                Some('\\')
            } else if s[1] == 'n' {
                Some('\n')
            } else if s[1] == 'r' {
                Some('\r')
            } else if s[1] == 't' {
                Some('\t')
            } else {
                None
            };
            match decoded {
                Some(c) => match unescape(s.skip(2)) {
                    Some(rest) => Some(seq![c] + rest),
                    None => None,
                },
                None => None,
            }
        } else {
            None
        }
    } else if s[0] == '"' {
        None
    } else {
        match unescape(s.drop_first()) {
            Some(rest) => Some(seq![s[0]] + rest),
            None => None,
        }
    }
}

/// The escaped form never holds a raw newline, quote, or backslash outside
/// an escape pair.
pub proof fn lemma_escape_no_newline(s: Seq<char>)
    ensures
        forall|i: int| 0 <= i < escape(s).len() ==> #[trigger] escape(s)[i] != '\n',
    decreases s.len(),
{
    if s.len() > 0 {
        lemma_escape_no_newline(s.drop_first());
        assert forall|i: int| 0 <= i < escape(s).len() implies #[trigger] escape(s)[i]
            != '\n' by {
            let head = escape_char(s[0]);
            if i < head.len() {
                assert(escape(s)[i] == head[i]);
            } else {
                assert(escape(s)[i] == escape(s.drop_first())[i - head.len()]);
            }
        }
    }
}

/// Reading back an escaped string gives the original: the escape and
/// unescape functions are inverse on every string.
pub proof fn lemma_unescape_escape(s: Seq<char>)
    ensures
        unescape(escape(s)) == Some(s),
    decreases s.len(),
{
    if s.len() == 0 {
        assert(escape(s) =~= Seq::<char>::empty());
    } else {
        let c = s[0];
        let head = escape_char(c);
        let tail = escape(s.drop_first());
        lemma_unescape_escape(s.drop_first());
        let e = escape(s);
        assert(e == head + tail);
        if c == '"' || c == '\\' || c == '\n' || c == '\r' || c == '\t' {
            assert(e[0] == '\\');
            assert(e.len() >= 2);
            assert(e[1] == head[1]);
            assert(e.skip(2) =~= tail);
            assert(unescape(e) == Some(seq![c] + s.drop_first()));
            assert(seq![c] + s.drop_first() =~= s);
        } else {
            assert(e[0] == c);
            assert(c != '\\' && c != '"');
            assert(e.drop_first() =~= tail);
            assert(unescape(e) == Some(seq![c] + s.drop_first()));
            assert(seq![c] + s.drop_first() =~= s);
        }
    }
}

// ---------------------------------------------------------------------------
// decimal numbers
// ---------------------------------------------------------------------------

/// A decimal digit.
pub open spec fn is_digit(c: char) -> bool {
    '0' <= c && c <= '9'
}

/// The value of one digit character.
pub open spec fn digit_val(c: char) -> int {
    c as int - '0' as int
}

/// The digit character for a value below ten.
pub open spec fn digit_of(d: int) -> char {
    if d == 0 {
        '0'
    } else if d == 1 {
        '1'
    } else if d == 2 {
        '2'
    } else if d == 3 {
        '3'
    } else if d == 4 {
        '4'
    } else if d == 5 {
        '5'
    } else if d == 6 {
        '6'
    } else if d == 7 {
        '7'
    } else if d == 8 {
        '8'
    } else {
        '9'
    }
}

/// The decimal rendering of `n`, most significant digit first.
pub open spec fn u64_digits(n: u64) -> Seq<char>
    decreases n,
{
    if n < 10 {
        seq![digit_of(n as int)]
    } else {
        u64_digits(n / 10).push(digit_of((n % 10) as int))
    }
}

/// The numeric value of a digit string (0 for the empty string).
pub open spec fn digits_val(s: Seq<char>) -> int
    decreases s.len(),
{
    if s.len() == 0 {
        0
    } else {
        digits_val(s.drop_last()) * 10 + digit_val(s.last())
    }
}

/// Whether every character of `s` is a digit.
pub open spec fn all_digits(s: Seq<char>) -> bool {
    forall|i: int| 0 <= i < s.len() ==> is_digit(#[trigger] s[i])
}

/// The number a digit string denotes, or `None` when it is empty, holds a
/// non-digit, or exceeds the 64-bit range.
pub open spec fn parse_u64_spec(s: Seq<char>) -> Option<u64> {
    if s.len() > 0 && all_digits(s) && digits_val(s) <= u64::MAX {
        Some(digits_val(s) as u64)
    } else {
        None
    }
}

pub proof fn lemma_u64_digits_all_digits(n: u64)
    ensures
        u64_digits(n).len() > 0,
        all_digits(u64_digits(n)),
    decreases n,
{
    if n >= 10 {
        lemma_u64_digits_all_digits(n / 10);
        let s = u64_digits(n);
        let p = u64_digits(n / 10);
        assert forall|i: int| 0 <= i < s.len() implies is_digit(#[trigger] s[i]) by {
            if i < p.len() {
                assert(s[i] == p[i]);
            }
        }
    }
}

pub proof fn lemma_digits_val_of_u64(n: u64)
    ensures
        digits_val(u64_digits(n)) == n,
    decreases n,
{
    if n < 10 {
        let s = u64_digits(n);
        assert(s =~= seq![digit_of(n as int)]);
        assert(s.len() == 1);
        assert(s.last() == digit_of(n as int));
        assert(s.drop_last() =~= Seq::<char>::empty());
        assert(digits_val(s.drop_last()) == 0);
        assert(digits_val(s) == digit_val(digit_of(n as int)));
    } else {
        lemma_digits_val_of_u64(n / 10);
        let s = u64_digits(n);
        assert(s.drop_last() =~= u64_digits(n / 10));
        assert(digit_val(digit_of((n % 10) as int)) == n % 10);
    }
}

/// Reading back a rendered number gives the number: the decimal rendering
/// and the decimal parser are inverse on every value.
pub proof fn lemma_parse_u64_digits(n: u64)
    ensures
        parse_u64_spec(u64_digits(n)) == Some(n),
{
    lemma_u64_digits_all_digits(n);
    lemma_digits_val_of_u64(n);
}

/// A digit string's value only grows as digits are appended.
pub proof fn lemma_digits_val_prefix_le(s: Seq<char>, k: int)
    requires
        0 <= k <= s.len(),
        all_digits(s),
    ensures
        digits_val(s.take(k)) <= digits_val(s),
        digits_val(s) >= 0,
    decreases s.len() - k,
{
    if k == s.len() {
        assert(s.take(k) =~= s);
        lemma_digits_val_nonneg(s);
    } else {
        lemma_digits_val_prefix_le(s, k + 1);
        let t = s.take(k + 1);
        assert(t.drop_last() =~= s.take(k));
        assert(is_digit(s[k]));
        assert(t.last() == s[k]);
        lemma_digits_val_nonneg(s.take(k));
    }
}

pub proof fn lemma_digits_val_nonneg(s: Seq<char>)
    requires
        all_digits(s),
    ensures
        digits_val(s) >= 0,
    decreases s.len(),
{
    if s.len() > 0 {
        let p = s.drop_last();
        assert(forall|i: int| 0 <= i < p.len() ==> is_digit(#[trigger] p[i]));
        lemma_digits_val_nonneg(p);
        assert(is_digit(s.last()));
    }
}

// ---------------------------------------------------------------------------
// lines
// ---------------------------------------------------------------------------

/// `text` cut at every newline.  The result always holds at least one
/// (possibly empty) line.
pub open spec fn split_lines(text: Seq<char>) -> Seq<Seq<char>>
    decreases text.len(),
{
    let i = find_char(text, '\n');
    if i < 0 {
        seq![text]
    } else {
        proof {
            lemma_find_char_props(text, '\n');
        }
        seq![text.take(i)] + split_lines(text.skip(i + 1))
    }
}

/// `lines` joined with single newlines, without a trailing newline.
pub open spec fn join_lines(lines: Seq<Seq<char>>) -> Seq<char>
    decreases lines.len(),
{
    if lines.len() == 0 {
        Seq::empty()
    } else if lines.len() == 1 {
        lines[0]
    } else {
        lines[0] + seq!['\n'] + join_lines(lines.drop_first())
    }
}

/// A line holds no newline.
pub open spec fn line_ok(l: Seq<char>) -> bool {
    forall|i: int| 0 <= i < l.len() ==> #[trigger] l[i] != '\n'
}

/// Where `s` holds `c` at `i` and nowhere before, `i` is where the search
/// finds it.
pub proof fn lemma_find_char_unique(s: Seq<char>, c: char, i: int)
    requires
        0 <= i < s.len(),
        s[i] == c,
        forall|j: int| 0 <= j < i ==> s[j] != c,
    ensures
        find_char(s, c) == i,
    decreases i,
{
    if i > 0 {
        let s2 = s.drop_first();
        assert(forall|j: int| 0 <= j < i - 1 ==> s2[j] == s[j + 1]);
        lemma_find_char_unique(s2, c, i - 1);
    }
}

/// Where `s` holds `c` nowhere, the search reports it absent.
pub proof fn lemma_find_char_absent(s: Seq<char>, c: char)
    requires
        forall|j: int| 0 <= j < s.len() ==> s[j] != c,
    ensures
        find_char(s, c) == -1,
    decreases s.len(),
{
    if s.len() > 0 {
        let s2 = s.drop_first();
        lemma_find_char_absent(s2, c);
    }
}

/// Escaping one more character appends its escaped form.
pub proof fn lemma_escape_snoc(s: Seq<char>, c: char)
    ensures
        escape(s.push(c)) == escape(s) + escape_char(c),
    decreases s.len(),
{
    if s.len() == 0 {
        assert(s.push(c).drop_first() =~= Seq::<char>::empty());
        assert(s.push(c)[0] == c);
        assert(escape(Seq::<char>::empty()) =~= Seq::<char>::empty());
        assert(escape(s.push(c)) == escape_char(c) + escape(Seq::<char>::empty()));
        assert(escape_char(c) + escape(Seq::<char>::empty()) =~= escape_char(c));
        assert(escape(s) + escape_char(c) =~= escape_char(c));
    } else {
        lemma_escape_snoc(s.drop_first(), c);
        assert(s.push(c).drop_first() =~= s.drop_first().push(c));
        assert(escape(s.push(c)) == escape_char(s[0]) + (escape(s.drop_first()) + escape_char(c)));
        assert(escape_char(s[0]) + (escape(s.drop_first()) + escape_char(c)) =~= (escape_char(s[0])
            + escape(s.drop_first())) + escape_char(c));
    }
}

/// Joining one more line appends a newline and the line.
pub proof fn lemma_join_snoc(lines: Seq<Seq<char>>, l: Seq<char>)
    requires
        lines.len() > 0,
    ensures
        join_lines(lines.push(l)) == join_lines(lines) + seq!['\n'] + l,
    decreases lines.len(),
{
    if lines.len() == 1 {
        assert(lines.push(l).drop_first() =~= seq![l]);
        assert(join_lines(seq![l]) == l);
        assert(lines.push(l)[0] == lines[0]);
        assert(join_lines(lines.push(l)) == lines[0] + seq!['\n'] + join_lines(seq![l]));
    } else {
        lemma_join_snoc(lines.drop_first(), l);
        assert(lines.push(l).drop_first() =~= lines.drop_first().push(l));
        assert(join_lines(lines.push(l)) == lines[0] + seq!['\n'] + (join_lines(lines.drop_first())
            + seq!['\n'] + l));
        assert(lines[0] + seq!['\n'] + (join_lines(lines.drop_first()) + seq!['\n'] + l) =~= (
        lines[0] + seq!['\n'] + join_lines(lines.drop_first())) + seq!['\n'] + l);
    }
}

/// Cutting a joined text recovers the lines: join and split are inverse on
/// every non-empty list of newline-free lines.
pub proof fn lemma_split_join(lines: Seq<Seq<char>>)
    requires
        lines.len() > 0,
        forall|k: int| 0 <= k < lines.len() ==> line_ok(#[trigger] lines[k]),
    ensures
        split_lines(join_lines(lines)) == lines,
    decreases lines.len(),
{
    let text = join_lines(lines);
    if lines.len() == 1 {
        lemma_find_char_props(text, '\n');
        if find_char(text, '\n') >= 0 {
            assert(text[find_char(text, '\n')] == '\n');
        }
        assert(split_lines(text) =~= lines);
    } else {
        let rest = lines.drop_first();
        assert(text == lines[0] + seq!['\n'] + join_lines(rest));
        lemma_find_char_concat(lines[0], join_lines(rest), '\n');
        let i = find_char(text, '\n');
        assert(i == lines[0].len());
        assert(text.take(i) =~= lines[0]);
        assert(text.skip(i + 1) =~= join_lines(rest));
        assert(forall|k: int| 0 <= k < rest.len() ==> line_ok(#[trigger] rest[k]));
        lemma_split_join(rest);
        assert(split_lines(text) =~= seq![lines[0]] + rest);
        assert(seq![lines[0]] + rest =~= lines);
    }
}

// ---------------------------------------------------------------------------
// executable counterparts
// ---------------------------------------------------------------------------

/// The characters of `s`, as a vector.
pub fn vec_from_str(s: &str) -> (r: Vec<char>)
    ensures
        r@ == s@,
{
    let n = s.unicode_len();
    let mut out: Vec<char> = Vec::new();
    let mut i: usize = 0;
    while i < n
        invariant
            i <= n,
            n == s@.len(),
            out@ =~= s@.take(i as int),
        decreases n - i,
    {
        out.push(s.get_char(i));
        i += 1;
    }
    proof {
        assert(out@ =~= s@);
    }
    out
}

/// Relies on `String`'s `FromIterator` impl: collecting characters builds
/// the string holding exactly those characters, in order.
#[verifier::external_body]
pub fn chars_to_string(v: &Vec<char>) -> (r: String)
    ensures
        r@ == v@,
{
    v.iter().collect()
}

/// Copies `v[lo..hi]`.
pub fn copy_range(v: &Vec<char>, lo: usize, hi: usize) -> (r: Vec<char>)
    requires
        lo <= hi <= v@.len(),
    ensures
        r@ == v@.subrange(lo as int, hi as int),
{
    let mut out: Vec<char> = Vec::new();
    let mut i: usize = lo;
    while i < hi
        invariant
            lo <= i <= hi <= v@.len(),
            out@ =~= v@.subrange(lo as int, i as int),
        decreases hi - i,
    {
        out.push(v[i]);
        i += 1;
        proof {
            assert(out@ =~= v@.subrange(lo as int, i as int));
        }
    }
    out
}

/// Whether the vector holds exactly the characters of `s`.
pub fn vec_eq_str(v: &Vec<char>, s: &str) -> (r: bool)
    ensures
        r == (v@ == s@),
{
    let n = s.unicode_len();
    if v.len() != n {
        proof {
            assert(v@.len() != s@.len());
        }
        return false;
    }
    let mut i: usize = 0;
    while i < n
        invariant
            i <= n,
            n == s@.len(),
            v@.len() == n,
            forall|j: int| 0 <= j < i ==> v@[j] == s@[j],
        decreases n - i,
    {
        if v[i] != s.get_char(i) {
            return false;
        }
        i += 1;
    }
    proof {
        assert(v@ =~= s@);
    }
    true
}

fn char_is_ws(c: char) -> (r: bool)
    ensures
        r == is_ws(c),
{
    c == ' ' || c == '\t'
}

/// The trimmed copy of `v`.
pub fn trim_vec(v: &Vec<char>) -> (r: Vec<char>)
    ensures
        r@ == trim(v@),
{
    let n = v.len();
    let mut lo: usize = 0;
    while lo < n && char_is_ws(v[lo])
        invariant
            lo <= n,
            n == v@.len(),
            forall|j: int| 0 <= j < lo ==> is_ws(#[trigger] v@[j]),
        decreases n - lo,
    {
        lo += 1;
    }
    proof {
        lemma_trim_start_skip(v@, lo as int);
    }
    if lo == n {
        proof {
            assert(v@.skip(lo as int) =~= Seq::<char>::empty());
        }
        return Vec::new();
    }
    let mut hi: usize = n;
    while hi > lo && char_is_ws(v[hi - 1])
        invariant
            lo <= hi <= n,
            n == v@.len(),
            forall|j: int| hi <= j < n ==> is_ws(#[trigger] v@[j]),
        decreases hi,
    {
        hi -= 1;
    }
    proof {
        assert(!is_ws(v@[lo as int]));
        assert(hi > lo);
        let t = v@.skip(lo as int);
        lemma_trim_end_take(t, hi - lo);
        assert(t.take(hi - lo) =~= v@.subrange(lo as int, hi as int));
    }
    copy_range(v, lo, hi)
}

/// The position of the first `c` in `v`, when there is one.
pub fn vec_find_char(v: &Vec<char>, c: char) -> (r: Option<usize>)
    ensures
        match r {
            Some(i) => i < v@.len() && find_char(v@, c) == i,
            None => find_char(v@, c) == -1,
        },
{
    let n = v.len();
    let mut i: usize = 0;
    while i < n
        invariant
            i <= n,
            n == v@.len(),
            forall|j: int| 0 <= j < i ==> v@[j] != c,
        decreases n - i,
    {
        if v[i] == c {
            proof {
                lemma_find_char_unique(v@, c, i as int);
            }
            return Some(i);
        }
        i += 1;
    }
    proof {
        lemma_find_char_absent(v@, c);
    }
    None
}

/// Reads a decimal number, rejecting anything that is empty, non-numeric
/// or out of the 64-bit range.
pub fn parse_u64_vec(v: &Vec<char>) -> (r: Option<u64>)
    ensures
        r == parse_u64_spec(v@),
{
    let n = v.len();
    if n == 0 {
        return None;
    }
    let mut acc: u64 = 0;
    let mut i: usize = 0;
    while i < n
        invariant
            i <= n,
            n == v@.len(),
            all_digits(v@.take(i as int)),
            acc == digits_val(v@.take(i as int)),
        decreases n - i,
    {
        let c = v[i];
        if !('0' <= c && c <= '9') {
            proof {
                assert(!is_digit(v@[i as int]));
            }
            return None;
        }
        let d: u64 = (c as u32 - 48) as u64;
        proof {
            assert(v@.take(i + 1).drop_last() =~= v@.take(i as int));
            assert(v@.take(i + 1).last() == v@[i as int]);
        }
        let shifted = match acc.checked_mul(10) {
            Some(x) => x,
            None => {
                proof {
                    overflow_means_none(v@, i as int);
                }
                return None;
            },
        };
        acc = match shifted.checked_add(d) {
            Some(x) => x,
            None => {
                proof {
                    overflow_means_none(v@, i as int);
                }
                return None;
            },
        };
        i += 1;
    }
    proof {
        assert(v@.take(n as int) =~= v@);
    }
    Some(acc)
}

proof fn overflow_means_none(s: Seq<char>, i: int)
    requires
        0 <= i < s.len(),
        all_digits(s.take(i)),
        is_digit(s[i]),
        digits_val(s.take(i)) * 10 + digit_val(s[i]) > u64::MAX,
    ensures
        parse_u64_spec(s) is None,
{
    if all_digits(s) {
        assert(s.take(i + 1).drop_last() =~= s.take(i));
        assert(s.take(i + 1).last() == s[i]);
        assert(digits_val(s.take(i + 1)) == digits_val(s.take(i)) * 10 + digit_val(s[i]));
        lemma_digits_val_prefix_le(s, i + 1);
    }
}

/// Appends the decimal rendering of `n`.
pub fn push_u64_digits(out: &mut Vec<char>, n: u64)
    ensures
        final(out)@ == old(out)@ + u64_digits(n),
    decreases n,
{
    if n < 10 {
        let d = digit_char((n % 10) as u8);
        out.push(d);
        proof {
            assert(out@ =~= old(out)@ + u64_digits(n));
        }
    } else {
        push_u64_digits(out, n / 10);
        let d = digit_char((n % 10) as u8);
        out.push(d);
        proof {
            assert(out@ =~= old(out)@ + u64_digits(n));
        }
    }
}

fn digit_char(d: u8) -> (c: char)
    requires
        d < 10,
    ensures
        c == digit_of(d as int),
{
    match d {
        0 => '0',
        1 => '1',
        2 => '2',
        3 => '3',
        4 => '4',
        5 => '5',
        6 => '6',
        7 => '7',
        8 => '8',
        _ => '9',
    }
}

/// Appends the quoted-string body for `v`.
pub fn push_escaped(out: &mut Vec<char>, v: &Vec<char>)
    ensures
        final(out)@ == old(out)@ + escape(v@),
{
    let n = v.len();
    let mut i: usize = 0;
    proof {
        assert(escape(v@.take(0)) =~= Seq::<char>::empty());
        assert(out@ =~= old(out)@ + escape(v@.take(0)));
    }
    while i < n
        invariant
            i <= n,
            n == v@.len(),
            out@ == old(out)@ + escape(v@.take(i as int)),
        decreases n - i,
    {
        let c = v[i];
        proof {
            lemma_escape_snoc(v@.take(i as int), v@[i as int]);
            assert(v@.take(i + 1) =~= v@.take(i as int).push(v@[i as int]));
        }
        if c == '"' {
            out.push('\\');
            out.push('"');
        } else if c == '\\' {
            out.push('\\');
            out.push('\\');
        } else if c == '\n' {
            out.push('\\');
            out.push('n');
        } else if c == '\r' {
            out.push('\\');
            out.push('r');
        } else if c == '\t' {
            out.push('\\');
            out.push('t');
        } else {
            out.push(c);
        }
        proof {
            assert(out@ =~= old(out)@ + escape(v@.take(i + 1)));
        }
        i += 1;
    }
    proof {
        assert(v@.take(n as int) =~= v@);
    }
}

/// Reads a quoted-string body back.
pub fn unescape_vec(v: &Vec<char>) -> (r: Option<Vec<char>>)
    ensures
        match r {
            Some(out) => unescape(v@) == Some(out@),
            None => unescape(v@) is None,
        },
{
    let n = v.len();
    let mut out: Vec<char> = Vec::new();
    let mut i: usize = 0;
    proof {
        assert(v@.skip(0) =~= v@);
        if unescape(v@) is Some {
            let full = unescape(v@)->0;
            assert(full =~= out@ + full);
        }
    }
    while i < n
        invariant
            i <= n,
            n == v@.len(),
            match unescape(v@) {
                Some(full) => unescape(v@.skip(i as int)) matches Some(rest) && full == out@
                    + rest,
                None => unescape(v@.skip(i as int)) is None,
            },
        decreases n - i,
    {
        let c = v[i];
        let ghost pre = v@.skip(i as int);
        if c == '\\' {
            if i + 1 >= n {
                proof {
                    assert(pre[0] == '\\' && pre.len() == 1);
                }
                return None;
            }
            let e = v[i + 1];
            let decoded: Option<char> = if e == '"' {
                Some('"')
            } else if e == '\\' {
                Some('\\')
            } else if e == 'n' {
                Some('\n')
            } else if e == 'r' {
                Some('\r')
            } else if e == 't' {
                Some('\t')
            } else {
                None
            };
            proof {
                assert(pre[0] == '\\');
                assert(pre.len() >= 2);
                assert(pre[1] == v@[i + 1]);
                assert(pre.skip(2) =~= v@.skip(i + 2));
            }
            match decoded {
                Some(dc) => {
                    out.push(dc);
                    proof {
                        if unescape(v@.skip(i + 2)) is Some {
                            let rest2 = unescape(v@.skip(i + 2))->0;
                            assert(unescape(pre) == Some(seq![dc] + rest2));
                            assert(out@ + rest2 =~= out@.drop_last() + (seq![dc] + rest2));
                        }
                    }
                    i += 2;
                },
                None => {
                    return None;
                },
            }
        } else if c == '"' {
            proof {
                assert(pre[0] == '"');
            }
            return None;
        } else {
            out.push(c);
            proof {
                assert(pre[0] == c && c != '\\' && c != '"');
                assert(pre.drop_first() =~= v@.skip(i + 1));
                if unescape(v@.skip(i + 1)) is Some {
                    let rest2 = unescape(v@.skip(i + 1))->0;
                    assert(unescape(pre) == Some(seq![c] + rest2));
                    assert(out@ + rest2 =~= out@.drop_last() + (seq![c] + rest2));
                }
            }
            i += 1;
        }
    }
    proof {
        assert(v@.skip(n as int) =~= Seq::<char>::empty());
        assert(unescape(v@.skip(n as int)) == Some(Seq::<char>::empty()));
        if unescape(v@) is Some {
            let full = unescape(v@)->0;
            assert(full =~= out@ + Seq::<char>::empty());
            assert(full =~= out@);
        }
    }
    Some(out)
}

/// The lines of a vector of line vectors, as sequences.
pub open spec fn lines_view(lines: Seq<Vec<char>>) -> Seq<Seq<char>> {
    Seq::new(lines.len(), |i: int| lines[i]@)
}

/// Cuts `text` at every newline.
pub fn split_lines_vec(text: &Vec<char>) -> (r: Vec<Vec<char>>)
    ensures
        lines_view(r@) == split_lines(text@),
{
    let n = text.len();
    let mut lines: Vec<Vec<char>> = Vec::new();
    let mut cur: Vec<char> = Vec::new();
    let mut i: usize = 0;
    proof {
        assert(cur@ + text@.skip(0) =~= text@);
        assert(lines_view(lines@) =~= Seq::<Seq<char>>::empty());
        assert(lines_view(lines@) + split_lines(text@) =~= split_lines(text@));
    }
    while i < n
        invariant
            i <= n,
            n == text@.len(),
            line_ok(cur@),
            split_lines(text@) == lines_view(lines@) + split_lines(cur@ + text@.skip(i as int)),
        decreases n - i,
    {
        let c = text[i];
        if c == '\n' {
            proof {
                let rest = text@.skip(i as int);
                assert(cur@ + rest =~= cur@ + seq!['\n'] + text@.skip(i + 1));
                lemma_find_char_concat(cur@, text@.skip(i + 1), '\n');
                assert((cur@ + seq!['\n'] + text@.skip(i + 1)).take(cur@.len() as int) =~= cur@);
                assert((cur@ + seq!['\n'] + text@.skip(i + 1)).skip(cur@.len() as int + 1)
                    =~= text@.skip(i + 1));
                assert(lines_view(lines@.push(cur)) =~= lines_view(lines@) + seq![cur@]);
                assert(lines_view(lines@) + (seq![cur@] + split_lines(text@.skip(i + 1))) =~= (
                lines_view(lines@) + seq![cur@]) + split_lines(text@.skip(i + 1)));
            }
            lines.push(cur);
            cur = Vec::new();
            proof {
                assert(cur@ + text@.skip(i + 1) =~= text@.skip(i + 1));
            }
        } else {
            proof {
                assert(cur@.push(c) + text@.skip(i + 1) =~= cur@ + text@.skip(i as int));
            }
            cur.push(c);
        }
        i += 1;
    }
    proof {
        assert(cur@ + text@.skip(n as int) =~= cur@);
        lemma_find_char_absent(cur@, '\n');
        assert(split_lines(cur@) =~= seq![cur@]);
        assert(lines_view(lines@.push(cur)) =~= lines_view(lines@) + seq![cur@]);
    }
    lines.push(cur);
    proof {
        assert(lines_view(lines@) =~= split_lines(text@));
    }
    lines
}

/// Joins lines with single newlines.
pub fn join_lines_vec(lines: &Vec<Vec<char>>) -> (r: Vec<char>)
    requires
        lines@.len() > 0,
    ensures
        r@ == join_lines(lines_view(lines@)),
{
    let mut out: Vec<char> = Vec::new();
    let n = lines.len();
    let first = &lines[0];
    let mut j: usize = 0;
    while j < first.len()
        invariant
            j <= first@.len(),
            out@ =~= first@.take(j as int),
        decreases first@.len() - j,
    {
        out.push(first[j]);
        j += 1;
    }
    proof {
        assert(out@ =~= first@);
        assert(lines_view(lines@).take(1) =~= seq![lines@[0]@]);
        assert(join_lines(lines_view(lines@).take(1)) == lines@[0]@);
    }
    let mut i: usize = 1;
    while i < n
        invariant
            1 <= i <= n,
            n == lines@.len(),
            out@ == join_lines(lines_view(lines@).take(i as int)),
        decreases n - i,
    {
        out.push('\n');
        let line = &lines[i];
        let mut j2: usize = 0;
        while j2 < line.len()
            invariant
                j2 <= line@.len(),
                line@ == lines@[i as int]@,
                out@ =~= join_lines(lines_view(lines@).take(i as int)) + seq!['\n'] + line@.take(
                    j2 as int,
                ),
            decreases line@.len() - j2,
        {
            out.push(line[j2]);
            j2 += 1;
            proof {
                assert(out@ =~= join_lines(lines_view(lines@).take(i as int)) + seq!['\n']
                    + line@.take(j2 as int));
            }
        }
        proof {
            let lv = lines_view(lines@);
            assert(line@.take(line@.len() as int) =~= line@);
            lemma_join_snoc(lv.take(i as int), lv[i as int]);
            assert(lv.take(i as int).push(lv[i as int]) =~= lv.take(i + 1));
        }
        i += 1;
    }
    proof {
        assert(lines_view(lines@).take(n as int) =~= lines_view(lines@));
    }
    out
}

} // verus!

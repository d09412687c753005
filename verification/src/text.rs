//! Character-level text utilities with exact specifications.

use vstd::prelude::*;

verus! {

/// Appends one character to a string (`String::push`).
/// Trusted: `String::push` appends the character at the end.
#[verifier::external_body]
pub(crate) fn push_char(s: &mut String, c: char)
    ensures
        final(s)@ == old(s)@.push(c),
{
    s.push(c);
}

/// The characters of `s`, in order.
pub fn chars_of(s: &str) -> (res: Vec<char>)
    ensures
        res@ == s@,
{
    let mut res: Vec<char> = Vec::new();
    for c in it: s.chars()
        invariant
            res@ == it.seq().take(it.index()),
    {
        res.push(c);
    }
    res
}


/// The pieces of `s` separated by `sep`, as `str::split` with a `char`
/// pattern yields them: always at least one piece, empty pieces kept.
pub open spec fn split_on(s: Seq<char>, sep: char) -> Seq<Seq<char>>
    decreases s.len(),
{
    if s.len() == 0 {
        seq![Seq::<char>::empty()]
    } else {
        let prev = split_on(s.drop_last(), sep);
        if s.last() == sep {
            prev.push(Seq::<char>::empty())
        } else {
            prev.update(prev.len() - 1, prev.last().push(s.last()))
        }
    }
}

/// `split_on` never yields an empty list of pieces.
pub proof fn lemma_split_nonempty(s: Seq<char>, sep: char)
    ensures
        split_on(s, sep).len() >= 1,
    decreases s.len(),
{
    if s.len() > 0 {
        lemma_split_nonempty(s.drop_last(), sep);
    }
}

/// The pieces joined with `sep` between them.
pub open spec fn join_with(pieces: Seq<Seq<char>>, sep: char) -> Seq<char>
    decreases pieces.len(),
{
    if pieces.len() == 0 {
        Seq::<char>::empty()
    } else if pieces.len() == 1 {
        pieces[0]
    } else {
        join_with(pieces.drop_last(), sep) + seq![sep] + pieces.last()
    }
}

/// A text without `sep` is a single piece.
proof fn lemma_split_without_sep(s: Seq<char>, sep: char)
    requires
        !s.contains(sep),
    ensures
        split_on(s, sep) == seq![s],
    decreases s.len(),
{
    if s.len() > 0 {
        assert(!s.drop_last().contains(sep)) by {
            if s.drop_last().contains(sep) {
                let i = choose|i: int| 0 <= i < s.drop_last().len() && s.drop_last()[i] == sep;
                assert(s[i] == sep);
            }
        }
        lemma_split_without_sep(s.drop_last(), sep);
        assert(s.last() != sep) by {
            assert(s[s.len() - 1] == s.last());
        }
        assert(s.drop_last().push(s.last()) == s);
        assert(seq![s.drop_last()].update(0, s.drop_last().push(s.last())) == seq![s]);
    } else {
        assert(s == Seq::<char>::empty());
    }
}

/// Splitting at a separator splits each side on its own.
proof fn lemma_split_concat(s: Seq<char>, t: Seq<char>, sep: char)
    ensures
        split_on(s + seq![sep] + t, sep) == split_on(s, sep) + split_on(t, sep),
    decreases t.len(),
{
    let u = s + seq![sep] + t;
    if t.len() == 0 {
        assert(u.drop_last() == s);
        assert(u.last() == sep);
        assert(split_on(t, sep) == seq![Seq::<char>::empty()]);
    } else {
        lemma_split_concat(s, t.drop_last(), sep);
        lemma_split_nonempty(t.drop_last(), sep);
        lemma_split_nonempty(s, sep);
        assert(u.drop_last() == s + seq![sep] + t.drop_last());
        assert(u.last() == t.last());
        let a = split_on(s, sep);
        let b = split_on(t.drop_last(), sep);
        if t.last() == sep {
            assert((a + b).push(Seq::<char>::empty()) == a + b.push(Seq::<char>::empty()));
        } else {
            let x = b.last().push(t.last());
            assert((a + b).last() == b.last());
            assert((a + b).update((a + b).len() - 1, x) == a + b.update(b.len() - 1, x));
        }
    }
}

/// Splitting a join of pieces free of the separator gives the pieces back.
pub proof fn law_split_inverts_join(pieces: Seq<Seq<char>>, sep: char)
    requires
        pieces.len() >= 1,
        forall|i: int| 0 <= i < pieces.len() ==> !(#[trigger] pieces[i]).contains(sep),
    ensures
        split_on(join_with(pieces, sep), sep) == pieces,
    decreases pieces.len(),
{
    if pieces.len() == 1 {
        lemma_split_without_sep(pieces[0], sep);
        assert(pieces == seq![pieces[0]]);
    } else {
        let d = pieces.drop_last();
        assert forall|i: int| 0 <= i < d.len() implies !(#[trigger] d[i]).contains(sep) by {
            assert(d[i] == pieces[i]);
        }
        law_split_inverts_join(d, sep);
        assert(!pieces[pieces.len() - 1].contains(sep));
        lemma_split_without_sep(pieces.last(), sep);
        lemma_split_concat(join_with(d, sep), pieces.last(), sep);
        assert(d + seq![pieces.last()] == pieces);
    }
}

/// The views of a vector of strings.
pub open spec fn views(v: Seq<String>) -> Seq<Seq<char>> {
    v.map_values(|x: String| x@)
}

/// The string made of `cs[from..to]`.
pub fn string_from_range(cs: &Vec<char>, from: usize, to: usize) -> (res: String)
    requires
        from <= to <= cs@.len(),
    ensures
        res@ == cs@.subrange(from as int, to as int),
{
    let mut res = String::new();
    let mut i = from;
    while i < to
        invariant
            from <= i <= to <= cs@.len(),
            res@ == cs@.subrange(from as int, i as int),
        decreases to - i,
    {
        push_char(&mut res, cs[i]);
        assert(cs@.subrange(from as int, i + 1) == cs@.subrange(from as int, i as int).push(cs@[i as int]));
        i = i + 1;
    }
    res
}

/// Splits `s` at every `sep`, as `s.split(sep)` does.
pub fn split_on_char(s: &str, sep: char) -> (res: Vec<String>)
    ensures
        views(res@) == split_on(s@, sep),
{
    let cs = chars_of(s);
    let n = cs.len();
    let mut pieces: Vec<String> = Vec::new();
    let mut start: usize = 0;
    let mut i: usize = 0;
    assert(cs@.take(0) == Seq::<char>::empty());
    assert(views(pieces@) == Seq::<Seq<char>>::empty());
    assert(cs@.subrange(0, 0) == Seq::<char>::empty());
    while i < n
        invariant
            n == cs@.len(),
            cs@ == s@,
            start <= i <= n,
            split_on(cs@.take(i as int), sep) == views(pieces@).push(cs@.subrange(start as int, i as int)),
        decreases n - i,
    {
        let ghost prev = split_on(cs@.take(i as int), sep);
        assert(cs@.take(i + 1).drop_last() == cs@.take(i as int));
        assert(cs@.take(i + 1).last() == cs@[i as int]);
        if cs[i] == sep {
            let piece = string_from_range(&cs, start, i);
            let ghost before = pieces@;
            pieces.push(piece);
            assert(views(pieces@) == views(before).push(piece@)) by {
                assert(pieces@ == before.push(piece));
            }
            start = i + 1;
            assert(cs@.subrange(start as int, i + 1) == Seq::<char>::empty());
        } else {
            assert(cs@.subrange(start as int, i + 1) == cs@.subrange(start as int, i as int).push(cs@[i as int]));
        }
        i = i + 1;
    }
    assert(cs@.take(n as int) == cs@);
    let last = string_from_range(&cs, start, n);
    pieces.push(last);
    assert(views(pieces@) == views(pieces@.drop_last()).push(last@));
    pieces
}


/// Drops one trailing carriage return, as `str::lines` does for a line that
/// ended with a newline.
pub open spec fn strip_cr(l: Seq<char>) -> Seq<char> {
    if l.len() > 0 && l.last() == '\r' {
        l.drop_last()
    } else {
        l
    }
}

/// The lines of `s`, as `str::lines` yields them: pieces between `'\n'`,
/// each stripped of one `'\r'` before its newline, with no final empty line
/// after a trailing newline.
pub open spec fn lines_of(s: Seq<char>) -> Seq<Seq<char>> {
    let ps = split_on(s, '\n');
    let k = ps.len() - 1;
    Seq::new(k as nat, |i: int| strip_cr(ps[i])) + (if ps[k].len() == 0 {
        Seq::<Seq<char>>::empty()
    } else {
        seq![ps[k]]
    })
}

/// Removes one trailing `'\r'`.
fn strip_cr_string(l: String) -> (res: String)
    ensures
        res@ == strip_cr(l@),
{
    let cs = chars_of(l.as_str());
    let n = cs.len();
    if n > 0 && cs[n - 1] == '\r' {
        let r = string_from_range(&cs, 0, n - 1);
        assert(cs@.subrange(0, n - 1) == cs@.drop_last());
        r
    } else {
        l
    }
}

/// The lines of `s`, as `s.lines()` yields them.
pub fn text_lines(s: &str) -> (res: Vec<String>)
    ensures
        views(res@) == lines_of(s@),
{
    let pieces = split_on_char(s, '\n');
    proof {
        lemma_split_nonempty(s@, '\n');
    }
    let k = pieces.len() - 1;
    let mut res: Vec<String> = Vec::new();
    let mut i: usize = 0;
    while i < k
        invariant
            k + 1 == pieces@.len(),
            views(pieces@) == split_on(s@, '\n'),
            i <= k,
            res@.len() == i,
            forall|j: int| 0 <= j < i ==> #[trigger] res@[j]@ == strip_cr(split_on(s@, '\n')[j]),
        decreases k - i,
    {
        assert(pieces@[i as int]@ == split_on(s@, '\n')[i as int]);
        let line = strip_cr_string(pieces[i].clone());
        res.push(line);
        i = i + 1;
    }
    let ghost body = Seq::new(k as nat, |j: int| strip_cr(split_on(s@, '\n')[j]));
    assert(views(res@) == body);
    assert(pieces@[k as int]@ == split_on(s@, '\n')[k as int]);
    if pieces[k].as_str().is_empty() {
        assert(views(res@) + Seq::<Seq<char>>::empty() == views(res@));
        res
    } else {
        let ghost before = res@;
        res.push(pieces[k].clone());
        assert(views(res@) == views(before).push(pieces@[k as int]@)) by {
            assert(res@ == before.push(pieces@[k as int]));
        }
        assert(views(res@) == body + seq![split_on(s@, '\n')[k as int]]);
        res
    }
}


/// Whether `c` has the Unicode `White_Space` property, the set of
/// characters that `char::is_whitespace` and `str::trim` treat as
/// whitespace.
pub open spec fn is_white_space(c: char) -> bool {
    let u = c as u32;
    ||| 0x09 <= u <= 0x0d
    ||| u == 0x20
    ||| u == 0x85
    ||| u == 0xa0
    ||| u == 0x1680
    ||| 0x2000 <= u <= 0x200a
    ||| u == 0x2028
    ||| u == 0x2029
    ||| u == 0x202f
    ||| u == 0x205f
    ||| u == 0x3000
}

/// Decides `is_white_space`.
pub fn white_space(c: char) -> (b: bool)
    ensures
        b == is_white_space(c),
{
    let u = c as u32;
    (0x09 <= u && u <= 0x0d) || u == 0x20 || u == 0x85 || u == 0xa0 || u == 0x1680 || (0x2000 <= u
        && u <= 0x200a) || u == 0x2028 || u == 0x2029 || u == 0x202f || u == 0x205f || u == 0x3000
}

/// `s` without its leading whitespace.
pub open spec fn trim_start(s: Seq<char>) -> Seq<char>
    decreases s.len(),
{
    if s.len() > 0 && is_white_space(s[0]) {
        trim_start(s.drop_first())
    } else {
        s
    }
}

/// `s` without its trailing whitespace.
pub open spec fn trim_end(s: Seq<char>) -> Seq<char>
    decreases s.len(),
{
    if s.len() > 0 && is_white_space(s.last()) {
        trim_end(s.drop_last())
    } else {
        s
    }
}

/// `s` without leading and trailing whitespace, as `str::trim` returns it.
pub open spec fn trimmed(s: Seq<char>) -> Seq<char> {
    trim_end(trim_start(s))
}

proof fn lemma_trim_start(s: Seq<char>, a: int)
    requires
        0 <= a <= s.len(),
        forall|i: int| 0 <= i < a ==> is_white_space(#[trigger] s[i]),
        a == s.len() || !is_white_space(s[a]),
    ensures
        trim_start(s) == s.subrange(a, s.len() as int),
    decreases a,
{
    if a == 0 {
        assert(s.subrange(0, s.len() as int) == s);
    } else {
        let t = s.drop_first();
        assert forall|i: int| 0 <= i < a - 1 implies is_white_space(#[trigger] t[i]) by {
            assert(t[i] == s[i + 1]);
        }
        lemma_trim_start(t, a - 1);
        assert(t.subrange(a - 1, t.len() as int) == s.subrange(a, s.len() as int));
    }
}

proof fn lemma_trim_end(s: Seq<char>, b: int)
    requires
        0 <= b <= s.len(),
        forall|i: int| b <= i < s.len() ==> is_white_space(#[trigger] s[i]),
        b == 0 || !is_white_space(s[b - 1]),
    ensures
        trim_end(s) == s.subrange(0, b),
    decreases s.len() - b,
{
    if b == s.len() {
        assert(s.subrange(0, s.len() as int) == s);
    } else {
        let t = s.drop_last();
        assert forall|i: int| b <= i < t.len() implies is_white_space(#[trigger] t[i]) by {
            assert(t[i] == s[i]);
        }
        lemma_trim_end(t, b);
        assert(t.subrange(0, b) == s.subrange(0, b));
    }
}

/// `s` with leading and trailing whitespace removed, as `s.trim()`.
pub fn trim_text(s: &str) -> (res: String)
    ensures
        res@ == trimmed(s@),
{
    let cs = chars_of(s);
    let n = cs.len();
    let mut a: usize = 0;
    while a < n && white_space(cs[a])
        invariant
            n == cs@.len(),
            a <= n,
            forall|i: int| 0 <= i < a ==> is_white_space(#[trigger] cs@[i]),
        decreases n - a,
    {
        a = a + 1;
    }
    proof {
        lemma_trim_start(cs@, a as int);
    }
    let mut b: usize = n;
    while b > a && white_space(cs[b - 1])
        invariant
            n == cs@.len(),
            a <= b <= n,
            forall|i: int| b <= i < n ==> is_white_space(#[trigger] cs@[i]),
        decreases b,
    {
        b = b - 1;
    }
    proof {
        let t = cs@.subrange(a as int, n as int);
        assert forall|i: int| b - a <= i < t.len() implies is_white_space(#[trigger] t[i]) by {
            assert(t[i] == cs@[a + i]);
        }
        if b > a {
            assert(t[b - a - 1] == cs@[b - 1]);
        }
        lemma_trim_end(t, b - a);
        assert(t.subrange(0, b - a) == cs@.subrange(a as int, b as int));
    }
    string_from_range(&cs, a, b)
}

/// The lowercase form of a text, as `str::to_lowercase` computes it (the
/// Unicode `Lowercase` mapping, applied character by character with the
/// context rules of Unicode's special casing).
pub uninterp spec fn lowercase(s: Seq<char>) -> Seq<char>;

/// Trusted: `str::to_lowercase`, whose result is named `lowercase`.
#[verifier::external_body]
pub fn to_lowercase_text(s: &str) -> (res: String)
    ensures
        res@ == lowercase(s@),
{
    s.to_lowercase()
}

/// What `String::from_utf8_lossy` makes of a byte string: its UTF-8
/// decoding, with each invalid sequence replaced by U+FFFD.
pub uninterp spec fn utf8_lossy(bytes: Seq<u8>) -> Seq<char>;

/// Trusted: `String::from_utf8_lossy`, whose result is named `utf8_lossy`;
/// on valid UTF-8 it is the plain decoding, as the documentation states.
#[verifier::external_body]
pub fn from_utf8_lossy_text(bytes: &[u8]) -> (res: String)
    ensures
        res@ == utf8_lossy(bytes@),
        vstd::utf8::valid_utf8(bytes@) ==> res@ == vstd::utf8::decode_utf8(bytes@),
{
    String::from_utf8_lossy(bytes).into_owned()
}

/// The value of a string of decimal digits.
pub open spec fn decimal_value(d: Seq<char>) -> int
    decreases d.len(),
{
    if d.len() == 0 {
        0
    } else {
        decimal_value(d.drop_last()) * 10 + (d.last() as int - '0' as int)
    }
}

/// Whether every character of `d` is an ASCII digit.
pub open spec fn all_digits(d: Seq<char>) -> bool {
    forall|i: int| 0 <= i < d.len() ==> '0' <= #[trigger] d[i] <= '9'
}

/// What `<u64 as FromStr>::from_str` returns: an optional `+` followed by
/// one or more ASCII digits whose value fits in a `u64`; anything else is an
/// error.
pub open spec fn parsed_u64(s: Seq<char>) -> Option<u64> {
    let d = if s.len() > 0 && s[0] == '+' {
        s.drop_first()
    } else {
        s
    };
    if d.len() > 0 && all_digits(d) && decimal_value(d) <= u64::MAX {
        Some(decimal_value(d) as u64)
    } else {
        None
    }
}

/// Digits only add to a value: a prefix of a digit string has at most its
/// value.
proof fn lemma_decimal_prefix(d: Seq<char>, j: int)
    requires
        all_digits(d),
        0 <= j <= d.len(),
    ensures
        decimal_value(d.take(j)) <= decimal_value(d),
        decimal_value(d) >= 0,
    decreases d.len(),
{
    if d.len() > 0 {
        let e = d.drop_last();
        assert(all_digits(e)) by {
            assert forall|i: int| 0 <= i < e.len() implies '0' <= #[trigger] e[i] <= '9' by {
                assert(e[i] == d[i]);
            }
        }
        assert('0' <= d[d.len() - 1] <= '9');
        if j == d.len() {
            assert(d.take(j) == d);
            lemma_decimal_prefix(e, 0);
        } else {
            assert(d.take(j) == e.take(j));
            lemma_decimal_prefix(e, j);
        }
    } else {
        assert(d.take(j) == d);
    }
}

/// Reads a `u64` as `str::parse::<u64>` does: an optional `+`, then one or
/// more ASCII digits whose value fits.
pub fn parse_u64(s: &str) -> (res: Option<u64>)
    ensures
        res == parsed_u64(s@),
{
    let cs = chars_of(s);
    let n = cs.len();
    let start: usize = if n > 0 && cs[0] == '+' {
        1
    } else {
        0
    };
    let ghost d = if s@.len() > 0 && s@[0] == '+' {
        s@.drop_first()
    } else {
        s@
    };
    assert(d == cs@.subrange(start as int, n as int));
    if start >= n {
        return None;
    }
    let mut value: u64 = 0;
    let mut i: usize = start;
    assert(d.take(0) == Seq::<char>::empty());
    while i < n
        invariant
            n == cs@.len(),
            start <= i <= n,
            start < n,
            d == cs@.subrange(start as int, n as int),
            parsed_u64(s@) == (if d.len() > 0 && all_digits(d) && decimal_value(d) <= u64::MAX {
                Some(decimal_value(d) as u64)
            } else {
                None
            }),
            all_digits(d.take(i - start)),
            value == decimal_value(d.take(i - start)),
        decreases n - i,
    {
        let c = cs[i];
        assert(d[i - start] == c);
        if !('0' <= c && c <= '9') {
            assert(!all_digits(d));
            return None;
        }
        let digit: u64 = (c as u32 - '0' as u32) as u64;
        let next: u128 = value as u128 * 10 + digit as u128;
        let ghost t = d.take(i - start + 1);
        assert(t.drop_last() == d.take(i - start));
        assert(t.last() == c);
        assert(all_digits(t)) by {
            assert forall|k: int| 0 <= k < t.len() implies '0' <= #[trigger] t[k] <= '9' by {
                if k < t.len() - 1 {
                    assert(t[k] == d.take(i - start)[k]);
                }
            }
        }
        assert(decimal_value(t) == next);
        if next > u64::MAX as u128 {
            proof {
                if all_digits(d) {
                    lemma_decimal_prefix(d, i - start + 1);
                }
            }
            return None;
        }
        value = next as u64;
        i = i + 1;
    }
    assert(d.take(n - start) == d);
    Some(value)
}

/// The ASCII digit for `d < 10`.
pub open spec fn digit_char(d: nat) -> char {
    (d + '0' as nat) as char
}

/// The decimal representation of `n`, without sign or leading zeros.
pub open spec fn decimal_digits(n: nat) -> Seq<char>
    decreases n,
{
    if n < 10 {
        seq![digit_char(n)]
    } else {
        decimal_digits(n / 10).push(digit_char(n % 10))
    }
}

/// The decimal representation of `n`, as `u64::to_string` writes it.
pub fn u64_to_decimal(n: u64) -> (res: String)
    ensures
        res@ == decimal_digits(n as nat),
    decreases n,
{
    let d: u8 = (n % 10) as u8;
    let c: char = (d + 48) as char;
    assert(c == digit_char(d as nat));
    if n < 10 {
        let mut s = String::new();
        push_char(&mut s, c);
        assert(s@ == seq![c]);
        s
    } else {
        let mut s = u64_to_decimal(n / 10);
        push_char(&mut s, c);
        s
    }
}

/// `s` with every `/` replaced by `--`.
pub open spec fn slashes_replaced(s: Seq<char>) -> Seq<char>
    decreases s.len(),
{
    if s.len() == 0 {
        s
    } else {
        slashes_replaced(s.drop_last()) + if s.last() == '/' {
            seq!['-', '-']
        } else {
            seq![s.last()]
        }
    }
}

/// `s.replace("/", "--")`.
pub fn replace_slashes(s: &str) -> (res: String)
    ensures
        res@ == slashes_replaced(s@),
{
    let cs = chars_of(s);
    let n = cs.len();
    let mut res = String::new();
    let mut i: usize = 0;
    assert(cs@.take(0) == Seq::<char>::empty());
    while i < n
        invariant
            n == cs@.len(),
            i <= n,
            res@ == slashes_replaced(cs@.take(i as int)),
        decreases n - i,
    {
        assert(cs@.take(i + 1).drop_last() == cs@.take(i as int));
        assert(cs@.take(i + 1).last() == cs@[i as int]);
        if cs[i] == '/' {
            push_char(&mut res, '-');
            push_char(&mut res, '-');
            assert(res@ == slashes_replaced(cs@.take(i as int)) + seq!['-', '-']);
        } else {
            push_char(&mut res, cs[i]);
            assert(res@ == slashes_replaced(cs@.take(i as int)) + seq![cs@[i as int]]);
        }
        i = i + 1;
    }
    assert(cs@.take(n as int) == cs@);
    res
}

/// Whether `c` occurs in `s`.
pub fn contains_char(s: &str, c: char) -> (b: bool)
    ensures
        b == s@.contains(c),
{
    let cs = chars_of(s);
    let n = cs.len();
    let mut i: usize = 0;
    while i < n
        invariant
            n == cs@.len(),
            cs@ == s@,
            i <= n,
            forall|j: int| 0 <= j < i ==> cs@[j] != c,
        decreases n - i,
    {
        if cs[i] == c {
            assert(s@[i as int] == c);
            return true;
        }
        i = i + 1;
    }
    false
}

/// `a` followed by `b`.
pub fn concat(a: &str, b: &str) -> (res: String)
    ensures
        res@ == a@ + b@,
{
    let mut r = String::from_str(a);
    r.append(b);
    r
}

/// The `n`-th piece of `s` split at `sep`, or the empty text if there are
/// fewer pieces (`s.split(sep).nth(n).unwrap_or("")`).
pub open spec fn nth_piece_or_empty(s: Seq<char>, sep: char, n: int) -> Seq<char> {
    if 0 <= n < split_on(s, sep).len() {
        split_on(s, sep)[n]
    } else {
        Seq::<char>::empty()
    }
}

/// `s.split(sep).nth(n).unwrap_or("")`.
pub fn nth_piece(s: &str, sep: char, n: usize) -> (res: String)
    ensures
        res@ == nth_piece_or_empty(s@, sep, n as int),
{
    let pieces = split_on_char(s, sep);
    if n < pieces.len() {
        pieces[n].clone()
    } else {
        String::new()
    }
}

} // verus!

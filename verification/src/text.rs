//! Character-level text utilities: Unicode whitespace, trimming, joining and
//! conversions between `&str`, `String` and `Vec<char>`.

use vstd::prelude::*;

verus! {

/// The Unicode `White_Space` property, which `char::is_whitespace` and
/// `str::trim` use.
pub open spec fn is_ws(c: char) -> bool {
    ||| ('\u{0009}' <= c && c <= '\u{000D}')
    ||| c == ' '
    ||| c == '\u{0085}'
    ||| c == '\u{00A0}'
    ||| c == '\u{1680}'
    ||| ('\u{2000}' <= c && c <= '\u{200A}')
    ||| c == '\u{2028}'
    ||| c == '\u{2029}'
    ||| c == '\u{202F}'
    ||| c == '\u{205F}'
    ||| c == '\u{3000}'
}

/// `s` without its leading whitespace.
pub open spec fn trim_start(s: Seq<char>) -> Seq<char>
    decreases s.len(),
{
    if s.len() > 0 && is_ws(s[0]) {
        trim_start(s.drop_first())
    } else {
        s
    }
}

/// `s` without its trailing whitespace.
pub open spec fn trim_end(s: Seq<char>) -> Seq<char>
    decreases s.len(),
{
    if s.len() > 0 && is_ws(s.last()) {
        trim_end(s.drop_last())
    } else {
        s
    }
}

/// `s` without leading and trailing whitespace, as `str::trim` gives it.
pub open spec fn trim(s: Seq<char>) -> Seq<char> {
    trim_end(trim_start(s))
}

/// The parts joined with `sep` between each two neighbours.
pub open spec fn join(parts: Seq<Seq<char>>, sep: Seq<char>) -> Seq<char>
    decreases parts.len(),
{
    if parts.len() == 0 {
        Seq::empty()
    } else if parts.len() == 1 {
        parts[0]
    } else {
        join(parts.drop_last(), sep) + sep + parts.last()
    }
}

/// The views of a sequence of strings.
pub open spec fn views(v: Seq<String>) -> Seq<Seq<char>> {
    v.map_values(|s: String| s@)
}

pub fn is_whitespace(c: char) -> (b: bool)
    ensures
        b == is_ws(c),
{
    ('\u{0009}' <= c && c <= '\u{000D}') || c == ' ' || c == '\u{0085}' || c == '\u{00A0}'
        || c == '\u{1680}' || ('\u{2000}' <= c && c <= '\u{200A}') || c == '\u{2028}' || c
        == '\u{2029}' || c == '\u{202F}' || c == '\u{205F}' || c == '\u{3000}'
}

/// Appends one character: calls `String::push`, which std documents as
/// appending the given `char` to the end of the string. The contract claims
/// exactly that: the new text is the old text followed by `c`.
#[verifier::external_body]
pub(crate) fn push_char(s: &mut String, c: char)
    ensures
        final(s)@ == old(s)@.push(c),
{
    s.push(c);
}

/// The characters of `s`, in order.
pub fn str_to_chars(s: &str) -> (v: Vec<char>)
    ensures
        v@ == s@,
{
    let mut v: Vec<char> = Vec::new();
    for c in it: s.chars()
        invariant
            it.seq() == s@,
            v@ == it.seq().take(it.index() as int),
    {
        v.push(c);
    }
    v
}

/// A `String` holding the characters `v[from..to]`.
pub fn chars_to_string(v: &[char], from: usize, to: usize) -> (s: String)
    requires
        from <= to <= v@.len(),
    ensures
        s@ == v@.subrange(from as int, to as int),
{
    let mut s = String::new();
    let mut i = from;
    while i < to
        invariant
            from <= i <= to <= v@.len(),
            s@ == v@.subrange(from as int, i as int),
        decreases to - i,
    {
        push_char(&mut s, v[i]);
        assert(v@.subrange(from as int, i + 1) =~= v@.subrange(from as int, i as int).push(v@[i as int]));
        i = i + 1;
    }
    s
}


/// The bounds `(start, end)` of the trimmed part of `v[from..to]`.
pub fn trim_bounds(v: &[char], from: usize, to: usize) -> (r: (usize, usize))
    requires
        from <= to <= v@.len(),
    ensures
        from <= r.0 <= r.1 <= to,
        v@.subrange(r.0 as int, r.1 as int) == trim(v@.subrange(from as int, to as int)),
{
    let mut start = from;
    while start < to && is_whitespace(v[start])
        invariant
            from <= start <= to <= v@.len(),
            trim_start(v@.subrange(from as int, to as int)) == trim_start(
                v@.subrange(start as int, to as int),
            ),
        decreases to - start,
    {
        assert(v@.subrange(start as int, to as int).drop_first() =~= v@.subrange(
            start + 1,
            to as int,
        ));
        start = start + 1;
    }
    let mut end = to;
    while end > start && is_whitespace(v[end - 1])
        invariant
            from <= start <= end <= to <= v@.len(),
            trim_end(v@.subrange(start as int, to as int)) == trim_end(
                v@.subrange(start as int, end as int),
            ),
        decreases end - start,
    {
        assert(v@.subrange(start as int, end as int).drop_last() =~= v@.subrange(
            start as int,
            end - 1,
        ));
        end = end - 1;
    }
    (start, end)
}

/// `s.trim()` as a new `String`.
pub fn trim_str(s: &str) -> (r: String)
    ensures
        r@ == trim(s@),
{
    let v = str_to_chars(s);
    let (start, end) = trim_bounds(v.as_slice(), 0, v.len());
    assert(v@.subrange(0, v@.len() as int) =~= v@);
    chars_to_string(v.as_slice(), start, end)
}

/// The length of `trim_end(v[0..to])`.
pub fn trim_end_len(v: &[char], to: usize) -> (n: usize)
    requires
        to <= v@.len(),
    ensures
        n <= to,
        v@.subrange(0, n as int) == trim_end(v@.subrange(0, to as int)),
{
    let mut end = to;
    while end > 0 && is_whitespace(v[end - 1])
        invariant
            end <= to <= v@.len(),
            trim_end(v@.subrange(0, to as int)) == trim_end(v@.subrange(0, end as int)),
        decreases end,
    {
        assert(v@.subrange(0, end as int).drop_last() =~= v@.subrange(0, end - 1));
        end = end - 1;
    }
    end
}

/// `s.trim_end()` as a new `String`.
pub fn trim_end_str(s: &str) -> (r: String)
    ensures
        r@ == trim_end(s@),
{
    let v = str_to_chars(s);
    let n = trim_end_len(v.as_slice(), v.len());
    assert(v@.subrange(0, v@.len() as int) =~= v@);
    chars_to_string(v.as_slice(), 0, n)
}

/// Whether `v[from..to]` holds exactly the characters of `lit`.
pub fn range_eq_str(v: &[char], from: usize, to: usize, lit: &str) -> (b: bool)
    requires
        from <= to <= v@.len(),
    ensures
        b == (v@.subrange(from as int, to as int) == lit@),
{
    let n = lit.unicode_len();
    if to - from != n {
        return false;
    }
    let mut i: usize = 0;
    while i < n
        invariant
            from <= to <= v@.len(),
            to - from == n == lit@.len(),
            i <= n,
            forall|j: int| 0 <= j < i ==> v@[from + j] == lit@[j],
        decreases n - i,
    {
        if v[from + i] != lit.get_char(i) {
            assert(v@.subrange(from as int, to as int)[i as int] != lit@[i as int]);
            return false;
        }
        i = i + 1;
    }
    assert(v@.subrange(from as int, to as int) =~= lit@);
    true
}

/// Whether `s` and `t` hold the same characters.
pub fn str_eq(s: &str, t: &str) -> (b: bool)
    ensures
        b == (s@ == t@),
{
    let v = str_to_chars(s);
    assert(v@.subrange(0, v@.len() as int) =~= v@);
    range_eq_str(v.as_slice(), 0, v.len(), t)
}

/// The strings of `parts` joined with `sep`, as `[String]::join` gives it.
pub fn join_strings(parts: &[String], sep: &str) -> (r: String)
    ensures
        r@ == join(views(parts@), sep@),
{
    assert(views(parts@).skip(0) =~= views(parts@));
    join_strings_from(parts, 0, sep)
}

/// The strings of `parts[from..]` joined with `sep`.
pub fn join_strings_from(parts: &[String], from: usize, sep: &str) -> (r: String)
    requires
        from <= parts@.len(),
    ensures
        r@ == join(views(parts@).skip(from as int), sep@),
{
    let ghost all = views(parts@).skip(from as int);
    let mut r = String::new();
    let mut i: usize = from;
    while i < parts.len()
        invariant
            from <= i <= parts@.len(),
            all == views(parts@).skip(from as int),
            r@ == join(all.take(i - from), sep@),
        decreases parts@.len() - i,
    {
        let ghost before = all.take(i - from);
        if i > from {
            r.append(sep);
        }
        r.append(parts[i].as_str());
        proof {
            let after = all.take(i + 1 - from);
            assert(after.drop_last() =~= before);
            assert(after.last() == parts@[i as int]@);
            if i == from {
                assert(r@ =~= after[0]);
            }
        }
        i = i + 1;
    }
    assert(all.take(parts@.len() - from) =~= all);
    r
}

/// `trim_start(s)` is a suffix of `s` that is empty or starts with a
/// non-whitespace character.
pub proof fn lemma_trim_start_shape(s: Seq<char>)
    ensures
        trim_start(s).len() <= s.len(),
        trim_start(s) == s.skip(s.len() - trim_start(s).len()),
        trim_start(s).len() == 0 || !is_ws(trim_start(s)[0]),
    decreases s.len(),
{
    if s.len() > 0 && is_ws(s[0]) {
        lemma_trim_start_shape(s.drop_first());
        assert(s.drop_first().skip(s.drop_first().len() - trim_start(s).len()) =~= s.skip(
            s.len() - trim_start(s).len(),
        ));
    } else {
        assert(s.skip(0) =~= s);
    }
}

/// `trim_end(s)` is a prefix of `s` that is empty or ends with a
/// non-whitespace character.
pub proof fn lemma_trim_end_shape(s: Seq<char>)
    ensures
        trim_end(s).len() <= s.len(),
        trim_end(s) == s.take(trim_end(s).len() as int),
        trim_end(s).len() == 0 || !is_ws(trim_end(s).last()),
    decreases s.len(),
{
    if s.len() > 0 && is_ws(s.last()) {
        lemma_trim_end_shape(s.drop_last());
        assert(s.drop_last().take(trim_end(s).len() as int) =~= s.take(
            trim_end(s).len() as int,
        ));
    } else {
        assert(s.take(s.len() as int) =~= s);
    }
}

/// Trimming a trimmed text changes nothing.
pub proof fn lemma_trim_idempotent(s: Seq<char>)
    ensures
        trim(trim(s)) == trim(s),
{
    let u = trim_start(s);
    let w = trim_end(u);
    lemma_trim_start_shape(s);
    lemma_trim_end_shape(u);
    if w.len() > 0 {
        assert(w[0] == u[0]);
    }
    assert(trim_start(w) == w);
    lemma_trim_end_shape(w);
    assert(trim_end(w) == w);
}

/// A text that starts and ends with non-whitespace is its own trim.
pub proof fn lemma_trim_noop(s: Seq<char>)
    requires
        s.len() > 0,
        !is_ws(s[0]),
        !is_ws(s.last()),
    ensures
        trim(s) == s,
{
    assert(trim_start(s) == s);
    assert(trim_end(s) == s);
}


/// `s` with every `from` replaced by `to`, as `str::replace` gives it for a
/// single-character pattern.
pub open spec fn replaced(s: Seq<char>, from: char, to: Seq<char>) -> Seq<char>
    decreases s.len(),
{
    if s.len() == 0 {
        Seq::empty()
    } else {
        replaced(s.drop_last(), from, to) + (if s.last() == from {
            to
        } else {
            seq![s.last()]
        })
    }
}

/// `s.replace(from, to)` for a single character `from`.
pub fn replace_char(s: &str, from: char, to: &str) -> (r: String)
    ensures
        r@ == replaced(s@, from, to@),
{
    let v = str_to_chars(s);
    let mut r = String::new();
    let mut i: usize = 0;
    while i < v.len()
        invariant
            i <= v@.len(),
            v@ == s@,
            r@ == replaced(v@.take(i as int), from, to@),
        decreases v@.len() - i,
    {
        assert(v@.take(i + 1).drop_last() =~= v@.take(i as int));
        if v[i] == from {
            r.append(to);
        } else {
            push_char(&mut r, v[i]);
        }
        i = i + 1;
    }
    assert(v@.take(v@.len() as int) =~= v@);
    r
}

/// The decimal digit for `d < 10`.
pub open spec fn digit(d: nat) -> char {
    (d + 48) as char
}

/// The decimal notation of `n`, without leading zeros.
pub open spec fn decimal(n: nat) -> Seq<char>
    decreases n,
{
    if n < 10 {
        seq![digit(n)]
    } else {
        decimal(n / 10).push(digit(n % 10))
    }
}

/// `s` padded on the left with zeros to at least `width` characters.
pub open spec fn zero_padded(s: Seq<char>, width: nat) -> Seq<char> {
    if s.len() < width {
        Seq::new((width - s.len()) as nat, |i: int| '0') + s
    } else {
        s
    }
}

/// How `{:?}` shows an `i32`.
pub open spec fn signed_decimal(n: int) -> Seq<char> {
    if n < 0 {
        seq!['-'] + decimal((-n) as nat)
    } else {
        decimal(n as nat)
    }
}

/// Appends the decimal notation of `n`.
pub fn push_decimal(s: &mut String, n: u64)
    ensures
        final(s)@ == old(s)@ + decimal(n as nat),
    decreases n,
{
    if n >= 10 {
        push_decimal(s, n / 10);
    }
    let d: u8 = (n % 10) as u8;
    push_char(s, (d + 48) as char);
    assert(old(s)@ + decimal(n as nat) =~= s@);
}

/// Appends `n` as `{:04}`-style formatting shows it: zero-padded to `width`.
pub fn push_zero_padded(s: &mut String, n: u64, width: usize)
    ensures
        final(s)@ == old(s)@ + zero_padded(decimal(n as nat), width as nat),
{
    let mut digits = String::new();
    push_decimal(&mut digits, n);
    let len = digits.as_str().unicode_len();
    let mut k = len;
    let ghost start = s@;
    while k < width
        invariant
            len == decimal(n as nat).len(),
            len <= k,
            k <= width || len > width,
            len >= width ==> k == len,
            s@ == start + Seq::new((k - len) as nat, |i: int| '0'),
        decreases width - k,
    {
        push_char(s, '0');
        assert(Seq::new((k + 1 - len) as nat, |i: int| '0') =~= Seq::new(
            (k - len) as nat,
            |i: int| '0',
        ).push('0'));
        k = k + 1;
    }
    proof {
        if len >= width {
            assert(Seq::new((k - len) as nat, |i: int| '0') =~= Seq::<char>::empty());
        }
    }
    s.append(digits.as_str());
    assert(s@ =~= start + zero_padded(decimal(n as nat), width as nat));
}

/// Appends `n` as `{:?}` shows an `i32`.
pub fn push_signed_decimal(s: &mut String, n: i32)
    ensures
        final(s)@ == old(s)@ + signed_decimal(n as int),
{
    if n < 0 {
        push_char(s, '-');
        let m: u64 = (0i64 - (n as i64)) as u64;
        push_decimal(s, m);
        assert(s@ =~= old(s)@ + signed_decimal(n as int));
    } else {
        push_decimal(s, n as u64);
    }
}


/// The pieces of `s` between occurrences of `d`, as `str::split` gives them
/// for a single-character pattern (always at least one piece).
pub open spec fn split_on(s: Seq<char>, d: char) -> Seq<Seq<char>>
    decreases s.len(),
{
    if s.len() == 0 {
        seq![Seq::empty()]
    } else {
        let p = split_on(s.drop_last(), d);
        if s.last() == d {
            p.push(Seq::empty())
        } else {
            p.update(p.len() - 1, p.last().push(s.last()))
        }
    }
}

pub proof fn lemma_split_on_nonempty(s: Seq<char>, d: char)
    ensures
        split_on(s, d).len() >= 1,
    decreases s.len(),
{
    if s.len() > 0 {
        lemma_split_on_nonempty(s.drop_last(), d);
    }
}

/// The pieces at odd positions: the first, third, fifth, ... piece after
/// the first.
pub open spec fn odd_pieces(p: Seq<Seq<char>>) -> Seq<Seq<char>> {
    Seq::new(p.len() / 2, |k: int| p[2 * k + 1])
}


/// A copy of a list of strings.
pub fn clone_strings(v: &[String]) -> (r: Vec<String>)
    ensures
        r@ == v@,
{
    let mut r: Vec<String> = Vec::new();
    let mut i: usize = 0;
    while i < v.len()
        invariant
            i <= v@.len(),
            r@ == v@.take(i as int),
        decreases v@.len() - i,
    {
        r.push(v[i].clone());
        assert(r@ =~= v@.take(i + 1));
        i = i + 1;
    }
    assert(v@.take(v@.len() as int) =~= v@);
    r
}


pub proof fn lemma_split_push(x: Seq<char>, c: char, d: char)
    ensures
        split_on(x.push(c), d) == (if c == d {
            split_on(x, d).push(Seq::empty())
        } else {
            split_on(x, d).update(
                split_on(x, d).len() - 1,
                split_on(x, d).last().push(c),
            )
        }),
{
    assert(x.push(c).drop_last() =~= x);
}

/// Appending text without `d` extends the last piece.
pub proof fn lemma_split_append_plain(s: Seq<char>, t: Seq<char>, d: char)
    requires
        !t.contains(d),
    ensures
        split_on(s + t, d) == split_on(s, d).update(
            split_on(s, d).len() - 1,
            split_on(s, d).last() + t,
        ),
    decreases t.len(),
{
    lemma_split_on_nonempty(s, d);
    if t.len() == 0 {
        assert(s + t =~= s);
        assert(split_on(s, d).last() + t =~= split_on(s, d).last());
        assert(split_on(s, d).update(split_on(s, d).len() - 1, split_on(s, d).last())
            =~= split_on(s, d));
    } else {
        let u = t.drop_last();
        assert(!u.contains(d)) by {
            if u.contains(d) {
                let k = choose|k: int| 0 <= k < u.len() && u[k] == d;
                assert(t[k] == d);
            }
        }
        assert(t.last() != d) by {
            assert(t[t.len() - 1] == t.last());
        }
        lemma_split_append_plain(s, u, d);
        assert(s + t =~= (s + u).push(t.last()));
        lemma_split_push(s + u, t.last(), d);
        lemma_split_on_nonempty(s + u, d);
        let p = split_on(s, d);
        let q = split_on(s + u, d);
        assert(q.len() == p.len());
        assert(q.last() == p.last() + u);
        assert((p.last() + u).push(t.last()) =~= p.last() + t);
        assert(split_on(s + t, d) =~= p.update(p.len() - 1, p.last() + t));
    }
}


/// Replacing a character distributes over concatenation.
pub proof fn lemma_replaced_concat(a: Seq<char>, b: Seq<char>, from: char, to: Seq<char>)
    ensures
        replaced(a + b, from, to) == replaced(a, from, to) + replaced(b, from, to),
    decreases b.len(),
{
    if b.len() == 0 {
        assert(a + b =~= a);
        assert(replaced(a, from, to) + replaced(b, from, to) =~= replaced(a, from, to));
    } else {
        lemma_replaced_concat(a, b.drop_last(), from, to);
        assert((a + b).drop_last() =~= a + b.drop_last());
        assert((a + b).last() == b.last());
        let tail = if b.last() == from {
            to
        } else {
            seq![b.last()]
        };
        assert(replaced(a + b, from, to) =~= replaced(a, from, to) + replaced(b.drop_last(), from, to) + tail);
    }
}


proof fn lemma_trim_end_drop_first(s: Seq<char>)
    requires
        s.len() > 0,
    ensures
        trim_end(s.drop_first()) == (if trim_end(s).len() > 0 {
            trim_end(s).drop_first()
        } else {
            Seq::<char>::empty()
        }),
    decreases s.len(),
{
    if is_ws(s.last()) {
        if s.len() == 1 {
            assert(s.drop_first() =~= Seq::<char>::empty());
            assert(s.drop_last() =~= Seq::<char>::empty());
        } else {
            assert(s.drop_first().last() == s.last());
            assert(s.drop_first().drop_last() =~= s.drop_last().drop_first());
            lemma_trim_end_drop_first(s.drop_last());
        }
    } else {
        if s.len() == 1 {
            assert(s.drop_first() =~= Seq::<char>::empty());
        } else {
            assert(s.drop_first().last() == s.last());
        }
    }
}

/// Trimming the start and trimming the end commute.
pub proof fn lemma_trim_start_end_commute(s: Seq<char>)
    ensures
        trim_end(trim_start(s)) == trim_start(trim_end(s)),
    decreases s.len(),
{
    lemma_trim_end_shape(s);
    if s.len() > 0 && is_ws(s[0]) {
        lemma_trim_start_end_commute(s.drop_first());
        lemma_trim_end_drop_first(s);
        let t = trim_end(s);
        if t.len() > 0 {
            assert(t[0] == s[0]);
        }
    } else {
        let t = trim_end(s);
        if t.len() > 0 {
            assert(t[0] == s[0]);
        }
    }
}

/// Trimming after trimming the end is trimming.
pub proof fn lemma_trim_of_trim_end(s: Seq<char>)
    ensures
        trim(trim_end(s)) == trim(s),
{
    lemma_trim_start_end_commute(s);
    lemma_trim_end_shape(trim_start(s));
    let u = trim_end(trim_start(s));
    lemma_trim_end_shape(u);
    assert(trim_end(u) == u);
}

/// Trailing whitespace of an appended text is trimmed from the whole.
pub proof fn lemma_trim_end_concat(p: Seq<char>, s: Seq<char>)
    requires
        trim_end(s).len() > 0,
    ensures
        trim_end(p + s) == p + trim_end(s),
    decreases s.len(),
{
    if s.len() > 0 && is_ws(s.last()) {
        assert((p + s).last() == s.last());
        assert((p + s).drop_last() =~= p + s.drop_last());
        lemma_trim_end_concat(p, s.drop_last());
    } else {
        assert((p + s).last() == s.last());
    }
}


/// Whether `t` occurs in `s` as a contiguous piece.
pub open spec fn occurs(t: Seq<char>, s: Seq<char>) -> bool {
    exists|i: int| 0 <= i && i + t.len() <= s.len() && #[trigger] s.subrange(i, i + t.len()) == t
}

/// Whether `s` ends with `t`.
pub open spec fn ends_with(s: Seq<char>, t: Seq<char>) -> bool {
    t.len() <= s.len() && s.skip(s.len() - t.len()) == t
}

/// A concatenation starts with its first part and ends with its last.
pub proof fn lemma_ends_of_concat(a: Seq<char>, b: Seq<char>)
    ensures
        a.is_prefix_of(a + b),
        ends_with(a + b, b),
{
    assert((a + b).skip((a + b).len() - b.len()) =~= b);
}

/// A piece occurs in any concatenation that ends with it.
pub proof fn lemma_occurs_at_end(a: Seq<char>, t: Seq<char>)
    ensures
        occurs(t, a + t),
{
    assert((a + t).subrange(a.len() as int, (a.len() + t.len()) as int) =~= t);
}

/// What occurs in a sequence occurs in any extension of it.
pub proof fn lemma_occurs_extend(t: Seq<char>, a: Seq<char>, b: Seq<char>)
    requires
        occurs(t, a),
    ensures
        occurs(t, a + b),
{
    let i = choose|i: int| 0 <= i && i + t.len() <= a.len() && #[trigger] a.subrange(i, i + t.len()) == t;
    assert((a + b).subrange(i, i + t.len()) =~= a.subrange(i, i + t.len()));
}

/// A prefix of a sequence is a prefix of any extension of it.
pub proof fn lemma_prefix_extend(t: Seq<char>, a: Seq<char>, b: Seq<char>)
    requires
        t.is_prefix_of(a),
    ensures
        t.is_prefix_of(a + b),
{
}

/// Appends `before`, `mid` and `after` to `r`, as one piece.
pub fn push_around(r: &mut String, before: &str, mid: &str, after: &str)
    ensures
        final(r)@ == old(r)@ + (before@ + mid@ + after@),
{
    let mut piece = before.to_owned();
    piece.append(mid);
    piece.append(after);
    r.append(piece.as_str());
}

/// Three pieces that end a concatenation occur in it together.
pub proof fn lemma_occurs_at_end3(p: Seq<char>, a: Seq<char>, b: Seq<char>, c: Seq<char>)
    ensures
        occurs(a + b + c, p + a + b + c),
{
    let t = a + b + c;
    assert((p + a + b + c).subrange(p.len() as int, (p.len() + t.len()) as int) =~= t);
}

/// Five pieces that end a concatenation occur in it together.
pub proof fn lemma_occurs_at_end5(
    p: Seq<char>,
    a: Seq<char>,
    b: Seq<char>,
    c: Seq<char>,
    d: Seq<char>,
    e: Seq<char>,
)
    ensures
        occurs(a + b + c + d + e, p + a + b + c + d + e),
{
    let t = a + b + c + d + e;
    assert((p + a + b + c + d + e).subrange(p.len() as int, (p.len() + t.len()) as int) =~= t);
}

/// What occurs in a prefix of a sequence occurs in the sequence.
pub proof fn lemma_occurs_in_prefix(t: Seq<char>, a: Seq<char>, s: Seq<char>)
    requires
        occurs(t, a),
        a.is_prefix_of(s),
    ensures
        occurs(t, s),
{
    let i = choose|i: int| 0 <= i && i + t.len() <= a.len() && #[trigger] a.subrange(i, i + t.len()) == t;
    assert(s.subrange(i, i + t.len()) =~= a.subrange(i, i + t.len()));
}

}

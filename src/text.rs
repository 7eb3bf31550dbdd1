//! Text helpers on character sequences: pieces and words, decimal numbers,
//! and conversions between `str`, `String` and `Vec<char>`.
use vstd::prelude::*;

verus! {

/// The characters that `char::is_whitespace` accepts (Unicode White_Space).
pub open spec fn is_ws(c: char) -> bool {
    let u = c as u32;
    u == 0x20 || (0x09 <= u && u <= 0x0d) || u == 0x85 || u == 0xa0 || u == 0x1680 || (0x2000
        <= u && u <= 0x200a) || u == 0x2028 || u == 0x2029 || u == 0x202f || u == 0x205f || u
        == 0x3000
}

/// The maximal runs of non-whitespace characters of `s`, in order.
pub open spec fn words(s: Seq<char>) -> Seq<Seq<char>>
    decreases s.len(),
{
    if s.len() == 0 {
        Seq::empty()
    } else {
        let prev = words(s.drop_last());
        let c = s.last();
        if is_ws(c) {
            prev
        } else if s.len() >= 2 && !is_ws(s[s.len() - 2]) {
            prev.update(prev.len() - 1, prev.last().push(c))
        } else {
            prev.push(seq![c])
        }
    }
}

/// The pieces of `s` between occurrences of `sep`, empty pieces included.
pub open spec fn pieces(s: Seq<char>, sep: char) -> Seq<Seq<char>>
    decreases s.len(),
{
    if s.len() == 0 {
        seq![Seq::empty()]
    } else {
        let prev = pieces(s.drop_last(), sep);
        if s.last() == sep {
            prev.push(Seq::empty())
        } else {
            prev.update(prev.len() - 1, prev.last().push(s.last()))
        }
    }
}

pub open spec fn has_prefix(line: Seq<char>, prefix: Seq<char>) -> bool {
    line.len() >= prefix.len() && line.take(prefix.len() as int) == prefix
}

/// What follows `prefix` on the last of `lines` that starts with it.
pub open spec fn last_tail(lines: Seq<Seq<char>>, prefix: Seq<char>) -> Option<Seq<char>>
    decreases lines.len(),
{
    if lines.len() == 0 {
        None
    } else if has_prefix(lines.last(), prefix) {
        Some(lines.last().skip(prefix.len() as int))
    } else {
        last_tail(lines.drop_last(), prefix)
    }
}

pub open spec fn is_digit(c: char) -> bool {
    '0' as u32 <= c as u32 && c as u32 <= '9' as u32
}

/// The number that a string of decimal digits denotes.
pub open spec fn digits_value(s: Seq<char>) -> nat
    decreases s.len(),
{
    if s.len() == 0 {
        0
    } else {
        digits_value(s.drop_last()) * 10 + (s.last() as u32 - '0' as u32) as nat
    }
}

/// The digits of an unsigned number, after an optional leading `+`.
pub open spec fn unsigned_digits(t: Seq<char>) -> Seq<char> {
    if t.len() > 0 && t[0] == '+' {
        t.drop_first()
    } else {
        t
    }
}

/// Text that `u64::from_str` accepts: an optional `+`, then one or more
/// decimal digits whose value fits a `u64`.
pub open spec fn is_u64_text(t: Seq<char>) -> bool {
    let d = unsigned_digits(t);
    &&& d.len() > 0
    &&& forall|i: int| 0 <= i < d.len() ==> is_digit(#[trigger] d[i])
    &&& digits_value(d) <= u64::MAX
}

/// The value of text that `is_u64_text` accepts.
pub open spec fn u64_of(t: Seq<char>) -> u64 {
    digits_value(unsigned_digits(t)) as u64
}

pub open spec fn views(v: Seq<Vec<char>>) -> Seq<Seq<char>> {
    v.map_values(|w: Vec<char>| w@)
}

/// The characters of `s`, in order.
pub fn to_chars(s: &str) -> (r: Vec<char>)
    ensures
        r@ == s@,
{
    let mut v: Vec<char> = Vec::new();
    for c in it: s.chars()
        invariant
            v@ == it.seq().take(it.index() as int),
    {
        v.push(c);
    }
    v
}

/// Whether `c` is whitespace in the sense of `char::is_whitespace`.
pub fn is_whitespace(c: char) -> (r: bool)
    ensures
        r == is_ws(c),
{
    let u = c as u32;
    u == 0x20 || (0x09 <= u && u <= 0x0d) || u == 0x85 || u == 0xa0 || u == 0x1680 || (0x2000
        <= u && u <= 0x200a) || u == 0x2028 || u == 0x2029 || u == 0x202f || u == 0x205f || u
        == 0x3000
}

/// Splits `s` at whitespace, dropping empty pieces.
pub fn split_words(s: &Vec<char>) -> (r: Vec<Vec<char>>)
    ensures
        views(r@) == words(s@),
{
    let mut toks: Vec<Vec<char>> = Vec::new();
    let mut cur: Vec<char> = Vec::new();
    let mut in_tok = false;
    let n = s.len();
    let mut i: usize = 0;
    while i < n
        invariant
            n == s@.len(),
            i <= n,
            in_tok == (i > 0 && !is_ws(s@[i - 1])),
            !in_tok ==> cur@.len() == 0,
            in_tok ==> words(s@.take(i as int)) == views(toks@).push(cur@),
            !in_tok ==> words(s@.take(i as int)) == views(toks@),
        decreases n - i,
    {
        let c = s[i];
        let ghost before = s@.take(i as int);
        assert(s@.take(i + 1).drop_last() =~= before);
        assert(s@.take(i + 1).last() == c);
        if is_whitespace(c) {
            if in_tok {
                let ghost old_toks = toks@;
                toks.push(cur);
                cur = Vec::new();
                assert(views(toks@) =~= views(old_toks).push(views(toks@).last()));
            }
            in_tok = false;
        } else {
            let ghost old_cur = cur@;
            cur.push(c);
            if in_tok {
                assert(views(toks@).push(cur@) =~= views(toks@).push(old_cur).update(
                    views(toks@).len() as int,
                    old_cur.push(c),
                ));
            } else {
                assert(cur@ =~= seq![c]);
            }
            in_tok = true;
        }
        i = i + 1;
    }
    if in_tok {
        let ghost old_toks = toks@;
        toks.push(cur);
        assert(views(toks@) =~= views(old_toks).push(views(toks@).last()));
    }
    assert(s@.take(n as int) =~= s@);
    toks
}

/// A longer run of digits never denotes a smaller number.
pub proof fn lemma_digits_value_prefix(s: Seq<char>, k: int)
    requires
        0 <= k <= s.len(),
        forall|i: int| 0 <= i < s.len() ==> is_digit(#[trigger] s[i]),
    ensures
        digits_value(s.take(k)) <= digits_value(s),
    decreases s.len(),
{
    if k < s.len() {
        let p = s.drop_last();
        assert(p.take(k) =~= s.take(k));
        assert forall|i: int| 0 <= i < p.len() implies is_digit(#[trigger] p[i]) by {
            assert(p[i] == s[i]);
        }
        lemma_digits_value_prefix(p, k);
    } else {
        assert(s.take(k) =~= s);
    }
}

/// Reads a non-negative 64-bit integer as `u64::from_str` does.
pub fn parse_u64(t: &Vec<char>) -> (r: Option<u64>)
    ensures
        r == (if is_u64_text(t@) {
            Some(u64_of(t@))
        } else {
            None::<u64>
        }),
{
    let n = t.len();
    let start: usize = if n > 0 && t[0] == '+' {
        1
    } else {
        0
    };
    let ghost d = unsigned_digits(t@);
    assert(d =~= t@.skip(start as int));
    if start >= n {
        return None;
    }
    let mut acc: u64 = 0;
    let mut i: usize = start;
    while i < n
        invariant
            start <= i <= n,
            n == t@.len(),
            d == t@.skip(start as int),
            d == unsigned_digits(t@),
            acc == digits_value(d.take(i - start)),
            forall|j: int| 0 <= j < i - start ==> is_digit(#[trigger] d[j]),
        decreases n - i,
    {
        let c = t[i];
        assert(d[i - start] == c);
        let u = c as u32;
        if !(u >= '0' as u32 && u <= '9' as u32) {
            assert(!is_digit(d[i - start]));
            assert(!is_u64_text(t@));
            return None;
        }
        let dig = (u - '0' as u32) as u64;
        let ghost next = d.take(i - start + 1);
        assert(next.drop_last() =~= d.take(i - start));
        assert(digits_value(next) == acc * 10 + dig);
        if acc > (u64::MAX - dig) / 10 {
            assert(acc * 10 + dig > u64::MAX) by (nonlinear_arith)
                requires
                    acc > (u64::MAX - dig) / 10,
                    dig <= 9,
            ;
            proof {
                if forall|j: int| 0 <= j < d.len() ==> is_digit(#[trigger] d[j]) {
                    lemma_digits_value_prefix(d, i - start + 1);
                }
                assert(!is_u64_text(t@));
            }
            return None;
        }
        acc = acc * 10 + dig;
        i = i + 1;
    }
    assert(d.take(n - start) =~= d);
    Some(acc)
}

pub open spec fn opt_view(o: Option<Vec<char>>) -> Option<Seq<char>> {
    match o {
        Some(v) => Some(v@),
        None => None,
    }
}

/// What follows `prefix` on `line`, where `line` starts with it.
pub fn tail_after(line: &Vec<char>, prefix: &Vec<char>) -> (r: Option<Vec<char>>)
    ensures
        opt_view(r) == (if has_prefix(line@, prefix@) {
            Some(line@.skip(prefix@.len() as int))
        } else {
            None::<Seq<char>>
        }),
{
    let n = line.len();
    let p = prefix.len();
    if n < p {
        return None;
    }
    let mut i: usize = 0;
    while i < p
        invariant
            p == prefix@.len(),
            p <= n == line@.len(),
            i <= p,
            forall|j: int| 0 <= j < i ==> line@[j] == prefix@[j],
        decreases p - i,
    {
        if line[i] != prefix[i] {
            assert(line@.take(p as int)[i as int] != prefix@[i as int]);
            return None;
        }
        i = i + 1;
    }
    assert(line@.take(p as int) =~= prefix@);
    let mut rest: Vec<char> = Vec::new();
    let mut k: usize = p;
    while k < n
        invariant
            p <= k <= n == line@.len(),
            rest@ == line@.subrange(p as int, k as int),
        decreases n - k,
    {
        rest.push(line[k]);
        assert(rest@ =~= line@.subrange(p as int, k + 1));
        k = k + 1;
    }
    assert(rest@ =~= line@.skip(p as int));
    Some(rest)
}

/// Whether two character vectors are equal.
pub fn chars_eq(a: &Vec<char>, b: &Vec<char>) -> (r: bool)
    ensures
        r == (a@ == b@),
{
    if a.len() != b.len() {
        return false;
    }
    let mut i: usize = 0;
    while i < a.len()
        invariant
            a@.len() == b@.len(),
            i <= a@.len(),
            forall|j: int| 0 <= j < i ==> a@[j] == b@[j],
        decreases a@.len() - i,
    {
        if a[i] != b[i] {
            return false;
        }
        i = i + 1;
    }
    assert(a@ =~= b@);
    true
}

/// Splits `s` at every `sep`, keeping empty pieces, as `str::split` does.
pub fn split_at_char(s: &Vec<char>, sep: char) -> (r: Vec<Vec<char>>)
    ensures
        views(r@) == pieces(s@, sep),
{
    let mut done: Vec<Vec<char>> = Vec::new();
    let mut cur: Vec<char> = Vec::new();
    let n = s.len();
    let mut i: usize = 0;
    assert(pieces(s@.take(0), sep) =~= views(done@).push(cur@));
    while i < n
        invariant
            n == s@.len(),
            i <= n,
            pieces(s@.take(i as int), sep) == views(done@).push(cur@),
        decreases n - i,
    {
        let c = s[i];
        assert(s@.take(i + 1).drop_last() =~= s@.take(i as int));
        assert(s@.take(i + 1).last() == c);
        if c == sep {
            let ghost old_done = views(done@);
            let ghost old_cur = cur@;
            done.push(cur);
            cur = Vec::new();
            assert(views(done@).push(cur@) =~= old_done.push(old_cur).push(Seq::empty()));
        } else {
            let ghost old_cur = cur@;
            cur.push(c);
            assert(views(done@).push(cur@) =~= views(done@).push(old_cur).update(
                views(done@).len() as int,
                old_cur.push(c),
            ));
        }
        i = i + 1;
    }
    let ghost old_done = views(done@);
    let ghost last = cur@;
    done.push(cur);
    assert(views(done@) =~= old_done.push(last));
    assert(s@.take(n as int) =~= s@);
    done
}

/// The decimal digit character for `d < 10`.
pub open spec fn digit_char(d: nat) -> char {
    (48 + d) as u8 as char
}

/// The decimal digits of `n`, without leading zeros.
pub open spec fn decimal(n: nat) -> Seq<char>
    decreases n,
{
    if n < 10 {
        seq![digit_char(n)]
    } else {
        decimal(n / 10).push(digit_char(n % 10))
    }
}

/// The decimal text of `i`, with a `-` before a negative number.
pub open spec fn signed_decimal(i: int) -> Seq<char> {
    if i < 0 {
        seq!['-'] + decimal((-i) as nat)
    } else {
        decimal(i as nat)
    }
}

/// Appends the decimal digits of `n` to `out`.
pub fn push_decimal(n: u64, out: &mut Vec<char>)
    ensures
        final(out)@ == old(out)@ + decimal(n as nat),
    decreases n,
{
    let ghost start = out@;
    if n >= 10 {
        push_decimal(n / 10, out);
    }
    let d: u8 = (n % 10) as u8;
    out.push((d + 48) as char);
    assert(out@ =~= start + decimal(n as nat));
}

pub open spec fn string_views(v: Seq<String>) -> Seq<Seq<char>> {
    v.map_values(|w: String| w@)
}

/// Relies on `String`'s `FromIterator<&char>`: the string holds the
/// characters in order.
#[verifier::external_body]
pub(crate) fn string_of(chars: &Vec<char>) -> (r: String)
    ensures
        r@ == chars@,
{
    chars.iter().collect()
}

/// A non-empty run of non-whitespace characters.
pub open spec fn is_token(w: Seq<char>) -> bool {
    w.len() > 0 && forall|i: int| 0 <= i < w.len() ==> !is_ws(#[trigger] w[i])
}

/// The words joined by single spaces.
pub open spec fn join_words(ws: Seq<Seq<char>>) -> Seq<char>
    decreases ws.len(),
{
    if ws.len() == 0 {
        Seq::empty()
    } else if ws.len() == 1 {
        ws[0]
    } else {
        join_words(ws.drop_last()) + seq![' '] + ws.last()
    }
}

proof fn lemma_words_append_token(x: Seq<char>, w: Seq<char>)
    requires
        x.len() == 0 || is_ws(x.last()),
        is_token(w),
    ensures
        words(x + w) == words(x).push(w),
    decreases w.len(),
{
    let s = x + w;
    let c = w.last();
    let wp = w.drop_last();
    assert(s.drop_last() =~= x + wp);
    assert(s.last() == c);
    assert(!is_ws(c));
    if wp.len() == 0 {
        assert(x + wp =~= x);
        assert(w =~= seq![c]);
    } else {
        assert(is_token(wp)) by {
            assert forall|i: int| 0 <= i < wp.len() implies !is_ws(#[trigger] wp[i]) by {
                assert(wp[i] == w[i]);
            }
        }
        lemma_words_append_token(x, wp);
        assert(s[s.len() - 2] == wp.last());
        assert(wp.push(c) =~= w);
        assert(words(x).push(wp).update(words(x).len() as int, wp.push(c)) =~= words(x).push(w));
    }
}

/// Splitting words joined by single spaces gives the words back.
pub proof fn lemma_words_of_join(ws: Seq<Seq<char>>)
    requires
        forall|i: int| 0 <= i < ws.len() ==> is_token(#[trigger] ws[i]),
    ensures
        words(join_words(ws)) == ws,
    decreases ws.len(),
{
    if ws.len() == 1 {
        lemma_words_append_token(Seq::empty(), ws[0]);
        assert(Seq::<char>::empty() + ws[0] =~= ws[0]);
        assert(Seq::<Seq<char>>::empty().push(ws[0]) =~= ws);
    } else if ws.len() > 1 {
        let p = ws.drop_last();
        assert forall|i: int| 0 <= i < p.len() implies is_token(#[trigger] p[i]) by {
            assert(p[i] == ws[i]);
        }
        lemma_words_of_join(p);
        let x = join_words(p) + seq![' '];
        assert(x.drop_last() =~= join_words(p));
        assert(is_ws(x.last()));
        assert(is_token(ws[ws.len() - 1]));
        lemma_words_append_token(x, ws.last());
        assert(p.push(ws.last()) =~= ws);
    } else {
        assert(ws =~= Seq::<Seq<char>>::empty());
    }
}

/// Words joined by single spaces hold no line break.
pub proof fn lemma_join_has_no_newline(ws: Seq<Seq<char>>)
    requires
        forall|i: int| 0 <= i < ws.len() ==> is_token(#[trigger] ws[i]),
    ensures
        forall|i: int| 0 <= i < join_words(ws).len() ==> #[trigger] join_words(ws)[i] != '\n',
    decreases ws.len(),
{
    if ws.len() == 1 {
        assert(is_token(ws[0]));
    } else if ws.len() > 1 {
        let p = ws.drop_last();
        assert forall|i: int| 0 <= i < p.len() implies is_token(#[trigger] p[i]) by {
            assert(p[i] == ws[i]);
        }
        lemma_join_has_no_newline(p);
        let j = join_words(ws);
        let jp = join_words(p);
        assert(is_token(ws[ws.len() - 1]));
        assert forall|i: int| 0 <= i < j.len() implies #[trigger] j[i] != '\n' by {
            if i < jp.len() {
                assert(j[i] == jp[i]);
            } else if i == jp.len() {
                assert(j[i] == ' ');
            } else {
                assert(j[i] == ws.last()[i - jp.len() - 1]);
            }
        }
    }
}

proof fn lemma_pieces_nonempty(s: Seq<char>, sep: char)
    ensures
        pieces(s, sep).len() >= 1,
    decreases s.len(),
{
    if s.len() > 0 {
        lemma_pieces_nonempty(s.drop_last(), sep);
    }
}

/// Text without a separator extends the last piece.
pub proof fn lemma_pieces_append(x: Seq<char>, w: Seq<char>, sep: char)
    requires
        forall|i: int| 0 <= i < w.len() ==> #[trigger] w[i] != sep,
    ensures
        pieces(x + w, sep) == pieces(x, sep).update(
            pieces(x, sep).len() - 1,
            pieces(x, sep).last() + w,
        ),
    decreases w.len(),
{
    lemma_pieces_nonempty(x, sep);
    let p = pieces(x, sep);
    if w.len() == 0 {
        assert(x + w =~= x);
        assert(p.last() + w =~= p.last());
        assert(p.update(p.len() - 1, p.last()) =~= p);
    } else {
        let wp = w.drop_last();
        assert forall|i: int| 0 <= i < wp.len() implies #[trigger] wp[i] != sep by {
            assert(wp[i] == w[i]);
        }
        lemma_pieces_append(x, wp, sep);
        assert((x + w).drop_last() =~= x + wp);
        assert((x + w).last() == w.last());
        assert(w.last() == w[w.len() - 1]);
        assert((p.last() + wp).push(w.last()) =~= p.last() + w);
        assert(p.update(p.len() - 1, p.last() + wp).update(p.len() - 1, p.last() + w) =~= p.update(
            p.len() - 1,
            p.last() + w,
        ));
    }
}

/// The decimal text of `n` is a run of digits that denotes `n`.
pub proof fn lemma_decimal_digits(n: nat)
    ensures
        decimal(n).len() > 0,
        forall|i: int| 0 <= i < decimal(n).len() ==> is_digit(#[trigger] decimal(n)[i]),
        digits_value(decimal(n)) == n,
    decreases n,
{
    let d = (n % 10) as nat;
    assert(digit_char(d) as u32 == 48 + d);
    if n >= 10 {
        lemma_decimal_digits(n / 10);
        let p = decimal(n / 10);
        assert(decimal(n).drop_last() =~= p);
        assert(decimal(n).last() == digit_char(d));
        assert((n / 10) * 10 + n % 10 == n) by (nonlinear_arith);
        assert(digits_value(decimal(n)) == digits_value(p) * 10 + d);
        assert forall|i: int| 0 <= i < decimal(n).len() implies is_digit(#[trigger] decimal(n)[i]) by {
            if i < p.len() {
                assert(decimal(n)[i] == p[i]);
            }
        }
    } else {
        assert(decimal(n).drop_last() =~= Seq::<char>::empty());
        assert(decimal(n).last() == digit_char(d));
        assert(digits_value(decimal(n)) == digits_value(Seq::<char>::empty()) * 10 + d);
    }
}

} // verus!

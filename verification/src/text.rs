//! Character-level helpers over strings, with their specifications.

use vstd::prelude::*;

verus! {

/// Appends one character to a `String` (`String::push`).
#[verifier::external_body]
pub(crate) fn push_char(s: &mut String, c: char)
    ensures
        final(s)@ == old(s)@.push(c),
{
    s.push(c);
}

/// The characters of `s`, in order.
pub fn chars_of(s: &str) -> (res: Vec<char>)
    ensures
        res@ == s@,
{
    let mut res: Vec<char> = Vec::new();
    for c in it: s.chars()
        invariant
            res@ == it.seq().take(it.index() as int),
            it.seq() == s@,
    {
        res.push(c);
    }
    res
}

/// A `String` holding exactly the given characters.
pub fn string_of(v: &Vec<char>) -> (res: String)
    ensures
        res@ == v@,
{
    let mut res = String::new();
    let mut i: usize = 0;
    while i < v.len()
        invariant
            i <= v.len(),
            res@ == v@.take(i as int),
        decreases v.len() - i,
    {
        push_char(&mut res, v[i]);
        assert(v@.take(i as int).push(v@[i as int]) =~= v@.take(i + 1));
        i = i + 1;
    }
    assert(v@.take(v.len() as int) =~= v@);
    res
}

/// Appends all characters of `s` to `v`.
pub fn extend_chars(v: &mut Vec<char>, s: &str)
    ensures
        final(v)@ == old(v)@ + s@,
{
    let cs = chars_of(s);
    let mut i: usize = 0;
    while i < cs.len()
        invariant
            i <= cs.len(),
            cs@ == s@,
            v@ == old(v)@ + cs@.take(i as int),
        decreases cs.len() - i,
    {
        v.push(cs[i]);
        assert(old(v)@ + cs@.take(i + 1) =~= (old(v)@ + cs@.take(i as int)).push(cs@[i as int]));
        i = i + 1;
    }
    assert(cs@.take(cs.len() as int) =~= cs@);
}

/// Appends all characters of `w` to `v`.
pub fn extend_vec(v: &mut Vec<char>, w: &Vec<char>)
    ensures
        final(v)@ == old(v)@ + w@,
{
    let mut i: usize = 0;
    while i < w.len()
        invariant
            i <= w.len(),
            v@ == old(v)@ + w@.take(i as int),
        decreases w.len() - i,
    {
        v.push(w[i]);
        assert(old(v)@ + w@.take(i + 1) =~= (old(v)@ + w@.take(i as int)).push(w@[i as int]));
        i = i + 1;
    }
    assert(w@.take(w.len() as int) =~= w@);
}

/// Whether `c` is an upper-case ASCII letter.
pub open spec fn is_ascii_upper(c: char) -> bool {
    'A' <= c && c <= 'Z'
}

/// ASCII lower-casing of one character; other characters are unchanged.
pub open spec fn ascii_lower(c: char) -> char {
    if is_ascii_upper(c) {
        ((c as u32) + 32) as char
    } else {
        c
    }
}

/// ASCII lower-casing of a character sequence (`str::to_ascii_lowercase`).
pub open spec fn ascii_lower_seq(s: Seq<char>) -> Seq<char> {
    s.map_values(|c: char| ascii_lower(c))
}

pub fn ascii_lower_char(c: char) -> (r: char)
    ensures
        r == ascii_lower(c),
{
    if 'A' <= c && c <= 'Z' {
        let b: u8 = c as u8;
        ((b + 32) as char)
    } else {
        c
    }
}

/// ASCII lower-cased copy of `v`.
pub fn ascii_lowercase(v: &Vec<char>) -> (res: Vec<char>)
    ensures
        res@ == ascii_lower_seq(v@),
{
    let mut res: Vec<char> = Vec::new();
    let mut i: usize = 0;
    while i < v.len()
        invariant
            i <= v.len(),
            res@ == ascii_lower_seq(v@.take(i as int)),
        decreases v.len() - i,
    {
        res.push(ascii_lower_char(v[i]));
        assert(ascii_lower_seq(v@.take(i + 1)) =~= ascii_lower_seq(v@.take(i as int)).push(
            ascii_lower(v@[i as int]),
        ));
        i = i + 1;
    }
    assert(v@.take(v.len() as int) =~= v@);
    res
}

/// `s` with every trailing occurrence of `c` removed (`str::trim_end_matches`).
pub open spec fn trim_end_char(s: Seq<char>, c: char) -> Seq<char>
    decreases s.len(),
{
    if s.len() > 0 && s.last() == c {
        trim_end_char(s.drop_last(), c)
    } else {
        s
    }
}

pub fn trim_end_char_vec(v: &Vec<char>, c: char) -> (res: Vec<char>)
    ensures
        res@ == trim_end_char(v@, c),
{
    let mut n: usize = v.len();
    assert(v@.take(n as int) =~= v@);
    while n > 0 && v[n - 1] == c
        invariant
            n <= v.len(),
            trim_end_char(v@.take(n as int), c) == trim_end_char(v@, c),
        decreases n,
    {
        assert(v@.take(n as int).drop_last() =~= v@.take(n - 1));
        n = n - 1;
    }
    assert(trim_end_char(v@.take(n as int), c) == v@.take(n as int));
    let mut res: Vec<char> = Vec::new();
    let mut i: usize = 0;
    while i < n
        invariant
            i <= n <= v.len(),
            res@ == v@.take(i as int),
        decreases n - i,
    {
        res.push(v[i]);
        assert(v@.take(i as int).push(v@[i as int]) =~= v@.take(i + 1));
        i = i + 1;
    }
    res
}

/// Whether `s` ends with `suffix`.
pub open spec fn ends_with(s: Seq<char>, suffix: Seq<char>) -> bool {
    suffix.len() <= s.len() && s.subrange(s.len() - suffix.len(), s.len() as int) == suffix
}

pub fn ends_with_vec(v: &Vec<char>, suffix: &Vec<char>) -> (r: bool)
    ensures
        r == ends_with(v@, suffix@),
{
    if suffix.len() > v.len() {
        return false;
    }
    let off = v.len() - suffix.len();
    let mut i: usize = 0;
    while i < suffix.len()
        invariant
            off + suffix.len() == v.len(),
            i <= suffix.len(),
            forall|j: int| 0 <= j < i ==> v@[off + j] == suffix@[j],
        decreases suffix.len() - i,
    {
        if v[off + i] != suffix[i] {
            assert(v@.subrange(off as int, v.len() as int)[i as int] != suffix@[i as int]);
            return false;
        }
        i = i + 1;
    }
    assert(v@.subrange(off as int, v.len() as int) =~= suffix@);
    true
}

/// The first `n` characters of `v`.
pub fn prefix_vec(v: &Vec<char>, n: usize) -> (res: Vec<char>)
    requires
        n <= v.len(),
    ensures
        res@ == v@.take(n as int),
{
    let mut res: Vec<char> = Vec::new();
    let mut i: usize = 0;
    while i < n
        invariant
            i <= n <= v.len(),
            res@ == v@.take(i as int),
        decreases n - i,
    {
        res.push(v[i]);
        assert(v@.take(i as int).push(v@[i as int]) =~= v@.take(i + 1));
        i = i + 1;
    }
    res
}


/// The views of a sequence of character vectors.
pub open spec fn views(v: Seq<Vec<char>>) -> Seq<Seq<char>> {
    v.map_values(|x: Vec<char>| x@)
}

/// `s` split at every occurrence of `sep` (`str::split` with a char pattern):
/// always at least one part; separators are not kept.
pub open spec fn split_on(s: Seq<char>, sep: char) -> Seq<Seq<char>>
    decreases s.len(),
{
    if s.len() == 0 {
        seq![Seq::empty()]
    } else {
        let prev = split_on(s.drop_last(), sep);
        if s.last() == sep {
            prev.push(Seq::empty())
        } else {
            prev.update(prev.len() - 1, prev.last().push(s.last()))
        }
    }
}

/// The parts joined with `sep` between consecutive parts (`[..].join(sep)`).
pub open spec fn join_with(parts: Seq<Seq<char>>, sep: char) -> Seq<char>
    decreases parts.len(),
{
    if parts.len() == 0 {
        Seq::empty()
    } else if parts.len() == 1 {
        parts[0]
    } else {
        join_with(parts.drop_last(), sep).push(sep) + parts.last()
    }
}

/// Whether `c` occurs in `s`.
pub open spec fn has_char(s: Seq<char>, c: char) -> bool {
    exists|i: int| 0 <= i < s.len() && s[i] == c
}

pub proof fn lemma_split_nonempty(s: Seq<char>, sep: char)
    ensures
        split_on(s, sep).len() >= 1,
    decreases s.len(),
{
    if s.len() > 0 {
        lemma_split_nonempty(s.drop_last(), sep);
    }
}

/// Appending separator-free text extends the last part.
pub proof fn lemma_split_extend(x: Seq<char>, y: Seq<char>, sep: char)
    requires
        !has_char(y, sep),
    ensures
        split_on(x + y, sep).len() == split_on(x, sep).len(),
        split_on(x + y, sep) == split_on(x, sep).update(
            split_on(x, sep).len() - 1,
            split_on(x, sep).last() + y,
        ),
    decreases y.len(),
{
    lemma_split_nonempty(x, sep);
    if y.len() == 0 {
        assert(x + y =~= x);
        assert(split_on(x, sep).last() + y =~= split_on(x, sep).last());
        assert(split_on(x, sep).update(split_on(x, sep).len() - 1, split_on(x, sep).last())
            =~= split_on(x, sep));
    } else {
        let y2 = y.drop_last();
        assert(!has_char(y2, sep)) by {
            if has_char(y2, sep) {
                let i = choose|i: int| 0 <= i < y2.len() && y2[i] == sep;
                assert(y[i] == sep);
            }
        }
        lemma_split_extend(x, y2, sep);
        assert((x + y).drop_last() =~= x + y2);
        assert((x + y).last() == y.last());
        assert(y.last() != sep) by {
            assert(y[y.len() - 1] == y.last());
        }
        let p = split_on(x, sep);
        assert(p.last() + y2 + seq![y.last()] =~= p.last() + y);
        assert((p.last() + y2).push(y.last()) =~= p.last() + y);
        assert(split_on(x + y, sep) =~= p.update(p.len() - 1, p.last() + y));
    }
}

/// Splitting what was joined gives back the parts, when no part holds the separator.
pub proof fn lemma_split_join(parts: Seq<Seq<char>>, sep: char)
    requires
        parts.len() >= 1,
        forall|i: int| 0 <= i < parts.len() ==> !has_char(#[trigger] parts[i], sep),
    ensures
        split_on(join_with(parts, sep), sep) == parts,
    decreases parts.len(),
{
    if parts.len() == 1 {
        let e: Seq<char> = Seq::empty();
        lemma_split_extend(e, parts[0], sep);
        assert(e + parts[0] =~= parts[0]);
        assert(split_on(e, sep) =~= seq![e]);
        assert(seq![e].update(0, e + parts[0]) =~= parts);
    } else {
        let init = parts.drop_last();
        lemma_split_join(init, sep);
        let j = join_with(init, sep);
        lemma_split_extend(j.push(sep), parts.last(), sep);
        assert(j.push(sep).drop_last() =~= j);
        lemma_split_nonempty(j, sep);
        let e: Seq<char> = Seq::empty();
        assert(split_on(j.push(sep), sep) == init.push(e));
        assert(e + parts.last() =~= parts.last());
        assert(init.push(e).update(init.len() as int, parts.last()) =~= parts);
    }
}

/// Splits `v` at every `sep`.
pub fn split_vec(v: &Vec<char>, sep: char) -> (res: Vec<Vec<char>>)
    ensures
        views(res@) == split_on(v@, sep),
{
    let mut parts: Vec<Vec<char>> = Vec::new();
    let mut cur: Vec<char> = Vec::new();
    let mut i: usize = 0;
    assert(v@.take(0) =~= Seq::<char>::empty());
    assert(views(parts@).push(cur@) =~= split_on(v@.take(0), sep));
    while i < v.len()
        invariant
            i <= v.len(),
            views(parts@).push(cur@) == split_on(v@.take(i as int), sep),
        decreases v.len() - i,
    {
        let c = v[i];
        let ghost before = views(parts@).push(cur@);
        assert(v@.take(i + 1).drop_last() =~= v@.take(i as int));
        assert(v@.take(i + 1).last() == c);
        if c == sep {
            let done = cur;
            parts.push(done);
            cur = Vec::new();
            assert(views(parts@).push(cur@) =~= before.push(Seq::empty()));
        } else {
            cur.push(c);
            assert(views(parts@).push(cur@) =~= before.update(before.len() - 1, before.last().push(c)));
        }
        i = i + 1;
    }
    assert(v@.take(v.len() as int) =~= v@);
    parts.push(cur);
    assert(views(parts@) =~= split_on(v@, sep));
    parts
}

/// Joins the parts with `sep` between consecutive parts.
pub fn join_vec(parts: &Vec<Vec<char>>, sep: char) -> (res: Vec<char>)
    ensures
        res@ == join_with(views(parts@), sep),
{
    let mut res: Vec<char> = Vec::new();
    let mut i: usize = 0;
    while i < parts.len()
        invariant
            i <= parts.len(),
            res@ == join_with(views(parts@).take(i as int), sep),
        decreases parts.len() - i,
    {
        let ghost prev = res@;
        assert(views(parts@).take(i + 1).drop_last() =~= views(parts@).take(i as int));
        assert(views(parts@).take(i + 1).last() == parts@[i as int]@);
        if i > 0 {
            res.push(sep);
        }
        extend_vec(&mut res, &parts[i]);
        if i == 0 {
            assert(res@ =~= join_with(views(parts@).take(1), sep));
        }
        i = i + 1;
    }
    assert(views(parts@).take(parts.len() as int) =~= views(parts@));
    res
}


/// The decimal digit character for `d` (`0 <= d < 10`).
pub open spec fn digit_char(d: int) -> char {
    (48 + d) as char
}

/// The decimal rendering of a byte, without leading zeros (`u8::to_string`).
pub open spec fn dec_u8(n: u8) -> Seq<char> {
    if n < 10 {
        seq![digit_char(n as int)]
    } else if n < 100 {
        seq![digit_char(n as int / 10), digit_char(n as int % 10)]
    } else {
        seq![
            digit_char(n as int / 100),
            digit_char((n as int / 10) % 10),
            digit_char(n as int % 10),
        ]
    }
}

pub fn digit(d: u8) -> (c: char)
    requires
        d < 10,
    ensures
        c == digit_char(d as int),
{
    (48u8 + d) as char
}

/// Appends the decimal rendering of `n` to `out`.
pub fn push_dec_u8(out: &mut Vec<char>, n: u8)
    ensures
        final(out)@ == old(out)@ + dec_u8(n),
{
    if n < 10 {
        out.push(digit(n));
    } else if n < 100 {
        out.push(digit(n / 10));
        out.push(digit(n % 10));
    } else {
        out.push(digit(n / 100));
        out.push(digit((n / 10) % 10));
        out.push(digit(n % 10));
    }
    assert(final(out)@ =~= old(out)@ + dec_u8(n));
}

pub open spec fn is_dec_digit(c: char) -> bool {
    '0' <= c && c <= '9'
}

pub open spec fn all_dec_digits(s: Seq<char>) -> bool {
    forall|i: int| 0 <= i < s.len() ==> is_dec_digit(#[trigger] s[i])
}

/// The value of a string of decimal digits.
pub open spec fn dec_value(s: Seq<char>) -> nat
    decreases s.len(),
{
    if s.len() == 0 {
        0
    } else {
        (dec_value(s.drop_last()) * 10 + (s.last() as int - 48)) as nat
    }
}

/// `u8::from_str`: an optional `+` followed by one or more decimal digits
/// whose value fits in a byte.
pub open spec fn parse_u8_dec(s: Seq<char>) -> Option<u8> {
    let t = if s.len() > 0 && s[0] == '+' {
        s.skip(1)
    } else {
        s
    };
    if t.len() > 0 && all_dec_digits(t) && dec_value(t) <= 255 {
        Some(dec_value(t) as u8)
    } else {
        None
    }
}

pub proof fn lemma_dec_value_prefix(s: Seq<char>, k: int)
    requires
        all_dec_digits(s),
        0 <= k <= s.len(),
    ensures
        dec_value(s.take(k)) <= dec_value(s),
    decreases s.len() - k,
{
    if k < s.len() {
        assert(s.drop_last().take(k) =~= s.take(k));
        assert(all_dec_digits(s.drop_last())) by {
            assert forall|i: int| 0 <= i < s.drop_last().len() implies is_dec_digit(
                #[trigger] s.drop_last()[i],
            ) by {
                assert(s.drop_last()[i] == s[i]);
            }
        }
        lemma_dec_value_prefix(s.drop_last(), k);
        assert(is_dec_digit(s[s.len() - 1]));
    } else {
        assert(s.take(k) =~= s);
    }
}

/// Parses a byte in decimal, as `u8::from_str` does.
pub fn parse_u8_vec(v: &Vec<char>) -> (res: Option<u8>)
    ensures
        res == parse_u8_dec(v@),
{
    let start: usize = if v.len() > 0 && v[0] == '+' { 1 } else { 0 };
    let ghost t = if v@.len() > 0 && v@[0] == '+' { v@.skip(1) } else { v@ };
    assert(t =~= v@.skip(start as int));
    if start >= v.len() {
        return None;
    }
    let mut acc: u32 = 0;
    let mut i: usize = start;
    while i < v.len()
        invariant
            start <= i <= v.len(),
            t == (if v@.len() > 0 && v@[0] == '+' { v@.skip(1) } else { v@ }),
            t =~= v@.skip(start as int),
            acc <= 255,
            all_dec_digits(t.take(i - start)),
            acc == dec_value(t.take(i - start)),
        decreases v.len() - i,
    {
        let c = v[i];
        if !('0' <= c && c <= '9') {
            assert(t[i - start] == c);
            assert(!is_dec_digit(t[i - start]));
            assert(!all_dec_digits(t));
            return None;
        }
        let d: u32 = (c as u32) - 48;
        assert(t.take(i - start + 1).drop_last() =~= t.take(i - start));
        assert(t.take(i - start + 1).last() == c);
        acc = acc * 10 + d;
        assert(all_dec_digits(t.take(i - start + 1))) by {
            assert forall|j: int| 0 <= j < t.take(i - start + 1).len() implies is_dec_digit(
                #[trigger] t.take(i - start + 1)[j],
            ) by {
                if j < i - start {
                    assert(t.take(i - start + 1)[j] == t.take(i - start)[j]);
                }
            }
        }
        i = i + 1;
        if acc > 255 {
            assert(!(all_dec_digits(t) && dec_value(t) <= 255)) by {
                if all_dec_digits(t) {
                    lemma_dec_value_prefix(t, i - start);
                }
            }
            return None;
        }
    }
    assert(t.take(i - start) =~= t);
    Some(acc as u8)
}

/// The lower-case hexadecimal digit for `n` (`0 <= n < 16`).
pub open spec fn hex_digit_lower(n: int) -> char {
    if n < 10 {
        (48 + n) as char
    } else {
        (87 + n) as char
    }
}

/// The value of one hexadecimal digit character, either case.
pub open spec fn hex_value(c: char) -> Option<u8> {
    if '0' <= c && c <= '9' {
        Some((c as int - 48) as u8)
    } else if 'a' <= c && c <= 'f' {
        Some((c as int - 87) as u8)
    } else if 'A' <= c && c <= 'F' {
        Some((c as int - 55) as u8)
    } else {
        None
    }
}

pub fn hex_digit(n: u8) -> (c: char)
    requires
        n < 16,
    ensures
        c == hex_digit_lower(n as int),
{
    if n < 10 {
        (48u8 + n) as char
    } else {
        (87u8 + n) as char
    }
}

pub fn parse_hex_char(c: char) -> (res: Option<u8>)
    ensures
        res == hex_value(c),
{
    if '0' <= c && c <= '9' {
        Some(((c as u32) - 48) as u8)
    } else if 'a' <= c && c <= 'f' {
        Some(((c as u32) - 87) as u8)
    } else if 'A' <= c && c <= 'F' {
        Some(((c as u32) - 55) as u8)
    } else {
        None
    }
}

pub proof fn lemma_dec_round_trip(n: u8)
    ensures
        parse_u8_dec(dec_u8(n)) == Some(n),
{
    let s = dec_u8(n);
    assert(s.len() > 0);
    assert(s[0] != '+');
    assert(all_dec_digits(s));
    let e = Seq::<char>::empty();
    if n < 10 {
        assert(s.last() as int - 48 == n);
        assert(s.drop_last() =~= e);
        assert(dec_value(e) == 0);
        assert(dec_value(s) == n);
    } else if n < 100 {
        let a = n as int / 10;
        let b = n as int % 10;
        assert(digit_char(a) as int == 48 + a);
        assert(digit_char(b) as int == 48 + b);
        assert(s.drop_last() =~= seq![digit_char(a)]);
        assert(s.drop_last().drop_last() =~= e);
        assert(dec_value(e) == 0);
        assert(dec_value(s.drop_last()) == a);
        assert(dec_value(s) == a * 10 + b);
    } else {
        let a = n as int / 100;
        let b = (n as int / 10) % 10;
        let c = n as int % 10;
        assert(digit_char(a) as int == 48 + a);
        assert(digit_char(b) as int == 48 + b);
        assert(digit_char(c) as int == 48 + c);
        assert(s.drop_last() =~= seq![digit_char(a), digit_char(b)]);
        assert(s.drop_last().drop_last() =~= seq![digit_char(a)]);
        assert(s.drop_last().drop_last().drop_last() =~= e);
        assert(dec_value(e) == 0);
        assert(dec_value(s.drop_last().drop_last()) == a);
        assert(dec_value(s.drop_last()) == a * 10 + b);
        assert(dec_value(s) == (a * 10 + b) * 10 + c);
    }
}

pub proof fn lemma_hex_round_trip(n: int)
    requires
        0 <= n < 16,
    ensures
        hex_value(hex_digit_lower(n)) == Some(n as u8),
{
}


/// Every character of `s` satisfies `pred`.
pub open spec fn all_chars(s: Seq<char>, pred: spec_fn(char) -> bool) -> bool {
    forall|i: int| 0 <= i < s.len() ==> pred(#[trigger] s[i])
}

/// A property of every part and of the separator holds of every character of the join.
pub proof fn lemma_join_all_chars(parts: Seq<Seq<char>>, sep: char, pred: spec_fn(char) -> bool)
    requires
        pred(sep),
        forall|i: int| 0 <= i < parts.len() ==> all_chars(#[trigger] parts[i], pred),
    ensures
        all_chars(join_with(parts, sep), pred),
    decreases parts.len(),
{
    if parts.len() == 0 {
    } else if parts.len() == 1 {
        assert(all_chars(parts[0], pred));
    } else {
        let init = parts.drop_last();
        assert forall|i: int| 0 <= i < init.len() implies all_chars(#[trigger] init[i], pred) by {
            assert(init[i] == parts[i]);
        }
        lemma_join_all_chars(init, sep, pred);
        let j = join_with(init, sep);
        let l = parts.last();
        assert(all_chars(l, pred)) by {
            assert(parts[parts.len() - 1] == l);
        }
        let r = j.push(sep) + l;
        assert forall|i: int| 0 <= i < r.len() implies pred(#[trigger] r[i]) by {
            if i < j.len() {
                assert(r[i] == j[i]);
            } else if i == j.len() {
                assert(r[i] == sep);
            } else {
                assert(r[i] == l[i - j.len() - 1]);
            }
        }
    }
}

/// Lower-casing leaves a sequence without upper-case letters unchanged.
pub proof fn lemma_lower_identity(s: Seq<char>)
    requires
        all_chars(s, |c: char| !is_ascii_upper(c)),
    ensures
        ascii_lower_seq(s) == s,
{
    assert forall|i: int| 0 <= i < s.len() implies ascii_lower_seq(s)[i] == s[i] by {
        assert(!is_ascii_upper(s[i]));
    }
    assert(ascii_lower_seq(s) =~= s);
}

/// The join of two or more parts ends with the last part, after a separator.
pub proof fn lemma_join_last(parts: Seq<Seq<char>>, sep: char)
    requires
        parts.len() >= 2,
    ensures
        join_with(parts, sep) == join_with(parts.drop_last(), sep).push(sep) + parts.last(),
{
}


/// `char::is_whitespace`: the Unicode `White_Space` characters.
pub open spec fn is_ws(c: char) -> bool {
    let u = c as u32;
    ||| u == 0x20
    ||| 0x09 <= u <= 0x0d
    ||| u == 0x85
    ||| u == 0xa0
    ||| u == 0x1680
    ||| 0x2000 <= u <= 0x200a
    ||| u == 0x2028
    ||| u == 0x2029
    ||| u == 0x202f
    ||| u == 0x205f
    ||| u == 0x3000
}

pub fn is_whitespace(c: char) -> (r: bool)
    ensures
        r == is_ws(c),
{
    let u = c as u32;
    u == 0x20 || (0x09 <= u && u <= 0x0d) || u == 0x85 || u == 0xa0 || u == 0x1680 || (0x2000
        <= u && u <= 0x200a) || u == 0x2028 || u == 0x2029 || u == 0x202f || u == 0x205f || u
        == 0x3000
}

/// `s` without leading whitespace.
pub open spec fn trim_start_ws(s: Seq<char>) -> Seq<char>
    decreases s.len(),
{
    if s.len() > 0 && is_ws(s[0]) {
        trim_start_ws(s.skip(1))
    } else {
        s
    }
}

/// `s` without trailing whitespace.
pub open spec fn trim_end_ws(s: Seq<char>) -> Seq<char>
    decreases s.len(),
{
    if s.len() > 0 && is_ws(s.last()) {
        trim_end_ws(s.drop_last())
    } else {
        s
    }
}

/// `str::trim`: `s` without leading and trailing whitespace.
pub open spec fn trim_ws(s: Seq<char>) -> Seq<char> {
    trim_end_ws(trim_start_ws(s))
}

pub fn trim_vec(v: &Vec<char>) -> (res: Vec<char>)
    ensures
        res@ == trim_ws(v@),
{
    let mut i: usize = 0;
    assert(v@.skip(0) =~= v@);
    while i < v.len() && is_whitespace(v[i])
        invariant
            i <= v.len(),
            trim_start_ws(v@.skip(i as int)) == trim_start_ws(v@),
        decreases v.len() - i,
    {
        assert(v@.skip(i as int).skip(1) =~= v@.skip(i + 1));
        assert(v@.skip(i as int)[0] == v@[i as int]);
        i = i + 1;
    }
    if i < v.len() {
        assert(v@.skip(i as int)[0] == v@[i as int]);
    }
    assert(trim_start_ws(v@.skip(i as int)) == v@.skip(i as int));
    let mut j: usize = v.len();
    assert(v@.subrange(i as int, j as int) =~= v@.skip(i as int));
    while j > i && is_whitespace(v[j - 1])
        invariant
            i <= j <= v.len(),
            trim_end_ws(v@.subrange(i as int, j as int)) == trim_ws(v@),
        decreases j,
    {
        assert(v@.subrange(i as int, j as int).drop_last() =~= v@.subrange(i as int, j - 1));
        assert(v@.subrange(i as int, j as int).last() == v@[j - 1]);
        j = j - 1;
    }
    if j > i {
        assert(v@.subrange(i as int, j as int).last() == v@[j - 1]);
    }
    assert(trim_end_ws(v@.subrange(i as int, j as int)) == v@.subrange(i as int, j as int));
    let mut res: Vec<char> = Vec::new();
    let mut k: usize = i;
    while k < j
        invariant
            i <= k <= j <= v.len(),
            res@ == v@.subrange(i as int, k as int),
        decreases j - k,
    {
        res.push(v[k]);
        assert(v@.subrange(i as int, k as int).push(v@[k as int]) =~= v@.subrange(i as int, k + 1));
        k = k + 1;
    }
    res
}

/// Lexicographic order by code point (the order of `str`, whose UTF-8
/// bytes compare as their code points do).
pub open spec fn seq_lt(a: Seq<char>, b: Seq<char>) -> bool
    decreases a.len(),
{
    if a.len() == 0 {
        b.len() > 0
    } else if b.len() == 0 {
        false
    } else if a[0] != b[0] {
        (a[0] as int) < (b[0] as int)
    } else {
        seq_lt(a.skip(1), b.skip(1))
    }
}

pub proof fn lemma_lt_irreflexive(a: Seq<char>)
    ensures
        !seq_lt(a, a),
    decreases a.len(),
{
    if a.len() > 0 {
        lemma_lt_irreflexive(a.skip(1));
    }
}

pub proof fn lemma_lt_asymmetric(a: Seq<char>, b: Seq<char>)
    ensures
        !(seq_lt(a, b) && seq_lt(b, a)),
    decreases a.len(),
{
    if a.len() > 0 && b.len() > 0 && a[0] == b[0] {
        lemma_lt_asymmetric(a.skip(1), b.skip(1));
    }
}

pub proof fn lemma_lt_total(a: Seq<char>, b: Seq<char>)
    ensures
        a != b ==> seq_lt(a, b) || seq_lt(b, a),
    decreases a.len(),
{
    if a.len() > 0 && b.len() > 0 && a[0] == b[0] {
        lemma_lt_total(a.skip(1), b.skip(1));
        if a.skip(1) == b.skip(1) {
            assert(a =~= seq![a[0]] + a.skip(1));
            assert(b =~= seq![b[0]] + b.skip(1));
        }
    } else if a.len() == 0 && b.len() == 0 {
        assert(a =~= b);
    } else if a.len() > 0 && b.len() > 0 {
        assert((a[0] as int) != (b[0] as int));
    }
}

pub proof fn lemma_lt_transitive(a: Seq<char>, b: Seq<char>, c: Seq<char>)
    requires
        seq_lt(a, b),
        seq_lt(b, c),
    ensures
        seq_lt(a, c),
    decreases a.len(),
{
    if a.len() > 0 && b.len() > 0 && c.len() > 0 && a[0] == b[0] && b[0] == c[0] {
        lemma_lt_transitive(a.skip(1), b.skip(1), c.skip(1));
    }
}

pub fn vec_lt(a: &Vec<char>, b: &Vec<char>) -> (r: bool)
    ensures
        r == seq_lt(a@, b@),
{
    let mut i: usize = 0;
    assert(a@.skip(0) =~= a@);
    assert(b@.skip(0) =~= b@);
    while i < a.len() && i < b.len() && a[i] == b[i]
        invariant
            i <= a.len(),
            i <= b.len(),
            seq_lt(a@.skip(i as int), b@.skip(i as int)) == seq_lt(a@, b@),
        decreases a.len() - i,
    {
        assert(a@.skip(i as int)[0] == a@[i as int]);
        assert(b@.skip(i as int)[0] == b@[i as int]);
        assert(a@.skip(i as int).skip(1) =~= a@.skip(i + 1));
        assert(b@.skip(i as int).skip(1) =~= b@.skip(i + 1));
        i = i + 1;
    }
    if i == a.len() {
        i < b.len()
    } else if i == b.len() {
        false
    } else {
        assert(a@.skip(i as int)[0] == a@[i as int]);
        assert(b@.skip(i as int)[0] == b@[i as int]);
        a[i] < b[i]
    }
}

pub fn vec_eq(a: &Vec<char>, b: &Vec<char>) -> (r: bool)
    ensures
        r == (a@ == b@),
{
    if a.len() != b.len() {
        return false;
    }
    let mut i: usize = 0;
    while i < a.len()
        invariant
            i <= a.len() == b.len(),
            forall|k: int| 0 <= k < i ==> a@[k] == b@[k],
        decreases a.len() - i,
    {
        if a[i] != b[i] {
            return false;
        }
        i = i + 1;
    }
    assert(a@ =~= b@);
    true
}

/// Strictly ascending in [`seq_lt`]: sorted, without duplicates.
pub open spec fn strictly_sorted(s: Seq<Seq<char>>) -> bool {
    forall|i: int, j: int| 0 <= i < j < s.len() ==> seq_lt(#[trigger] s[i], #[trigger] s[j])
}

/// The strictly ascending sequence holding exactly the strings of `set`
/// (what `sort` followed by `dedup` produces).
pub open spec fn sorted_of_set(set: Set<Seq<char>>) -> Seq<Seq<char>> {
    choose|t: Seq<Seq<char>>| strictly_sorted(t) && t.to_set() == set
}

/// Two strictly ascending sequences with the same elements are equal.
pub proof fn lemma_sorted_unique(a: Seq<Seq<char>>, b: Seq<Seq<char>>)
    requires
        strictly_sorted(a),
        strictly_sorted(b),
        a.to_set() == b.to_set(),
    ensures
        a == b,
    decreases a.len(),
{
    if a.len() == 0 {
        if b.len() > 0 {
            assert(b.to_set().contains(b[0]));
            assert(!a.to_set().contains(b[0]));
        }
        assert(a =~= b);
    } else {
        assert(a.to_set().contains(a[0]));
        assert(b.len() > 0) by {
            if b.len() == 0 {
                assert(!b.to_set().contains(a[0]));
            }
        }
        // a[0] and b[0] are each the least element of the common set
        assert(b.to_set().contains(a[0]));
        let ia = choose|i: int| 0 <= i < b.len() && b[i] == a[0];
        assert(a.to_set().contains(b[0]));
        let ib = choose|i: int| 0 <= i < a.len() && a[i] == b[0];
        if a[0] != b[0] {
            assert(ia > 0);
            assert(ib > 0);
            assert(seq_lt(b[0], b[ia]));
            assert(seq_lt(a[0], a[ib]));
            lemma_lt_asymmetric(a[0], b[0]);
            assert(false);
        }
        let a1 = a.skip(1);
        let b1 = b.skip(1);
        assert(strictly_sorted(a1)) by {
            assert forall|i: int, j: int| 0 <= i < j < a1.len() implies seq_lt(#[trigger] a1[i], #[trigger] a1[j]) by {
                assert(a1[i] == a[i + 1]);
                assert(a1[j] == a[j + 1]);
            }
        }
        assert(strictly_sorted(b1)) by {
            assert forall|i: int, j: int| 0 <= i < j < b1.len() implies seq_lt(#[trigger] b1[i], #[trigger] b1[j]) by {
                assert(b1[i] == b[i + 1]);
                assert(b1[j] == b[j + 1]);
            }
        }
        assert(a1.to_set() =~= b1.to_set()) by {
            assert forall|x: Seq<char>| a1.to_set().contains(x) implies b1.to_set().contains(x) by {
                let i = choose|i: int| 0 <= i < a1.len() && a1[i] == x;
                assert(a[i + 1] == x);
                assert(a.to_set().contains(x));
                let k = choose|k: int| 0 <= k < b.len() && b[k] == x;
                if k == 0 {
                    assert(seq_lt(a[0], a[i + 1]));
                    lemma_lt_irreflexive(x);
                }
                assert(b1[k - 1] == x);
            }
            assert forall|x: Seq<char>| b1.to_set().contains(x) implies a1.to_set().contains(x) by {
                let i = choose|i: int| 0 <= i < b1.len() && b1[i] == x;
                assert(b[i + 1] == x);
                assert(b.to_set().contains(x));
                let k = choose|k: int| 0 <= k < a.len() && a[k] == x;
                if k == 0 {
                    assert(seq_lt(b[0], b[i + 1]));
                    lemma_lt_irreflexive(x);
                }
                assert(a1[k - 1] == x);
            }
        }
        lemma_sorted_unique(a1, b1);
        assert(a =~= seq![a[0]] + a1);
        assert(b =~= seq![b[0]] + b1);
    }
}

/// Any strictly ascending sequence is the sorted form of its element set.
pub proof fn lemma_sorted_of_set(t: Seq<Seq<char>>)
    requires
        strictly_sorted(t),
    ensures
        sorted_of_set(t.to_set()) == t,
{
    let u = sorted_of_set(t.to_set());
    assert(strictly_sorted(u) && u.to_set() == t.to_set());
    lemma_sorted_unique(u, t);
}

/// Inserts `x` into the strictly ascending `out` unless already present.
pub fn insert_sorted_unique(out: &mut Vec<Vec<char>>, x: Vec<char>)
    requires
        strictly_sorted(views(old(out)@)),
    ensures
        strictly_sorted(views(final(out)@)),
        views(final(out)@).to_set() == views(old(out)@).to_set().insert(x@),
{
    let ghost o = views(out@);
    let mut p: usize = 0;
    while p < out.len() && vec_lt(&out[p], &x)
        invariant
            p <= out.len(),
            views(out@) == o,
            forall|k: int| 0 <= k < p ==> seq_lt(#[trigger] o[k], x@),
        decreases out.len() - p,
    {
        p = p + 1;
    }
    if p < out.len() && vec_eq(&out[p], &x) {
        assert(o[p as int] == x@);
        assert(o.to_set().insert(x@) =~= o.to_set());
        return;
    }
    if p < out.len() {
        assert(o[p as int] == out@[p as int]@);
        proof {
            lemma_lt_total(o[p as int], x@);
        }
    }
    out.insert(p, x);
    let ghost n = views(out@);
    assert(n =~= o.insert(p as int, x@));
    assert forall|i: int, j: int| 0 <= i < j < n.len() implies seq_lt(#[trigger] n[i], #[trigger] n[j]) by {
        if j < p {
            assert(n[i] == o[i] && n[j] == o[j]);
        } else if j == p {
            assert(n[i] == o[i]);
        } else if i == p {
            assert(n[j] == o[j - 1]);
            if j - 1 > p {
                assert(seq_lt(o[p as int], o[j - 1]));
                lemma_lt_transitive(x@, o[p as int], o[j - 1]);
            }
        } else if i < p {
            assert(n[i] == o[i] && n[j] == o[j - 1]);
            assert(seq_lt(o[i], x@));
            if j - 1 > p {
                assert(seq_lt(o[p as int], o[j - 1]));
                lemma_lt_transitive(x@, o[p as int], o[j - 1]);
            }
            lemma_lt_transitive(o[i], x@, o[j - 1]);
        } else {
            assert(n[i] == o[i - 1] && n[j] == o[j - 1]);
        }
    }
    assert(n.to_set() =~= o.to_set().insert(x@)) by {
        assert forall|y: Seq<char>| n.to_set().contains(y) implies o.to_set().insert(x@).contains(y) by {
            let i = choose|i: int| 0 <= i < n.len() && n[i] == y;
            if i < p {
                assert(o[i] == y);
            } else if i > p {
                assert(o[i - 1] == y);
            }
        }
        assert forall|y: Seq<char>| o.to_set().insert(x@).contains(y) implies n.to_set().contains(y) by {
            if y == x@ {
                assert(n[p as int] == y);
            } else {
                let i = choose|i: int| 0 <= i < o.len() && o[i] == y;
                if i < p {
                    assert(n[i] == y);
                } else {
                    assert(n[i + 1] == y);
                }
            }
        }
    }
}


/// Whether two strings hold the same characters.
pub fn str_eq(a: &str, b: &str) -> (r: bool)
    ensures
        r == (a@ == b@),
{
    let x = chars_of(a);
    let y = chars_of(b);
    vec_eq(&x, &y)
}

/// The view of an optional string slice.
pub open spec fn opt_str(o: Option<&str>) -> Option<Seq<char>> {
    match o {
        Some(s) => Some(s@),
        None => None,
    }
}

/// `str::eq_ignore_ascii_case`: equal once ASCII letters are lower-cased.
pub open spec fn eq_ignore_ascii_case(a: Seq<char>, b: Seq<char>) -> bool {
    ascii_lower_seq(a) == ascii_lower_seq(b)
}

pub fn vec_eq_ignore_ascii_case(a: &Vec<char>, b: &str) -> (r: bool)
    ensures
        r == eq_ignore_ascii_case(a@, b@),
{
    let la = ascii_lowercase(a);
    let bb = chars_of(b);
    let lb = ascii_lowercase(&bb);
    vec_eq(&la, &lb)
}


/// The decimal rendering of a natural number, without leading zeros.
pub open spec fn dec_nat(n: nat) -> Seq<char>
    decreases n,
{
    if n < 10 {
        seq![digit_char(n as int)]
    } else {
        dec_nat(n / 10).push(digit_char((n % 10) as int))
    }
}

/// The decimal rendering of an integer (`i64::to_string`).
pub open spec fn dec_int(n: int) -> Seq<char> {
    if n < 0 {
        seq!['-'] + dec_nat((-n) as nat)
    } else {
        dec_nat(n as nat)
    }
}

/// The decimal digits of `n`, without leading zeros.
pub fn dec_u64_vec(n: u64) -> (res: Vec<char>)
    ensures
        res@ == dec_nat(n as nat),
    decreases n,
{
    if n < 10 {
        let mut v: Vec<char> = Vec::new();
        v.push((48u8 + (n as u8)) as char);
        assert(v@ =~= dec_nat(n as nat));
        v
    } else {
        let mut v = dec_u64_vec(n / 10);
        v.push((48u8 + ((n % 10) as u8)) as char);
        v
    }
}

/// Appends the decimal rendering of `n` to `out`.
pub fn push_dec_i64(out: &mut Vec<char>, n: i64)
    ensures
        final(out)@ == old(out)@ + dec_int(n as int),
{
    let m: u64 = if n < 0 {
        out.push('-');
        if n == i64::MIN {
            9223372036854775808u64
        } else {
            (-n) as u64
        }
    } else {
        n as u64
    };
    let ghost mid = out@;
    let d = dec_u64_vec(m);
    extend_vec(out, &d);
    assert(final(out)@ =~= old(out)@ + dec_int(n as int));
}

/// Whether `s` starts with `prefix`.
pub open spec fn starts_with(s: Seq<char>, prefix: Seq<char>) -> bool {
    prefix.len() <= s.len() && s.take(prefix.len() as int) == prefix
}

pub fn str_starts_with(s: &str, prefix: &str) -> (r: bool)
    ensures
        r == starts_with(s@, prefix@),
{
    let a = chars_of(s);
    let b = chars_of(prefix);
    if b.len() > a.len() {
        return false;
    }
    let mut i: usize = 0;
    while i < b.len()
        invariant
            b.len() <= a.len(),
            a@ == s@,
            b@ == prefix@,
            i <= b.len(),
            forall|k: int| 0 <= k < i ==> a@[k] == b@[k],
        decreases b.len() - i,
    {
        if a[i] != b[i] {
            assert(a@.take(b.len() as int)[i as int] != b@[i as int]);
            return false;
        }
        i = i + 1;
    }
    assert(a@.take(b.len() as int) =~= b@);
    true
}

/// The Unicode lower-case mapping of a string (`str::to_lowercase`).
pub uninterp spec fn unicode_lowercase(s: Seq<char>) -> Seq<char>;

/// `str::to_lowercase`: the string with every character replaced by its
/// Unicode lower-case mapping; a function of the string alone.
#[verifier::external_body]
pub(crate) fn to_lowercase(s: &str) -> (r: String)
    ensures
        r@ == unicode_lowercase(s@),
{
    s.to_lowercase()
}


/// The parts joined with the separator string `sep` between consecutive parts.
pub open spec fn join_seq(parts: Seq<Seq<char>>, sep: Seq<char>) -> Seq<char>
    decreases parts.len(),
{
    if parts.len() == 0 {
        Seq::empty()
    } else if parts.len() == 1 {
        parts[0]
    } else {
        join_seq(parts.drop_last(), sep) + sep + parts.last()
    }
}

/// Joins the strings with `sep` between consecutive ones (`[String]::join`).
pub fn join_strings(parts: &Vec<String>, sep: &str) -> (res: String)
    ensures
        res@ == join_seq(parts.deep_view(), sep@),
{
    let mut out: Vec<char> = Vec::new();
    let ghost ps = parts.deep_view();
    let mut i: usize = 0;
    while i < parts.len()
        invariant
            i <= parts.len(),
            ps == parts.deep_view(),
            out@ == join_seq(ps.take(i as int), sep@),
        decreases parts.len() - i,
    {
        assert(ps.take(i + 1).drop_last() =~= ps.take(i as int));
        assert(ps.take(i + 1).last() == parts@[i as int]@);
        if i > 0 {
            extend_chars(&mut out, sep);
        }
        extend_chars(&mut out, parts[i].as_str());
        if i == 0 {
            assert(out@ =~= join_seq(ps.take(1), sep@));
        }
        i = i + 1;
    }
    assert(ps.take(parts.len() as int) =~= ps);
    string_of(&out)
}

/// Whether `pattern` occurs in `s`.
pub open spec fn contains_seq(s: Seq<char>, pattern: Seq<char>) -> bool {
    exists|i: int| 0 <= i && i + pattern.len() <= s.len() && #[trigger] s.subrange(i, i + pattern.len()) == pattern
}

pub fn vec_contains(v: &Vec<char>, pattern: &Vec<char>) -> (r: bool)
    ensures
        r == contains_seq(v@, pattern@),
{
    if pattern.len() > v.len() {
        return false;
    }
    let last = v.len() - pattern.len();
    let mut i: usize = 0;
    while i <= last
        invariant
            last + pattern.len() == v.len(),
            i <= last + 1,
            forall|k: int| 0 <= k < i ==> #[trigger] v@.subrange(k, k + pattern.len()) != pattern@,
        decreases last + 1 - i,
    {
        let mut j: usize = 0;
        let mut same = true;
        while j < pattern.len()
            invariant
                i <= last,
                last + pattern.len() == v.len(),
                j <= pattern.len(),
                same == (forall|m: int| 0 <= m < j ==> v@[i + m] == pattern@[m]),
            decreases pattern.len() - j,
        {
            if v[i + j] != pattern[j] {
                same = false;
            }
            j = j + 1;
        }
        if same {
            assert(v@.subrange(i as int, i + pattern.len()) =~= pattern@);
            return true;
        }
        assert(v@.subrange(i as int, i + pattern.len()) != pattern@) by {
            let m = choose|m: int| 0 <= m < pattern.len() && v@[i + m] != pattern@[m];
            assert(v@.subrange(i as int, i + pattern.len())[m] == v@[i + m]);
        }
        i = i + 1;
    }
    assert forall|k: int| 0 <= k && k + pattern@.len() <= v@.len() implies #[trigger] v@.subrange(k, k + pattern@.len()) != pattern@ by {
        assert(k < i);
    }
    false
}

} // verus!

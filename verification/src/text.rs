use vstd::prelude::*;

use crate::outside::push_char;

verus! {

/// The pieces of `s` between the occurrences of `sep`: there is always at least one,
/// and `n` occurrences give `n + 1` pieces, some of which may be empty.
pub open spec fn split_on(s: Seq<char>, sep: char) -> Seq<Seq<char>>
    decreases s.len(),
{
    if s.len() == 0 {
        seq![Seq::<char>::empty()]
    } else {
        let p = split_on(s.drop_last(), sep);
        if s.last() == sep {
            p.push(Seq::<char>::empty())
        } else {
            p.update(p.len() - 1, p.last().push(s.last()))
        }
    }
}

/// A line that ended in a carriage return followed by the newline loses the carriage return.
pub open spec fn strip_cr(l: Seq<char>) -> Seq<char> {
    if l.len() > 0 && l.last() == '\r' {
        l.drop_last()
    } else {
        l
    }
}

/// The lines of a text: the pieces between newlines, where a line ended by `\r\n`
/// loses its `\r` and an empty piece after the last newline is no line.
pub open spec fn lines(s: Seq<char>) -> Seq<Seq<char>> {
    let p = split_on(s, '\n');
    let body = p.drop_last().map_values(|l: Seq<char>| strip_cr(l));
    if p.last().len() == 0 {
        body
    } else {
        body.push(p.last())
    }
}

/// `pat` occurs in `s`.
pub open spec fn has_infix(s: Seq<char>, pat: Seq<char>) -> bool {
    exists|i: int| 0 <= i <= s.len() - pat.len() && #[trigger] s.subrange(i, i + pat.len()) == pat
}

/// The characters that Unicode counts as white space.
pub open spec fn is_white(c: char) -> bool {
    ||| c == '\t'
    ||| c == '\n'
    ||| c == '\u{0B}'
    ||| c == '\u{0C}'
    ||| c == '\r'
    ||| c == ' '
    ||| c == '\u{85}'
    ||| c == '\u{A0}'
    ||| c == '\u{1680}'
    ||| ('\u{2000}' <= c && c <= '\u{200A}')
    ||| c == '\u{2028}'
    ||| c == '\u{2029}'
    ||| c == '\u{202F}'
    ||| c == '\u{205F}'
    ||| c == '\u{3000}'
}

/// `s` without its leading white space.
pub open spec fn trim_start(s: Seq<char>) -> Seq<char>
    decreases s.len(),
{
    if s.len() > 0 && is_white(s.first()) {
        trim_start(s.drop_first())
    } else {
        s
    }
}

/// `s` without its trailing white space.
pub open spec fn trim_end(s: Seq<char>) -> Seq<char>
    decreases s.len(),
{
    if s.len() > 0 && is_white(s.last()) {
        trim_end(s.drop_last())
    } else {
        s
    }
}

/// `s` without leading and trailing white space.
pub open spec fn trim(s: Seq<char>) -> Seq<char> {
    trim_end(trim_start(s))
}

/// The character of a decimal digit.
pub open spec fn digit_char(d: nat) -> char {
    (48 + d) as char
}

/// The decimal numeral of `n`, without leading zeros.
pub open spec fn decimal(n: nat) -> Seq<char>
    decreases n,
{
    if n < 10 {
        seq![digit_char(n)]
    } else {
        decimal(n / 10).push(digit_char(n % 10))
    }
}

/// The value of a string of decimal digits.
pub open spec fn digits_value(s: Seq<char>) -> nat
    decreases s.len(),
{
    if s.len() == 0 {
        0
    } else {
        digits_value(s.drop_last()) * 10 + ((s.last() as int - 48) as nat)
    }
}

/// Every character is an ASCII digit.
pub open spec fn all_digits(s: Seq<char>) -> bool {
    forall|i: int| 0 <= i < s.len() ==> '0' <= #[trigger] s[i] && s[i] <= '9'
}

/// The byte that the text writes in decimal: an optional `+`, then at least one digit,
/// of a value below 256.
pub open spec fn parse_u8(s: Seq<char>) -> Option<u8> {
    let d = if s.len() > 0 && s[0] == '+' {
        s.drop_first()
    } else {
        s
    };
    if d.len() > 0 && all_digits(d) && digits_value(d) <= 255 {
        Some(digits_value(d) as u8)
    } else {
        None
    }
}

/// The texts joined, with `sep` between each two.
pub open spec fn join(parts: Seq<Seq<char>>, sep: Seq<char>) -> Seq<char>
    decreases parts.len(),
{
    if parts.len() == 0 {
        Seq::empty()
    } else if parts.len() == 1 {
        parts[0]
    } else {
        join(parts.drop_last(), sep) + sep + parts.last()
    }
}

pub proof fn lemma_split_nonempty(s: Seq<char>, sep: char)
    ensures
        split_on(s, sep).len() >= 1,
    decreases s.len(),
{
    if s.len() > 0 {
        lemma_split_nonempty(s.drop_last(), sep);
    }
}

/// Appending text without the separator lengthens the last piece only.
pub proof fn lemma_split_append_free(x: Seq<char>, b: Seq<char>, sep: char)
    requires
        !b.contains(sep),
    ensures
        split_on(x + b, sep) == split_on(x, sep).update(
            split_on(x, sep).len() - 1,
            split_on(x, sep).last() + b,
        ),
    decreases b.len(),
{
    lemma_split_nonempty(x, sep);
    let p = split_on(x, sep);
    if b.len() == 0 {
        assert(x + b =~= x);
        assert(p.last() + b =~= p.last());
        assert(p.update(p.len() - 1, p.last() + b) =~= p);
    } else {
        let c = b.last();
        assert(b.contains(c) ==> c != sep);
        assert(b.contains(b[b.len() - 1]));
        assert(!b.drop_last().contains(sep)) by {
            if b.drop_last().contains(sep) {
                let i = choose|i: int| 0 <= i < b.drop_last().len() && b.drop_last()[i] == sep;
                assert(b[i] == sep);
            }
        }
        lemma_split_append_free(x, b.drop_last(), sep);
        assert((x + b).drop_last() =~= x + b.drop_last());
        assert((x + b).last() == c);
        let q = split_on(x + b.drop_last(), sep);
        assert(q =~= p.update(p.len() - 1, p.last() + b.drop_last()));
        assert((p.last() + b.drop_last()).push(c) =~= p.last() + b);
        assert(q.update(q.len() - 1, q.last().push(c)) =~= p.update(p.len() - 1, p.last() + b));
    }
}

/// Splitting pieces that hold no separator, joined by it, gives the pieces back.
pub proof fn lemma_split_join(fs: Seq<Seq<char>>, sep: char)
    requires
        fs.len() >= 1,
        forall|i: int| 0 <= i < fs.len() ==> !(#[trigger] fs[i]).contains(sep),
    ensures
        split_on(join(fs, seq![sep]), sep) == fs,
    decreases fs.len(),
{
    if fs.len() == 1 {
        let e = Seq::<char>::empty();
        lemma_split_append_free(e, fs[0], sep);
        assert(e + fs[0] =~= fs[0]);
        assert(split_on(e, sep) =~= seq![e]);
        assert(e + fs[0] =~= fs[0]);
        assert(seq![e].update(0, e + fs[0]) =~= fs);
    } else {
        let init = fs.drop_last();
        assert forall|i: int| 0 <= i < init.len() implies !(#[trigger] init[i]).contains(sep) by {
            assert(init[i] == fs[i]);
        }
        lemma_split_join(init, sep);
        let a = join(init, seq![sep]) + seq![sep];
        assert(a.drop_last() =~= join(init, seq![sep]));
        assert(a.last() == sep);
        assert(split_on(a, sep) == init.push(Seq::<char>::empty()));
        assert(!fs[fs.len() - 1].contains(sep));
        lemma_split_append_free(a, fs.last(), sep);
        assert(join(fs, seq![sep]) =~= a + fs.last());
        assert(Seq::<char>::empty() + fs.last() =~= fs.last());
        assert(init.push(Seq::<char>::empty()).update(init.len() as int, fs.last()) =~= fs);
    }
}

/// The characters of a text.
pub fn chars_of(s: &str) -> (v: Vec<char>)
    ensures
        v@ == s@,
{
    let mut v: Vec<char> = Vec::new();
    for c in it: s.chars()
        invariant
            v@ == it.seq().take(it.index() as int),
            it.seq() == s@,
    {
        v.push(c);
    }
    v
}

/// The text of the characters `cs[from..to]`.
pub fn string_of(cs: &Vec<char>, from: usize, to: usize) -> (res: String)
    requires
        from <= to <= cs@.len(),
    ensures
        res@ == cs@.subrange(from as int, to as int),
{
    let mut res = String::new();
    let mut i = from;
    while i < to
        invariant
            from <= i <= to <= cs@.len(),
            res@ == cs@.subrange(from as int, i as int),
        decreases to - i,
    {
        push_char(&mut res, cs[i]);
        assert(cs@.subrange(from as int, i + 1) =~= cs@.subrange(from as int, i as int).push(
            cs@[i as int],
        ));
        i = i + 1;
    }
    res
}

/// The pieces of `cs` between the occurrences of `sep`, as ranges of positions.
pub fn split_ranges(cs: &Vec<char>, sep: char) -> (res: Vec<(usize, usize)>)
    ensures
        res@.len() == split_on(cs@, sep).len(),
        forall|k: int|
            0 <= k < res@.len() ==> {
                &&& #[trigger] res@[k].0 <= res@[k].1 <= cs@.len()
                &&& cs@.subrange(res@[k].0 as int, res@[k].1 as int) == split_on(cs@, sep)[k]
            },
        forall|k: int|
            0 <= k < res@.len() - 1 ==> res@[k].1 < cs@.len() && cs@[#[trigger] res@[k].1 as int]
                == sep,
{
    let mut res: Vec<(usize, usize)> = Vec::new();
    let mut start: usize = 0;
    let mut i: usize = 0;
    while i < cs.len()
        invariant
            start <= i <= cs@.len(),
            res@.len() + 1 == split_on(cs@.take(i as int), sep).len(),
            forall|k: int|
                0 <= k < res@.len() ==> {
                    &&& #[trigger] res@[k].0 <= res@[k].1 < cs@.len()
                    &&& res@[k].1 < i
                    &&& cs@[res@[k].1 as int] == sep
                    &&& cs@.subrange(res@[k].0 as int, res@[k].1 as int) == split_on(
                        cs@.take(i as int),
                        sep,
                    )[k]
                },
            cs@.subrange(start as int, i as int) == split_on(cs@.take(i as int), sep).last(),
        decreases cs@.len() - i,
    {
        let ghost t = cs@.take(i as int);
        let ghost t1 = cs@.take(i + 1);
        proof {
            assert(t1.drop_last() =~= t);
            assert(t1.last() == cs@[i as int]);
            lemma_split_nonempty(t, sep);
        }
        if cs[i] == sep {
            res.push((start, i));
            start = i + 1;
            proof {
                assert(cs@.subrange(start as int, i + 1) =~= Seq::<char>::empty());
            }
        } else {
            proof {
                assert(cs@.subrange(start as int, i + 1) =~= cs@.subrange(
                    start as int,
                    i as int,
                ).push(cs@[i as int]));
            }
        }
        i = i + 1;
    }
    proof {
        assert(cs@.take(cs@.len() as int) =~= cs@);
    }
    let ghost before = res@;
    res.push((start, i));
    proof {
        assert forall|k: int| 0 <= k < res@.len() - 1 implies res@[k].1 < cs@.len() && cs@[#[trigger] res@[k].1 as int] == sep by {
            assert(res@[k] == before[k]);
            assert(before[k].0 <= before[k].1);
        }
    }
    res
}

/// `s` has no white space at either end.
pub proof fn lemma_trim_ends(s: Seq<char>)
    ensures
        trim(s).len() > 0 ==> !is_white(trim(s).first()) && !is_white(trim(s).last()),
    decreases s.len(),
{
    lemma_trim_start_facts(s);
    lemma_trim_end_facts(trim_start(s));
}

proof fn lemma_trim_start_facts(s: Seq<char>)
    ensures
        exists|a: int| 0 <= a <= s.len() && trim_start(s) == #[trigger] s.subrange(a, s.len() as int),
        trim_start(s).len() > 0 ==> !is_white(trim_start(s).first()),
    decreases s.len(),
{
    if s.len() > 0 && is_white(s.first()) {
        lemma_trim_start_facts(s.drop_first());
        let a = choose|a: int|
            0 <= a <= s.drop_first().len() && trim_start(s.drop_first()) == #[trigger] s.drop_first().subrange(
                a,
                s.drop_first().len() as int,
            );
        assert(s.drop_first().subrange(a, s.drop_first().len() as int) =~= s.subrange(
            a + 1,
            s.len() as int,
        ));
    } else {
        assert(s.subrange(0, s.len() as int) =~= s);
    }
}

proof fn lemma_trim_end_facts(s: Seq<char>)
    ensures
        exists|b: int| 0 <= b <= s.len() && trim_end(s) == #[trigger] s.subrange(0, b),
        trim_end(s).len() > 0 ==> !is_white(trim_end(s).last()),
        trim_end(s).len() > 0 && s.len() > 0 && !is_white(s.first()) ==> !is_white(
            trim_end(s).first(),
        ),
    decreases s.len(),
{
    if s.len() > 0 && is_white(s.last()) {
        lemma_trim_end_facts(s.drop_last());
        let b = choose|b: int|
            0 <= b <= s.drop_last().len() && trim_end(s.drop_last()) == #[trigger] s.drop_last().subrange(
                0,
                b,
            );
        assert(s.drop_last().subrange(0, b) =~= s.subrange(0, b));
    } else {
        assert(s.subrange(0, s.len() as int) =~= s);
    }
}

exec fn is_white_char(c: char) -> (res: bool)
    ensures
        res == is_white(c),
{
    c == '\t' || c == '\n' || c == '\u{0B}' || c == '\u{0C}' || c == '\r' || c == ' ' || c
        == '\u{85}' || c == '\u{A0}' || c == '\u{1680}' || ('\u{2000}' <= c && c <= '\u{200A}')
        || c == '\u{2028}' || c == '\u{2029}' || c == '\u{202F}' || c == '\u{205F}' || c
        == '\u{3000}'
}

/// The text without white space at either end.
pub fn trim_text(cs: &Vec<char>) -> (res: String)
    ensures
        res@ == trim(cs@),
{
    let mut a: usize = 0;
    proof {
        assert(cs@.subrange(0, cs@.len() as int) =~= cs@);
    }
    while a < cs.len() && is_white_char(cs[a])
        invariant
            a <= cs@.len(),
            trim_start(cs@) == trim_start(cs@.subrange(a as int, cs@.len() as int)),
        decreases cs@.len() - a,
    {
        proof {
            let r = cs@.subrange(a as int, cs@.len() as int);
            assert(r.drop_first() =~= cs@.subrange(a + 1, cs@.len() as int));
        }
        a = a + 1;
    }
    let ghost ts = cs@.subrange(a as int, cs@.len() as int);
    proof {
        assert(trim_start(ts) == ts);
    }
    let mut b: usize = cs.len();
    while b > a && is_white_char(cs[b - 1])
        invariant
            a <= b <= cs@.len(),
            trim_end(ts) == trim_end(cs@.subrange(a as int, b as int)),
        decreases b - a,
    {
        proof {
            let r = cs@.subrange(a as int, b as int);
            assert(r.drop_last() =~= cs@.subrange(a as int, b - 1));
        }
        b = b - 1;
    }
    proof {
        assert(trim_end(cs@.subrange(a as int, b as int)) == cs@.subrange(a as int, b as int));
    }
    string_of(cs, a, b)
}

/// Whether `pat` occurs in `s`.
pub fn contains_chars(s: &Vec<char>, pat: &Vec<char>) -> (res: bool)
    ensures
        res == has_infix(s@, pat@),
{
    if pat.len() > s.len() {
        return false;
    }
    if pat.len() == 0 {
        proof {
            assert(s@.subrange(0int, 0int + pat@.len()) =~= pat@);
        }
        return true;
    }
    let last = s.len() - pat.len();
    let mut i: usize = 0;
    while i <= last
        invariant
            last == s@.len() - pat@.len(),
            0 < pat@.len() <= s@.len() <= usize::MAX,
            i <= last + 1,
            last + 1 <= s@.len(),
            forall|j: int| 0 <= j < i ==> #[trigger] s@.subrange(j, j + pat@.len()) != pat@,
        decreases last + 1 - i,
    {
        let mut k: usize = 0;
        let mut same = true;
        proof {
            assert(s@.subrange(i as int, i as int) =~= pat@.take(0));
        }
        while k < pat.len()
            invariant
                i <= last,
                i + pat@.len() <= s@.len(),
                0 < pat@.len() <= s@.len() <= usize::MAX,
                last == s@.len() - pat@.len(),
                k <= pat@.len(),
                same == (s@.subrange(i as int, i + k) == pat@.take(k as int)),
            decreases pat@.len() - k,
        {
            if same && s[i + k] != pat[k] {
                same = false;
                proof {
                    assert(s@.subrange(i as int, i + k + 1)[k as int] != pat@.take(k + 1)[k as int]);
                }
            } else if same {
                proof {
                    assert(s@.subrange(i as int, i + k + 1) =~= s@.subrange(i as int, i + k).push(
                        s@[i + k],
                    ));
                    assert(pat@.take(k + 1) =~= pat@.take(k as int).push(pat@[k as int]));
                }
            } else {
                proof {
                    if s@.subrange(i as int, i + k + 1) == pat@.take(k + 1) {
                        assert(s@.subrange(i as int, i + k) =~= s@.subrange(i as int, i + k + 1).take(
                            k as int,
                        ));
                        assert(pat@.take(k as int) =~= pat@.take(k + 1).take(k as int));
                    }
                }
            }
            k = k + 1;
        }
        proof {
            assert(pat@.take(pat@.len() as int) =~= pat@);
        }
        if same {
            return true;
        }
        i = i + 1;
    }
    false
}

/// The value of a decimal byte, as `u8::from_str` reads it.
pub fn parse_byte(s: &Vec<char>) -> (res: Option<u8>)
    ensures
        res == parse_u8(s@),
{
    let start: usize = if s.len() > 0 && s[0] == '+' { 1 } else { 0 };
    let ghost d = if s@.len() > 0 && s@[0] == '+' { s@.drop_first() } else { s@ };
    proof {
        assert(d =~= s@.subrange(start as int, s@.len() as int));
    }
    if start >= s.len() {
        return None;
    }
    let mut value: u32 = 0;
    let mut i = start;
    while i < s.len()
        invariant
            start <= i <= s@.len(),
            d == (if s@.len() > 0 && s@[0] == '+' { s@.drop_first() } else { s@ }),
            d =~= s@.subrange(start as int, s@.len() as int),
            all_digits(s@.subrange(start as int, i as int)),
            value == digits_value(s@.subrange(start as int, i as int)),
            value <= 255,
        decreases s@.len() - i,
    {
        let c = s[i];
        let ghost pre = s@.subrange(start as int, i as int);
        let ghost post = s@.subrange(start as int, i + 1);
        proof {
            assert(post.drop_last() =~= pre);
            assert(post.last() == c);
        }
        if !('0' <= c && c <= '9') {
            proof {
                assert(d[i - start] == c);
                assert(!all_digits(d));
            }
            return None;
        }
        let dv = (c as u32) - 48;
        let next = value * 10 + dv;
        if next > 255 {
            proof {
                assert(digits_value(post) == next);
                if all_digits(d) {
                    lemma_digits_value_prefix(d, (i + 1 - start) as int);
                    assert(d.take((i + 1 - start) as int) =~= post);
                }
            }
            return None;
        }
        value = next;
        i = i + 1;
    }
    proof {
        assert(s@.subrange(start as int, s@.len() as int) =~= d);
    }
    Some(value as u8)
}

/// A prefix of a digit string has no more value than the whole.
proof fn lemma_digits_value_prefix(d: Seq<char>, n: int)
    requires
        0 <= n <= d.len(),
        all_digits(d),
    ensures
        digits_value(d.take(n)) <= digits_value(d),
    decreases d.len() - n,
{
    if n < d.len() {
        lemma_digits_value_prefix(d, n + 1);
        assert(d.take(n + 1).drop_last() =~= d.take(n));
        assert('0' <= d[n]);
    } else {
        assert(d.take(n) =~= d);
    }
}

/// The decimal numeral of a byte.
pub fn decimal_string(n: u8) -> (res: String)
    ensures
        res@ == decimal(n as nat),
{
    let mut res = String::new();
    if n >= 100 {
        push_char(&mut res, digit(n / 100));
    }
    if n >= 10 {
        push_char(&mut res, digit((n / 10) % 10));
    }
    push_char(&mut res, digit(n % 10));
    proof {
        reveal_with_fuel(decimal, 3);
        if n >= 100 {
            assert((n / 10) as nat / 10 == n / 100);
            assert(decimal((n / 10) as nat) == seq![digit_char(n as nat / 100)].push(
                digit_char((n as nat / 10) % 10),
            ));
        }
    }
    res
}

fn digit(d: u8) -> (c: char)
    requires
        d < 10,
    ensures
        c == digit_char(d as nat),
{
    match d {
        0 => '0',
        1 => '1',
        2 => '2',
        3 => '3',
        4 => '4',
        5 => '5',
        6 => '6',
        7 => '7',
        8 => '8',
        _ => '9',
    }
}

/// The texts joined, with `sep` between each two.
pub fn join_strings(parts: &Vec<String>, sep: &str) -> (res: String)
    ensures
        res@ == join(crate::model::texts(parts@), sep@),
{
    let mut res = String::new();
    let ghost tx = crate::model::texts(parts@);
    let mut i: usize = 0;
    while i < parts.len()
        invariant
            i <= parts@.len(),
            tx == crate::model::texts(parts@),
            res@ == join(tx.take(i as int), sep@),
        decreases parts@.len() - i,
    {
        proof {
            assert(tx.take(i + 1).drop_last() =~= tx.take(i as int));
            assert(tx.take(i + 1).last() == parts@[i as int]@);
        }
        if i > 0 {
            res.append(sep);
        }
        res.append(parts[i].as_str());
        proof {
            if i == 0 {
                assert(res@ =~= tx.take(1)[0]);
            }
        }
        i = i + 1;
    }
    proof {
        assert(tx.take(parts@.len() as int) =~= tx);
    }
    res
}

/// The lines of a text.
pub fn text_lines(cs: &Vec<char>) -> (res: Vec<String>)
    ensures
        crate::model::texts(res@) == lines(cs@),
{
    let ranges = split_ranges(cs, '\n');
    let ghost p = split_on(cs@, '\n');
    proof {
        lemma_split_nonempty(cs@, '\n');
    }
    let ghost body = p.drop_last().map_values(|l: Seq<char>| strip_cr(l));
    let mut res: Vec<String> = Vec::new();
    let n = ranges.len();
    let mut k: usize = 0;
    while k + 1 < n
        invariant
            n == ranges@.len() == p.len() >= 1,
            k < n,
            p == split_on(cs@, '\n'),
            body == p.drop_last().map_values(|l: Seq<char>| strip_cr(l)),
            forall|j: int|
                0 <= j < ranges@.len() ==> {
                    &&& #[trigger] ranges@[j].0 <= ranges@[j].1 <= cs@.len()
                    &&& cs@.subrange(ranges@[j].0 as int, ranges@[j].1 as int) == p[j]
                },
            crate::model::texts(res@) == body.take(k as int),
        decreases n - k,
    {
        let (a, b) = ranges[k];
        assert(ranges@[k as int].0 <= ranges@[k as int].1);
        let end = if b > a && cs[b - 1] == '\r' {
            b - 1
        } else {
            b
        };
        let line = string_of(cs, a, end);
        proof {
            let piece = cs@.subrange(a as int, b as int);
            assert(piece == p[k as int]);
            if b > a && cs@[b - 1] == '\r' {
                assert(piece.last() == cs@[b - 1]);
                assert(piece.drop_last() =~= cs@.subrange(a as int, end as int));
            }
            assert(line@ == strip_cr(p[k as int]));
            assert(body[k as int] == strip_cr(p.drop_last()[k as int]));
        }
        let ghost before = res@;
        res.push(line);
        proof {
            assert(crate::model::texts(res@) =~= crate::model::texts(before).push(line@));
            assert(body.take(k + 1) =~= body.take(k as int).push(body[k as int]));
        }
        k = k + 1;
    }
    proof {
        assert(body.take(k as int) =~= body);
    }
    let (a, b) = ranges[n - 1];
    assert(ranges@[n - 1].0 <= ranges@[n - 1].1);
    if b > a {
        let line = string_of(cs, a, b);
        let ghost before = res@;
        res.push(line);
        proof {
            assert(crate::model::texts(res@) =~= crate::model::texts(before).push(line@));
        }
    }
    res
}

/// The pieces of a text between the occurrences of `sep`.
pub fn fields(s: &str, sep: char) -> (res: Vec<String>)
    ensures
        crate::model::texts(res@) == split_on(s@, sep),
{
    let cs = chars_of(s);
    let ranges = split_ranges(&cs, sep);
    let mut res: Vec<String> = Vec::new();
    let mut k: usize = 0;
    while k < ranges.len()
        invariant
            k <= ranges@.len() == split_on(cs@, sep).len(),
            cs@ == s@,
            forall|j: int|
                0 <= j < ranges@.len() ==> {
                    &&& #[trigger] ranges@[j].0 <= ranges@[j].1 <= cs@.len()
                    &&& cs@.subrange(ranges@[j].0 as int, ranges@[j].1 as int) == split_on(
                        cs@,
                        sep,
                    )[j]
                },
            crate::model::texts(res@) == split_on(cs@, sep).take(k as int),
        decreases ranges@.len() - k,
    {
        let (a, b) = ranges[k];
        assert(ranges@[k as int].0 <= ranges@[k as int].1);
        let piece = string_of(&cs, a, b);
        let ghost before = res@;
        res.push(piece);
        proof {
            assert(crate::model::texts(res@) =~= crate::model::texts(before).push(piece@));
            assert(split_on(cs@, sep).take(k + 1) =~= split_on(cs@, sep).take(k as int).push(
                split_on(cs@, sep)[k as int],
            ));
        }
        k = k + 1;
    }
    proof {
        assert(split_on(cs@, sep).take(k as int) =~= split_on(cs@, sep));
    }
    res
}

} // verus!

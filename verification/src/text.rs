//! Character-level string helpers used throughout the crate.

use vstd::prelude::*;
use vstd::string::*;

verus! {

/// Appends one character to the end of a string (`String::push`).
#[verifier::external_body]
pub(crate) fn push_char(s: &mut String, c: char)
    ensures
        final(s)@ == old(s)@.push(c),
{
    s.push(c);
}

/// Whether two string slices hold the same characters (`<str as PartialEq>::eq`).
#[verifier::external_body]
pub(crate) fn str_eq(a: &str, b: &str) -> (r: bool)
    ensures
        r == (a@ == b@),
{
    a == b
}

/// Copies a string slice into a new `String` (`str::to_string`).
#[verifier::external_body]
pub(crate) fn to_owned_string(s: &str) -> (r: String)
    ensures
        r@ == s@,
{
    s.to_string()
}

/// The Unicode lowercase form of a string (what `str::to_lowercase` returns:
/// each character mapped by the Unicode lowercase tables).
pub uninterp spec fn lowercase(s: Seq<char>) -> Seq<char>;

/// The Unicode lowercase form of a string (`str::to_lowercase`).
#[verifier::external_body]
pub(crate) fn to_lowercase(s: &str) -> (r: String)
    ensures
        r@ == lowercase(s@),
{
    s.to_lowercase()
}

/// The characters of a string slice, in order.
pub fn chars_of(s: &str) -> (v: Vec<char>)
    ensures
        v@ == s@,
{
    let n = s.unicode_len();
    let mut v: Vec<char> = Vec::new();
    let mut i: usize = 0;
    while i < n
        invariant
            n == s@.len(),
            i <= n,
            v@ == s@.subrange(0, i as int),
        decreases n - i,
    {
        v.push(s.get_char(i));
        i = i + 1;
    }
    v
}

/// Appends a sequence of characters to a string.
pub fn push_chars(out: &mut String, v: &Vec<char>)
    ensures
        final(out)@ == old(out)@ + v@,
{
    let mut i: usize = 0;
    while i < v.len()
        invariant
            i <= v.len(),
            out@ == old(out)@ + v@.subrange(0, i as int),
        decreases v.len() - i,
    {
        push_char(out, v[i]);
        i = i + 1;
        assert(v@.subrange(0, i as int) == v@.subrange(0, i - 1).push(v@[i - 1]));
    }
    assert(v@.subrange(0, v.len() as int) == v@);
}

/// A string holding exactly the given characters.
pub fn string_of(v: &Vec<char>) -> (s: String)
    ensures
        s@ == v@,
{
    let mut s = String::new();
    push_chars(&mut s, v);
    s
}

/// Appends a string slice to a string.
pub fn push_str(out: &mut String, s: &str)
    ensures
        final(out)@ == old(out)@ + s@,
{
    out.append(s);
}

/// The decimal digit character for `d < 10`.
pub open spec fn digit_char(d: nat) -> char {
    if d == 0 {
        '0'
    } else if d == 1 {
        '1'
    } else if d == 2 {
        '2'
    } else if d == 3 {
        '3'
    } else if d == 4 {
        '4'
    } else if d == 5 {
        '5'
    } else if d == 6 {
        '6'
    } else if d == 7 {
        '7'
    } else if d == 8 {
        '8'
    } else {
        '9'
    }
}

/// The decimal representation of a natural number, without leading zeros.
pub open spec fn decimal(n: nat) -> Seq<char>
    decreases n,
{
    if n < 10 {
        seq![digit_char(n)]
    } else {
        decimal(n / 10).push(digit_char(n % 10))
    }
}

/// The decimal representation of an integer, with a leading `-` when negative.
pub open spec fn signed_decimal(n: int) -> Seq<char> {
    if n < 0 {
        seq!['-'] + decimal((-n) as nat)
    } else {
        decimal(n as nat)
    }
}

fn digit(d: u64) -> (c: char)
    requires
        d < 10,
    ensures
        c == digit_char(d as nat),
{
    match d {
        0 => '0',
        1 => '1',
        2 => '2',
        3 => '3',
        4 => '4',
        5 => '5',
        6 => '6',
        7 => '7',
        8 => '8',
        _ => '9',
    }
}

/// Appends the decimal representation of `n`.
pub fn push_decimal(out: &mut String, n: u64)
    ensures
        final(out)@ == old(out)@ + decimal(n as nat),
    decreases n,
{
    if n >= 10 {
        push_decimal(out, n / 10);
    }
    push_char(out, digit(n % 10));
}

/// Appends the decimal representation of a signed integer.
pub fn push_signed_decimal(out: &mut String, n: i64)
    ensures
        final(out)@ == old(out)@ + signed_decimal(n as int),
{
    if n < 0 {
        push_char(out, '-');
        let m: u64 = if n == i64::MIN {
            9223372036854775808u64
        } else {
            (-n) as u64
        };
        push_decimal(out, m);
        assert(old(out)@.push('-') + decimal(m as nat) == old(out)@ + (seq!['-'] + decimal(
            m as nat,
        )));
    } else {
        push_decimal(out, n as u64);
    }
}

/// The decimal representation of an unsigned integer, as a new string.
pub fn decimal_string(n: u64) -> (s: String)
    ensures
        s@ == decimal(n as nat),
{
    let mut s = String::new();
    push_decimal(&mut s, n);
    s
}

/// `n` spaces.
pub open spec fn spaces(n: nat) -> Seq<char> {
    Seq::new(n, |i: int| ' ')
}

/// `s` padded on the right with spaces to at least `width` characters
/// (the `{:<width}` format).
pub open spec fn pad_right(s: Seq<char>, width: nat) -> Seq<char> {
    if s.len() >= width {
        s
    } else {
        s + spaces((width - s.len()) as nat)
    }
}

/// Appends `s` padded on the right with spaces to `width` characters.
pub fn push_padded(out: &mut String, s: &str, width: usize)
    ensures
        final(out)@ == old(out)@ + pad_right(s@, width as nat),
{
    let n = s.unicode_len();
    out.append(s);
    if n < width {
        let mut k: usize = n;
        while k < width
            invariant
                n <= k <= width,
                n == s@.len(),
                out@ == old(out)@ + s@ + spaces((k - n) as nat),
            decreases width - k,
        {
            push_char(out, ' ');
            k = k + 1;
            assert(spaces((k - n) as nat) == spaces((k - 1 - n) as nat).push(' '));
        }
        assert(old(out)@ + s@ + spaces((width - n) as nat) == old(out)@ + (s@ + spaces(
            (width - n) as nat,
        )));
    }
}

/// Whether `pat` occurs in `s` starting at position `i`.
pub open spec fn occurs_at(s: Seq<char>, i: int, pat: Seq<char>) -> bool {
    0 <= i && i + pat.len() <= s.len() && s.subrange(i, i + pat.len()) == pat
}

/// Executable form of [`occurs_at`].
pub fn matches_at(s: &Vec<char>, i: usize, pat: &Vec<char>) -> (r: bool)
    ensures
        r == occurs_at(s@, i as int, pat@),
{
    if i > s.len() || pat.len() > s.len() - i {
        return false;
    }
    let mut k: usize = 0;
    while k < pat.len()
        invariant
            i + pat.len() <= s.len(),
            k <= pat.len(),
            forall|j: int| 0 <= j < k ==> s@[i + j] == pat@[j],
        decreases pat.len() - k,
    {
        if s[i + k] != pat[k] {
            assert(s@.subrange(i as int, i + pat.len())[k as int] != pat@[k as int]);
            return false;
        }
        k = k + 1;
    }
    assert(s@.subrange(i as int, i + pat.len()) =~= pat@);
    true
}

/// Whether `s` ends with `suffix`.
pub open spec fn ends_with(s: Seq<char>, suffix: Seq<char>) -> bool {
    suffix.len() <= s.len() && s.subrange(s.len() - suffix.len(), s.len() as int) == suffix
}

/// Executable form of [`ends_with`] (`str::ends_with`).
pub fn str_ends_with(s: &str, suffix: &str) -> (r: bool)
    ensures
        r == ends_with(s@, suffix@),
{
    let sv = chars_of(s);
    let pv = chars_of(suffix);
    if pv.len() > sv.len() {
        return false;
    }
    matches_at(&sv, sv.len() - pv.len(), &pv)
}

/// Every non-overlapping occurrence of `pat` in `s`, scanned from the left,
/// replaced by `rep` (the `str::replace` rule for a non-empty pattern).
pub open spec fn replace_all(s: Seq<char>, pat: Seq<char>, rep: Seq<char>) -> Seq<char>
    decreases s.len(),
{
    if pat.len() == 0 || s.len() == 0 {
        s
    } else if occurs_at(s, 0, pat) {
        rep + replace_all(s.subrange(pat.len() as int, s.len() as int), pat, rep)
    } else {
        seq![s[0]] + replace_all(s.subrange(1, s.len() as int), pat, rep)
    }
}

/// Replaces every non-overlapping occurrence of a non-empty `pat` with `rep`.
pub fn replace_str(s: &str, pat: &str, rep: &str) -> (r: String)
    ensures
        r@ == replace_all(s@, pat@, rep@),
{
    let sv = chars_of(s);
    let pv = chars_of(pat);
    let mut out = String::new();
    if pv.len() == 0 {
        push_chars(&mut out, &sv);
        return out;
    }
    let mut i: usize = 0;
    assert(sv@.subrange(0, sv.len() as int) =~= sv@);
    while i < sv.len()
        invariant
            i <= sv.len(),
            pv.len() > 0,
            sv@ == s@,
            pv@ == pat@,
            out@ + replace_all(sv@.subrange(i as int, sv.len() as int), pv@, rep@) == replace_all(
                sv@,
                pv@,
                rep@,
            ),
        decreases sv.len() - i,
    {
        let ghost rest = sv@.subrange(i as int, sv.len() as int);
        if matches_at(&sv, i, &pv) {
            assert(occurs_at(rest, 0, pv@)) by {
                assert(rest.subrange(0, pv.len() as int) =~= sv@.subrange(
                    i as int,
                    i + pv.len(),
                ));
            }
            assert(rest.subrange(pv.len() as int, rest.len() as int) =~= sv@.subrange(
                i + pv.len(),
                sv.len() as int,
            ));
            let ghost before = out@;
            out.append(rep);
            assert(out@ + replace_all(sv@.subrange(i + pv.len(), sv.len() as int), pv@, rep@)
                =~= before + (rep@ + replace_all(
                sv@.subrange(i + pv.len(), sv.len() as int),
                pv@,
                rep@,
            )));
            i = i + pv.len();
        } else {
            assert(!occurs_at(rest, 0, pv@)) by {
                if occurs_at(rest, 0, pv@) {
                    assert(rest.subrange(0, pv.len() as int) =~= sv@.subrange(
                        i as int,
                        i + pv.len(),
                    ));
                }
            }
            assert(rest.subrange(1, rest.len() as int) =~= sv@.subrange(
                i + 1,
                sv.len() as int,
            ));
            let ghost before = out@;
            push_char(&mut out, sv[i]);
            assert(out@ + replace_all(sv@.subrange(i + 1, sv.len() as int), pv@, rep@) =~= before
                + (seq![sv@[i as int]] + replace_all(
                sv@.subrange(i + 1, sv.len() as int),
                pv@,
                rep@,
            )));
            i = i + 1;
        }
    }
    assert(sv@.subrange(sv.len() as int, sv.len() as int) =~= Seq::<char>::empty());
    out
}

} // verus!

verus! {

/// The pieces of `s` between occurrences of `sep` (the `str::split` rule for a
/// one-character separator): always at least one piece.
pub open spec fn split(s: Seq<char>, sep: char) -> Seq<Seq<char>>
    decreases s.len(),
{
    if s.len() == 0 {
        seq![Seq::<char>::empty()]
    } else {
        let prev = split(s.drop_last(), sep);
        if s.last() == sep {
            prev.push(Seq::<char>::empty())
        } else {
            prev.update(prev.len() - 1, prev.last().push(s.last()))
        }
    }
}

/// `parts` joined with `sep` between neighbours (`[T]::join`).
pub open spec fn join(parts: Seq<Seq<char>>, sep: Seq<char>) -> Seq<char>
    decreases parts.len(),
{
    if parts.len() == 0 {
        Seq::<char>::empty()
    } else if parts.len() == 1 {
        parts[0]
    } else {
        join(parts.drop_last(), sep) + sep + parts.last()
    }
}

/// Whether `c` occurs in `s`.
pub open spec fn has_char(s: Seq<char>, c: char) -> bool {
    exists|i: int| 0 <= i < s.len() && s[i] == c
}

/// The views of a vector of character vectors.
pub open spec fn views(v: Seq<Vec<char>>) -> Seq<Seq<char>> {
    v.map_values(|x: Vec<char>| x@)
}

pub proof fn lemma_split_nonempty(s: Seq<char>, sep: char)
    ensures
        split(s, sep).len() >= 1,
    decreases s.len(),
{
    if s.len() > 0 {
        lemma_split_nonempty(s.drop_last(), sep);
    }
}

/// Appending characters other than the separator extends the last piece.
pub proof fn lemma_split_extend(x: Seq<char>, p: Seq<char>, sep: char)
    requires
        !has_char(p, sep),
    ensures
        split(x + p, sep) == split(x, sep).update(
            split(x, sep).len() - 1,
            split(x, sep).last() + p,
        ),
    decreases p.len(),
{
    lemma_split_nonempty(x, sep);
    let sx = split(x, sep);
    if p.len() == 0 {
        assert(x + p =~= x);
        assert(sx.last() + p =~= sx.last());
        assert(sx.update(sx.len() - 1, sx.last()) =~= sx);
    } else {
        let q = p.drop_last();
        assert(!has_char(q, sep)) by {
            if has_char(q, sep) {
                let i = choose|i: int| 0 <= i < q.len() && q[i] == sep;
                assert(p[i] == sep);
            }
        }
        lemma_split_extend(x, q, sep);
        assert((x + p).drop_last() =~= x + q);
        assert((x + p).last() == p.last());
        assert(p.last() != sep) by {
            assert(p[p.len() - 1] == p.last());
        }
        let sq = split(x + q, sep);
        assert(sq.len() == sx.len());
        assert(sq.last() == sx.last() + q);
        assert((sx.last() + q).push(p.last()) =~= sx.last() + p);
        assert(sq.update(sq.len() - 1, sq.last().push(p.last())) =~= sx.update(
            sx.len() - 1,
            sx.last() + p,
        ));
    }
}

/// Splitting a join gives back the parts, when no part holds the separator.
pub proof fn lemma_split_join(parts: Seq<Seq<char>>, sep: char)
    requires
        parts.len() >= 1,
        forall|i: int| 0 <= i < parts.len() ==> !has_char(#[trigger] parts[i], sep),
    ensures
        split(join(parts, seq![sep]), sep) == parts,
    decreases parts.len(),
{
    if parts.len() == 1 {
        let e = Seq::<char>::empty();
        lemma_split_extend(e, parts[0], sep);
        assert(e + parts[0] =~= parts[0]);
        assert(split(e, sep) == seq![e]);
        assert(e + parts[0] =~= parts[0]);
        assert(seq![e].update(0, e + parts[0]) =~= parts);
    } else {
        let init = parts.drop_last();
        assert forall|i: int| 0 <= i < init.len() implies !has_char(#[trigger] init[i], sep) by {
            assert(init[i] == parts[i]);
        }
        lemma_split_join(init, sep);
        let j = join(init, seq![sep]);
        let js = j.push(sep);
        assert(j + seq![sep] =~= js);
        assert(js.drop_last() =~= j);
        assert(split(js, sep) == split(j, sep).push(Seq::<char>::empty()));
        assert(!has_char(parts.last(), sep)) by {
            assert(parts.last() == parts[parts.len() - 1]);
        }
        lemma_split_extend(js, parts.last(), sep);
        assert(join(parts, seq![sep]) == js + parts.last());
        let sj = split(js, sep);
        assert(Seq::<char>::empty() + parts.last() =~= parts.last());
        assert(sj.update(sj.len() - 1, sj.last() + parts.last()) =~= parts);
    }
}

/// Splits a character vector at each occurrence of `sep`.
pub fn split_chars(v: &Vec<char>, sep: char) -> (r: Vec<Vec<char>>)
    ensures
        views(r@) == split(v@, sep),
{
    let mut done: Vec<Vec<char>> = Vec::new();
    let mut cur: Vec<char> = Vec::new();
    let mut i: usize = 0;
    assert(v@.subrange(0, 0) =~= Seq::<char>::empty());
    assert(views(done@).push(cur@) =~= split(Seq::<char>::empty(), sep));
    while i < v.len()
        invariant
            i <= v.len(),
            views(done@).push(cur@) == split(v@.subrange(0, i as int), sep),
        decreases v.len() - i,
    {
        let c = v[i];
        let ghost pre = v@.subrange(0, i as int);
        let ghost post = v@.subrange(0, i + 1);
        assert(post.drop_last() =~= pre);
        assert(post.last() == c);
        if c == sep {
            done.push(cur);
            cur = Vec::new();
            assert(views(done@).push(cur@) =~= split(pre, sep).push(Seq::<char>::empty()));
        } else {
            let ghost before = views(done@).push(cur@);
            cur.push(c);
            assert(views(done@).push(cur@) =~= before.update(
                before.len() - 1,
                before.last().push(c),
            ));
        }
        i = i + 1;
    }
    assert(v@.subrange(0, v.len() as int) =~= v@);
    done.push(cur);
    assert(views(done@) =~= split(v@, sep));
    done
}

/// The character with ASCII letters in lowercase.
pub open spec fn ascii_lower(c: char) -> char {
    if 'A' <= c && c <= 'Z' {
        ((c as u32) + 32) as char
    } else {
        c
    }
}

/// The character with ASCII letters in lowercase.
pub(crate) fn lower_char(c: char) -> (r: char)
    ensures
        r == ascii_lower(c),
{
    if 'A' <= c && c <= 'Z' {
        let code = (c as u32) + 32;
        proof {
            assert(0x61 <= code <= 0x7a);
        }
        char_from(code)
    } else {
        c
    }
}

/// The lowercase ASCII letter of a code between `a` and `z`.
fn char_from(code: u32) -> (c: char)
    requires
        0x61 <= code <= 0x7a,
    ensures
        c == code as char,
{
    let mut c = 'a';
    let mut k: u32 = 0x61;
    while k < code
        invariant
            0x61 <= k <= code,
            code <= 0x7a,
            c == k as char,
        decreases code - k,
    {
        c = match c {
            'a' => 'b', 'b' => 'c', 'c' => 'd', 'd' => 'e', 'e' => 'f', 'f' => 'g', 'g' => 'h',
            'h' => 'i', 'i' => 'j', 'j' => 'k', 'k' => 'l', 'l' => 'm', 'm' => 'n', 'n' => 'o',
            'o' => 'p', 'p' => 'q', 'q' => 'r', 'r' => 's', 's' => 't', 't' => 'u', 'u' => 'v',
            'v' => 'w', 'w' => 'x', 'x' => 'y', _ => 'z',
        };
        k = k + 1;
    }
    c
}

} // verus!

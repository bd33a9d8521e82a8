//! Character-level helpers shared by the URL, header and formatting code.
use vstd::prelude::*;
use vstd::string::*;

verus! {

/// Appends one character to a string (`String::push`).
#[verifier::external_body]
pub(crate) fn push_char(s: &mut String, c: char)
    ensures
        final(s)@ == old(s)@.push(c),
{
    s.push(c);
}

/// Appends `t` to `s`.
pub fn push_str(s: &mut String, t: &str)
    ensures
        final(s)@ == old(s)@ + t@,
{
    s.append(t);
}

/// A fresh string holding the characters of `s`.
pub fn owned(s: &str) -> (r: String)
    ensures
        r@ == s@,
{
    s.to_owned()
}

/// `parts.join(sep)`.
pub open spec fn joined(parts: Seq<Seq<char>>, sep: Seq<char>) -> Seq<char>
    decreases parts.len(),
{
    if parts.len() == 0 {
        seq![]
    } else if parts.len() == 1 {
        parts[0]
    } else {
        joined(parts.drop_last(), sep) + sep + parts.last()
    }
}

/// The strings of `parts` with `sep` between each two.
pub fn join(parts: &Vec<String>, sep: &str) -> (r: String)
    ensures
        r@ == joined(parts.deep_view(), sep@),
{
    let mut r = String::new();
    let mut j: usize = 0;
    while j < parts.len()
        invariant
            j <= parts.len(),
            r@ == joined(parts.deep_view().take(j as int), sep@),
        decreases parts.len() - j,
    {
        let ghost p = parts.deep_view();
        assert(p.take(j + 1).drop_last() =~= p.take(j as int));
        if j > 0 {
            push_str(&mut r, sep);
        }
        push_str(&mut r, parts[j].as_str());
        j = j + 1;
    }
    assert(parts.deep_view().take(parts.len() as int) =~= parts.deep_view());
    r
}

/// The characters of `s`, in order.
pub fn chars_of(s: &str) -> (v: Vec<char>)
    ensures
        v@ == s@,
{
    let mut v: Vec<char> = Vec::new();
    for c in it: s.chars()
        invariant
            v@ == it.seq().take(it.index() as int),
            it.seq() == s@,
    {
        v.push(c);
    }
    v
}

/// The string made of `v[lo..hi]`.
pub fn string_of(v: &Vec<char>, lo: usize, hi: usize) -> (r: String)
    requires
        lo <= hi <= v@.len(),
    ensures
        r@ == v@.subrange(lo as int, hi as int),
{
    let mut r = String::new();
    let mut i: usize = lo;
    while i < hi
        invariant
            lo <= i <= hi <= v@.len(),
            r@ == v@.subrange(lo as int, i as int),
        decreases hi - i,
    {
        push_char(&mut r, v[i]);
        assert(v@.subrange(lo as int, i + 1) == v@.subrange(lo as int, i as int).push(v@[i as int]));
        i = i + 1;
    }
    r
}

/// Whether two character vectors are equal.
pub fn chars_eq(a: &Vec<char>, b: &Vec<char>) -> (r: bool)
    ensures
        r == (a@ == b@),
{
    if a.len() != b.len() {
        return false;
    }
    let mut i: usize = 0;
    while i < a.len()
        invariant
            a@.len() == b@.len(),
            i <= a@.len(),
            forall|j: int| 0 <= j < i ==> a@[j] == b@[j],
        decreases a.len() - i,
    {
        if a[i] != b[i] {
            return false;
        }
        i = i + 1;
    }
    assert(a@ =~= b@);
    true
}

/// Whether two strings hold the same characters.
pub fn str_eq(a: &str, b: &str) -> (r: bool)
    ensures
        r == (a@ == b@),
{
    let va = chars_of(a);
    let vb = chars_of(b);
    chars_eq(&va, &vb)
}

/// `s` with every trailing `c` removed.
pub open spec fn trim_end_char(s: Seq<char>, c: char) -> Seq<char>
    decreases s.len(),
{
    if s.len() > 0 && s.last() == c {
        trim_end_char(s.drop_last(), c)
    } else {
        s
    }
}

/// `s` with every leading `c` removed.
pub open spec fn trim_start_char(s: Seq<char>, c: char) -> Seq<char>
    decreases s.len(),
{
    if s.len() > 0 && s[0] == c {
        trim_start_char(s.drop_first(), c)
    } else {
        s
    }
}

/// Index where the run of trailing `c` in `v` starts.
fn end_without(v: &Vec<char>, c: char) -> (j: usize)
    ensures
        j <= v@.len(),
        trim_end_char(v@, c) == v@.take(j as int),
{
    let mut j: usize = v.len();
    assert(v@.take(j as int) == v@);
    while j > 0 && v[j - 1] == c
        invariant
            j <= v@.len(),
            trim_end_char(v@, c) == trim_end_char(v@.take(j as int), c),
        decreases j,
    {
        assert(v@.take(j as int).drop_last() == v@.take(j - 1));
        j = j - 1;
    }
    j
}

/// Index where `v` stops starting with `c`.
fn start_without(v: &Vec<char>, c: char) -> (i: usize)
    ensures
        i <= v@.len(),
        trim_start_char(v@, c) == v@.skip(i as int),
{
    let mut i: usize = 0;
    assert(v@.skip(0) == v@);
    while i < v.len() && v[i] == c
        invariant
            i <= v@.len(),
            trim_start_char(v@, c) == trim_start_char(v@.skip(i as int), c),
        decreases v.len() - i,
    {
        assert(v@.skip(i as int).drop_first() == v@.skip(i + 1));
        i = i + 1;
    }
    i
}

/// `s.trim_end_matches(c)`.
pub fn trim_end_matches(s: &str, c: char) -> (r: String)
    ensures
        r@ == trim_end_char(s@, c),
{
    let v = chars_of(s);
    let j = end_without(&v, c);
    string_of(&v, 0, j)
}

/// `s.trim_start_matches(c)`.
pub fn trim_start_matches(s: &str, c: char) -> (r: String)
    ensures
        r@ == trim_start_char(s@, c),
{
    let v = chars_of(s);
    let i = start_without(&v, c);
    string_of(&v, i, v.len())
}

/// Unicode `White_Space`, as `char::is_whitespace` defines it.
pub open spec fn is_ws(c: char) -> bool {
    let u = c as u32;
    (0x09 <= u <= 0x0d) || u == 0x20 || u == 0x85 || u == 0xa0 || u == 0x1680 || (0x2000 <= u
        <= 0x200a) || u == 0x2028 || u == 0x2029 || u == 0x202f || u == 0x205f || u == 0x3000
}

/// Whether `c` is Unicode white space.
pub fn is_whitespace(c: char) -> (r: bool)
    ensures
        r == is_ws(c),
{
    let u = c as u32;
    (0x09 <= u && u <= 0x0d) || u == 0x20 || u == 0x85 || u == 0xa0 || u == 0x1680 || (0x2000 <= u
        && u <= 0x200a) || u == 0x2028 || u == 0x2029 || u == 0x202f || u == 0x205f || u == 0x3000
}

/// `s` with leading and trailing white space removed.
pub open spec fn trim_ws(s: Seq<char>) -> Seq<char>
    decreases s.len(),
{
    if s.len() > 0 && is_ws(s[0]) {
        trim_ws(s.drop_first())
    } else if s.len() > 0 && is_ws(s.last()) {
        trim_ws(s.drop_last())
    } else {
        s
    }
}

/// `s.trim()`.
pub fn trim(s: &str) -> (r: String)
    ensures
        r@ == trim_ws(s@),
{
    let v = chars_of(s);
    let mut i: usize = 0;
    let mut j: usize = v.len();
    assert(v@.subrange(0, v@.len() as int) == v@);
    while i < j && (is_whitespace(v[i]) || is_whitespace(v[j - 1]))
        invariant
            i <= j <= v@.len(),
            trim_ws(v@) == trim_ws(v@.subrange(i as int, j as int)),
        decreases j - i,
    {
        let ghost w = v@.subrange(i as int, j as int);
        if is_whitespace(v[i]) {
            assert(w.drop_first() == v@.subrange(i + 1, j as int));
            i = i + 1;
        } else {
            assert(w.drop_last() == v@.subrange(i as int, j - 1));
            j = j - 1;
        }
    }
    string_of(&v, i, j)
}

/// The decimal digit character for `d < 10`.
pub open spec fn digit(d: nat) -> char {
    ((48 + d) as u32) as char
}

/// Decimal spelling of `n`, no sign and no leading zeros.
pub open spec fn decimal(n: nat) -> Seq<char>
    decreases n,
{
    if n < 10 {
        seq![digit(n)]
    } else {
        decimal(n / 10).push(digit(n % 10))
    }
}

/// Appends the decimal spelling of `n` to `s`.
pub fn push_decimal(s: &mut String, n: u128)
    ensures
        final(s)@ == old(s)@ + decimal(n as nat),
    decreases n,
{
    if n >= 10 {
        push_decimal(s, n / 10);
    }
    let d = (n % 10) as u8;
    push_char(s, (48u8 + d) as char);
    assert(old(s)@ + decimal(n as nat) == (old(s)@ + (if n >= 10 { decimal((n / 10) as nat) } else { seq![] })).push(digit((n % 10) as nat)));
}

/// `s.split(c)`: the pieces between occurrences of `c` (one piece when `c` does
/// not occur, empty pieces kept).
pub open spec fn split_on(s: Seq<char>, c: char) -> Seq<Seq<char>>
    decreases s.len(),
{
    if s.len() == 0 {
        seq![seq![]]
    } else {
        let rest = split_on(s.drop_last(), c);
        if s.last() == c {
            rest.push(seq![])
        } else {
            rest.update(rest.len() - 1, rest.last().push(s.last()))
        }
    }
}

/// Splitting always gives at least one piece.
pub proof fn lemma_split_len(s: Seq<char>, c: char)
    ensures
        split_on(s, c).len() >= 1,
    decreases s.len(),
{
    if s.len() > 0 {
        lemma_split_len(s.drop_last(), c);
    }
}

/// Text without `c` splits into itself alone.
pub proof fn lemma_split_without(s: Seq<char>, c: char)
    requires
        forall|i: int| 0 <= i < s.len() ==> s[i] != c,
    ensures
        split_on(s, c) == seq![s],
    decreases s.len(),
{
    if s.len() == 0 {
        assert(s =~= Seq::<char>::empty());
        assert(split_on(s, c) =~= seq![s]);
    } else {
        lemma_split_without(s.drop_last(), c);
        assert(s.drop_last().push(s.last()) =~= s);
        assert(split_on(s, c) =~= seq![s]);
    }
}

/// A `c` between `a` and `b` splits the two sides apart.
pub proof fn lemma_split_at(a: Seq<char>, b: Seq<char>, c: char)
    ensures
        split_on(a + seq![c] + b, c) == split_on(a, c) + split_on(b, c),
    decreases b.len(),
{
    let s = a + seq![c] + b;
    if b.len() == 0 {
        assert(s.drop_last() =~= a);
        assert(split_on(s, c) =~= split_on(a, c) + split_on(b, c));
    } else {
        lemma_split_at(a, b.drop_last(), c);
        lemma_split_len(b.drop_last(), c);
        assert(s.drop_last() =~= a + seq![c] + b.drop_last());
        assert(split_on(s, c) =~= split_on(a, c) + split_on(b, c));
    }
}

/// Pieces joined by `c`, none of which holds `c`, split back into the pieces.
pub proof fn lemma_split_joined(parts: Seq<Seq<char>>, c: char)
    requires
        parts.len() >= 1,
        forall|k: int, i: int| 0 <= k < parts.len() && 0 <= i < parts[k].len() ==> #[trigger] parts[k][i] != c,
    ensures
        split_on(joined(parts, seq![c]), c) == parts,
    decreases parts.len(),
{
    if parts.len() == 1 {
        lemma_split_without(parts[0], c);
        assert(seq![parts[0]] =~= parts);
    } else {
        let init = parts.drop_last();
        assert forall|k: int, i: int| 0 <= k < init.len() && 0 <= i < init[k].len() implies #[trigger] init[k][i] != c by {
            assert(init[k] == parts[k]);
        }
        lemma_split_joined(init, c);
        assert forall|i: int| 0 <= i < parts.last().len() implies parts.last()[i] != c by {
            assert(parts[parts.len() - 1][i] != c);
        }
        lemma_split_without(parts.last(), c);
        lemma_split_at(joined(init, seq![c]), parts.last(), c);
        assert(init + seq![parts.last()] =~= parts);
    }
}

/// Pieces free of `d`, joined by a separator free of `d`, give text free of `d`.
pub proof fn lemma_joined_without(parts: Seq<Seq<char>>, sep: Seq<char>, d: char)
    requires
        forall|k: int, i: int| 0 <= k < parts.len() && 0 <= i < parts[k].len() ==> #[trigger] parts[k][i] != d,
        forall|i: int| 0 <= i < sep.len() ==> #[trigger] sep[i] != d,
    ensures
        forall|i: int| 0 <= i < joined(parts, sep).len() ==> #[trigger] joined(parts, sep)[i] != d,
    decreases parts.len(),
{
    if parts.len() == 1 {
        assert forall|i: int| 0 <= i < joined(parts, sep).len() implies #[trigger] joined(parts, sep)[i] != d by {
            assert(parts[0][i] != d);
        }
    } else if parts.len() > 1 {
        let init = parts.drop_last();
        assert forall|k: int, i: int| 0 <= k < init.len() && 0 <= i < init[k].len() implies #[trigger] init[k][i] != d by {
            assert(init[k] == parts[k]);
        }
        lemma_joined_without(init, sep, d);
        let a = joined(init, sep);
        let l = parts.last();
        assert forall|i: int| 0 <= i < joined(parts, sep).len() implies #[trigger] joined(parts, sep)[i] != d by {
            assert(joined(parts, sep) == a + sep + l);
            if i < a.len() {
                assert((a + sep + l)[i] == a[i]);
            } else if i < a.len() + sep.len() {
                assert((a + sep + l)[i] == sep[i - a.len()]);
            } else {
                assert((a + sep + l)[i] == l[i - a.len() - sep.len()]);
                assert(parts[parts.len() - 1][i - a.len() - sep.len()] != d);
            }
        }
    }
}

/// `v.split(c)` as character vectors.
pub fn split_chars(v: &Vec<char>, c: char) -> (r: Vec<Vec<char>>)
    ensures
        r.deep_view() == split_on(v@, c),
{
    let mut segs: Vec<Vec<char>> = Vec::new();
    let mut cur: Vec<char> = Vec::new();
    let mut i: usize = 0;
    assert(v@.take(0) =~= Seq::<char>::empty());
    assert(segs.deep_view().push(cur@) =~= split_on(v@.take(0), c));
    while i < v.len()
        invariant
            i <= v@.len(),
            split_on(v@.take(i as int), c) == segs.deep_view().push(cur@),
        decreases v.len() - i,
    {
        let ghost t = v@.take(i + 1);
        assert(t.drop_last() == v@.take(i as int));
        assert(t.last() == v@[i as int]);
        let ghost before = segs.deep_view();
        if v[i] == c {
            let done = cur;
            cur = Vec::new();
            assert(done.deep_view() =~= done@);
            segs.push(done);
            assert(segs.deep_view() =~= before.push(done@));
            assert(segs.deep_view().push(cur@) =~= before.push(done@).push(seq![]));
        } else {
            let ghost cur0 = cur@;
            cur.push(v[i]);
            assert(segs.deep_view().push(cur@) =~= before.push(cur0).update(before.len() as int, cur0.push(v@[i as int])));
        }
        i = i + 1;
    }
    assert(v@.take(v@.len() as int) == v@);
    let ghost before = segs.deep_view();
    assert(cur.deep_view() =~= cur@);
    segs.push(cur);
    assert(segs.deep_view() =~= before.push(cur@));
    segs
}

/// First position at or after `i` that is not white space (or the end).
pub open spec fn skip_ws(s: Seq<char>, i: int) -> int
    decreases s.len() - i,
{
    if i < 0 || i >= s.len() || !is_ws(s[i]) {
        i
    } else {
        skip_ws(s, i + 1)
    }
}

/// First position at or after `i` that is white space (or the end).
pub open spec fn skip_word(s: Seq<char>, i: int) -> int
    decreases s.len() - i,
{
    if i < 0 || i >= s.len() || is_ws(s[i]) {
        i
    } else {
        skip_word(s, i + 1)
    }
}

/// `s.split_whitespace().nth(1)`, or empty when there is no second word.
pub open spec fn second_word(s: Seq<char>) -> Seq<char> {
    let a = skip_ws(s, 0);
    let b = skip_word(s, a);
    let c = skip_ws(s, b);
    let d = skip_word(s, c);
    s.subrange(c, d)
}

pub proof fn lemma_skip_bounds(s: Seq<char>, i: int)
    requires
        0 <= i <= s.len(),
    ensures
        i <= skip_ws(s, i) <= s.len(),
        i <= skip_word(s, i) <= s.len(),
    decreases s.len() - i,
{
    if i < s.len() {
        lemma_skip_bounds(s, i + 1);
    }
}

fn skip_spaces(v: &Vec<char>, start: usize, word: bool) -> (r: usize)
    requires
        start <= v@.len(),
    ensures
        r == (if word { skip_word(v@, start as int) } else { skip_ws(v@, start as int) }),
{
    let mut i = start;
    while i < v.len() && (is_whitespace(v[i]) != word)
        invariant
            start <= i <= v@.len(),
            (if word { skip_word(v@, start as int) } else { skip_ws(v@, start as int) }) == (if word {
                skip_word(v@, i as int)
            } else {
                skip_ws(v@, i as int)
            }),
        decreases v.len() - i,
    {
        i = i + 1;
    }
    i
}

/// The second white-space separated word of `v`.
pub fn second_word_of(v: &Vec<char>) -> (r: Vec<char>)
    ensures
        r@ == second_word(v@),
{
    let a = skip_spaces(v, 0, false);
    proof { lemma_skip_bounds(v@, 0); }
    let b = skip_spaces(v, a, true);
    proof { lemma_skip_bounds(v@, a as int); }
    let c = skip_spaces(v, b, false);
    proof { lemma_skip_bounds(v@, b as int); }
    let d = skip_spaces(v, c, true);
    proof { lemma_skip_bounds(v@, c as int); }
    slice_chars(v, c, d)
}

/// `v[lo..hi]` as a new vector.
pub fn slice_chars(v: &Vec<char>, lo: usize, hi: usize) -> (r: Vec<char>)
    requires
        lo <= hi <= v@.len(),
    ensures
        r@ == v@.subrange(lo as int, hi as int),
{
    let mut r: Vec<char> = Vec::new();
    let mut i: usize = lo;
    while i < hi
        invariant
            lo <= i <= hi <= v@.len(),
            r@ == v@.subrange(lo as int, i as int),
        decreases hi - i,
    {
        r.push(v[i]);
        assert(r@ =~= v@.subrange(lo as int, i + 1));
        i = i + 1;
    }
    r
}

/// Whether `s` begins with `p`.
pub open spec fn has_prefix(s: Seq<char>, p: Seq<char>) -> bool {
    p.len() <= s.len() && s.take(p.len() as int) == p
}

pub fn starts_with(s: &str, p: &str) -> (r: bool)
    ensures
        r == has_prefix(s@, p@),
{
    let vs = chars_of(s);
    let vp = chars_of(p);
    if vp.len() > vs.len() {
        return false;
    }
    let mut i: usize = 0;
    while i < vp.len()
        invariant
            vp@.len() <= vs@.len(),
            i <= vp@.len(),
            vs@ == s@,
            vp@ == p@,
            forall|j: int| 0 <= j < i ==> vs@[j] == vp@[j],
        decreases vp.len() - i,
    {
        if vs[i] != vp[i] {
            assert(s@.take(p@.len() as int)[i as int] != p@[i as int]);
            return false;
        }
        i = i + 1;
    }
    assert(s@.take(p@.len() as int) =~= p@);
    true
}

/// Whether `p` occurs in `s`.
pub open spec fn contains_seq(s: Seq<char>, p: Seq<char>) -> bool {
    exists|i: int| 0 <= i && i + p.len() <= s.len() && #[trigger] s.subrange(i, i + p.len()) == p
}

/// Whether `p` occurs in `s` (`str::contains`).
pub fn contains(s: &str, p: &str) -> (r: bool)
    ensures
        r == contains_seq(s@, p@),
{
    let vs = chars_of(s);
    let vp = chars_of(p);
    if vp.len() > vs.len() {
        return false;
    }
    let last: usize = vs.len() - vp.len();
    let mut i: usize = 0;
    while i <= last
        invariant
            vs@ == s@,
            vp@ == p@,
            last + vp@.len() == vs@.len(),
            i <= last + 1,
            forall|j: int| 0 <= j < i ==> #[trigger] s@.subrange(j, j + p@.len()) != p@,
        decreases last + 1 - i,
    {
        let mut k: usize = 0;
        while k < vp.len() && vs[i + k] == vp[k]
            invariant
                vs@ == s@,
                vp@ == p@,
                i <= last,
                last + vp@.len() == vs@.len(),
                vs@.len() == vs.len(),
                k <= vp@.len(),
                forall|m: int| 0 <= m < k ==> vs@[i + m] == vp@[m],
            decreases vp.len() - k,
        {
            k = k + 1;
        }
        if k == vp.len() {
            assert(s@.subrange(i as int, i + p@.len()) =~= p@);
            return true;
        }
        assert(s@.subrange(i as int, i + p@.len())[k as int] != p@[k as int]);
        i = i + 1;
    }
    false
}

/// What `str::to_lowercase` gives for `s`.
pub uninterp spec fn lowercase(s: Seq<char>) -> Seq<char>;

/// The lowercase form of `s`, by `str::to_lowercase` (Unicode's lowercase
/// mapping); what it gives is known only by the name [`lowercase`].
#[verifier::external_body]
pub(crate) fn to_lowercase(s: &str) -> (r: String)
    ensures
        r@ == lowercase(s@),
{
    s.to_lowercase()
}

/// A decimal spelling holds only the digits `0`..`9`.
pub proof fn lemma_decimal_digits(n: nat)
    ensures
        decimal(n).len() >= 1,
        forall|k: int| 0 <= k < decimal(n).len() ==> '0' <= #[trigger] decimal(n)[k] <= '9',
    decreases n,
{
    if n >= 10 {
        lemma_decimal_digits(n / 10);
        let d = decimal(n / 10);
        assert forall|k: int| 0 <= k < decimal(n).len() implies '0' <= #[trigger] decimal(n)[k] <= '9' by {
            if k < d.len() {
                assert(decimal(n)[k] == d[k]);
            }
        }
    }
}

/// Different numbers are spelled differently.
pub proof fn lemma_decimal_injective(a: nat, b: nat)
    requires
        decimal(a) == decimal(b),
    ensures
        a == b,
    decreases a,
{
    lemma_decimal_digits(a / 10);
    lemma_decimal_digits(b / 10);
    if a < 10 && b < 10 {
        assert(decimal(a)[0] == digit(a));
    } else if a >= 10 && b >= 10 {
        assert(decimal(a).last() == digit(a % 10));
        assert(decimal(b).last() == digit(b % 10));
        assert(decimal(a).drop_last() =~= decimal(a / 10));
        assert(decimal(b).drop_last() =~= decimal(b / 10));
        lemma_decimal_injective(a / 10, b / 10);
    } else if a < 10 {
        assert(decimal(a).len() == 1);
        assert(decimal(b).len() == decimal(b / 10).len() + 1);
    } else {
        assert(decimal(b).len() == 1);
        assert(decimal(a).len() == decimal(a / 10).len() + 1);
    }
}

} // verus!

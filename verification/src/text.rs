//! Character-level helpers: every parser of this crate works on a sequence of
//! `char`s, and every contract speaks of `Seq<char>`.

use itertools::Itertools;
use vstd::prelude::*;
use vstd::string::*;

verus! {

/// Whether `c` has the Unicode property `White_Space`.
pub open spec fn is_space(c: char) -> bool {
    let n = c as u32;
    ||| 0x09 <= n <= 0x0D
    ||| n == 0x20
    ||| n == 0x85
    ||| n == 0xA0
    ||| n == 0x1680
    ||| 0x2000 <= n <= 0x200A
    ||| n == 0x2028
    ||| n == 0x2029
    ||| n == 0x202F
    ||| n == 0x205F
    ||| n == 0x3000
}

/// The ASCII lower-case form of `c`; every other character is left as it is.
pub open spec fn lower(c: char) -> char {
    if 'A' <= c <= 'Z' {
        ((c as u8) + 32) as char
    } else {
        c
    }
}

/// `s` with every ASCII upper-case letter replaced by its lower-case form.
pub open spec fn lower_seq(s: Seq<char>) -> Seq<char> {
    Seq::new(s.len(), |i: int| lower(s[i]))
}

/// Equality of two texts up to ASCII case.
pub open spec fn eq_ignore_case(a: Seq<char>, b: Seq<char>) -> bool {
    lower_seq(a) == lower_seq(b)
}

/// `s` without its leading white space.
pub open spec fn trim_start(s: Seq<char>) -> Seq<char>
    decreases s.len(),
{
    if s.len() > 0 && is_space(s[0]) {
        trim_start(s.skip(1))
    } else {
        s
    }
}

/// `s` without its trailing white space.
pub open spec fn trim_end(s: Seq<char>) -> Seq<char>
    decreases s.len(),
{
    if s.len() > 0 && is_space(s.last()) {
        trim_end(s.drop_last())
    } else {
        s
    }
}

/// `s` without leading and trailing white space.
pub open spec fn trim(s: Seq<char>) -> Seq<char> {
    trim_end(trim_start(s))
}

/// The pieces of `s` between occurrences of `sep`. With a cap, at most that
/// many pieces: once the last one allowed has been started, it keeps every
/// further separator. There is always at least one piece unless the cap is 0.
pub open spec fn pieces(s: Seq<char>, cap: Option<nat>, sep: char) -> Seq<Seq<char>>
    decreases s.len(),
{
    if cap == Some(0nat) {
        Seq::empty()
    } else if s.len() == 0 {
        seq![Seq::empty()]
    } else {
        let before = pieces(s.drop_last(), cap, sep);
        if s.last() == sep && (cap is None || before.len() < cap->0) {
            before.push(Seq::empty())
        } else {
            before.drop_last().push(before.last().push(s.last()))
        }
    }
}

/// The pieces of `s` between occurrences of `sep`, at most `limit` of them.
pub open spec fn splitn(s: Seq<char>, limit: nat, sep: char) -> Seq<Seq<char>> {
    pieces(s, Some(limit), sep)
}

/// The pieces of `s` between occurrences of `sep`.
pub open spec fn split(s: Seq<char>, sep: char) -> Seq<Seq<char>> {
    pieces(s, None, sep)
}

/// The texts that the vectors of `v` hold.
pub open spec fn views(v: Seq<Vec<char>>) -> Seq<Seq<char>> {
    Seq::new(v.len(), |i: int| v[i]@)
}

/// The texts of `items` in a row, with `sep` between each two of them.
pub open spec fn join(items: Seq<Seq<char>>, sep: Seq<char>) -> Seq<char>
    decreases items.len(),
{
    if items.len() == 0 {
        Seq::empty()
    } else if items.len() == 1 {
        items[0]
    } else {
        join(items.drop_last(), sep) + sep + items.last()
    }
}

/// The lines of `lines` as one text, each followed by a line feed.
pub open spec fn lines_text(lines: Seq<Seq<char>>) -> Seq<char>
    decreases lines.len(),
{
    if lines.len() == 0 {
        Seq::empty()
    } else {
        lines_text(lines.drop_last()) + lines.last() + seq!['\n']
    }
}

/// The texts that the strings of `v` hold.
pub open spec fn texts(v: Seq<String>) -> Seq<Seq<char>> {
    Seq::new(v.len(), |i: int| v[i]@)
}

/// Whether `c` occurs in `s`.
pub open spec fn has_char(s: Seq<char>, c: char) -> bool {
    exists|i: int| 0 <= i < s.len() && s[i] == c
}

/// Whether `p` is a prefix of `s`.
pub open spec fn starts_with(s: Seq<char>, p: Seq<char>) -> bool {
    p.len() <= s.len() && s.take(p.len() as int) == p
}

/// There is at least one piece, and no more pieces than the cap allows.
pub proof fn lemma_pieces_some(s: Seq<char>, cap: Option<nat>, sep: char)
    ensures
        cap != Some(0nat) ==> pieces(s, cap, sep).len() >= 1,
        cap is Some ==> pieces(s, cap, sep).len() <= cap->0,
        pieces(s, cap, sep).len() <= s.len() + 1,
    decreases s.len(),
{
    if cap != Some(0nat) && s.len() > 0 {
        lemma_pieces_some(s.drop_last(), cap, sep);
    }
}

/// A longer last item makes the joined text longer by as much.
proof fn lemma_join_extend(items: Seq<Seq<char>>, sep: Seq<char>, c: char)
    requires
        items.len() >= 1,
    ensures
        join(items.drop_last().push(items.last().push(c)), sep) == join(items, sep).push(c),
{
    let longer = items.drop_last().push(items.last().push(c));
    assert(longer.drop_last() =~= items.drop_last());
    assert(longer.last() == items.last().push(c));
    if items.len() == 1 {
        assert(longer[0] == items[0].push(c));
    } else {
        assert(join(longer, sep) =~= join(items, sep).push(c));
    }
}

/// A character that is not in `s` and is not `c` is not in `s` with `c`
/// after it.
proof fn lemma_has_char_push(s: Seq<char>, c: char, sep: char)
    ensures
        has_char(s.push(c), sep) <==> (has_char(s, sep) || c == sep),
{
    let t = s.push(c);
    if has_char(t, sep) {
        let i = choose|i: int| 0 <= i < t.len() && t[i] == sep;
        if i < s.len() {
            assert(s[i] == sep);
        }
    }
    if has_char(s, sep) {
        let i = choose|i: int| 0 <= i < s.len() && s[i] == sep;
        assert(t[i] == sep);
    }
    if c == sep {
        assert(t[s.len() as int] == sep);
    }
}

/// Splitting loses nothing: the pieces, joined by the separator, are the
/// text. No piece but the last holds a separator, and the last one does only
/// where the cap was reached: what is more than the cap allows stays in the
/// last piece as it is, separators included.
pub proof fn lemma_pieces_keep_text(s: Seq<char>, cap: Option<nat>, sep: char)
    requires
        cap != Some(0nat),
    ensures
        pieces(s, cap, sep).len() >= 1,
        cap is Some ==> pieces(s, cap, sep).len() <= cap->0,
        join(pieces(s, cap, sep), seq![sep]) == s,
        forall|i: int|
            0 <= i < pieces(s, cap, sep).len() - 1 ==> !has_char(
                #[trigger] pieces(s, cap, sep)[i],
                sep,
            ),
        (cap is None || pieces(s, cap, sep).len() < cap->0) ==> !has_char(
            pieces(s, cap, sep).last(),
            sep,
        ),
    decreases s.len(),
{
    let now = pieces(s, cap, sep);
    if s.len() == 0 {
        assert(now =~= seq![Seq::<char>::empty()]);
        assert(join(now, seq![sep]) =~= s);
    } else {
        let front = s.drop_last();
        let before = pieces(front, cap, sep);
        lemma_pieces_keep_text(front, cap, sep);
        if s.last() == sep && (cap is None || before.len() < cap->0) {
            assert(now == before.push(Seq::<char>::empty()));
            assert(now.drop_last() =~= before);
            assert(join(now, seq![sep]) =~= front + seq![sep] + Seq::<char>::empty());
            assert(front + seq![sep] + Seq::<char>::empty() =~= s);
            assert forall|i: int| 0 <= i < now.len() - 1 implies !has_char(
                #[trigger] now[i],
                sep,
            ) by {
                assert(now[i] == before[i]);
                if i == before.len() - 1 {
                    assert(before[i] == before.last());
                }
            }
        } else {
            assert(now == before.drop_last().push(before.last().push(s.last())));
            lemma_join_extend(before, seq![sep], s.last());
            assert(front.push(s.last()) =~= s);
            assert forall|i: int| 0 <= i < now.len() - 1 implies !has_char(
                #[trigger] now[i],
                sep,
            ) by {
                assert(now[i] == before[i]);
            }
            lemma_has_char_push(before.last(), s.last(), sep);
        }
    }
}

/// A text without the separator is one piece.
pub proof fn lemma_split_one(s: Seq<char>, sep: char)
    requires
        !has_char(s, sep),
    ensures
        split(s, sep) == seq![s],
    decreases s.len(),
{
    if s.len() == 0 {
        assert(s =~= Seq::<char>::empty());
    } else {
        let front = s.drop_last();
        assert(!has_char(front, sep)) by {
            if has_char(front, sep) {
                let i = choose|i: int| 0 <= i < front.len() && front[i] == sep;
                assert(s[i] == sep);
            }
        }
        lemma_split_one(front, sep);
        assert(s.last() != sep) by {
            assert(s[s.len() - 1] == s.last());
        }
        assert(front.push(s.last()) =~= s);
        let before = pieces(front, None, sep);
        assert(before == seq![front]);
        assert(before.drop_last().push(before.last().push(s.last())) =~= seq![s]);
    }
}

/// After the last separator comes the last piece.
pub proof fn lemma_split_push(a: Seq<char>, b: Seq<char>, sep: char)
    requires
        !has_char(b, sep),
    ensures
        split(a + seq![sep] + b, sep) == split(a, sep).push(b),
    decreases b.len(),
{
    let whole = a + seq![sep] + b;
    if b.len() == 0 {
        assert(whole.drop_last() =~= a);
        assert(whole.last() == sep);
        assert(b =~= Seq::<char>::empty());
    } else {
        let front = b.drop_last();
        assert(!has_char(front, sep)) by {
            if has_char(front, sep) {
                let i = choose|i: int| 0 <= i < front.len() && front[i] == sep;
                assert(b[i] == sep);
            }
        }
        lemma_split_push(a, front, sep);
        assert(whole.drop_last() =~= a + seq![sep] + front);
        assert(whole.last() == b.last());
        assert(b.last() != sep) by {
            assert(b[b.len() - 1] == b.last());
        }
        let before = split(a, sep).push(front);
        assert(before.drop_last() =~= split(a, sep));
        assert(before.last().push(b.last()) =~= b);
    }
}

/// Pieces that hold no separator, joined by it, are split into just these
/// pieces.
pub proof fn lemma_split_join(items: Seq<Seq<char>>, sep: char)
    requires
        items.len() >= 1,
        forall|i: int| 0 <= i < items.len() ==> !has_char(#[trigger] items[i], sep),
    ensures
        split(join(items, seq![sep]), sep) == items,
    decreases items.len(),
{
    if items.len() == 1 {
        lemma_split_one(items[0], sep);
        assert(seq![items[0]] =~= items);
    } else {
        let front = items.drop_last();
        assert forall|i: int| 0 <= i < front.len() implies !has_char(
            #[trigger] front[i],
            sep,
        ) by {
            assert(front[i] == items[i]);
        }
        lemma_split_join(front, sep);
        lemma_split_push(join(front, seq![sep]), items.last(), sep);
        assert(front.push(items.last()) =~= items);
    }
}

/// Whether `c` is white space.
pub fn is_space_char(c: char) -> (r: bool)
    ensures
        r == is_space(c),
{
    let n: u32 = c as u32;
    (0x09 <= n && n <= 0x0D) || n == 0x20 || n == 0x85 || n == 0xA0 || n == 0x1680 || (0x2000 <= n
        && n <= 0x200A) || n == 0x2028 || n == 0x2029 || n == 0x202F || n == 0x205F || n == 0x3000
}

/// The ASCII lower-case form of `c`.
pub fn lower_char(c: char) -> (r: char)
    ensures
        r == lower(c),
{
    if 'A' <= c && c <= 'Z' {
        ((c as u8) + 32) as char
    } else {
        c
    }
}

/// The characters of `s`.
pub fn to_chars(s: &str) -> (v: Vec<char>)
    ensures
        v@ == s@,
{
    let mut v: Vec<char> = Vec::new();
    for c in it: s.chars()
        invariant
            v@ == it.seq().take(it.index@),
            it.seq() == s@,
    {
        v.push(c);
    }
    v
}

/// `String::push`: appends one character to the end of the string.
#[verifier::external_body]
fn push_char(s: &mut String, c: char)
    ensures
        final(s)@ == old(s)@.push(c),
{
    s.push(c)
}

/// The string that holds the characters of `v`.
pub fn to_text(v: &Vec<char>) -> (s: String)
    ensures
        s@ == v@,
{
    let mut s = String::new();
    let mut i: usize = 0;
    while i < v.len()
        invariant
            i <= v.len(),
            s@ == v@.take(i as int),
        decreases v.len() - i,
    {
        push_char(&mut s, v[i]);
        assert(v@.take(i as int).push(v@[i as int]) == v@.take(i + 1));
        i += 1;
    }
    assert(v@.take(v.len() as int) == v@);
    s
}

/// The characters of `v` from `from` up to, not including, `to`.
pub fn slice(v: &Vec<char>, from: usize, to: usize) -> (r: Vec<char>)
    requires
        from <= to <= v.len(),
    ensures
        r@ == v@.subrange(from as int, to as int),
{
    let mut r: Vec<char> = Vec::new();
    let mut i: usize = from;
    while i < to
        invariant
            from <= i <= to <= v.len(),
            r@ == v@.subrange(from as int, i as int),
        decreases to - i,
    {
        r.push(v[i]);
        assert(v@.subrange(from as int, i as int).push(v@[i as int]) == v@.subrange(
            from as int,
            i + 1,
        ));
        i += 1;
    }
    r
}

/// The lower-case form of `v`, ASCII letters only.
pub fn to_lower(v: &Vec<char>) -> (r: Vec<char>)
    ensures
        r@ == lower_seq(v@),
{
    let mut r: Vec<char> = Vec::new();
    let mut i: usize = 0;
    while i < v.len()
        invariant
            i <= v.len(),
            r@.len() == i,
            forall|j: int| 0 <= j < i ==> r@[j] == lower(v@[j]),
        decreases v.len() - i,
    {
        r.push(lower_char(v[i]));
        i += 1;
    }
    assert(r@ =~= lower_seq(v@));
    r
}

/// Whether `a` and `b` hold the same characters.
pub fn same_chars(a: &Vec<char>, b: &Vec<char>) -> (r: bool)
    ensures
        r == (a@ == b@),
{
    if a.len() != b.len() {
        return false;
    }
    let mut i: usize = 0;
    while i < a.len()
        invariant
            i <= a.len(),
            a.len() == b.len(),
            forall|j: int| 0 <= j < i ==> a@[j] == b@[j],
        decreases a.len() - i,
    {
        if a[i] != b[i] {
            return false;
        }
        i += 1;
    }
    assert(a@ =~= b@);
    true
}

/// Whether `v` is the text `lit`.
pub fn is_text(v: &Vec<char>, lit: &str) -> (r: bool)
    ensures
        r == (v@ == lit@),
{
    let l = to_chars(lit);
    same_chars(v, &l)
}

/// Whether `v` is the text `lit` up to ASCII case.
pub fn is_text_ignore_case(v: &Vec<char>, lit: &str) -> (r: bool)
    ensures
        r == eq_ignore_case(v@, lit@),
{
    let a = to_lower(v);
    let b = to_lower(&to_chars(lit));
    same_chars(&a, &b)
}

/// Whether `v` begins with the text `lit`.
pub fn has_prefix(v: &Vec<char>, lit: &str) -> (r: bool)
    ensures
        r == starts_with(v@, lit@),
{
    let l = to_chars(lit);
    if l.len() > v.len() {
        return false;
    }
    let head = slice(v, 0, l.len());
    assert(v@.subrange(0, l.len() as int) == v@.take(l.len() as int));
    same_chars(&head, &l)
}

/// The number of white-space characters that `v` begins with.
fn leading_spaces(v: &Vec<char>) -> (n: usize)
    ensures
        n <= v.len(),
        trim_start(v@) == v@.skip(n as int),
{
    let mut n: usize = 0;
    assert(v@.skip(0) =~= v@);
    while n < v.len() && is_space_char(v[n])
        invariant
            n <= v.len(),
            trim_start(v@) == trim_start(v@.skip(n as int)),
        decreases v.len() - n,
    {
        assert(v@.skip(n as int).skip(1) =~= v@.skip(n + 1));
        n += 1;
    }
    n
}

/// Where the text of `v` from `from` on ends once its trailing white space is
/// taken off.
fn trailing_end(v: &Vec<char>, from: usize) -> (to: usize)
    requires
        from <= v.len(),
    ensures
        from <= to <= v.len(),
        trim_end(v@.skip(from as int)) == v@.subrange(from as int, to as int),
{
    let ghost rest = v@.skip(from as int);
    let mut to: usize = v.len();
    assert(v@.subrange(from as int, to as int) =~= rest);
    while to > from && is_space_char(v[to - 1])
        invariant
            from <= to <= v.len(),
            rest == v@.skip(from as int),
            trim_end(rest) == trim_end(v@.subrange(from as int, to as int)),
        decreases to,
    {
        assert(v@.subrange(from as int, to as int).drop_last() =~= v@.subrange(
            from as int,
            to - 1,
        ));
        to -= 1;
    }
    to
}

/// `v` without leading and trailing white space.
pub fn trimmed(v: &Vec<char>) -> (r: Vec<char>)
    ensures
        r@ == trim(v@),
{
    let from = leading_spaces(v);
    let to = trailing_end(v, from);
    slice(v, from, to)
}

/// The pieces of `v` between occurrences of `sep`, with or without a cap on
/// their number.
fn cut(v: &Vec<char>, cap: Option<usize>, sep: char) -> (r: Vec<Vec<char>>)
    ensures
        views(r@) == pieces(
            v@,
            match cap {
                Some(n) => Some(n as nat),
                None => None,
            },
            sep,
        ),
{
    let ghost gcap: Option<nat> = match cap {
        Some(n) => Some(n as nat),
        None => None,
    };
    let mut done: Vec<Vec<char>> = Vec::new();
    let limited: bool = cap.is_some();
    let limit: usize = match cap {
        Some(n) => n,
        None => 0,
    };
    if limited && limit == 0 {
        assert(views(done@) =~= pieces(v@, gcap, sep));
        return done;
    }
    let mut cur: Vec<char> = Vec::new();
    let mut i: usize = 0;
    assert(v@.take(0) == Seq::<char>::empty());
    assert(views(done@).push(cur@) =~= pieces(v@.take(0), gcap, sep));
    while i < v.len()
        invariant
            i <= v.len(),
            gcap == (match cap {
                Some(n) => Some(n as nat),
                None => None,
            }),
            limited == cap.is_some(),
            limited ==> cap == Some(limit) && limit > 0 && done@.len() < limit,
            views(done@).push(cur@) == pieces(v@.take(i as int), gcap, sep),
        decreases v.len() - i,
    {
        assert(v@.take(i + 1).drop_last() == v@.take(i as int));
        let ghost before = views(done@).push(cur@);
        if v[i] == sep && (!limited || done.len() + 1 < limit) {
            done.push(cur);
            cur = Vec::new();
            assert(views(done@).push(cur@) =~= before.push(Seq::empty()));
        } else {
            cur.push(v[i]);
            assert(views(done@).push(cur@) =~= before.drop_last().push(
                before.last().push(v@[i as int]),
            ));
        }
        i += 1;
    }
    assert(v@.take(v.len() as int) == v@);
    let ghost all = views(done@).push(cur@);
    done.push(cur);
    assert(views(done@) =~= all);
    done
}

/// The pieces of `v` between occurrences of `sep`, at most `limit` of them.
pub fn splitn_chars(v: &Vec<char>, limit: usize, sep: char) -> (r: Vec<Vec<char>>)
    ensures
        views(r@) == splitn(v@, limit as nat, sep),
{
    cut(v, Some(limit), sep)
}

/// The pieces of `v` between occurrences of `sep`.
pub fn split_chars(v: &Vec<char>, sep: char) -> (r: Vec<Vec<char>>)
    ensures
        views(r@) == split(v@, sep),
{
    cut(v, None, sep)
}

/// Whether `low` is the lower-case form of `lit`.
pub fn is_lower_of(low: &Vec<char>, lit: &str) -> (r: bool)
    ensures
        r == (low@ == lower_seq(lit@)),
{
    let l = to_lower(&to_chars(lit));
    same_chars(low, &l)
}

/// Appends `line` and a line feed to `out`.
pub fn push_line(out: &mut String, line: &str)
    ensures
        final(out)@ == old(out)@ + line@ + seq!['\n'],
{
    out.append(line);
    push_char(out, '\n');
    assert(final(out)@ =~= old(out)@ + line@ + seq!['\n']);
}

/// `Itertools::join` on the strings of `items`: the first string, then for
/// each further one the separator and the string; the empty string for no
/// items.
#[verifier::external_body]
pub(crate) fn join_strings(items: &Vec<String>, sep: &str) -> (r: String)
    ensures
        r@ == join(texts(items@), sep@),
{
    items.iter().join(sep)
}

/// The strings of `items` in a row, with `sep` between each two of them.
pub fn concat_with(items: &Vec<String>, sep: &str) -> (r: String)
    ensures
        r@ == join(texts(items@), sep@),
{
    let mut r = String::new();
    let mut i: usize = 0;
    assert(texts(items@).take(0) =~= Seq::<Seq<char>>::empty());
    while i < items.len()
        invariant
            i <= items.len(),
            r@ == join(texts(items@).take(i as int), sep@),
        decreases items.len() - i,
    {
        let ghost before = texts(items@).take(i as int);
        let ghost after = texts(items@).take(i + 1);
        assert(after.drop_last() =~= before);
        assert(after.last() == items@[i as int]@);
        if i > 0 {
            r.append(sep);
        } else {
            assert(r@ =~= Seq::<char>::empty());
        }
        r.append(items[i].as_str());
        assert(r@ =~= join(after, sep@));
        i += 1;
    }
    assert(texts(items@).take(items.len() as int) =~= texts(items@));
    r
}


} // verus!

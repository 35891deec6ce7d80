//! Text as sequences of characters: the string operations the rest of the
//! library is written in, each tied to a function on `Seq<char>`.

use vstd::prelude::*;

verus! {

/// The views of a list of strings.
pub open spec fn views(v: Seq<String>) -> Seq<Seq<char>> {
    v.map_values(|s: String| s@)
}

/// The view of an optional string.
pub open spec fn opt(s: Option<String>) -> Option<Seq<char>> {
    match s {
        Some(t) => Some(t@),
        None => None,
    }
}

/// The view of an optional borrowed text.
pub open spec fn opt_str(s: Option<&str>) -> Option<Seq<char>> {
    match s {
        Some(t) => Some(t@),
        None => None,
    }
}

/// The views of a list with one more string.
pub broadcast proof fn lemma_views_push(v: Seq<String>, s: String)
    ensures
        #[trigger] views(v.push(s)) == views(v).push(s@),
{
    assert(views(v.push(s)) =~= views(v).push(s@));
}

/// The characters with Unicode's White_Space property.
pub open spec fn is_space(c: char) -> bool {
    ||| '\u{9}' <= c <= '\u{d}'
    ||| c == ' '
    ||| c == '\u{85}'
    ||| c == '\u{a0}'
    ||| c == '\u{1680}'
    ||| '\u{2000}' <= c <= '\u{200a}'
    ||| c == '\u{2028}'
    ||| c == '\u{2029}'
    ||| c == '\u{202f}'
    ||| c == '\u{205f}'
    ||| c == '\u{3000}'
}

/// Whether `c` is white space.
pub fn space(c: char) -> (r: bool)
    ensures
        r == is_space(c),
{
    ('\u{9}' <= c && c <= '\u{d}') || c == ' ' || c == '\u{85}' || c == '\u{a0}' || c == '\u{1680}'
        || ('\u{2000}' <= c && c <= '\u{200a}') || c == '\u{2028}' || c == '\u{2029}' || c
        == '\u{202f}' || c == '\u{205f}' || c == '\u{3000}'
}

/// The characters of `s`, in order.
pub fn chars(s: &str) -> (r: Vec<char>)
    ensures
        r@ == s@,
{
    let mut out: Vec<char> = Vec::new();
    for c in it: s.chars()
        invariant
            out@ == it.seq().take(it.index() as int),
            it.seq() == s@,
    {
        out.push(c);
    }
    out
}

/// `String::push` of the standard library: it appends one character.
pub assume_specification[ String::push ](s: &mut String, c: char)
    ensures
        final(s)@ == old(s)@.push(c),
;

/// The string made of the characters from `from` to `to`.
pub fn slice(cs: &Vec<char>, from: usize, to: usize) -> (r: String)
    requires
        from <= to <= cs@.len(),
    ensures
        r@ == cs@.subrange(from as int, to as int),
{
    let mut out = String::new();
    let mut i: usize = from;
    while i < to
        invariant
            from <= i <= to <= cs@.len(),
            out@ == cs@.subrange(from as int, i as int),
        decreases to - i,
    {
        out.push(cs[i]);
        i = i + 1;
    }
    out
}

/// Whether two texts are the same.
pub fn same(a: &str, b: &str) -> (r: bool)
    ensures
        r == (a@ == b@),
{
    a.to_owned() == b.to_owned()
}

/// `s` without the white space at its start.
pub open spec fn without_leading_space(s: Seq<char>) -> Seq<char>
    decreases s.len(),
{
    if s.len() > 0 && is_space(s[0]) {
        without_leading_space(s.skip(1))
    } else {
        s
    }
}

/// `s` without the white space at its end.
pub open spec fn without_trailing_space(s: Seq<char>) -> Seq<char>
    decreases s.len(),
{
    if s.len() > 0 && is_space(s.last()) {
        without_trailing_space(s.drop_last())
    } else {
        s
    }
}

/// `s` without the white space at both its ends.
pub open spec fn trimmed(s: Seq<char>) -> Seq<char> {
    without_trailing_space(without_leading_space(s))
}

/// `s` without the white space at both its ends.
pub fn trim(s: &str) -> (r: String)
    ensures
        r@ == trimmed(s@),
{
    let cs = chars(s);
    let n: usize = cs.len();
    let mut i: usize = 0;
    assert(cs@.subrange(0, n as int) == cs@);
    while i < n && space(cs[i])
        invariant
            n == cs@.len(),
            i <= n,
            cs@ == s@,
            without_leading_space(s@) == without_leading_space(cs@.subrange(i as int, n as int)),
        decreases n - i,
    {
        assert(cs@.subrange(i as int, n as int).skip(1) == cs@.subrange(i + 1, n as int));
        i = i + 1;
    }
    assert(without_leading_space(s@) == cs@.subrange(i as int, n as int));
    let mut j: usize = n;
    while i < j && space(cs[j - 1])
        invariant
            n == cs@.len(),
            i <= j <= n,
            trimmed(s@) == without_trailing_space(cs@.subrange(i as int, j as int)),
        decreases j,
    {
        assert(cs@.subrange(i as int, j as int).drop_last() == cs@.subrange(i as int, j - 1));
        j = j - 1;
    }
    slice(&cs, i, j)
}

/// `s` without the white space at its end.
pub fn trim_end(s: &str) -> (r: String)
    ensures
        r@ == without_trailing_space(s@),
{
    let cs = chars(s);
    let n: usize = cs.len();
    let mut j: usize = n;
    assert(cs@.subrange(0, n as int) == cs@);
    while 0 < j && space(cs[j - 1])
        invariant
            n == cs@.len(),
            j <= n,
            without_trailing_space(s@) == without_trailing_space(cs@.subrange(0, j as int)),
        decreases j,
    {
        assert(cs@.subrange(0, j as int).drop_last() == cs@.subrange(0, j - 1));
        j = j - 1;
    }
    slice(&cs, 0, j)
}

/// `s` without the run of `c` at its end.
pub open spec fn without_trailing(s: Seq<char>, c: char) -> Seq<char>
    decreases s.len(),
{
    if s.len() > 0 && s.last() == c {
        without_trailing(s.drop_last(), c)
    } else {
        s
    }
}

/// `s` without the run of `c` at its end.
pub fn trim_end_of(s: &str, c: char) -> (r: String)
    ensures
        r@ == without_trailing(s@, c),
{
    let cs = chars(s);
    let n: usize = cs.len();
    let mut j: usize = n;
    assert(cs@.subrange(0, n as int) == cs@);
    while 0 < j && cs[j - 1] == c
        invariant
            n == cs@.len(),
            j <= n,
            without_trailing(s@, c) == without_trailing(cs@.subrange(0, j as int), c),
        decreases j,
    {
        assert(cs@.subrange(0, j as int).drop_last() == cs@.subrange(0, j - 1));
        j = j - 1;
    }
    slice(&cs, 0, j)
}

/// `s` without the run of `c` at its start.
pub open spec fn without_leading(s: Seq<char>, c: char) -> Seq<char>
    decreases s.len(),
{
    if s.len() > 0 && s[0] == c {
        without_leading(s.skip(1), c)
    } else {
        s
    }
}

/// `s` without the run of `c` at its start.
pub fn trim_start_of(s: &str, c: char) -> (r: String)
    ensures
        r@ == without_leading(s@, c),
{
    let cs = chars(s);
    let n: usize = cs.len();
    let mut i: usize = 0;
    assert(cs@.subrange(0, n as int) == cs@);
    while i < n && cs[i] == c
        invariant
            n == cs@.len(),
            i <= n,
            without_leading(s@, c) == without_leading(cs@.subrange(i as int, n as int), c),
        decreases n - i,
    {
        assert(cs@.subrange(i as int, n as int).skip(1) == cs@.subrange(i + 1, n as int));
        i = i + 1;
    }
    slice(&cs, i, n)
}

/// `c` in lower case, if it is an ASCII letter.
pub open spec fn lower(c: char) -> char {
    if 'A' <= c <= 'Z' {
        (c as u8 + 32) as char
    } else {
        c
    }
}

/// `s` with its ASCII letters in lower case.
pub open spec fn lowered(s: Seq<char>) -> Seq<char> {
    s.map_values(|c: char| lower(c))
}

/// `s` with its ASCII letters in lower case.
pub fn to_ascii_lowercase(s: &str) -> (r: String)
    ensures
        r@ == lowered(s@),
{
    let mut out = String::new();
    for c in it: s.chars()
        invariant
            out@ == lowered(it.seq().take(it.index() as int)),
            it.seq() == s@,
    {
        let l: char = if 'A' <= c && c <= 'Z' {
            ((c as u8) + 32) as char
        } else {
            c
        };
        out.push(l);
        assert(out@ =~= lowered(it.seq().take(it.index() + 1)));
    }
    assert(s@.take(s@.len() as int) == s@);
    out
}

/// Whether `p` stands in `s` at `i`.
pub open spec fn occurs_at(s: Seq<char>, p: Seq<char>, i: int) -> bool {
    &&& 0 <= i
    &&& i + p.len() <= s.len()
    &&& s.subrange(i, i + p.len()) == p
}

/// Whether `p` stands in `s` anywhere.
pub open spec fn mentions(s: Seq<char>, p: Seq<char>) -> bool {
    exists|i: int| occurs_at(s, p, i)
}

/// Whether `p` stands in `s` at `i`.
pub fn found_at(s: &Vec<char>, p: &Vec<char>, i: usize) -> (r: bool)
    ensures
        r == occurs_at(s@, p@, i as int),
{
    if i > s.len() || p.len() > s.len() - i {
        return false;
    }
    let mut k: usize = 0;
    while k < p.len()
        invariant
            i + p.len() <= s.len(),
            k <= p@.len(),
            forall|j: int| 0 <= j < k ==> s@[i + j] == p@[j],
        decreases p@.len() - k,
    {
        if s[i + k] != p[k] {
            assert(s@.subrange(i as int, i + p@.len())[k as int] != p@[k as int]);
            return false;
        }
        k = k + 1;
    }
    assert(s@.subrange(i as int, i + p@.len()) =~= p@);
    true
}

/// The first place from `i` on at which `p` stands in `s`.
pub open spec fn next_at(s: Seq<char>, p: Seq<char>, i: int) -> Option<int>
    decreases s.len() - i + 1,
{
    if i + p.len() > s.len() {
        None
    } else if occurs_at(s, p, i) {
        Some(i)
    } else {
        next_at(s, p, i + 1)
    }
}

/// The first place at which `p` stands in `s`.
pub open spec fn first_at(s: Seq<char>, p: Seq<char>) -> Option<int> {
    next_at(s, p, 0)
}

/// `p` stands nowhere before the first place, and nowhere at all if there is none.
pub proof fn lemma_first_at(s: Seq<char>, p: Seq<char>)
    ensures
        match first_at(s, p) {
            Some(i) => occurs_at(s, p, i) && forall|j: int| 0 <= j < i ==> !occurs_at(s, p, j),
            None => !mentions(s, p),
        },
{
    lemma_next_at(s, p, 0);
}

proof fn lemma_next_at(s: Seq<char>, p: Seq<char>, i: int)
    requires
        0 <= i,
        forall|j: int| 0 <= j < i ==> !occurs_at(s, p, j),
    ensures
        match next_at(s, p, i) {
            Some(k) => occurs_at(s, p, k) && forall|j: int| 0 <= j < k ==> !occurs_at(s, p, j),
            None => !mentions(s, p),
        },
    decreases s.len() - i + 1,
{
    if i + p.len() <= s.len() && !occurs_at(s, p, i) {
        lemma_next_at(s, p, i + 1);
    }
}

/// The first place at which `p` stands in `s`.
pub fn find(s: &Vec<char>, p: &Vec<char>) -> (r: Option<usize>)
    ensures
        match r {
            Some(i) => first_at(s@, p@) == Some(i as int),
            None => first_at(s@, p@) is None,
        },
{
    if p.len() > s.len() {
        return None;
    }
    let last: usize = s.len() - p.len();
    let mut i: usize = 0;
    while i < last
        invariant
            i <= last,
            last == s@.len() - p@.len(),
            first_at(s@, p@) == next_at(s@, p@, i as int),
        decreases last - i,
    {
        if found_at(s, p, i) {
            return Some(i);
        }
        i = i + 1;
    }
    if found_at(s, p, i) {
        return Some(i);
    }
    assert(next_at(s@, p@, last + 1) is None);
    None
}

/// `s` up to the first `p`, or all of it.
pub open spec fn before(s: Seq<char>, p: Seq<char>) -> Seq<char> {
    match first_at(s, p) {
        Some(i) => s.take(i),
        None => s,
    }
}

/// `s` up to the first `p`, or all of it.
pub fn until(s: &str, p: &str) -> (r: String)
    ensures
        r@ == before(s@, p@),
{
    let sc = chars(s);
    let pc = chars(p);
    proof {
        lemma_first_at(s@, p@);
    }
    match find(&sc, &pc) {
        Some(i) => {
            let t = slice(&sc, 0, i);
            assert(t@ =~= s@.take(i as int));
            t
        },
        None => s.to_owned(),
    }
}

/// What stands in `s` between the first `p` and the next, or to the end.
pub open spec fn second_piece(s: Seq<char>, p: Seq<char>) -> Option<Seq<char>> {
    match first_at(s, p) {
        Some(i) => Some(before(s.skip(i + p.len()), p)),
        None => None,
    }
}

/// What stands in `s` between the first `p` and the next, or to the end.
pub fn between(s: &str, p: &str) -> (r: Option<String>)
    ensures
        match r {
            Some(t) => second_piece(s@, p@) == Some(t@),
            None => second_piece(s@, p@) is None,
        },
{
    let sc = chars(s);
    let pc = chars(p);
    proof {
        lemma_first_at(s@, p@);
    }
    match find(&sc, &pc) {
        Some(i) => {
            assert(i + pc.len() <= sc.len());
            let rest = slice(&sc, i + pc.len(), sc.len());
            assert(rest@ =~= s@.skip(i + p@.len()));
            Some(until(rest.as_str(), p))
        },
        None => None,
    }
}

/// Whether `p` stands in `s` anywhere.
pub fn contains(s: &str, p: &str) -> (r: bool)
    ensures
        r == mentions(s@, p@),
{
    let sc = chars(s);
    let pc = chars(p);
    proof {
        lemma_first_at(s@, p@);
    }
    find(&sc, &pc).is_some()
}

/// Whether `s` starts with `p`.
pub open spec fn begins(s: Seq<char>, p: Seq<char>) -> bool {
    occurs_at(s, p, 0)
}

/// Whether `s` starts with `p`.
pub fn starts_with(s: &str, p: &str) -> (r: bool)
    ensures
        r == begins(s@, p@),
{
    let sc = chars(s);
    let pc = chars(p);
    found_at(&sc, &pc, 0)
}

/// Whether `s` ends with `p`.
pub open spec fn finishes(s: Seq<char>, p: Seq<char>) -> bool {
    occurs_at(s, p, s.len() - p.len())
}

/// Whether `s` ends with `p`.
pub fn ends_with(s: &str, p: &str) -> (r: bool)
    ensures
        r == finishes(s@, p@),
{
    let sc = chars(s);
    let pc = chars(p);
    if pc.len() > sc.len() {
        return false;
    }
    found_at(&sc, &pc, sc.len() - pc.len())
}

/// What follows `p` at the start of `s`.
pub fn strip_prefix(s: &str, p: &str) -> (r: Option<String>)
    ensures
        r is Some <==> begins(s@, p@),
        r matches Some(t) ==> t@ == s@.skip(p@.len() as int),
{
    let sc = chars(s);
    let pc = chars(p);
    if found_at(&sc, &pc, 0) {
        let t = slice(&sc, pc.len(), sc.len());
        assert(t@ =~= s@.skip(p@.len() as int));
        Some(t)
    } else {
        None
    }
}

/// The pieces of `s` between the occurrences of `c`: each `c` starts a new one.
pub open spec fn pieces(s: Seq<char>, c: char) -> Seq<Seq<char>>
    decreases s.len(),
{
    if s.len() == 0 {
        seq![Seq::empty()]
    } else {
        let before = pieces(s.drop_last(), c);
        if s.last() == c {
            before.push(Seq::empty())
        } else {
            before.drop_last().push(before.last().push(s.last()))
        }
    }
}

/// There is always at least one piece.
pub proof fn lemma_pieces_nonempty(s: Seq<char>, c: char)
    ensures
        pieces(s, c).len() >= 1,
    decreases s.len(),
{
    if s.len() > 0 {
        lemma_pieces_nonempty(s.drop_last(), c);
    }
}

/// The pieces of `s` between the occurrences of `c`.
pub fn split(s: &str, c: char) -> (r: Vec<String>)
    ensures
        views(r@) == pieces(s@, c),
{
    let mut out: Vec<String> = Vec::new();
    let mut piece = String::new();
    proof {
        assert(s@.take(0) =~= Seq::<char>::empty());
        assert(views(out@).push(piece@) =~= pieces(s@.take(0), c));
    }
    for d in it: s.chars()
        invariant
            it.seq() == s@,
            views(out@).push(piece@) == pieces(s@.take(it.index() as int), c),
    {
        let ghost before = views(out@).push(piece@);
        assert(s@.take(it.index() + 1).drop_last() =~= s@.take(it.index() as int));
        assert(before.drop_last() =~= views(out@));
        if d == c {
            out.push(piece);
            piece = String::new();
            assert(views(out@).push(piece@) =~= before.push(Seq::empty()));
        } else {
            piece.push(d);
        }
    }
    assert(s@.take(s@.len() as int) =~= s@);
    let ghost done = views(out@).push(piece@);
    out.push(piece);
    assert(views(out@) =~= done);
    out
}

/// The last piece of `s` between the occurrences of `c`.
pub open spec fn last_piece(s: Seq<char>, c: char) -> Seq<char> {
    pieces(s, c).last()
}

/// The last piece of `s` between the occurrences of `c`.
pub fn after_last(s: &str, c: char) -> (r: String)
    ensures
        r@ == last_piece(s@, c),
{
    let mut parts = split(s, c);
    proof {
        lemma_pieces_nonempty(s@, c);
        assert(views(parts@).len() == parts@.len());
    }
    let ghost last = parts@.last();
    assert(views(parts@).last() == last@);
    match parts.pop() {
        Some(p) => p,
        None => String::new(),
    }
}

/// The parts, with `sep` between each two.
pub open spec fn joined(parts: Seq<Seq<char>>, sep: Seq<char>) -> Seq<char>
    decreases parts.len(),
{
    if parts.len() == 0 {
        Seq::empty()
    } else if parts.len() == 1 {
        parts[0]
    } else {
        joined(parts.drop_last(), sep) + sep + parts.last()
    }
}

/// The parts, with `sep` between each two.
pub fn join(parts: &Vec<String>, sep: &str) -> (r: String)
    ensures
        r@ == joined(views(parts@), sep@),
{
    let mut out = String::new();
    let mut i: usize = 0;
    while i < parts.len()
        invariant
            i <= parts@.len(),
            out@ == joined(views(parts@).take(i as int), sep@),
        decreases parts@.len() - i,
    {
        let ghost next = views(parts@).take(i + 1);
        assert(next.drop_last() =~= views(parts@).take(i as int));
        if i > 0 {
            out.append(sep);
        }
        out.append(parts[i].as_str());
        proof {
            if i == 0 {
                assert(out@ =~= next[0]);
            }
        }
        i = i + 1;
    }
    assert(views(parts@).take(parts@.len() as int) =~= views(parts@));
    out
}

/// `a` followed by `b`.
pub fn cat2(a: &str, b: &str) -> (r: String)
    ensures
        r@ == a@ + b@,
{
    let mut out = a.to_owned();
    out.append(b);
    out
}

/// `a`, `b` and `c`, one after the other.
pub fn cat3(a: &str, b: &str, c: &str) -> (r: String)
    ensures
        r@ == a@ + b@ + c@,
{
    let mut out = a.to_owned();
    out.append(b);
    out.append(c);
    out
}

/// `a`, `b`, `c` and `d`, one after the other.
pub fn cat4(a: &str, b: &str, c: &str, d: &str) -> (r: String)
    ensures
        r@ == a@ + b@ + c@ + d@,
{
    let mut out = a.to_owned();
    out.append(b);
    out.append(c);
    out.append(d);
    out
}

/// `a` to `e`, one after the other.
pub fn cat5(a: &str, b: &str, c: &str, d: &str, e: &str) -> (r: String)
    ensures
        r@ == a@ + b@ + c@ + d@ + e@,
{
    let mut out = a.to_owned();
    out.append(b);
    out.append(c);
    out.append(d);
    out.append(e);
    out
}

/// The digit `d` as a character.
pub open spec fn digit(d: int) -> char {
    (48 + d) as u8 as char
}

/// `n` in decimal.
pub open spec fn decimal(n: nat) -> Seq<char>
    decreases n,
{
    if n < 10 {
        seq![digit(n as int)]
    } else {
        decimal(n / 10).push(digit((n % 10) as int))
    }
}

/// `n` in decimal, after a minus sign if it is negative.
pub open spec fn signed(n: int) -> Seq<char> {
    if n < 0 {
        seq!['-'] + decimal((-n) as nat)
    } else {
        decimal(n as nat)
    }
}

/// `n` in decimal, always after its sign.
pub open spec fn plus_signed(n: int) -> Seq<char> {
    if n < 0 {
        signed(n)
    } else {
        seq!['+'] + decimal(n as nat)
    }
}

/// `n` in decimal.
pub fn decimal_text(n: u128) -> (r: String)
    ensures
        r@ == decimal(n as nat),
    decreases n,
{
    let mut out = if n < 10 {
        String::new()
    } else {
        decimal_text(n / 10)
    };
    let d: u8 = (n % 10) as u8;
    out.push((48u8 + d) as char);
    proof {
        if n < 10 {
            assert(out@ =~= seq![digit(n as int)]);
        }
    }
    out
}

/// `n` in decimal, after a minus sign if it is negative.
pub fn signed_text(n: i128) -> (r: String)
    requires
        n > i128::MIN,
    ensures
        r@ == signed(n as int),
{
    if n < 0 {
        let mut out = String::new();
        out.push('-');
        out.append(decimal_text((-n) as u128).as_str());
        assert(out@ =~= seq!['-'] + decimal((-n) as nat));
        out
    } else {
        decimal_text(n as u128)
    }
}

/// `n` in decimal, always after its sign.
pub fn plus_signed_text(n: i128) -> (r: String)
    requires
        n > i128::MIN,
    ensures
        r@ == plus_signed(n as int),
{
    if n < 0 {
        signed_text(n)
    } else {
        let mut out = String::new();
        out.push('+');
        out.append(decimal_text(n as u128).as_str());
        assert(out@ =~= seq!['+'] + decimal(n as nat));
        out
    }
}

/// Whether `c` is a decimal digit.
pub open spec fn is_digit(c: char) -> bool {
    '0' <= c <= '9'
}

/// The number that the digits `s` write.
pub open spec fn value(s: Seq<char>) -> nat
    decreases s.len(),
{
    if s.len() == 0 {
        0
    } else {
        value(s.drop_last()) * 10 + (s.last() as int - 48) as nat
    }
}

/// Whether `s` is a row of at least one digit.
pub open spec fn is_number(s: Seq<char>) -> bool {
    s.len() > 0 && forall|i: int| 0 <= i < s.len() ==> is_digit(#[trigger] s[i])
}

/// The number up to `max` that `s` writes in decimal, with or without a plus sign.
pub open spec fn unsigned(s: Seq<char>, max: nat) -> Option<nat> {
    let body = if s.len() > 0 && s[0] == '+' {
        s.skip(1)
    } else {
        s
    };
    if is_number(body) && value(body) <= max {
        Some(value(body))
    } else {
        None
    }
}

/// A longer row of digits writes no smaller number.
proof fn lemma_value_grows(s: Seq<char>, i: int)
    requires
        0 <= i <= s.len(),
    ensures
        value(s.take(i)) <= value(s),
    decreases s.len(),
{
    if i < s.len() {
        lemma_value_grows(s.drop_last(), i);
        assert(s.drop_last().take(i) =~= s.take(i));
    } else {
        assert(s.take(i) =~= s);
    }
}

/// The number up to `max` that the digits from `from` on write.
fn parse_digits(cs: &Vec<char>, from: usize, max: u64) -> (r: Option<u64>)
    requires
        from <= cs@.len(),
    ensures
        r is Some <==> is_number(cs@.skip(from as int)) && value(cs@.skip(from as int)) <= max,
        r matches Some(v) ==> v == value(cs@.skip(from as int)),
{
    let ghost body = cs@.skip(from as int);
    if from == cs.len() {
        return None;
    }
    let mut total: u64 = 0;
    let mut i: usize = from;
    while i < cs.len()
        invariant
            from <= i <= cs@.len(),
            body == cs@.skip(from as int),
            total == value(body.take(i - from)),
            total <= max,
            forall|j: int| 0 <= j < i - from ==> is_digit(#[trigger] body[j]),
        decreases cs@.len() - i,
    {
        let c: char = cs[i];
        assert(c == body[i - from]);
        if !('0' <= c && c <= '9') {
            return None;
        }
        let d: u64 = (c as u64) - 48;
        proof {
            let next = body.take(i - from + 1);
            assert(next.drop_last() =~= body.take(i - from));
            assert(value(next) == total * 10 + d);
            lemma_value_grows(body, i - from + 1);
        }
        if total > max / 10 || (total == max / 10 && d > max % 10) {
            return None;
        }
        total = total * 10 + d;
        i = i + 1;
    }
    assert(body.take(body.len() as int) =~= body);
    Some(total)
}

/// The number up to `max` that `s` writes in decimal, with or without a plus sign.
pub fn parse_unsigned(s: &str, max: u64) -> (r: Option<u64>)
    ensures
        match r {
            Some(v) => unsigned(s@, max as nat) == Some(v as nat),
            None => unsigned(s@, max as nat) is None,
        },
{
    let cs = chars(s);
    if cs.len() > 0 && cs[0] == '+' {
        parse_digits(&cs, 1, max)
    } else {
        assert(cs@.skip(0) =~= cs@);
        parse_digits(&cs, 0, max)
    }
}

/// The integer that an `i64` holds and `s` writes in decimal, with or without a sign.
pub open spec fn integer(s: Seq<char>) -> Option<int> {
    if s.len() > 0 && s[0] == '-' {
        let body = s.skip(1);
        if is_number(body) && value(body) <= 0x8000_0000_0000_0000 {
            Some(-(value(body) as int))
        } else {
            None
        }
    } else {
        match unsigned(s, 0x7fff_ffff_ffff_ffff) {
            Some(v) => Some(v as int),
            None => None,
        }
    }
}

/// The integer that an `i64` holds and `s` writes in decimal, with or without a sign.
pub fn parse_integer(s: &str) -> (r: Option<i64>)
    ensures
        match r {
            Some(v) => integer(s@) == Some(v as int),
            None => integer(s@) is None,
        },
{
    let cs = chars(s);
    if cs.len() > 0 && cs[0] == '-' {
        match parse_digits(&cs, 1, 0x8000_0000_0000_0000) {
            Some(v) => Some((-(v as i128)) as i64),
            None => None,
        }
    } else {
        match parse_unsigned(s, 0x7fff_ffff_ffff_ffff) {
            Some(v) => Some(v as i64),
            None => None,
        }
    }
}

/// One line without the carriage return that its line feed may follow.
pub open spec fn without_return(s: Seq<char>) -> Seq<char> {
    if s.len() > 0 && s.last() == '\r' {
        s.drop_last()
    } else {
        s
    }
}

/// The lines of `s`: each ends at a line feed, which may follow a carriage return; the last
/// one may have no line feed, and an empty one after the last line feed does not count.
pub open spec fn line_list(s: Seq<char>) -> Seq<Seq<char>> {
    let ps = pieces(s, '\n');
    let ended = ps.drop_last().map_values(|p: Seq<char>| without_return(p));
    if ps.last().len() == 0 {
        ended
    } else {
        ended.push(ps.last())
    }
}

/// The lines of `s`.
pub fn lines(s: &str) -> (r: Vec<String>)
    ensures
        views(r@) == line_list(s@),
{
    let ps = split(s, '\n');
    let ghost all = pieces(s@, '\n');
    proof {
        lemma_pieces_nonempty(s@, '\n');
        assert(views(ps@).len() == ps@.len());
    }
    let n: usize = ps.len() - 1;
    let mut out: Vec<String> = Vec::new();
    let mut i: usize = 0;
    while i < n
        invariant
            n == ps@.len() - 1,
            i <= n,
            all == views(ps@),
            views(out@) == all.take(i as int).map_values(|p: Seq<char>| without_return(p)),
        decreases n - i,
    {
        let cs = chars(ps[i].as_str());
        let end: usize = if cs.len() > 0 && cs[cs.len() - 1] == '\r' {
            cs.len() - 1
        } else {
            cs.len()
        };
        let line = slice(&cs, 0, end);
        assert(line@ =~= without_return(all[i as int]));
        proof {
            lemma_views_push(out@, line);
        }
        out.push(line);
        assert(views(out@) =~= all.take(i + 1).map_values(|p: Seq<char>| without_return(p)));
        i = i + 1;
    }
    assert(all.drop_last() =~= all.take(n as int));
    let ghost ended = views(out@);
    if !ps[n].as_str().is_empty() {
        out.push(ps[n].clone());
        assert(views(out@) =~= ended.push(all.last()));
    }
    out
}

/// How many bytes a character takes in UTF-8.
pub open spec fn char_bytes(c: char) -> nat {
    if (c as int) < 0x80 {
        1
    } else if (c as int) < 0x800 {
        2
    } else if (c as int) < 0x10000 {
        3
    } else {
        4
    }
}

/// How many bytes the first `n` characters take in UTF-8.
pub open spec fn bytes_of(s: Seq<char>, n: nat) -> nat
    decreases n,
{
    if n == 0 {
        0
    } else {
        bytes_of(s, (n - 1) as nat) + char_bytes(s[n - 1])
    }
}

fn code(c: char) -> (r: u32)
    ensures
        r == c as int,
{
    c as u32
}

/// How many bytes a text takes in UTF-8.
pub fn byte_len(s: &str) -> (r: u128)
    ensures
        r == bytes_of(s@, s@.len()),
{
    let cs = chars(s);
    let mut n: u128 = 0;
    let mut i: usize = 0;
    while i < cs.len()
        invariant
            i <= cs.len(),
            cs@ == s@,
            n <= 4 * i,
            n == bytes_of(s@, i as nat),
        decreases cs@.len() - i,
    {
        let c: u32 = code(cs[i]);
        if c < 0x80 {
            n = n + 1;
        } else if c < 0x800 {
            n = n + 2;
        } else if c < 0x10000 {
            n = n + 3;
        } else {
            n = n + 4;
        }
        i = i + 1;
    }
    n
}

/// Whether `c` is an ASCII letter or digit.
pub open spec fn is_plain(c: char) -> bool {
    ('a' <= c <= 'z') || ('A' <= c <= 'Z') || ('0' <= c <= '9')
}

/// Whether `c` is an ASCII letter or digit.
pub fn plain(c: char) -> (r: bool)
    ensures
        r == is_plain(c),
{
    ('a' <= c && c <= 'z') || ('A' <= c && c <= 'Z') || ('0' <= c && c <= '9')
}

/// What stands in a part of a text stands in the text.
pub proof fn lemma_mentions_within(a: Seq<char>, b: Seq<char>, c: Seq<char>, p: Seq<char>)
    requires
        mentions(b, p),
    ensures
        mentions(a + b + c, p),
{
    let i = choose|i: int| occurs_at(b, p, i);
    assert((a + b + c).subrange(a.len() + i, a.len() + i + p.len()) =~= b.subrange(
        i,
        i + p.len(),
    ));
    assert(occurs_at(a + b + c, p, a.len() + i));
}

/// A text stands in itself between any two others.
pub proof fn lemma_mentions_middle(a: Seq<char>, p: Seq<char>, c: Seq<char>)
    ensures
        mentions(a + p + c, p),
{
    assert((a + p + c).subrange(a.len() as int, a.len() as int + p.len()) =~= p);
    assert(occurs_at(a + p + c, p, a.len() as int));
}

/// Trimming takes nothing but white space away, all of it at both ends, and nothing from between.
pub proof fn lemma_trimmed(s: Seq<char>) -> (ends: (int, int))
    ensures
        0 <= ends.0 <= ends.1 <= s.len(),
        trimmed(s) == s.subrange(ends.0, ends.1),
        forall|i: int| 0 <= i < ends.0 || ends.1 <= i < s.len() ==> is_space(#[trigger] s[i]),
        trimmed(s).len() > 0 ==> !is_space(trimmed(s)[0]) && !is_space(trimmed(s).last()),
{
    let a = lemma_without_leading_space(s);
    let rest = s.skip(a);
    let n = lemma_without_trailing_space(rest);
    assert(rest.take(n) =~= s.subrange(a, a + n));
    assert forall|i: int| 0 <= i < a || a + n <= i < s.len() implies is_space(#[trigger] s[i]) by {
        if i >= a + n {
            assert(rest[i - a] == s[i]);
        }
    }
    if n > 0 {
        assert(rest[0] == trimmed(s)[0]);
        assert(rest.len() > 0);
    }
    (a, a + n)
}

proof fn lemma_without_leading_space(s: Seq<char>) -> (a: int)
    ensures
        0 <= a <= s.len(),
        without_leading_space(s) == s.skip(a),
        forall|i: int| 0 <= i < a ==> is_space(#[trigger] s[i]),
        a < s.len() ==> !is_space(s[a]),
    decreases s.len(),
{
    if s.len() > 0 && is_space(s[0]) {
        let b = lemma_without_leading_space(s.skip(1));
        assert(s.skip(1).skip(b) =~= s.skip(b + 1));
        assert forall|i: int| 0 <= i < b + 1 implies is_space(#[trigger] s[i]) by {
            if i > 0 {
                assert(s.skip(1)[i - 1] == s[i]);
            }
        }
        if b + 1 < s.len() {
            assert(s.skip(1)[b] == s[b + 1]);
        }
        b + 1
    } else {
        assert(s.skip(0) =~= s);
        0
    }
}

proof fn lemma_without_trailing_space(s: Seq<char>) -> (n: int)
    ensures
        0 <= n <= s.len(),
        without_trailing_space(s) == s.take(n),
        forall|i: int| n <= i < s.len() ==> is_space(#[trigger] s[i]),
        n > 0 ==> !is_space(s[n - 1]),
    decreases s.len(),
{
    if s.len() > 0 && is_space(s.last()) {
        let n = lemma_without_trailing_space(s.drop_last());
        assert(s.drop_last().take(n) =~= s.take(n));
        assert forall|i: int| n <= i < s.len() implies is_space(#[trigger] s[i]) by {
            if i < s.len() - 1 {
                assert(s.drop_last()[i] == s[i]);
            }
        }
        if n > 0 {
            assert(s.drop_last()[n - 1] == s[n - 1]);
        }
        n
    } else {
        assert(s.take(s.len() as int) =~= s);
        s.len() as int
    }
}

/// A number that is written in decimal reads as itself.
pub proof fn lemma_decimal_reads_back(n: nat)
    ensures
        is_number(decimal(n)),
        value(decimal(n)) == n,
    decreases n,
{
    if n < 10 {
        let s = decimal(n);
        assert(s =~= seq![digit(n as int)]);
        assert(s.drop_last() =~= Seq::<char>::empty());
        assert(value(s.drop_last()) == 0);
    } else {
        lemma_decimal_reads_back(n / 10);
        let s = decimal(n);
        assert(s.drop_last() =~= decimal(n / 10));
        assert(s.last() == digit((n % 10) as int));
    }
}

/// A signed number that is written in decimal reads as itself.
pub proof fn lemma_signed_reads_back(n: i64)
    ensures
        integer(signed(n as int)) == Some(n as int),
{
    if n < 0 {
        lemma_decimal_reads_back((-n) as nat);
        assert(signed(n as int).skip(1) =~= decimal((-n) as nat));
    } else {
        lemma_decimal_reads_back(n as nat);
        let s = decimal(n as nat);
        assert(is_digit(s[0]));
    }
}

/// The pieces of a text make it up again with the separator between them, and none holds it.
pub proof fn lemma_pieces_make_up(s: Seq<char>, c: char)
    ensures
        joined(pieces(s, c), seq![c]) == s,
        forall|i: int| 0 <= i < pieces(s, c).len() ==> !(#[trigger] pieces(s, c)[i]).contains(c),
    decreases s.len(),
{
    if s.len() > 0 {
        let t = s.drop_last();
        lemma_pieces_make_up(t, c);
        lemma_pieces_nonempty(t, c);
        let before = pieces(t, c);
        let now = pieces(s, c);
        if s.last() == c {
            assert(now.drop_last() =~= before);
            assert(joined(now, seq![c]) =~= t.push(c));
            assert(t.push(c) =~= s);
        } else {
            let head = before.drop_last();
            assert(now.drop_last() =~= head);
            if before.len() > 1 {
                assert(joined(now, seq![c]) =~= joined(before, seq![c]).push(s.last()));
            } else {
                assert(joined(now, seq![c]) =~= joined(before, seq![c]).push(s.last()));
            }
            assert(t.push(s.last()) =~= s);
            let longer = before.last().push(s.last());
            assert(!before[before.len() - 1].contains(c));
            assert(!longer.contains(c)) by {
                if longer.contains(c) {
                    let i = longer.index_of(c);
                    if i < before.last().len() {
                        assert(before.last()[i] == c);
                    }
                }
            }
        }
        assert forall|i: int| 0 <= i < now.len() implies !(#[trigger] now[i]).contains(c) by {
            if i < now.len() - 1 {
                assert(now[i] == before[i]);
            }
        }
    } else {
        assert(joined(pieces(s, c), seq![c]) =~= s);
    }
}

/// Of ASCII letters in lower case nothing is left in upper case, and every other character stays.
pub proof fn lemma_lowered(s: Seq<char>)
    ensures
        lowered(s).len() == s.len(),
        forall|i: int|
            0 <= i < s.len() ==> {
                &&& !('A' <= (#[trigger] lowered(s)[i]) <= 'Z')
                &&& !('A' <= s[i] <= 'Z') ==> lowered(s)[i] == s[i]
                &&& ('A' <= s[i] <= 'Z') ==> lowered(s)[i] as int == s[i] as int + 32
            },
{
}

/// What stands before the first occurrence of a text is the start of the whole, and reaches past
/// every character that the text cannot begin with; where the text stands, it ends there.
pub proof fn lemma_before(s: Seq<char>, p: Seq<char>, n: int)
    requires
        p.len() > 0,
        0 <= n <= s.len(),
        forall|i: int| 0 <= i < n ==> #[trigger] s[i] != p[0],
    ensures
        n <= before(s, p).len() <= s.len(),
        before(s, p) == s.take(before(s, p).len() as int),
        before(s, p).take(n) == s.take(n),
        occurs_at(s, p, n) ==> before(s, p) == s.take(n),
        !mentions(s, p) ==> before(s, p) == s,
{
    lemma_first_at(s, p);
    match first_at(s, p) {
        Some(i) => {
            assert(s.subrange(i, i + p.len())[0] == s[i]);
            assert(i >= n);
            assert(s.take(i).take(n) =~= s.take(n));
        },
        None => {
            assert(s.take(s.len() as int) =~= s);
        },
    }
}

/// A number with a sign shows the sign of its value, and then how large it is.
pub proof fn lemma_plus_signed(n: int)
    ensures
        plus_signed(n).len() > 0,
        plus_signed(n)[0] == '-' <==> n < 0,
        plus_signed(n)[0] == '+' <==> n >= 0,
        is_number(plus_signed(n).skip(1)),
        value(plus_signed(n).skip(1)) == if n < 0 {
            -n
        } else {
            n
        },
{
    let size = if n < 0 {
        (-n) as nat
    } else {
        n as nat
    };
    lemma_decimal_reads_back(size);
    assert(plus_signed(n).skip(1) =~= decimal(size));
}

/// The lines of a text without carriage returns make it up again, but for the end of the last one.
pub proof fn lemma_lines_make_up(s: Seq<char>)
    requires
        !s.contains('\r'),
    ensures
        joined(line_list(s), seq!['\n']) == s || (joined(line_list(s), seq!['\n']) + seq!['\n'] == s),
        forall|i: int| 0 <= i < line_list(s).len() ==> !(#[trigger] line_list(s)[i]).contains('\n'),
{
    let ps = pieces(s, '\n');
    lemma_pieces_nonempty(s, '\n');
    lemma_pieces_make_up(s, '\n');
    lemma_pieces_hold(s, '\n', '\r');
    let head = ps.drop_last();
    let ended = head.map_values(|p: Seq<char>| without_return(p));
    assert forall|i: int| 0 <= i < head.len() implies ended[i] == head[i] by {
        assert(!ps[i].contains('\r'));
        if ps[i].len() > 0 {
            assert(ps[i][ps[i].len() - 1] != '\r');
        }
    }
    assert(ended =~= head);
    if ps.last().len() == 0 {
        if ps.len() == 1 {
            assert(s =~= Seq::empty());
        } else {
            assert(joined(ps, seq!['\n']) =~= joined(head, seq!['\n']) + seq!['\n']);
        }
    } else {
        assert(head.push(ps.last()) =~= ps);
    }
}

proof fn lemma_pieces_hold(s: Seq<char>, c: char, d: char)
    requires
        !s.contains(d),
    ensures
        forall|i: int| 0 <= i < pieces(s, c).len() ==> !(#[trigger] pieces(s, c)[i]).contains(d),
    decreases s.len(),
{
    if s.len() > 0 {
        let t = s.drop_last();
        assert(!t.contains(d)) by {
            if t.contains(d) {
                let i = t.index_of(d);
                assert(s[i] == d);
            }
        }
        lemma_pieces_hold(t, c, d);
        lemma_pieces_nonempty(t, c);
        let before = pieces(t, c);
        let now = pieces(s, c);
        assert(s[s.len() - 1] != d);
        if s.last() != c {
            let longer = before.last().push(s.last());
            assert(!before[before.len() - 1].contains(d));
            if longer.contains(d) {
                let i = longer.index_of(d);
                if i < before.last().len() {
                    assert(before.last()[i] == d);
                }
            }
        }
        assert forall|i: int| 0 <= i < now.len() implies !(#[trigger] now[i]).contains(d) by {
            if i < now.len() - 1 {
                assert(now[i] == before[i]);
            }
        }
    }
}

/// Of a character that leads nothing is left, and nothing else goes.
pub proof fn lemma_without_leading(s: Seq<char>, c: char) -> (a: int)
    ensures
        0 <= a <= s.len(),
        without_leading(s, c) == s.skip(a),
        forall|i: int| 0 <= i < a ==> #[trigger] s[i] == c,
        a < s.len() ==> s[a] != c,
    decreases s.len(),
{
    if s.len() > 0 && s[0] == c {
        let b = lemma_without_leading(s.skip(1), c);
        assert(s.skip(1).skip(b) =~= s.skip(b + 1));
        assert forall|i: int| 0 <= i < b + 1 implies #[trigger] s[i] == c by {
            if i > 0 {
                assert(s.skip(1)[i - 1] == s[i]);
            }
        }
        if b + 1 < s.len() {
            assert(s.skip(1)[b] == s[b + 1]);
        }
        b + 1
    } else {
        assert(s.skip(0) =~= s);
        0
    }
}

/// Of a character that trails nothing is left, and nothing else goes.
pub proof fn lemma_without_trailing(s: Seq<char>, c: char) -> (n: int)
    ensures
        0 <= n <= s.len(),
        without_trailing(s, c) == s.take(n),
        forall|i: int| n <= i < s.len() ==> #[trigger] s[i] == c,
        n > 0 ==> s[n - 1] != c,
    decreases s.len(),
{
    if s.len() > 0 && s.last() == c {
        let n = lemma_without_trailing(s.drop_last(), c);
        assert(s.drop_last().take(n) =~= s.take(n));
        assert forall|i: int| n <= i < s.len() implies #[trigger] s[i] == c by {
            if i < s.len() - 1 {
                assert(s.drop_last()[i] == s[i]);
            }
        }
        if n > 0 {
            assert(s.drop_last()[n - 1] == s[n - 1]);
        }
        n
    } else {
        assert(s.take(s.len() as int) =~= s);
        s.len() as int
    }
}

/// A text without a separator is one piece, and behind the last separator stands the last piece.
pub proof fn lemma_last_piece(a: Seq<char>, c: char, b: Seq<char>)
    requires
        !b.contains(c),
    ensures
        pieces(b, c) == seq![b],
        last_piece(b, c) == b,
        last_piece(a.push(c) + b, c) == b,
        pieces(a.push(c) + b, c) == pieces(a, c).push(b),
    decreases b.len(),
{
    let whole = a.push(c) + b;
    if b.len() == 0 {
        assert(whole =~= a.push(c));
        assert(a.push(c).drop_last() =~= a);
        assert(b =~= Seq::empty());
    } else {
        let d = b.drop_last();
        assert(!d.contains(c)) by {
            if d.contains(c) {
                let i = d.index_of(c);
                assert(b[i] == c);
            }
        }
        assert(b[b.len() - 1] != c);
        lemma_last_piece(a, c, d);
        assert(d.push(b.last()) =~= b);
        assert(pieces(b, c) =~= seq![b]);
        assert(whole.drop_last() =~= a.push(c) + d);
        assert(whole.last() == b.last());
        assert(pieces(a, c).push(d).drop_last() =~= pieces(a, c));
        assert(pieces(whole, c) =~= pieces(a, c).push(b));
    }
}

/// Text in lower case stays as it is.
pub proof fn lemma_lowered_twice(s: Seq<char>)
    ensures
        lowered(lowered(s)) == lowered(s),
{
    assert(lowered(lowered(s)) =~= lowered(s));
}

/// Text that is trimmed stays as it is.
pub proof fn lemma_trimmed_twice(s: Seq<char>)
    ensures
        trimmed(trimmed(s)) == trimmed(s),
{
    let ends = lemma_trimmed(s);
    let t = trimmed(s);
    if t.len() > 0 {
        assert(without_leading_space(t) == t);
        assert(without_trailing_space(t) == t);
    }
}

}

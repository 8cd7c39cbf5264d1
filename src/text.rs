use vstd::prelude::*;

verus! {

/// `s` cut at every `sep`; there is always at least one piece, and empty
/// pieces are kept.
pub open spec fn split(s: Seq<char>, sep: char) -> Seq<Seq<char>>
    decreases s.len(),
{
    if s.len() == 0 {
        seq![Seq::<char>::empty()]
    } else {
        let p = split(s.drop_last(), sep);
        if s.last() == sep {
            p.push(Seq::<char>::empty())
        } else {
            p.update(p.len() - 1, p.last().push(s.last()))
        }
    }
}

/// The non-empty pieces, in order.
pub open spec fn nonempty(ps: Seq<Seq<char>>) -> Seq<Seq<char>>
    decreases ps.len(),
{
    if ps.len() == 0 {
        seq![]
    } else {
        let p = nonempty(ps.drop_last());
        if ps.last().len() == 0 {
            p
        } else {
            p.push(ps.last())
        }
    }
}

/// The characters of the Unicode White_Space property, which Rust's
/// `char::is_whitespace` tests.
pub open spec fn is_space(c: char) -> bool {
    ||| c == '\t' || c == '\n' || c == '\u{0B}' || c == '\u{0C}' || c == '\r' || c == ' '
    ||| c == '\u{85}' || c == '\u{A0}' || c == '\u{1680}'
    ||| 0x2000 <= (c as u32) <= 0x200A
    ||| c == '\u{2028}' || c == '\u{2029}' || c == '\u{202F}' || c == '\u{205F}' || c == '\u{3000}'
}

/// `s` cut at every whitespace character; empty pieces are kept.
pub open spec fn split_ws(s: Seq<char>) -> Seq<Seq<char>>
    decreases s.len(),
{
    if s.len() == 0 {
        seq![Seq::<char>::empty()]
    } else {
        let p = split_ws(s.drop_last());
        if is_space(s.last()) {
            p.push(Seq::<char>::empty())
        } else {
            p.update(p.len() - 1, p.last().push(s.last()))
        }
    }
}

/// The whitespace-separated words of a line.
pub open spec fn words(s: Seq<char>) -> Seq<Seq<char>> {
    nonempty(split_ws(s))
}

pub open spec fn views(v: Seq<String>) -> Seq<Seq<char>> {
    v.map_values(|s: String| s@)
}

pub proof fn lemma_split_nonempty(s: Seq<char>, sep: char)
    ensures
        split(s, sep).len() >= 1,
    decreases s.len(),
{
    if s.len() > 0 {
        lemma_split_nonempty(s.drop_last(), sep);
    }
}

pub proof fn lemma_split_ws_nonempty(s: Seq<char>)
    ensures
        split_ws(s).len() >= 1,
    decreases s.len(),
{
    if s.len() > 0 {
        lemma_split_ws_nonempty(s.drop_last());
    }
}

/// Whether `c` is whitespace.
pub fn is_space_char(c: char) -> (r: bool)
    ensures
        r == is_space(c),
{
    let u = c as u32;
    c == '\t' || c == '\n' || c == '\u{0B}' || c == '\u{0C}' || c == '\r' || c == ' '
        || c == '\u{85}' || c == '\u{A0}' || c == '\u{1680}'
        || (0x2000 <= u && u <= 0x200A)
        || c == '\u{2028}' || c == '\u{2029}' || c == '\u{202F}' || c == '\u{205F}' || c == '\u{3000}'
}

/// Cuts `s` at every whitespace character.
pub fn split_ws_str(s: &str) -> (r: Vec<String>)
    ensures
        views(r@) == split_ws(s@),
{
    let mut parts: Vec<String> = Vec::new();
    let mut cur = String::new();
    let ghost mut seen: Seq<char> = Seq::empty();
    for c in it: s.chars()
        invariant
            seen == it.seq().take(it.index() as int),
            views(parts@).push(cur@) == split_ws(seen),
    {
        proof {
            lemma_split_ws_nonempty(seen);
            let next = seen.push(c);
            assert(next.drop_last() =~= seen);
        }
        let ghost prev = seen;
        proof {
            seen = seen.push(c);
        }
        if is_space_char(c) {
            parts.push(cur);
            cur = String::new();
            assert(views(parts@).push(cur@) =~= split_ws(prev).push(Seq::<char>::empty()));
        } else {
            push_char(&mut cur, c);
            assert(views(parts@).push(cur@) =~= split_ws(prev).update(
                split_ws(prev).len() - 1,
                split_ws(prev).last().push(c),
            ));
        }
    }
    proof {
        assert(seen =~= s@);
    }
    parts.push(cur);
    assert(views(parts@) =~= split_ws(s@));
    parts
}

/// Relies on String::push: the character is appended at the end.
#[verifier::external_body]
pub(crate) fn push_char(s: &mut String, c: char)
    ensures
        final(s)@ == old(s)@.push(c),
{
    s.push(c)
}

/// Cuts `s` at every `sep`.
pub fn split_str(s: &str, sep: char) -> (r: Vec<String>)
    ensures
        views(r@) == split(s@, sep),
{
    let mut parts: Vec<String> = Vec::new();
    let mut cur = String::new();
    let ghost mut seen: Seq<char> = Seq::empty();
    for c in it: s.chars()
        invariant
            seen == it.seq().take(it.index() as int),
            views(parts@).push(cur@) == split(seen, sep),
    {
        proof {
            lemma_split_nonempty(seen, sep);
            let next = seen.push(c);
            assert(next.drop_last() =~= seen);
        }
        let ghost prev = seen;
        proof {
            seen = seen.push(c);
        }
        if c == sep {
            parts.push(cur);
            cur = String::new();
            assert(views(parts@).push(cur@) =~= split(prev, sep).push(Seq::<char>::empty()));
        } else {
            push_char(&mut cur, c);
            assert(views(parts@).push(cur@) =~= split(prev, sep).update(
                split(prev, sep).len() - 1,
                split(prev, sep).last().push(c),
            ));
        }
    }
    proof {
        assert(seen =~= s@);
    }
    parts.push(cur);
    assert(views(parts@) =~= split(s@, sep));
    parts
}

/// The non-empty strings of `v`, in order.
pub fn keep_nonempty(v: Vec<String>) -> (r: Vec<String>)
    ensures
        views(r@) == nonempty(views(v@)),
{
    let mut r: Vec<String> = Vec::new();
    let mut i: usize = 0;
    while i < v.len()
        invariant
            i <= v@.len(),
            views(r@) == nonempty(views(v@.take(i as int))),
        decreases v@.len() - i,
    {
        proof {
            assert(views(v@.take(i as int + 1)).drop_last() =~= views(v@.take(i as int)));
        }
        if v[i].as_str().unicode_len() > 0 {
            r.push(v[i].clone());
            assert(views(r@) =~= nonempty(views(v@.take(i as int))).push(v@[i as int]@));
        }
        i += 1;
    }
    assert(v@.take(v@.len() as int) =~= v@);
    r
}

/// The whitespace-separated words of `s`, as `str::split_whitespace` gives
/// them.
pub fn words_of(s: &str) -> (r: Vec<String>)
    ensures
        views(r@) == words(s@),
{
    keep_nonempty(split_ws_str(s))
}

} // verus!

use vstd::prelude::*;
use vstd::std_specs::iter::IteratorSpec;

verus! {

/// The characters of the string, in order.
pub(crate) fn chars_of(s: &str) -> (r: Vec<char>)
    ensures
        r@ == s@,
{
    broadcast use vstd::string::axiom_spec_iter, vstd::string::next_postcondition;

    let mut it = s.chars();
    let mut r: Vec<char> = Vec::new();
    loop
        invariant
            r@ + it.remaining() == s@,
            it.obeys_prophetic_iter_laws(),
            it.decrease() is Some,
        ensures
            r@ == s@,
        decreases it.decrease()->0,
    {
        match it.next() {
            Some(c) => {
                let ghost before = r@;
                r.push(c);
                assert(r@ + it.remaining() =~= before + (seq![c] + it.remaining()));
            },
            None => {
                assert(r@ =~= s@);
                break ;
            },
        }
    }
    r
}

/// Relies on `String: FromIterator<&char>`: the string made of these characters, in order.
#[verifier::external_body]
pub(crate) fn string_of(cs: &Vec<char>) -> (r: String)
    ensures
        r@ == cs@,
{
    cs.iter().collect()
}

/// The characters with the Unicode property White_Space, which is what
/// `char::is_whitespace` tests.
pub open spec fn is_white(c: char) -> bool {
    ('\u{9}' <= c && c <= '\u{d}') || c == ' ' || c == '\u{85}' || c == '\u{a0}' || c
        == '\u{1680}' || ('\u{2000}' <= c && c <= '\u{200a}') || c == '\u{2028}' || c
        == '\u{2029}' || c == '\u{202f}' || c == '\u{205f}' || c == '\u{3000}'
}

pub fn white(c: char) -> (r: bool)
    ensures
        r == is_white(c),
{
    ('\u{9}' <= c && c <= '\u{d}') || c == ' ' || c == '\u{85}' || c == '\u{a0}' || c
        == '\u{1680}' || ('\u{2000}' <= c && c <= '\u{200a}') || c == '\u{2028}' || c
        == '\u{2029}' || c == '\u{202f}' || c == '\u{205f}' || c == '\u{3000}'
}

pub open spec fn flush_word(cur: Seq<char>) -> Seq<Seq<char>> {
    if cur.len() == 0 {
        Seq::empty()
    } else {
        seq![cur]
    }
}

/// The words of `s` that follow the partial word `cur`: maximal runs of
/// characters that are not white space.
pub open spec fn words_after(s: Seq<char>, cur: Seq<char>) -> Seq<Seq<char>>
    decreases s.len(),
{
    if s.len() == 0 {
        flush_word(cur)
    } else if is_white(s[0]) {
        flush_word(cur) + words_after(s.drop_first(), Seq::empty())
    } else {
        words_after(s.drop_first(), cur.push(s[0]))
    }
}

/// The words of `s`, as `str::split_whitespace` yields them.
pub open spec fn words(s: Seq<char>) -> Seq<Seq<char>> {
    words_after(s, Seq::empty())
}

/// `s` without its leading white space.
pub open spec fn trim_start(s: Seq<char>) -> Seq<char>
    decreases s.len(),
{
    if s.len() > 0 && is_white(s[0]) {
        trim_start(s.drop_first())
    } else {
        s
    }
}

/// `s` without its trailing white space.
pub open spec fn trim_end(s: Seq<char>) -> Seq<char>
    decreases s.len(),
{
    if s.len() > 0 && is_white(s.last()) {
        trim_end(s.drop_last())
    } else {
        s
    }
}

/// `s` without leading and trailing white space, as `str::trim` gives it.
pub open spec fn trim(s: Seq<char>) -> Seq<char> {
    trim_end(trim_start(s))
}

/// The strings joined with one space between neighbours.
pub open spec fn join_spaced(parts: Seq<Seq<char>>) -> Seq<char>
    decreases parts.len(),
{
    if parts.len() == 0 {
        Seq::empty()
    } else if parts.len() == 1 {
        parts[0]
    } else {
        join_spaced(parts.drop_last()) + seq![' '] + parts.last()
    }
}

pub open spec fn string_views(v: Seq<String>) -> Seq<Seq<char>> {
    v.map_values(|s: String| s@)
}

/// Splits `s` into its words, separated by any amount of white space.
pub fn split_words(s: &str) -> (r: Vec<Vec<char>>)
    ensures
        r@.map_values(|w: Vec<char>| w@) == words(s@),
{
    let cs = chars_of(s);
    let mut out: Vec<Vec<char>> = Vec::new();
    let mut cur: Vec<char> = Vec::new();
    let mut i: usize = 0;
    assert(cs@.subrange(0, cs@.len() as int) =~= cs@);
    assert(out@.map_values(|w: Vec<char>| w@) + words_after(cs@, cur@) =~= words_after(cs@, cur@));
    assert(cur@ =~= Seq::<char>::empty());
    while i < cs.len()
        invariant
            cs@ == s@,
            i <= cs@.len(),
            out@.map_values(|w: Vec<char>| w@) + words_after(cs@.subrange(i as int, cs@.len() as int), cur@)
                == words(s@),
        decreases cs@.len() - i,
    {
        let ghost rest = cs@.subrange(i as int, cs@.len() as int);
        assert(rest.drop_first() =~= cs@.subrange(i + 1, cs@.len() as int));
        let ghost old_out = out@.map_values(|w: Vec<char>| w@);
        let c = cs[i];
        if white(c) {
            if cur.len() > 0 {
                let ghost w = cur@;
                out.push(cur);
                assert(out@.map_values(|w: Vec<char>| w@) =~= old_out.push(w));
                assert(old_out.push(w) + words_after(rest.drop_first(), Seq::empty()) =~= old_out
                    + (seq![w] + words_after(rest.drop_first(), Seq::empty())));
                cur = Vec::new();
            } else {
                assert(flush_word(cur@) =~= Seq::<Seq<char>>::empty());
                assert(Seq::<Seq<char>>::empty() + words_after(rest.drop_first(), Seq::empty())
                    =~= words_after(rest.drop_first(), Seq::empty()));
                cur = Vec::new();
            }
        } else {
            cur.push(c);
        }
        i += 1;
    }
    let ghost old_out = out@.map_values(|w: Vec<char>| w@);
    assert(cs@.subrange(i as int, cs@.len() as int) =~= Seq::<char>::empty());
    if cur.len() > 0 {
        let ghost w = cur@;
        out.push(cur);
        assert(out@.map_values(|w: Vec<char>| w@) =~= old_out.push(w));
        assert(old_out + seq![w] =~= old_out.push(w));
    } else {
        assert(old_out + Seq::<Seq<char>>::empty() =~= old_out);
    }
    out
}

/// Removes leading and trailing white space.
pub fn trim_chars(cs: &Vec<char>) -> (r: Vec<char>)
    ensures
        r@ == trim(cs@),
{
    let mut start: usize = 0;
    assert(cs@.subrange(0, cs@.len() as int) =~= cs@);
    while start < cs.len() && white(cs[start])
        invariant
            start <= cs@.len(),
            trim_start(cs@) == trim_start(cs@.subrange(start as int, cs@.len() as int)),
        decreases cs@.len() - start,
    {
        assert(cs@.subrange(start as int, cs@.len() as int).drop_first() =~= cs@.subrange(
            start + 1,
            cs@.len() as int,
        ));
        start += 1;
    }
    let ghost mid = cs@.subrange(start as int, cs@.len() as int);
    assert(trim_start(cs@) == mid);
    let mut end: usize = cs.len();
    while end > start && white(cs[end - 1])
        invariant
            start <= end <= cs@.len(),
            mid == cs@.subrange(start as int, cs@.len() as int),
            trim_end(mid) == trim_end(cs@.subrange(start as int, end as int)),
        decreases end,
    {
        assert(cs@.subrange(start as int, end as int).drop_last() =~= cs@.subrange(
            start as int,
            end - 1,
        ));
        end -= 1;
    }
    let mut r: Vec<char> = Vec::new();
    let mut k: usize = start;
    while k < end
        invariant
            start <= k <= end <= cs@.len(),
            r@ == cs@.subrange(start as int, k as int),
        decreases end - k,
    {
        r.push(cs[k]);
        k += 1;
        assert(r@ =~= cs@.subrange(start as int, k as int));
    }
    r
}

/// The string without leading and trailing white space.
pub fn trimmed(s: &str) -> (r: String)
    ensures
        r@ == trim(s@),
{
    let cs = chars_of(s);
    let t = trim_chars(&cs);
    string_of(&t)
}

/// Joins the strings with one space between neighbours.
pub fn join_with_spaces(parts: &Vec<String>) -> (r: Vec<char>)
    ensures
        r@ == join_spaced(string_views(parts@)),
{
    let mut r: Vec<char> = Vec::new();
    let mut i: usize = 0;
    while i < parts.len()
        invariant
            i <= parts@.len(),
            r@ == join_spaced(string_views(parts@.subrange(0, i as int))),
        decreases parts@.len() - i,
    {
        let ghost before = r@;
        let cs = chars_of(parts[i].as_str());
        if i > 0 {
            r.push(' ');
        }
        let mut k: usize = 0;
        while k < cs.len()
            invariant
                k <= cs@.len(),
                r@ == (if i > 0 { before + seq![' '] } else { before }) + cs@.subrange(0, k as int),
            decreases cs@.len() - k,
        {
            r.push(cs[k]);
            k += 1;
            assert(r@ =~= (if i > 0 { before + seq![' '] } else { before }) + cs@.subrange(0, k as int));
        }
        proof {
            let p = string_views(parts@.subrange(0, i + 1));
            assert(p.drop_last() =~= string_views(parts@.subrange(0, i as int)));
            assert(cs@.subrange(0, k as int) =~= cs@);
            if i == 0 {
                assert(before =~= Seq::<char>::empty());
                assert(r@ =~= p[0]);
            }
        }
        i += 1;
    }
    assert(parts@.subrange(0, i as int) =~= parts@);
    r
}

/// Whether the characters spell the given literal.
pub fn spells(w: &Vec<char>, lit: &str) -> (r: bool)
    ensures
        r == (w@ == lit@),
{
    let l = chars_of(lit);
    if w.len() != l.len() {
        return false;
    }
    let mut i: usize = 0;
    while i < w.len()
        invariant
            l@ == lit@,
            w@.len() == l@.len(),
            i <= w@.len(),
            forall|k: int| 0 <= k < i ==> w@[k] == l@[k],
        decreases w@.len() - i,
    {
        if w[i] != l[i] {
            return false;
        }
        i += 1;
    }
    assert(w@ =~= l@);
    true
}

} // verus!

verus! {

/// The bytes of an ASCII text.
pub open spec fn ascii(s: Seq<char>) -> Seq<u8> {
    s.map_values(|c: char| c as u8)
}

/// The bytes of an ASCII string.
pub fn ascii_bytes(s: &str) -> (r: Vec<u8>)
    requires
        vstd::string::is_ascii(s),
    ensures
        r@ == ascii(s@),
{
    proof {
        broadcast use vstd::string::is_ascii_spec_bytes;
    }
    let b = s.as_bytes();
    assert(b@ =~= ascii(s@));
    let mut r: Vec<u8> = Vec::new();
    let mut i: usize = 0;
    while i < b.len()
        invariant
            b@ == ascii(s@),
            i <= b@.len(),
            r@ == ascii(s@).subrange(0, i as int),
        decreases b@.len() - i,
    {
        r.push(b[i]);
        i += 1;
        assert(r@ =~= ascii(s@).subrange(0, i as int));
    }
    assert(r@ =~= ascii(s@));
    r
}

/// Whether the string is exactly the given literal.
pub fn is_text(s: &String, lit: &str) -> (r: bool)
    ensures
        r == (s@ == lit@),
{
    let cs = chars_of(s.as_str());
    spells(&cs, lit)
}

} // verus!

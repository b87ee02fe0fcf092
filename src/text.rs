//! Character-level helpers shared by the SQL analyzer and the lexer.

use vstd::prelude::*;

verus! {

/// Whitespace as Unicode's White_Space property defines it, which is what
/// `char::is_whitespace` tests.
pub open spec fn is_space(c: char) -> bool {
    ('\u{9}' <= c && c <= '\u{d}') || c == ' ' || c == '\u{85}' || c == '\u{a0}'
        || c == '\u{1680}' || ('\u{2000}' <= c && c <= '\u{200a}') || c == '\u{2028}'
        || c == '\u{2029}' || c == '\u{202f}' || c == '\u{205f}' || c == '\u{3000}'
}

/// The ASCII lower-case form of a character; every other character is kept.
pub open spec fn lower_char(c: char) -> char {
    if 'A' <= c && c <= 'Z' {
        ((c as u32) + 32) as char
    } else {
        c
    }
}

/// Lower-cases the ASCII letters of a text.
pub open spec fn lower(s: Seq<char>) -> Seq<char> {
    s.map_values(|c: char| lower_char(c))
}

/// The text without its trailing whitespace.
pub open spec fn trim_end(s: Seq<char>) -> Seq<char>
    decreases s.len(),
{
    if s.len() > 0 && is_space(s.last()) {
        trim_end(s.drop_last())
    } else {
        s
    }
}

/// The maximal runs of non-whitespace characters of a text, in order, as
/// `str::split_whitespace` yields them. Each character is added to the words
/// of the text before it: whitespace adds nothing, a character after a
/// non-whitespace character extends the last word, any other one starts a word.
pub open spec fn split_words(s: Seq<char>) -> Seq<Seq<char>>
    decreases s.len(),
{
    if s.len() == 0 {
        Seq::empty()
    } else {
        let before = split_words(s.drop_last());
        let c = s.last();
        if is_space(c) {
            before
        } else if s.len() >= 2 && !is_space(s[s.len() - 2]) {
            before.drop_last().push(before.last().push(c))
        } else {
            before.push(seq![c])
        }
    }
}

/// A character that cleaning removes from a token.
pub open spec fn is_noise_char(c: char) -> bool {
    c == ' ' || c == ',' || c == ';'
}

/// A token without its spaces, commas and semicolons.
pub open spec fn clean(w: Seq<char>) -> Seq<char> {
    w.filter(|c: char| !is_noise_char(c))
}

/// A non-empty run of non-whitespace characters.
pub open spec fn is_word(w: Seq<char>) -> bool {
    w.len() > 0 && forall|i: int| 0 <= i < w.len() ==> !is_space(#[trigger] w[i])
}

/// Words written one after the other, a single space between two of them.
pub open spec fn join_words(ws: Seq<Seq<char>>) -> Seq<char>
    decreases ws.len(),
{
    if ws.len() == 0 {
        Seq::empty()
    } else if ws.len() == 1 {
        ws[0]
    } else {
        join_words(ws.drop_last()) + seq![' '] + ws.last()
    }
}

pub proof fn lemma_lower_concat(a: Seq<char>, b: Seq<char>)
    ensures
        lower(a + b) == lower(a) + lower(b),
{
    assert(lower(a + b) =~= lower(a) + lower(b));
}

pub proof fn lemma_lower_keeps_words(w: Seq<char>)
    requires
        is_word(w),
    ensures
        is_word(lower(w)),
{
    assert forall|i: int| 0 <= i < lower(w).len() implies !is_space(#[trigger] lower(w)[i]) by {
        assert(lower(w)[i] == lower_char(w[i]));
    }
}

/// Lower-casing a text of joined words lower-cases each word.
pub proof fn lemma_lower_join(ws: Seq<Seq<char>>)
    ensures
        lower(join_words(ws)) == join_words(ws.map_values(|w: Seq<char>| lower(w))),
    decreases ws.len(),
{
    let lw = ws.map_values(|w: Seq<char>| lower(w));
    if ws.len() == 0 {
        assert(lower(join_words(ws)) =~= join_words(lw));
    } else if ws.len() == 1 {
    } else {
        lemma_lower_join(ws.drop_last());
        assert(ws.drop_last().map_values(|w: Seq<char>| lower(w)) =~= lw.drop_last());
        lemma_lower_concat(join_words(ws.drop_last()) + seq![' '], ws.last());
        lemma_lower_concat(join_words(ws.drop_last()), seq![' ']);
        assert(lower(seq![' ']) =~= seq![' ']);
    }
}

/// A text that ends in a non-whitespace character has at least one word.
pub proof fn lemma_split_nonempty(s: Seq<char>)
    requires
        s.len() > 0,
        !is_space(s.last()),
    ensures
        split_words(s).len() > 0,
{
}

/// A word splits into itself.
pub proof fn lemma_split_word(w: Seq<char>)
    requires
        is_word(w),
    ensures
        split_words(w) == seq![w],
    decreases w.len(),
{
    if w.len() == 1 {
        assert(w.drop_last() =~= Seq::<char>::empty());
        assert(split_words(w.drop_last()) == Seq::<Seq<char>>::empty());
        assert(seq![w.last()] =~= w);
        assert(Seq::<Seq<char>>::empty().push(seq![w.last()]) =~= seq![w]);
    } else {
        let p = w.drop_last();
        assert(is_word(p)) by {
            assert forall|i: int| 0 <= i < p.len() implies !is_space(#[trigger] p[i]) by {
                assert(p[i] == w[i]);
            }
        }
        lemma_split_word(p);
        assert(!is_space(w[w.len() - 2]));
        assert(p.push(w.last()) =~= w);
        assert(seq![p].drop_last().push(p.push(w.last())) =~= seq![w]);
    }
}

/// Where the first text is empty or ends in whitespace, the words of the two
/// texts together are the words of each, in order.
pub proof fn lemma_split_append(a: Seq<char>, b: Seq<char>)
    requires
        a.len() == 0 || is_space(a.last()),
    ensures
        split_words(a + b) == split_words(a) + split_words(b),
    decreases b.len(),
{
    let s = a + b;
    if b.len() == 0 {
        assert(s =~= a);
        assert(split_words(a) + split_words(b) =~= split_words(a));
    } else {
        let bp = b.drop_last();
        assert(s.drop_last() =~= a + bp);
        lemma_split_append(a, bp);
        let x = split_words(a);
        let y = split_words(bp);
        let c = b.last();
        assert(s.last() == c);
        if is_space(c) {
        } else if s.len() >= 2 && !is_space(s[s.len() - 2]) {
            if b.len() == 1 {
                assert(s[s.len() - 2] == a.last());
            }
            assert(s[s.len() - 2] == b[b.len() - 2]);
            assert(bp.last() == b[b.len() - 2]);
            lemma_split_nonempty(bp);
            assert((x + y).drop_last() =~= x + y.drop_last());
            assert((x + y).last() == y.last());
            assert((x + y.drop_last()).push(y.last().push(c)) =~= x + y.drop_last().push(
                y.last().push(c),
            ));
        } else {
            if b.len() >= 2 {
                assert(s[s.len() - 2] == b[b.len() - 2]);
            }
            assert((x + y).push(seq![c]) =~= x + y.push(seq![c]));
        }
    }
}

/// Joined words split back into the same words.
pub proof fn lemma_split_join(ws: Seq<Seq<char>>)
    requires
        forall|i: int| 0 <= i < ws.len() ==> is_word(#[trigger] ws[i]),
    ensures
        split_words(join_words(ws)) == ws,
    decreases ws.len(),
{
    if ws.len() == 0 {
    } else if ws.len() == 1 {
        lemma_split_word(ws[0]);
        assert(seq![ws[0]] =~= ws);
    } else {
        let front = ws.drop_last();
        assert forall|i: int| 0 <= i < front.len() implies is_word(#[trigger] front[i]) by {
            assert(front[i] == ws[i]);
        }
        lemma_split_join(front);
        let a = join_words(front) + seq![' '];
        assert(a.drop_last() =~= join_words(front));
        assert(split_words(a) == split_words(join_words(front)));
        assert(is_word(ws[ws.len() - 1]));
        lemma_split_word(ws.last());
        lemma_split_append(a, ws.last());
        assert(front + seq![ws.last()] =~= ws);
    }
}

pub fn is_space_char(c: char) -> (r: bool)
    ensures
        r == is_space(c),
{
    ('\u{9}' <= c && c <= '\u{d}') || c == ' ' || c == '\u{85}' || c == '\u{a0}'
        || c == '\u{1680}' || ('\u{2000}' <= c && c <= '\u{200a}') || c == '\u{2028}'
        || c == '\u{2029}' || c == '\u{202f}' || c == '\u{205f}' || c == '\u{3000}'
}

pub fn lower_char_exec(c: char) -> (r: char)
    ensures
        r == lower_char(c),
{
    if 'A' <= c && c <= 'Z' {
        (((c as u32) + 32) as u8) as char
    } else {
        c
    }
}

/// The ASCII lower-case form of a sequence of characters.
pub fn lower_chars(s: &Vec<char>) -> (r: Vec<char>)
    ensures
        r@ == lower(s@),
{
    let mut out: Vec<char> = Vec::new();
    let mut i: usize = 0;
    while i < s.len()
        invariant
            i <= s.len(),
            out@ == lower(s@.take(i as int)),
        decreases s.len() - i,
    {
        let c = lower_char_exec(s[i]);
        out.push(c);
        i = i + 1;
        assert(lower(s@.take(i as int)) =~= lower(s@.take(i - 1)).push(lower_char(s@[i - 1])));
    }
    assert(s@.take(i as int) =~= s@);
    out
}

/// Drops the trailing whitespace of a sequence of characters.
pub fn trim_end_chars(s: &mut Vec<char>)
    ensures
        final(s)@ == trim_end(old(s)@),
{
    while s.len() > 0 && is_space_char(s[s.len() - 1])
        invariant
            trim_end(s@) == trim_end(old(s)@),
        decreases s.len(),
    {
        s.pop();
    }
}

/// Splits a sequence of characters into its whitespace-separated words.
pub fn split_words_exec(s: &Vec<char>) -> (r: Vec<Vec<char>>)
    ensures
        r.deep_view() == split_words(s@),
{
    let mut done: Vec<Vec<char>> = Vec::new();
    let mut cur: Vec<char> = Vec::new();
    let mut i: usize = 0;
    while i < s.len()
        invariant
            i <= s.len(),
            split_words(s@.take(i as int)) == if cur@.len() == 0 {
                done.deep_view()
            } else {
                done.deep_view().push(cur@)
            },
            cur@.len() > 0 <==> (i > 0 && !is_space(s@[i - 1])),
        decreases s.len() - i,
    {
        let c = s[i];
        let ghost before = s@.take(i as int);
        assert(s@.take(i + 1).drop_last() =~= before);
        if is_space_char(c) {
            if cur.len() > 0 {
                let ghost prev = done.deep_view();
                let w = cur;
                cur = Vec::new();
                assert(w.deep_view() =~= w@);
                done.push(w);
                assert(done.deep_view() =~= prev.push(w@));
            }
        } else {
            let ghost old_cur = cur@;
            let ghost words = done.deep_view();
            cur.push(c);
            if cur.len() > 1 {
                assert(words.push(old_cur).drop_last() =~= words);
                assert(split_words(s@.take(i + 1)) == words.push(old_cur.push(c)));
            } else {
                assert(split_words(s@.take(i + 1)) == words.push(seq![c]));
                assert(cur@ =~= seq![c]);
            }
        }
        i = i + 1;
    }
    if cur.len() > 0 {
        let ghost prev = done.deep_view();
        assert(cur.deep_view() =~= cur@);
        done.push(cur);
        assert(done.deep_view() =~= prev.push(cur@));
    }
    assert(s@.take(i as int) =~= s@);
    done
}

/// The token without its spaces, commas and semicolons.
pub fn clean_chars(w: &Vec<char>) -> (r: Vec<char>)
    ensures
        r@ == clean(w@),
{
    let mut out: Vec<char> = Vec::new();
    let mut i: usize = 0;
    while i < w.len()
        invariant
            i <= w.len(),
            out@ == clean(w@.take(i as int)),
        decreases w.len() - i,
    {
        let c = w[i];
        proof {
            reveal(Seq::filter);
            assert(w@.take(i + 1).drop_last() =~= w@.take(i as int));
        }
        if !(c == ' ' || c == ',' || c == ';') {
            out.push(c);
        }
        i = i + 1;
    }
    assert(w@.take(i as int) =~= w@);
    out
}

/// Whether two sequences of characters are equal.
pub fn same_chars(a: &Vec<char>, b: &Vec<char>) -> (r: bool)
    ensures
        r == (a@ == b@),
{
    if a.len() != b.len() {
        return false;
    }
    let mut i: usize = 0;
    while i < a.len()
        invariant
            a.len() == b.len(),
            i <= a.len(),
            forall|j: int| 0 <= j < i ==> a@[j] == b@[j],
        decreases a.len() - i,
    {
        if a[i] != b[i] {
            return false;
        }
        i = i + 1;
    }
    assert(a@ =~= b@);
    true
}

/// The characters of a text, in order.
pub fn chars_of(s: &str) -> (r: Vec<char>)
    ensures
        r@ == s@,
{
    let mut out: Vec<char> = Vec::new();
    for c in it: s.chars()
        invariant
            out@ == it.seq().take(it.index() as int),
    {
        out.push(c);
    }
    out
}

/// Relies on `String`'s `FromIterator<char>`: the string holds the
/// characters in the order given.
#[verifier::external_body]
pub(crate) fn string_from_chars(v: &Vec<char>) -> (r: String)
    ensures
        r@ == v@,
{
    v.iter().collect()
}

} // verus!

//! A single-pass token scanner that recovers the projection list and the
//! table list of a SQL statement. It is not a SQL grammar: joins beyond a
//! plain table list, subqueries and computed expressions may be misread, and
//! an alias is collected as if it were a table name.

use vstd::prelude::*;
use crate::error::QueryError;
use crate::text::{
    chars_of, clean, is_word, join_words, lemma_lower_concat, lemma_lower_join,
    lemma_lower_keeps_words, lemma_split_join, clean_chars, is_space, is_space_char, lower, lower_chars, same_chars,
    split_words, split_words_exec, string_from_chars, trim_end, trim_end_chars,
};

verus! {

/// The statement as the analyzer holds it: ASCII letters lower-cased and
/// trailing whitespace dropped.
pub open spec fn normalize(sql: Seq<char>) -> Seq<char> {
    trim_end(lower(sql))
}

/// The text without its leading whitespace.
pub open spec fn trim_start(s: Seq<char>) -> Seq<char>
    decreases s.len(),
{
    if s.len() > 0 && is_space(s[0]) {
        trim_start(s.drop_first())
    } else {
        s
    }
}

pub open spec fn kw_select() -> Seq<char> {
    seq!['s', 'e', 'l', 'e', 'c', 't']
}

pub open spec fn kw_from() -> Seq<char> {
    seq!['f', 'r', 'o', 'm']
}

pub open spec fn kw_join() -> Seq<char> {
    seq!['j', 'o', 'i', 'n']
}

/// A word that ends the table list.
pub open spec fn is_terminal(w: Seq<char>) -> bool {
    w == seq!['w', 'h', 'e', 'r', 'e'] || w == seq!['g', 'r', 'o', 'u', 'p'] || w == seq![
        'h',
        'a',
        'v',
        'i',
        'n',
        'g',
    ] || w == seq!['o', 'r', 'd', 'e', 'r'] || w == seq!['o', 'n']
}

/// The index of the first `from` at or after `i`; the number of words if none.
pub open spec fn first_from(ws: Seq<Seq<char>>, i: int) -> int
    decreases ws.len() - i,
{
    if i >= ws.len() {
        ws.len() as int
    } else if ws[i] == kw_from() {
        i
    } else {
        first_from(ws, i + 1)
    }
}

/// The index of the first terminal word at or after `i`; the number of words
/// if none.
pub open spec fn first_terminal(ws: Seq<Seq<char>>, i: int) -> int
    decreases ws.len() - i,
{
    if i >= ws.len() {
        ws.len() as int
    } else if is_terminal(ws[i]) {
        i
    } else {
        first_terminal(ws, i + 1)
    }
}

/// Whether a statement is a read: it begins with `select`.
pub open spec fn is_read_sql(sql: Seq<char>) -> bool {
    let t = trim_start(sql);
    t.len() >= 6 && t.take(6) == kw_select()
}

/// The cleaned words between the first word and the first `from`.
pub open spec fn column_tokens(sql: Seq<char>) -> Seq<Seq<char>> {
    let ws = split_words(sql);
    if ws.len() <= 1 {
        Seq::empty()
    } else {
        ws.subrange(1, first_from(ws, 1)).map_values(|w: Seq<char>| clean(w))
    }
}

/// The cleaned words after the first `from`, up to the first terminal word,
/// without `join`; none where the statement has no `from`.
pub open spec fn table_tokens(sql: Seq<char>) -> Option<Seq<Seq<char>>> {
    let ws = split_words(sql);
    let p = first_from(ws, 0);
    if p >= ws.len() {
        None
    } else {
        Some(
            ws.subrange(p + 1, first_terminal(ws, p + 1)).filter(|w: Seq<char>| w != kw_join()).map_values(
                |w: Seq<char>| clean(w),
            ),
        )
    }
}

proof fn lemma_first_from_bounds(ws: Seq<Seq<char>>, i: int)
    requires
        0 <= i <= ws.len(),
    ensures
        i <= first_from(ws, i) <= ws.len(),
        first_from(ws, i) < ws.len() ==> ws[first_from(ws, i)] == kw_from(),
    decreases ws.len() - i,
{
    if i < ws.len() && ws[i] != kw_from() {
        lemma_first_from_bounds(ws, i + 1);
    }
}

proof fn lemma_first_from_at(ws: Seq<Seq<char>>, i: int, p: int)
    requires
        0 <= i <= p < ws.len(),
        ws[p] == kw_from(),
        forall|k: int| i <= k < p ==> ws[k] != kw_from(),
    ensures
        first_from(ws, i) == p,
    decreases p - i,
{
    if i < p {
        lemma_first_from_at(ws, i + 1, p);
    }
}

/// The text of `select <cols> from <tables>;`: the words one space apart and
/// a semicolon right after the last table.
pub open spec fn select_statement(cols: Seq<Seq<char>>, tables: Seq<Seq<char>>) -> Seq<char> {
    join_words(seq![kw_select()] + cols + seq![kw_from()] + tables) + seq![';']
}

/// For a statement `select <cols> from <tables>;` in which no column word is
/// `from` in any letter case, the analyzer's column list is exactly the
/// column words, lower-cased and cleaned of spaces, commas and semicolons, in
/// their original order.
pub proof fn law_columns_of_select(cols: Seq<Seq<char>>, tables: Seq<Seq<char>>)
    requires
        tables.len() > 0,
        forall|i: int| 0 <= i < cols.len() ==> is_word(#[trigger] cols[i]) && lower(cols[i]) != kw_from(),
        forall|i: int| 0 <= i < tables.len() ==> is_word(#[trigger] tables[i]),
    ensures
        column_tokens(normalize(select_statement(cols, tables))) == cols.map_values(
            |w: Seq<char>| clean(lower(w)),
        ),
{
    let n = cols.len() as int;
    let all = seq![kw_select()] + cols + seq![kw_from()] + tables;
    let lw = all.map_values(|w: Seq<char>| lower(w));
    assert(lower(kw_select()) =~= kw_select());
    assert(lower(kw_from()) =~= kw_from());
    assert forall|i: int| 0 <= i < all.len() implies is_word(#[trigger] all[i]) by {
        if 1 <= i < n + 1 {
            assert(all[i] == cols[i - 1]);
        } else if n + 2 <= i {
            assert(all[i] == tables[i - n - 2]);
        }
    }
    assert forall|i: int| 0 <= i < lw.len() implies is_word(#[trigger] lw[i]) by {
        lemma_lower_keeps_words(all[i]);
    }
    lemma_lower_join(all);
    lemma_lower_concat(join_words(all), seq![';']);
    assert(lower(seq![';']) =~= seq![';']);
    let j = join_words(lw);
    let text = j + seq![';'];
    assert(lower(select_statement(cols, tables)) == text);
    assert(trim_end(text) == text);
    lemma_split_join(lw);
    let last = lw.last();
    assert(is_word(lw[lw.len() - 1]));
    assert(j == join_words(lw.drop_last()) + seq![' '] + last);
    assert(j.last() == last.last());
    assert(text.drop_last() =~= j);
    assert(text[text.len() - 2] == j.last());
    let ws = split_words(text);
    assert(ws == lw.drop_last().push(last.push(';')));
    assert forall|k: int| 0 <= k < lw.len() - 1 implies ws[k] == lw[k] by {}
    assert(ws[n + 1] == kw_from());
    assert forall|k: int| 1 <= k < n + 1 implies ws[k] != kw_from() by {
        assert(ws[k] == lower(cols[k - 1]));
    }
    lemma_first_from_at(ws, 1, n + 1);
    assert(ws.subrange(1, n + 1).map_values(|w: Seq<char>| clean(w)) =~= cols.map_values(
        |w: Seq<char>| clean(lower(w)),
    ));
}

proof fn lemma_first_terminal_bounds(ws: Seq<Seq<char>>, i: int)
    requires
        0 <= i <= ws.len(),
    ensures
        i <= first_terminal(ws, i) <= ws.len(),
    decreases ws.len() - i,
{
    if i < ws.len() && !is_terminal(ws[i]) {
        lemma_first_terminal_bounds(ws, i + 1);
    }
}

proof fn lemma_char_vec_deep_view(v: &Vec<char>)
    ensures
        v.deep_view() == v@,
{
    assert(v.deep_view() =~= v@);
}

fn is_terminal_word(w: &Vec<char>) -> (r: bool)
    ensures
        r == is_terminal(w@),
{
    same_chars(w, &vec!['w', 'h', 'e', 'r', 'e']) || same_chars(w, &vec!['g', 'r', 'o', 'u', 'p'])
        || same_chars(w, &vec!['h', 'a', 'v', 'i', 'n', 'g']) || same_chars(
        w,
        &vec!['o', 'r', 'd', 'e', 'r'],
    ) || same_chars(w, &vec!['o', 'n'])
}

/// Typographic double quotes, as some editors type them, read as `"`.
pub open spec fn straight_quote(c: char) -> char {
    if c == '\u{201c}' || c == '\u{201d}' {
        '"'
    } else {
        c
    }
}

pub open spec fn sanitized(s: Seq<char>) -> Seq<char> {
    s.map_values(|c: char| straight_quote(c))
}

/// The statement with its typographic double quotes made straight.
pub fn sanitize_input(input: &str) -> (r: String)
    ensures
        r@ == sanitized(input@),
{
    let chars = chars_of(input);
    let mut out: Vec<char> = Vec::new();
    let mut i: usize = 0;
    while i < chars.len()
        invariant
            i <= chars.len(),
            out@ =~= sanitized(chars@.take(i as int)),
        decreases chars.len() - i,
    {
        let c = chars[i];
        let d = if c == '\u{201c}' || c == '\u{201d}' {
            '"'
        } else {
            c
        };
        out.push(d);
        i = i + 1;
    }
    assert(chars@.take(i as int) =~= chars@);
    string_from_chars(&out)
}

/// A token without its spaces, commas and semicolons.
pub fn clean_results(res: &str) -> (r: String)
    ensures
        r@ == clean(res@),
{
    let cleaned = clean_chars(&chars_of(res));
    string_from_chars(&cleaned)
}

/// One SQL statement, held in the form that the scanner reads.
pub struct SqlAnalyzer {
    pub sql: String,
}

impl SqlAnalyzer {
    pub fn new(sql: &str) -> (r: Self)
        ensures
            r.sql@ == normalize(sql@),
    {
        let mut chars = lower_chars(&chars_of(sql));
        trim_end_chars(&mut chars);
        SqlAnalyzer { sql: string_from_chars(&chars) }
    }

    /// Each token cleaned of spaces, commas and semicolons.
    pub fn clean_results(&self, results: &Vec<String>) -> (r: Vec<String>)
        ensures
            r.deep_view() == results.deep_view().map_values(|w: Seq<char>| clean(w)),
    {
        let mut out: Vec<String> = Vec::new();
        let mut i: usize = 0;
        while i < results.len()
            invariant
                i <= results.len(),
                out.deep_view() =~= results.deep_view().take(i as int).map_values(
                    |w: Seq<char>| clean(w),
                ),
            decreases results.len() - i,
        {
            let cleaned = clean_results(results[i].as_str());
            let ghost before = out.deep_view();
            out.push(cleaned);
            assert(out.deep_view() =~= before.push(cleaned@));
            assert(results.deep_view().take(i + 1) =~= results.deep_view().take(i as int).push(
                results@[i as int]@,
            ));
            i = i + 1;
        }
        assert(results.deep_view().take(i as int) =~= results.deep_view());
        out
    }

    /// Whether the statement begins with `select`, leading whitespace aside.
    pub fn is_read(&self) -> (r: bool)
        ensures
            r == is_read_sql(self.sql@),
    {
        let chars = chars_of(self.sql.as_str());
        let mut i: usize = 0;
        assert(chars@.skip(0) =~= chars@);
        while i < chars.len() && is_space_char(chars[i])
            invariant
                i <= chars.len(),
                trim_start(chars@.skip(i as int)) == trim_start(chars@),
            decreases chars.len() - i,
        {
            assert(chars@.skip(i as int).drop_first() =~= chars@.skip(i + 1));
            i = i + 1;
        }
        let ghost rest = chars@.skip(i as int);
        assert(trim_start(rest) == rest);
        if chars.len() - i < 6 {
            return false;
        }
        let kw = vec!['s', 'e', 'l', 'e', 'c', 't'];
        let mut k: usize = 0;
        while k < 6
            invariant
                k <= 6,
                i + 6 <= chars.len(),
                rest == chars@.skip(i as int),
                trim_start(self.sql@) == rest,
                kw@ == kw_select(),
                forall|j: int| 0 <= j < k ==> chars@[i + j] == kw@[j],
            decreases 6 - k,
        {
            if chars[i + k] != kw[k] {
                assert(rest.take(6)[k as int] != kw_select()[k as int]);
                return false;
            }
            k = k + 1;
        }
        assert(rest.take(6) =~= kw_select());
        true
    }

    /// The tables named after `from`, up to the first of `where`, `group`,
    /// `having`, `order` and `on`, with `join` left out and aliases kept.
    pub fn tables_from_sql(&self) -> (r: Result<Vec<String>, QueryError>)
        ensures
            match table_tokens(self.sql@) {
                Some(t) => r matches Ok(v) && v.deep_view() == t,
                None => r == Err::<Vec<String>, QueryError>(QueryError::ParseFailure),
            },
    {
        let chars = chars_of(self.sql.as_str());
        let ws = split_words_exec(&chars);
        let ghost w = ws.deep_view();
        let from = vec!['f', 'r', 'o', 'm'];
        let join = vec!['j', 'o', 'i', 'n'];
        assert(from@ == kw_from());
        assert(join@ == kw_join());
        let mut p: usize = 0;
        while p < ws.len() && !same_chars(&ws[p], &from)
            invariant
                p <= ws.len(),
                w == ws.deep_view(),
                from@ == kw_from(),
                first_from(w, 0) == first_from(w, p as int),
            decreases ws.len() - p,
        {
            proof {
                lemma_char_vec_deep_view(&ws@[p as int]);
            }
            p = p + 1;
        }
        if p < ws.len() {
            proof {
                lemma_char_vec_deep_view(&ws@[p as int]);
            }
        }
        if p == ws.len() {
            return Err(QueryError::ParseFailure);
        }
        let mut tables: Vec<String> = Vec::new();
        let mut i: usize = p + 1;
        while i < ws.len()
            invariant
                p < i <= ws.len(),
                ws@[p as int]@ == kw_from(),
                w == ws.deep_view(),
                join@ == kw_join(),
                first_terminal(w, p + 1) == first_terminal(w, i as int),
                tables.deep_view() == w.subrange(p + 1, i as int).filter(
                    |x: Seq<char>| x != kw_join(),
                ),
            ensures
                i == first_terminal(w, p + 1),
                tables.deep_view() == w.subrange(p + 1, i as int).filter(
                    |x: Seq<char>| x != kw_join(),
                ),
            decreases ws.len() - i,
        {
            proof {
                lemma_char_vec_deep_view(&ws@[i as int]);
            }
            if is_terminal_word(&ws[i]) {
                break;
            }
            let ghost before = tables.deep_view();
            proof {
                reveal(Seq::filter);
                assert(w.subrange(p + 1, i + 1).drop_last() =~= w.subrange(p + 1, i as int));
            }
            if !same_chars(&ws[i], &join) {
                let t = string_from_chars(&ws[i]);
                tables.push(t);
                assert(tables.deep_view() =~= before.push(w[i as int]));
            }
            i = i + 1;
        }
        proof {
            lemma_first_from_bounds(w, 0);
        }
        Ok(self.clean_results(&tables))
    }

    /// The tokens between the first word and `from`, cleaned, in order and
    /// with duplicates; `*` stays a token of its own.
    pub fn columns_from_sql(&self) -> (r: Vec<String>)
        ensures
            r.deep_view() == column_tokens(self.sql@),
    {
        let chars = chars_of(self.sql.as_str());
        let ws = split_words_exec(&chars);
        let ghost w = ws.deep_view();
        let from = vec!['f', 'r', 'o', 'm'];
        assert(from@ == kw_from());
        let mut columns: Vec<String> = Vec::new();
        if ws.len() <= 1 {
            return columns;
        }
        let mut i: usize = 1;
        while i < ws.len()
            invariant
                1 <= i <= ws.len(),
                w == ws.deep_view(),
                from@ == kw_from(),
                first_from(w, 1) == first_from(w, i as int),
                columns.deep_view() == w.subrange(1, i as int),
            ensures
                i == first_from(w, 1),
                columns.deep_view() == w.subrange(1, i as int),
            decreases ws.len() - i,
        {
            proof {
                lemma_char_vec_deep_view(&ws@[i as int]);
            }
            if same_chars(&ws[i], &from) {
                break;
            }
            let ghost before = columns.deep_view();
            let c = string_from_chars(&ws[i]);
            columns.push(c);
            assert(columns.deep_view() =~= before.push(c@));
            assert(w.subrange(1, i + 1) =~= w.subrange(1, i as int).push(w[i as int]));
            i = i + 1;
        }
        self.clean_results(&columns)
    }
}

} // verus!

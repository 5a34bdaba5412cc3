//! Splitting policy text into lines and whitespace-separated tokens, and
//! joining token sequences back together.

use vstd::prelude::*;

verus! {

/// The characters that separate tokens on a policy line.
pub open spec fn is_space_char(c: char) -> bool {
    c == ' ' || c == '\t' || c == '\n' || c == '\r' || c == '\u{b}' || c == '\u{c}'
}

/// Runtime test for [`is_space_char`].
pub fn char_is_space(c: char) -> (r: bool)
    ensures
        r == is_space_char(c),
{
    c == ' ' || c == '\t' || c == '\n' || c == '\r' || c == '\u{b}' || c == '\u{c}'
}

/// Folds the characters of `s` from position `i` on into whitespace-separated
/// words: `cur` is the word under construction, `acc` the words already cut.
pub open spec fn split_ws_from(s: Seq<char>, i: int, cur: Seq<char>, acc: Seq<Seq<char>>) -> Seq<
    Seq<char>,
>
    decreases s.len() - i,
{
    if i < 0 || i >= s.len() {
        if cur.len() == 0 {
            acc
        } else {
            acc.push(cur)
        }
    } else if is_space_char(s[i]) {
        if cur.len() == 0 {
            split_ws_from(s, i + 1, cur, acc)
        } else {
            split_ws_from(s, i + 1, Seq::empty(), acc.push(cur))
        }
    } else {
        split_ws_from(s, i + 1, cur.push(s[i]), acc)
    }
}

/// The whitespace-separated tokens of a line, in order.
pub open spec fn tokens_of(s: Seq<char>) -> Seq<Seq<char>> {
    split_ws_from(s, 0, Seq::empty(), Seq::empty())
}

/// Every word that the splitter cuts holds at least one character.
proof fn lemma_split_ws_from_nonempty(s: Seq<char>, i: int, cur: Seq<char>, acc: Seq<Seq<char>>)
    requires
        forall|j: int| 0 <= j < acc.len() ==> #[trigger] acc[j].len() > 0,
    ensures
        forall|j: int|
            0 <= j < split_ws_from(s, i, cur, acc).len() ==> #[trigger] split_ws_from(
                s,
                i,
                cur,
                acc,
            )[j].len() > 0,
    decreases s.len() - i,
{
    if i < 0 || i >= s.len() {
        if cur.len() > 0 {
            assert(split_ws_from(s, i, cur, acc) == acc.push(cur));
            assert(forall|j: int|
                0 <= j < acc.push(cur).len() ==> #[trigger] acc.push(cur)[j].len() > 0);
        } else {
            assert(split_ws_from(s, i, cur, acc) == acc);
        }
    } else if is_space_char(s[i]) {
        if cur.len() == 0 {
            lemma_split_ws_from_nonempty(s, i + 1, cur, acc);
            assert(split_ws_from(s, i, cur, acc) == split_ws_from(s, i + 1, cur, acc));
        } else {
            assert(forall|j: int|
                0 <= j < acc.push(cur).len() ==> #[trigger] acc.push(cur)[j].len() > 0);
            lemma_split_ws_from_nonempty(s, i + 1, Seq::empty(), acc.push(cur));
            assert(split_ws_from(s, i, cur, acc) == split_ws_from(
                s,
                i + 1,
                Seq::empty(),
                acc.push(cur),
            ));
        }
    } else {
        lemma_split_ws_from_nonempty(s, i + 1, cur.push(s[i]), acc);
        assert(split_ws_from(s, i, cur, acc) == split_ws_from(s, i + 1, cur.push(s[i]), acc));
    }
}

/// Every token of a line is nonempty.
pub proof fn lemma_tokens_nonempty(s: Seq<char>)
    ensures
        forall|j: int| 0 <= j < tokens_of(s).len() ==> #[trigger] tokens_of(s)[j].len() > 0,
{
    lemma_split_ws_from_nonempty(s, 0, Seq::empty(), Seq::empty());
}

/// Cuts a line into its whitespace-separated tokens.
pub fn tokenize(s: &str) -> (tokens: Vec<String>)
    ensures
        tokens.deep_view() == tokens_of(s@),
{
    let len: usize = s.unicode_len();
    let mut tokens: Vec<String> = Vec::new();
    proof {
        assert(tokens.deep_view() =~= Seq::<Seq<char>>::empty());
    }
    let mut start: Option<usize> = None;
    let mut i: usize = 0;
    while i < len
        invariant
            len == s@.len(),
            i <= len,
            match start {
                Some(st) => {
                    &&& st < i
                    &&& split_ws_from(
                        s@,
                        i as int,
                        s@.subrange(st as int, i as int),
                        tokens.deep_view(),
                    ) == tokens_of(s@)
                },
                None => split_ws_from(s@, i as int, Seq::empty(), tokens.deep_view()) == tokens_of(
                    s@,
                ),
            },
        decreases len - i,
    {
        let c = s.get_char(i);
        if char_is_space(c) {
            if let Some(st) = start {
                let word = s.substring_char(st, i).to_owned();
                let ghost prev = tokens.deep_view();
                tokens.push(word);
                proof {
                    assert(tokens.deep_view() =~= prev.push(word@));
                }
                start = None;
            }
        } else {
            match start {
                Some(st) => {
                    proof {
                        assert(s@.subrange(st as int, i + 1) =~= s@.subrange(
                            st as int,
                            i as int,
                        ).push(s@[i as int]));
                    }
                },
                None => {
                    start = Some(i);
                    proof {
                        assert(s@.subrange(i as int, i + 1) =~= Seq::<char>::empty().push(
                            s@[i as int],
                        ));
                    }
                },
            }
        }
        i = i + 1;
    }
    if let Some(st) = start {
        let word = s.substring_char(st, len).to_owned();
        let ghost prev = tokens.deep_view();
        tokens.push(word);
        proof {
            assert(tokens.deep_view() =~= prev.push(word@));
        }
    }
    tokens
}

/// Compares two strings character by character.
pub fn str_eq(a: &str, b: &str) -> (r: bool)
    ensures
        r == (a@ == b@),
{
    let a_len: usize = a.unicode_len();
    let b_len: usize = b.unicode_len();
    if a_len != b_len {
        return false;
    }
    let mut i: usize = 0;
    while i < a_len
        invariant
            a_len == a@.len(),
            b_len == b@.len(),
            a_len == b_len,
            i <= a_len,
            forall|j: int| 0 <= j < i ==> a@[j] == b@[j],
        decreases a_len - i,
    {
        if a.get_char(i) != b.get_char(i) {
            return false;
        }
        i = i + 1;
    }
    proof {
        assert(a@ =~= b@);
    }
    true
}

/// The tokens joined with one space between neighbours.
pub open spec fn join_spaces(parts: Seq<Seq<char>>) -> Seq<char>
    decreases parts.len(),
{
    if parts.len() == 0 {
        Seq::empty()
    } else if parts.len() == 1 {
        parts[0]
    } else {
        parts[0] + seq![' '] + join_spaces(parts.drop_first())
    }
}

/// Appending one more part extends the joined text by a space and that part.
proof fn lemma_join_spaces_push(parts: Seq<Seq<char>>, part: Seq<char>)
    requires
        parts.len() >= 1,
    ensures
        join_spaces(parts.push(part)) == join_spaces(parts) + seq![' '] + part,
    decreases parts.len(),
{
    if parts.len() == 1 {
        assert(parts.push(part).drop_first() =~= seq![part]);
        assert(join_spaces(seq![part]) == part);
        assert(join_spaces(parts.push(part)) == parts[0] + seq![' '] + part);
    } else {
        lemma_join_spaces_push(parts.drop_first(), part);
        assert(parts.push(part).drop_first() =~= parts.drop_first().push(part));
        assert(join_spaces(parts) + seq![' '] + part =~= parts[0] + seq![' '] + (join_spaces(
            parts.drop_first(),
        ) + seq![' '] + part));
    }
}

/// The one-space literal's view is the one-space sequence.
proof fn proof_strlit_space()
    ensures
        " "@ == seq![' '],
{
    reveal_strlit(" ");
    assert(" "@ =~= seq![' ']);
}

/// Joins the parts with one space between neighbours.
pub fn join_with_spaces(parts: &Vec<String>) -> (r: String)
    ensures
        r@ == join_spaces(parts.deep_view()),
{
    let mut r = String::new();
    let mut i: usize = 0;
    while i < parts.len()
        invariant
            i <= parts.len(),
            r@ == join_spaces(parts.deep_view().take(i as int)),
        decreases parts.len() - i,
    {
        if i > 0 {
            r.append(" ");
        }
        r.append(parts[i].as_str());
        proof {
            let dv = parts.deep_view();
            proof_strlit_space();
            assert(dv.take(i + 1) =~= dv.take(i as int).push(dv[i as int]));
            if i == 0 {
                assert(dv.take(1) =~= seq![dv[0]]);
                assert(r@ =~= join_spaces(dv.take(1)));
            } else {
                lemma_join_spaces_push(dv.take(i as int), dv[i as int]);
                assert(r@ =~= join_spaces(dv.take(i + 1)));
            }
        }
        i = i + 1;
    }
    proof {
        assert(parts.deep_view().take(parts.len() as int) =~= parts.deep_view());
    }
    r
}

/// Folds the characters of `s` from position `i` on into lines cut at each
/// newline; a final empty segment is not a line.
pub open spec fn split_lines_from(s: Seq<char>, i: int, cur: Seq<char>, acc: Seq<Seq<char>>) -> Seq<
    Seq<char>,
>
    decreases s.len() - i,
{
    if i < 0 || i >= s.len() {
        if cur.len() == 0 {
            acc
        } else {
            acc.push(cur)
        }
    } else if s[i] == '\n' {
        split_lines_from(s, i + 1, Seq::empty(), acc.push(cur))
    } else {
        split_lines_from(s, i + 1, cur.push(s[i]), acc)
    }
}

/// The lines of a text, cut at each newline; a trailing newline opens no
/// further line.
pub open spec fn lines_of(s: Seq<char>) -> Seq<Seq<char>> {
    split_lines_from(s, 0, Seq::empty(), Seq::empty())
}

/// A text of `n` characters has at most `n` lines.
pub proof fn lemma_split_lines_len(s: Seq<char>, i: int, cur: Seq<char>, acc: Seq<Seq<char>>)
    requires
        0 <= i <= s.len(),
    ensures
        split_lines_from(s, i, cur, acc).len() <= acc.len() + (s.len() - i) + (if cur.len() > 0 {
            1int
        } else {
            0int
        }),
    decreases s.len() - i,
{
    if i >= s.len() {
    } else if s[i] == '\n' {
        lemma_split_lines_len(s, i + 1, Seq::empty(), acc.push(cur));
    } else {
        lemma_split_lines_len(s, i + 1, cur.push(s[i]), acc);
    }
}

/// Cuts a text into its lines.
pub fn split_into_lines(s: &str) -> (lines: Vec<String>)
    ensures
        lines.deep_view() == lines_of(s@),
{
    let len: usize = s.unicode_len();
    let mut lines: Vec<String> = Vec::new();
    proof {
        assert(lines.deep_view() =~= Seq::<Seq<char>>::empty());
        assert(s@.subrange(0, 0) =~= Seq::<char>::empty());
    }
    let mut start: usize = 0;
    let mut i: usize = 0;
    while i < len
        invariant
            len == s@.len(),
            start <= i <= len,
            split_lines_from(s@, i as int, s@.subrange(start as int, i as int), lines.deep_view())
                == lines_of(s@),
        decreases len - i,
    {
        let c = s.get_char(i);
        if c == '\n' {
            let line = s.substring_char(start, i).to_owned();
            let ghost prev = lines.deep_view();
            lines.push(line);
            proof {
                assert(lines.deep_view() =~= prev.push(line@));
            }
            start = i + 1;
            proof {
                assert(s@.subrange(i + 1, i + 1) =~= Seq::<char>::empty());
            }
        } else {
            proof {
                assert(s@.subrange(start as int, i + 1) =~= s@.subrange(start as int, i as int).push(
                    s@[i as int],
                ));
            }
        }
        i = i + 1;
    }
    if start < len {
        let line = s.substring_char(start, len).to_owned();
        let ghost prev = lines.deep_view();
        lines.push(line);
        proof {
            assert(lines.deep_view() =~= prev.push(line@));
        }
    } else {
        proof {
            assert(s@.subrange(start as int, len as int) =~= Seq::<char>::empty());
        }
    }
    lines
}

} // verus!

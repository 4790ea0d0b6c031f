//! From a line of input to the arguments of a command: the words of the line,
//! with the free text at its end joined into one argument.

use vstd::prelude::*;
use crate::text::chars_of;
use crate::text::same_text;
use crate::text::texts;

verus! {

/// Whether `c` separates words: whether it has the Unicode property
/// `White_Space`.
pub open spec fn is_whitespace(c: char) -> bool {
    ||| '\u{0009}' <= c <= '\u{000D}'
    ||| c == '\u{0020}'
    ||| c == '\u{0085}'
    ||| c == '\u{00A0}'
    ||| c == '\u{1680}'
    ||| '\u{2000}' <= c <= '\u{200A}'
    ||| c == '\u{2028}'
    ||| c == '\u{2029}'
    ||| c == '\u{202F}'
    ||| c == '\u{205F}'
    ||| c == '\u{3000}'
}

/// The length of the word that `s` starts with: the number of characters
/// before the first whitespace, or all of them where there is none.
pub open spec fn word_len(s: Seq<char>) -> nat
    decreases s.len(),
{
    if s.len() == 0 || is_whitespace(s[0]) {
        0
    } else {
        1 + word_len(s.drop_first())
    }
}

/// The words of `s`: its longest runs of characters that are not whitespace,
/// from left to right.
pub open spec fn words(s: Seq<char>) -> Seq<Seq<char>>
    decreases s.len(),
    via words_decreases
{
    if s.len() == 0 {
        Seq::empty()
    } else if is_whitespace(s[0]) {
        words(s.drop_first())
    } else {
        let n = word_len(s) as int;
        seq![s.take(n)] + words(s.skip(n))
    }
}

#[via_fn]
proof fn words_decreases(s: Seq<char>) {
    if s.len() > 0 && !is_whitespace(s[0]) {
        lemma_word_len_bounds(s);
    }
}

/// The words joined into one text, with a single space between neighbours.
pub open spec fn join(words: Seq<Seq<char>>) -> Seq<char>
    decreases words.len(),
{
    if words.len() == 0 {
        Seq::empty()
    } else if words.len() == 1 {
        words[0]
    } else {
        join(words.drop_last()) + seq![' '] + words.last()
    }
}

/// How many single words follow the command word before the free text
/// starts: one for `update`, whose identifier precedes the new description,
/// and none for any other command.
pub open spec fn leading_words(command: Seq<char>) -> nat {
    if command == "update"@ {
        1
    } else {
        0
    }
}

/// The arguments that the words of a line make: the command word, the
/// single words that the command takes, and then all further words joined
/// into one argument. A line without words makes no arguments.
pub open spec fn arguments(words: Seq<Seq<char>>) -> Seq<Seq<char>> {
    if words.len() == 0 {
        words
    } else {
        let fixed = 1 + leading_words(words[0]) as int;
        if words.len() <= fixed {
            words
        } else {
            words.take(fixed).push(join(words.skip(fixed)))
        }
    }
}

/// The word that a text starts with is no longer than the text, and not
/// empty where the text starts with something other than whitespace.
pub proof fn lemma_word_len_bounds(s: Seq<char>)
    ensures
        word_len(s) <= s.len(),
        s.len() > 0 && !is_whitespace(s[0]) ==> word_len(s) >= 1,
    decreases s.len(),
{
    if s.len() > 0 && !is_whitespace(s[0]) {
        lemma_word_len_bounds(s.drop_first());
    }
}

/// A run of `n` characters without whitespace that ends the text, or that
/// whitespace follows, is the word that the text starts with.
pub proof fn lemma_word_len_is(s: Seq<char>, n: int)
    requires
        0 <= n <= s.len(),
        forall|k: int| 0 <= k < n ==> !is_whitespace(#[trigger] s[k]),
        n == s.len() || is_whitespace(s[n]),
    ensures
        word_len(s) == n,
    decreases n,
{
    if n > 0 {
        let rest = s.drop_first();
        assert forall|k: int| 0 <= k < n - 1 implies !is_whitespace(#[trigger] rest[k]) by {
            assert(rest[k] == s[k + 1]);
        }
        lemma_word_len_is(rest, n - 1);
    }
}

/// Whether `w` can be a word: whether it is not empty and holds no
/// whitespace.
pub open spec fn is_word(w: Seq<char>) -> bool {
    &&& w.len() > 0
    &&& forall|k: int| 0 <= k < w.len() ==> !is_whitespace(#[trigger] w[k])
}

/// No word of a text is empty, and none holds whitespace.
pub proof fn lemma_words_are_words(s: Seq<char>)
    ensures
        forall|i: int| 0 <= i < words(s).len() ==> is_word(#[trigger] words(s)[i]),
    decreases s.len(),
{
    if s.len() == 0 {
        assert(words(s).len() == 0);
    } else if is_whitespace(s[0]) {
        lemma_words_are_words(s.drop_first());
        assert(words(s) == words(s.drop_first()));
    } else {
        let n = word_len(s) as int;
        lemma_word_len_bounds(s);
        lemma_word_len_free(s);
        lemma_words_are_words(s.skip(n));
        let first = s.take(n);
        let rest = words(s.skip(n));
        assert(words(s) == seq![first] + rest);
        assert(is_word(first)) by {
            assert forall|k: int| 0 <= k < first.len() implies !is_whitespace(
                #[trigger] first[k],
            ) by {
                assert(first[k] == s[k]);
            }
        }
        assert forall|i: int| 0 <= i < words(s).len() implies is_word(#[trigger] words(s)[i]) by {
            if i > 0 {
                assert(words(s)[i] == rest[i - 1]);
            } else {
                assert(words(s)[0] == first);
            }
        }
    }
}

/// The word that a text starts with holds no whitespace.
pub proof fn lemma_word_len_free(s: Seq<char>)
    ensures
        forall|k: int| 0 <= k < word_len(s) ==> !is_whitespace(#[trigger] s[k]),
    decreases s.len(),
{
    if s.len() > 0 && !is_whitespace(s[0]) {
        let rest = s.drop_first();
        lemma_word_len_free(rest);
        lemma_word_len_bounds(rest);
        assert forall|k: int| 0 <= k < word_len(s) implies !is_whitespace(#[trigger] s[k]) by {
            if k > 0 {
                assert(s[k] == rest[k - 1]);
            }
        }
    }
}

/// Whether `c` separates words.
pub fn is_separator(c: char) -> (r: bool)
    ensures
        r == is_whitespace(c),
{
    ('\u{0009}' <= c && c <= '\u{000D}') || c == '\u{0020}' || c == '\u{0085}' || c == '\u{00A0}'
        || c == '\u{1680}' || ('\u{2000}' <= c && c <= '\u{200A}') || c == '\u{2028}' || c
        == '\u{2029}' || c == '\u{202F}' || c == '\u{205F}' || c == '\u{3000}'
}

/// The words of `line`.
pub fn split_words(line: &str) -> (out: Vec<String>)
    ensures
        texts(out@) == words(line@),
{
    let chars = chars_of(line);
    let n: usize = chars.len();
    let mut out: Vec<String> = Vec::new();
    let mut i: usize = 0;
    assert(line@.skip(0) =~= line@);
    assert(texts(out@) + words(line@) =~= words(line@));
    while i < n
        invariant
            i <= n,
            n == line@.len(),
            chars@ == line@,
            texts(out@) + words(line@.skip(i as int)) == words(line@),
        decreases n - i,
    {
        let ghost rest = line@.skip(i as int);
        if is_separator(chars[i]) {
            assert(rest.drop_first() =~= line@.skip(i + 1));
            i += 1;
        } else {
            let start: usize = i;
            let mut end: usize = i + 1;
            while end < n && !is_separator(chars[end])
                invariant
                    start < end <= n,
                    n == chars@.len(),
                    forall|k: int| start <= k < end ==> !is_whitespace(#[trigger] chars@[k]),
                decreases n - end,
            {
                end += 1;
            }
            let word = line.substring_char(start, end).to_owned();
            proof {
                assert forall|k: int| 0 <= k < end - start implies !is_whitespace(
                    #[trigger] rest[k],
                ) by {
                    assert(rest[k] == chars@[start + k]);
                }
                lemma_word_len_is(rest, end - start);
                assert(rest.take(end - start) =~= line@.subrange(start as int, end as int));
                assert(rest.skip(end - start) =~= line@.skip(end as int));
                assert(texts(out@.push(word)) =~= texts(out@) + seq![word@]);
                assert(texts(out@) + (seq![word@] + words(line@.skip(end as int))) =~= texts(
                    out@,
                ) + seq![word@] + words(line@.skip(end as int)));
            }
            out.push(word);
            i = end;
        }
    }
    assert(line@.skip(n as int) =~= Seq::<char>::empty());
    assert(texts(out@) + Seq::<Seq<char>>::empty() =~= texts(out@));
    out
}

/// The words of `words` from position `from` on, joined with single spaces.
pub fn join_from(words: &Vec<String>, from: usize) -> (text: String)
    requires
        from <= words.len(),
    ensures
        text@ == join(texts(words@).skip(from as int)),
{
    let ghost all = texts(words@);
    let mut text = String::new();
    let mut i: usize = from;
    assert(all.subrange(from as int, from as int) =~= Seq::<Seq<char>>::empty());
    while i < words.len()
        invariant
            from <= i <= words.len(),
            all == texts(words@),
            text@ == join(all.subrange(from as int, i as int)),
        decreases words.len() - i,
    {
        let ghost done = all.subrange(from as int, i as int);
        let ghost next = all.subrange(from as int, i + 1);
        assert(next.drop_last() =~= done);
        assert(next.last() == words@[i as int]@);
        if i > from {
            proof {
                reveal_strlit(" ");
                assert(" "@ =~= seq![' ']);
            }
            text.append(" ");
        } else {
            assert(text@ + words@[i as int]@ =~= words@[i as int]@);
        }
        text.append(words[i].as_str());
        i += 1;
    }
    assert(all.subrange(from as int, words.len() as int) =~= all.skip(from as int));
    text
}

/// The arguments of the command that `line` holds: the command word, for
/// `update` the identifier, and then the rest of the line as one argument,
/// its words separated by single spaces. A blank line gives no arguments.
pub fn tokenize(line: &str) -> (args: Vec<String>)
    ensures
        texts(args@) == arguments(words(line@)),
{
    let words = split_words(line);
    if words.len() == 0 {
        return words;
    }
    let fixed: usize = if same_text(&words[0], "update") {
        2
    } else {
        1
    };
    if words.len() <= fixed {
        return words;
    }
    let rest = join_from(&words, fixed);
    let mut args: Vec<String> = Vec::new();
    let mut i: usize = 0;
    while i < fixed
        invariant
            i <= fixed < words.len(),
            texts(args@) == texts(words@).take(i as int),
        decreases fixed - i,
    {
        let ghost before = args@;
        let word = words[i].clone();
        args.push(word);
        assert(texts(args@) =~= texts(before).push(word@));
        assert(texts(words@).take(i + 1) =~= texts(words@).take(i as int).push(words@[i as int]@));
        i += 1;
    }
    args.push(rest);
    assert(texts(args@) =~= texts(words@).take(fixed as int).push(rest@));
    args
}

} // verus!

use vstd::prelude::*;
use crate::text::{str_chars, string_from_chars};

verus! {

/// Whether a character has the Unicode White_Space property, which is
/// what `char::is_whitespace` tests: tab through carriage return, space,
/// next line, no-break space, ogham space mark, the spaces from en quad to
/// hair space, the line and paragraph separators, narrow no-break space,
/// medium mathematical space and ideographic space.
pub open spec fn is_white_space(c: char) -> bool {
    let n = c as u32;
    ||| 0x09 <= n <= 0x0d
    ||| n == 0x20
    ||| n == 0x85
    ||| n == 0xa0
    ||| n == 0x1680
    ||| 0x2000 <= n <= 0x200a
    ||| n == 0x2028
    ||| n == 0x2029
    ||| n == 0x202f
    ||| n == 0x205f
    ||| n == 0x3000
}

/// Tests a character for the White_Space property.
pub fn char_is_whitespace(c: char) -> (r: bool)
    ensures
        r == is_white_space(c),
{
    let n = c as u32;
    (0x09 <= n && n <= 0x0d) || n == 0x20 || n == 0x85 || n == 0xa0 || n == 0x1680 || (0x2000 <= n && n
        <= 0x200a) || n == 0x2028 || n == 0x2029 || n == 0x202f || n == 0x205f || n == 0x3000
}

/// The words of a text: its maximal runs of non-white-space characters, in
/// order (what `str::split_whitespace` yields).
pub open spec fn split_words(s: Seq<char>) -> Seq<Seq<char>>
    decreases s.len(),
{
    if s.len() == 0 {
        Seq::empty()
    } else {
        let w = split_words(s.drop_last());
        let c = s.last();
        if is_white_space(c) {
            w
        } else if s.len() >= 2 && !is_white_space(s[s.len() - 2]) {
            w.update(w.len() - 1, w.last().push(c))
        } else {
            w.push(seq![c])
        }
    }
}

proof fn lemma_split_words_nonempty(s: Seq<char>)
    requires
        s.len() > 0,
        !is_white_space(s.last()),
    ensures
        split_words(s).len() > 0,
    decreases s.len(),
{
    if s.len() >= 2 && !is_white_space(s[s.len() - 2]) {
        lemma_split_words_nonempty(s.drop_last());
    }
}

/// A word of a text is a run of at least one character, none of them white
/// space.
pub open spec fn is_word(w: Seq<char>) -> bool {
    w.len() > 0 && forall|j: int| 0 <= j < w.len() ==> !is_white_space(#[trigger] w[j])
}

/// Splitting yields only words: no empty entry and no white space inside
/// any entry, and never more words than characters.
pub proof fn lemma_split_words_are_words(s: Seq<char>)
    ensures
        forall|k: int| 0 <= k < split_words(s).len() ==> is_word(#[trigger] split_words(s)[k]),
        split_words(s).len() <= s.len(),
    decreases s.len(),
{
    if s.len() > 0 {
        let w = split_words(s.drop_last());
        let c = s.last();
        lemma_split_words_are_words(s.drop_last());
        if !is_white_space(c) {
            if s.len() >= 2 && !is_white_space(s[s.len() - 2]) {
                assert(s.drop_last().last() == s[s.len() - 2]);
                lemma_split_words_nonempty(s.drop_last());
                let r = split_words(s);
                assert forall|k: int| 0 <= k < r.len() implies is_word(#[trigger] r[k]) by {
                    if k < r.len() - 1 {
                        assert(r[k] == w[k]);
                    } else {
                        assert(is_word(w[k]));
                        let x = w.last().push(c);
                        assert(r[k] == x);
                        assert forall|j: int| 0 <= j < x.len() implies !is_white_space(#[trigger] x[j]) by {
                            if j < x.len() - 1 {
                                assert(x[j] == w[k][j]);
                            }
                        }
                    }
                }
            } else {
                let r = split_words(s);
                assert forall|k: int| 0 <= k < r.len() implies is_word(#[trigger] r[k]) by {
                    if k < r.len() - 1 {
                        assert(r[k] == w[k]);
                    } else {
                        assert(r[k] =~= seq![c]);
                    }
                }
            }
        }
    }
}

/// The views of a list of character vectors.
pub open spec fn views(v: Seq<Vec<char>>) -> Seq<Seq<char>> {
    v.map_values(|w: Vec<char>| w@)
}

/// Splits a text into its words.
pub fn split_whitespace_chars(s: &Vec<char>) -> (words: Vec<Vec<char>>)
    ensures
        views(words@) == split_words(s@),
{
    let n = s.len();
    let mut done: Vec<Vec<char>> = Vec::new();
    let mut cur: Vec<char> = Vec::new();
    let mut in_word = false;
    let mut i: usize = 0;
    while i < n
        invariant
            i <= n == s.len(),
            in_word ==> cur@.len() > 0,
            in_word <==> (i > 0 && !is_white_space(s@[i - 1])),
            split_words(s@.take(i as int)) == views(done@) + (if in_word {
                seq![cur@]
            } else {
                Seq::<Seq<char>>::empty()
            }),
        decreases n - i,
    {
        let c = s[i];
        let ws = char_is_whitespace(c);
        let ghost pre = s@.take(i as int);
        let ghost post = s@.take(i + 1);
        assert(post.drop_last() =~= pre);
        assert(post.last() == c);
        if ws {
            if in_word {
                let w = cur;
                cur = Vec::new();
                done.push(w);
                assert(views(done@) =~= views(done@.drop_last()) + seq![w@]);
            }
            in_word = false;
            assert(split_words(post) == split_words(pre));
        } else {
            if in_word {
                let ghost old_cur = cur@;
                cur.push(c);
                assert(post[post.len() - 2] == s@[i - 1]);
                let ghost w = split_words(pre);
                assert(w.last() == old_cur);
                assert(split_words(post) =~= views(done@) + seq![cur@]);
            } else {
                cur = Vec::new();
                cur.push(c);
                assert(cur@ =~= seq![c]);
                if i > 0 {
                    assert(post[post.len() - 2] == s@[i - 1]);
                }
                assert(split_words(post) =~= views(done@) + seq![cur@]);
            }
            in_word = true;
        }
        i = i + 1;
    }
    if in_word {
        done.push(cur);
    }
    assert(s@.take(n as int) =~= s@);
    assert(views(done@) =~= split_words(s@));
    done
}

/// Whether a character vector spells the given string.
pub fn chars_equal_str(w: &Vec<char>, lit: &str) -> (r: bool)
    ensures
        r == (w@ == lit@),
{
    let l = str_chars(lit);
    if w.len() != l.len() {
        return false;
    }
    let mut i: usize = 0;
    while i < w.len()
        invariant
            i <= w.len() == l.len(),
            l@ == lit@,
            forall|k: int| 0 <= k < i ==> w@[k] == l@[k],
        decreases w.len() - i,
    {
        if w[i] != l[i] {
            return false;
        }
        i = i + 1;
    }
    assert(w@ =~= l@);
    true
}

/// The parts joined with `sep` between each two neighbours.
pub open spec fn join_with(parts: Seq<Seq<char>>, sep: char) -> Seq<char>
    decreases parts.len(),
{
    if parts.len() == 0 {
        Seq::empty()
    } else if parts.len() == 1 {
        parts[0]
    } else {
        join_with(parts.drop_last(), sep) + seq![sep] + parts.last()
    }
}

/// The words joined by single spaces.
pub open spec fn join_words(words: Seq<Seq<char>>) -> Seq<char> {
    join_with(words, ' ')
}

/// Joins `parts[from..]` with `sep`, as `[&str]::join` does with a
/// one-character separator.
pub fn join_chars_from(parts: &Vec<Vec<char>>, from: usize, sep: char) -> (out: Vec<char>)
    requires
        from <= parts.len(),
    ensures
        out@ == join_with(views(parts@).skip(from as int), sep),
{
    let mut out: Vec<char> = Vec::new();
    let mut i: usize = from;
    while i < parts.len()
        invariant
            from <= i <= parts.len(),
            out@ == join_with(views(parts@).subrange(from as int, i as int), sep),
        decreases parts.len() - i,
    {
        let ghost before = views(parts@).subrange(from as int, i as int);
        let ghost after = views(parts@).subrange(from as int, i + 1);
        assert(after.drop_last() =~= before);
        if i > from {
            out.push(sep);
        }
        let w = &parts[i];
        let mut j: usize = 0;
        let ghost base = out@;
        while j < w.len()
            invariant
                j <= w.len(),
                out@ == base + w@.take(j as int),
            decreases w.len() - j,
        {
            out.push(w[j]);
            j = j + 1;
            assert(out@ =~= base + w@.take(j as int));
        }
        assert(w@.take(w.len() as int) =~= w@);
        assert(after.last() == w@);
        assert(out@ =~= join_with(after, sep));
        i = i + 1;
    }
    assert(views(parts@).subrange(from as int, parts.len() as int) =~= views(parts@).skip(from as int));
    out
}

/// Joins `words[from..]` with single spaces, as `[&str]::join(" ")` does.
pub fn join_words_from(words: &Vec<Vec<char>>, from: usize) -> (s: String)
    requires
        from <= words.len(),
    ensures
        s@ == join_words(views(words@).skip(from as int)),
{
    let out = join_chars_from(words, from, ' ');
    string_from_chars(&out)
}

} // verus!

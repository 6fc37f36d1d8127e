//! Display width: how many terminal columns a text occupies.

use unicode_width::UnicodeWidthStr;
use vstd::prelude::*;

verus! {

/// The plain characters: those of ASCII from the space to the tilde, but for
/// the digits and `#`, `*`, `<`, `=`, `>`, which can form one glyph with a mark
/// that follows them. Among them are the space that pads a cell, the pipe that
/// bounds it and the hyphen of the separator bar.
pub open spec fn is_plain(c: char) -> bool {
    let code = c as u32;
    &&& 0x20 <= code <= 0x7e
    &&& !(0x30 <= code <= 0x39)
    &&& c != '#' && c != '*' && c != '<' && c != '=' && c != '>'
}

/// The columns that `unicode-width` gives, under East Asian rules, to a
/// stretch of text that holds no plain character.
pub uninterp spec fn glyph_width(run: Seq<char>) -> nat;

/// Length of the longest prefix of `text` without a plain character.
pub open spec fn run_end(text: Seq<char>) -> int
    decreases text.len(),
{
    if text.len() == 0 || is_plain(text[0]) {
        0
    } else {
        1 + run_end(text.skip(1))
    }
}

/// Display width of `text`: every plain character takes one column, and each
/// stretch between two of them is measured on its own.
pub open spec fn text_width(text: Seq<char>) -> nat
    decreases text.len(),
{
    let n = run_end(text);
    let head = if n <= 0 {
        0nat
    } else {
        glyph_width(text.take(n))
    };
    if 0 <= n < text.len() {
        head + 1 + text_width(text.skip(n + 1))
    } else {
        head
    }
}

/// `n` copies of `c`.
pub open spec fn fill(c: char, n: nat) -> Seq<char> {
    Seq::new(n, |i: int| c)
}

/// Measures `text` with `UnicodeWidthStr::width_cjk`.
///
/// Trusted: the result is `text_width` of the text. `unicode-width` walks the
/// text from its end and carries a state from each character to the one before
/// it; a plain character counts one column whatever the state and resets it,
/// so what precedes such a character is measured as if it stood alone. The
/// width of a stretch without plain characters (wide and ambiguous characters,
/// combining marks, digits, control characters) is not stated here: it is
/// whatever `unicode-width` computes, under the name `glyph_width`.
#[verifier::external_body]
pub(crate) fn display_width(text: &str) -> (width: usize)
    ensures
        width == text_width(text@),
        run_end(text@) == text@.len() ==> width == glyph_width(text@),
{
    text.width_cjk()
}

/// `run_end` stays within the text, skips no plain character and stops at one.
pub proof fn lemma_run_end(text: Seq<char>)
    ensures
        0 <= run_end(text) <= text.len(),
        forall|i: int| 0 <= i < run_end(text) ==> !is_plain(#[trigger] text[i]),
        run_end(text) < text.len() ==> is_plain(text[run_end(text)]),
    decreases text.len(),
{
    if text.len() == 0 || is_plain(text[0]) {
    } else {
        let rest = text.skip(1);
        lemma_run_end(rest);
        assert forall|i: int| 0 <= i < run_end(text) implies !is_plain(#[trigger] text[i]) by {
            if i > 0 {
                assert(text[i] == rest[i - 1]);
            }
        }
        if run_end(text) < text.len() {
            assert(text[run_end(text)] == rest[run_end(rest)]);
        }
    }
}

/// The first run of `a + b` ends where that of `a` does, unless `a` holds no
/// plain character: then it runs on into `b`.
pub proof fn lemma_run_end_concat(a: Seq<char>, b: Seq<char>)
    ensures
        run_end(a + b) == if run_end(a) < a.len() {
            run_end(a)
        } else {
            a.len() + run_end(b)
        },
    decreases a.len(),
{
    lemma_run_end(a);
    if a.len() == 0 {
        assert(a + b =~= b);
    } else if is_plain(a[0]) {
        assert((a + b)[0] == a[0]);
    } else {
        assert((a + b)[0] == a[0]);
        assert((a + b).skip(1) =~= a.skip(1) + b);
        lemma_run_end_concat(a.skip(1), b);
    }
}

/// A plain character takes one column and parts the text: what stands before
/// it and what stands after it are measured independently.
pub proof fn lemma_width_split(a: Seq<char>, c: char, b: Seq<char>)
    requires
        is_plain(c),
    ensures
        text_width(a + seq![c] + b) == text_width(a) + 1 + text_width(b),
    decreases a.len(),
{
    let s = a + seq![c] + b;
    let n = run_end(a);
    lemma_run_end(a);
    lemma_run_end_concat(a, seq![c] + b);
    assert(s =~= a + (seq![c] + b));
    assert((seq![c] + b)[0] == c);
    if n == a.len() {
        assert(run_end(s) == n);
        assert(s.take(n) =~= a);
        assert(a.take(n) =~= a);
        assert(s.skip(n + 1) =~= b);
    } else {
        assert(run_end(s) == n);
        assert(s.take(n) =~= a.take(n));
        assert(s.skip(n + 1) =~= a.skip(n + 1) + seq![c] + b);
        lemma_width_split(a.skip(n + 1), c, b);
    }
}

/// A plain character at the front adds one column.
pub proof fn lemma_width_push_front(c: char, b: Seq<char>)
    requires
        is_plain(c),
    ensures
        text_width(seq![c] + b) == 1 + text_width(b),
{
    lemma_width_split(Seq::empty(), c, b);
    assert(Seq::<char>::empty() + seq![c] + b =~= seq![c] + b);
}

/// A plain character at the end adds one column.
pub proof fn lemma_width_push_back(a: Seq<char>, c: char)
    requires
        is_plain(c),
    ensures
        text_width(a + seq![c]) == text_width(a) + 1,
{
    lemma_width_split(a, c, Seq::empty());
    assert(a + seq![c] + Seq::<char>::empty() =~= a + seq![c]);
}

/// A plain character repeated `n` times in front of a text adds `n` columns.
pub proof fn lemma_width_fill_front(c: char, n: nat, b: Seq<char>)
    requires
        is_plain(c),
    ensures
        text_width(fill(c, n) + b) == n + text_width(b),
    decreases n,
{
    if n == 0 {
        assert(fill(c, n) + b =~= b);
    } else {
        let m = (n - 1) as nat;
        assert(fill(c, n) + b =~= seq![c] + (fill(c, m) + b));
        lemma_width_push_front(c, fill(c, m) + b);
        lemma_width_fill_front(c, m, b);
    }
}

/// A plain character repeated `n` times behind a text adds `n` columns.
pub proof fn lemma_width_fill_back(a: Seq<char>, c: char, n: nat)
    requires
        is_plain(c),
    ensures
        text_width(a + fill(c, n)) == text_width(a) + n,
    decreases n,
{
    if n == 0 {
        assert(a + fill(c, n) =~= a);
    } else {
        let m = (n - 1) as nat;
        assert(a + fill(c, n) =~= (a + fill(c, m)) + seq![c]);
        lemma_width_push_back(a + fill(c, m), c);
        lemma_width_fill_back(a, c, m);
    }
}

/// A run of `n` equal plain characters is `n` columns wide.
pub proof fn lemma_width_fill(c: char, n: nat)
    requires
        is_plain(c),
    ensures
        text_width(fill(c, n)) == n,
{
    lemma_width_fill_front(c, n, Seq::empty());
    assert(fill(c, n) + Seq::<char>::empty() =~= fill(c, n));
}

/// A stretch of plain characters between two texts adds its length, and the
/// two texts are measured independently.
pub proof fn lemma_width_plain_between(a: Seq<char>, f: Seq<char>, b: Seq<char>)
    requires
        f.len() >= 1,
        forall|i: int| 0 <= i < f.len() ==> is_plain(#[trigger] f[i]),
    ensures
        text_width(a + f + b) == text_width(a) + f.len() + text_width(b),
    decreases f.len(),
{
    let rest = f.skip(1);
    assert(a + f + b =~= a + seq![f[0]] + (rest + b));
    lemma_width_split(a, f[0], rest + b);
    if rest.len() == 0 {
        assert(rest + b =~= b);
    } else {
        assert forall|i: int| 0 <= i < rest.len() implies is_plain(#[trigger] rest[i]) by {
            assert(rest[i] == f[i + 1]);
        }
        lemma_width_plain_between(Seq::empty(), rest, b);
        assert(Seq::<char>::empty() + rest + b =~= rest + b);
    }
}

/// A text of plain characters alone is as wide as it is long.
pub proof fn lemma_width_plain(text: Seq<char>)
    requires
        forall|i: int| 0 <= i < text.len() ==> is_plain(#[trigger] text[i]),
    ensures
        text_width(text) == text.len(),
{
    if text.len() > 0 {
        lemma_width_plain_between(Seq::empty(), text, Seq::empty());
        assert(Seq::<char>::empty() + text + Seq::<char>::empty() =~= text);
    }
}

} // verus!

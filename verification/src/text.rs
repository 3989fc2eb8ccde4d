//! Splitting span text into unbreakable pieces: runs of Latin letters (words),
//! runs of whitespace, single CJK characters and forced line breaks.

use vstd::prelude::*;

verus! {

/// CJK and East Asian full-width characters: a line may break before or after
/// any of them.
pub open spec fn spec_is_cjk(c: char) -> bool {
    ||| '\u{2E80}' <= c <= '\u{303F}'
    ||| '\u{3040}' <= c <= '\u{30FF}'
    ||| '\u{3400}' <= c <= '\u{4DBF}'
    ||| '\u{4E00}' <= c <= '\u{9FFF}'
    ||| '\u{AC00}' <= c <= '\u{D7AF}'
    ||| '\u{F900}' <= c <= '\u{FAFF}'
    ||| '\u{FF00}' <= c <= '\u{FFEF}'
    ||| '\u{20000}' <= c <= '\u{2FA1F}'
}

/// Characters with the Unicode `White_Space` property.
pub open spec fn spec_is_whitespace(c: char) -> bool {
    ||| '\u{9}' <= c <= '\u{D}'
    ||| c == ' '
    ||| c == '\u{85}'
    ||| c == '\u{A0}'
    ||| c == '\u{1680}'
    ||| '\u{2000}' <= c <= '\u{200A}'
    ||| c == '\u{2028}'
    ||| c == '\u{2029}'
    ||| c == '\u{202F}'
    ||| c == '\u{205F}'
    ||| c == '\u{3000}'
}

/// CJK and East Asian full-width characters (radicals, CJK symbols and
/// punctuation, kana, ideographs, Hangul syllables, compatibility ideographs,
/// full-width forms, the supplementary ideographic plane).
pub fn is_cjk(c: char) -> (b: bool)
    ensures
        b == spec_is_cjk(c),
{
    ('\u{2E80}' <= c && c <= '\u{303F}') || ('\u{3040}' <= c && c <= '\u{30FF}') || ('\u{3400}'
        <= c && c <= '\u{4DBF}') || ('\u{4E00}' <= c && c <= '\u{9FFF}') || ('\u{AC00}' <= c && c
        <= '\u{D7AF}') || ('\u{F900}' <= c && c <= '\u{FAFF}') || ('\u{FF00}' <= c && c
        <= '\u{FFEF}') || ('\u{20000}' <= c && c <= '\u{2FA1F}')
}

/// Whether `c` has the Unicode `White_Space` property (the set that
/// `char::is_whitespace` tests).
fn is_whitespace(c: char) -> (b: bool)
    ensures
        b == spec_is_whitespace(c),
{
    ('\u{9}' <= c && c <= '\u{D}') || c == ' ' || c == '\u{85}' || c == '\u{A0}' || c == '\u{1680}'
        || ('\u{2000}' <= c && c <= '\u{200A}') || c == '\u{2028}' || c == '\u{2029}' || c
        == '\u{202F}' || c == '\u{205F}' || c == '\u{3000}'
}

/// How the tokenizer sees a character. The tests are taken in this order: a line
/// feed first, then whitespace, then CJK.
#[derive(Clone, Copy, Debug, PartialEq, Eq, Structural)]
pub enum CharClass {
    Newline,
    Space,
    Cjk,
    Latin,
}

#[verifier::opaque]
pub open spec fn class_of(c: char) -> CharClass {
    if c == '\n' {
        CharClass::Newline
    } else if spec_is_whitespace(c) {
        CharClass::Space
    } else if spec_is_cjk(c) {
        CharClass::Cjk
    } else {
        CharClass::Latin
    }
}

/// Kind of a piece.
#[derive(Clone, Copy, Debug, PartialEq, Eq, Structural)]
pub enum TokKind {
    /// A run of Latin (non-space, non-CJK) characters, or one CJK character.
    Word,
    /// A run of whitespace other than line feeds.
    Space,
    /// A forced line break.
    Newline,
}

/// A piece of the text: its kind and the character positions `start..end` it
/// covers (a `Newline` covers its line feed; the piece's text is empty).
#[derive(Clone, Copy, Debug, PartialEq, Eq, Structural)]
pub struct Token {
    pub kind: TokKind,
    pub start: usize,
    pub end: usize,
}

/// All characters in `lo..hi` are of class `k`.
#[verifier::opaque]
pub open spec fn all_class(s: Seq<char>, lo: int, hi: int, k: CharClass) -> bool {
    forall|j: int| lo <= j < hi ==> class_of(#[trigger] s[j]) == k
}

/// A piece that is well formed for `s`.
pub open spec fn token_ok(s: Seq<char>, t: Token) -> bool {
    &&& t.start < t.end <= s.len()
    &&& match t.kind {
        TokKind::Newline => t.end == t.start + 1 && class_of(s[t.start as int]) == CharClass::Newline,
        TokKind::Space => all_class(s, t.start as int, t.end as int, CharClass::Space),
        TokKind::Word => (t.end == t.start + 1 && class_of(s[t.start as int]) == CharClass::Cjk)
            || all_class(s, t.start as int, t.end as int, CharClass::Latin),
    }
}

/// A piece made of Latin characters.
pub open spec fn is_latin_word(s: Seq<char>, t: Token) -> bool {
    t.kind == TokKind::Word && class_of(s[t.start as int]) == CharClass::Latin
}

/// Two neighbouring pieces that could not be one: never two whitespace runs,
/// never two Latin runs.
pub open spec fn separated(s: Seq<char>, a: Token, b: Token) -> bool {
    &&& !(a.kind == TokKind::Space && b.kind == TokKind::Space)
    &&& !(is_latin_word(s, a) && is_latin_word(s, b))
}

/// `toks` cuts `s[0..n]` into maximal pieces, in order and without gaps.
#[verifier::opaque]
pub open spec fn tokenizes(s: Seq<char>, n: int, toks: Seq<Token>) -> bool {
    &&& forall|i: int| 0 <= i < toks.len() ==> token_ok(s, #[trigger] toks[i]) && toks[i].end <= n
    &&& (toks.len() == 0 <==> n == 0)
    &&& toks.len() > 0 ==> toks[0].start == 0 && toks.last().end == n
    &&& forall|i: int, j: int|
        #![trigger toks[i], toks[j]]
        0 <= i && j == i + 1 && j < toks.len() ==> toks[i].end == toks[j].start && separated(
            s,
            toks[i],
            toks[j],
        )
}

/// A run of one class grows by a next character of that class.
proof fn lemma_all_class_extend(s: Seq<char>, lo: int, hi: int, k: CharClass)
    requires
        lo == hi || all_class(s, lo, hi, k),
        0 <= hi < s.len(),
        class_of(s[hi]) == k,
    ensures
        all_class(s, lo, hi + 1, k),
{
    reveal(all_class);
}

/// The class of a character, computed.
pub fn char_class(c: char) -> (k: CharClass)
    ensures
        k == class_of(c),
{
    reveal(class_of);
    if c == '\n' {
        CharClass::Newline
    } else if is_whitespace(c) {
        CharClass::Space
    } else if is_cjk(c) {
        CharClass::Cjk
    } else {
        CharClass::Latin
    }
}

/// Appending a well-formed piece that starts where the others end, and that the
/// last one does not run into, extends a cut of `s[0..start]` to `s[0..end]`.
proof fn lemma_tokenizes_push(s: Seq<char>, toks: Seq<Token>, t: Token)
    requires
        tokenizes(s, t.start as int, toks),
        token_ok(s, t),
        toks.len() > 0 ==> separated(s, toks.last(), t),
    ensures
        tokenizes(s, t.end as int, toks.push(t)),
{
    reveal(tokenizes);
    let r = toks.push(t);
    assert forall|i: int| 0 <= i < r.len() implies token_ok(s, #[trigger] r[i]) && r[i].end
        <= t.end by {
        if i < toks.len() {
            assert(r[i] == toks[i]);
            assert(toks[i].end <= t.start);
        }
    }
    assert forall|i: int, j: int|
        #![trigger r[i], r[j]]
        0 <= i && j == i + 1 && j < r.len() implies r[i].end == r[j].start && separated(
            s,
            r[i],
            r[j],
        ) by {
        if j < toks.len() {
            assert(r[i] == toks[i] && r[j] == toks[j]);
        } else {
            assert(r[i] == toks.last());
        }
    }
}

/// Appends the pending run `start..i` (if not empty) as a piece of the given kind.
fn flush(out: &mut Vec<Token>, s: &Vec<char>, start: usize, i: usize, space: bool, word: bool)
    requires
        start <= i <= s.len(),
        !(word && space),
        tokenizes(s@, start as int, old(out)@),
        space ==> start < i && all_class(s@, start as int, i as int, CharClass::Space),
        word ==> start < i && all_class(s@, start as int, i as int, CharClass::Latin),
        !word && !space ==> start == i,
        space && old(out).len() > 0 ==> old(out)@.last().kind != TokKind::Space,
        word && old(out).len() > 0 ==> !is_latin_word(s@, old(out)@.last()),
    ensures
        tokenizes(s@, i as int, final(out)@),
        start < i ==> final(out)@.last() == (Token {
            kind: if space {
                TokKind::Space
            } else {
                TokKind::Word
            },
            start,
            end: i,
        }),
        start == i ==> final(out)@ == old(out)@,
{
    if start < i {
        let t = Token { kind: if space {
            TokKind::Space
        } else {
            TokKind::Word
        }, start, end: i };
        proof {
            if word {
                reveal(all_class);
                assert(class_of(s@[start as int]) == CharClass::Latin);
            }
            lemma_tokenizes_push(s@, out@, t);
        }
        out.push(t);
    }
}

/// Cuts `s` into pieces: Latin words, whitespace runs, single CJK characters and
/// forced line breaks, in order; together they cover `s` exactly.
pub fn tokenize(s: &Vec<char>) -> (toks: Vec<Token>)
    ensures
        tokenizes(s@, s.len() as int, toks@),
{
    let mut out: Vec<Token> = Vec::new();
    let mut start: usize = 0;
    let mut word = false;
    let mut space = false;
    let n = s.len();
    proof {
        reveal(tokenizes);
    }
    for i in 0..n
        invariant
            n == s.len(),
            start <= i,
            !(word && space),
            tokenizes(s@, start as int, out@),
            space ==> start < i && all_class(s@, start as int, i as int, CharClass::Space),
            word ==> start < i && all_class(s@, start as int, i as int, CharClass::Latin),
            !word && !space ==> start == i,
            space && out.len() > 0 ==> out@.last().kind != TokKind::Space,
            word && out.len() > 0 ==> !is_latin_word(s@, out@.last()),
            !word && !space && out.len() > 0 ==> !is_latin_word(s@, out@.last())
                && out@.last().kind != TokKind::Space,
    {
        let c = s[i];
        let k = char_class(c);
        match k {
            CharClass::Newline => {
                flush(&mut out, s, start, i, space, word);
                let t = Token { kind: TokKind::Newline, start: i, end: i + 1 };
                proof {
                    lemma_tokenizes_push(s@, out@, t);
                }
                out.push(t);
                start = i + 1;
                word = false;
                space = false;
            },
            CharClass::Space => {
                if !space {
                    flush(&mut out, s, start, i, false, word);
                    start = i;
                }
                proof {
                    lemma_all_class_extend(s@, start as int, i as int, CharClass::Space);
                }
                word = false;
                space = true;
            },
            CharClass::Cjk => {
                flush(&mut out, s, start, i, space, word);
                let t = Token { kind: TokKind::Word, start: i, end: i + 1 };
                proof {
                    lemma_tokenizes_push(s@, out@, t);
                }
                out.push(t);
                start = i + 1;
                word = false;
                space = false;
            },
            CharClass::Latin => {
                if !word {
                    flush(&mut out, s, start, i, space, false);
                    start = i;
                }
                proof {
                    lemma_all_class_extend(s@, start as int, i as int, CharClass::Latin);
                }
                word = true;
                space = false;
            },
        }
    }
    flush(&mut out, s, start, n, space, word);
    out
}

/// End of the piece that starts at `st`: one past a line feed or a CJK character;
/// otherwise the end of the run of characters of the same class, looked for from
/// `e` on.
pub open spec fn run_to(s: Seq<char>, n: int, k: CharClass, e: int) -> int
    decreases n - e,
{
    if e >= n || class_of(s[e]) != k {
        e
    } else {
        run_to(s, n, k, e + 1)
    }
}

/// Where the piece starting at `st` ends.
pub open spec fn piece_end(s: Seq<char>, n: int, st: int) -> int {
    let k = class_of(s[st]);
    if k == CharClass::Newline || k == CharClass::Cjk {
        st + 1
    } else {
        run_to(s, n, k, st + 1)
    }
}

/// A run of one class that stops at `n` or before a character of another class
/// ends where [`run_to`] says.
proof fn lemma_run_to(s: Seq<char>, n: int, k: CharClass, st: int, e: int, end: int)
    requires
        st < e <= end <= n,
        all_class(s, st, end, k),
        end == n || class_of(s[end]) != k,
    ensures
        run_to(s, n, k, e) == end,
    decreases end - e,
{
    reveal(all_class);
    if e < end {
        assert(class_of(s[e]) == k);
        lemma_run_to(s, n, k, st, e + 1, end);
    }
}

/// In a cut of `s[0..n]`, each piece ends where [`piece_end`] says, and its kind
/// follows from the class of its first character.
proof fn lemma_token_determined(s: Seq<char>, n: int, toks: Seq<Token>, m: int)
    requires
        tokenizes(s, n, toks),
        0 <= m < toks.len(),
        n <= s.len(),
    ensures
        toks[m].end == piece_end(s, n, toks[m].start as int),
        toks[m].kind == (match class_of(s[toks[m].start as int]) {
            CharClass::Newline => TokKind::Newline,
            CharClass::Space => TokKind::Space,
            _ => TokKind::Word,
        }),
{
    reveal(tokenizes);
    let t = toks[m];
    assert(token_ok(s, t) && t.end <= n);
    let st = t.start as int;
    let k = class_of(s[st]);
    if m + 1 < toks.len() {
        let u = toks[m + 1];
        assert(t.end == u.start && separated(s, t, u));
        assert(token_ok(s, u));
    } else {
        assert(t.end == n);
    }
    reveal(all_class);
    match t.kind {
        TokKind::Newline => {},
        TokKind::Space => {
            assert(class_of(s[st]) == CharClass::Space);
            if t.end < n {
                let u = toks[m + 1];
                assert(class_of(s[u.start as int]) != CharClass::Space);
            }
            lemma_run_to(s, n, CharClass::Space, st, st + 1, t.end as int);
        },
        TokKind::Word => {
            if t.end == t.start + 1 && class_of(s[st]) == CharClass::Cjk {
            } else {
                assert(class_of(s[st]) == CharClass::Latin);
                if t.end < n {
                    let u = toks[m + 1];
                    assert(!is_latin_word(s, u));
                    assert(class_of(s[u.start as int]) != CharClass::Latin);
                }
                lemma_run_to(s, n, CharClass::Latin, st, st + 1, t.end as int);
            }
        },
    }
}

/// There is only one way to cut a text into pieces: the contract of [`tokenize`]
/// determines its result.
pub proof fn lemma_tokenizes_unique(s: Seq<char>, n: int, a: Seq<Token>, b: Seq<Token>)
    requires
        tokenizes(s, n, a),
        tokenizes(s, n, b),
        n <= s.len(),
    ensures
        a == b,
{
    let len = if a.len() < b.len() {
        a.len()
    } else {
        b.len()
    };
    assert forall|m: int| 0 <= m < len implies a[m] == b[m] by {
        lemma_prefix_equal(s, n, a, b, m);
    }
    reveal(tokenizes);
    if a.len() < b.len() {
        if a.len() == 0 {
            assert(n == 0);
            assert(token_ok(s, b[0]) && b[0].end <= n);
        } else {
            lemma_prefix_equal(s, n, a, b, a.len() - 1);
            assert(a.last().end == n);
            assert(b[a.len() - 1].end == b[a.len() as int].start);
            assert(token_ok(s, b[a.len() as int]) && b[a.len() as int].end <= n);
        }
    } else if b.len() < a.len() {
        if b.len() == 0 {
            assert(n == 0);
            assert(token_ok(s, a[0]) && a[0].end <= n);
        } else {
            lemma_prefix_equal(s, n, a, b, b.len() - 1);
            assert(b.last().end == n);
            assert(a[b.len() - 1].end == a[b.len() as int].start);
            assert(token_ok(s, a[b.len() as int]) && a[b.len() as int].end <= n);
        }
    }
    assert(a =~= b);
}

/// Two cuts agree on every piece up to `m`.
proof fn lemma_prefix_equal(s: Seq<char>, n: int, a: Seq<Token>, b: Seq<Token>, m: int)
    requires
        tokenizes(s, n, a),
        tokenizes(s, n, b),
        n <= s.len(),
        0 <= m < a.len(),
        m < b.len(),
    ensures
        a[m] == b[m],
    decreases m,
{
    if m > 0 {
        lemma_prefix_equal(s, n, a, b, m - 1);
        reveal(tokenizes);
        assert(a[m - 1].end == a[m].start);
        assert(b[m - 1].end == b[m].start);
    } else {
        reveal(tokenizes);
    }
    lemma_token_determined(s, n, a, m);
    lemma_token_determined(s, n, b, m);
}

/// A piece moved `d` characters to the right.
pub open spec fn shift_token(t: Token, d: int) -> Token {
    Token { kind: t.kind, start: (t.start + d) as usize, end: (t.end + d) as usize }
}

/// The pieces of `toks`, each moved `d` characters to the right.
pub open spec fn shift_tokens(toks: Seq<Token>, d: int) -> Seq<Token> {
    Seq::new(toks.len(), |i: int| shift_token(toks[i], d))
}

/// The text `a`, a line feed, then the text `b`.
pub open spec fn join_lines(a: Seq<char>, b: Seq<char>) -> Seq<char> {
    a + seq!['\n'] + b
}

/// The line-feed piece at position `i`.
pub open spec fn line_feed_token(i: int) -> Token {
    Token { kind: TokKind::Newline, start: i as usize, end: (i + 1) as usize }
}

/// A piece of `x` is a piece of `y` at `d` characters further on, when `y` holds
/// the same characters there.
proof fn lemma_token_moved(x: Seq<char>, y: Seq<char>, t: Token, d: int)
    requires
        token_ok(x, t),
        0 <= d,
        t.end + d <= y.len(),
        t.end + d <= usize::MAX,
        forall|j: int| t.start <= j < t.end ==> #[trigger] x[j] == y[j + d],
    ensures
        token_ok(y, shift_token(t, d)),
        shift_token(t, d).kind == t.kind,
        is_latin_word(y, shift_token(t, d)) == is_latin_word(x, t),
{
    reveal(all_class);
    let u = shift_token(t, d);
    assert(x[t.start as int] == y[t.start + d]);
    assert forall|j: int| u.start <= j < u.end implies #[trigger] y[j] == x[j - d] by {
        assert(x[j - d] == y[(j - d) + d]);
    }
    match t.kind {
        TokKind::Newline => {},
        TokKind::Space => {
            assert forall|j: int| u.start <= j < u.end implies class_of(#[trigger] y[j])
                == CharClass::Space by {
                assert(y[j] == x[j - d]);
            }
        },
        TokKind::Word => {
            if t.end == t.start + 1 && class_of(x[t.start as int]) == CharClass::Cjk {
            } else {
                assert forall|j: int| u.start <= j < u.end implies class_of(#[trigger] y[j])
                    == CharClass::Latin by {
                    assert(y[j] == x[j - d]);
                }
            }
        },
    }
}

/// The cut of `a`, a line feed, then `b`: the pieces of `a`, the line-feed piece,
/// and the pieces of `b` moved past the line feed.
proof fn lemma_join_tokenizes(a: Seq<char>, b: Seq<char>, ta: Seq<Token>, tb: Seq<Token>)
    requires
        tokenizes(a, a.len() as int, ta),
        tokenizes(b, b.len() as int, tb),
        a.len() + 1 + b.len() <= usize::MAX,
    ensures
        tokenizes(
            join_lines(a, b),
            (a.len() + 1 + b.len()) as int,
            ta + seq![line_feed_token(a.len() as int)] + shift_tokens(tb, a.len() + 1int),
        ),
{
    reveal(tokenizes);
    reveal(class_of);
    let s = join_lines(a, b);
    let la = a.len() as int;
    let d = la + 1;
    let n = d + b.len();
    let nl = line_feed_token(la);
    let sb = shift_tokens(tb, d);
    let r = ta + seq![nl] + sb;
    let na = ta.len() as int;
    assert(s[la] == '\n');
    assert forall|j: int| 0 <= j < la implies #[trigger] a[j] == s[j + 0] by {}
    assert forall|j: int| 0 <= j < b.len() implies #[trigger] b[j] == s[j + d] by {}
    assert forall|i: int| 0 <= i < r.len() implies token_ok(s, #[trigger] r[i]) && r[i].end
        <= n by {
        if i < na {
            assert(r[i] == ta[i]);
            assert(token_ok(a, ta[i]) && ta[i].end <= la);
            lemma_token_moved(a, s, ta[i], 0);
            assert(shift_token(ta[i], 0) == ta[i]);
        } else if i == na {
            assert(r[i] == nl);
        } else {
            let k = i - na - 1;
            assert(r[i] == sb[k]);
            assert(token_ok(b, tb[k]) && tb[k].end <= b.len());
            lemma_token_moved(b, s, tb[k], d);
        }
    }
    assert forall|i: int, j: int|
        #![trigger r[i], r[j]]
        0 <= i && j == i + 1 && j < r.len() implies r[i].end == r[j].start && separated(
            s,
            r[i],
            r[j],
        ) by {
        if j < na {
            assert(r[i] == ta[i] && r[j] == ta[j]);
            assert(ta[i].end == ta[j].start && separated(a, ta[i], ta[j]));
            assert(token_ok(a, ta[i]) && ta[i].end <= la);
            assert(token_ok(a, ta[j]) && ta[j].end <= la);
            lemma_token_moved(a, s, ta[i], 0);
            lemma_token_moved(a, s, ta[j], 0);
            assert(shift_token(ta[i], 0) == ta[i]);
            assert(shift_token(ta[j], 0) == ta[j]);
        } else if j == na {
            assert(r[i] == ta.last() && r[j] == nl);
        } else if i == na {
            assert(r[i] == nl && r[j] == sb[0]);
            assert(tb[0].start == 0);
        } else {
            let k = i - na - 1;
            assert(r[i] == sb[k] && r[j] == sb[k + 1]);
            assert(tb[k].end == tb[k + 1].start && separated(b, tb[k], tb[k + 1]));
            assert(token_ok(b, tb[k]) && tb[k].end <= b.len());
            assert(token_ok(b, tb[k + 1]) && tb[k + 1].end <= b.len());
            lemma_token_moved(b, s, tb[k], d);
            lemma_token_moved(b, s, tb[k + 1], d);
        }
    }
    if na > 0 {
        assert(r[0] == ta[0]);
    } else {
        assert(la == 0);
        assert(r[0] == nl);
    }
    if tb.len() > 0 {
        assert(r.last() == sb[tb.len() - 1]);
    } else {
        assert(b.len() == 0);
        assert(r.last() == nl);
    }
}

/// A line feed closes whatever run is open: the cut of `a`, a line feed, then `b`
/// is the cut of `a`, one line-feed piece, then the cut of `b` moved past the line
/// feed.
pub proof fn lemma_line_feed_join(a: Seq<char>, b: Seq<char>, ta: Seq<Token>, tb: Seq<Token>, t: Seq<Token>)
    requires
        tokenizes(a, a.len() as int, ta),
        tokenizes(b, b.len() as int, tb),
        tokenizes(join_lines(a, b), (a.len() + 1 + b.len()) as int, t),
        a.len() + 1 + b.len() <= usize::MAX,
    ensures
        t == ta + seq![line_feed_token(a.len() as int)] + shift_tokens(tb, a.len() + 1int),
{
    lemma_join_tokenizes(a, b, ta, tb);
    lemma_tokenizes_unique(
        join_lines(a, b),
        (a.len() + 1 + b.len()) as int,
        t,
        ta + seq![line_feed_token(a.len() as int)] + shift_tokens(tb, a.len() + 1int),
    );
}

/// Number of line feeds among the first `hi` characters of `s`.
pub open spec fn count_line_feeds(s: Seq<char>, hi: int) -> nat
    decreases hi,
{
    if hi <= 0 {
        0
    } else {
        count_line_feeds(s, hi - 1) + if s[hi - 1] == '\n' {
            1nat
        } else {
            0nat
        }
    }
}

/// Number of line-feed pieces in `toks`.
pub open spec fn count_line_feed_tokens(toks: Seq<Token>) -> nat
    decreases toks.len(),
{
    if toks.len() == 0 {
        0
    } else {
        count_line_feed_tokens(toks.drop_last()) + if toks.last().kind == TokKind::Newline {
            1nat
        } else {
            0nat
        }
    }
}

/// Characters other than line feeds add nothing to the count.
proof fn lemma_no_line_feed_run(s: Seq<char>, lo: int, hi: int)
    requires
        0 <= lo <= hi <= s.len(),
        forall|j: int| lo <= j < hi ==> #[trigger] s[j] != '\n',
    ensures
        count_line_feeds(s, hi) == count_line_feeds(s, lo),
    decreases hi - lo,
{
    if hi > lo {
        lemma_no_line_feed_run(s, lo, hi - 1);
    }
}

/// In a cut, a piece ends before any later piece starts.
proof fn lemma_token_order(s: Seq<char>, n: int, toks: Seq<Token>, i: int, j: int)
    requires
        tokenizes(s, n, toks),
        0 <= i < j < toks.len(),
    ensures
        toks[i].end <= toks[j].start,
    decreases j - i,
{
    reveal(tokenizes);
    if j > i + 1 {
        lemma_token_order(s, n, toks, i, j - 1);
        assert(token_ok(s, toks[j - 1]));
        assert(toks[j - 1].end == toks[j].start);
    } else {
        assert(toks[i].end == toks[j].start);
    }
}

/// Without its last piece, a cut is a cut of the text before that piece.
proof fn lemma_tokenizes_drop_last(s: Seq<char>, n: int, toks: Seq<Token>)
    requires
        tokenizes(s, n, toks),
        toks.len() > 0,
    ensures
        tokenizes(s, toks.last().start as int, toks.drop_last()),
{
    reveal(tokenizes);
    let p = toks.drop_last();
    let t = toks.last();
    let m = toks.len() - 1;
    assert forall|i: int| 0 <= i < p.len() implies token_ok(s, #[trigger] p[i]) && p[i].end
        <= t.start by {
        assert(p[i] == toks[i]);
        lemma_token_order(s, n, toks, i, m);
    }
    assert forall|i: int, j: int|
        #![trigger p[i], p[j]]
        0 <= i && j == i + 1 && j < p.len() implies p[i].end == p[j].start && separated(
            s,
            p[i],
            p[j],
        ) by {
        assert(p[i] == toks[i] && p[j] == toks[j]);
    }
    if p.len() > 0 {
        assert(p[0] == toks[0]);
        assert(p.last() == toks[m - 1]);
        assert(toks[m - 1].end == toks[m].start);
        assert(token_ok(s, toks[m - 1]));
    } else {
        assert(t == toks[0]);
    }
}

/// Every line feed of the text becomes one line-feed piece, and nothing else
/// does: a cut holds as many line-feed pieces as the text holds line feeds.
pub proof fn lemma_line_feed_count(s: Seq<char>, n: int, toks: Seq<Token>)
    requires
        tokenizes(s, n, toks),
        0 <= n <= s.len(),
    ensures
        count_line_feed_tokens(toks) == count_line_feeds(s, n),
    decreases toks.len(),
{
    if toks.len() == 0 {
        reveal(tokenizes);
        assert(n == 0);
    } else {
        let t = toks.last();
        lemma_tokenizes_drop_last(s, n, toks);
        reveal(tokenizes);
        assert(token_ok(s, t) && t.end <= n);
        assert(t.end == n);
        lemma_line_feed_count(s, t.start as int, toks.drop_last());
        reveal(class_of);
        reveal(all_class);
        match t.kind {
            TokKind::Newline => {
                assert(s[t.start as int] == '\n');
            },
            TokKind::Space => {
                assert forall|j: int| t.start <= j < t.end implies #[trigger] s[j] != '\n' by {
                    assert(class_of(s[j]) == CharClass::Space);
                }
                lemma_no_line_feed_run(s, t.start as int, t.end as int);
            },
            TokKind::Word => {
                assert forall|j: int| t.start <= j < t.end implies #[trigger] s[j] != '\n' by {
                    if t.end == t.start + 1 && class_of(s[t.start as int]) == CharClass::Cjk {
                        assert(j == t.start);
                    } else {
                        assert(class_of(s[j]) == CharClass::Latin);
                    }
                }
                lemma_no_line_feed_run(s, t.start as int, t.end as int);
            },
        }
    }
}

/// The pieces of a cut of `s[0..n]` lie within it.
pub proof fn lemma_tokens_in_bounds(s: Seq<char>, n: int, toks: Seq<Token>)
    requires
        tokenizes(s, n, toks),
    ensures
        forall|k: int| #![trigger toks[k]] 0 <= k < toks.len() ==> toks[k].start < toks[k].end && toks[k].end <= n,
        n <= s.len() || toks.len() == 0,
{
    reveal(tokenizes);
    if toks.len() > 0 {
        assert(token_ok(s, toks.last()));
    }
}

/// The text a piece stands for: a line feed for a line-feed piece, otherwise
/// the characters it covers.
pub open spec fn piece_text(s: Seq<char>, t: Token) -> Seq<char> {
    if t.kind == TokKind::Newline {
        seq!['\n']
    } else {
        s.subrange(t.start as int, t.end as int)
    }
}

/// The texts of the pieces, joined in order.
pub open spec fn joined_text(s: Seq<char>, toks: Seq<Token>) -> Seq<char>
    decreases toks.len(),
{
    if toks.len() == 0 {
        Seq::empty()
    } else {
        joined_text(s, toks.drop_last()) + piece_text(s, toks.last())
    }
}

/// The cut loses nothing: joining the texts of the pieces, in order, gives back
/// the text exactly.
pub proof fn lemma_cut_is_lossless(s: Seq<char>, n: int, toks: Seq<Token>)
    requires
        tokenizes(s, n, toks),
        0 <= n <= s.len(),
    ensures
        joined_text(s, toks) == s.subrange(0, n),
    decreases toks.len(),
{
    if toks.len() == 0 {
        reveal(tokenizes);
        assert(n == 0);
        assert(s.subrange(0, 0) =~= Seq::<char>::empty());
    } else {
        let t = toks.last();
        lemma_tokenizes_drop_last(s, n, toks);
        reveal(tokenizes);
        assert(token_ok(s, t) && t.end <= n);
        assert(t.end == n);
        lemma_cut_is_lossless(s, t.start as int, toks.drop_last());
        if t.kind == TokKind::Newline {
            reveal(class_of);
            assert(s[t.start as int] == '\n');
            assert(piece_text(s, t) =~= s.subrange(t.start as int, t.end as int));
        }
        assert(s.subrange(0, t.start as int) + s.subrange(t.start as int, n) =~= s.subrange(0, n));
    }
}

} // verus!

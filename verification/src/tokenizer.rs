//! The tokenizer: a finite-state machine that splits one input line into
//! word tokens, honoring quote and escape rules.
//!
//! Outside quotes, unescaped blanks separate tokens (runs of blanks collapse,
//! and no empty token is ever produced), a backslash escapes the following
//! character (a trailing backslash stands for itself), and a quote character
//! opens the corresponding quoted state without being emitted.  Inside single
//! quotes every character is literal.  Inside double quotes a backslash
//! escapes only a backslash or a double quote and is otherwise literal.  An
//! unclosed quote is treated as implicitly closed at end of input.

use vstd::prelude::*;
use vstd::string::StrSliceExecFns;
use crate::strutil::is_blank;
use crate::strutil::is_blank_char;

verus! {

/// Quoting state of the tokenizer's finite-state machine.
pub enum Mode {
    Normal,
    Single,
    Double,
}

/// End of input: the gathered characters become a final token only when
/// there are any.
pub open spec fn tok_finish(cur: Seq<char>, out: Seq<Seq<char>>) -> Seq<Seq<char>> {
    if cur.len() > 0 {
        out.push(cur)
    } else {
        out
    }
}

/// One step at a time over the remaining input `s`: `mode` is the quoting
/// state, `cur` the characters gathered for the current token, `out` the
/// tokens already emitted, in order.
pub open spec fn tok(s: Seq<char>, mode: Mode, cur: Seq<char>, out: Seq<Seq<char>>) -> Seq<
    Seq<char>,
>
    decreases s.len(),
{
    if s.len() == 0 {
        tok_finish(cur, out)
    } else {
        let c = s[0];
        match mode {
            Mode::Normal => {
                if c == '\\' {
                    if s.len() >= 2 {
                        // the backslash escapes the next character, whatever it is
                        tok(s.skip(2), Mode::Normal, cur.push(s[1]), out)
                    } else {
                        // a trailing backslash stands for itself
                        tok(s.skip(1), Mode::Normal, cur.push('\\'), out)
                    }
                } else if c == '\'' {
                    tok(s.skip(1), Mode::Single, cur, out)
                } else if c == '"' {
                    tok(s.skip(1), Mode::Double, cur, out)
                } else if is_blank(c) {
                    if cur.len() > 0 {
                        tok(s.skip(1), Mode::Normal, Seq::empty(), out.push(cur))
                    } else {
                        tok(s.skip(1), Mode::Normal, cur, out)
                    }
                } else {
                    tok(s.skip(1), Mode::Normal, cur.push(c), out)
                }
            },
            Mode::Single => {
                if c == '\'' {
                    tok(s.skip(1), Mode::Normal, cur, out)
                } else {
                    tok(s.skip(1), Mode::Single, cur.push(c), out)
                }
            },
            Mode::Double => {
                if c == '"' {
                    tok(s.skip(1), Mode::Normal, cur, out)
                } else if c == '\\' && s.len() >= 2 && (s[1] == '\\' || s[1] == '"') {
                    // inside double quotes a backslash escapes only \ and "
                    tok(s.skip(2), Mode::Double, cur.push(s[1]), out)
                } else {
                    tok(s.skip(1), Mode::Double, cur.push(c), out)
                }
            },
        }
    }
}

/// The token sequence of an input line.  Every input produces a sequence;
/// tokenizing has no failure mode.
pub open spec fn tokenize(s: Seq<char>) -> Seq<Seq<char>> {
    tok(s, Mode::Normal, Seq::empty(), Seq::empty())
}

/// Splits the input line into word tokens according to the quote and escape
/// rules above.
pub fn process_input(input: &str) -> (tokens: Vec<String>)
    ensures
        tokens.deep_view() == tokenize(input@),
{
    let n = input.unicode_len();
    let mut i: usize = 0;
    let mut mode = Mode::Normal;
    let mut cur = String::new();
    let mut out: Vec<String> = Vec::new();
    proof {
        assert(input@.skip(0) =~= input@);
        assert(out.deep_view() =~= Seq::<Seq<char>>::empty());
    }
    while i < n
        invariant
            n == input@.len(),
            i <= n,
            tokenize(input@) == tok(input@.skip(i as int), mode, cur@, out.deep_view()),
        decreases n - i,
    {
        let ghost pre = input@.skip(i as int);
        proof {
            assert(pre.len() == n - i);
            assert(pre[0] == input@[i as int]);
            assert(pre.skip(1) =~= input@.skip(i as int + 1));
            if pre.len() >= 2 {
                assert(pre[1] == input@[i as int + 1]);
                assert(pre.skip(2) =~= input@.skip(i as int + 2));
            }
        }
        let c = input.get_char(i);
        match mode {
            Mode::Normal => {
                if c == '\\' {
                    if i + 1 < n {
                        let d = input.get_char(i + 1);
                        cur.push(d);
                        i += 2;
                    } else {
                        cur.push('\\');
                        i += 1;
                    }
                } else if c == '\'' {
                    mode = Mode::Single;
                    i += 1;
                } else if c == '"' {
                    mode = Mode::Double;
                    i += 1;
                } else if is_blank_char(c) {
                    if !cur.as_str().is_empty() {
                        let ghost old_out = out.deep_view();
                        let ghost done = cur@;
                        out.push(cur);
                        cur = String::new();
                        proof {
                            assert(out.deep_view() =~= old_out.push(done));
                        }
                    }
                    i += 1;
                } else {
                    cur.push(c);
                    i += 1;
                }
            },
            Mode::Single => {
                if c == '\'' {
                    mode = Mode::Normal;
                } else {
                    cur.push(c);
                }
                i += 1;
            },
            Mode::Double => {
                if c == '"' {
                    mode = Mode::Normal;
                    i += 1;
                } else if c == '\\' && i + 1 < n {
                    let d = input.get_char(i + 1);
                    if d == '\\' || d == '"' {
                        cur.push(d);
                        i += 2;
                    } else {
                        cur.push('\\');
                        i += 1;
                    }
                } else {
                    cur.push(c);
                    i += 1;
                }
            },
        }
    }
    proof {
        assert(input@.skip(n as int).len() == 0);
    }
    if !cur.as_str().is_empty() {
        let ghost old_out = out.deep_view();
        let ghost done = cur@;
        out.push(cur);
        proof {
            assert(out.deep_view() =~= old_out.push(done));
        }
    }
    out
}

/// Holds when every sequence in `ts` has at least one character.
pub open spec fn all_nonempty(ts: Seq<Seq<char>>) -> bool {
    forall|i: int| 0 <= i < ts.len() ==> #[trigger] ts[i].len() > 0
}

proof fn lemma_all_nonempty_push(ts: Seq<Seq<char>>, x: Seq<char>)
    requires
        all_nonempty(ts),
        x.len() > 0,
    ensures
        all_nonempty(ts.push(x)),
{
    assert forall|i: int| 0 <= i < ts.push(x).len() implies #[trigger] ts.push(x)[i].len()
        > 0 by {
        if i < ts.len() {
            assert(ts.push(x)[i] == ts[i]);
        } else {
            assert(ts.push(x)[i] == x);
        }
    }
}

proof fn lemma_tok_tokens_nonempty(s: Seq<char>, mode: Mode, cur: Seq<char>, out: Seq<Seq<char>>)
    requires
        all_nonempty(out),
    ensures
        all_nonempty(tok(s, mode, cur, out)),
    decreases s.len(),
{
    if s.len() == 0 {
        if cur.len() > 0 {
            lemma_all_nonempty_push(out, cur);
        }
    } else {
        let c = s[0];
        match mode {
            Mode::Normal => {
                if c == '\\' {
                    if s.len() >= 2 {
                        lemma_tok_tokens_nonempty(s.skip(2), Mode::Normal, cur.push(s[1]), out);
                    } else {
                        lemma_tok_tokens_nonempty(s.skip(1), Mode::Normal, cur.push('\\'), out);
                    }
                } else if c == '\'' {
                    lemma_tok_tokens_nonempty(s.skip(1), Mode::Single, cur, out);
                } else if c == '"' {
                    lemma_tok_tokens_nonempty(s.skip(1), Mode::Double, cur, out);
                } else if is_blank(c) {
                    if cur.len() > 0 {
                        lemma_all_nonempty_push(out, cur);
                        lemma_tok_tokens_nonempty(s.skip(1), Mode::Normal, Seq::empty(), out.push(cur));
                    } else {
                        lemma_tok_tokens_nonempty(s.skip(1), Mode::Normal, cur, out);
                    }
                } else {
                    lemma_tok_tokens_nonempty(s.skip(1), Mode::Normal, cur.push(c), out);
                }
            },
            Mode::Single => {
                if c == '\'' {
                    lemma_tok_tokens_nonempty(s.skip(1), Mode::Normal, cur, out);
                } else {
                    lemma_tok_tokens_nonempty(s.skip(1), Mode::Single, cur.push(c), out);
                }
            },
            Mode::Double => {
                if c == '"' {
                    lemma_tok_tokens_nonempty(s.skip(1), Mode::Normal, cur, out);
                } else if c == '\\' && s.len() >= 2 && (s[1] == '\\' || s[1] == '"') {
                    lemma_tok_tokens_nonempty(s.skip(2), Mode::Double, cur.push(s[1]), out);
                } else {
                    lemma_tok_tokens_nonempty(s.skip(1), Mode::Double, cur.push(c), out);
                }
            },
        }
    }
}

/// Every token of any input line is nonempty: a separator emits a token only
/// when characters were gathered, and so does the end of input.
pub proof fn lemma_tokens_nonempty(s: Seq<char>)
    ensures
        all_nonempty(tokenize(s)),
{
    lemma_tok_tokens_nonempty(s, Mode::Normal, Seq::empty(), Seq::empty());
}

proof fn lemma_tok_blank_input(s: Seq<char>, out: Seq<Seq<char>>)
    requires
        forall|i: int| 0 <= i < s.len() ==> is_blank(#[trigger] s[i]),
    ensures
        tok(s, Mode::Normal, Seq::empty(), out) == out,
    decreases s.len(),
{
    if s.len() > 0 {
        assert(is_blank(s[0]));
        assert(!(s[0] == '\\') && !(s[0] == '\'') && !(s[0] == '"'));
        assert(forall|i: int| 0 <= i < s.skip(1).len() ==> s.skip(1)[i] == s[i + 1]);
        lemma_tok_blank_input(s.skip(1), out);
    }
}

/// An empty or all-blank input line yields no token at all.
pub proof fn lemma_blank_input_no_tokens(s: Seq<char>)
    requires
        forall|i: int| 0 <= i < s.len() ==> is_blank(#[trigger] s[i]),
    ensures
        tokenize(s) == Seq::<Seq<char>>::empty(),
{
    lemma_tok_blank_input(s, Seq::empty());
}

} // verus!

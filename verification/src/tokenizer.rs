//! The input tokenizer: splits a raw command line into arguments, honouring
//! single quotes, double quotes and backslash escapes.
//!
//! The rules, applied one character at a time:
//! - An argument boundary is an unquoted, unescaped space. Runs of such spaces
//!   collapse: no empty argument is ever produced, and a quoted pair that
//!   contributes no characters produces no argument either.
//! - Single quotes preserve everything between them literally; no character,
//!   not even a backslash, is special inside them.
//! - Double quotes preserve spaces and single quotes literally. A backslash
//!   inside double quotes escapes a double quote or another backslash (the
//!   backslash itself is dropped); before any other character it stays a
//!   literal backslash.
//! - An unquoted backslash escapes whatever character follows, including
//!   quotes and spaces.
//! - A quote left open at the end of the line is accepted silently, and a
//!   backslash with no character after it contributes nothing.

use crate::strutil::{join_spaces, push_char};
use vstd::prelude::*;

verus! {

/// The quoting context the scanner is in at a given character position.
/// At most one context is open at a time; it is never nested.
#[derive(Clone, Copy)]
pub enum QuoteContext {
    Unquoted,
    InSingleQuotes,
    InDoubleQuotes,
}

/// The whole scanner state: the open quoting context, whether a backslash
/// escape is pending, the argument being accumulated, and the arguments
/// already emitted.
pub ghost struct LexState {
    pub quote: QuoteContext,
    pub escape: bool,
    pub acc: Seq<char>,
    pub out: Seq<Seq<char>>,
}

pub open spec fn init_state() -> LexState {
    LexState {
        quote: QuoteContext::Unquoted,
        escape: false,
        acc: Seq::empty(),
        out: Seq::empty(),
    }
}

/// Append one literal character to the argument under construction.
pub open spec fn push_acc(st: LexState, c: char) -> LexState {
    LexState { quote: st.quote, escape: false, acc: st.acc.push(c), out: st.out }
}

/// End the argument under construction, if it has any characters.
pub open spec fn flush_acc(st: LexState) -> LexState {
    if st.acc.len() > 0 {
        LexState { quote: st.quote, escape: st.escape, acc: Seq::empty(), out: st.out.push(st.acc) }
    } else {
        st
    }
}

/// One step of the scanner on the next input character.
pub open spec fn lex_step(st: LexState, c: char) -> LexState {
    if st.escape {
        // A backslash is pending; this never happens inside single quotes.
        // Inside double quotes the backslash stays literal unless it escapes
        // a double quote or another backslash.
        if st.quote is InDoubleQuotes && c != '"' && c != '\\' {
            push_acc(push_acc(st, '\\'), c)
        } else {
            push_acc(st, c)
        }
    } else if c == '\'' {
        match st.quote {
            QuoteContext::Unquoted => LexState { quote: QuoteContext::InSingleQuotes, ..st },
            QuoteContext::InSingleQuotes => LexState { quote: QuoteContext::Unquoted, ..st },
            QuoteContext::InDoubleQuotes => push_acc(st, c),
        }
    } else if c == '"' {
        match st.quote {
            QuoteContext::Unquoted => LexState { quote: QuoteContext::InDoubleQuotes, ..st },
            QuoteContext::InDoubleQuotes => LexState { quote: QuoteContext::Unquoted, ..st },
            QuoteContext::InSingleQuotes => push_acc(st, c),
        }
    } else if c == '\\' {
        match st.quote {
            QuoteContext::InSingleQuotes => push_acc(st, c),
            _ => LexState { escape: true, ..st },
        }
    } else if c == ' ' {
        match st.quote {
            QuoteContext::Unquoted => flush_acc(st),
            _ => push_acc(st, c),
        }
    } else {
        push_acc(st, c)
    }
}

/// The scanner run over a whole character sequence, left to right.
pub open spec fn lex_run(st: LexState, s: Seq<char>) -> LexState
    decreases s.len(),
{
    if s.len() == 0 {
        st
    } else {
        lex_step(lex_run(st, s.drop_last()), s.last())
    }
}

/// What tokenizing a line means: run the scanner from the initial state over
/// every character, then end the argument still under construction, if any.
pub open spec fn tokenize(s: Seq<char>) -> Seq<Seq<char>> {
    flush_acc(lex_run(init_state(), s)).out
}

/// Split an input line into its arguments.
pub fn parse_input(input: &str) -> (r: Vec<String>)
    ensures
        r.deep_view() == tokenize(input@),
{
    let n: usize = input.unicode_len();
    let mut i: usize = 0;
    let mut quote = QuoteContext::Unquoted;
    let mut escape = false;
    let mut acc = String::new();
    let mut out: Vec<String> = Vec::new();
    proof {
        assert(out.deep_view() =~= init_state().out);
    }
    while i < n
        invariant
            i <= n,
            n == input@.len(),
            lex_run(init_state(), input@.take(i as int)) == (LexState {
                quote: quote,
                escape: escape,
                acc: acc@,
                out: out.deep_view(),
            }),
        decreases n - i,
    {
        let ghost st0 = lex_run(init_state(), input@.take(i as int));
        let c = input.get_char(i);
        if escape {
            let keep_backslash = (matches!(quote, QuoteContext::InDoubleQuotes)) && c != '"'
                && c != '\\';
            if keep_backslash {
                push_char(&mut acc, '\\');
            }
            push_char(&mut acc, c);
            escape = false;
        } else if c == '\'' {
            match quote {
                QuoteContext::Unquoted => {
                    quote = QuoteContext::InSingleQuotes;
                },
                QuoteContext::InSingleQuotes => {
                    quote = QuoteContext::Unquoted;
                },
                QuoteContext::InDoubleQuotes => {
                    push_char(&mut acc, c);
                },
            }
        } else if c == '"' {
            match quote {
                QuoteContext::Unquoted => {
                    quote = QuoteContext::InDoubleQuotes;
                },
                QuoteContext::InDoubleQuotes => {
                    quote = QuoteContext::Unquoted;
                },
                QuoteContext::InSingleQuotes => {
                    push_char(&mut acc, c);
                },
            }
        } else if c == '\\' {
            match quote {
                QuoteContext::InSingleQuotes => {
                    push_char(&mut acc, c);
                },
                _ => {
                    escape = true;
                },
            }
        } else if c == ' ' {
            match quote {
                QuoteContext::Unquoted => {
                    if !acc.as_str().is_empty() {
                        let ghost done = acc@;
                        out.push(acc);
                        acc = String::new();
                        proof {
                            assert(out.deep_view() =~= st0.out.push(done));
                        }
                    }
                },
                _ => {
                    push_char(&mut acc, c);
                },
            }
        } else {
            push_char(&mut acc, c);
        }
        i = i + 1;
        proof {
            assert(input@.take(i as int).drop_last() =~= input@.take(i as int - 1));
            assert(input@.take(i as int).last() == c);
            assert(lex_run(init_state(), input@.take(i as int)) == lex_step(st0, c));
        }
    }
    proof {
        assert(input@.take(n as int) =~= input@);
    }
    let ghost st_end = lex_run(init_state(), input@);
    if !acc.as_str().is_empty() {
        let ghost done = acc@;
        out.push(acc);
        proof {
            assert(out.deep_view() =~= st_end.out.push(done));
        }
        return out;
    }
    out
}

/// A character with no special meaning anywhere: not a space, a quote of
/// either kind, or a backslash.
pub open spec fn plain_char(c: char) -> bool {
    c != ' ' && c != '\'' && c != '"' && c != '\\'
}

/// An argument that joining and re-tokenizing can reproduce: non-empty and
/// made of plain characters only.
pub open spec fn plain_token(t: Seq<char>) -> bool {
    t.len() > 0 && forall|j: int| 0 <= j < t.len() ==> plain_char(t[j])
}

/// The scanner processes a concatenation piecewise.
proof fn lemma_lex_run_concat(st: LexState, a: Seq<char>, b: Seq<char>)
    ensures
        lex_run(st, a + b) == lex_run(lex_run(st, a), b),
    decreases b.len(),
{
    if b.len() == 0 {
        assert(a + b =~= a);
    } else {
        lemma_lex_run_concat(st, a, b.drop_last());
        assert((a + b).drop_last() =~= a + b.drop_last());
        assert((a + b).last() == b.last());
    }
}

/// Over plain characters the scanner stays unquoted and only accumulates.
proof fn lemma_lex_run_plain(st: LexState, w: Seq<char>)
    requires
        st.quote is Unquoted,
        !st.escape,
        forall|j: int| 0 <= j < w.len() ==> plain_char(w[j]),
    ensures
        lex_run(st, w) == (LexState {
            quote: QuoteContext::Unquoted,
            escape: false,
            acc: st.acc + w,
            out: st.out,
        }),
    decreases w.len(),
{
    if w.len() == 0 {
        assert(st.acc + w =~= st.acc);
    } else {
        lemma_lex_run_plain(st, w.drop_last());
        assert(plain_char(w.last()));
        assert(st.acc + w =~= (st.acc + w.drop_last()).push(w.last()));
    }
}

/// After scanning plain tokens joined by single spaces, every token but the
/// last has been emitted and the last sits in the accumulator.
proof fn lemma_lex_run_join(ts: Seq<Seq<char>>)
    requires
        ts.len() > 0,
        forall|i: int| 0 <= i < ts.len() ==> plain_token(ts[i]),
    ensures
        lex_run(init_state(), join_spaces(ts)) == (LexState {
            quote: QuoteContext::Unquoted,
            escape: false,
            acc: ts.last(),
            out: ts.drop_last(),
        }),
    decreases ts.len(),
{
    if ts.len() == 1 {
        assert(plain_token(ts[0]));
        lemma_lex_run_plain(init_state(), ts[0]);
        assert(Seq::<char>::empty() + ts[0] =~= ts[0]);
        assert(ts.drop_last() =~= Seq::<Seq<char>>::empty());
    } else {
        let dl = ts.drop_last();
        assert(forall|i: int| 0 <= i < dl.len() ==> dl[i] == ts[i] && plain_token(ts[i]));
        lemma_lex_run_join(dl);
        let st1 = lex_run(init_state(), join_spaces(dl));
        assert(join_spaces(ts) =~= join_spaces(dl) + (seq![' '] + ts.last()));
        lemma_lex_run_concat(init_state(), join_spaces(dl), seq![' '] + ts.last());
        lemma_lex_run_concat(st1, seq![' '], ts.last());
        assert(seq![' '].len() == 1);
        assert(seq![' '].drop_last() =~= Seq::<char>::empty());
        assert(seq![' '].last() == ' ');
        let st2 = lex_run(st1, seq![' ']);
        assert(lex_run(st1, Seq::<char>::empty()) == st1);
        assert(st2 == lex_step(st1, ' '));
        assert(plain_token(dl.last()));
        assert(st2 == flush_acc(st1));
        assert(st1.out.push(st1.acc) =~= dl);
        lemma_lex_run_plain(st2, ts.last());
        assert(Seq::<char>::empty() + ts.last() =~= ts.last());
    }
}

/// The restricted round-trip law: a sequence of arguments, each non-empty and
/// free of spaces, quotes and backslashes, is reproduced exactly by
/// tokenizing the line that joins them with single spaces. A token holding a
/// space, a quote or a backslash would be re-read as shell syntax, so such
/// sequences are left out.
pub proof fn lemma_tokenize_round_trip(ts: Seq<Seq<char>>)
    requires
        forall|i: int| 0 <= i < ts.len() ==> plain_token(ts[i]),
    ensures
        tokenize(join_spaces(ts)) == ts,
{
    if ts.len() == 0 {
        assert(tokenize(join_spaces(ts)) =~= ts);
    } else {
        lemma_lex_run_join(ts);
        assert(ts.drop_last().push(ts.last()) =~= ts);
    }
}

/// Whether every emitted argument has at least one character.
pub open spec fn all_nonempty(out: Seq<Seq<char>>) -> bool {
    forall|i: int| 0 <= i < out.len() ==> out[i].len() > 0
}

proof fn lemma_lex_run_nonempty(st: LexState, s: Seq<char>)
    requires
        all_nonempty(st.out),
    ensures
        all_nonempty(lex_run(st, s).out),
    decreases s.len(),
{
    if s.len() > 0 {
        lemma_lex_run_nonempty(st, s.drop_last());
        let st1 = lex_run(st, s.drop_last());
        let st2 = lex_step(st1, s.last());
        assert(st2.out == st1.out || st2.out == st1.out.push(st1.acc));
        if st2.out != st1.out {
            assert(st1.acc.len() > 0);
            assert forall|i: int| 0 <= i < st2.out.len() implies st2.out[i].len() > 0 by {
                if i < st1.out.len() {
                    assert(st1.out[i].len() > 0);
                }
            }
        }
    }
}

/// Tokenizing never produces an empty argument: runs of separators collapse
/// and quoted pairs that contribute no characters emit nothing.
pub proof fn lemma_tokenize_no_empty_token(s: Seq<char>)
    ensures
        all_nonempty(tokenize(s)),
{
    lemma_lex_run_nonempty(init_state(), s);
    let st = lex_run(init_state(), s);
    if flush_acc(st).out != st.out {
        assert forall|i: int| 0 <= i < flush_acc(st).out.len() implies flush_acc(
            st,
        ).out[i].len() > 0 by {
            if i < st.out.len() {
                assert(st.out[i].len() > 0);
            }
        }
    }
}

} // verus!

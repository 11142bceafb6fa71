//! Splitting one input line into whitespace-delimited tokens, and joining
//! tokens back with single spaces.

use vstd::prelude::*;
use crate::is_space;
use crate::space_char;

verus! {

/// The token sequence of a line: maximal runs of non-whitespace characters,
/// in order; whitespace is discarded and every token is non-empty.
pub open spec fn tokens_of(s: Seq<char>) -> Seq<Seq<char>>
    decreases s.len(),
{
    if s.len() == 0 {
        Seq::empty()
    } else if is_space(s[0]) {
        tokens_of(s.drop_first())
    } else if s.len() == 1 || is_space(s[1]) {
        seq![seq![s[0]]] + tokens_of(s.drop_first())
    } else {
        let rest = tokens_of(s.drop_first());
        seq![seq![s[0]] + rest[0]] + rest.drop_first()
    }
}

/// The tokens joined back into one line, with a single space between
/// consecutive tokens and none at either end.
pub open spec fn join_spec(ts: Seq<Seq<char>>) -> Seq<char>
    decreases ts.len(),
{
    if ts.len() == 0 {
        Seq::empty()
    } else if ts.len() == 1 {
        ts[0]
    } else {
        ts[0] + seq![' '] + join_spec(ts.drop_first())
    }
}

/// A well-formed token: non-empty, with no whitespace inside.
pub open spec fn wf_token(t: Seq<char>) -> bool {
    t.len() > 0 && (forall|i: int| 0 <= i < t.len() ==> !is_space(#[trigger] t[i]))
}

/// A well-formed token sequence: every token well-formed.
pub open spec fn wf_tokens(ts: Seq<Seq<char>>) -> bool {
    forall|k: int| 0 <= k < ts.len() ==> wf_token(#[trigger] ts[k])
}

/// Tokenizing a line that starts with a well-formed token, followed by
/// nothing or by whitespace, yields that token and then the tokens of the
/// remainder.
proof fn lemma_token_prefix(t: Seq<char>, s: Seq<char>)
    requires
        wf_token(t),
        s.len() == 0 || is_space(s[0]),
    ensures
        tokens_of(t + s) == seq![t] + tokens_of(s),
    decreases t.len(),
{
    let w = t + s;
    assert(!is_space(w[0]));
    if t.len() == 1 {
        assert(w.drop_first() =~= s);
        if s.len() == 0 {
            assert(w.len() == 1);
            assert(tokens_of(w) == seq![seq![w[0]]] + tokens_of(s));
        } else {
            assert(is_space(w[1]));
            assert(tokens_of(w) == seq![seq![w[0]]] + tokens_of(s));
        }
        assert(seq![w[0]] =~= t);
        assert(seq![seq![w[0]]] =~= seq![t]);
    } else {
        assert(w[1] == t[1]);
        assert(!is_space(w[1]));
        assert(w.drop_first() =~= t.drop_first() + s);
        lemma_token_prefix(t.drop_first(), s);
        let rest = tokens_of(w.drop_first());
        assert(rest == seq![t.drop_first()] + tokens_of(s));
        assert(rest[0] == t.drop_first());
        assert(rest.drop_first() =~= tokens_of(s));
        assert(seq![w[0]] + rest[0] =~= t);
        assert(tokens_of(w) == seq![seq![w[0]] + rest[0]] + rest.drop_first());
        assert(seq![seq![w[0]] + rest[0]] =~= seq![t]);
    }
}

/// Every token produced by `tokens_of` is well-formed, and a line that
/// starts with a non-space character yields a first token starting with it.
proof fn lemma_tokens_of_wf(s: Seq<char>)
    ensures
        wf_tokens(tokens_of(s)),
        s.len() > 0 && !is_space(s[0]) ==> tokens_of(s).len() > 0 && tokens_of(s)[0].len() > 0
            && tokens_of(s)[0][0] == s[0],
    decreases s.len(),
{
    if s.len() == 0 {
    } else if is_space(s[0]) {
        lemma_tokens_of_wf(s.drop_first());
    } else if s.len() == 1 || is_space(s[1]) {
        lemma_tokens_of_wf(s.drop_first());
        let r = tokens_of(s);
        assert(r == seq![seq![s[0]]] + tokens_of(s.drop_first()));
        assert(wf_token(seq![s[0]]));
        assert forall|k: int| 0 <= k < r.len() implies wf_token(#[trigger] r[k]) by {
            if k > 0 {
                assert(r[k] == tokens_of(s.drop_first())[k - 1]);
            }
        }
    } else {
        lemma_tokens_of_wf(s.drop_first());
        let d = s.drop_first();
        assert(d[0] == s[1] && !is_space(d[0]));
        let rest = tokens_of(d);
        let first = seq![s[0]] + rest[0];
        let r = tokens_of(s);
        assert(r == seq![first] + rest.drop_first());
        assert(wf_token(rest[0]));
        assert forall|i: int| 0 <= i < first.len() implies !is_space(#[trigger] first[i]) by {
            if i > 0 {
                assert(first[i] == rest[0][i - 1]);
            }
        }
        assert(wf_token(first));
        assert forall|k: int| 0 <= k < r.len() implies wf_token(#[trigger] r[k]) by {
            if k > 0 {
                assert(r[k] == rest.drop_first()[k - 1]);
                assert(rest.drop_first()[k - 1] == rest[k]);
            }
        }
        assert(r[0][0] == s[0]);
    }
}

/// Tokenizing is left inverse to joining: rejoining a sequence of
/// well-formed tokens with single spaces and tokenizing the result gives
/// back exactly the same token sequence.
pub proof fn lemma_tokens_of_join(ts: Seq<Seq<char>>)
    requires
        wf_tokens(ts),
    ensures
        tokens_of(join_spec(ts)) == ts,
    decreases ts.len(),
{
    if ts.len() == 0 {
    } else if ts.len() == 1 {
        assert(wf_token(ts[0]));
        lemma_token_prefix(ts[0], Seq::empty());
        assert(ts[0] + Seq::<char>::empty() =~= ts[0]);
        assert(tokens_of(join_spec(ts)) == seq![ts[0]] + tokens_of(Seq::<char>::empty()));
        assert(seq![ts[0]] + tokens_of(Seq::<char>::empty()) =~= ts);
    } else {
        assert(wf_token(ts[0]));
        assert(forall|k: int| 0 <= k < ts.drop_first().len() ==> #[trigger] ts.drop_first()[k]
            == ts[k + 1]);
        assert(wf_tokens(ts.drop_first()));
        lemma_tokens_of_join(ts.drop_first());
        let tail = seq![' '] + join_spec(ts.drop_first());
        assert(join_spec(ts) =~= ts[0] + tail);
        lemma_token_prefix(ts[0], tail);
        assert(tokens_of(join_spec(ts)) == seq![ts[0]] + tokens_of(tail));
        assert(is_space(tail[0]));
        assert(tail.drop_first() =~= join_spec(ts.drop_first()));
        assert(tokens_of(tail) == tokens_of(join_spec(ts.drop_first())));
        assert(seq![ts[0]] + ts.drop_first() =~= ts);
    }
}

/// Splits a line into its whitespace-delimited tokens.
pub fn tokenize(line: &str) -> (toks: Vec<String>)
    ensures
        toks.deep_view() == tokens_of(line@),
        wf_tokens(toks.deep_view()),
{
    let n = line.unicode_len();
    let mut toks: Vec<String> = Vec::new();
    let mut i: usize = 0;
    proof {
        assert(line@.skip(0) =~= line@);
        assert(toks.deep_view() + tokens_of(line@) =~= tokens_of(line@));
    }
    while i < n
        invariant
            n == line@.len(),
            i <= n,
            toks.deep_view() + tokens_of(line@.skip(i as int)) =~= tokens_of(line@),
        decreases n - i,
    {
        let c = line.get_char(i);
        if space_char(c) {
            proof {
                let rem = line@.skip(i as int);
                assert(rem[0] == line@[i as int]);
                assert(rem.drop_first() =~= line@.skip(i as int + 1));
                assert(tokens_of(rem) == tokens_of(line@.skip(i as int + 1)));
            }
            i = i + 1;
        } else {
            let ghost prev = toks.deep_view();
            let start = i;
            let mut j = i + 1;
            while j < n && !space_char(line.get_char(j))
                invariant
                    n == line@.len(),
                    start < j <= n,
                    forall|k: int| start <= k < j ==> !is_space(#[trigger] line@[k]),
                decreases n - j,
            {
                j = j + 1;
            }
            let tok = line.substring_char(start, j);
            toks.push(String::from_str(tok));
            proof {
                let t = line@.subrange(start as int, j as int);
                let s = line@.skip(j as int);
                assert(forall|k: int| 0 <= k < t.len() ==> t[k] == line@[start + k]
                    && !is_space(#[trigger] t[k]));
                assert(wf_token(t));
                assert(j < n ==> is_space(s[0]));
                lemma_token_prefix(t, s);
                assert(line@.skip(start as int) =~= t + s);
                assert(tokens_of(line@.skip(start as int)) == seq![t] + tokens_of(s));
                assert(toks.deep_view() =~= prev.push(t));
                assert(prev.push(t) + tokens_of(s) =~= prev + (seq![t] + tokens_of(s)));
            }
            i = j;
        }
    }
    proof {
        assert(line@.skip(n as int) =~= Seq::<char>::empty());
        assert(toks.deep_view() + tokens_of(line@.skip(n as int)) =~= toks.deep_view());
        lemma_tokens_of_wf(line@);
    }
    toks
}

/// Appending one more token to a non-empty sequence joins with a single
/// separating space at the end.
proof fn lemma_join_push(ts: Seq<Seq<char>>, t: Seq<char>)
    requires
        ts.len() >= 1,
    ensures
        join_spec(ts.push(t)) == join_spec(ts) + seq![' '] + t,
    decreases ts.len(),
{
    if ts.len() == 1 {
        let p = ts.push(t);
        assert(p.drop_first() =~= seq![t]);
        assert(join_spec(p.drop_first()) == t);
        assert(join_spec(p) == p[0] + seq![' '] + t);
        assert(p[0] == ts[0]);
        assert(join_spec(ts) == ts[0]);
    } else {
        let p = ts.push(t);
        assert(p.drop_first() =~= ts.drop_first().push(t));
        lemma_join_push(ts.drop_first(), t);
        assert(join_spec(p) == p[0] + seq![' '] + (join_spec(ts.drop_first()) + seq![' '] + t));
        assert(p[0] == ts[0]);
        assert(ts[0] + seq![' '] + (join_spec(ts.drop_first()) + seq![' '] + t) =~= (ts[0]
            + seq![' '] + join_spec(ts.drop_first())) + seq![' '] + t);
    }
}

/// Joins the tokens from position `from` onward into one line with single
/// spaces between them.
pub fn join_from(tokens: &Vec<&str>, from: usize) -> (r: String)
    requires
        from <= tokens@.len(),
    ensures
        r@ == join_spec(tokens.deep_view().skip(from as int)),
{
    let ghost whole = tokens.deep_view().skip(from as int);
    let mut r = String::new();
    let mut i = from;
    while i < tokens.len()
        invariant
            from <= i <= tokens@.len(),
            whole == tokens.deep_view().skip(from as int),
            r@ == join_spec(tokens.deep_view().subrange(from as int, i as int)),
        decreases tokens@.len() - i,
    {
        let ghost sofar = tokens.deep_view().subrange(from as int, i as int);
        if i > from {
            r.append(" ");
        }
        r.append(tokens[i]);
        proof {
            let next = tokens.deep_view().subrange(from as int, i as int + 1);
            assert(next =~= sofar.push(tokens.deep_view()[i as int]));
            if i > from {
                reveal_strlit(" ");
                lemma_join_push(sofar, tokens.deep_view()[i as int]);
                assert(r@ =~= join_spec(sofar) + seq![' '] + tokens.deep_view()[i as int]);
            } else {
                assert(sofar.len() == 0);
                assert(r@ =~= tokens.deep_view()[i as int]);
                assert(join_spec(next) == next[0]);
            }
        }
        i = i + 1;
    }
    proof {
        assert(tokens.deep_view().subrange(from as int, tokens@.len() as int) =~= whole);
    }
    r
}

} // verus!

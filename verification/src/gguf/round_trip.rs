//! What a tokenizer keeps of a model file, and what becomes of a text on its way through tokens.

use vstd::prelude::*;
use vstd::string::*;

use crate::gguf::tokenizer::{
    bos_of, decoded, marked, put_together, split_merge, split_merges, text_of_tokens, token_of,
    tokenizer_of, tokens_of, unmarked, with_token, BuildV, TokenType, TokenizerMeta, TokenizerV,
};
use crate::text::{find, lemma_find, occurs_at, texts};

verus! {

/// Texts one behind the other.
pub open spec fn strung(parts: Seq<Seq<char>>) -> Seq<char>
    decreases parts.len(),
{
    if parts.len() == 0 {
        Seq::empty()
    } else {
        strung(parts.drop_last()) + parts.last()
    }
}

/// A text with every space replaced by the mark.
pub open spec fn spaces_marked(s: Seq<char>) -> Seq<char> {
    s.map_values(
        |c: char|
            if c == ' ' {
                '\u{2581}'
            } else {
                c
            },
    )
}

/// A text with every mark replaced by a space.
pub open spec fn marks_spaced(s: Seq<char>) -> Seq<char> {
    s.map_values(
        |c: char|
            if c == '\u{2581}' {
                ' '
            } else {
                c
            },
    )
}

/// What of a text is neither a space nor the mark.
pub open spec fn solid(s: Seq<char>) -> Seq<char> {
    s.filter(|c: char| c != ' ' && c != '\u{2581}')
}

/// The two parts of a merge with a space between them.
pub open spec fn merge_text(p: (Seq<char>, Seq<char>)) -> Seq<char> {
    p.0.push(' ') + p.1
}

/// The tokens among the first `n` that the file marks as control or user-defined tokens.
pub open spec fn whole_tokens(tokens: Seq<Seq<char>>, types: Seq<TokenType>, n: nat) -> Seq<
    Seq<char>,
> {
    Seq::new(n, |i: int| i).filter(
        |i: int| i < types.len() && (types[i] is Control || types[i] is UserDefined),
    ).map_values(|i: int| tokens[i])
}

proof fn lemma_whole_tokens(tokens: Seq<Seq<char>>, types: Seq<TokenType>, n: nat)
    requires
        n <= tokens.len(),
    ensures
        marked(tokens.take(n as int), types) == whole_tokens(tokens, types, n),
    decreases n,
{
    reveal(Seq::filter);
    let all = Seq::new(n, |i: int| i);
    let keep = |i: int| i < types.len() && (types[i] is Control || types[i] is UserDefined);
    if n == 0 {
        assert(all.filter(keep) =~= Seq::<int>::empty());
        assert(whole_tokens(tokens, types, n) =~= Seq::<Seq<char>>::empty());
    } else {
        let m = (n - 1) as nat;
        let t = tokens.take(n as int);
        lemma_whole_tokens(tokens, types, m);
        assert(all.drop_last() =~= Seq::new(m, |i: int| i));
        assert(t.drop_last() =~= tokens.take(m as int));
        assert(t.last() == tokens[n - 1]);
        assert(all.last() == n - 1);
        let before = Seq::new(m, |i: int| i).filter(keep);
        if keep(n - 1) {
            assert(all.filter(keep) =~= before.push(n - 1));
            assert(whole_tokens(tokens, types, n) =~= whole_tokens(tokens, types, m).push(
                tokens[n - 1],
            ));
        } else {
            assert(all.filter(keep) =~= before);
        }
    }
}

/// A merge with a space is split at its first one.
proof fn lemma_split_merge(m: Seq<char>)
    ensures
        split_merge(m) is Some == m.contains(' '),
        split_merge(m) matches Some(p) ==> merge_text(p) == m && !p.0.contains(' '),
{
    reveal_strlit(" ");
    lemma_find(m, " "@, 0);
    match find(m, " "@, 0) {
        Some(i) => {
            assert(m.subrange(i, i + 1)[0] == " "@[0]);
            assert(m[i] == ' ');
            assert(merge_text((m.take(i), m.skip(i + 1))) =~= m);
            if m.take(i).contains(' ') {
                let k = choose|k: int| 0 <= k < i && m.take(i)[k] == ' ';
                assert(m.subrange(k, k + 1) =~= " "@);
                assert(occurs_at(m, " "@, k));
            }
        },
        None => {
            if m.contains(' ') {
                let k = choose|k: int| 0 <= k < m.len() && m[k] == ' ';
                assert(m.subrange(k, k + 1) =~= " "@);
                assert(occurs_at(m, " "@, k));
            }
        },
    }
}

proof fn lemma_split_merges(m: Seq<Seq<char>>)
    ensures
        split_merges(m).map_values(|p: (Seq<char>, Seq<char>)| merge_text(p)) == m.filter(
            |s: Seq<char>| s.contains(' '),
        ),
        forall|i: int| 0 <= i < split_merges(m).len() ==> !(#[trigger] split_merges(m)[i]).0.contains(
            ' ',
        ),
    decreases m.len(),
{
    reveal(Seq::filter);
    let f = |p: (Seq<char>, Seq<char>)| merge_text(p);
    let keep = |s: Seq<char>| s.contains(' ');
    if m.len() == 0 {
        assert(m.filter(keep) =~= Seq::<Seq<char>>::empty());
        assert(split_merges(m).map_values(f) =~= Seq::<Seq<char>>::empty());
    } else {
        lemma_split_merges(m.drop_last());
        lemma_split_merge(m.last());
        let before = split_merges(m.drop_last());
        match split_merge(m.last()) {
            Some(p) => {
                assert(before.push(p).map_values(f) =~= before.map_values(f).push(m.last()));
                assert(m.filter(keep) =~= m.drop_last().filter(keep).push(m.last()));
            },
            None => {
                assert(m.filter(keep) =~= m.drop_last().filter(keep));
            },
        }
    }
}

/// A tokenizer has just what its file says. Token number `i` is the `i`-th of the file; the merges
/// are those with a space, split at the first one, in order; tokens of control and user-defined
/// types are taken whole; text is split and put together by one mark and one rule, with a space in
/// front only where the file asks for it; and texts begin with the file's first token unless it
/// does not want one.
pub proof fn lemma_tokenizer_keeps_the_file(m: TokenizerMeta, v: TokenizerV)
    requires
        tokenizer_of(m) == BuildV::Made(v),
    ensures
        m.tokens matches Some(t) && v.tokens == t@.map_values(|s: String| s@),
        v.split_by == Some(('\u{2581}', m.add_space_prefix == Some(true))),
        v.joined_by == v.split_by,
        m.merges matches Some(g) && v.merges.map_values(
            |p: (Seq<char>, Seq<char>)| merge_text(p),
        ) == g@.map_values(|s: String| s@).filter(|s: Seq<char>| s.contains(' ')),
        forall|i: int| 0 <= i < v.merges.len() ==> !(#[trigger] v.merges[i]).0.contains(' '),
        v.specials == (match m.token_types {
            Some(t) => whole_tokens(v.tokens, t@, v.tokens.len()),
            None => Seq::empty(),
        }),
        v.unk == (match m.unknown_token_id {
            Some(i) => if i < v.tokens.len() {
                v.tokens[i as int]
            } else {
                seq!['<', 'u', 'n', 'k', '>']
            },
            None => seq!['<', 'u', 'n', 'k', '>'],
        }),
        v.byte_fallback && v.fuse_unk,
        v.pattern == (match m.bos_token_id {
            Some(i) => if i < v.tokens.len() && m.add_bos_token != Some(false) {
                Some((v.tokens[i as int] + seq![' ', '$', 'A'], v.tokens[i as int], i))
            } else {
                None
            },
            None => None,
        }),
{
    reveal_strlit("<unk>");
    reveal_strlit(" $A");
    assert("<unk>"@ =~= seq!['<', 'u', 'n', 'k', '>']);
    assert(" $A"@ =~= seq![' ', '$', 'A']);
    let g = texts(m.merges->0@);
    lemma_split_merges(g);
    lemma_whole_tokens(v.tokens, m.token_types->0@, v.tokens.len());
    assert(v.tokens.take(v.tokens.len() as int) =~= v.tokens);
    assert(bos_of(m, v.tokens) is None ==> v.pattern is None);
}

/// The tokens of numbers that all have one.
pub open spec fn named(v: TokenizerV, ids: Seq<u32>) -> Seq<Seq<char>> {
    ids.map_values(|id: u32| token_of(v, id)->0)
}

pub open spec fn all_named(v: TokenizerV, ids: Seq<u32>) -> bool {
    forall|i: int| 0 <= i < ids.len() ==> token_of(v, #[trigger] ids[i]) is Some
}

proof fn lemma_unmarked(t: Seq<char>)
    ensures
        unmarked(t, '\u{2581}', false) == marks_spaced(t),
    decreases t.len(),
{
    if t.len() > 0 {
        lemma_unmarked(t.drop_last());
        assert(marks_spaced(t) =~= marks_spaced(t.drop_last()).push(marks_spaced(t).last()));
    } else {
        assert(marks_spaced(t) =~= t);
    }
}

proof fn lemma_tokens_of(v: TokenizerV, ids: Seq<u32>)
    requires
        all_named(v, ids),
    ensures
        tokens_of(v, ids, false) == named(v, ids),
    decreases ids.len(),
{
    if ids.len() > 0 {
        let t = ids.drop_last();
        assert forall|i: int| 0 <= i < t.len() implies token_of(v, #[trigger] t[i]) is Some by {
            assert(t[i] == ids[i]);
        }
        lemma_tokens_of(v, t);
        assert(ids.last() == ids[ids.len() - 1]);
        assert(named(v, ids) =~= named(v, t).push(token_of(v, ids.last())->0));
    } else {
        assert(named(v, ids) =~= Seq::<Seq<char>>::empty());
    }
}

proof fn lemma_put_together(tokens: Seq<Seq<char>>)
    ensures
        put_together(tokens, '\u{2581}', false) == marks_spaced(strung(tokens)),
    decreases tokens.len(),
{
    if tokens.len() > 0 {
        lemma_put_together(tokens.drop_last());
        lemma_unmarked(tokens.last());
        assert(marks_spaced(strung(tokens)) =~= marks_spaced(strung(tokens.drop_last()))
            + marks_spaced(tokens.last()));
    } else {
        assert(marks_spaced(strung(tokens)) =~= Seq::<char>::empty());
    }
}

/// One token by itself.
proof fn lemma_one(v: TokenizerV, id: u32)
    ensures
        tokens_of(v, seq![id], false) == (match token_of(v, id) {
            Some(t) => seq![t],
            None => Seq::empty(),
        }),
{
    let one = seq![id];
    assert(one.drop_last() =~= Seq::<u32>::empty());
    assert(tokens_of(v, one.drop_last(), false) =~= Seq::<Seq<char>>::empty());
    assert(one.last() == id);
    if token_of(v, id) is Some {
        assert(Seq::<Seq<char>>::empty().push(token_of(v, id)->0) =~= seq![token_of(v, id)->0]);
    }
}

proof fn lemma_one_together(t: Seq<char>, first: bool)
    ensures
        put_together(seq![t], '\u{2581}', first) == unmarked(t, '\u{2581}', first),
{
    let one = seq![t];
    assert(one.drop_last() =~= Seq::<Seq<char>>::empty());
    assert(put_together(one.drop_last(), '\u{2581}', first) =~= Seq::<char>::empty());
    assert(one.last() == t);
    assert(Seq::<char>::empty() + unmarked(t, '\u{2581}', first) =~= unmarked(
        t,
        '\u{2581}',
        first,
    ));
}

proof fn lemma_text_of_tokens(v: TokenizerV, ids: Seq<u32>)
    requires
        v.joined_by == Some(('\u{2581}', false)),
        all_named(v, ids),
    ensures
        text_of_tokens(v, ids) == marks_spaced(strung(named(v, ids))),
    decreases ids.len(),
{
    if ids.len() > 0 {
        let t = ids.drop_last();
        let id = ids.last();
        assert forall|i: int| 0 <= i < t.len() implies token_of(v, #[trigger] t[i]) is Some by {
            assert(t[i] == ids[i]);
        }
        lemma_text_of_tokens(v, t);
        assert(id == ids[ids.len() - 1]);
        let tok = token_of(v, id)->0;
        lemma_one(v, id);
        lemma_one_together(tok, false);
        lemma_unmarked(tok);
        assert(decoded(v, seq![id], false) == marks_spaced(tok));
        assert(named(v, ids) =~= named(v, t).push(tok));
        assert(named(v, ids).drop_last() =~= named(v, t));
        assert(marks_spaced(strung(named(v, ids))) =~= marks_spaced(strung(named(v, t)))
            + marks_spaced(tok));
        if tok.len() == 0 {
            assert(text_of_tokens(v, t) + tok =~= text_of_tokens(v, t));
            assert(marks_spaced(tok) =~= tok);
        }
    } else {
        assert(named(v, ids) =~= Seq::<Seq<char>>::empty());
        assert(marks_spaced(strung(named(v, ids))) =~= Seq::<char>::empty());
    }
}

/// Text goes through tokens and back: where no space is put in front of texts, tokens that, one
/// behind the other, are a text with its spaces marked decode to that text, token by token as well
/// as all at once.
pub proof fn lemma_text_comes_back(m: TokenizerMeta, v: TokenizerV, ids: Seq<u32>, text: Seq<char>)
    requires
        tokenizer_of(m) == BuildV::Made(v),
        m.add_space_prefix != Some(true),
        all_named(v, ids),
        !text.contains('\u{2581}'),
        strung(named(v, ids)) == spaces_marked(text),
    ensures
        text_of_tokens(v, ids) == text,
        decoded(v, ids, false) == text,
{
    lemma_tokenizer_keeps_the_file(m, v);
    lemma_text_of_tokens(v, ids);
    lemma_tokens_of(v, ids);
    lemma_put_together(named(v, ids));
    assert forall|i: int| 0 <= i < text.len() implies marks_spaced(spaces_marked(text))[i]
        == #[trigger] text[i] by {
        assert(text.contains(text[i]));
    }
    assert(marks_spaced(spaces_marked(text)) =~= text);
}

proof fn lemma_dropped(t: Seq<char>)
    requires
        !t.contains('\u{2581}'),
    ensures
        unmarked(t, '\u{2581}', true) == t,
    decreases t.len(),
{
    if t.len() > 0 {
        assert(t.contains(t[t.len() - 1]));
        assert forall|i: int| 0 <= i < t.len() - 1 implies t.drop_last()[i] != '\u{2581}' by {
            assert(t.contains(t[i]));
        }
        lemma_dropped(t.drop_last());
        assert(t.drop_last().push(t.last()) =~= t);
    }
}

proof fn lemma_dropped_behind(t: Seq<char>)
    ensures
        unmarked(seq!['\u{2581}'] + t, '\u{2581}', true) == unmarked(t, '\u{2581}', true),
    decreases t.len(),
{
    let s = seq!['\u{2581}'] + t;
    if t.len() > 0 {
        lemma_dropped_behind(t.drop_last());
        assert(s.drop_last() =~= seq!['\u{2581}'] + t.drop_last());
        assert(s.last() == t.last());
    } else {
        assert(s.drop_last() =~= Seq::<char>::empty());
        assert(s.last() == '\u{2581}');
        assert(unmarked(s.drop_last(), '\u{2581}', true) =~= Seq::<char>::empty());
        assert(unmarked(s, '\u{2581}', true) == unmarked(s.drop_last(), '\u{2581}', true));
    }
}

proof fn lemma_put_behind_first(tokens: Seq<Seq<char>>, w: Seq<char>)
    requires
        tokens.len() > 0,
        tokens[0] == seq!['\u{2581}'] + w,
        !w.contains('\u{2581}'),
    ensures
        strung(tokens).len() > 0,
        put_together(tokens, '\u{2581}', true) == marks_spaced(strung(tokens).skip(1)),
    decreases tokens.len(),
{
    if tokens.len() == 1 {
        assert(tokens.drop_last() =~= Seq::<Seq<char>>::empty());
        assert(strung(tokens.drop_last()) =~= Seq::<char>::empty());
        assert(strung(tokens) =~= tokens[0]);
        assert(strung(tokens).skip(1) =~= w);
        lemma_dropped_behind(w);
        lemma_dropped(w);
        assert forall|i: int| 0 <= i < w.len() implies marks_spaced(w)[i] == #[trigger] w[i] by {
            assert(w.contains(w[i]));
        }
        assert(marks_spaced(w) =~= w);
        assert(Seq::<char>::empty() + w =~= w);
        assert(put_together(tokens.drop_last(), '\u{2581}', true) =~= Seq::<char>::empty());
    } else {
        let t = tokens.drop_last();
        assert(t[0] == tokens[0]);
        lemma_put_behind_first(t, w);
        lemma_unmarked(tokens.last());
        assert(strung(tokens).skip(1) =~= strung(t).skip(1) + tokens.last());
        assert(marks_spaced(strung(tokens).skip(1)) =~= marks_spaced(strung(t).skip(1))
            + marks_spaced(tokens.last()));
    }
}

/// Where a space is put in front of texts, it is taken away again: tokens that, one behind the
/// other, are a mark and a text with its spaces marked decode to that text, if the first token has
/// no other mark.
pub proof fn lemma_text_behind_a_space_comes_back(
    m: TokenizerMeta,
    v: TokenizerV,
    ids: Seq<u32>,
    text: Seq<char>,
    w: Seq<char>,
)
    requires
        tokenizer_of(m) == BuildV::Made(v),
        m.add_space_prefix == Some(true),
        all_named(v, ids),
        ids.len() > 0,
        named(v, ids)[0] == seq!['\u{2581}'] + w,
        !w.contains('\u{2581}'),
        !text.contains('\u{2581}'),
        strung(named(v, ids)) == seq!['\u{2581}'] + spaces_marked(text),
    ensures
        decoded(v, ids, false) == text,
{
    lemma_tokenizer_keeps_the_file(m, v);
    lemma_tokens_of(v, ids);
    lemma_put_behind_first(named(v, ids), w);
    assert(strung(named(v, ids)).skip(1) =~= spaces_marked(text));
    assert forall|i: int| 0 <= i < text.len() implies marks_spaced(spaces_marked(text))[i]
        == #[trigger] text[i] by {
        assert(text.contains(text[i]));
    }
    assert(marks_spaced(spaces_marked(text)) =~= text);
}

proof fn lemma_solid_add(a: Seq<char>, b: Seq<char>)
    ensures
        solid(a + b) == solid(a) + solid(b),
{
    Seq::filter_distributes_over_add(a, b, |c: char| c != ' ' && c != '\u{2581}');
}

proof fn lemma_solid_one(c: char)
    ensures
        solid(seq![c]) == (if c != ' ' && c != '\u{2581}' {
            seq![c]
        } else {
            Seq::empty()
        }),
{
    reveal(Seq::filter);
    let one = seq![c];
    assert(one.drop_last() =~= Seq::<char>::empty());
    assert(solid(one.drop_last()) =~= Seq::<char>::empty());
    assert(one.last() == c);
    assert(Seq::<char>::empty().push(c) =~= one);
}

proof fn lemma_solid_unmarked(t: Seq<char>, dropped: bool)
    ensures
        solid(unmarked(t, '\u{2581}', dropped)) == solid(t),
    decreases t.len(),
{
    if t.len() > 0 {
        let before = unmarked(t.drop_last(), '\u{2581}', dropped);
        lemma_solid_unmarked(t.drop_last(), dropped);
        lemma_solid_add(t.drop_last(), seq![t.last()]);
        assert(t.drop_last() + seq![t.last()] =~= t);
        lemma_solid_one(t.last());
        lemma_solid_one(' ');
        lemma_solid_add(before, seq![t.last()]);
        lemma_solid_add(before, seq![' ']);
        assert(before + seq![t.last()] =~= before.push(t.last()));
        assert(before + seq![' '] =~= before.push(' '));
        assert(solid(before) + Seq::<char>::empty() =~= solid(before));
    }
}

/// However texts begin, decoding token by token loses nothing but spaces: what of the tokens is
/// neither a space nor the mark stands in the text, in order, and nothing else does.
pub proof fn lemma_nothing_solid_is_lost(m: TokenizerMeta, v: TokenizerV, ids: Seq<u32>)
    requires
        tokenizer_of(m) == BuildV::Made(v),
    ensures
        solid(text_of_tokens(v, ids)) == solid(strung(tokens_of(v, ids, false))),
    decreases ids.len(),
{
    if ids.len() > 0 {
        let before = ids.drop_last();
        let id = ids.last();
        lemma_nothing_solid_is_lost(m, v, before);
        lemma_tokenizer_keeps_the_file(m, v);
        lemma_one(v, id);
        let out = text_of_tokens(v, before);
        let toks = tokens_of(v, before, false);
        let piece = decoded(v, seq![id], false);
        let by = v.joined_by->0;
        let first = by.1;
        match token_of(v, id) {
            Some(t) => {
                lemma_one_together(t, first);
                lemma_solid_unmarked(t, first);
                assert(solid(piece) == solid(t));
                assert(toks.push(t).drop_last() =~= toks);
                lemma_solid_add(strung(toks), t);
                lemma_solid_add(out, piece);
                if piece.len() == 0 {
                    assert(solid(piece) =~= Seq::<char>::empty()) by {
                        reveal(Seq::filter);
                    }
                    lemma_solid_add(out, t);
                    if t.len() > 0 && t[0] == '\u{2581}' {
                        lemma_solid_one(' ');
                        lemma_solid_one(t[0]);
                        lemma_solid_add(seq![t[0]], t.skip(1));
                        assert(seq![t[0]] + t.skip(1) =~= t);
                        assert(Seq::<char>::empty() + solid(t.skip(1)) =~= solid(t.skip(1)));
                        lemma_solid_add(out, seq![' ']);
                        assert(out + seq![' '] =~= out.push(' '));
                        assert(solid(out) + Seq::<char>::empty() =~= solid(out));
                        lemma_solid_add(out, t.skip(1));
                        lemma_solid_add(out.push(' '), t.skip(1));
                    }
                }
            },
            None => {
                assert(put_together(Seq::empty(), '\u{2581}', first) =~= Seq::<char>::empty());
                assert(with_token(out, piece, None) == out);
            },
        }
    } else {
        assert(text_of_tokens(v, ids) =~= strung(tokens_of(v, ids, false)));
    }
}

} // verus!

//! The tokenizer of a model file: what it is put together from, and text as token numbers and
//! back.

use ahash::AHashMap;
use tokenizers::models::bpe::BPE;
use tokenizers::pre_tokenizers::metaspace::{Metaspace, PrependScheme};
use tokenizers::processors::template::TemplateProcessing;
use tokenizers::{AddedToken, Tokenizer};

use vstd::prelude::*;
use vstd::string::*;

use crate::server::chat::{gemma4_chat_prompt, is_text};
use crate::text::{
    chars_of, cut, find, find_str, is_space, is_str, join, starts_with, text_of, texts,
};

verus! {

/// What a token is, as far as a tokenizer cares.
#[derive(Clone, Copy, Debug, PartialEq, Eq, Structural)]
pub enum TokenType {
    Control,
    UserDefined,
    Other,
}

/// What a model file says of its tokenizer, key by key.
#[derive(Debug)]
pub struct TokenizerMeta {
    pub model: Option<String>,
    pub tokens: Option<Vec<String>>,
    pub merges: Option<Vec<String>>,
    pub token_types: Option<Vec<TokenType>>,
    pub unknown_token_id: Option<u32>,
    pub add_space_prefix: Option<bool>,
    pub add_bos_token: Option<bool>,
    pub bos_token_id: Option<u32>,
}

/// The character that stands for a space in a token.
pub const SPACE_MARK: char = '\u{2581}';

/// What a tokenizer is put together from.
#[verifier::ext_equal]
pub ghost struct TokenizerV {
    /// The tokens by their numbers.
    pub tokens: Seq<Seq<char>>,
    pub merges: Seq<(Seq<char>, Seq<char>)>,
    pub unk: Seq<char>,
    pub byte_fallback: bool,
    pub fuse_unk: bool,
    /// The mark for spaces when text is split, and whether one is put in front.
    pub split_by: Option<(char, bool)>,
    /// The same when text is put together.
    pub joined_by: Option<(char, bool)>,
    pub specials: Seq<Seq<char>>,
    /// The pattern that token numbers are put into, and its own token.
    pub pattern: Option<(Seq<char>, Seq<char>, u32)>,
}

/// A tokenizer of the tokenizers crate.
#[verifier::external_type_specification]
#[verifier::external_body]
pub struct ExTokenizer(Tokenizer);

/// What a tokenizer was put together from.
pub uninterp spec fn made_of(tok: Tokenizer) -> TokenizerV;

/// Why byte-pair encoding cannot be set up from these tokens and merges, if it cannot: the text of
/// the error of `BpeBuilder::build`.
pub uninterp spec fn bpe_fault(
    tokens: Seq<Seq<char>>,
    merges: Seq<(Seq<char>, Seq<char>)>,
) -> Option<Seq<char>>;

/// Why a pattern is malformed, if it is: the text of the error of
/// `TemplateProcessingBuilder::try_single`.
pub uninterp spec fn pattern_fault(pattern: Seq<char>) -> Option<Seq<char>>;

/// What a piece of a pattern names: what stands before its colon, if it has one.
pub open spec fn piece_name(piece: Seq<char>) -> Seq<char> {
    match find(piece, ":"@, 0) {
        Some(i) => piece.take(i),
        None => piece,
    }
}

/// The names in a pattern, whose pieces stand between single spaces.
pub open spec fn piece_names(pattern: Seq<char>) -> Seq<Seq<char>>
    decreases pattern.len(),
{
    match find(pattern, " "@, 0) {
        Some(i) if 0 <= i < pattern.len() => seq![piece_name(pattern.take(i))] + piece_names(
            pattern.skip(i + 1),
        ),
        _ => seq![piece_name(pattern)],
    }
}

/// Whether a pattern names the second of two texts.
pub open spec fn names_second(pattern: Seq<char>) -> bool {
    piece_names(pattern).contains("$B"@) || piece_names(pattern).contains("$b"@)
}

/// Whether a pattern names a special token other than this one.
pub open spec fn names_other(pattern: Seq<char>, token: Seq<char>) -> bool {
    exists|i: int|
        0 <= i < piece_names(pattern).len() && !starts_with(
            #[trigger] piece_names(pattern)[i],
            "$"@,
        ) && piece_names(pattern)[i] != token
}

/// Whether a tokenizer can encode a text by itself: its pattern names no second text.
pub open spec fn takes_one_text(made: TokenizerV) -> bool {
    made.pattern matches Some(p) ==> !names_second(p.0)
}

/// The token numbers of a text, or the text of the error of `Tokenizer::encode`.
pub uninterp spec fn encoded(made: TokenizerV, text: Seq<char>, special: bool) -> Result<
    Seq<u32>,
    Seq<char>,
>;

/// The token with this number, as `Tokenizer::id_to_token` gives it.
pub uninterp spec fn token_of(made: TokenizerV, id: u32) -> Option<Seq<char>>;

/// The tokens with these numbers. Numbers without a token are passed over, and so are special
/// tokens where they are to be left out.
pub open spec fn tokens_of(made: TokenizerV, ids: Seq<u32>, skip_special: bool) -> Seq<Seq<char>>
    decreases ids.len(),
{
    if ids.len() == 0 {
        Seq::empty()
    } else {
        let before = tokens_of(made, ids.drop_last(), skip_special);
        match token_of(made, ids.last()) {
            Some(t) => if skip_special && t.len() > 0 && made.specials.contains(t) {
                before
            } else {
                before.push(t)
            },
            None => before,
        }
    }
}

/// A token as text: marks become spaces, or are dropped.
pub open spec fn unmarked(token: Seq<char>, mark: char, dropped: bool) -> Seq<char>
    decreases token.len(),
{
    if token.len() == 0 {
        Seq::empty()
    } else {
        let before = unmarked(token.drop_last(), mark, dropped);
        if token.last() != mark {
            before.push(token.last())
        } else if dropped {
            before
        } else {
            before.push(' ')
        }
    }
}

/// Tokens put together by a mark; where a space is put in front of texts, the marks of the first
/// token are dropped.
pub open spec fn put_together(tokens: Seq<Seq<char>>, mark: char, first: bool) -> Seq<char>
    decreases tokens.len(),
{
    if tokens.len() == 0 {
        Seq::empty()
    } else {
        put_together(tokens.drop_last(), mark, first) + unmarked(
            tokens.last(),
            mark,
            first && tokens.len() == 1,
        )
    }
}

/// The text of token numbers, with or without special tokens, as `Tokenizer::decode` gives it: the
/// tokens put together by the mark, or with spaces between them where there is none.
pub open spec fn decoded(made: TokenizerV, ids: Seq<u32>, skip_special: bool) -> Seq<char> {
    let tokens = tokens_of(made, ids, skip_special);
    match made.joined_by {
        Some((mark, first)) => put_together(tokens, mark, first),
        None => join(tokens, " "@),
    }
}

/// Pairs of texts.
pub open spec fn pairs(v: Seq<(String, String)>) -> Seq<(Seq<char>, Seq<char>)> {
    v.map_values(|p: (String, String)| (p.0@, p.1@))
}

/// `BPE::builder` with a vocabulary, merges, an unknown token and two options, `build`, and
/// `Tokenizer::new`: a tokenizer of just these parts, or the error of `build`, which depends on
/// the vocabulary and the merges alone. Token number `i` is the `i`-th of `tokens`; where two are
/// equal, the later number counts.
#[verifier::external_body]
fn new_tokenizer(
    tokens: Vec<String>,
    merges: Vec<(String, String)>,
    unk: String,
    byte_fallback: bool,
    fuse_unk: bool,
) -> (r: Result<Tokenizer, String>)
    requires
        tokens@.len() <= u32::MAX,
    ensures
        match r {
            Ok(t) => bpe_fault(texts(tokens@), pairs(merges@)) is None && made_of(t) == (
            TokenizerV {
                tokens: texts(tokens@),
                merges: pairs(merges@),
                unk: unk@,
                byte_fallback,
                fuse_unk,
                split_by: None,
                joined_by: None,
                specials: Seq::empty(),
                pattern: None,
            }),
            Err(m) => bpe_fault(texts(tokens@), pairs(merges@)) == Some(m@),
        },
{
    let vocab: AHashMap<String, u32> = tokens.into_iter().zip(0u32..).collect();
    BPE::builder()
        .vocab_and_merges(vocab, merges)
        .unk_token(unk)
        .byte_fallback(byte_fallback)
        .fuse_unk(fuse_unk)
        .build()
        .map(Tokenizer::new)
        .map_err(|e| e.to_string())
}

/// `TokenizerImpl::with_pre_tokenizer` with a `Metaspace` that splits at the mark: replaces what
/// text is split by, and nothing else.
#[verifier::external_body]
fn set_pre_tokenizer(tok: &mut Tokenizer, mark: char, first: bool)
    ensures
        made_of(*final(tok)) == (TokenizerV {
            split_by: Some((mark, first)),
            ..made_of(*old(tok))
        }),
{
    let scheme = if first { PrependScheme::First } else { PrependScheme::Never };
    tok.with_pre_tokenizer(Some(Metaspace::new(mark, scheme, true)));
}

/// `TokenizerImpl::with_decoder` with a `Metaspace`: replaces what text is put together by, and
/// nothing else.
#[verifier::external_body]
fn set_decoder(tok: &mut Tokenizer, mark: char, first: bool)
    ensures
        made_of(*final(tok)) == (TokenizerV {
            joined_by: Some((mark, first)),
            ..made_of(*old(tok))
        }),
{
    let scheme = if first { PrependScheme::First } else { PrependScheme::Never };
    tok.with_decoder(Some(Metaspace::new(mark, scheme, true)));
}

/// `TokenizerImpl::add_special_tokens`: puts these tokens behind the special ones, and changes
/// nothing else.
#[verifier::external_body]
fn add_specials(tok: &mut Tokenizer, specials: &Vec<String>)
    ensures
        made_of(*final(tok)) == (TokenizerV {
            specials: made_of(*old(tok)).specials + texts(specials@),
            ..made_of(*old(tok))
        }),
{
    let list: Vec<AddedToken> = specials.iter().map(|t| AddedToken::from(t.clone(), true))
        .collect();
    tok.add_special_tokens(&list);
}

/// `TemplateProcessing::builder` with a pattern for one text and one special token, and
/// `TokenizerImpl::with_post_processor`: replaces the pattern and nothing else, or fails and
/// leaves the tokenizer as it is. The error says whether the pattern is malformed, with the text
/// of `try_single`, or the processor cannot be built: `build` fails if and only if the pattern
/// names a special token other than the one that is given. The text of its error lists such
/// tokens in the order of a hash set and is left open.
#[verifier::external_body]
fn set_pattern(tok: &mut Tokenizer, pattern: &str, token: &str, id: u32) -> (r: Result<
    (),
    (bool, String),
>)
    ensures
        match r {
            Ok(_) => pattern_fault(pattern@) is None && !names_other(pattern@, token@) && made_of(
                *final(tok),
            ) == (TokenizerV { pattern: Some((pattern@, token@, id)), ..made_of(*old(tok)) }),
            Err((true, e)) => pattern_fault(pattern@) == Some(e@) && made_of(*final(tok))
                == made_of(*old(tok)),
            Err((false, _)) => pattern_fault(pattern@) is None && names_other(pattern@, token@)
                && made_of(*final(tok)) == made_of(*old(tok)),
        },
{
    let mut b = TemplateProcessing::builder();
    let b = b.try_single(pattern).map_err(|e| (true, e.to_string()))?;
    let b = b.special_tokens(vec![(token, id)]);
    let post = b.build().map_err(|e| (false, e.to_string()))?;
    tok.with_post_processor(Some(post));
    Ok(())
}

/// `TokenizerImpl::encode` of one text: its token numbers, or the text of the error, depend on
/// what the tokenizer is made of, the text, and whether special tokens are added. It panics where
/// the pattern names a second text.
#[verifier::external_body]
fn encode_text(tok: &Tokenizer, text: &str, special: bool) -> (r: Result<Vec<u32>, String>)
    requires
        takes_one_text(made_of(*tok)),
    ensures
        match r {
            Ok(v) => encoded(made_of(*tok), text@, special) == Ok::<Seq<u32>, Seq<char>>(v@),
            Err(m) => encoded(made_of(*tok), text@, special) == Err::<Seq<u32>, Seq<char>>(m@),
        },
{
    tok.encode(text, special).map(|e| e.get_ids().to_vec()).map_err(|e| e.to_string())
}

/// `TokenizerImpl::decode`: the tokens of the numbers, as `id_to_token` gives them and with or
/// without the special ones, go through `Metaspace::decode_chain` and are put one behind the
/// other; without a decoder they are joined by spaces.
#[verifier::external_body]
fn decode_ids(tok: &Tokenizer, ids: &Vec<u32>, skip_special: bool) -> (r: String)
    ensures
        r@ == decoded(made_of(*tok), ids@, skip_special),
{
    tok.decode(ids, skip_special).unwrap_or_default()
}

/// `TokenizerImpl::id_to_token`: the token, if there is one, depends on what the tokenizer is made
/// of and the number.
#[verifier::external_body]
fn token_text(tok: &Tokenizer, id: u32) -> (r: Option<String>)
    ensures
        match r {
            Some(s) => token_of(made_of(*tok), id) == Some(s@),
            None => token_of(made_of(*tok), id) is None,
        },
{
    tok.id_to_token(id)
}

/// Whether tokens of this model can be read.
pub open spec fn known_model(m: Seq<char>) -> bool {
    m == "gemma4"@ || m == "llama"@ || m == "gemma"@ || m == "gemma3"@
}

/// A merge in two parts, at its first space.
pub open spec fn split_merge(m: Seq<char>) -> Option<(Seq<char>, Seq<char>)> {
    match find(m, " "@, 0) {
        Some(i) => Some((m.take(i), m.skip(i + 1))),
        None => None,
    }
}

/// The merges in two parts each; one without a space is left out.
pub open spec fn split_merges(m: Seq<Seq<char>>) -> Seq<(Seq<char>, Seq<char>)>
    decreases m.len(),
{
    if m.len() == 0 {
        Seq::empty()
    } else {
        match split_merge(m.last()) {
            Some(p) => split_merges(m.drop_last()).push(p),
            None => split_merges(m.drop_last()),
        }
    }
}

fn read_merges(m: &Vec<String>) -> (r: Vec<(String, String)>)
    ensures
        pairs(r@) == split_merges(texts(m@)),
{
    proof {
        reveal_strlit(" ");
    }
    let ghost all = texts(m@);
    let mut v: Vec<(String, String)> = Vec::new();
    let mut i: usize = 0;
    assert(all.take(0) =~= Seq::<Seq<char>>::empty());
    assert(pairs(v@) =~= Seq::<(Seq<char>, Seq<char>)>::empty());
    while i < m.len()
        invariant
            i <= m@.len(),
            " "@.len() == 1,
            all == texts(m@),
            pairs(v@) == split_merges(all.take(i as int)),
        decreases m@.len() - i,
    {
        let s = chars_of(m[i].as_str());
        assert(all.take(i + 1).drop_last() =~= all.take(i as int));
        assert(all.take(i + 1).last() == s@);
        if let Some(k) = find_str(&s, " ", 0) {
            let a = cut(&s, 0, k);
            let b = cut(&s, k + 1, s.len());
            assert(a@ =~= s@.take(k as int));
            assert(b@ =~= s@.skip(k + 1));
            let ghost before = pairs(v@);
            let p = (text_of(&a), text_of(&b));
            v.push(p);
            assert(pairs(v@) =~= before.push((p.0@, p.1@)));
        }
        i += 1;
    }
    assert(all.take(all.len() as int) =~= all);
    v
}

/// The tokens that are taken whole: those the file marks as control or user-defined tokens.
pub open spec fn marked(tokens: Seq<Seq<char>>, types: Seq<TokenType>) -> Seq<Seq<char>>
    decreases tokens.len(),
{
    if tokens.len() == 0 {
        Seq::empty()
    } else {
        let i = tokens.len() - 1;
        let rest = marked(tokens.drop_last(), types);
        if i < types.len() && (types[i] is Control || types[i] is UserDefined) {
            rest.push(tokens.last())
        } else {
            rest
        }
    }
}

fn find_marked(tokens: &Vec<String>, types: &Vec<TokenType>) -> (r: Vec<String>)
    ensures
        texts(r@) == marked(texts(tokens@), types@),
{
    let ghost all = texts(tokens@);
    let mut v: Vec<String> = Vec::new();
    let mut i: usize = 0;
    assert(all.take(0) =~= Seq::<Seq<char>>::empty());
    assert(texts(v@) =~= Seq::<Seq<char>>::empty());
    while i < tokens.len()
        invariant
            i <= tokens@.len(),
            all == texts(tokens@),
            texts(v@) == marked(all.take(i as int), types@),
        decreases tokens@.len() - i,
    {
        assert(all.take(i + 1).drop_last() =~= all.take(i as int));
        assert(all.take(i + 1).last() == tokens@[i as int]@);
        let whole: bool = i < types.len() && match types[i] {
            TokenType::Control | TokenType::UserDefined => true,
            TokenType::Other => false,
        };
        if whole {
            let ghost before = texts(v@);
            let t = tokens[i].clone();
            v.push(t);
            assert(texts(v@) =~= before.push(t@));
        }
        i += 1;
    }
    assert(all.take(all.len() as int) =~= all);
    v
}

pub open spec fn opt_texts(v: Option<Vec<String>>) -> Option<Seq<Seq<char>>> {
    match v {
        Some(x) => Some(texts(x@)),
        None => None,
    }
}

/// The text of an option, or nothing.
pub open spec fn text_or_empty(v: Option<String>) -> Seq<char> {
    match v {
        Some(s) => s@,
        None => ""@,
    }
}

/// The token that stands for what is unknown.
pub open spec fn unknown_of(m: TokenizerMeta, tokens: Seq<Seq<char>>) -> Seq<char> {
    match m.unknown_token_id {
        Some(i) if i < tokens.len() => tokens[i as int],
        _ => "<unk>"@,
    }
}

/// The token that every text begins with, if the file has one and wants it.
pub open spec fn bos_of(m: TokenizerMeta, tokens: Seq<Seq<char>>) -> Option<(Seq<char>, u32)> {
    match (m.add_bos_token, m.bos_token_id) {
        (Some(false), _) => None,
        (_, Some(i)) if i < tokens.len() => Some((tokens[i as int], i)),
        _ => None,
    }
}

/// The parts of the tokenizer of a model file, but for the token that texts begin with.
pub open spec fn parts_of(
    m: TokenizerMeta,
    tokens: Seq<Seq<char>>,
    merges: Seq<Seq<char>>,
) -> TokenizerV {
    let first = m.add_space_prefix == Some(true);
    TokenizerV {
        tokens,
        merges: split_merges(merges),
        unk: unknown_of(m, tokens),
        byte_fallback: true,
        fuse_unk: true,
        split_by: Some((SPACE_MARK, first)),
        joined_by: Some((SPACE_MARK, first)),
        specials: match m.token_types {
            Some(t) => marked(tokens, t@),
            None => Seq::empty(),
        },
        pattern: None,
    }
}

/// What comes of the tokenizer of a model file.
pub ghost enum BuildV {
    Made(TokenizerV),
    /// There is none, and why.
    Refused(Seq<char>),
    /// There is none, for the pattern names tokens that are not given.
    NoProcessor,
}

/// The tokenizer of a model file with a token that texts begin with.
pub open spec fn begun_with(parts: TokenizerV, bos: Seq<char>, id: u32) -> BuildV {
    let pattern = bos + " $A"@;
    match pattern_fault(pattern) {
        Some(e) => BuildV::Refused("BOS template: "@ + e),
        None => if names_other(pattern, bos) {
            BuildV::NoProcessor
        } else if names_second(pattern) {
            BuildV::Refused("BOS template: names a second text"@)
        } else {
            BuildV::Made(TokenizerV { pattern: Some((pattern, bos, id)), ..parts })
        },
    }
}

/// What comes of the tokenizer of a model file.
pub open spec fn tokenizer_of(m: TokenizerMeta) -> BuildV {
    let model = text_or_empty(m.model);
    match (opt_texts(m.tokens), opt_texts(m.merges)) {
        _ if !known_model(model) => BuildV::Refused(
            "unexpected tokenizer.ggml.model '"@ + model + "'"@,
        ),
        (None, _) => BuildV::Refused("tokenizer.ggml.tokens missing"@),
        (_, None) => BuildV::Refused("tokenizer.ggml.merges missing"@),
        (Some(tokens), Some(merges)) => {
            let parts = parts_of(m, tokens, merges);
            match bpe_fault(tokens, split_merges(merges)) {
                Some(e) => BuildV::Refused("BPE build failed: "@ + e),
                None => match bos_of(m, tokens) {
                    None => BuildV::Made(parts),
                    Some((bos, id)) => begun_with(parts, bos, id),
                },
            }
        },
    }
}

/// Whether a pattern names the second of two texts.
fn has_second(pattern: &str) -> (r: bool)
    ensures
        r == names_second(pattern@),
{
    proof {
        reveal_strlit(" ");
        reveal_strlit(":");
    }
    let mut rest: Vec<char> = chars_of(pattern);
    loop
        invariant
            " "@.len() == 1,
            ":"@.len() == 1,
            names_second(pattern@) == names_second(rest@),
        decreases rest@.len(),
    {
        let (piece, tail) = match find_str(&rest, " ", 0) {
            Some(i) => {
                let a = cut(&rest, 0, i);
                let b = cut(&rest, i + 1, rest.len());
                assert(a@ =~= rest@.take(i as int));
                assert(b@ =~= rest@.skip(i + 1));
                (a, Some(b))
            },
            None => {
                let a = cut(&rest, 0, rest.len());
                assert(a@ =~= rest@);
                (a, None)
            },
        };
        let name = match find_str(&piece, ":", 0) {
            Some(i) => cut(&piece, 0, i),
            None => cut(&piece, 0, piece.len()),
        };
        assert(name@ =~= piece_name(piece@));
        let second: bool = is_str(&name, "$B") || is_str(&name, "$b");
        match tail {
            None => {
                proof {
                    assert(piece_names(rest@) =~= seq![name@]);
                    assert(piece_names(rest@)[0] == name@);
                }
                return second;
            },
            Some(t) => {
                proof {
                    let more = piece_names(t@);
                    let all = piece_names(rest@);
                    assert(all =~= seq![name@] + more);
                    assert(all[0] == name@);
                    assert forall|x: Seq<char>| #[trigger]
                        all.contains(x) == (name@ == x || more.contains(x)) by {
                        if more.contains(x) {
                            let i = choose|i: int| 0 <= i < more.len() && more[i] == x;
                            assert(all[i + 1] == x);
                        }
                        if all.contains(x) {
                            let i = choose|i: int| 0 <= i < all.len() && all[i] == x;
                            if i > 0 {
                                assert(more[i - 1] == x);
                            }
                        }
                    }
                }
                if second {
                    return true;
                }
                rest = t;
            },
        }
    }
}

fn copy_texts(v: &Vec<String>) -> (r: Vec<String>)
    ensures
        texts(r@) == texts(v@),
{
    let mut r: Vec<String> = Vec::new();
    let mut i: usize = 0;
    while i < v.len()
        invariant
            i <= v@.len(),
            r@.len() == i,
            forall|k: int| 0 <= k < i ==> (#[trigger] r@[k])@ == v@[k]@,
        decreases v@.len() - i,
    {
        r.push(v[i].clone());
        i += 1;
    }
    assert(texts(r@) =~= texts(v@));
    r
}

/// Puts the tokenizer of a model file together.
pub fn build_tokenizer_from_gguf(m: &TokenizerMeta) -> (r: Result<Tokenizer, String>)
    requires
        m.tokens matches Some(t) ==> t@.len() <= u32::MAX,
    ensures
        match tokenizer_of(*m) {
            BuildV::Made(v) => r matches Ok(t) && made_of(t) == v,
            BuildV::Refused(e) => r matches Err(x) && x@ == e,
            BuildV::NoProcessor => r matches Err(x) && starts_with(x@, "BOS processor: "@),
        },
        r matches Ok(t) ==> takes_one_text(made_of(t)),
{
    let model: &str = match &m.model {
        Some(s) => s.as_str(),
        None => "",
    };
    if !is_text(model, "gemma4") && !is_text(model, "llama") && !is_text(model, "gemma")
        && !is_text(model, "gemma3") {
        return Err(
            String::from_str("unexpected tokenizer.ggml.model '").concat(model).concat("'"),
        );
    }
    let tokens = match &m.tokens {
        Some(t) => t,
        None => {
            return Err(String::from_str("tokenizer.ggml.tokens missing"));
        },
    };
    let merges = match &m.merges {
        Some(t) => t,
        None => {
            return Err(String::from_str("tokenizer.ggml.merges missing"));
        },
    };
    let ghost names = texts(tokens@);
    let unk: String = match m.unknown_token_id {
        Some(i) => if (i as usize) < tokens.len() {
            assert(names[i as int] == tokens@[i as int]@);
            tokens[i as usize].clone()
        } else {
            String::from_str("<unk>")
        },
        None => String::from_str("<unk>"),
    };
    let mut tok: Tokenizer = match new_tokenizer(
        copy_texts(tokens),
        read_merges(merges),
        unk,
        true,
        true,
    ) {
        Ok(t) => t,
        Err(e) => {
            return Err(String::from_str("BPE build failed: ").concat(e.as_str()));
        },
    };
    let first: bool = match m.add_space_prefix {
        Some(b) => b,
        None => false,
    };
    set_pre_tokenizer(&mut tok, SPACE_MARK, first);
    set_decoder(&mut tok, SPACE_MARK, first);
    if let Some(types) = &m.token_types {
        let list = find_marked(tokens, types);
        add_specials(&mut tok, &list);
        assert(Seq::<Seq<char>>::empty() + texts(list@) =~= texts(list@));
    }
    assert(made_of(tok) == parts_of(*m, names, texts(merges@)));
    let want: bool = match m.add_bos_token {
        Some(b) => b,
        None => true,
    };
    if want {
        if let Some(id) = m.bos_token_id {
            if (id as usize) < tokens.len() {
                assert(names[id as int] == tokens@[id as int]@);
                let bos = tokens[id as usize].as_str();
                let pattern = String::from_str(bos).concat(" $A");
                match set_pattern(&mut tok, pattern.as_str(), bos, id) {
                    Ok(_) => {
                        if has_second(pattern.as_str()) {
                            return Err(String::from_str("BOS template: names a second text"));
                        }
                    },
                    Err((true, e)) => {
                        return Err(String::from_str("BOS template: ").concat(e.as_str()));
                    },
                    Err((false, e)) => {
                        let what = String::from_str("BOS processor: ").concat(e.as_str());
                        assert(what@.subrange(0, "BOS processor: "@.len() as int)
                            =~= "BOS processor: "@);
                        return Err(what);
                    },
                }
            }
        }
    }
    Ok(tok)
}

/// The token numbers of a text.
pub fn encode_prompt(tok: &Tokenizer, text: &str, add_special: bool) -> (r: Result<
    Vec<u32>,
    String,
>)
    requires
        takes_one_text(made_of(*tok)),
    ensures
        match encoded(made_of(*tok), text@, add_special) {
            Ok(s) => r matches Ok(v) && v@ == s,
            Err(e) => r matches Err(m) && m@ == "encode failed: "@ + e,
        },
{
    match encode_text(tok, text, add_special) {
        Ok(v) => Ok(v),
        Err(e) => Err(String::from_str("encode failed: ").concat(e.as_str())),
    }
}

/// The token numbers of a user's text in the chat template.
pub fn encode_user_prompt(tok: &Tokenizer, text: &str) -> (r: Result<Vec<u32>, String>)
    requires
        takes_one_text(made_of(*tok)),
    ensures
        match encoded(
            made_of(*tok),
            "<|turn>user\n"@ + text@ + "<turn|>\n<|turn>model\n"@,
            true,
        ) {
            Ok(s) => r matches Ok(v) && v@ == s,
            Err(e) => r matches Err(m) && m@ == "encode failed: "@ + e,
        },
{
    let chat = gemma4_chat_prompt(text);
    encode_prompt(tok, chat.as_str(), true)
}

/// A text with a token behind it: its decoded piece, or, where that is empty, the token itself,
/// whose mark for a space becomes one unless white space stands there already.
pub open spec fn with_token(
    out: Seq<char>,
    piece: Seq<char>,
    name: Option<Seq<char>>,
) -> Seq<char> {
    if piece.len() > 0 {
        out + piece
    } else {
        match name {
            None => out,
            Some(t) => if t.len() > 0 && t[0] == SPACE_MARK {
                let spaced = if out.len() > 0 && !is_space(out.last()) {
                    out.push(' ')
                } else {
                    out
                };
                spaced + t.skip(1)
            } else {
                out + t
            },
        }
    }
}

pub fn append_token(out: String, piece: &str, name: Option<&str>) -> (r: String)
    ensures
        r@ == with_token(
            out@,
            piece@,
            match name {
                Some(t) => Some(t@),
                None => None,
            },
        ),
{
    if !piece.is_empty() {
        return out.concat(piece);
    }
    match name {
        None => out,
        Some(t) => {
            let v = chars_of(t);
            if v.len() > 0 && v[0] == SPACE_MARK {
                let so_far = chars_of(out.as_str());
                let rest = cut(&v, 1, v.len());
                assert(rest@ =~= v@.skip(1));
                let rest_text = text_of(&rest);
                if so_far.len() > 0 && !is_space(so_far[so_far.len() - 1]) {
                    let mut spaced: String = out;
                    spaced.push(' ');
                    spaced.concat(rest_text.as_str())
                } else {
                    out.concat(rest_text.as_str())
                }
            } else {
                out.concat(t)
            }
        },
    }
}

/// The text of token numbers, special tokens kept.
pub open spec fn text_of_tokens(made: TokenizerV, ids: Seq<u32>) -> Seq<char>
    decreases ids.len(),
{
    if ids.len() == 0 {
        Seq::empty()
    } else {
        with_token(
            text_of_tokens(made, ids.drop_last()),
            decoded(made, seq![ids.last()], false),
            token_of(made, ids.last()),
        )
    }
}

pub fn decode_tokens(tok: &Tokenizer, ids: &Vec<u32>) -> (r: String)
    ensures
        r@ == text_of_tokens(made_of(*tok), ids@),
{
    let mut out: String = String::new();
    let mut i: usize = 0;
    assert(ids@.take(0) =~= Seq::<u32>::empty());
    assert(out@ =~= Seq::<char>::empty());
    while i < ids.len()
        invariant
            i <= ids@.len(),
            out@ == text_of_tokens(made_of(*tok), ids@.take(i as int)),
        decreases ids@.len() - i,
    {
        let id: u32 = ids[i];
        assert(ids@.take(i + 1).drop_last() =~= ids@.take(i as int));
        let mut one: Vec<u32> = Vec::new();
        one.push(id);
        assert(one@ =~= seq![id]);
        let piece = decode_ids(tok, &one, false);
        let name = token_text(tok, id);
        out = match &name {
            Some(t) => append_token(out, piece.as_str(), Some(t.as_str())),
            None => append_token(out, piece.as_str(), None),
        };
        i += 1;
    }
    assert(ids@.take(ids@.len() as int) =~= ids@);
    out
}

/// The text of token numbers, special tokens left out.
pub fn decode_plain(tok: &Tokenizer, ids: &Vec<u32>) -> (r: String)
    ensures
        r@ == decoded(made_of(*tok), ids@, true),
{
    decode_ids(tok, ids, true)
}

} // verus!

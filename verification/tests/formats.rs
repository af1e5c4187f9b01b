use ksearch::gemma::sample::splitmix32;
use ksearch::gguf::file::{
    block_size, read_head, row_range, tensor_range, FileError, MetaValue, TensorInfo,
};
use ksearch::gguf::half::{bf16_to_f32, f16_to_f32, f32_to_bf16, f32_to_f16};
use ksearch::gguf::tokenizer::{
    append_token, build_tokenizer_from_gguf, decode_plain, decode_tokens, encode_prompt,
    encode_user_prompt, TokenType, TokenizerMeta,
};

fn exact(h: u16) -> f32 {
    let sign = ((h >> 15) as f32) * -2.0 + 1.0;
    let exp = (h >> 10) & 0x1F;
    let mant = h & 0x3FF;
    if exp == 0 {
        sign * (mant as f32) * (2.0f32).powi(-24)
    } else if exp == 31 {
        if mant == 0 {
            sign * f32::INFINITY
        } else {
            f32::NAN
        }
    } else {
        sign * (1.0 + (mant as f32) / 1024.0) * (2.0f32).powi(exp as i32 - 15)
    }
}

#[test]
fn halves_widen_exactly() {
    for h in 0..=u16::MAX {
        let want = exact(h);
        let got = f32::from_bits(f16_to_f32(h));
        assert!(got.to_bits() == want.to_bits() || (got.is_nan() && want.is_nan()), "{h:#x}");
    }
}

#[test]
fn halves_come_back() {
    for h in 0..=u16::MAX {
        if !exact(h).is_nan() {
            assert_eq!(f32_to_f16(f16_to_f32(h)), h);
        }
    }
}

#[test]
fn halves_round_to_the_nearest_even() {
    assert_eq!(f32_to_f16(1.0f32.to_bits()), 0x3C00);
    assert_eq!(f32_to_f16((-2.5f32).to_bits()), 0xC100);
    assert_eq!(f32_to_f16(65504.0f32.to_bits()), 0x7BFF);
    assert_eq!(f32_to_f16(65520.0f32.to_bits()), 0x7C00);
    assert_eq!(f32_to_f16(1e30f32.to_bits()), 0x7C00);
    assert_eq!(f32_to_f16(f32::NEG_INFINITY.to_bits()), 0xFC00);
    // Halfway between two neighbours: the even one.
    assert_eq!(f32_to_f16(2049.0f32.to_bits()), 0x6800);
    assert_eq!(f32_to_f16(2051.0f32.to_bits()), 0x6802);
    // The least number that is not nought, and half of it.
    assert_eq!(f32_to_f16(2.0f32.powi(-24).to_bits()), 1);
    assert_eq!(f32_to_f16(2.0f32.powi(-25).to_bits()), 0);
    assert_eq!(f32_to_f16((2.0f32.powi(-25) * 1.5).to_bits()), 1);
    assert_eq!(f32_to_f16(2.0f32.powi(-26).to_bits()), 0);
    assert!(exact(f32_to_f16(0x7F80_0001)).is_nan());
    assert!(exact(f32_to_f16(f32::NAN.to_bits())).is_nan());
}

#[test]
fn brain_floats() {
    assert_eq!(bf16_to_f32(0x3F80), 1.0f32.to_bits());
    assert_eq!(f32_to_bf16(1.0f32.to_bits()), 0x3F80);
    assert_eq!(f32_to_bf16(0x3F80_8000), 0x3F81);
    assert_eq!(f32_to_bf16(0x3F80_7FFF), 0x3F80);
}

#[test]
fn random_numbers_follow_their_state() {
    fn reference(state: &mut u32) -> u32 {
        *state = state.wrapping_add(0x9E3779B9);
        let mut z = *state;
        z = (z ^ (z >> 16)).wrapping_mul(0x7feb352d);
        z = (z ^ (z >> 15)).wrapping_mul(0x846ca68b);
        z ^ (z >> 16)
    }
    let mut a = 1u32;
    let mut b = 1u32;
    for _ in 0..100 {
        assert_eq!(splitmix32(&mut a), reference(&mut b));
        assert_eq!(a, b);
    }
}

fn strings(v: &[&str]) -> Vec<String> {
    v.iter().map(|s| s.to_string()).collect()
}

fn meta() -> TokenizerMeta {
    TokenizerMeta {
        model: Some("gemma4".to_string()),
        tokens: Some(strings(&[
            "<unk>", "<bos>", "a", "b", "ab", "\u{2581}", "\u{2581}a", "<|turn>", "c",
        ])),
        merges: Some(strings(&["a b", "\u{2581} a", "nospace"])),
        token_types: Some(vec![
            TokenType::Other,
            TokenType::Control,
            TokenType::Other,
            TokenType::Other,
            TokenType::Other,
            TokenType::Other,
            TokenType::Other,
            TokenType::UserDefined,
            TokenType::Other,
        ]),
        unknown_token_id: Some(0),
        add_space_prefix: Some(false),
        add_bos_token: None,
        bos_token_id: Some(1),
    }
}

fn tokenizer(m: &TokenizerMeta) -> tokenizers::Tokenizer {
    match build_tokenizer_from_gguf(m) {
        Ok(t) => t,
        Err(e) => panic!("{e}"),
    }
}

#[test]
fn text_becomes_token_numbers() {
    let tok = tokenizer(&meta());
    assert_eq!(encode_prompt(&tok, "ab", true), Ok(vec![1, 4]));
    assert_eq!(encode_prompt(&tok, "ab", false), Ok(vec![4]));
    assert_eq!(encode_prompt(&tok, "b a", false), Ok(vec![3, 6]));
    assert_eq!(encode_prompt(&tok, "<|turn>ab", false), Ok(vec![7, 4]));
}

#[test]
fn a_text_may_begin_without_a_mark_of_its_own() {
    let mut m = meta();
    m.add_bos_token = Some(false);
    let tok = tokenizer(&m);
    assert_eq!(encode_prompt(&tok, "ab", true), Ok(vec![4]));
    let mut m = meta();
    m.bos_token_id = Some(99);
    assert_eq!(encode_prompt(&tokenizer(&m), "ab", true), Ok(vec![4]));
    let mut m = meta();
    m.add_space_prefix = Some(true);
    assert_eq!(encode_prompt(&tokenizer(&m), "ab", true), Ok(vec![1, 5, 4]));
}

#[test]
fn special_tokens_are_taken_whole() {
    let mut m = meta();
    m.token_types = None;
    let whole = encode_prompt(&tokenizer(&meta()), "<|turn>", false).unwrap();
    let parts = encode_prompt(&tokenizer(&m), "<|turn>", false).unwrap();
    assert_eq!(whole, vec![7]);
    assert_ne!(parts, vec![7]);
}

#[test]
fn token_numbers_become_text() {
    let tok = tokenizer(&meta());
    assert_eq!(decode_tokens(&tok, &vec![4, 7, 2]), "ab<|turn>a");
    assert_eq!(decode_tokens(&tok, &vec![]), "");
    assert_eq!(decode_tokens(&tok, &vec![12345]), "");
}

#[test]
fn pieces_are_put_behind_each_other() {
    assert_eq!(append_token("x".to_string(), "yz", None), "xyz");
    assert_eq!(append_token("x".to_string(), "", None), "x");
    assert_eq!(append_token("x".to_string(), "", Some("\u{2581}w")), "x w");
    assert_eq!(append_token("x ".to_string(), "", Some("\u{2581}w")), "x w");
    assert_eq!(append_token(String::new(), "", Some("\u{2581}w")), "w");
    assert_eq!(append_token("x".to_string(), "", Some("<s>")), "x<s>");
}

#[test]
fn a_prompt_of_a_user_is_a_turn() {
    let tok = tokenizer(&meta());
    let ids = encode_user_prompt(&tok, "ab").unwrap();
    assert_eq!(ids[0], 1);
    assert_eq!(ids[1], 7);
    assert!(ids.contains(&4));
}

#[test]
fn what_a_tokenizer_needs() {
    let fail = |m: TokenizerMeta| match build_tokenizer_from_gguf(&m) {
        Ok(_) => panic!("a tokenizer came out"),
        Err(e) => e,
    };
    let mut m = meta();
    m.model = Some("bert".to_string());
    assert_eq!(fail(m), "unexpected tokenizer.ggml.model 'bert'");
    let mut m = meta();
    m.model = None;
    assert_eq!(fail(m), "unexpected tokenizer.ggml.model ''");
    let mut m = meta();
    m.tokens = None;
    assert_eq!(fail(m), "tokenizer.ggml.tokens missing");
    let mut m = meta();
    m.merges = None;
    assert_eq!(fail(m), "tokenizer.ggml.merges missing");
    let mut m = meta();
    m.merges = Some(strings(&["a q"]));
    assert!(fail(m).starts_with("BPE build failed: "));
}

#[test]
fn what_a_first_token_may_be_called() {
    let with_bos = |name: &str| {
        let mut m = meta();
        m.tokens.as_mut().unwrap()[1] = name.to_string();
        build_tokenizer_from_gguf(&m)
    };
    let fail = |name: &str| match with_bos(name) {
        Ok(_) => panic!("a tokenizer came out of {name}"),
        Err(e) => e,
    };
    let e = fail("x y");
    assert!(e.starts_with("BOS processor: Missing SpecialToken(s)"), "{e}");
    assert!(e.contains('x') && e.contains('y'));
    assert!(fail("x:1").starts_with("BOS processor: "));
    assert!(fail("x:1:2").starts_with("BOS template: Cannot build Piece"));
    assert!(fail("$q").starts_with("BOS template: Cannot build Piece"));
    for name in ["$B", "$b", "$B:3"] {
        assert_eq!(fail(name), "BOS template: names a second text");
    }
    let tok = match with_bos("$A") {
        Ok(t) => t,
        Err(e) => panic!("{e}"),
    };
    assert_eq!(encode_prompt(&tok, "ab", true), Ok(vec![4, 4]));
}

#[test]
fn special_tokens_can_be_left_out() {
    let tok = tokenizer(&meta());
    assert_eq!(decode_plain(&tok, &vec![7, 4]), "ab");
    assert_eq!(decode_tokens(&tok, &vec![7, 4]), "<|turn>ab");
}

fn text_bytes(t: &str) -> Vec<u8> {
    let mut b = (t.len() as u64).to_le_bytes().to_vec();
    b.extend(t.as_bytes());
    b
}

fn entry_bytes(key: &str, kind: u32, value: &[u8]) -> Vec<u8> {
    let mut b = text_bytes(key);
    b.extend(kind.to_le_bytes());
    b.extend(value);
    b
}

fn file_bytes(entries: &[Vec<u8>], tensors: &[Vec<u8>]) -> Vec<u8> {
    let mut b = b"GGUF".to_vec();
    b.extend(3u32.to_le_bytes());
    b.extend((tensors.len() as u64).to_le_bytes());
    b.extend((entries.len() as u64).to_le_bytes());
    b.extend(entries.concat());
    b.extend(tensors.concat());
    b
}

fn tensor_bytes(name: &str, dims: &[u64], kind: u32, offset: u64) -> Vec<u8> {
    let mut b = text_bytes(name);
    b.extend((dims.len() as u32).to_le_bytes());
    for d in dims {
        b.extend(d.to_le_bytes());
    }
    b.extend(kind.to_le_bytes());
    b.extend(offset.to_le_bytes());
    b
}

#[test]
fn the_head_of_a_model_file_is_read() {
    let mut list = 5u32.to_le_bytes().to_vec();
    list.extend(2u64.to_le_bytes());
    list.extend((-7i32).to_le_bytes());
    list.extend(9i32.to_le_bytes());
    let entries = [
        entry_bytes("a", 0, &[200]),
        entry_bytes("b", 1, &[200]),
        entry_bytes("c", 3, &(-2i16).to_le_bytes()),
        entry_bytes("d", 11, &i64::MIN.to_le_bytes()),
        entry_bytes("e", 6, &1.5f32.to_le_bytes()),
        entry_bytes("f", 12, &0.1f64.to_le_bytes()),
        entry_bytes("g", 7, &[1]),
        entry_bytes("h", 8, &text_bytes("text")),
        entry_bytes("i", 9, &list),
        entry_bytes("j", 10, &u64::MAX.to_le_bytes()),
    ];
    let file = file_bytes(&entries, &[tensor_bytes("w", &[256, 3], 12, 64)]);
    let head = read_head(&file).unwrap();
    let keys: Vec<u8> = head.meta.iter().map(|e| e.key[0]).collect();
    assert_eq!(keys, b"abcdefghij");
    let value = |i: usize| &head.meta[i].value;
    assert!(matches!(value(0), MetaValue::Uint(200)));
    assert!(matches!(value(1), MetaValue::Int(-56)));
    assert!(matches!(value(2), MetaValue::Int(-2)));
    assert!(matches!(value(3), MetaValue::Int(i64::MIN)));
    assert!(matches!(value(4), MetaValue::Single(b) if *b == 1.5f32.to_bits()));
    assert!(matches!(value(5), MetaValue::Double(b) if *b == 0.1f64.to_bits()));
    assert!(matches!(value(6), MetaValue::Flag(true)));
    assert!(matches!(value(7), MetaValue::Text(t) if t == b"text"));
    match value(8) {
        MetaValue::List(l) => {
            assert_eq!(l.len(), 2);
            assert!(matches!(l[0], MetaValue::Int(-7)) && matches!(l[1], MetaValue::Int(9)));
        }
        _ => panic!("no list"),
    }
    assert!(matches!(value(9), MetaValue::Uint(u64::MAX)));
    let t = &head.tensors[0];
    assert_eq!((&t.name[..], &t.dims[..], t.kind, t.offset), (&b"w"[..], &[256u64, 3][..], 12, 64));
    assert_eq!(head.start, file.len().div_ceil(32) * 32);
}

#[test]
fn the_data_begins_at_a_multiple_of_the_alignment() {
    let start = |entries: &[Vec<u8>]| {
        let file = file_bytes(entries, &[]);
        (file.len(), read_head(&file).unwrap().start)
    };
    assert_eq!(start(&[]), (24, 32));
    let align = |a: u32| entry_bytes("general.alignment", 4, &a.to_le_bytes());
    let (len, at) = start(&[align(8)]);
    assert_eq!((len, at), (57, 64));
    assert_eq!(start(&[align(8), align(19)]), (90, 95));
    assert_eq!(start(&[align(0)]).1, 64);
    assert_eq!(start(&[align(57)]).1, 57);
}

#[test]
fn a_damaged_model_file_is_refused() {
    let err = |b: &[u8]| read_head(&b.to_vec()).unwrap_err();
    assert_eq!(err(b"GGU"), FileError::EndsEarly);
    assert_eq!(err(b"GGML0000"), FileError::NotGguf);
    let file = file_bytes(&[entry_bytes("h", 8, &text_bytes("text"))], &[]);
    for n in 4..file.len() {
        assert_eq!(err(&file[..n]), FileError::EndsEarly);
    }
    assert!(read_head(&file).is_ok());
    assert_eq!(err(&file_bytes(&[entry_bytes("h", 13, &[])], &[])), FileError::MetaType(13));
    let far = entry_bytes("general.alignment", 10, &u64::MAX.to_le_bytes());
    assert_eq!(read_head(&file_bytes(&[far], &[])).unwrap().start, usize::MAX);
    let far = entry_bytes("general.alignment", 10, &50u64.to_le_bytes());
    assert_eq!(read_head(&file_bytes(&[far], &[])).unwrap().start, 100);
}

#[test]
fn tensors_lie_where_the_table_says() {
    let t = |dims: &[u64], kind: u32, offset: u64| TensorInfo {
        name: b"w".to_vec(),
        dims: dims.to_vec(),
        kind,
        offset,
    };
    assert_eq!(block_size(14), Ok((256, 210)));
    assert_eq!(block_size(2), Err(FileError::TensorType(2)));
    assert_eq!(tensor_range(&t(&[256, 3], 12, 64), 32, 1000), Ok((96, 528)));
    assert_eq!(tensor_range(&t(&[256, 3], 12, 64), 32, 527), Err(FileError::EndsEarly));
    assert_eq!(tensor_range(&t(&[], 0, 0), 0, 4), Ok((0, 4)));
    assert_eq!(tensor_range(&t(&[1], 7, 0), 0, 4), Err(FileError::TensorType(7)));
    let wide = [u64::MAX, 2];
    assert_eq!(tensor_range(&t(&wide, 0, 0), 0, 4), Err(FileError::TooLarge));
    let none = [u64::MAX, 2, 0];
    assert_eq!(tensor_range(&t(&none, 0, 3), 0, 4), Ok((3, 3)));
    let rows = t(&[64, 3], 8, 0);
    assert_eq!(row_range(&rows, 2, 204), Ok((136, 204)));
    assert_eq!(row_range(&rows, 3, 204), Err(FileError::EndsEarly));
    assert_eq!(row_range(&rows, usize::MAX, 204), Err(FileError::EndsEarly));
    assert_eq!(row_range(&t(&[], 0, 0), 7, 0), Ok((0, 0)));
}

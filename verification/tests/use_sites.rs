use include_packed::codec::compress;
use include_packed::codec::try_decompress;
use include_packed::decompress;
use include_packed::errors::Error;
use include_packed::ident::derive_identifier;
use include_packed::ident::Mtime;
use include_packed::include_packed;
use include_packed::target::resolve_target;
use include_packed::usesite::embed_inline;
use include_packed::usesite::resolve_native;
use include_packed::usesite::strategy_for;
use include_packed::usesite::Expansion;
use include_packed::usesite::Strategy;
use include_packed::usesite::UseSiteInput;
use include_packed::walker::Config;
use include_packed::walker::Entry;

#[test]
fn strategy_follows_the_target_signal() {
    assert_eq!(strategy_for("wasm32"), Strategy::Inline);
    assert_eq!(strategy_for("x86_64"), Strategy::Native);
    assert_eq!(strategy_for("aarch64"), Strategy::Native);
    assert_eq!(strategy_for(""), Strategy::Native);
}

#[test]
fn native_resolution_re_derives_the_preparation_symbol() {
    // Prepare one asset, then resolve a use-site for the same path and
    // mtime against the record preparation wrote: both sides must meet
    // at the same symbol, with the recorded length.
    let m = Mtime { secs: 1234, nanos: 0 };
    let tree = Entry::File {
        rel_path: "assets/file.txt".to_string(),
        mtime: m,
        content: b"hello\n".to_vec(),
    };
    let target = resolve_target("linux", "x86_64", "little").expect("must resolve");
    let arts = Config::new("assets").pack(&tree, &target).expect("pack must succeed");
    let art = &arts[0];

    let nr = resolve_native("assets/file.txt", &m, Some(art.len_record.as_str()))
        .expect("record is well-formed");
    assert_eq!(nr.symbol, art.symbol);
    assert_eq!(nr.len, art.symbol_data.len() as u64);
}

#[test]
fn native_resolution_reports_a_missing_record() {
    let m = Mtime { secs: 7, nanos: 9 };
    let expected = format!("{}.len", derive_identifier("assets/gone.txt", &m));
    let r = resolve_native("assets/gone.txt", &m, None);
    assert_eq!(r, Err(Error::LenRecordMissing(expected, "assets/gone.txt".to_string())));
}

#[test]
fn native_resolution_reports_a_corrupt_record() {
    let m = Mtime { secs: 7, nanos: 9 };
    let expected = format!("{}.len", derive_identifier("assets/bad.txt", &m));
    for bad in ["", "12x4", "99999999999999999999999999"] {
        let r = resolve_native("assets/bad.txt", &m, Some(bad));
        assert_eq!(r, Err(Error::LenRecordCorrupt(expected.clone())));
    }
}

#[test]
fn scenario_fallback_path_hello() {
    let content = b"hello\n".to_vec();
    let inline = embed_inline(&content).expect("compression must succeed");
    // The fallback inlines the fixed-level frame...
    assert_eq!(inline, compress(b"hello\n", 3).expect("compression must succeed"));
    // ...and it decompresses to the identical bytes the native path yields.
    let restored = decompress(&inline);
    assert_eq!(restored, b"hello\n");
}

#[test]
fn dispatch_native_and_inline() {
    let m = Mtime { secs: 1234, nanos: 0 };
    let native = UseSiteInput::Native {
        rel_path: "assets/file.txt".to_string(),
        mtime: m,
        len_record: Some("17".to_string()),
    };
    match include_packed(&native).expect("well-formed record") {
        Expansion::Native(nr) => {
            assert_eq!(nr.symbol, derive_identifier("assets/file.txt", &m));
            assert_eq!(nr.len, 17);
        }
        Expansion::Inline(_) => panic!("native input must resolve to a native reference"),
    }

    let inline = UseSiteInput::Inline { content: b"hello\n".to_vec() };
    match include_packed(&inline).expect("compression must succeed") {
        Expansion::Inline(blob) => {
            assert_eq!(try_decompress(&blob).expect("frame"), b"hello\n");
        }
        Expansion::Native(_) => panic!("inline input must resolve to inline bytes"),
    }
}

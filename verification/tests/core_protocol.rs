use include_packed::codec::compress;
use include_packed::codec::try_decompress;
use include_packed::decompress;
use include_packed::errors::Error;
use include_packed::ident::derive_identifier;
use include_packed::ident::Mtime;
use include_packed::target::resolve_target;
use include_packed::target::Endian;
use include_packed::target::ObjectFormat;
use include_packed::text::parse_dec;
use include_packed::text::str_eq;
use include_packed::text::u64_to_dec;

#[test]
fn identifier_is_stable_across_calls() {
    let m = Mtime { secs: 1_700_000_000, nanos: 123_456_789 };
    let a = derive_identifier("assets/file.txt", &m);
    let b = derive_identifier("assets/file.txt", &m);
    assert_eq!(a, b);
}

#[test]
fn identifier_has_fixed_format() {
    let m = Mtime { secs: 42, nanos: 0 };
    let id = derive_identifier("a", &m);
    assert_eq!(id.len(), "include_packed_".len() + 16);
    assert!(id.starts_with("include_packed_"));
    let digest = &id["include_packed_".len()..];
    assert!(digest.chars().all(|c| c.is_ascii_hexdigit() && !c.is_ascii_uppercase()));
}

#[test]
fn identifier_differs_for_distinct_inputs() {
    let m = Mtime { secs: 1_700_000_000, nanos: 0 };
    let a = derive_identifier("assets/a.txt", &m);
    let b = derive_identifier("assets/b.txt", &m);
    assert_ne!(a, b);
    let later = Mtime { secs: 1_700_000_001, nanos: 0 };
    let c = derive_identifier("assets/a.txt", &later);
    assert_ne!(a, c);
}

#[test]
fn round_trip_at_every_level() {
    let data: Vec<u8> = (0u32..2048).map(|i| (i * 7 % 251) as u8).collect();
    for level in 1..=21 {
        let compressed = compress(&data, level).expect("compression failed");
        let restored = decompress(&compressed);
        assert_eq!(restored, data);
    }
}

#[test]
fn round_trip_empty_buffer() {
    let compressed = compress(&[], 1).expect("compression failed");
    let restored = decompress(&compressed);
    assert!(restored.is_empty());
}

#[test]
fn try_decompress_rejects_garbage() {
    assert_eq!(try_decompress(b"this is not a zstd frame"), None);
}

#[test]
fn target_resolution_is_total_over_the_allow_list() {
    let oses = [
        "macos", "ios", "windows", "linux", "android", "freebsd", "netbsd", "openbsd",
        "dragonfly", "solaris", "illumos",
    ];
    let arches = [
        "x86", "x86_64", "arm", "aarch64", "riscv32", "riscv64", "mips", "mips64", "powerpc",
        "powerpc64",
    ];
    let endians = ["little", "big"];
    for os in oses {
        for arch in arches {
            for endian in endians {
                let t = resolve_target(os, arch, endian)
                    .unwrap_or_else(|_| panic!("{os}/{arch}/{endian} must resolve"));
                let expected_format = match os {
                    "macos" | "ios" => ObjectFormat::MachO,
                    "windows" => ObjectFormat::Coff,
                    _ => ObjectFormat::Elf,
                };
                assert_eq!(t.format, expected_format);
                let expected_endian = if endian == "little" { Endian::Little } else { Endian::Big };
                assert_eq!(t.endian, expected_endian);
            }
        }
    }
}

#[test]
fn target_resolution_rejects_everything_else() {
    assert_eq!(
        resolve_target("plan9", "x86_64", "little"),
        Err(Error::UnsupportedTarget("plan9".to_string()))
    );
    assert_eq!(
        resolve_target("linux", "sparc64", "big"),
        Err(Error::UnsupportedTarget("sparc64".to_string()))
    );
    assert_eq!(
        resolve_target("linux", "x86", "middle"),
        Err(Error::UnsupportedTarget("middle".to_string()))
    );
    assert_eq!(
        resolve_target("", "", ""),
        Err(Error::UnsupportedTarget(String::new()))
    );
}

#[test]
fn decimal_rendering_exact_values() {
    assert_eq!(u64_to_dec(0), "0");
    assert_eq!(u64_to_dec(42), "42");
    assert_eq!(u64_to_dec(1006), "1006");
    assert_eq!(u64_to_dec(u64::MAX), "18446744073709551615");
}

#[test]
fn decimal_parsing_exact_values() {
    assert_eq!(parse_dec("0"), Some(0));
    assert_eq!(parse_dec("007"), Some(7));
    assert_eq!(parse_dec("18446744073709551615"), Some(u64::MAX));
    assert_eq!(parse_dec("18446744073709551616"), None);
    assert_eq!(parse_dec(""), None);
    assert_eq!(parse_dec("12x4"), None);
    assert_eq!(parse_dec("-3"), None);
    assert_eq!(parse_dec(" 3"), None);
}

#[test]
fn decimal_round_trip_through_text() {
    for n in [0u64, 1, 9, 10, 99, 100, 4096, u64::MAX] {
        assert_eq!(parse_dec(&u64_to_dec(n)), Some(n));
    }
}

#[test]
fn string_equality_by_characters() {
    assert!(str_eq("wasm32", "wasm32"));
    assert!(!str_eq("wasm32", "wasm64"));
    assert!(!str_eq("", "a"));
    assert!(str_eq("", ""));
}

#[test]
fn error_messages_name_their_values() {
    assert_eq!(
        Error::PathNotFound("does/not/exist".to_string(), "/work".to_string()).message(),
        "Path 'does/not/exist' not found (current directory is '/work')"
    );
    assert_eq!(
        Error::UnsupportedFileType("assets/pipe".to_string()).message(),
        "Path 'assets/pipe' has unsupported file type"
    );
    assert_eq!(
        Error::Var("CARGO_CFG_TARGET_ARCH".to_string()).message(),
        "Environment variable 'CARGO_CFG_TARGET_ARCH' not set by Cargo"
    );
    assert_eq!(
        Error::UnsupportedTarget("plan9".to_string()).message(),
        "Unsupported target 'plan9'"
    );
    assert_eq!(Error::Io("short read".to_string()).message(), "I/O error: short read");
    assert_eq!(
        Error::Object("bad relocation".to_string()).message(),
        "Object writing error: bad relocation"
    );
    assert_eq!(
        Error::LenRecordMissing("include_packed_00ff.len".to_string(), "assets/a".to_string())
            .message(),
        "Missing length record 'include_packed_00ff.len' for asset 'assets/a'; rerun asset preparation"
    );
    assert_eq!(
        Error::LenRecordCorrupt("include_packed_00ff.len".to_string()).message(),
        "Corrupt length record 'include_packed_00ff.len'; rerun asset preparation"
    );
}

use include_packed::codec::try_decompress;
use include_packed::errors::Error;
use include_packed::ident::derive_identifier;
use include_packed::ident::Mtime;
use include_packed::target::resolve_target;
use include_packed::target::TargetDescriptor;
use include_packed::walker::Artifact;
use include_packed::walker::Config;
use include_packed::walker::Entry;
use object::Object;
use object::ObjectSection;
use object::ObjectSymbol;

fn file(path: &str, secs: u64, content: &[u8]) -> Entry {
    Entry::File {
        rel_path: path.to_string(),
        mtime: Mtime { secs, nanos: 0 },
        content: content.to_vec(),
    }
}

fn native_target() -> TargetDescriptor {
    resolve_target("linux", "x86_64", "little").expect("listed target must resolve")
}

#[test]
fn config_builder_defaults_and_level() {
    let c = Config::new("assets");
    assert_eq!(c.path, "assets");
    assert_eq!(c.level, 6);
    let c = c.level(9);
    assert_eq!(c.path, "assets");
    assert_eq!(c.level, 9);
}

#[test]
fn walker_yields_one_pair_per_regular_file() {
    let tree = Entry::Dir {
        entries: vec![
            file("assets/a.txt", 100, b"alpha"),
            Entry::Dir {
                entries: vec![
                    file("assets/sub/b.txt", 200, b"beta"),
                    file("assets/sub/c.bin", 300, &[0u8; 64]),
                ],
            },
            Entry::Dir { entries: vec![] },
        ],
    };
    let arts = Config::new("assets").pack(&tree, &native_target()).expect("pack must succeed");
    assert_eq!(arts.len(), 3);
    let m100 = Mtime { secs: 100, nanos: 0 };
    let m200 = Mtime { secs: 200, nanos: 0 };
    let m300 = Mtime { secs: 300, nanos: 0 };
    assert_eq!(arts[0].symbol, derive_identifier("assets/a.txt", &m100));
    assert_eq!(arts[1].symbol, derive_identifier("assets/sub/b.txt", &m200));
    assert_eq!(arts[2].symbol, derive_identifier("assets/sub/c.bin", &m300));
    for a in &arts {
        assert_eq!(a.object_file_name(), format!("{}.o", a.symbol));
        assert_eq!(a.len_file_name(), format!("{}.len", a.symbol));
        assert_eq!(a.len_record, a.symbol_data.len().to_string());
    }
}

#[test]
fn walker_packs_a_fileless_tree_to_nothing() {
    let tree = Entry::Dir {
        entries: vec![Entry::Dir { entries: vec![] }, Entry::Dir { entries: vec![] }],
    };
    let arts = Config::new("assets").pack(&tree, &native_target()).expect("no file, no failure");
    assert!(arts.is_empty());
}

#[test]
fn walker_rejects_non_regular_entries() {
    let tree = Entry::Dir {
        entries: vec![
            file("assets/a.txt", 100, b"alpha"),
            Entry::Other { rel_path: "assets/weird.sock".to_string() },
            file("assets/b.txt", 200, b"beta"),
        ],
    };
    let r = Config::new("assets").pack(&tree, &native_target());
    assert_eq!(r, Err(Error::UnsupportedFileType("assets/weird.sock".to_string())));
}

#[test]
fn scenario_native_path_hello() {
    let tree = file("assets/file.txt", 1234, b"hello\n");
    let arts = Config::new("assets").pack(&tree, &native_target()).expect("pack must succeed");
    assert_eq!(arts.len(), 1);
    let art: &Artifact = &arts[0];

    // The length record names the compressed blob's size in decimal.
    assert_eq!(art.len_record, art.symbol_data.len().to_string());

    // Parse the object artifact back and pull the linked symbol's bytes
    // out of its section: they must decompress to exactly the asset.
    let obj = object::File::parse(art.object.as_slice()).expect("artifact must parse");
    let sym = obj
        .symbols()
        .find(|s| s.name() == Ok(art.symbol.as_str()))
        .expect("exported symbol must exist");
    assert!(sym.is_global());
    assert_eq!(sym.size(), art.symbol_data.len() as u64);
    let section = obj
        .section_by_index(sym.section_index().expect("symbol must live in a section"))
        .expect("section must exist");
    let data = section.data().expect("section data");
    let start = sym.address() as usize;
    let blob = &data[start..start + art.symbol_data.len()];
    assert_eq!(blob, art.symbol_data.as_slice());
    let restored = try_decompress(blob).expect("blob must be a zstd frame");
    assert_eq!(restored, b"hello\n");
}

#[test]
fn preparation_is_idempotent() {
    let tree = Entry::Dir {
        entries: vec![file("assets/a.txt", 100, b"alpha"), file("assets/b.txt", 200, b"beta")],
    };
    let c = Config::new("assets");
    let first = c.pack(&tree, &native_target()).expect("pack must succeed");
    let second = c.pack(&tree, &native_target()).expect("pack must succeed");
    assert_eq!(first, second);
}

#[test]
fn artifacts_differ_per_target_format() {
    let tree = file("assets/a.txt", 100, b"alpha");
    let c = Config::new("assets");
    let elf = c.pack(&tree, &native_target()).expect("pack must succeed");
    let macho_target = resolve_target("macos", "aarch64", "little").expect("must resolve");
    let macho = c.pack(&tree, &macho_target).expect("pack must succeed");
    assert_eq!(elf[0].symbol, macho[0].symbol);
    assert_eq!(elf[0].symbol_data, macho[0].symbol_data);
    assert_ne!(elf[0].object, macho[0].object);
}

//! The walker and artifact store model.  Preparation walks an in-memory
//! snapshot of the asset tree in filesystem order: every regular file is
//! compressed, named, and synthesized into one object artifact plus one
//! side-channel length record; any other entry type aborts the whole run
//! with no output at all, so no partial asset set can ever be linked.

use vstd::prelude::*;
use vstd::string::StringExecFns;
use crate::codec::compress;
use crate::codec::zstd_encode;
use crate::errors::Error;
use crate::ident::Mtime;
use crate::ident::derive_identifier;
use crate::ident::identifier_chars;
use crate::objfile::object_bytes;
use crate::objfile::synthesize_object;
use crate::target::TargetDescriptor;
use crate::text::dec_chars;
use crate::text::u64_to_dec;

verus! {

/// One entry of the asset tree, as the surrounding build script observed
/// it: a regular file with its path relative to the project root, its
/// modification time and its bytes; a directory with its entries in
/// filesystem order; or anything else, which preparation must reject.
#[derive(Debug)]
pub enum Entry {
    File { rel_path: String, mtime: Mtime, content: Vec<u8> },
    Dir { entries: Vec<Entry> },
    Other { rel_path: String },
}

/// The mathematical model of one produced artifact.
pub struct ArtifactModel {
    pub symbol: Seq<char>,
    pub symbol_data: Seq<u8>,
    pub object: Seq<u8>,
    pub len_record: Seq<char>,
}

/// One produced artifact: the identifier token, the compressed blob the
/// exported symbol is backed by, the serialized object file, and the
/// decimal length record.
#[derive(Debug, PartialEq, Eq)]
pub struct Artifact {
    pub symbol: String,
    pub symbol_data: Vec<u8>,
    pub object: Vec<u8>,
    pub len_record: String,
}

impl View for Artifact {
    type V = ArtifactModel;

    open spec fn view(&self) -> ArtifactModel {
        ArtifactModel {
            symbol: self.symbol@,
            symbol_data: self.symbol_data@,
            object: self.object@,
            len_record: self.len_record@,
        }
    }
}

impl Artifact {
    /// The name of the object artifact file, `<identifier>.o`.
    pub fn object_file_name(&self) -> (r: String)
        ensures
            r@ == self.symbol@ + ".o"@,
    {
        let mut s: String = self.symbol.clone();
        s.append(".o");
        s
    }

    /// The name of the length record file, `<identifier>.len`.
    pub fn len_file_name(&self) -> (r: String)
        ensures
            r@ == self.symbol@ + ".len"@,
    {
        let mut s: String = self.symbol.clone();
        s.append(".len");
        s
    }
}

/// The artifact owed to one regular file: symbol named by the identifier,
/// backed by the compressed blob, with the blob's length as the record.
pub open spec fn artifact_of(path: Seq<char>, m: Mtime, content: Seq<u8>, level: int, t: TargetDescriptor) -> ArtifactModel {
    let symbol = identifier_chars(path, m);
    let blob = zstd_encode(content, level);
    ArtifactModel {
        symbol: symbol,
        symbol_data: blob,
        object: object_bytes(t, seq![(symbol, blob)]),
        len_record: dec_chars(blob.len()),
    }
}

/// The number of regular files in a tree.
pub open spec fn file_count(e: Entry) -> nat
    decreases e,
{
    match e {
        Entry::File { .. } => 1nat,
        Entry::Dir { entries } => file_count_seq(entries@),
        Entry::Other { .. } => 0nat,
    }
}

/// The number of regular files under a sequence of entries.
pub open spec fn file_count_seq(s: Seq<Entry>) -> nat
    decreases s,
{
    if s.len() == 0 {
        0nat
    } else {
        file_count(s[0]) + file_count_seq(s.drop_first())
    }
}

/// The path of the first non-regular entry in walk order, if any.
pub open spec fn first_bad(e: Entry) -> Option<Seq<char>>
    decreases e,
{
    match e {
        Entry::File { .. } => None,
        Entry::Dir { entries } => first_bad_seq(entries@),
        Entry::Other { rel_path } => Some(rel_path@),
    }
}

/// The path of the first non-regular entry under a sequence of entries.
pub open spec fn first_bad_seq(s: Seq<Entry>) -> Option<Seq<char>>
    decreases s,
{
    if s.len() == 0 {
        None
    } else if first_bad(s[0]) is Some {
        first_bad(s[0])
    } else {
        first_bad_seq(s.drop_first())
    }
}

/// The artifacts owed to a tree, one per regular file, in walk order.
pub open spec fn artifacts_of(e: Entry, level: int, t: TargetDescriptor) -> Seq<ArtifactModel>
    decreases e,
{
    match e {
        Entry::File { rel_path, mtime, content } => seq![artifact_of(rel_path@, mtime, content@, level, t)],
        Entry::Dir { entries } => artifacts_of_seq(entries@, level, t),
        Entry::Other { .. } => Seq::empty(),
    }
}

/// The artifacts owed to a sequence of entries, in order.
pub open spec fn artifacts_of_seq(s: Seq<Entry>, level: int, t: TargetDescriptor) -> Seq<ArtifactModel>
    decreases s,
{
    if s.len() == 0 {
        Seq::empty()
    } else {
        artifacts_of(s[0], level, t) + artifacts_of_seq(s.drop_first(), level, t)
    }
}

proof fn lemma_first_bad_push(s: Seq<Entry>, x: Entry)
    ensures
        first_bad_seq(s.push(x)) == if first_bad_seq(s) is Some {
            first_bad_seq(s)
        } else {
            first_bad(x)
        },
    decreases s,
{
    assert(s.push(x).len() == s.len() + 1);
    assert(first_bad_seq(s.push(x)) == (if first_bad(s.push(x)[0]) is Some {
        first_bad(s.push(x)[0])
    } else {
        first_bad_seq(s.push(x).drop_first())
    }));
    if s.len() == 0 {
        assert(s.push(x)[0] == x);
        assert(s.push(x).drop_first() =~= Seq::<Entry>::empty());
        assert(first_bad_seq(Seq::<Entry>::empty()) is None);
    } else {
        assert(s.push(x)[0] == s[0]);
        assert(s.push(x).drop_first() =~= s.drop_first().push(x));
        lemma_first_bad_push(s.drop_first(), x);
    }
}

proof fn lemma_artifacts_push(s: Seq<Entry>, x: Entry, level: int, t: TargetDescriptor)
    ensures
        artifacts_of_seq(s.push(x), level, t) == artifacts_of_seq(s, level, t) + artifacts_of(x, level, t),
    decreases s,
{
    assert(s.push(x).len() == s.len() + 1);
    assert(artifacts_of_seq(s.push(x), level, t) == artifacts_of(s.push(x)[0], level, t)
        + artifacts_of_seq(s.push(x).drop_first(), level, t));
    if s.len() == 0 {
        assert(s.push(x)[0] == x);
        assert(s.push(x).drop_first() =~= Seq::<Entry>::empty());
        assert(artifacts_of_seq(Seq::<Entry>::empty(), level, t) == Seq::<ArtifactModel>::empty());
        assert(artifacts_of_seq(s, level, t) == Seq::<ArtifactModel>::empty());
        assert(artifacts_of_seq(s.push(x), level, t) =~= artifacts_of_seq(s, level, t) + artifacts_of(x, level, t));
    } else {
        assert(s.push(x)[0] == s[0]);
        assert(s.push(x).drop_first() =~= s.drop_first().push(x));
        lemma_artifacts_push(s.drop_first(), x, level, t);
        assert(artifacts_of_seq(s.push(x), level, t) =~= artifacts_of_seq(s, level, t) + artifacts_of(x, level, t));
    }
}

/// Walker completeness: a tree with N regular files is owed exactly N
/// artifacts — one `.o`/`.len` pair per file — however deeply nested.
pub proof fn lemma_walker_complete(e: Entry, level: int, t: TargetDescriptor)
    ensures
        artifacts_of(e, level, t).len() == file_count(e),
    decreases e,
{
    match e {
        Entry::File { .. } => {},
        Entry::Other { .. } => {},
        Entry::Dir { entries } => {
            lemma_walker_complete_seq(entries@, level, t);
        },
    }
}

/// Walker completeness over a sequence of sibling entries.
pub proof fn lemma_walker_complete_seq(s: Seq<Entry>, level: int, t: TargetDescriptor)
    ensures
        artifacts_of_seq(s, level, t).len() == file_count_seq(s),
    decreases s,
{
    if s.len() == 0 {
    } else {
        lemma_walker_complete(s[0], level, t);
        lemma_walker_complete_seq(s.drop_first(), level, t);
    }
}

/// Idempotence of preparation: the artifacts owed to a tree are a pure
/// function of the tree, the level and the target, so re-running
/// preparation on an unmodified tree yields identical length records and
/// an identical exported symbol per artifact.
pub proof fn lemma_pack_deterministic(a: Seq<ArtifactModel>, b: Seq<ArtifactModel>, e: Entry, level: int, t: TargetDescriptor)
    requires
        a == artifacts_of(e, level, t),
        b == artifacts_of(e, level, t),
    ensures
        a == b,
{
}

/// The matching protocol between the two phases: the length record that
/// preparation writes for an asset is a well-formed decimal record, it
/// parses back to exactly the exported symbol's size, and the symbol is
/// named by the same identifier derivation every use-site runs.
pub proof fn lemma_protocol_agreement(path: Seq<char>, m: Mtime, content: Seq<u8>, level: int, t: TargetDescriptor)
    ensures
        crate::text::is_dec_seq(artifact_of(path, m, content, level, t).len_record),
        crate::text::dec_val(artifact_of(path, m, content, level, t).len_record)
            == artifact_of(path, m, content, level, t).symbol_data.len(),
        artifact_of(path, m, content, level, t).symbol == identifier_chars(path, m),
{
    crate::text::lemma_dec_round_trip(zstd_encode(content, level).len());
}

/// Processes one regular file: derive the identifier, compress the bytes,
/// synthesize the object artifact and render the length record.
pub fn process_file(rel_path: &str, mtime: &Mtime, content: &Vec<u8>, level: i32, t: &TargetDescriptor) -> (r: Result<Artifact, Error>)
    requires
        1 <= level <= 21,
    ensures
        match r {
            Ok(a) => a@ == artifact_of(rel_path@, *mtime, content@, level as int, *t),
            Err(e) => e matches Error::Io(_) || e matches Error::Object(_),
        },
{
    let symbol: String = derive_identifier(rel_path, mtime);
    let blob: Vec<u8> = match compress(content.as_slice(), level) {
        Ok(b) => b,
        Err(e) => {
            return Err(e);
        },
    };
    let object: Vec<u8> = match synthesize_object(t, symbol.as_str(), blob.as_slice()) {
        Ok(b) => b,
        Err(e) => {
            return Err(e);
        },
    };
    let len_record: String = u64_to_dec(blob.len() as u64);
    Ok(Artifact { symbol, symbol_data: blob, object, len_record })
}

fn pack_into(e: &Entry, level: i32, t: &TargetDescriptor, out: &mut Vec<Artifact>) -> (r: Result<(), Error>)
    requires
        1 <= level <= 21,
    ensures
        match r {
            Ok(()) => first_bad(*e) is None && final(out)@.map_values(|a: Artifact| a@)
                == old(out)@.map_values(|a: Artifact| a@) + artifacts_of(*e, level as int, *t),
            Err(err) => match err {
                Error::UnsupportedFileType(p) => first_bad(*e) == Some(p@),
                Error::Io(_) => file_count(*e) > 0,
                Error::Object(_) => file_count(*e) > 0,
                _ => false,
            },
        },
    decreases *e,
{
    match e {
        Entry::File { rel_path, mtime, content } => {
            match process_file(rel_path.as_str(), mtime, content, level, t) {
                Ok(a) => {
                    let ghost prev = out@;
                    out.push(a);
                    proof {
                        assert(out@.map_values(|x: Artifact| x@) =~= prev.map_values(|x: Artifact| x@).push(a@));
                        assert(out@.map_values(|x: Artifact| x@) =~= prev.map_values(|x: Artifact| x@) + artifacts_of(*e, level as int, *t));
                    }
                    Ok(())
                },
                Err(err) => Err(err),
            }
        },
        Entry::Other { rel_path } => Err(Error::UnsupportedFileType(rel_path.clone())),
        Entry::Dir { entries } => {
            let n: usize = entries.len();
            let mut i: usize = 0;
            proof {
                assert(entries@.take(0) =~= Seq::<Entry>::empty());
                assert(out@.map_values(|x: Artifact| x@) =~= old(out)@.map_values(|x: Artifact| x@) + artifacts_of_seq(entries@.take(0), level as int, *t));
            }
            while i < n
                invariant
                    1 <= level <= 21,
                    n == entries@.len(),
                    0 <= i <= n,
                    *e == (Entry::Dir { entries: *entries }),
                    first_bad_seq(entries@.take(i as int)) is None,
                    out@.map_values(|x: Artifact| x@) == old(out)@.map_values(|x: Artifact| x@)
                        + artifacts_of_seq(entries@.take(i as int), level as int, *t),
                decreases n - i,
            {
                let ghost pre = out@;
                let child: &Entry = &entries[i];
                proof {
                    assert(*child == entries@[i as int]);
                }
                match pack_into(child, level, t, out) {
                    Ok(()) => {},
                    Err(err) => {
                        proof {
                            if err matches Error::UnsupportedFileType(_) {
                                lemma_first_bad_prefix(entries@, i as int);
                            } else {
                                lemma_file_count_member(entries@, i as int);
                            }
                        }
                        return Err(err);
                    },
                }
                proof {
                    assert(entries@.take(i + 1) =~= entries@.take(i as int).push(entries@[i as int]));
                    lemma_first_bad_push(entries@.take(i as int), entries@[i as int]);
                    lemma_artifacts_push(entries@.take(i as int), entries@[i as int], level as int, *t);
                    assert(out@.map_values(|x: Artifact| x@) =~= old(out)@.map_values(|x: Artifact| x@)
                        + artifacts_of_seq(entries@.take(i + 1), level as int, *t));
                }
                i = i + 1;
            }
            proof {
                assert(entries@.take(n as int) =~= entries@);
            }
            Ok(())
        },
    }
}

proof fn lemma_file_count_member(s: Seq<Entry>, i: int)
    requires
        0 <= i < s.len(),
    ensures
        file_count_seq(s) >= file_count(s[i]),
    decreases s,
{
    if i == 0 {
    } else {
        lemma_file_count_member(s.drop_first(), i - 1);
        assert(s.drop_first()[i - 1] == s[i]);
    }
}

proof fn lemma_first_bad_prefix(s: Seq<Entry>, i: int)
    requires
        0 <= i < s.len(),
        first_bad_seq(s.take(i)) is None,
        first_bad(s[i]) is Some,
    ensures
        first_bad_seq(s) == first_bad(s[i]),
    decreases s,
{
    if i == 0 {
    } else {
        assert(s.take(i)[0] == s[0]);
        assert(first_bad(s[0]) is None);
        assert(s.take(i).drop_first() =~= s.drop_first().take(i - 1));
        assert(first_bad_seq(s.take(i)) == first_bad_seq(s.drop_first().take(i - 1)));
        lemma_first_bad_prefix(s.drop_first(), i - 1);
        assert(s.drop_first()[i - 1] == s[i]);
    }
}

/// The default compression level of the preparation path.
pub const DEFAULT_COMPRESSION_LEVEL: i32 = 6;

/// The preparation configuration: an asset root path, relative to the
/// project root, and a compression level.
#[derive(Debug, Clone)]
pub struct Config {
    pub path: String,
    pub level: i32,
}

impl Config {
    /// Creates a configuration for the given asset path with the default
    /// compression level.
    pub fn new(path: &str) -> (r: Config)
        ensures
            r.path@ == path@,
            r.level == DEFAULT_COMPRESSION_LEVEL,
    {
        Config { path: String::from_str(path), level: DEFAULT_COMPRESSION_LEVEL }
    }

    /// Sets the compression level (1-21).
    pub fn level(self, level: i32) -> (r: Config)
        ensures
            r.path == self.path,
            r.level == level,
    {
        Config { path: self.path, level }
    }

    /// Packs a snapshot of the asset tree: one artifact per regular file,
    /// in walk order.  Any non-regular entry aborts the whole run with an
    /// error naming the first such path, and no artifact is handed out —
    /// there is never a partial asset set.  Compressor and encoder
    /// failures can only arise where a file was handed to them, so a
    /// clean tree with no regular file at all always packs to nothing.
    pub fn pack(&self, root: &Entry, target: &TargetDescriptor) -> (r: Result<Vec<Artifact>, Error>)
        requires
            1 <= self.level <= 21,
        ensures
            match r {
                Ok(v) => first_bad(*root) is None && v@.map_values(|a: Artifact| a@)
                    == artifacts_of(*root, self.level as int, *target),
                Err(err) => match err {
                    Error::UnsupportedFileType(p) => first_bad(*root) == Some(p@),
                    Error::Io(_) => file_count(*root) > 0,
                    Error::Object(_) => file_count(*root) > 0,
                    _ => false,
                },
            },
    {
        let mut out: Vec<Artifact> = Vec::new();
        match pack_into(root, self.level, target, &mut out) {
            Ok(()) => {
                proof {
                    assert(out@.map_values(|a: Artifact| a@) =~= artifacts_of(*root, self.level as int, *target));
                }
                Ok(out)
            },
            Err(err) => Err(err),
        }
    }
}

} // verus!

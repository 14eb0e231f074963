//! The object synthesizer boundary.  Building the native object file is
//! delegated to the object crate's writer, modeled here as a builder
//! whose state is the target it was created for plus the sequence of
//! data symbols added so far; `write` serializes that state
//! deterministically.

use vstd::prelude::*;
use crate::errors::Error;
use crate::target::Endian;
use crate::target::ObjectFormat;
use crate::target::TargetArch;
use crate::target::TargetDescriptor;

verus! {

#[verifier::external_type_specification]
#[verifier::external_body]
pub struct ExObject<'a>(object::write::Object<'a>);

/// The target an object builder was created for.
pub uninterp spec fn obj_target(o: object::write::Object<'static>) -> TargetDescriptor;

/// The data symbols added to an object builder so far: symbol name and
/// symbol bytes, in insertion order.
pub uninterp spec fn obj_symbols(o: object::write::Object<'static>) -> Seq<(Seq<char>, Seq<u8>)>;

/// The serialized object file for a target and its data symbols: a pure
/// function of the two, not further specified.
pub uninterp spec fn object_bytes(t: TargetDescriptor, symbols: Seq<(Seq<char>, Seq<u8>)>) -> Seq<u8>;

/// Relies on object::write::Object::new: an empty object for the given
/// format, architecture and endianness.
#[verifier::external_body]
fn object_new(t: &TargetDescriptor) -> (r: object::write::Object<'static>)
    ensures
        obj_target(r) == *t,
        obj_symbols(r) == Seq::<(Seq<char>, Seq<u8>)>::empty(),
{
    let f = match t.format { ObjectFormat::Elf => object::BinaryFormat::Elf, ObjectFormat::MachO => object::BinaryFormat::MachO, ObjectFormat::Coff => object::BinaryFormat::Coff };
    let a = match t.arch { TargetArch::X86 => object::Architecture::I386, TargetArch::X86_64 => object::Architecture::X86_64, TargetArch::Arm => object::Architecture::Arm, TargetArch::Aarch64 => object::Architecture::Aarch64, TargetArch::Riscv32 => object::Architecture::Riscv32, TargetArch::Riscv64 => object::Architecture::Riscv64, TargetArch::Mips => object::Architecture::Mips, TargetArch::Mips64 => object::Architecture::Mips64, TargetArch::PowerPc => object::Architecture::PowerPc, TargetArch::PowerPc64 => object::Architecture::PowerPc64 };
    let e = match t.endian { Endian::Little => object::Endianness::Little, Endian::Big => object::Endianness::Big };
    object::write::Object::new(f, a, e)
}

/// Relies on Object::add_subsection, Object::add_symbol and
/// Object::add_symbol_data: adds one read-only-data subsection tagged by
/// the symbol name, and one data symbol of dynamic scope at offset 0
/// covering the whole blob at 1-byte alignment.
#[verifier::external_body]
fn object_add_data_symbol(o: &mut object::write::Object<'static>, symbol: &str, data: &[u8])
    ensures
        obj_target(*final(o)) == obj_target(*old(o)),
        obj_symbols(*final(o)) == obj_symbols(*old(o)).push((symbol@, data@)),
{
    let section = o.add_subsection(object::write::StandardSection::ReadOnlyData, symbol.as_bytes());
    let sym = o.add_symbol(object::write::Symbol { name: symbol.as_bytes().to_vec(), value: 0, size: data.len() as u64, kind: object::SymbolKind::Data, scope: object::SymbolScope::Dynamic, weak: false, section: object::write::SymbolSection::Section(section), flags: object::SymbolFlags::None });
    o.add_symbol_data(sym, section, data, 1);
}

/// Relies on Object::write: serializes the builder's state, deterministic
/// for one state; an encoding failure surfaces as an error with no bytes.
#[verifier::external_body]
fn object_write(o: &object::write::Object<'static>) -> (r: Result<Vec<u8>, Error>)
    ensures
        match r {
            Ok(b) => b@ == object_bytes(obj_target(*o), obj_symbols(*o)),
            Err(e) => e matches Error::Object(_),
        },
{
    match o.write() {
        Ok(b) => Ok(b),
        Err(e) => Err(Error::Object(e.to_string())),
    }
}

/// Synthesizes the object artifact for one asset: an object file in the
/// target's native format whose only exported item is a read-only data
/// symbol named by the identifier and backed by the compressed blob.
/// Deterministic for identical inputs; an encoding failure propagates as
/// an error rather than emitting a partial file.
pub fn synthesize_object(t: &TargetDescriptor, symbol: &str, data: &[u8]) -> (r: Result<Vec<u8>, Error>)
    ensures
        match r {
            Ok(b) => b@ == object_bytes(*t, seq![(symbol@, data@)]),
            Err(e) => e matches Error::Object(_),
        },
{
    let mut obj: object::write::Object<'static> = object_new(t);
    object_add_data_symbol(&mut obj, symbol, data);
    proof {
        assert(obj_symbols(obj) =~= seq![(symbol@, data@)]);
    }
    object_write(&obj)
}

} // verus!

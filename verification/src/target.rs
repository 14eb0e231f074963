//! The target resolver: maps the raw OS, architecture and endianness
//! strings published by the build environment onto a closed allow-list of
//! object formats, architectures and byte orders.  Anything outside the
//! list is a fatal configuration error — guessing a format would produce
//! an undetectably corrupt artifact.

use vstd::prelude::*;
use vstd::string::StringExecFns;
use crate::errors::Error;
use crate::text::str_eq;

verus! {

/// The object-file container format of a target.
#[derive(Debug, Clone, Copy, PartialEq, Eq, Structural)]
pub enum ObjectFormat {
    Elf,
    MachO,
    Coff,
}

/// The instruction-set architecture of a target.
#[derive(Debug, Clone, Copy, PartialEq, Eq, Structural)]
pub enum TargetArch {
    X86,
    X86_64,
    Arm,
    Aarch64,
    Riscv32,
    Riscv64,
    Mips,
    Mips64,
    PowerPc,
    PowerPc64,
}

/// The byte order of a target.
#[derive(Debug, Clone, Copy, PartialEq, Eq, Structural)]
pub enum Endian {
    Little,
    Big,
}

/// A fully resolved target: everything object synthesis needs.
#[derive(Debug, Clone, Copy, PartialEq, Eq, Structural)]
pub struct TargetDescriptor {
    pub format: ObjectFormat,
    pub arch: TargetArch,
    pub endian: Endian,
}

/// The object format of an OS name, over the closed allow-list.
pub open spec fn format_of_os(os: Seq<char>) -> Option<ObjectFormat> {
    if os == "macos"@ || os == "ios"@ {
        Some(ObjectFormat::MachO)
    } else if os == "windows"@ {
        Some(ObjectFormat::Coff)
    } else if os == "linux"@ || os == "android"@ || os == "freebsd"@ || os == "netbsd"@
        || os == "openbsd"@ || os == "dragonfly"@ || os == "solaris"@ || os == "illumos"@ {
        Some(ObjectFormat::Elf)
    } else {
        None
    }
}

/// The architecture of an architecture name, over the closed allow-list.
pub open spec fn arch_of_name(arch: Seq<char>) -> Option<TargetArch> {
    if arch == "x86"@ {
        Some(TargetArch::X86)
    } else if arch == "x86_64"@ {
        Some(TargetArch::X86_64)
    } else if arch == "arm"@ {
        Some(TargetArch::Arm)
    } else if arch == "aarch64"@ {
        Some(TargetArch::Aarch64)
    } else if arch == "riscv32"@ {
        Some(TargetArch::Riscv32)
    } else if arch == "riscv64"@ {
        Some(TargetArch::Riscv64)
    } else if arch == "mips"@ {
        Some(TargetArch::Mips)
    } else if arch == "mips64"@ {
        Some(TargetArch::Mips64)
    } else if arch == "powerpc"@ {
        Some(TargetArch::PowerPc)
    } else if arch == "powerpc64"@ {
        Some(TargetArch::PowerPc64)
    } else {
        None
    }
}

/// The byte order of an endianness name.
pub open spec fn endian_of_name(endian: Seq<char>) -> Option<Endian> {
    if endian == "little"@ {
        Some(Endian::Little)
    } else if endian == "big"@ {
        Some(Endian::Big)
    } else {
        None
    }
}

/// Whether the three raw strings form a listed combination.
pub open spec fn target_resolves(os: Seq<char>, arch: Seq<char>, endian: Seq<char>) -> bool {
    format_of_os(os) is Some && arch_of_name(arch) is Some && endian_of_name(endian) is Some
}

/// Totality over the allow-list: every listed OS, architecture and
/// endianness name resolves, to the format, architecture and byte order
/// it is listed with.
pub proof fn lemma_target_allow_list()
    ensures
        format_of_os("macos"@) == Some(ObjectFormat::MachO),
        format_of_os("ios"@) == Some(ObjectFormat::MachO),
        format_of_os("windows"@) == Some(ObjectFormat::Coff),
        format_of_os("linux"@) == Some(ObjectFormat::Elf),
        format_of_os("android"@) == Some(ObjectFormat::Elf),
        format_of_os("freebsd"@) == Some(ObjectFormat::Elf),
        format_of_os("netbsd"@) == Some(ObjectFormat::Elf),
        format_of_os("openbsd"@) == Some(ObjectFormat::Elf),
        format_of_os("dragonfly"@) == Some(ObjectFormat::Elf),
        format_of_os("solaris"@) == Some(ObjectFormat::Elf),
        format_of_os("illumos"@) == Some(ObjectFormat::Elf),
        arch_of_name("x86"@) == Some(TargetArch::X86),
        arch_of_name("x86_64"@) == Some(TargetArch::X86_64),
        arch_of_name("arm"@) == Some(TargetArch::Arm),
        arch_of_name("aarch64"@) == Some(TargetArch::Aarch64),
        arch_of_name("riscv32"@) == Some(TargetArch::Riscv32),
        arch_of_name("riscv64"@) == Some(TargetArch::Riscv64),
        arch_of_name("mips"@) == Some(TargetArch::Mips),
        arch_of_name("mips64"@) == Some(TargetArch::Mips64),
        arch_of_name("powerpc"@) == Some(TargetArch::PowerPc),
        arch_of_name("powerpc64"@) == Some(TargetArch::PowerPc64),
        endian_of_name("little"@) == Some(Endian::Little),
        endian_of_name("big"@) == Some(Endian::Big),
{
    reveal_strlit("macos");
    reveal_strlit("ios");
    reveal_strlit("windows");
    reveal_strlit("linux");
    reveal_strlit("android");
    reveal_strlit("freebsd");
    reveal_strlit("netbsd");
    reveal_strlit("openbsd");
    reveal_strlit("dragonfly");
    reveal_strlit("solaris");
    reveal_strlit("illumos");
    reveal_strlit("x86");
    reveal_strlit("x86_64");
    reveal_strlit("arm");
    reveal_strlit("aarch64");
    reveal_strlit("riscv32");
    reveal_strlit("riscv64");
    reveal_strlit("mips");
    reveal_strlit("mips64");
    reveal_strlit("powerpc");
    reveal_strlit("powerpc64");
    reveal_strlit("little");
    reveal_strlit("big");
    lemma_seq_ne("windows"@, "macos"@, 0);
    lemma_seq_ne("windows"@, "ios"@, 0);
    lemma_seq_ne("linux"@, "macos"@, 0);
    lemma_seq_ne("linux"@, "ios"@, 0);
    lemma_seq_ne("linux"@, "windows"@, 0);
    lemma_seq_ne("android"@, "macos"@, 0);
    lemma_seq_ne("android"@, "ios"@, 0);
    lemma_seq_ne("android"@, "windows"@, 0);
    lemma_seq_ne("freebsd"@, "macos"@, 0);
    lemma_seq_ne("freebsd"@, "ios"@, 0);
    lemma_seq_ne("freebsd"@, "windows"@, 0);
    lemma_seq_ne("netbsd"@, "macos"@, 0);
    lemma_seq_ne("netbsd"@, "ios"@, 0);
    lemma_seq_ne("netbsd"@, "windows"@, 0);
    lemma_seq_ne("openbsd"@, "macos"@, 0);
    lemma_seq_ne("openbsd"@, "ios"@, 0);
    lemma_seq_ne("openbsd"@, "windows"@, 0);
    lemma_seq_ne("dragonfly"@, "macos"@, 0);
    lemma_seq_ne("dragonfly"@, "ios"@, 0);
    lemma_seq_ne("dragonfly"@, "windows"@, 0);
    lemma_seq_ne("solaris"@, "macos"@, 0);
    lemma_seq_ne("solaris"@, "ios"@, 0);
    lemma_seq_ne("solaris"@, "windows"@, 0);
    lemma_seq_ne("illumos"@, "macos"@, 0);
    lemma_seq_ne("illumos"@, "ios"@, 0);
    lemma_seq_ne("illumos"@, "windows"@, 0);
    lemma_seq_ne("x86_64"@, "x86"@, 0);
    lemma_seq_ne("arm"@, "x86"@, 0);
    lemma_seq_ne("arm"@, "x86_64"@, 0);
    lemma_seq_ne("aarch64"@, "x86"@, 0);
    lemma_seq_ne("aarch64"@, "x86_64"@, 0);
    lemma_seq_ne("aarch64"@, "arm"@, 0);
    lemma_seq_ne("riscv32"@, "x86"@, 0);
    lemma_seq_ne("riscv32"@, "x86_64"@, 0);
    lemma_seq_ne("riscv32"@, "arm"@, 0);
    lemma_seq_ne("riscv32"@, "aarch64"@, 0);
    lemma_seq_ne("riscv64"@, "x86"@, 0);
    lemma_seq_ne("riscv64"@, "x86_64"@, 0);
    lemma_seq_ne("riscv64"@, "arm"@, 0);
    lemma_seq_ne("riscv64"@, "aarch64"@, 0);
    lemma_seq_ne("riscv64"@, "riscv32"@, 5);
    lemma_seq_ne("mips"@, "x86"@, 0);
    lemma_seq_ne("mips"@, "x86_64"@, 0);
    lemma_seq_ne("mips"@, "arm"@, 0);
    lemma_seq_ne("mips"@, "aarch64"@, 0);
    lemma_seq_ne("mips"@, "riscv32"@, 0);
    lemma_seq_ne("mips"@, "riscv64"@, 0);
    lemma_seq_ne("mips64"@, "x86"@, 0);
    lemma_seq_ne("mips64"@, "x86_64"@, 0);
    lemma_seq_ne("mips64"@, "arm"@, 0);
    lemma_seq_ne("mips64"@, "aarch64"@, 0);
    lemma_seq_ne("mips64"@, "riscv32"@, 0);
    lemma_seq_ne("mips64"@, "riscv64"@, 0);
    lemma_seq_ne("mips64"@, "mips"@, 0);
    lemma_seq_ne("powerpc"@, "x86"@, 0);
    lemma_seq_ne("powerpc"@, "x86_64"@, 0);
    lemma_seq_ne("powerpc"@, "arm"@, 0);
    lemma_seq_ne("powerpc"@, "aarch64"@, 0);
    lemma_seq_ne("powerpc"@, "riscv32"@, 0);
    lemma_seq_ne("powerpc"@, "riscv64"@, 0);
    lemma_seq_ne("powerpc"@, "mips"@, 0);
    lemma_seq_ne("powerpc"@, "mips64"@, 0);
    lemma_seq_ne("powerpc64"@, "x86"@, 0);
    lemma_seq_ne("powerpc64"@, "x86_64"@, 0);
    lemma_seq_ne("powerpc64"@, "arm"@, 0);
    lemma_seq_ne("powerpc64"@, "aarch64"@, 0);
    lemma_seq_ne("powerpc64"@, "riscv32"@, 0);
    lemma_seq_ne("powerpc64"@, "riscv64"@, 0);
    lemma_seq_ne("powerpc64"@, "mips"@, 0);
    lemma_seq_ne("powerpc64"@, "mips64"@, 0);
    lemma_seq_ne("powerpc64"@, "powerpc"@, 0);
    lemma_seq_ne("big"@, "little"@, 0);
}

proof fn lemma_seq_ne(a: Seq<char>, b: Seq<char>, i: int)
    requires
        a.len() != b.len() || (0 <= i < a.len() && i < b.len() && a[i] != b[i]),
    ensures
        a != b,
{
    if a == b {
        assert(a.len() == b.len());
        assert(0 <= i < a.len() ==> a[i] == b[i]);
        assert(false);
    }
}

fn resolve_format(os: &str) -> (r: Option<ObjectFormat>)
    ensures
        r == format_of_os(os@),
{
    if str_eq(os, "macos") || str_eq(os, "ios") {
        Some(ObjectFormat::MachO)
    } else if str_eq(os, "windows") {
        Some(ObjectFormat::Coff)
    } else if str_eq(os, "linux") || str_eq(os, "android") || str_eq(os, "freebsd")
        || str_eq(os, "netbsd") || str_eq(os, "openbsd") || str_eq(os, "dragonfly")
        || str_eq(os, "solaris") || str_eq(os, "illumos") {
        Some(ObjectFormat::Elf)
    } else {
        None
    }
}

fn resolve_arch(arch: &str) -> (r: Option<TargetArch>)
    ensures
        r == arch_of_name(arch@),
{
    if str_eq(arch, "x86") {
        Some(TargetArch::X86)
    } else if str_eq(arch, "x86_64") {
        Some(TargetArch::X86_64)
    } else if str_eq(arch, "arm") {
        Some(TargetArch::Arm)
    } else if str_eq(arch, "aarch64") {
        Some(TargetArch::Aarch64)
    } else if str_eq(arch, "riscv32") {
        Some(TargetArch::Riscv32)
    } else if str_eq(arch, "riscv64") {
        Some(TargetArch::Riscv64)
    } else if str_eq(arch, "mips") {
        Some(TargetArch::Mips)
    } else if str_eq(arch, "mips64") {
        Some(TargetArch::Mips64)
    } else if str_eq(arch, "powerpc") {
        Some(TargetArch::PowerPc)
    } else if str_eq(arch, "powerpc64") {
        Some(TargetArch::PowerPc64)
    } else {
        None
    }
}

fn resolve_endian(endian: &str) -> (r: Option<Endian>)
    ensures
        r == endian_of_name(endian@),
{
    if str_eq(endian, "little") {
        Some(Endian::Little)
    } else if str_eq(endian, "big") {
        Some(Endian::Big)
    } else {
        None
    }
}

/// Resolves the raw target strings.  Total over the allow-list: every
/// listed combination resolves, and every other input fails explicitly
/// with an error naming the first offending value.
pub fn resolve_target(os: &str, arch: &str, endian: &str) -> (r: Result<TargetDescriptor, Error>)
    ensures
        match r {
            Ok(t) => format_of_os(os@) == Some(t.format) && arch_of_name(arch@) == Some(t.arch)
                && endian_of_name(endian@) == Some(t.endian),
            Err(e) => !target_resolves(os@, arch@, endian@) && (match e {
                Error::UnsupportedTarget(v) => if format_of_os(os@) is None {
                    v@ == os@
                } else if arch_of_name(arch@) is None {
                    v@ == arch@
                } else {
                    endian_of_name(endian@) is None && v@ == endian@
                },
                _ => false,
            }),
        },
{
    let format: ObjectFormat = match resolve_format(os) {
        Some(f) => f,
        None => {
            return Err(Error::UnsupportedTarget(String::from_str(os)));
        },
    };
    let arch_v: TargetArch = match resolve_arch(arch) {
        Some(a) => a,
        None => {
            return Err(Error::UnsupportedTarget(String::from_str(arch)));
        },
    };
    let endian_v: Endian = match resolve_endian(endian) {
        Some(e) => e,
        None => {
            return Err(Error::UnsupportedTarget(String::from_str(endian)));
        },
    };
    Ok(TargetDescriptor { format, arch: arch_v, endian: endian_v })
}

} // verus!

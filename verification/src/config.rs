//! The toolchains that a compiler id selects and where their tools lie.

use crate::host::Host;
use crate::text::same;
use vstd::prelude::*;

verus! {

/// A toolchain: its version and where it is installed.
#[derive(Debug, Clone)]
pub struct ToolchainConfig {
    /// Such as `V2`.
    pub version_name: String,
    /// Such as `10.2.0`.
    pub gcc_version: String,
    /// Where the toolchain is installed, if not in the usual place.
    pub toolchain_base_path: Option<String>,
}

/// The version name and gcc version that a compiler id selects.
pub open spec fn versions_of(id: Seq<char>) -> Option<(Seq<char>, Seq<char>)> {
    if id == "riscv32"@ {
        Some(("V1"@, "6.1.0"@))
    } else if id == "riscv32-v2"@ {
        Some(("V2"@, "10.2.0"@))
    } else if id == "riscv32-v3"@ {
        Some(("V3"@, "14.2.0"@))
    } else {
        None
    }
}

/// The version name of the toolchain that stands for a compiler id: the
/// one that the id selects, and `V2` for an id that is not known.
pub open spec fn version_for(id: Seq<char>) -> Seq<char> {
    match versions_of(id) {
        Some(v) => v.0,
        None => "V2"@,
    }
}

/// The gcc version of the toolchain that stands for a compiler id.
pub open spec fn gcc_for(id: Seq<char>) -> Seq<char> {
    match versions_of(id) {
        Some(v) => v.1,
        None => "10.2.0"@,
    }
}

/// The usual place of the toolchain with the given version name.
pub open spec fn default_base(version: Seq<char>) -> Seq<char> {
    "C:\\Program Files (x86)\\RV32-Toolchain\\RV32-"@ + version
}

/// Where the compiler lies in a toolchain installed at `base`.
pub open spec fn compiler_in(base: Seq<char>) -> Seq<char> {
    base + "\\bin\\riscv32-elf-gcc.exe"@
}

impl ToolchainConfig {
    /// Where the toolchain is installed.
    pub open spec fn base(&self) -> Seq<char> {
        match self.toolchain_base_path {
            Some(p) => p@,
            None => default_base(self.version_name@),
        }
    }

    /// Where the compiler lies.
    pub open spec fn compiler(&self) -> Seq<char> {
        compiler_in(self.base())
    }

    /// The toolchain that stands for a compiler id, installed in the usual
    /// place: the one that the id selects, and the second version for an id
    /// that is not known.
    pub fn for_compiler_id(id: &str) -> (t: ToolchainConfig)
        ensures
            t.version_name@ == version_for(id@),
            t.gcc_version@ == gcc_for(id@),
            t.toolchain_base_path is None,
    {
        match ToolchainConfig::from_compiler_id(id) {
            Some(t) => t,
            None => ToolchainConfig {
                version_name: "V2".to_string(),
                gcc_version: "10.2.0".to_string(),
                toolchain_base_path: None,
            },
        }
    }

    /// Where the linker of the given type lies: `ld` names the bare
    /// linker, anything else the compiler.
    pub open spec fn linker(&self, linker_type: Seq<char>) -> Seq<char> {
        if linker_type == "ld"@ {
            self.base() + "\\bin\\riscv32-elf-ld.exe"@
        } else {
            self.compiler()
        }
    }

    /// Where the archiver lies.
    pub open spec fn archiver(&self) -> Seq<char> {
        self.base() + "\\bin\\riscv32-elf-ar.exe"@
    }

    /// The directories that hold the toolchain's own headers.
    pub open spec fn includes(&self) -> Seq<Seq<char>> {
        seq![
            self.base() + "\\lib\\gcc\\riscv32-elf\\"@ + self.gcc_version@ + "\\include"@,
            self.base() + "\\lib\\gcc\\riscv32-elf\\"@ + self.gcc_version@ + "\\include-fixed"@,
            self.base() + "\\riscv32-elf\\include"@,
        ]
    }

    /// The toolchain that a compiler id selects, installed in the usual
    /// place; none for an id that is not known.
    pub fn from_compiler_id(id: &str) -> (r: Option<ToolchainConfig>)
        ensures
            match r {
                Some(t) => versions_of(id@) == Some((t.version_name@, t.gcc_version@))
                    && t.toolchain_base_path is None,
                None => versions_of(id@) is None,
            },
    {
        if same(id, "riscv32") {
            Some(
                ToolchainConfig {
                    version_name: "V1".to_string(),
                    gcc_version: "6.1.0".to_string(),
                    toolchain_base_path: None,
                },
            )
        } else if same(id, "riscv32-v2") {
            Some(
                ToolchainConfig {
                    version_name: "V2".to_string(),
                    gcc_version: "10.2.0".to_string(),
                    toolchain_base_path: None,
                },
            )
        } else if same(id, "riscv32-v3") {
            Some(
                ToolchainConfig {
                    version_name: "V3".to_string(),
                    gcc_version: "14.2.0".to_string(),
                    toolchain_base_path: None,
                },
            )
        } else {
            None
        }
    }

    /// Where the toolchain is installed.
    pub fn get_base_path(&self) -> (r: String)
        ensures
            r@ == self.base(),
    {
        match &self.toolchain_base_path {
            Some(p) => p.clone(),
            None => {
                let mut out = "C:\\Program Files (x86)\\RV32-Toolchain\\RV32-".to_string();
                out.append(self.version_name.as_str());
                out
            },
        }
    }

    /// Where the compiler lies.
    pub fn compiler_path(&self) -> (r: String)
        ensures
            r@ == self.compiler(),
    {
        let mut out = self.get_base_path();
        out.append("\\bin\\riscv32-elf-gcc.exe");
        out
    }

    /// Where the linker of the given type lies.
    pub fn linker_path(&self, linker_type: &str) -> (r: String)
        ensures
            r@ == self.linker(linker_type@),
    {
        if same(linker_type, "ld") {
            let mut out = self.get_base_path();
            out.append("\\bin\\riscv32-elf-ld.exe");
            out
        } else {
            self.compiler_path()
        }
    }

    /// Where the archiver lies.
    pub fn ar_path(&self) -> (r: String)
        ensures
            r@ == self.archiver(),
    {
        let mut out = self.get_base_path();
        out.append("\\bin\\riscv32-elf-ar.exe");
        out
    }

    /// The directories that hold the toolchain's own headers.
    pub fn include_paths(&self) -> (r: Vec<String>)
        ensures
            crate::text::texts(r@) == self.includes(),
    {
        let base = self.get_base_path();
        let mut first = base.clone();
        first.append("\\lib\\gcc\\riscv32-elf\\");
        first.append(self.gcc_version.as_str());
        first.append("\\include");
        let mut second = base.clone();
        second.append("\\lib\\gcc\\riscv32-elf\\");
        second.append(self.gcc_version.as_str());
        second.append("\\include-fixed");
        let mut third = base;
        third.append("\\riscv32-elf\\include");
        let mut out: Vec<String> = Vec::new();
        out.push(first);
        out.push(second);
        out.push(third);
        out
    }

    /// Whether the compiler was found on the machine.
    pub fn is_compiler_available(&self, host: &Host) -> (r: bool)
        ensures
            r == host.has(self.compiler()),
    {
        let path = self.compiler_path();
        host.is_present(path.as_str())
    }
}

} // verus!

//! The project model: what a project description says, as plain values,
//! and the mathematical view that the generators are specified over.

use crate::text::texts;
use vstd::prelude::*;

verus! {

/// One record of a compilation database.
#[derive(Debug)]
pub struct CompileCommand {
    pub directory: String,
    pub command: String,
    pub file: String,
}

/// A file that is built by a command of its own.
#[derive(Debug)]
pub struct SpecialFileBuildInfo {
    pub filename: String,
    pub compiler_id: String,
    pub build_command: String,
}

/// What the `-march=` flag of a project selects.
#[derive(Debug)]
pub struct MarchInfo {
    /// The whole flag, or the empty string where the project has none.
    pub full_march: String,
    /// The flag without its custom extension, where it has one.
    pub base_march: Option<String>,
    pub has_custom_extension: bool,
}

/// What a project description says.
#[derive(Debug)]
pub struct ProjectInfo {
    pub compiler_id: String,
    pub project_name: String,
    pub global_cflags: Vec<String>,
    pub include_dirs: Vec<String>,
    pub source_files: Vec<String>,
    pub special_files: Vec<SpecialFileBuildInfo>,
    pub prebuild_commands: Vec<String>,
    pub postbuild_commands: Vec<String>,
    pub march_info: MarchInfo,
    pub object_output: String,
    pub output: String,
    pub linker_options: Vec<String>,
    pub linker_libs: Vec<String>,
    pub linker_lib_dirs: Vec<String>,
    pub linker_type: String,
}

/// A compilation database record as a mathematical value.
pub struct Command {
    pub directory: Seq<char>,
    pub command: Seq<char>,
    pub file: Seq<char>,
}

/// A special file as a mathematical value.
pub struct SpecialFile {
    pub filename: Seq<char>,
    pub compiler_id: Seq<char>,
    pub build_command: Seq<char>,
}

/// A `-march=` selection as a mathematical value.
pub struct March {
    pub full: Seq<char>,
    pub base: Option<Seq<char>>,
    pub custom: bool,
}

/// A project as a mathematical value.
pub struct Project {
    pub compiler_id: Seq<char>,
    pub project_name: Seq<char>,
    pub global_cflags: Seq<Seq<char>>,
    pub include_dirs: Seq<Seq<char>>,
    pub source_files: Seq<Seq<char>>,
    pub special_files: Seq<SpecialFile>,
    pub prebuild_commands: Seq<Seq<char>>,
    pub postbuild_commands: Seq<Seq<char>>,
    pub march_info: March,
    pub object_output: Seq<char>,
    pub output: Seq<char>,
    pub linker_options: Seq<Seq<char>>,
    pub linker_libs: Seq<Seq<char>>,
    pub linker_lib_dirs: Seq<Seq<char>>,
    pub linker_type: Seq<char>,
}

/// The text of an optional string.
pub open spec fn opt_text(o: Option<String>) -> Option<Seq<char>> {
    match o {
        Some(s) => Some(s@),
        None => None,
    }
}

/// The special files held by a sequence.
pub open spec fn specials(v: Seq<SpecialFileBuildInfo>) -> Seq<SpecialFile> {
    Seq::new(v.len(), |i: int| v[i]@)
}

/// The records held by a sequence.
pub open spec fn commands(v: Seq<CompileCommand>) -> Seq<Command> {
    Seq::new(v.len(), |i: int| v[i]@)
}

impl View for CompileCommand {
    type V = Command;

    open spec fn view(&self) -> Command {
        Command { directory: self.directory@, command: self.command@, file: self.file@ }
    }
}

impl View for SpecialFileBuildInfo {
    type V = SpecialFile;

    open spec fn view(&self) -> SpecialFile {
        SpecialFile {
            filename: self.filename@,
            compiler_id: self.compiler_id@,
            build_command: self.build_command@,
        }
    }
}

impl View for MarchInfo {
    type V = March;

    open spec fn view(&self) -> March {
        March {
            full: self.full_march@,
            base: opt_text(self.base_march),
            custom: self.has_custom_extension,
        }
    }
}

impl View for ProjectInfo {
    type V = Project;

    open spec fn view(&self) -> Project {
        Project {
            compiler_id: self.compiler_id@,
            project_name: self.project_name@,
            global_cflags: texts(self.global_cflags@),
            include_dirs: texts(self.include_dirs@),
            source_files: texts(self.source_files@),
            special_files: specials(self.special_files@),
            prebuild_commands: texts(self.prebuild_commands@),
            postbuild_commands: texts(self.postbuild_commands@),
            march_info: self.march_info@,
            object_output: self.object_output@,
            output: self.output@,
            linker_options: texts(self.linker_options@),
            linker_libs: texts(self.linker_libs@),
            linker_lib_dirs: texts(self.linker_lib_dirs@),
            linker_type: self.linker_type@,
        }
    }
}

impl Default for SpecialFileBuildInfo {
    fn default() -> (r: SpecialFileBuildInfo)
        ensures
            r@ == (SpecialFile {
                filename: Seq::empty(),
                compiler_id: Seq::empty(),
                build_command: Seq::empty(),
            }),
    {
        SpecialFileBuildInfo {
            filename: String::new(),
            compiler_id: String::new(),
            build_command: String::new(),
        }
    }
}

impl Default for MarchInfo {
    fn default() -> (r: MarchInfo)
        ensures
            r@ == (March { full: Seq::empty(), base: None, custom: false }),
    {
        MarchInfo { full_march: String::new(), base_march: None, has_custom_extension: false }
    }
}

/// The special files of a sequence that grew by one.
pub proof fn lemma_specials_push(v: Seq<SpecialFileBuildInfo>, s: SpecialFileBuildInfo)
    ensures
        specials(v.push(s)) == specials(v).push(s@),
{
}

/// The records of a sequence that grew by one.
pub proof fn lemma_commands_push(v: Seq<CompileCommand>, c: CompileCommand)
    ensures
        commands(v.push(c)) == commands(v).push(c@),
{
}

} // verus!

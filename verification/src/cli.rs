//! What the arguments of the command line ask for.

use crate::paths::{
    joined_paths, parent_of, parsed, rendered, separator_of, LogicalPath, PathStyle,
};
use crate::text::{push_text, same, texts};
use vstd::prelude::*;

verus! {

/// What the command line asks for.
#[derive(Debug)]
pub struct CliArgs {
    /// The project description to read.
    pub cbp_path: Option<String>,
    /// Where the clangd configuration is written.
    pub output_dir: Option<String>,
    pub show_version: bool,
    pub debug: bool,
    pub linker_type: String,
    pub test_mode: bool,
}

/// What the command line asks for, as a mathematical value.
pub struct Arguments {
    pub cbp_path: Option<Seq<char>>,
    pub output_dir: Option<Seq<char>>,
    pub show_version: bool,
    pub debug: bool,
    pub linker_type: Seq<char>,
    pub test_mode: bool,
}

impl View for CliArgs {
    type V = Arguments;

    open spec fn view(&self) -> Arguments {
        Arguments {
            cbp_path: crate::models::opt_text(self.cbp_path),
            output_dir: crate::models::opt_text(self.output_dir),
            show_version: self.show_version,
            debug: self.debug,
            linker_type: self.linker_type@,
            test_mode: self.test_mode,
        }
    }
}

/// Why the arguments ask for nothing that can be done.
#[derive(Clone, Copy, Debug, PartialEq, Eq, Structural)]
pub enum CliError {
    /// The linker option stands last, without its value.
    LinkerNeedsValue,
    /// The arguments name no project description, or too much.
    Usage,
}

/// The first index at or after `i` at which `a` or `b` stands.
pub open spec fn index_of_either(
    args: Seq<Seq<char>>,
    a: Seq<char>,
    b: Seq<char>,
    i: int,
) -> Option<int>
    decreases args.len() - i + 1,
{
    if i < 0 || i >= args.len() {
        None
    } else if args[i] == a || args[i] == b {
        Some(i)
    } else {
        index_of_either(args, a, b, i + 1)
    }
}

/// The arguments without the one at index `k`, if there is such an index.
pub open spec fn without(args: Seq<Seq<char>>, k: Option<int>) -> Seq<Seq<char>> {
    match k {
        Some(i) => if 0 <= i < args.len() {
            args.take(i) + args.skip(i + 1)
        } else {
            args
        },
        None => args,
    }
}

/// The directory that the output goes to: the given one, read from the
/// directory of the project description, or that directory itself; `.`
/// where this is the empty path.
pub open spec fn output_dir_for(cbp: Seq<char>, given: Option<Seq<char>>, sep: char) -> Seq<char> {
    let home = parent_of(parsed(cbp));
    let dir = match given {
        Some(d) => joined_paths(home, parsed(d)),
        None => home,
    };
    if dir.len() == 0 {
        "."@
    } else {
        rendered(dir, sep)
    }
}

/// What the arguments ask for. The first argument is the program's name.
/// The first `--debug` and the first `--test` are options; the first
/// `--linker` or `-l` takes the argument after it as the linker type. Of
/// what is left, `--version` or `-v` alone asks for the version; otherwise
/// the test mode needs nothing more, and any other run needs the project
/// description and may name an output directory.
pub open spec fn arguments_of(
    args: Seq<Seq<char>>,
    current_dir: Seq<char>,
    sep: char,
) -> Result<Arguments, CliError> {
    let debug = index_of_either(args, "--debug"@, "--debug"@, 0);
    let plain = without(args, debug);
    let test = index_of_either(plain, "--test"@, "--test"@, 0);
    let bare = without(plain, test);
    let linker = index_of_either(bare, "--linker"@, "-l"@, 0);
    if linker matches Some(i) && i + 1 >= bare.len() {
        Err(CliError::LinkerNeedsValue)
    } else {
        let linker_type = match linker {
            Some(i) => bare[i + 1],
            None => "gcc"@,
        };
        let rest = match linker {
            Some(i) => without(without(bare, Some(i + 1)), Some(i)),
            None => bare,
        };
        if rest.len() == 2 && (rest[1] == "--version"@ || rest[1] == "-v"@) {
            Ok(
                Arguments {
                    cbp_path: None,
                    output_dir: None,
                    show_version: true,
                    debug: debug is Some,
                    linker_type,
                    test_mode: false,
                },
            )
        } else if test is Some {
            Ok(
                Arguments {
                    cbp_path: Some("--test"@),
                    output_dir: Some(current_dir),
                    show_version: false,
                    debug: debug is Some,
                    linker_type,
                    test_mode: true,
                },
            )
        } else if rest.len() != 2 && rest.len() != 3 {
            Err(CliError::Usage)
        } else {
            Ok(
                Arguments {
                    cbp_path: Some(rest[1]),
                    output_dir: Some(
                        output_dir_for(
                            rest[1],
                            if rest.len() == 3 {
                                Some(rest[2])
                            } else {
                                None
                            },
                            sep,
                        ),
                    ),
                    show_version: false,
                    debug: debug is Some,
                    linker_type,
                    test_mode: false,
                },
            )
        }
    }
}

/// The first index at which `a` or `b` stands.
pub fn find_either(args: &Vec<String>, a: &str, b: &str) -> (r: Option<usize>)
    ensures
        match r {
            Some(i) => index_of_either(texts(args@), a@, b@, 0) == Some(i as int) && i
                < args.len(),
            None => index_of_either(texts(args@), a@, b@, 0) is None,
        },
{
    let mut i: usize = 0;
    while i < args.len()
        invariant
            i <= args.len(),
            index_of_either(texts(args@), a@, b@, 0) == index_of_either(
                texts(args@),
                a@,
                b@,
                i as int,
            ),
        decreases args.len() - i,
    {
        if same(args[i].as_str(), a) || same(args[i].as_str(), b) {
            return Some(i);
        }
        i += 1;
    }
    None
}

/// The arguments without the one at index `k`.
pub(crate) fn remove_at(args: &Vec<String>, k: usize) -> (r: Vec<String>)
    requires
        k < args.len(),
    ensures
        texts(r@) == without(texts(args@), Some(k as int)),
{
    let mut out: Vec<String> = Vec::new();
    let mut i: usize = 0;
    while i < args.len()
        invariant
            i <= args.len(),
            k < args.len(),
            out@.len() == if i <= k {
                i as int
            } else {
                i - 1
            },
            forall|j: int|
                0 <= j < out@.len() ==> #[trigger] texts(out@)[j] == if j < k {
                    texts(args@)[j]
                } else {
                    texts(args@)[j + 1]
                },
        decreases args.len() - i,
    {
        if i != k {
            push_text(&mut out, args[i].clone());
        }
        i += 1;
    }
    out
}

/// The directory that the output goes to.
pub fn output_dir_of(cbp: &str, given: Option<&str>, style: PathStyle) -> (r: String)
    ensures
        r@ == output_dir_for(
            cbp@,
            match given {
                Some(d) => Some(d@),
                None => None,
            },
            separator_of(style),
        ),
{
    let home = LogicalPath::parse(cbp).parent();
    let dir = match given {
        Some(d) => home.join(&LogicalPath::parse(d)),
        None => home,
    };
    if dir.components.len() == 0 {
        ".".to_string()
    } else {
        dir.render(style)
    }
}

/// What the arguments ask for, where `current_dir` is the directory that
/// the program runs in.
pub fn interpret_arguments(
    args: &Vec<String>,
    current_dir: &str,
    style: PathStyle,
) -> (r: Result<CliArgs, CliError>)
    ensures
        match r {
            Ok(a) => arguments_of(texts(args@), current_dir@, separator_of(style)) == Ok::<
                Arguments,
                CliError,
            >(a@),
            Err(e) => arguments_of(texts(args@), current_dir@, separator_of(style)) == Err::<
                Arguments,
                CliError,
            >(e),
        },
{
    let debug_at = find_either(args, "--debug", "--debug");
    let plain = match debug_at {
        Some(i) => remove_at(args, i),
        None => remove_none(args),
    };
    let test_at = find_either(&plain, "--test", "--test");
    let bare = match test_at {
        Some(i) => remove_at(&plain, i),
        None => plain,
    };
    let linker_at = find_either(&bare, "--linker", "-l");
    let debug = debug_at.is_some();
    let (linker_type, rest) = match linker_at {
        Some(i) => {
            if i + 1 >= bare.len() {
                return Err(CliError::LinkerNeedsValue);
            }
            let value = bare[i + 1].clone();
            let shorter = remove_at(&bare, i + 1);
            (value, remove_at(&shorter, i))
        },
        None => ("gcc".to_string(), bare),
    };
    if rest.len() == 2 && (same(rest[1].as_str(), "--version") || same(rest[1].as_str(), "-v")) {
        Ok(
            CliArgs {
                cbp_path: None,
                output_dir: None,
                show_version: true,
                debug,
                linker_type,
                test_mode: false,
            },
        )
    } else if test_at.is_some() {
        Ok(
            CliArgs {
                cbp_path: Some("--test".to_string()),
                output_dir: Some(current_dir.to_string()),
                show_version: false,
                debug,
                linker_type,
                test_mode: true,
            },
        )
    } else if rest.len() != 2 && rest.len() != 3 {
        Err(CliError::Usage)
    } else {
        let given = if rest.len() == 3 {
            Some(rest[2].as_str())
        } else {
            None
        };
        Ok(
            CliArgs {
                cbp_path: Some(rest[1].clone()),
                output_dir: Some(output_dir_of(rest[1].as_str(), given, style)),
                show_version: false,
                debug,
                linker_type,
                test_mode: false,
            },
        )
    }
}

/// A copy of the arguments.
pub(crate) fn remove_none(args: &Vec<String>) -> (r: Vec<String>)
    ensures
        texts(r@) == texts(args@),
{
    let mut out: Vec<String> = Vec::new();
    crate::text::append_texts(&mut out, args);
    out
}

} // verus!

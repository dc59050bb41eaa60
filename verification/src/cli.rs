//! The decisions of the two command-line tools: `sekirei` (run, build, emit-ir) and the
//! package manager `skp` (init, install, publish). Reading files, running tools and
//! printing are the programs' work; this module says which command was asked for, with
//! which names, and what the package manager reports.
use vstd::prelude::*;
use crate::parser::text_is;
use crate::text::push_str;

verus! {

/// A command of the compiler.
#[derive(Debug, Clone, Copy, PartialEq, Eq, Structural)]
pub enum Subcommand {
    /// Compile to a temporary executable and run it.
    Run,
    /// Compile to an executable.
    Build,
    /// Print the LLVM IR.
    EmitIr,
}

/// The compiler command named `s`, if any.
pub open spec fn subcommand_of(s: Seq<char>) -> Option<Subcommand> {
    if s == "run"@ {
        Some(Subcommand::Run)
    } else if s == "build"@ {
        Some(Subcommand::Build)
    } else if s == "emit-ir"@ {
        Some(Subcommand::EmitIr)
    } else {
        None
    }
}

/// The compiler command named `s`; `None` for an unknown command.
pub fn parse_subcommand(s: &String) -> (r: Option<Subcommand>)
    ensures
        r == subcommand_of(s@),
{
    if text_is(s, "run") {
        Some(Subcommand::Run)
    } else if text_is(s, "build") {
        Some(Subcommand::Build)
    } else if text_is(s, "emit-ir") {
        Some(Subcommand::EmitIr)
    } else {
        None
    }
}

/// `path` with the extension of its last component taken off, as std's
/// `Path::with_extension("")` gives it.
pub uninterp spec fn path_without_extension(path: Seq<char>) -> Seq<char>;

/// std's `Path::with_extension` with an empty extension, read back as text. Claimed: the
/// result depends on the path's text alone, and is named `path_without_extension`.
#[verifier::external_body]
fn without_extension(path: &str) -> (r: String)
    ensures
        r@ == path_without_extension(path@),
{
    std::path::Path::new(path).with_extension("").to_string_lossy().into_owned()
}

/// Where `sekirei build` writes the executable, given its arguments (the program name
/// first): the argument after `-o` when the fourth argument is `-o` and a fifth follows,
/// else the source file's path without its extension.
pub open spec fn build_output_spec(args: Seq<Seq<char>>) -> Seq<char>
    recommends
        args.len() >= 3,
{
    if args.len() >= 5 && args[3] == "-o"@ {
        args[4]
    } else {
        path_without_extension(args[2])
    }
}

/// The texts of a sequence of strings.
pub open spec fn texts(v: Seq<String>) -> Seq<Seq<char>> {
    v.map_values(|s: String| s@)
}

/// The output path of `sekirei build`; `args` are all the arguments, the program name first,
/// the command and the source file next.
pub fn build_output(args: &Vec<String>) -> (r: String)
    requires
        args@.len() >= 3,
    ensures
        r@ == build_output_spec(texts(args@)),
{
    if args.len() >= 5 && text_is(&args[3], "-o") {
        args[4].clone()
    } else {
        without_extension(args[2].as_str())
    }
}

/// A command of the package manager.
#[derive(Debug, Clone, Copy, PartialEq, Eq, Structural)]
pub enum PkgCommand {
    /// Create a new project.
    Init,
    /// Install packages.
    Install,
    /// Publish the package.
    Publish,
}

/// The package manager command named `s`, if any.
pub open spec fn pkg_command_of(s: Seq<char>) -> Option<PkgCommand> {
    if s == "init"@ {
        Some(PkgCommand::Init)
    } else if s == "install"@ {
        Some(PkgCommand::Install)
    } else if s == "publish"@ {
        Some(PkgCommand::Publish)
    } else {
        None
    }
}

/// The package manager command named `s`; `None` for an unknown command.
pub fn parse_pkg_command(s: &String) -> (r: Option<PkgCommand>)
    ensures
        r == pkg_command_of(s@),
{
    if text_is(s, "init") {
        Some(PkgCommand::Init)
    } else if text_is(s, "install") {
        Some(PkgCommand::Install)
    } else if text_is(s, "publish") {
        Some(PkgCommand::Publish)
    } else {
        None
    }
}

/// The name of the project that `skp init` creates, from the arguments after `init`: the
/// first of them, or `myproject` when there is none.
pub fn init_project_name(args: &Vec<String>) -> (r: String)
    ensures
        r@ == (if args@.len() > 0 { args@[0]@ } else { "myproject"@ }),
{
    if args.len() > 0 {
        args[0].clone()
    } else {
        String::from_str("myproject")
    }
}

/// The note that the registry is not there yet.
pub open spec fn not_yet_line() -> Seq<char> {
    "[skp] (not yet implemented - sekipi.org registry coming soon)"@
}

/// What `skp install` reports for the packages `pkgs`: with none, that the dependencies of
/// `sekirei.toml` are being installed; else, for each package in turn, that it is being
/// installed. Each line is followed by the note that the registry is not there yet.
pub open spec fn install_report_spec(pkgs: Seq<Seq<char>>) -> Seq<Seq<char>>
    decreases pkgs.len(),
{
    if pkgs.len() == 0 {
        seq!["[skp] installing dependencies from sekirei.toml..."@, not_yet_line()]
    } else if pkgs.len() == 1 {
        seq!["[skp] installing '"@ + pkgs[0] + "'..."@, not_yet_line()]
    } else {
        install_report_spec(pkgs.drop_last()) + seq!["[skp] installing '"@ + pkgs.last() + "'..."@, not_yet_line()]
    }
}

/// The lines `skp install` prints for the packages `pkgs`.
pub fn install_report(pkgs: &Vec<String>) -> (r: Vec<String>)
    ensures
        texts(r@) == install_report_spec(texts(pkgs@)),
{
    let mut r: Vec<String> = Vec::new();
    if pkgs.len() == 0 {
        r.push(String::from_str("[skp] installing dependencies from sekirei.toml..."));
        r.push(String::from_str("[skp] (not yet implemented - sekipi.org registry coming soon)"));
        proof {
            assert(texts(r@) =~= install_report_spec(texts(pkgs@)));
        }
        return r;
    }
    let mut i: usize = 0;
    while i < pkgs.len()
        invariant
            0 < pkgs@.len(),
            i <= pkgs@.len(),
            i == 0 ==> r@.len() == 0,
            i > 0 ==> texts(r@) == install_report_spec(texts(pkgs@.subrange(0, i as int))),
        decreases pkgs@.len() - i,
    {
        let ghost before = r@;
        let mut line = String::from_str("[skp] installing '");
        push_str(&mut line, pkgs[i].as_str());
        push_str(&mut line, "'...");
        r.push(line);
        r.push(String::from_str("[skp] (not yet implemented - sekipi.org registry coming soon)"));
        proof {
            let p = texts(pkgs@.subrange(0, i + 1));
            assert(p.drop_last() =~= texts(pkgs@.subrange(0, i as int)));
            assert(p.last() == pkgs@[i as int]@);
            assert(texts(r@) =~= texts(before) + seq![
                "[skp] installing '"@ + pkgs@[i as int]@ + "'..."@,
                not_yet_line(),
            ]);
            if i == 0 {
                assert(p.len() == 1);
                assert(p[0] == pkgs@[0]@);
                assert(texts(r@) =~= install_report_spec(p));
            }
        }
        i = i + 1;
    }
    proof {
        assert(pkgs@.subrange(0, pkgs@.len() as int) =~= pkgs@);
    }
    r
}

} // verus!

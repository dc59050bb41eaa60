//! The code generator's front: the LLVM IR text of a program, and the decisions of a native
//! build. Running clang, llc and gcc, and looking for files, is the program's work; this
//! module says what to run with which arguments, and what each outcome leads to.
use vstd::prelude::*;
use crate::ast::{tops_view, TopLevel};
use crate::irgen::IrGen;
pub use crate::irgen;
use crate::irgen_spec::{g_program, gen_init};
use crate::manifest::{path_join, path_joined};
use crate::text::push_str;

verus! {

/// A code generation error.
#[derive(Debug)]
pub struct CodegenError {
    pub message: String,
}

impl CodegenError {
    /// The text shown for this error: `[Codegen Error] <message>`.
    pub fn to_display_string(&self) -> (r: String)
        ensures
            r@ == "[Codegen Error] "@ + self.message@,
    {
        let mut s = String::from_str("[Codegen Error] ");
        push_str(&mut s, self.message.as_str());
        s
    }
}

/// The code generator.
pub struct Codegen;

impl Codegen {
    /// A code generator.
    pub fn new() -> (r: Self) {
        Codegen
    }

    /// The LLVM IR text of a program, written by a fresh generator.
    pub fn emit_ir(&self, ast: &[TopLevel]) -> (r: String)
        ensures
            r@ == g_program(gen_init(), tops_view(ast@)).1,
    {
        let mut gen = IrGen::new();
        gen.emit_program(ast)
    }
}

// ------------------------------------------------------------
// Native builds
// ------------------------------------------------------------

/// A program that a native build runs. A build tries clang first; when that fails in any
/// way, it assembles with llc and links with gcc.
#[derive(Debug, Clone, Copy, PartialEq, Eq, Structural)]
pub enum Tool {
    Clang,
    Llc,
    Gcc,
}

/// What came of a step of a build.
#[derive(Debug)]
pub enum ToolOutcome {
    /// The runtime libraries could not be found, so the tool was not started.
    NoLibs(CodegenError),
    /// The tool could not be started; the text is the system's reason.
    NotStarted(String),
    /// The tool ran and reported failure.
    Failed,
    /// The tool ran and succeeded.
    Succeeded,
}

/// What a build does next.
#[derive(Debug)]
pub enum BuildAction {
    /// Run this tool.
    Run(Tool),
    /// Stop, with this result.
    Finish(Result<(), CodegenError>),
}

/// The next step of a build as plain values: run a tool, or end with success or with an
/// error message.
pub enum StepV {
    Run(Tool),
    Done,
    Fail(Seq<char>),
}

/// The view of an outcome: which one it is, with its text.
pub enum OutcomeV {
    NoLibs(Seq<char>),
    NotStarted(Seq<char>),
    Failed,
    Succeeded,
}

/// An outcome as plain values.
pub open spec fn outcome_view(o: ToolOutcome) -> OutcomeV {
    match o {
        ToolOutcome::NoLibs(e) => OutcomeV::NoLibs(e.message@),
        ToolOutcome::NotStarted(t) => OutcomeV::NotStarted(t@),
        ToolOutcome::Failed => OutcomeV::Failed,
        ToolOutcome::Succeeded => OutcomeV::Succeeded,
    }
}

/// An action as plain values.
pub open spec fn action_view(a: BuildAction) -> StepV {
    match a {
        BuildAction::Run(t) => StepV::Run(t),
        BuildAction::Finish(Ok(())) => StepV::Done,
        BuildAction::Finish(Err(e)) => StepV::Fail(e.message@),
    }
}

/// What follows each outcome of each tool. A failure of clang, of whatever kind, sends the
/// build on to llc; llc's success sends it on to gcc; gcc's success, like clang's, ends it.
/// Missing libraries end the build with their error once clang is behind it.
pub open spec fn build_next(tool: Tool, o: OutcomeV) -> StepV {
    match tool {
        Tool::Clang => match o {
            OutcomeV::Succeeded => StepV::Done,
            _ => StepV::Run(Tool::Llc),
        },
        Tool::Llc => match o {
            OutcomeV::Succeeded => StepV::Run(Tool::Gcc),
            OutcomeV::Failed => StepV::Fail("llc failed"@),
            OutcomeV::NotStarted(_) => StepV::Fail("llc not found. install LLVM to compile .sk files"@),
            OutcomeV::NoLibs(m) => StepV::Fail(m),
        },
        Tool::Gcc => match o {
            OutcomeV::Succeeded => StepV::Done,
            OutcomeV::Failed => StepV::Fail("gcc linking failed"@),
            OutcomeV::NotStarted(e) => StepV::Fail("gcc failed: "@ + e),
            OutcomeV::NoLibs(m) => StepV::Fail(m),
        },
    }
}

/// A tool's place in a build: clang first, then llc, then gcc.
pub open spec fn tool_rank(t: Tool) -> nat {
    match t {
        Tool::Clang => 0,
        Tool::Llc => 1,
        Tool::Gcc => 2,
    }
}

/// A build only moves forward: whatever a tool's outcome, the next tool comes later in the
/// order clang, llc, gcc, so no tool runs twice and a build runs at most three tools.
pub proof fn law_build_moves_forward(t: Tool, o: OutcomeV)
    ensures
        build_next(t, o) matches StepV::Run(u) ==> tool_rank(u) > tool_rank(t),
        t == Tool::Gcc ==> !(build_next(t, o) is Run),
{
}

fn codegen_err(message: String) -> (e: CodegenError)
    ensures
        e.message@ == message@,
{
    CodegenError { message }
}

/// The step after `tool` came to `outcome`.
pub fn next_build_action(tool: Tool, outcome: ToolOutcome) -> (a: BuildAction)
    ensures
        action_view(a) == build_next(tool, outcome_view(outcome)),
{
    match tool {
        Tool::Clang => match outcome {
            ToolOutcome::Succeeded => BuildAction::Finish(Ok(())),
            _ => BuildAction::Run(Tool::Llc),
        },
        Tool::Llc => match outcome {
            ToolOutcome::Succeeded => BuildAction::Run(Tool::Gcc),
            ToolOutcome::Failed => BuildAction::Finish(Err(codegen_err(String::from_str("llc failed")))),
            ToolOutcome::NotStarted(_) => BuildAction::Finish(
                Err(codegen_err(String::from_str("llc not found. install LLVM to compile .sk files"))),
            ),
            ToolOutcome::NoLibs(e) => BuildAction::Finish(Err(e)),
        },
        Tool::Gcc => match outcome {
            ToolOutcome::Succeeded => BuildAction::Finish(Ok(())),
            ToolOutcome::Failed => BuildAction::Finish(Err(codegen_err(String::from_str("gcc linking failed")))),
            ToolOutcome::NotStarted(reason) => {
                let mut m = String::from_str("gcc failed: ");
                push_str(&mut m, reason.as_str());
                BuildAction::Finish(Err(codegen_err(m)))
            },
            ToolOutcome::NoLibs(e) => BuildAction::Finish(Err(e)),
        },
    }
}

/// The texts of a sequence of strings.
pub open spec fn strings_view(v: Seq<String>) -> Seq<Seq<char>> {
    v.map_values(|s: String| s@)
}

/// The arguments of clang or gcc: the input file, the libraries, then `-o <output> -lm`.
pub open spec fn link_args_spec(input: Seq<char>, libs: Seq<Seq<char>>, output: Seq<char>) -> Seq<Seq<char>> {
    seq![input] + libs + seq!["-o"@, output, "-lm"@]
}

/// The arguments that make clang (from IR) or gcc (from assembly) write the executable
/// `output`, linked with `libs`.
pub fn link_args(input: &str, libs: &Vec<String>, output: &str) -> (r: Vec<String>)
    ensures
        strings_view(r@) == link_args_spec(input@, strings_view(libs@), output@),
{
    let mut r: Vec<String> = Vec::new();
    r.push(String::from_str(input));
    let mut i: usize = 0;
    while i < libs.len()
        invariant
            i <= libs@.len(),
            strings_view(r@) == seq![input@] + strings_view(libs@.subrange(0, i as int)),
        decreases libs@.len() - i,
    {
        let ghost before = r@;
        r.push(libs[i].clone());
        proof {
            assert(strings_view(r@) =~= strings_view(before).push(libs@[i as int]@));
            assert(libs@.subrange(0, i + 1) =~= libs@.subrange(0, i as int).push(libs@[i as int]));
            assert(strings_view(libs@.subrange(0, i + 1)) =~= strings_view(libs@.subrange(0, i as int)).push(libs@[i as int]@));
            assert(strings_view(r@) =~= seq![input@] + strings_view(libs@.subrange(0, i + 1)));
        }
        i = i + 1;
    }
    proof {
        assert(libs@.subrange(0, libs@.len() as int) =~= libs@);
    }
    r.push(String::from_str("-o"));
    r.push(String::from_str(output));
    r.push(String::from_str("-lm"));
    proof {
        assert(strings_view(r@) =~= link_args_spec(input@, strings_view(libs@), output@));
    }
    r
}

/// The arguments that make llc write the assembly `assembly` from the IR file `ll`.
pub fn llc_args(ll: &str, assembly: &str) -> (r: Vec<String>)
    ensures
        strings_view(r@) == seq![ll@, "-o"@, assembly@],
{
    let mut r: Vec<String> = Vec::new();
    r.push(String::from_str(ll));
    r.push(String::from_str("-o"));
    r.push(String::from_str(assembly));
    proof {
        assert(strings_view(r@) =~= seq![ll@, "-o"@, assembly@]);
    }
    r
}

/// The library files a build links, in order.
pub open spec fn lib_names() -> Seq<Seq<char>> {
    seq!["libsekirei_runtime.a"@, "libsekirei_stdlib.a"@, "libsekirei_asm.a"@]
}

/// The paths of the library files in the directory `dir`.
pub fn lib_candidates(dir: &str) -> (r: Vec<String>)
    ensures
        r@.len() == 3,
        forall|i: int| 0 <= i < 3 ==> #[trigger] r@[i]@ == path_joined(dir@, lib_names()[i]),
{
    let mut r: Vec<String> = Vec::new();
    r.push(path_join(dir, "libsekirei_runtime.a"));
    r.push(path_join(dir, "libsekirei_stdlib.a"));
    r.push(path_join(dir, "libsekirei_asm.a"));
    r
}

/// The paths that exist, in their order.
pub open spec fn existing(v: Seq<(Seq<char>, bool)>) -> Seq<Seq<char>>
    decreases v.len(),
{
    if v.len() == 0 {
        Seq::empty()
    } else if v.last().1 {
        existing(v.drop_last()).push(v.last().0)
    } else {
        existing(v.drop_last())
    }
}

/// Candidates with whether each exists, as plain values.
pub open spec fn found_view(v: Seq<(String, bool)>) -> Seq<(Seq<char>, bool)> {
    v.map_values(|p: (String, bool)| (p.0@, p.1))
}

/// The libraries to link. `found` is `None` when the build's output directory was not
/// found, else each candidate with whether it exists. The result is the existing ones in
/// order, or an error when there is no directory or no library in it.
pub fn choose_libs(found: Option<Vec<(String, bool)>>) -> (r: Result<Vec<String>, CodegenError>)
    ensures
        found is None ==> (r matches Err(e) && e.message@ == "runtime library not found. run 'cargo build' first"@),
        found matches Some(v) ==> (if existing(found_view(v@)).len() == 0 {
            (r matches Err(e) && e.message@ == "no sekirei libraries found"@)
        } else {
            (r matches Ok(l) && strings_view(l@) == existing(found_view(v@)))
        }),
{
    match found {
        None => Err(codegen_err(String::from_str("runtime library not found. run 'cargo build' first"))),
        Some(v) => {
            let mut r: Vec<String> = Vec::new();
            let mut i: usize = 0;
            while i < v.len()
                invariant
                    i <= v@.len(),
                    strings_view(r@) == existing(found_view(v@.subrange(0, i as int))),
                decreases v@.len() - i,
            {
                proof {
                    let a = found_view(v@.subrange(0, i + 1));
                    assert(a.drop_last() =~= found_view(v@.subrange(0, i as int)));
                    assert(a.last() == (v@[i as int].0@, v@[i as int].1));
                }
                if v[i].1 {
                    r.push(v[i].0.clone());
                    proof {
                        assert(strings_view(r@) =~= existing(found_view(v@.subrange(0, i as int))).push(v@[i as int].0@));
                    }
                }
                i = i + 1;
            }
            proof {
                assert(v@.subrange(0, v@.len() as int) =~= v@);
            }
            if r.len() == 0 {
                Err(codegen_err(String::from_str("no sekirei libraries found")))
            } else {
                Ok(r)
            }
        },
    }
}

} // verus!

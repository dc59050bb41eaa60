//! The `sekirei.toml` project manifest: its contents, and the templates a new project starts
//! from. Reading the file and decoding its TOML are done outside this library.
use vstd::prelude::*;
use std::collections::HashMap;
use crate::text::push_str;

verus! {

/// The `[package]` table.
pub struct Package {
    pub name: String,
    pub version: String,
    pub author: Option<String>,
    /// The entry point, `src/main.sk` when none is given.
    pub entry: String,
}

/// A `sekirei.toml` manifest.
pub struct SekireiToml {
    pub package: Package,
    /// Dependencies by name, with their versions.
    pub dependencies: HashMap<String, String>,
}

/// The entry point used when the manifest names none.
pub fn default_entry() -> (r: String)
    ensures
        r@ == "src/main.sk"@,
{
    String::from_str("src/main.sk")
}

/// The text of the path `p` joined onto the directory `base`, as std's `Path::join` gives
/// it on the target the library is built for.
pub uninterp spec fn path_joined(base: Seq<char>, p: Seq<char>) -> Seq<char>;

/// std's `Path::join`, read back as text. Claimed: the result depends on the two texts
/// alone, and is named `path_joined`.
#[verifier::external_body]
pub(crate) fn path_join(base: &str, p: &str) -> (r: String)
    ensures
        r@ == path_joined(base@, p@),
{
    std::path::Path::new(base).join(p).to_string_lossy().into_owned()
}

impl SekireiToml {
    /// The path of the entry point under the project directory `base`.
    pub fn entry_path(&self, base: &str) -> (r: String)
        ensures
            r@ == path_joined(base@, self.package.entry@),
    {
        path_join(base, self.package.entry.as_str())
    }
}

/// The `sekirei.toml` of a new project.
pub open spec fn toml_template(name: Seq<char>) -> Seq<char> {
    "[package]\nname    = \""@ + name + "\"\nversion = \"0.1.0\"\nentry   = \"src/main.sk\"\n\n[dependencies]\n"@
}

/// The `src/main.sk` of a new project.
pub open spec fn main_template(name: Seq<char>) -> Seq<char> {
    "from std import io\n\nfn main():\n    io.println(\"Hello from "@ + name + "!\")\n"@
}

/// The `sekirei.toml` of a new project named `name`.
pub fn default_toml(name: &str) -> (r: String)
    ensures
        r@ == toml_template(name@),
{
    let mut s = String::from_str("[package]\nname    = \"");
    push_str(&mut s, name);
    push_str(&mut s, "\"\nversion = \"0.1.0\"\nentry   = \"src/main.sk\"\n\n[dependencies]\n");
    s
}

/// The `src/main.sk` of a new project named `name`.
pub fn default_main_sk(name: &str) -> (r: String)
    ensures
        r@ == main_template(name@),
{
    let mut s = String::from_str("from std import io\n\nfn main():\n    io.println(\"Hello from ");
    push_str(&mut s, name);
    push_str(&mut s, "!\")\n");
    s
}

/// A manifest that could not be loaded.
pub enum ManifestError {
    /// The file could not be read: its path and the reason.
    Io(String, String),
    /// The file is not a valid manifest: the reason.
    Parse(String),
}

impl ManifestError {
    /// The text shown for this error.
    pub fn to_display_string(&self) -> (r: String)
        ensures
            r@ == match self {
                ManifestError::Io(path, e) => "cannot read '"@ + path@ + "': "@ + e@,
                ManifestError::Parse(e) => "invalid sekirei.toml: "@ + e@,
            },
    {
        match self {
            ManifestError::Io(path, e) => {
                let mut s = String::from_str("cannot read '");
                push_str(&mut s, path.as_str());
                push_str(&mut s, "': ");
                push_str(&mut s, e.as_str());
                s
            },
            ManifestError::Parse(e) => {
                let mut s = String::from_str("invalid sekirei.toml: ");
                push_str(&mut s, e.as_str());
                s
            },
        }
    }
}

} // verus!

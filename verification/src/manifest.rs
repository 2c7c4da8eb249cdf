use vstd::prelude::*;
use vstd::string::StringExecFns;

verus! {

/// The validated, in-memory description of a package: its metadata, its
/// dependency lists (order preserved from the manifest), and its mapping from
/// source paths to install-time destination paths (order preserved, keys
/// unique).
pub struct ManifestFile {
    pub name: String,
    pub version: String,
    pub arch: String,
    pub maintainer: Option<String>,
    pub description: String,
    pub homepage: Option<String>,
    pub depends: Vec<String>,
    pub recommends: Vec<String>,
    pub suggests: Vec<String>,
    pub provides: Vec<String>,
    pub conflicts: Vec<String>,
    pub files: Vec<(String, String)>,
}

/// The mathematical content of a manifest: every text field as its character
/// sequence, and the file mapping as a sequence of (source, destination)
/// pairs.
pub struct ManifestView {
    pub name: Seq<char>,
    pub version: Seq<char>,
    pub arch: Seq<char>,
    pub maintainer: Option<Seq<char>>,
    pub description: Seq<char>,
    pub homepage: Option<Seq<char>>,
    pub depends: Seq<Seq<char>>,
    pub recommends: Seq<Seq<char>>,
    pub suggests: Seq<Seq<char>>,
    pub provides: Seq<Seq<char>>,
    pub conflicts: Seq<Seq<char>>,
    pub files: Seq<(Seq<char>, Seq<char>)>,
}

impl View for ManifestFile {
    type V = ManifestView;

    open spec fn view(&self) -> ManifestView {
        ManifestView {
            name: self.name@,
            version: self.version@,
            arch: self.arch@,
            maintainer: match self.maintainer {
                Some(ref s) => Some(s@),
                None => None,
            },
            description: self.description@,
            homepage: match self.homepage {
                Some(ref s) => Some(s@),
                None => None,
            },
            depends: self.depends@.map_values(|s: String| s@),
            recommends: self.recommends@.map_values(|s: String| s@),
            suggests: self.suggests@.map_values(|s: String| s@),
            provides: self.provides@.map_values(|s: String| s@),
            conflicts: self.conflicts@.map_values(|s: String| s@),
            files: self.files@.map_values(|p: (String, String)| (p.0@, p.1@)),
        }
    }
}

/// The optional lifecycle scripts found as sibling files of the manifest,
/// keyed by their four fixed names. `None` means the script file is absent.
pub struct Scripts {
    pub preinst: Option<Vec<u8>>,
    pub postinst: Option<Vec<u8>>,
    pub prerm: Option<Vec<u8>>,
    pub postrm: Option<Vec<u8>>,
}

/// The byte content of each lifecycle script that is present.
pub struct ScriptsView {
    pub preinst: Option<Seq<u8>>,
    pub postinst: Option<Seq<u8>>,
    pub prerm: Option<Seq<u8>>,
    pub postrm: Option<Seq<u8>>,
}

impl View for Scripts {
    type V = ScriptsView;

    open spec fn view(&self) -> ScriptsView {
        ScriptsView {
            preinst: match self.preinst {
                Some(ref b) => Some(b@),
                None => None,
            },
            postinst: match self.postinst {
                Some(ref b) => Some(b@),
                None => None,
            },
            prerm: match self.prerm {
                Some(ref b) => Some(b@),
                None => None,
            },
            postrm: match self.postrm {
                Some(ref b) => Some(b@),
                None => None,
            },
        }
    }
}

impl Scripts {
    /// A script set with all four scripts absent.
    pub fn none() -> (r: Scripts)
        ensures
            r@.preinst is None,
            r@.postinst is None,
            r@.prerm is None,
            r@.postrm is None,
    {
        Scripts { preinst: None, postinst: None, prerm: None, postrm: None }
    }
}

/// The placeholder text a manifest's description falls back to when the field
/// is absent.
pub fn description_default() -> (r: String)
    ensures
        r@ == "No description"@,
{
    String::from_str("No description")
}

} // verus!

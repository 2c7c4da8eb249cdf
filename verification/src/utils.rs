use vstd::prelude::*;
use vstd::string::StrSliceExecFns;
use vstd::string::StringExecFns;
use crate::manifest::ManifestFile;
use crate::manifest::ManifestView;
use crate::PackError;

verus! {

/// What `char::to_uppercase` yields for the given character: its full Unicode
/// uppercase mapping, one or more characters.
pub uninterp spec fn upper_of(c: char) -> Seq<char>;

/// Relies on char::to_uppercase: the uppercase mapping of a character, which
/// depends on the character alone (a character without an uppercase mapping
/// yields itself; the mapping may span several characters).
#[verifier::external_body]
fn char_uppercase(c: char) -> (r: String)
    ensures
        r@ == upper_of(c),
{
    c.to_uppercase().collect()
}

/// `s` with its first character replaced by that character's uppercase
/// mapping and the remainder unchanged.
pub open spec fn spec_capitalize(s: Seq<char>) -> Seq<char> {
    if s.len() == 0 {
        Seq::empty()
    } else {
        upper_of(s[0]) + s.drop_first()
    }
}

/// Upper-cases the first character of `s`, leaving the rest unchanged.
pub fn captalize_str(s: &str) -> (r: String)
    ensures
        r@ == spec_capitalize(s@),
{
    let n = s.unicode_len();
    if n == 0 {
        return String::new();
    }
    let c = s.get_char(0);
    let rest = s.substring_char(1, n);
    let r = char_uppercase(c).concat(rest);
    proof {
        assert(r@ =~= spec_capitalize(s@));
    }
    r
}

/// The items joined with a single comma between neighbours: no leading
/// separator, no trailing separator.
pub open spec fn spec_join_comma(items: Seq<Seq<char>>) -> Seq<char>
    decreases items.len(),
{
    if items.len() == 0 {
        Seq::empty()
    } else if items.len() == 1 {
        items[0]
    } else {
        spec_join_comma(items.drop_last()) + ","@ + items.last()
    }
}

/// The rendered control line for one list-valued field.
pub open spec fn spec_list_line(name: Seq<char>, items: Seq<Seq<char>>) -> Seq<char> {
    spec_capitalize(name) + ": "@ + spec_join_comma(items) + "\n"@
}

/// Renders a list-valued control field, or nothing at all when the list is
/// empty: an empty list never yields an empty-valued line.
pub fn vec_to_string(vector: &Vec<String>, property_name: &str) -> (r: Option<String>)
    ensures
        r is None <==> vector@.len() == 0,
        r matches Some(s) ==> s@ == spec_list_line(
            property_name@,
            vector@.map_values(|x: String| x@),
        ),
{
    if vector.len() == 0 {
        return None;
    }
    let ghost items: Seq<Seq<char>> = vector@.map_values(|x: String| x@);
    let mut out = captalize_str(property_name);
    out.append(": ");
    let mut i: usize = 0;
    while i < vector.len()
        invariant
            i <= vector@.len(),
            vector@.len() >= 1,
            items == vector@.map_values(|x: String| x@),
            out@ == spec_capitalize(property_name@) + ": "@ + spec_join_comma(
                items.subrange(0, i as int),
            ),
        decreases vector@.len() - i,
    {
        if i > 0 {
            out.append(",");
        }
        out.append(vector[i].as_str());
        proof {
            let taken = items.subrange(0, (i + 1) as int);
            assert(taken.last() == items[i as int]);
            if i == 0 {
                assert(spec_join_comma(items.subrange(0, 1)) == items[0]);
                assert(out@ =~= spec_capitalize(property_name@) + ": "@ + spec_join_comma(taken));
            } else {
                assert(taken.drop_last() =~= items.subrange(0, i as int));
                assert(out@ =~= spec_capitalize(property_name@) + ": "@ + spec_join_comma(taken));
            }
        }
        i = i + 1;
    }
    out.append("\n");
    proof {
        assert(items.subrange(0, items.len() as int) =~= items);
        assert(out@ =~= spec_list_line(property_name@, items));
    }
    Some(out)
}

/// True of characters the validator treats as trimmable whitespace.
pub open spec fn is_space_char(c: char) -> bool {
    c == ' ' || c == '\t' || c == '\n' || c == '\r'
}

/// True when `s` holds nothing but whitespace; such a field counts as missing.
pub open spec fn spec_blank(s: Seq<char>) -> bool {
    forall|i: int| 0 <= i < s.len() ==> is_space_char(s[i])
}

fn is_blank(s: &String) -> (r: bool)
    ensures
        r == spec_blank(s@),
{
    let st = s.as_str();
    let n = st.unicode_len();
    let mut i: usize = 0;
    while i < n
        invariant
            i <= n,
            n == s@.len(),
            st@ == s@,
            forall|j: int| 0 <= j < i ==> is_space_char(s@[j]),
        decreases n - i,
    {
        let c = st.get_char(i);
        if !(c == ' ' || c == '\t' || c == '\n' || c == '\r') {
            return false;
        }
        i = i + 1;
    }
    true
}

pub(crate) fn string_eq_lit(s: &String, lit: &str) -> (r: bool)
    ensures
        r == (s@ == lit@),
{
    let l = String::from_str(lit);
    *s == l
}

/// The fixed set of recognized architecture values.
pub open spec fn spec_valid_arch(a: Seq<char>) -> bool {
    ||| a == "all"@
    ||| a == "arm"@
    ||| a == "i686"@
    ||| a == "aarch64"@
    ||| a == "x86_64"@
}

/// What validation returns for a given manifest: `MissingField` when `name`,
/// `version` or `files` is absent (blank, for the text fields; empty, for the
/// mapping), else `InvalidArchitecture` when `arch` is not recognized, else
/// success.
pub open spec fn spec_validate(m: ManifestView) -> Result<(), PackError> {
    if spec_blank(m.name) || spec_blank(m.version) || m.files.len() == 0 {
        Err(PackError::MissingField)
    } else if !spec_valid_arch(m.arch) {
        Err(PackError::InvalidArchitecture)
    } else {
        Ok(())
    }
}

/// Checks that the manifest's mandatory fields are present and that its
/// architecture is one of the recognized values. Pure: no side effects, and
/// meant to run once before any archive construction begins.
pub fn validate_manifest(m: &ManifestFile) -> (r: Result<(), PackError>)
    ensures
        r == spec_validate(m@),
{
    if is_blank(&m.name) || is_blank(&m.version) || m.files.len() == 0 {
        return Err(PackError::MissingField);
    }
    let arch_ok = string_eq_lit(&m.arch, "all") || string_eq_lit(&m.arch, "arm")
        || string_eq_lit(&m.arch, "i686") || string_eq_lit(&m.arch, "aarch64")
        || string_eq_lit(&m.arch, "x86_64");
    if !arch_ok {
        return Err(PackError::InvalidArchitecture);
    }
    Ok(())
}

/// Law: validation succeeds exactly when `name` and `version` are non-blank,
/// the file mapping is non-empty, and `arch` is one of the five recognized
/// values.
pub proof fn lemma_validate_ok_iff(m: ManifestView)
    ensures
        spec_validate(m) is Ok <==> (!spec_blank(m.name) && !spec_blank(m.version) && m.files.len()
            > 0 && spec_valid_arch(m.arch)),
{
}

} // verus!

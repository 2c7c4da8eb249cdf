use vstd::prelude::*;
use vstd::string::StrSliceExecFns;
use vstd::string::StringExecFns;
use vstd::utf8::encode_utf8;
use crate::manifest::ManifestFile;
use crate::manifest::ManifestView;
use crate::utils::spec_capitalize;
use crate::utils::spec_join_comma;
use crate::utils::spec_list_line;
use crate::utils::vec_to_string;

verus! {

/// The `Maintainer` value: the declared one, or the fixed fallback.
pub open spec fn spec_maintainer(m: Option<Seq<char>>) -> Seq<char> {
    match m {
        Some(s) => s,
        None => "None"@,
    }
}

/// The rendered block for one list-valued field: a single line when the list
/// is non-empty, nothing at all when it is empty.
pub open spec fn spec_list_field(name: Seq<char>, items: Seq<Seq<char>>) -> Seq<char> {
    if items.len() == 0 {
        Seq::empty()
    } else {
        spec_list_line(name, items)
    }
}

/// The full control record as text: the five mandatory scalar lines in fixed
/// order, the optional `Homepage` line, then one line per non-empty list
/// field in fixed order.
pub open spec fn spec_control_text(m: ManifestView) -> Seq<char> {
    "Package: "@ + m.name + "\n"@ + "Version: "@ + m.version + "\n"@ + "Architecture: "@ + m.arch
        + "\n"@ + "Maintainer: "@ + spec_maintainer(m.maintainer) + "\n"@ + "Description: "@
        + m.description + "\n"@ + (match m.homepage {
        Some(h) => "Homepage: "@ + h + "\n"@,
        None => Seq::<char>::empty(),
    }) + spec_list_field("depends"@, m.depends) + spec_list_field("recommends"@, m.recommends)
        + spec_list_field("suggests"@, m.suggests) + spec_list_field("provides"@, m.provides)
        + spec_list_field("conflicts"@, m.conflicts)
}

/// The rendered control record, as the UTF-8 bytes of its text.
pub open spec fn spec_render_control(m: ManifestView) -> Seq<u8> {
    encode_utf8(spec_control_text(m))
}

/// Renders the textual control record for a validated manifest. Pure string
/// building: no filesystem access, field values used verbatim.
pub fn render_control(m: &ManifestFile) -> (r: Vec<u8>)
    ensures
        r@ == spec_render_control(m@),
{
    let mut text = String::from_str("Package: ");
    text.append(m.name.as_str());
    text.append("\n");
    text.append("Version: ");
    text.append(m.version.as_str());
    text.append("\n");
    text.append("Architecture: ");
    text.append(m.arch.as_str());
    text.append("\n");
    text.append("Maintainer: ");
    match &m.maintainer {
        Some(s) => text.append(s.as_str()),
        None => text.append("None"),
    }
    text.append("\n");
    text.append("Description: ");
    text.append(m.description.as_str());
    text.append("\n");
    match &m.homepage {
        Some(h) => {
            text.append("Homepage: ");
            text.append(h.as_str());
            text.append("\n");
        },
        None => {},
    }
    append_list_field(&mut text, &m.depends, "depends");
    append_list_field(&mut text, &m.recommends, "recommends");
    append_list_field(&mut text, &m.suggests, "suggests");
    append_list_field(&mut text, &m.provides, "provides");
    append_list_field(&mut text, &m.conflicts, "conflicts");
    proof {
        assert(text@ =~= spec_control_text(m@));
    }
    let bytes = text.as_str().as_bytes_vec();
    bytes
}

fn append_list_field(text: &mut String, items: &Vec<String>, name: &str)
    ensures
        final(text)@ == old(text)@ + spec_list_field(
            name@,
            items@.map_values(|x: String| x@),
        ),
{
    match vec_to_string(items, name) {
        Some(line) => text.append(line.as_str()),
        None => {},
    }
}

/// Law: control rendering is deterministic. The rendered bytes are a function
/// of the manifest content alone, so rendering equal manifests yields
/// byte-identical output.
pub proof fn lemma_render_control_deterministic(a: ManifestView, b: ManifestView)
    requires
        a == b,
    ensures
        spec_render_control(a) == spec_render_control(b),
{
}

/// Law: an empty list field is omitted from the control text entirely — never
/// rendered as an empty-valued line — and a non-empty one renders as a single
/// line whose items are joined by single commas, with no separator before the
/// first item or after the last.
pub proof fn lemma_list_field_rendering(name: Seq<char>, items: Seq<Seq<char>>)
    ensures
        items.len() == 0 ==> spec_list_field(name, items) == Seq::<char>::empty(),
        items.len() > 0 ==> spec_list_field(name, items) == spec_capitalize(name) + ": "@
            + spec_join_comma(items) + "\n"@,
        items.len() == 1 ==> spec_join_comma(items) == items[0],
        items.len() >= 2 ==> spec_join_comma(items) == spec_join_comma(items.drop_last()) + ","@
            + items.last(),
{
}

} // verus!

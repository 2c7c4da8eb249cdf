use vstd::prelude::*;
use vstd::string::StrSliceExecFns;
use vstd::string::StringExecFns;
use vstd::utf8::encode_utf8;
use vstd::utf8::is_ascii_chars;
use vstd::utf8::is_ascii_chars_encode_utf8;
use crate::ar::assemble;
use crate::ar::member_views;
use crate::ar::spec_ar_archive;
use crate::ar::spec_member_sizes_fit;
use crate::ar::spec_members_ok;
use crate::ar::AR_SIZE_LIMIT;
use crate::ar::ArMember;
use crate::ar::ArMemberView;
use crate::control::render_control;
use crate::control::spec_render_control;
use crate::manifest::ManifestFile;
use crate::manifest::ManifestView;
use crate::manifest::Scripts;
use crate::manifest::ScriptsView;
use crate::tar::build_control_tar;
use crate::tar::build_data_tar;
use crate::tar::entry_views;
use crate::tar::spec_control_items;
use crate::tar::spec_control_tar;
use crate::tar::spec_data_items;
use crate::tar::spec_data_tar;
use crate::tar::spec_has_dup;
use crate::tar::spec_items_fit;
use crate::tar::spec_missing;
use crate::tar::DataEntry;
use crate::tar::DataEntryView;
use crate::utils::spec_validate;
use crate::utils::validate_manifest;
use crate::PackError;

verus! {

/// What flate2's gzip encoder returns for the given input bytes.
pub uninterp spec fn gzip_of(data: Seq<u8>) -> Seq<u8>;

/// Relies on flate2's `write::GzEncoder` at a fixed compression level with
/// its default header, whose fields are all constants (zero timestamp, and an
/// operating-system tag the crate fixes for cross-platform reproducible
/// streams), so the compressed bytes are a function of the input bytes alone.
/// The call cannot fail: the encoder's only error source is its sink, and a
/// `Vec` sink accepts every write.
#[verifier::external_body]
fn gzip_compress(data: &Vec<u8>) -> (r: Option<Vec<u8>>)
    ensures
        r is Some,
        r matches Some(b) ==> b@ == gzip_of(data@),
{
    let mut enc = flate2::write::GzEncoder::new(Vec::new(), flate2::Compression::new(6));
    if std::io::Write::write_all(&mut enc, data.as_slice()).is_err() {
        return None;
    }
    match enc.finish() {
        Ok(v) => Some(v),
        Err(_) => None,
    }
}

/// The three container members a successful build assembles, in their fixed
/// order.
pub open spec fn spec_deb_members(
    m: ManifestView,
    es: Seq<DataEntryView>,
    s: ScriptsView,
) -> Seq<ArMemberView> {
    seq![
        ArMemberView { name: "debian-binary"@, data: encode_utf8("2.0\n"@) },
        ArMemberView {
            name: "control.tar.gz"@,
            data: gzip_of(spec_control_tar(spec_render_control(m), s)),
        },
        ArMemberView { name: "data.tar.gz"@, data: gzip_of(spec_data_tar(es)) },
    ]
}

/// The bytes of the finished `.deb` container for the given inputs.
pub open spec fn spec_deb(m: ManifestView, es: Seq<DataEntryView>, s: ScriptsView) -> Seq<u8> {
    spec_ar_archive(spec_deb_members(m, es, s))
}

/// The inputs on which a build is owed an archive: a valid manifest, no
/// duplicate destination, no missing source, and every entry within its
/// header fields.
pub open spec fn spec_build_ok(m: ManifestView, es: Seq<DataEntryView>, s: ScriptsView) -> bool {
    &&& spec_validate(m) is Ok
    &&& !spec_has_dup(es)
    &&& !spec_missing(es)
    &&& spec_items_fit(spec_data_items(es, Seq::empty()))
    &&& spec_items_fit(spec_control_items(spec_render_control(m), s))
}

/// Runs the whole pipeline: validation, control rendering, both archive
/// builds, compression, and container assembly. Validation failures are
/// reported before any archive is built; compression failures and oversized
/// members surface as `IoError`.
pub fn build_deb(manifest: &ManifestFile, entries: &Vec<DataEntry>, scripts: &Scripts) -> (r:
    Result<Vec<u8>, PackError>)
    ensures
        r matches Ok(b) ==> spec_build_ok(manifest@, entry_views(entries@), scripts@) && b@
            == spec_deb(manifest@, entry_views(entries@), scripts@),
        spec_validate(manifest@) matches Err(e) ==> r == Err::<Vec<u8>, PackError>(e),
        spec_validate(manifest@) is Ok && spec_has_dup(entry_views(entries@)) ==> r == Err::<
            Vec<u8>,
            PackError,
        >(PackError::DuplicateDestination),
        spec_validate(manifest@) is Ok && !spec_has_dup(entry_views(entries@)) && spec_missing(
            entry_views(entries@),
        ) ==> r == Err::<Vec<u8>, PackError>(PackError::SourceFileNotFound),
        spec_validate(manifest@) is Ok && !spec_has_dup(entry_views(entries@)) && !spec_missing(
            entry_views(entries@),
        ) && !spec_build_ok(manifest@, entry_views(entries@), scripts@) ==> r == Err::<
            Vec<u8>,
            PackError,
        >(PackError::IoError),
        spec_build_ok(manifest@, entry_views(entries@), scripts@) && gzip_of(
            spec_control_tar(spec_render_control(manifest@), scripts@),
        ).len() < AR_SIZE_LIMIT && gzip_of(spec_data_tar(entry_views(entries@))).len()
            < AR_SIZE_LIMIT ==> (r matches Ok(b) && b@ == spec_deb(
            manifest@,
            entry_views(entries@),
            scripts@,
        )),
        spec_build_ok(manifest@, entry_views(entries@), scripts@) && !(gzip_of(
            spec_control_tar(spec_render_control(manifest@), scripts@),
        ).len() < AR_SIZE_LIMIT && gzip_of(spec_data_tar(entry_views(entries@))).len()
            < AR_SIZE_LIMIT) ==> r == Err::<Vec<u8>, PackError>(PackError::IoError),
{
    let ghost ev = entry_views(entries@);
    match validate_manifest(manifest) {
        Err(e) => {
            return Err(e);
        },
        Ok(()) => {},
    }
    let data_tar = match build_data_tar(entries) {
        Ok(b) => b,
        Err(e) => {
            return Err(e);
        },
    };
    let control = render_control(manifest);
    let control_tar = match build_control_tar(&control, scripts) {
        Ok(b) => b,
        Err(e) => {
            return Err(e);
        },
    };
    let control_gz = match gzip_compress(&control_tar) {
        Some(b) => b,
        None => {
            proof {
                assert(false);
            }
            return Err(PackError::IoError);
        },
    };
    let data_gz = match gzip_compress(&data_tar) {
        Some(b) => b,
        None => {
            proof {
                assert(false);
            }
            return Err(PackError::IoError);
        },
    };
    let mut members: Vec<ArMember> = Vec::new();
    members.push(ArMember { name: String::from_str("debian-binary"), data: "2.0\n".as_bytes_vec() });
    members.push(ArMember { name: String::from_str("control.tar.gz"), data: control_gz });
    members.push(ArMember { name: String::from_str("data.tar.gz"), data: data_gz });
    proof {
        assert(member_views(members@) =~= spec_deb_members(manifest@, ev, scripts@));
        assert(spec_members_ok(member_views(members@)));
        reveal_strlit("2.0\n");
        assert(is_ascii_chars("2.0\n"@));
        is_ascii_chars_encode_utf8("2.0\n"@);
        let ms = member_views(members@);
        let control_fits = gzip_of(
            spec_control_tar(spec_render_control(manifest@), scripts@),
        ).len() < AR_SIZE_LIMIT;
        let data_fits = gzip_of(spec_data_tar(ev)).len() < AR_SIZE_LIMIT;
        if control_fits && data_fits {
            assert forall|k: int| 0 <= k < ms.len() implies (#[trigger] ms[k]).data.len()
                < AR_SIZE_LIMIT by {
                assert(k == 0 || k == 1 || k == 2);
            }
            assert(spec_member_sizes_fit(ms));
        } else {
            assert(!spec_member_sizes_fit(ms)) by {
                if !control_fits {
                    assert(ms[1].data.len() >= AR_SIZE_LIMIT);
                } else {
                    assert(ms[2].data.len() >= AR_SIZE_LIMIT);
                }
            }
        }
    }
    match assemble(&members) {
        Ok(b) => Ok(b),
        Err(_) => Err(PackError::IoError),
    }
}

/// The conventional output file name, `<name>_<version>_<arch>.deb`.
pub fn output_file_name(m: &ManifestFile) -> (r: String)
    ensures
        r@ == m@.name + "_"@ + m@.version + "_"@ + m@.arch + ".deb"@,
{
    let mut s = String::new();
    s.append(m.name.as_str());
    s.append("_");
    s.append(m.version.as_str());
    s.append("_");
    s.append(m.arch.as_str());
    s.append(".deb");
    proof {
        assert(s@ =~= m@.name + "_"@ + m@.version + "_"@ + m@.arch + ".deb"@);
    }
    s
}

/// Law: package assembly is reproducible. The assembled bytes are a function
/// of the manifest content, the declared file contents and the script set
/// alone — never of build time or builder identity — so two builds from
/// identical inputs, at different times, are byte-identical.
pub proof fn lemma_build_reproducible(
    m1: ManifestView,
    e1: Seq<DataEntryView>,
    s1: ScriptsView,
    m2: ManifestView,
    e2: Seq<DataEntryView>,
    s2: ScriptsView,
)
    requires
        m1 == m2,
        e1 == e2,
        s1 == s2,
    ensures
        spec_deb(m1, e1, s1) == spec_deb(m2, e2, s2),
{
}

} // verus!

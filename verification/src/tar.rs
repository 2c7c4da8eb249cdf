use vstd::prelude::*;
use vstd::string::StrSliceExecFns;
use vstd::string::StringExecFns;
use vstd::utf8::encode_utf8;
use crate::bytes::lemma_octal_len;
use crate::bytes::lemma_sum_bytes_bound;
use crate::bytes::push_bytes;
use crate::bytes::push_octal;
use crate::bytes::push_range;
use crate::bytes::push_repeat;
use crate::bytes::repeat_byte;
use crate::bytes::spec_octal;
use crate::bytes::sum_bytes;
use crate::bytes::sum_range;
use crate::manifest::Scripts;
use crate::manifest::ScriptsView;
use crate::PackError;

verus! {

/// The largest content size a tar size field of eleven octal digits can
/// record.
pub const TAR_SIZE_LIMIT: u64 = 0x200000000;

/// The largest mode a tar mode field of seven octal digits can record.
pub const TAR_MODE_LIMIT: u64 = 0x200000;

/// One tar entry, mathematically: its archive path as bytes, its mode, its
/// type flag byte, and its content.
pub struct TarItem {
    pub name: Seq<u8>,
    pub mode: nat,
    pub typeflag: u8,
    pub content: Seq<u8>,
}

/// One tar entry as built at run time.
pub struct TarEntryBuf {
    pub name: Vec<u8>,
    pub mode: u64,
    pub typeflag: u8,
    pub content: Vec<u8>,
}

impl View for TarEntryBuf {
    type V = TarItem;

    open spec fn view(&self) -> TarItem {
        TarItem {
            name: self.name@,
            mode: self.mode as nat,
            typeflag: self.typeflag,
            content: self.content@,
        }
    }
}

pub open spec fn item_views(s: Seq<TarEntryBuf>) -> Seq<TarItem> {
    s.map_values(|x: TarEntryBuf| x@)
}

/// The number of zero bytes that pad a content of `n` bytes to a full
/// 512-byte block.
pub open spec fn pad512(n: nat) -> nat {
    if n % 512 == 0 {
        0
    } else {
        (512 - n % 512) as nat
    }
}

/// A 512-byte tar header with the checksum field still holding the eight
/// spaces over which the checksum is computed. Layout: name (100), mode (8),
/// uid (8), gid (8), size (12), mtime (12), checksum (8), type flag (1),
/// link name (100), magic and version (8), then zero padding to 512. The
/// owner and group are the numeric root identity and the modification time is
/// fixed at zero, so output never depends on who builds or when.
pub open spec fn spec_tar_header_pre(name: Seq<u8>, mode: nat, size: nat, typeflag: u8) -> Seq<
    u8,
> {
    name + repeat_byte(0, (100 - name.len()) as nat) + spec_octal(mode, 7) + seq![0u8]
        + spec_octal(0, 7) + seq![0u8] + spec_octal(0, 7) + seq![0u8] + spec_octal(size, 11)
        + seq![0u8] + spec_octal(0, 11) + seq![0u8] + repeat_byte(0x20, 8) + seq![typeflag]
        + repeat_byte(0, 100) + seq![0x75u8, 0x73u8, 0x74u8, 0x61u8, 0x72u8, 0u8, 0x30u8, 0x30u8]
        + repeat_byte(0, 247)
}

/// The finished 512-byte tar header: the checksum of the space-filled header,
/// as six octal digits, a NUL and a space, spliced into bytes 148 to 156.
pub open spec fn spec_tar_header(name: Seq<u8>, mode: nat, size: nat, typeflag: u8) -> Seq<u8> {
    let pre = spec_tar_header_pre(name, mode, size, typeflag);
    pre.subrange(0, 148) + spec_octal(sum_bytes(pre) as nat, 6) + seq![0u8, 0x20u8] + pre.subrange(
        156,
        512,
    )
}

/// One complete tar entry: header, content, and zero padding to a block
/// boundary.
pub open spec fn spec_tar_entry(it: TarItem) -> Seq<u8> {
    spec_tar_header(it.name, it.mode, it.content.len(), it.typeflag) + it.content + repeat_byte(
        0,
        pad512(it.content.len()),
    )
}

pub proof fn lemma_header_pre_len(name: Seq<u8>, mode: nat, size: nat, typeflag: u8)
    requires
        name.len() <= 100,
    ensures
        spec_tar_header_pre(name, mode, size, typeflag).len() == 512,
{
    lemma_octal_len(mode, 7);
    lemma_octal_len(0, 7);
    lemma_octal_len(size, 11);
    lemma_octal_len(0, 11);
}

pub proof fn lemma_header_len(name: Seq<u8>, mode: nat, size: nat, typeflag: u8)
    requires
        name.len() <= 100,
    ensures
        spec_tar_header(name, mode, size, typeflag).len() == 512,
{
    lemma_header_pre_len(name, mode, size, typeflag);
    lemma_octal_len(sum_bytes(spec_tar_header_pre(name, mode, size, typeflag)) as nat, 6);
}

/// Appends one complete tar entry to `v`.
fn push_tar_entry(v: &mut Vec<u8>, name: &Vec<u8>, mode: u64, typeflag: u8, content: &Vec<u8>)
    requires
        name@.len() <= 100,
        mode < TAR_MODE_LIMIT,
        content@.len() < TAR_SIZE_LIMIT,
    ensures
        final(v)@ == old(v)@ + spec_tar_entry(
            TarItem { name: name@, mode: mode as nat, typeflag, content: content@ },
        ),
{
    let ghost pre = spec_tar_header_pre(name@, mode as nat, content@.len(), typeflag);
    proof {
        lemma_header_pre_len(name@, mode as nat, content@.len(), typeflag);
    }
    let mut h: Vec<u8> = Vec::new();
    push_bytes(&mut h, name);
    push_repeat(&mut h, 0, 100 - name.len());
    push_octal(&mut h, mode, 7);
    h.push(0);
    push_octal(&mut h, 0, 7);
    h.push(0);
    push_octal(&mut h, 0, 7);
    h.push(0);
    push_octal(&mut h, content.len() as u64, 11);
    h.push(0);
    push_octal(&mut h, 0, 11);
    h.push(0);
    push_repeat(&mut h, 0x20, 8);
    h.push(typeflag);
    push_repeat(&mut h, 0, 100);
    h.push(0x75);
    h.push(0x73);
    h.push(0x74);
    h.push(0x61);
    h.push(0x72);
    h.push(0);
    h.push(0x30);
    h.push(0x30);
    push_repeat(&mut h, 0, 247);
    proof {
        assert(h@ =~= pre);
    }
    let sum = sum_range(&h, 0, 512);
    proof {
        assert(h@.subrange(0, 512) =~= pre);
        lemma_sum_bytes_bound(pre);
    }
    push_range(v, &h, 0, 148);
    push_octal(v, sum, 6);
    v.push(0);
    v.push(0x20);
    push_range(v, &h, 156, 512);
    push_bytes(v, content);
    let padlen: usize = if content.len() % 512 == 0 {
        0
    } else {
        512 - content.len() % 512
    };
    push_repeat(v, 0, padlen);
    proof {
        assert(v@ =~= old(v)@ + spec_tar_entry(
            TarItem { name: name@, mode: mode as nat, typeflag, content: content@ },
        ));
    }
}

/// The concatenation of the rendered entries, in order.
pub open spec fn spec_tar_stream_body(items: Seq<TarItem>) -> Seq<u8>
    decreases items.len(),
{
    if items.len() == 0 {
        Seq::empty()
    } else {
        spec_tar_stream_body(items.drop_last()) + spec_tar_entry(items.last())
    }
}

/// A complete tar stream: the entries in order, then the two zero blocks that
/// mark the end of the archive.
pub open spec fn spec_tar_stream(items: Seq<TarItem>) -> Seq<u8> {
    spec_tar_stream_body(items) + repeat_byte(0, 1024)
}

/// True when every entry fits its fixed-width header fields: name at most 100
/// bytes, mode below eight octal digits, content below twelve.
pub open spec fn spec_items_fit(items: Seq<TarItem>) -> bool {
    forall|k: int|
        0 <= k < items.len() ==> (#[trigger] items[k]).name.len() <= 100 && items[k].mode
            < TAR_MODE_LIMIT && items[k].content.len() < TAR_SIZE_LIMIT
}

/// Renders a list of tar entries into one stream, or reports an unwritable
/// entry.
pub fn render_tar_stream(items: &Vec<TarEntryBuf>) -> (r: Result<Vec<u8>, PackError>)
    ensures
        spec_items_fit(item_views(items@)) ==> (r matches Ok(b) && b@ == spec_tar_stream(
            item_views(items@),
        )),
        !spec_items_fit(item_views(items@)) ==> r == Err::<Vec<u8>, PackError>(
            PackError::IoError,
        ),
{
    let ghost ivs = item_views(items@);
    let mut out: Vec<u8> = Vec::new();
    let mut i: usize = 0;
    while i < items.len()
        invariant
            i <= items@.len(),
            ivs == item_views(items@),
            out@ == spec_tar_stream_body(ivs.subrange(0, i as int)),
            forall|k: int|
                0 <= k < i ==> (#[trigger] ivs[k]).name.len() <= 100 && ivs[k].mode
                    < TAR_MODE_LIMIT && ivs[k].content.len() < TAR_SIZE_LIMIT,
        decreases items@.len() - i,
    {
        let it = &items[i];
        if !(it.name.len() <= 100 && it.mode < TAR_MODE_LIMIT && (it.content.len() as u64)
            < TAR_SIZE_LIMIT) {
            proof {
                assert(ivs[i as int] == items@[i as int]@);
                assert(!spec_items_fit(ivs));
            }
            return Err(PackError::IoError);
        }
        push_tar_entry(&mut out, &it.name, it.mode, it.typeflag, &it.content);
        proof {
            let taken = ivs.subrange(0, (i + 1) as int);
            assert(taken.drop_last() =~= ivs.subrange(0, i as int));
            assert(taken.last() == ivs[i as int]);
            assert(ivs[i as int] == items@[i as int]@);
            assert(out@ =~= spec_tar_stream_body(taken));
        }
        i = i + 1;
    }
    push_repeat(&mut out, 0, 1024);
    proof {
        assert(ivs.subrange(0, ivs.len() as int) =~= ivs);
        assert(out@ =~= spec_tar_stream(ivs));
    }
    Ok(out)
}

/// One declared data file: its install-time destination path, its content
/// when the source file exists, and whether the installed file is executable.
pub struct DataEntry {
    pub dest: String,
    pub content: Option<Vec<u8>>,
    pub executable: bool,
}

/// The mathematical content of a data entry.
pub struct DataEntryView {
    pub dest: Seq<char>,
    pub content: Option<Seq<u8>>,
    pub executable: bool,
}

impl View for DataEntry {
    type V = DataEntryView;

    open spec fn view(&self) -> DataEntryView {
        DataEntryView {
            dest: self.dest@,
            content: match self.content {
                Some(ref b) => Some(b@),
                None => None,
            },
            executable: self.executable,
        }
    }
}

pub open spec fn entry_views(s: Seq<DataEntry>) -> Seq<DataEntryView> {
    s.map_values(|e: DataEntry| e@)
}

/// The archive path of an installed file or directory: the destination path
/// under the conventional leading `./`, as bytes.
pub open spec fn tar_name(p: Seq<char>) -> Seq<u8> {
    encode_utf8("./"@ + p)
}

/// A synthesized directory entry: mode 755, directory type flag, no content.
pub open spec fn dir_item(p: Seq<char>) -> TarItem {
    TarItem { name: tar_name(p), mode: 0o755 as nat, typeflag: 0x35, content: Seq::empty() }
}

/// A regular-file entry: mode 755 when executable, else 644.
pub open spec fn file_item(e: DataEntryView) -> TarItem {
    TarItem {
        name: tar_name(e.dest),
        mode: if e.executable {
            0o755 as nat
        } else {
            0o644 as nat
        },
        typeflag: 0x30,
        content: match e.content {
            Some(b) => b,
            None => Seq::empty(),
        },
    }
}

/// The prefixes of `d` that end at a `/` separator at position `i` or later,
/// shortest first. Each such prefix names an intermediate directory.
pub open spec fn spec_dir_prefixes_from(d: Seq<char>, i: int) -> Seq<Seq<char>>
    decreases d.len() - i,
{
    if i < 0 || i >= d.len() {
        Seq::empty()
    } else if d[i] == '/' {
        seq![d.take(i + 1)] + spec_dir_prefixes_from(d, i + 1)
    } else {
        spec_dir_prefixes_from(d, i + 1)
    }
}

/// All intermediate-directory prefixes of a destination path, shortest first.
pub open spec fn spec_dir_prefixes(d: Seq<char>) -> Seq<Seq<char>> {
    spec_dir_prefixes_from(d, 0)
}

/// The directory entries synthesized for the given prefixes: one per prefix
/// that has no entry yet, in order. `done` collects every prefix seen so far,
/// so a directory is emitted at most once across the whole archive.
pub open spec fn spec_new_dirs(prefixes: Seq<Seq<char>>, done: Seq<Seq<char>>) -> Seq<TarItem>
    decreases prefixes.len(),
{
    if prefixes.len() == 0 {
        Seq::empty()
    } else {
        let p = prefixes[0];
        (if done.contains(p) {
            Seq::<TarItem>::empty()
        } else {
            seq![dir_item(p)]
        }) + spec_new_dirs(prefixes.drop_first(), done.push(p))
    }
}

/// The tar entries of the data archive: for each declared file in manifest
/// order, the not-yet-seen intermediate directories (shortest first), then
/// the file itself.
pub open spec fn spec_data_items(entries: Seq<DataEntryView>, done: Seq<Seq<char>>) -> Seq<
    TarItem,
>
    decreases entries.len(),
{
    if entries.len() == 0 {
        Seq::empty()
    } else {
        let e = entries[0];
        let ps = spec_dir_prefixes(e.dest);
        spec_new_dirs(ps, done) + seq![file_item(e)] + spec_data_items(entries.drop_first(), done + ps)
    }
}

/// Two entries resolve to the same destination path.
pub open spec fn spec_has_dup(entries: Seq<DataEntryView>) -> bool {
    exists|a: int, b: int|
        0 <= a < b < entries.len() && (#[trigger] entries[a]).dest == (#[trigger] entries[b]).dest
}

/// Some declared source file was not found.
pub open spec fn spec_missing(entries: Seq<DataEntryView>) -> bool {
    exists|a: int| 0 <= a < entries.len() && (#[trigger] entries[a]).content is None
}

/// The complete data archive stream for the given entries.
pub open spec fn spec_data_tar(entries: Seq<DataEntryView>) -> Seq<u8> {
    spec_tar_stream(spec_data_items(entries, Seq::empty()))
}

fn contains_string(v: &Vec<String>, s: &String) -> (r: bool)
    ensures
        r == v@.map_values(|x: String| x@).contains(s@),
{
    let ghost views = v@.map_values(|x: String| x@);
    let mut i: usize = 0;
    while i < v.len()
        invariant
            i <= v@.len(),
            views == v@.map_values(|x: String| x@),
            forall|j: int| 0 <= j < i ==> views[j] != s@,
        decreases v@.len() - i,
    {
        if v[i] == *s {
            proof {
                assert(views[i as int] == s@);
            }
            return true;
        }
        i = i + 1;
    }
    proof {
        assert(forall|j: int| 0 <= j < views.len() ==> views[j] != s@);
    }
    false
}

fn tar_name_bytes(path: &String) -> (r: Vec<u8>)
    ensures
        r@ == tar_name(path@),
{
    let mut s = String::from_str("./");
    s.append(path.as_str());
    s.as_str().as_bytes_vec()
}

fn copy_bytes(c: &Vec<u8>) -> (r: Vec<u8>)
    ensures
        r@ == c@,
{
    let mut r: Vec<u8> = Vec::new();
    push_bytes(&mut r, c);
    proof {
        assert(r@ =~= c@);
    }
    r
}

/// Packs the declared files into the data archive stream: for every entry in
/// manifest order, any not-yet-present intermediate directories and then the
/// file itself at `./<dest>`, with fixed timestamps and root ownership.
/// Fails with `DuplicateDestination` when two entries share a destination,
/// with `SourceFileNotFound` when a declared source was not found, and with
/// `IoError` when an entry cannot fit its header fields.
pub fn build_data_tar(entries: &Vec<DataEntry>) -> (r: Result<Vec<u8>, PackError>)
    ensures
        spec_has_dup(entry_views(entries@)) ==> r == Err::<Vec<u8>, PackError>(
            PackError::DuplicateDestination,
        ),
        !spec_has_dup(entry_views(entries@)) && spec_missing(entry_views(entries@)) ==> r
            == Err::<Vec<u8>, PackError>(PackError::SourceFileNotFound),
        !spec_has_dup(entry_views(entries@)) && !spec_missing(entry_views(entries@))
            && spec_items_fit(spec_data_items(entry_views(entries@), Seq::empty())) ==> (
        r matches Ok(b) && b@ == spec_data_tar(entry_views(entries@))),
        !spec_has_dup(entry_views(entries@)) && !spec_missing(entry_views(entries@))
            && !spec_items_fit(spec_data_items(entry_views(entries@), Seq::empty())) ==> r
            == Err::<Vec<u8>, PackError>(PackError::IoError),
{
    let ghost ev = entry_views(entries@);
    let n = entries.len();
    let mut i: usize = 0;
    while i < n
        invariant
            i <= n,
            n == entries@.len(),
            ev == entry_views(entries@),
            forall|a: int, b: int|
                0 <= a < i && a < b < n ==> (#[trigger] ev[a]).dest != (#[trigger] ev[b]).dest,
        decreases n - i,
    {
        let mut j = i + 1;
        while j < n
            invariant
                i < n,
                i < j <= n,
                n == entries@.len(),
                ev == entry_views(entries@),
                forall|b: int| i < b < j ==> (#[trigger] ev[b]).dest != ev[i as int].dest,
            decreases n - j,
        {
            if entries[i].dest == entries[j].dest {
                proof {
                    assert(ev[i as int].dest == entries@[i as int]@.dest);
                    assert(ev[j as int].dest == entries@[j as int]@.dest);
                    assert(spec_has_dup(ev));
                }
                return Err(PackError::DuplicateDestination);
            }
            j = j + 1;
        }
        i = i + 1;
    }
    proof {
        assert(!spec_has_dup(ev));
    }
    let mut i: usize = 0;
    while i < n
        invariant
            i <= n,
            n == entries@.len(),
            ev == entry_views(entries@),
            !spec_has_dup(ev),
            forall|a: int| 0 <= a < i ==> (#[trigger] ev[a]).content is Some,
        decreases n - i,
    {
        match &entries[i].content {
            None => {
                proof {
                    assert(ev[i as int].content is None);
                    assert(spec_missing(ev));
                }
                return Err(PackError::SourceFileNotFound);
            },
            Some(_) => {},
        }
        i = i + 1;
    }
    proof {
        assert(!spec_missing(ev));
    }
    let mut items: Vec<TarEntryBuf> = Vec::new();
    let mut emitted: Vec<String> = Vec::new();
    proof {
        assert(ev.subrange(0, n as int) =~= ev);
        assert(emitted@.map_values(|x: String| x@) =~= Seq::<Seq<char>>::empty());
        assert(item_views(items@) + spec_data_items(ev.subrange(0, n as int), Seq::empty()) =~=
            spec_data_items(ev, Seq::empty()));
    }
    let mut k: usize = 0;
    while k < n
        invariant
            k <= n,
            n == entries@.len(),
            ev == entry_views(entries@),
            forall|a: int| 0 <= a < n ==> (#[trigger] ev[a]).content is Some,
            spec_data_items(ev, Seq::empty()) == item_views(items@) + spec_data_items(
                ev.subrange(k as int, n as int),
                emitted@.map_values(|x: String| x@),
            ),
        decreases n - k,
    {
        let ghost base_items = item_views(items@);
        let ghost done_start = emitted@.map_values(|x: String| x@);
        let ghost e = ev[k as int];
        proof {
            assert(e == entries@[k as int]@);
        }
        let dstr: &str = entries[k].dest.as_str();
        let dn = dstr.unicode_len();
        let mut ci: usize = 0;
        while ci < dn
            invariant
                ci <= dn,
                dn == e.dest.len(),
                dstr@ == e.dest,
                ev == entry_views(entries@),
                base_items + spec_new_dirs(spec_dir_prefixes(e.dest), done_start) == item_views(
                    items@,
                ) + spec_new_dirs(
                    spec_dir_prefixes_from(e.dest, ci as int),
                    emitted@.map_values(|x: String| x@),
                ),
                done_start + spec_dir_prefixes(e.dest) == emitted@.map_values(|x: String| x@)
                    + spec_dir_prefixes_from(e.dest, ci as int),
            decreases dn - ci,
        {
            let ghost done_now = emitted@.map_values(|x: String| x@);
            let c = dstr.get_char(ci);
            if c == '/' {
                let p: String = dstr.substring_char(0, ci + 1).to_owned();
                let ghost pv = e.dest.take(ci as int + 1);
                proof {
                    assert(p@ =~= pv);
                    assert(spec_dir_prefixes_from(e.dest, ci as int) == seq![pv]
                        + spec_dir_prefixes_from(e.dest, ci as int + 1));
                    assert((seq![pv] + spec_dir_prefixes_from(e.dest, ci as int + 1))[0] == pv);
                    assert((seq![pv] + spec_dir_prefixes_from(e.dest, ci as int + 1)).drop_first()
                        =~= spec_dir_prefixes_from(e.dest, ci as int + 1));
                }
                if !contains_string(&emitted, &p) {
                    let nb = tar_name_bytes(&p);
                    let item = TarEntryBuf {
                        name: nb,
                        mode: 0o755,
                        typeflag: 0x35,
                        content: Vec::new(),
                    };
                    let ghost old_items = items@;
                    items.push(item);
                    proof {
                        assert(item_views(items@) =~= item_views(old_items).push(dir_item(pv)));
                        assert(spec_new_dirs(
                            spec_dir_prefixes_from(e.dest, ci as int),
                            done_now,
                        ) == seq![dir_item(pv)] + spec_new_dirs(
                            spec_dir_prefixes_from(e.dest, ci as int + 1),
                            done_now.push(pv),
                        ));
                        assert(item_views(old_items) + (seq![dir_item(pv)] + spec_new_dirs(
                            spec_dir_prefixes_from(e.dest, ci as int + 1),
                            done_now.push(pv),
                        )) =~= item_views(items@) + spec_new_dirs(
                            spec_dir_prefixes_from(e.dest, ci as int + 1),
                            done_now.push(pv),
                        ));
                    }
                } else {
                    proof {
                        assert(spec_new_dirs(
                            spec_dir_prefixes_from(e.dest, ci as int),
                            done_now,
                        ) == Seq::<TarItem>::empty() + spec_new_dirs(
                            spec_dir_prefixes_from(e.dest, ci as int + 1),
                            done_now.push(pv),
                        ));
                        assert(Seq::<TarItem>::empty() + spec_new_dirs(
                            spec_dir_prefixes_from(e.dest, ci as int + 1),
                            done_now.push(pv),
                        ) =~= spec_new_dirs(
                            spec_dir_prefixes_from(e.dest, ci as int + 1),
                            done_now.push(pv),
                        ));
                    }
                }
                emitted.push(p);
                proof {
                    assert(emitted@.map_values(|x: String| x@) =~= done_now.push(pv));
                    assert(done_start + spec_dir_prefixes(e.dest) =~= emitted@.map_values(
                        |x: String| x@,
                    ) + spec_dir_prefixes_from(e.dest, ci as int + 1));
                }
            } else {
                proof {
                    assert(spec_dir_prefixes_from(e.dest, ci as int) == spec_dir_prefixes_from(
                        e.dest,
                        ci as int + 1,
                    ));
                }
            }
            ci = ci + 1;
        }
        proof {
            assert(spec_dir_prefixes_from(e.dest, dn as int) == Seq::<Seq<char>>::empty());
            assert(spec_new_dirs(Seq::<Seq<char>>::empty(), emitted@.map_values(|x: String| x@))
                == Seq::<TarItem>::empty());
            assert(item_views(items@) =~= base_items + spec_new_dirs(
                spec_dir_prefixes(e.dest),
                done_start,
            ));
            assert(emitted@.map_values(|x: String| x@) =~= done_start + spec_dir_prefixes(e.dest));
        }
        let content_copy: Vec<u8> = match &entries[k].content {
            Some(c) => copy_bytes(c),
            None => {
                proof {
                    assert(ev[k as int].content is Some);
                    assert(false);
                }
                Vec::new()
            },
        };
        let nb = tar_name_bytes(&entries[k].dest);
        let item = TarEntryBuf {
            name: nb,
            mode: if entries[k].executable {
                0o755
            } else {
                0o644
            },
            typeflag: 0x30,
            content: content_copy,
        };
        let ghost items_after_dirs = items@;
        items.push(item);
        proof {
            assert(item_views(items@) =~= item_views(items_after_dirs).push(file_item(e)));
            let suffix = ev.subrange(k as int, n as int);
            assert(suffix[0] == e);
            assert(suffix.drop_first() =~= ev.subrange(k as int + 1, n as int));
            assert(spec_data_items(suffix, done_start) == spec_new_dirs(
                spec_dir_prefixes(e.dest),
                done_start,
            ) + seq![file_item(e)] + spec_data_items(
                suffix.drop_first(),
                done_start + spec_dir_prefixes(e.dest),
            ));
            assert(item_views(items@) =~= base_items + spec_new_dirs(
                spec_dir_prefixes(e.dest),
                done_start,
            ) + seq![file_item(e)]);
            assert(item_views(items@) + spec_data_items(
                ev.subrange(k as int + 1, n as int),
                emitted@.map_values(|x: String| x@),
            ) =~= base_items + spec_data_items(suffix, done_start));
        }
        k = k + 1;
    }
    proof {
        assert(ev.subrange(n as int, n as int) =~= Seq::<DataEntryView>::empty());
        assert(spec_data_items(Seq::<DataEntryView>::empty(), emitted@.map_values(|x: String| x@))
            == Seq::<TarItem>::empty());
        assert(item_views(items@) =~= spec_data_items(ev, Seq::empty()));
    }
    render_tar_stream(&items)
}

/// The byte length of one rendered entry: its header block, its content, and
/// its padding.
pub open spec fn spec_entry_len(it: TarItem) -> int {
    512 + it.content.len() as int + pad512(it.content.len()) as int
}

/// The offset at which entry `k` begins within the stream body.
pub open spec fn spec_entry_offset(items: Seq<TarItem>, k: int) -> int
    decreases k,
{
    if k <= 0 {
        0
    } else {
        spec_entry_offset(items, k - 1) + spec_entry_len(items[k - 1])
    }
}

proof fn lemma_entry_len(it: TarItem)
    requires
        it.name.len() <= 100,
    ensures
        spec_tar_entry(it).len() == spec_entry_len(it),
{
    lemma_header_len(it.name, it.mode, it.content.len(), it.typeflag);
}

proof fn lemma_offset_nonneg(items: Seq<TarItem>, k: int)
    ensures
        spec_entry_offset(items, k) >= 0,
    decreases k,
{
    if k > 0 {
        lemma_offset_nonneg(items, k - 1);
    }
}

proof fn lemma_offset_prefix(items: Seq<TarItem>, k: int)
    requires
        0 <= k < items.len(),
    ensures
        spec_entry_offset(items.drop_last(), k) == spec_entry_offset(items, k),
    decreases k,
{
    if k > 0 {
        lemma_offset_prefix(items, k - 1);
        assert(items.drop_last()[k - 1] == items[k - 1]);
    }
}

proof fn lemma_body_len(items: Seq<TarItem>)
    requires
        spec_items_fit(items),
    ensures
        spec_tar_stream_body(items).len() == spec_entry_offset(items, items.len() as int),
    decreases items.len(),
{
    if items.len() > 0 {
        let rest = items.drop_last();
        assert(spec_items_fit(rest)) by {
            assert(forall|j: int| 0 <= j < rest.len() ==> rest[j] == items[j]);
        }
        lemma_body_len(rest);
        lemma_offset_prefix(items, items.len() - 1);
        lemma_entry_len(items.last());
    }
}

/// Law: what was packed is what the archive holds. Within the rendered tar
/// stream, entry `k` begins at its computed offset with its 512-byte header,
/// followed immediately by its exact content bytes — so unpacking recovers
/// every packed file intact, at its declared path.
pub proof fn lemma_tar_stream_contents(items: Seq<TarItem>, k: int)
    requires
        spec_items_fit(items),
        0 <= k < items.len(),
    ensures
        0 <= spec_entry_offset(items, k),
        spec_entry_offset(items, k) + spec_entry_len(items[k]) <= spec_tar_stream_body(
            items,
        ).len(),
        spec_tar_stream_body(items).subrange(
            spec_entry_offset(items, k),
            spec_entry_offset(items, k) + 512,
        ) == spec_tar_header(items[k].name, items[k].mode, items[k].content.len(), items[k].typeflag),
        spec_tar_stream_body(items).subrange(
            spec_entry_offset(items, k) + 512,
            spec_entry_offset(items, k) + 512 + items[k].content.len(),
        ) == items[k].content,
    decreases items.len(),
{
    let n = items.len() as int;
    let rest = items.drop_last();
    let off = spec_entry_offset(items, k);
    lemma_offset_nonneg(items, k);
    lemma_body_len(items);
    assert(spec_items_fit(rest)) by {
        assert(forall|j: int| 0 <= j < rest.len() ==> rest[j] == items[j]);
    }
    lemma_body_len(rest);
    let body = spec_tar_stream_body(items);
    let body0 = spec_tar_stream_body(rest);
    let ent = spec_tar_entry(items.last());
    assert(body == body0 + ent);
    lemma_entry_len(items.last());
    lemma_header_len(items[k].name, items[k].mode, items[k].content.len(), items[k].typeflag);
    if k == n - 1 {
        lemma_offset_prefix(items, k);
        assert(off == body0.len());
        let hdr = spec_tar_header(
            items[k].name,
            items[k].mode,
            items[k].content.len(),
            items[k].typeflag,
        );
        assert(ent == hdr + items[k].content + repeat_byte(0, pad512(items[k].content.len())));
        assert(body.subrange(off, off + 512) =~= hdr);
        assert(body.subrange(off + 512, off + 512 + items[k].content.len()) =~= items[k].content);
    } else {
        lemma_tar_stream_contents(rest, k);
        lemma_offset_prefix(items, k);
        assert(rest[k] == items[k]);
        assert(body.subrange(off, off + 512) =~= body0.subrange(off, off + 512));
        assert(body.subrange(off + 512, off + 512 + items[k].content.len()) =~= body0.subrange(
            off + 512,
            off + 512 + items[k].content.len(),
        ));
    }
}

proof fn lemma_no_slash_prefixes(d: Seq<char>, i: int)
    requires
        forall|j: int| 0 <= j < d.len() ==> d[j] != '/',
    ensures
        spec_dir_prefixes_from(d, i) == Seq::<Seq<char>>::empty(),
    decreases d.len() - i,
{
    if 0 <= i < d.len() {
        lemma_no_slash_prefixes(d, i + 1);
    }
}

/// Law: round trip for a single packed file whose destination has no
/// directory components. The data archive holds exactly one entry; its
/// header names `./<dest>`, and its content — the declared source bytes —
/// stands intact in the stream right after the 512-byte header.
pub proof fn lemma_data_tar_roundtrip_single(e: DataEntryView)
    requires
        e.content is Some,
        forall|i: int| 0 <= i < e.dest.len() ==> e.dest[i] != '/',
        spec_items_fit(spec_data_items(seq![e], Seq::empty())),
    ensures
        spec_data_items(seq![e], Seq::empty()) == seq![file_item(e)],
        spec_data_tar(seq![e]).subrange(0, 512) == spec_tar_header(
            tar_name(e.dest),
            file_item(e).mode,
            file_item(e).content.len(),
            0x30,
        ),
        spec_data_tar(seq![e]).subrange(512, 512 + file_item(e).content.len() as int) == file_item(
            e,
        ).content,
{
    let single = seq![e];
    lemma_no_slash_prefixes(e.dest, 0);
    assert(single[0] == e);
    assert(single.drop_first() =~= Seq::<DataEntryView>::empty());
    assert(spec_new_dirs(Seq::<Seq<char>>::empty(), Seq::empty()) == Seq::<TarItem>::empty());
    assert(spec_data_items(Seq::<DataEntryView>::empty(), Seq::empty() + Seq::empty())
        == Seq::<TarItem>::empty());
    let items = spec_data_items(single, Seq::empty());
    assert(items =~= seq![file_item(e)]);
    lemma_tar_stream_contents(items, 0);
    assert(items[0] == file_item(e));
    let body = spec_tar_stream_body(items);
    lemma_body_len(items);
    lemma_offset_nonneg(items, 0);
    let stream = spec_data_tar(single);
    assert(stream == body + repeat_byte(0, 1024));
    assert(stream.subrange(0, 512) =~= body.subrange(0, 512));
    assert(stream.subrange(512, 512 + file_item(e).content.len() as int) =~= body.subrange(
        512,
        512 + file_item(e).content.len() as int,
    ));
}

proof fn lemma_new_dirs_only_dirs(prefixes: Seq<Seq<char>>, done: Seq<Seq<char>>)
    ensures
        spec_new_dirs(prefixes, done).filter(|it: TarItem| it.typeflag == 0x30) == Seq::<
            TarItem,
        >::empty(),
    decreases prefixes.len(),
{
    broadcast use Seq::filter_distributes_over_add;

    reveal_with_fuel(Seq::<TarItem>::filter, 3);
    if prefixes.len() == 0 {
        assert(Seq::<TarItem>::empty().filter(|it: TarItem| it.typeflag == 0x30) =~= Seq::<
            TarItem,
        >::empty());
    } else {
        let p = prefixes[0];
        lemma_new_dirs_only_dirs(prefixes.drop_first(), done.push(p));
        if done.contains(p) {
            assert(Seq::<TarItem>::empty().filter(|it: TarItem| it.typeflag == 0x30) =~= Seq::<
                TarItem,
            >::empty());
        } else {
            let one = seq![dir_item(p)];
            assert(one.drop_last() =~= Seq::<TarItem>::empty());
            assert(one.filter(|it: TarItem| it.typeflag == 0x30) =~= Seq::<TarItem>::empty());
        }
        assert(spec_new_dirs(prefixes, done).filter(|it: TarItem| it.typeflag == 0x30) =~= Seq::<
            TarItem,
        >::empty());
    }
}

/// Law: the data archive holds exactly one regular-file entry per declared
/// file, in manifest order, each carrying that file's archive path, mode and
/// content; every other entry is a synthesized directory.
#[verifier::rlimit(60)]
pub proof fn lemma_data_items_one_file_each(entries: Seq<DataEntryView>, done: Seq<Seq<char>>)
    ensures
        spec_data_items(entries, done).filter(|it: TarItem| it.typeflag == 0x30)
            == entries.map_values(|e: DataEntryView| file_item(e)),
    decreases entries.len(),
{
    broadcast use Seq::filter_distributes_over_add;

    reveal_with_fuel(Seq::<TarItem>::filter, 3);
    if entries.len() == 0 {
        assert(Seq::<TarItem>::empty().filter(|it: TarItem| it.typeflag == 0x30) =~= Seq::<
            TarItem,
        >::empty());
        assert(entries.map_values(|e: DataEntryView| file_item(e)) =~= Seq::<TarItem>::empty());
    } else {
        let e = entries[0];
        let ps = spec_dir_prefixes(e.dest);
        let rest = entries.drop_first();
        lemma_new_dirs_only_dirs(ps, done);
        lemma_data_items_one_file_each(rest, done + ps);
        let one = seq![file_item(e)];
        assert(one.drop_last() =~= Seq::<TarItem>::empty());
        assert(Seq::<TarItem>::empty().filter(|it: TarItem| it.typeflag == 0x30) =~= Seq::<
            TarItem,
        >::empty());
        assert(one.filter(|it: TarItem| it.typeflag == 0x30) =~= one);
        assert(spec_data_items(entries, done).filter(|it: TarItem| it.typeflag == 0x30) =~= one
            + rest.map_values(|x: DataEntryView| file_item(x)));
        assert(entries.map_values(|x: DataEntryView| file_item(x)) =~= one + rest.map_values(
            |x: DataEntryView| file_item(x),
        ));
    }
}

/// The entry a present lifecycle script contributes: `./<name>` with
/// executable mode, so the package manager can run it.
pub open spec fn spec_script_item(name: Seq<char>, content: Option<Seq<u8>>) -> Seq<TarItem> {
    match content {
        Some(b) => seq![
            TarItem { name: tar_name(name), mode: 0o755 as nat, typeflag: 0x30, content: b },
        ],
        None => Seq::empty(),
    }
}

/// The tar entries of the control archive, in fixed order: `./control` first
/// (mode 644), then each present lifecycle script in the fixed name order.
pub open spec fn spec_control_items(control: Seq<u8>, s: ScriptsView) -> Seq<
    TarItem,
> {
    seq![TarItem { name: tar_name("control"@), mode: 0o644 as nat, typeflag: 0x30, content: control }]
        + spec_script_item("preinst"@, s.preinst) + spec_script_item("postinst"@, s.postinst)
        + spec_script_item("prerm"@, s.prerm) + spec_script_item("postrm"@, s.postrm)
}

/// The complete control archive stream.
pub open spec fn spec_control_tar(control: Seq<u8>, s: ScriptsView) -> Seq<u8> {
    spec_tar_stream(spec_control_items(control, s))
}

fn push_script_item(items: &mut Vec<TarEntryBuf>, name: &str, content: &Option<Vec<u8>>)
    ensures
        item_views(final(items)@) == item_views(old(items)@) + spec_script_item(
            name@,
            match *content {
                Some(ref b) => Some(b@),
                None => None,
            },
        ),
{
    match content {
        Some(b) => {
            let nb = tar_name_bytes(&String::from_str(name));
            let item = TarEntryBuf {
                name: nb,
                mode: 0o755,
                typeflag: 0x30,
                content: copy_bytes(b),
            };
            let ghost old_items = items@;
            items.push(item);
            proof {
                assert(item_views(items@) =~= item_views(old_items) + spec_script_item(
                    name@,
                    Some(b@),
                ));
            }
        },
        None => {
            proof {
                assert(item_views(items@) =~= item_views(items@) + Seq::<TarItem>::empty());
            }
        },
    }
}

/// Packs the rendered control record and the present lifecycle scripts into
/// the control archive stream: `./control` first, then `preinst`, `postinst`,
/// `prerm`, `postrm` in that fixed order, skipping absent scripts. Fails with
/// `IoError` when an entry cannot fit its header fields.
pub fn build_control_tar(control: &Vec<u8>, scripts: &Scripts) -> (r: Result<
    Vec<u8>,
    PackError,
>)
    ensures
        spec_items_fit(spec_control_items(control@, scripts@)) ==> (r matches Ok(b) && b@
            == spec_control_tar(control@, scripts@)),
        !spec_items_fit(spec_control_items(control@, scripts@)) ==> r == Err::<
            Vec<u8>,
            PackError,
        >(PackError::IoError),
{
    let mut items: Vec<TarEntryBuf> = Vec::new();
    let nb = tar_name_bytes(&String::from_str("control"));
    let item = TarEntryBuf { name: nb, mode: 0o644, typeflag: 0x30, content: copy_bytes(control) };
    items.push(item);
    proof {
        assert(item_views(items@) =~= seq![
            TarItem {
                name: tar_name("control"@),
                mode: 0o644 as nat,
                typeflag: 0x30,
                content: control@,
            },
        ]);
    }
    push_script_item(&mut items, "preinst", &scripts.preinst);
    push_script_item(&mut items, "postinst", &scripts.postinst);
    push_script_item(&mut items, "prerm", &scripts.prerm);
    push_script_item(&mut items, "postrm", &scripts.postrm);
    proof {
        assert(item_views(items@) =~= spec_control_items(control@, scripts@));
    }
    render_tar_stream(&items)
}

} // verus!

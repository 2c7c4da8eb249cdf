use vstd::prelude::*;
use vstd::string::StrSliceExecFns;
use vstd::utf8::encode_utf8;
use vstd::utf8::is_ascii_chars;
use vstd::utf8::is_ascii_chars_encode_utf8;
use crate::bytes::lemma_decimal_len;
use crate::bytes::pow10;
use crate::bytes::push_bytes;
use crate::bytes::push_decimal_padded;
use crate::bytes::push_repeat;
use crate::bytes::repeat_byte;
use crate::bytes::spec_decimal;
use crate::bytes::spec_decimal_padded;
use crate::utils::string_eq_lit;
use crate::PackError;

verus! {

/// The largest content size the ten-digit decimal ar size field can record.
pub const AR_SIZE_LIMIT: u64 = 10000000000;

/// One member handed to the container assembler: its name and its content.
pub struct ArMember {
    pub name: String,
    pub data: Vec<u8>,
}

/// The mathematical content of a member.
pub struct ArMemberView {
    pub name: Seq<char>,
    pub data: Seq<u8>,
}

impl View for ArMember {
    type V = ArMemberView;

    open spec fn view(&self) -> ArMemberView {
        ArMemberView { name: self.name@, data: self.data@ }
    }
}

pub open spec fn member_views(s: Seq<ArMember>) -> Seq<ArMemberView> {
    s.map_values(|m: ArMember| m@)
}

/// The 60-byte ar member header: name space-padded to 16 bytes, then the
/// fixed-width decimal mtime (12), uid (6), gid (6) and mode (8) fields —
/// held at zero, zero, zero and 100644 so output never depends on who builds
/// or when — the exact content size in decimal (10), and the two-byte magic
/// terminator.
pub open spec fn spec_ar_header(name: Seq<u8>, size: nat) -> Seq<u8> {
    name + repeat_byte(0x20, (16 - name.len()) as nat) + spec_decimal_padded(0, 12)
        + spec_decimal_padded(0, 6) + spec_decimal_padded(0, 6) + spec_decimal_padded(100644, 8)
        + spec_decimal_padded(size, 10) + seq![0x60u8, 0x0au8]
}

/// One framed member: header, content, and a single newline of padding when
/// the content length is odd. The padding stays outside the recorded size.
pub open spec fn spec_ar_member(name: Seq<u8>, data: Seq<u8>) -> Seq<u8> {
    spec_ar_header(name, data.len()) + data + (if data.len() % 2 == 1 {
        seq![0x0au8]
    } else {
        Seq::<u8>::empty()
    })
}

/// The members of the archive, framed and concatenated in order.
pub open spec fn spec_ar_members(ms: Seq<ArMemberView>) -> Seq<u8>
    decreases ms.len(),
{
    if ms.len() == 0 {
        Seq::empty()
    } else {
        spec_ar_members(ms.drop_last()) + spec_ar_member(
            encode_utf8(ms.last().name),
            ms.last().data,
        )
    }
}

/// The whole ar archive: the fixed eight-byte global magic, then the members.
pub open spec fn spec_ar_archive(ms: Seq<ArMemberView>) -> Seq<u8> {
    encode_utf8("!<arch>\n"@) + spec_ar_members(ms)
}

/// Exactly three members, named and ordered as a `.deb` container requires.
pub open spec fn spec_members_ok(ms: Seq<ArMemberView>) -> bool {
    ms.len() == 3 && ms[0].name == "debian-binary"@ && ms[1].name == "control.tar.gz"@
        && ms[2].name == "data.tar.gz"@
}

/// Every member's content fits the ten-digit decimal size field.
pub open spec fn spec_member_sizes_fit(ms: Seq<ArMemberView>) -> bool {
    forall|k: int| 0 <= k < ms.len() ==> (#[trigger] ms[k]).data.len() < AR_SIZE_LIMIT
}

proof fn lemma_member_name_lens()
    ensures
        encode_utf8("debian-binary"@).len() == 13,
        encode_utf8("control.tar.gz"@).len() == 14,
        encode_utf8("data.tar.gz"@).len() == 11,
{
    reveal_strlit("debian-binary");
    reveal_strlit("control.tar.gz");
    reveal_strlit("data.tar.gz");
    assert(is_ascii_chars("debian-binary"@));
    assert(is_ascii_chars("control.tar.gz"@));
    assert(is_ascii_chars("data.tar.gz"@));
    is_ascii_chars_encode_utf8("debian-binary"@);
    is_ascii_chars_encode_utf8("control.tar.gz"@);
    is_ascii_chars_encode_utf8("data.tar.gz"@);
}

fn push_ar_member(v: &mut Vec<u8>, name: &String, data: &Vec<u8>)
    requires
        encode_utf8(name@).len() <= 16,
        data@.len() < AR_SIZE_LIMIT,
    ensures
        final(v)@ == old(v)@ + spec_ar_member(encode_utf8(name@), data@),
{
    let nb = name.as_str().as_bytes_vec();
    push_bytes(v, &nb);
    push_repeat(v, 0x20, 16 - nb.len());
    proof {
        reveal_with_fuel(spec_decimal, 7);
        reveal_with_fuel(pow10, 11);
        lemma_decimal_len(data@.len() as nat, 10);
    }
    push_decimal_padded(v, 0, 12);
    push_decimal_padded(v, 0, 6);
    push_decimal_padded(v, 0, 6);
    push_decimal_padded(v, 100644, 8);
    push_decimal_padded(v, data.len() as u64, 10);
    v.push(0x60);
    v.push(0x0a);
    push_bytes(v, data);
    if data.len() % 2 == 1 {
        v.push(0x0a);
    }
    proof {
        assert(v@ =~= old(v)@ + spec_ar_member(encode_utf8(name@), data@));
    }
}

/// Combines the format-version marker and the two compressed tar members into
/// the final `.deb` container. Rejects with `InvalidMemberLayout` any input
/// whose member count is not three or whose names deviate from the fixed
/// order `debian-binary`, `control.tar.gz`, `data.tar.gz`; fails with
/// `IoError` when a member is too large for its size field.
pub fn assemble(members: &Vec<ArMember>) -> (r: Result<Vec<u8>, PackError>)
    ensures
        !spec_members_ok(member_views(members@)) ==> r == Err::<Vec<u8>, PackError>(
            PackError::InvalidMemberLayout,
        ),
        spec_members_ok(member_views(members@)) && !spec_member_sizes_fit(
            member_views(members@),
        ) ==> r == Err::<Vec<u8>, PackError>(PackError::IoError),
        spec_members_ok(member_views(members@)) && spec_member_sizes_fit(
            member_views(members@),
        ) ==> (r matches Ok(b) && b@ == spec_ar_archive(member_views(members@))),
{
    let ghost ms = member_views(members@);
    if members.len() != 3 {
        return Err(PackError::InvalidMemberLayout);
    }
    let names_ok = string_eq_lit(&members[0].name, "debian-binary") && string_eq_lit(
        &members[1].name,
        "control.tar.gz",
    ) && string_eq_lit(&members[2].name, "data.tar.gz");
    if !names_ok {
        proof {
            assert(ms[0] == members@[0]@);
            assert(ms[1] == members@[1]@);
            assert(ms[2] == members@[2]@);
        }
        return Err(PackError::InvalidMemberLayout);
    }
    proof {
        assert(ms[0] == members@[0]@);
        assert(ms[1] == members@[1]@);
        assert(ms[2] == members@[2]@);
        assert(spec_members_ok(ms));
    }
    if !((members[0].data.len() as u64) < AR_SIZE_LIMIT && (members[1].data.len() as u64)
        < AR_SIZE_LIMIT && (members[2].data.len() as u64) < AR_SIZE_LIMIT) {
        return Err(PackError::IoError);
    }
    proof {
        assert forall|k: int| 0 <= k < ms.len() implies (#[trigger] ms[k]).data.len()
            < AR_SIZE_LIMIT by {
            assert(ms[k] == members@[k]@);
            assert(k == 0 || k == 1 || k == 2);
        }
        lemma_member_name_lens();
    }
    let mut out = "!<arch>\n".as_bytes_vec();
    push_ar_member(&mut out, &members[0].name, &members[0].data);
    push_ar_member(&mut out, &members[1].name, &members[1].data);
    push_ar_member(&mut out, &members[2].name, &members[2].data);
    proof {
        assert(ms.drop_last() =~= ms.subrange(0, 2));
        assert(ms.subrange(0, 2).drop_last() =~= ms.subrange(0, 1));
        assert(ms.subrange(0, 1).drop_last() =~= ms.subrange(0, 0));
        assert(ms.subrange(0, 0) =~= Seq::<ArMemberView>::empty());
        assert(ms.subrange(0, 1).last() == ms[0]);
        assert(ms.subrange(0, 2).last() == ms[1]);
        assert(ms.last() == ms[2]);
        assert(spec_ar_members(ms.subrange(0, 0)) == Seq::<u8>::empty());
        assert(spec_ar_members(ms.subrange(0, 1)) == spec_ar_members(ms.subrange(0, 0))
            + spec_ar_member(encode_utf8(ms[0].name), ms[0].data));
        assert(spec_ar_members(ms.subrange(0, 2)) == spec_ar_members(ms.subrange(0, 1))
            + spec_ar_member(encode_utf8(ms[1].name), ms[1].data));
        assert(spec_ar_members(ms) == spec_ar_members(ms.subrange(0, 2)) + spec_ar_member(
            encode_utf8(ms[2].name),
            ms[2].data,
        ));
        assert(out@ =~= spec_ar_archive(ms));
    }
    Ok(out)
}

} // verus!

//! Which guest paths name the fetch device.
//!
//! Guest paths are bytes with `/` between their components.
use vstd::prelude::*;
use vstd::slice::slice_subrange;
use vstd::utf8::*;

verus! {

/// Name of the device file. Its filesystem is mounted at `/frachter` by
/// convention, so that the guest sees `/frachter/fetch`. It must not be mounted
/// at `/dev`, which guests reserve.
pub const FETCH_DEVICE_FILE_NAME: &'static str = "fetch";

/// The position of the last `/` of `path`, or -1.
pub open spec fn last_slash(path: Seq<u8>) -> int
    decreases path.len(),
{
    if path.len() == 0 {
        -1
    } else if path.last() == 0x2f {
        path.len() - 1
    } else {
        last_slash(path.drop_last())
    }
}

/// The final component of `path`, if it names an entry. Empty and `.`
/// components do not count; a path that ends in `..` names none.
pub open spec fn file_name(path: Seq<u8>) -> Option<Seq<u8>>
    decreases path.len(),
{
    proof {
        lemma_last_slash(path);
    }
    let cut = last_slash(path);
    let piece = path.skip(cut + 1);
    if piece.len() == 0 || piece == seq![0x2eu8] {
        if cut < 0 {
            None
        } else {
            file_name(path.take(cut))
        }
    } else if piece == seq![0x2eu8, 0x2eu8] {
        None
    } else {
        Some(piece)
    }
}

/// The bytes of [`FETCH_DEVICE_FILE_NAME`].
pub open spec fn device_name() -> Seq<u8> {
    seq![0x66u8, 0x65u8, 0x74u8, 0x63u8, 0x68u8]
}

/// The path names the device: its final component is the device file name.
pub open spec fn names_device(path: Seq<u8>) -> bool {
    file_name(path) == Some(device_name())
}

/// `last_slash` finds a slash, and none stands behind it.
pub proof fn lemma_last_slash(path: Seq<u8>)
    ensures
        -1 <= last_slash(path) < path.len(),
        last_slash(path) >= 0 ==> path[last_slash(path)] == 0x2f,
        forall|i: int| last_slash(path) < i < path.len() ==> path[i] != 0x2f,
    decreases path.len(),
{
    if path.len() > 0 && path.last() != 0x2f {
        let head = path.drop_last();
        lemma_last_slash(head);
        assert forall|i: int| last_slash(path) < i < path.len() implies path[i] != 0x2f by {
            if i < head.len() {
                assert(path[i] == head[i]);
            }
        }
    }
}

proof fn lemma_last_slash_is(path: Seq<u8>, cut: int)
    requires
        -1 <= cut < path.len(),
        cut >= 0 ==> path[cut] == 0x2f,
        forall|i: int| cut < i < path.len() ==> path[i] != 0x2f,
    ensures
        last_slash(path) == cut,
{
    lemma_last_slash(path);
}

/// The final component of `path`.
fn final_component(path: &[u8]) -> (name: Option<&[u8]>)
    ensures
        name is Some <==> file_name(path@) is Some,
        name matches Some(bytes) ==> file_name(path@) == Some(bytes@),
{
    let mut end: usize = path.len();
    assert(path@.take(end as int) =~= path@);
    loop
        invariant
            end <= path@.len(),
            file_name(path@) == file_name(path@.take(end as int)),
        decreases end,
    {
        let ghost head = path@.take(end as int);
        let mut start: usize = end;
        while start > 0 && path[start - 1] != 0x2f
            invariant
                start <= end <= path@.len(),
                forall|i: int| start <= i < end ==> path@[i] != 0x2f,
            decreases start,
        {
            start -= 1;
        }
        let piece: &[u8] = slice_subrange(path, start, end);
        proof {
            lemma_last_slash_is(head, start - 1);
            assert(head.skip(start as int) =~= piece@);
        }
        if piece.len() == 0 || (piece.len() == 1 && piece[0] == 0x2e) {
            assert(piece@.len() == 0 || piece@ =~= seq![0x2eu8]);
            if start == 0 {
                return None;
            }
            assert(head.take(start - 1) =~= path@.take(start - 1));
            end = start - 1;
        } else if piece.len() == 2 && piece[0] == 0x2e && piece[1] == 0x2e {
            assert(piece@ =~= seq![0x2eu8, 0x2eu8]);
            return None;
        } else {
            return Some(piece);
        }
    }
}

/// Whether `path` names the device.
pub fn is_device_path(path: &[u8]) -> (is_device: bool)
    ensures
        is_device == names_device(path@),
{
    match final_component(path) {
        None => false,
        Some(name) => {
            let is_device: bool = name.len() == 5 && name[0] == 0x66 && name[1] == 0x65 && name[2]
                == 0x74 && name[3] == 0x63 && name[4] == 0x68;
            assert(is_device ==> name@ =~= device_name());
            is_device
        },
    }
}

/// The device's bytes are those of its file name.
pub proof fn law_device_name_is_file_name()
    ensures
        device_name() == encode_utf8(FETCH_DEVICE_FILE_NAME@),
{
    reveal_strlit("fetch");
    is_ascii_chars_encode_utf8(FETCH_DEVICE_FILE_NAME@);
    assert(device_name() =~= encode_utf8(FETCH_DEVICE_FILE_NAME@));
}

/// The device is found under any directory it is mounted at.
pub proof fn law_device_under_any_directory(dir: Seq<u8>)
    ensures
        names_device(dir + seq![0x2fu8] + device_name()),
        names_device(device_name()),
{
    let path = dir + seq![0x2fu8] + device_name();
    lemma_last_slash_is(path, dir.len() as int);
    assert(path.skip(dir.len() as int + 1) =~= device_name());
    lemma_last_slash_is(device_name(), -1);
    assert(device_name().skip(0) =~= device_name());
}

/// A trailing separator, or a trailing `.` component, does not change what a
/// path names.
pub proof fn law_trailing_separator_ignored(path: Seq<u8>)
    ensures
        file_name(path.push(0x2f)) == file_name(path),
        file_name(path.push(0x2f).push(0x2e)) == file_name(path),
{
    let slashed = path.push(0x2f);
    lemma_last_slash_is(slashed, path.len() as int);
    assert(slashed.take(path.len() as int) =~= path);
    let dotted = slashed.push(0x2e);
    lemma_last_slash_is(dotted, path.len() as int);
    assert(dotted.skip(path.len() as int + 1) =~= seq![0x2eu8]);
    assert(dotted.take(path.len() as int) =~= path);
}

/// The last component decides, by itself, what a path names: under any directory
/// and on its own it is the entry's name, and the entry is the device exactly when
/// that name is `fetch`.
pub proof fn law_last_component_decides(dir: Seq<u8>, name: Seq<u8>)
    requires
        name.len() > 0,
        forall|i: int| 0 <= i < name.len() ==> name[i] != 0x2f,
        name != seq![0x2eu8],
        name != seq![0x2eu8, 0x2eu8],
    ensures
        file_name(dir + seq![0x2fu8] + name) == Some(name),
        file_name(name) == Some(name),
        names_device(dir + seq![0x2fu8] + name) <==> name == encode_utf8("fetch"@),
        names_device(name) <==> name == encode_utf8("fetch"@),
{
    law_device_name_is_file_name();
    let path = dir + seq![0x2fu8] + name;
    lemma_last_slash_is(path, dir.len() as int);
    assert(path.skip(dir.len() as int + 1) =~= name);
    lemma_last_slash_is(name, -1);
    assert(name.skip(0) =~= name);
}

/// No path other than one whose last component is `fetch` names the device: not
/// the empty path, not `.`, and none that ends by going up.
pub proof fn law_other_paths_are_not_device(dir: Seq<u8>)
    ensures
        !names_device(Seq::<u8>::empty()),
        !names_device(seq![0x2eu8]),
        !names_device(seq![0x2eu8, 0x2eu8]),
        !names_device(dir + seq![0x2fu8, 0x2eu8, 0x2eu8]),
        file_name(Seq::<u8>::empty()) is None,
        file_name(seq![0x2eu8]) is None,
        file_name(seq![0x2eu8, 0x2eu8]) is None,
        file_name(dir + seq![0x2fu8, 0x2eu8, 0x2eu8]) is None,
{
    let path = dir + seq![0x2fu8, 0x2eu8, 0x2eu8];
    lemma_last_slash_is(path, dir.len() as int);
    assert(path.skip(dir.len() as int + 1) =~= seq![0x2eu8, 0x2eu8]);
    lemma_last_slash_is(Seq::<u8>::empty(), -1);
    assert(Seq::<u8>::empty().skip(0) =~= Seq::<u8>::empty());
    lemma_last_slash_is(seq![0x2eu8], -1);
    assert(seq![0x2eu8].skip(0) =~= seq![0x2eu8]);
    lemma_last_slash_is(seq![0x2eu8, 0x2eu8], -1);
    assert(seq![0x2eu8, 0x2eu8].skip(0) =~= seq![0x2eu8, 0x2eu8]);
}

/// A trailing separator, or a trailing `.` component, does not make a path name
/// the device, nor keep it from doing so.
pub proof fn law_trailing_separator_keeps_device(path: Seq<u8>)
    ensures
        names_device(path.push(0x2f)) <==> names_device(path),
        names_device(path.push(0x2f).push(0x2e)) <==> names_device(path),
{
    law_trailing_separator_ignored(path);
}

} // verus!

//! Deterministic tar packaging and member extraction.
//!
//! The tar builder is an outside structure; what has been appended to it
//! is tracked by name, and the finished archive's contents carry over to
//! extraction.  Permissions are fixed at `0o644` and timestamps are not
//! recorded, so an archive is a function of the names and bytes alone.

use crate::errors::StoreError;
use crate::text::{str_bytes, str_eq};
use std::io::Read;
use vstd::prelude::*;

verus! {

/// One archive member: its path, whether it is a directory, and its bytes.
#[derive(Debug, Clone, PartialEq)]
pub struct TarItem {
    pub path: String,
    pub is_dir: bool,
    pub data: Vec<u8>,
}

/// The plain value of one archive member.
pub open spec fn tar_item_view(t: TarItem) -> (Seq<char>, bool, Seq<u8>) {
    (t.path@, t.is_dir, t.data@)
}

/// The plain values of a list of archive members.
pub open spec fn tar_items_view(items: Seq<TarItem>) -> Seq<(Seq<char>, bool, Seq<u8>)> {
    items.map_values(|t: TarItem| tar_item_view(t))
}

/// A `.` or `..` component of a path begins at byte `i`: a dot (or two)
/// bounded by the string's ends or by slashes.
pub open spec fn dot_component_at(b: Seq<u8>, i: int) -> bool {
    &&& b[i] == 46
    &&& (i == 0 || b[i - 1] == 47)
    &&& ((i == b.len() - 1 || b[i + 1] == 47) || (i + 1 < b.len() && b[i + 1] == 46 && (i + 2
        == b.len() || b[i + 2] == 47)))
}

/// A clean relative path, which the tar writer stores byte for byte:
/// non-empty, free of NUL bytes, neither starting nor ending with a
/// slash, with no doubled slashes and no `.` or `..` components.  The
/// writer canonicalizes or rejects anything else.  The checked bytes are
/// all ASCII, which UTF-8 never embeds in a longer character, so checking
/// bytes checks the path's components.
pub open spec fn clean_tar_path(b: Seq<u8>) -> bool {
    &&& b.len() > 0
    &&& b[0] != 47
    &&& b[b.len() - 1] != 47
    &&& forall|i: int| #![trigger b[i]] 0 <= i < b.len() ==> b[i] != 0
    &&& forall|i: int| #![trigger b[i]] 0 <= i < b.len() - 1 ==> !(b[i] == 47 && b[i + 1] == 47)
    &&& forall|i: int| #![trigger b[i]] 0 <= i < b.len() ==> !dot_component_at(b, i)
}

/// Whether a member name is a clean relative path.
pub fn is_clean_tar_path(name: &str) -> (r: bool)
    ensures
        r == clean_tar_path(str_bytes(name@)),
{
    let b = name.as_bytes();
    let n = b.len();
    if n == 0 {
        return false;
    }
    if b[0] == 47 || b[n - 1] == 47 {
        return false;
    }
    let mut i: usize = 0;
    while i < n
        invariant
            b@ == str_bytes(name@),
            n == b@.len(),
            n > 0,
            b@[0] != 47,
            b@[n - 1] != 47,
            i <= n,
            forall|j: int| #![trigger b@[j]] 0 <= j < i ==> b@[j] != 0,
            forall|j: int| #![trigger b@[j]] 0 <= j < i && j < n - 1 ==> !(b@[j] == 47 && b@[j
                + 1] == 47),
            forall|j: int| #![trigger b@[j]] 0 <= j < i ==> !dot_component_at(b@, j),
        decreases n - i,
    {
        if b[i] == 0 {
            proof {
                assert(b@[i as int] == 0);
            }
            return false;
        }
        if i + 1 < n && b[i] == 47 && b[i + 1] == 47 {
            proof {
                assert(b@[i as int] == 47 && b@[i as int + 1] == 47);
            }
            return false;
        }
        if b[i] == 46 && (i == 0 || b[i - 1] == 47) {
            let single = i + 1 == n || b[i + 1] == 47;
            let double = i + 1 < n && b[i + 1] == 46 && (i + 2 == n || b[i + 2] == 47);
            if single || double {
                proof {
                    assert(dot_component_at(b@, i as int));
                }
                return false;
            }
        }
        proof {
            assert(!dot_component_at(b@, i as int));
        }
        i += 1;
    }
    true
}

/// An in-memory tar builder.  The builder type itself carries a trait
/// bound Verus refuses to declare, so it is held opaquely; what has been
/// appended is tracked by `tar_building`.
#[verifier::external_body]
pub struct TarBuilder {
    inner: tar::Builder<Vec<u8>>,
}

/// What the tar reader lists for an archive: its members in order, each
/// as (path, is-directory, bytes), or `None` when the bytes are no
/// readable archive.  Listing is a function of the bytes alone.
pub uninterp spec fn tar_items_of(archive: Seq<u8>) -> Option<Seq<(Seq<char>, bool, Seq<u8>)>>;

/// The members appended so far to an in-memory tar builder.
pub uninterp spec fn tar_building(b: TarBuilder) -> Seq<(Seq<char>, bool, Seq<u8>)>;

/// Relies on `tar::Builder::new`: a fresh builder over an in-memory
/// buffer holds no members.
#[verifier::external_body]
fn tar_builder_new() -> (b: TarBuilder)
    ensures
        tar_building(b) == Seq::<(Seq<char>, bool, Seq<u8>)>::empty(),
{
    TarBuilder { inner: tar::Builder::new(Vec::new()) }
}

/// Relies on `tar::Builder::append_data` with a GNU header of fixed mode
/// `0o644` and no timestamp: a clean relative name is stored byte for
/// byte (over-long names through the GNU long-name extension), the
/// in-memory write cannot fail, and the archive gains exactly this
/// regular-file member.
#[verifier::external_body]
fn tar_append_file(b: &mut TarBuilder, name: &str, data: &[u8]) -> (r: Result<
    (),
    StoreError,
>)
    requires
        clean_tar_path(str_bytes(name@)),
    ensures
        r is Ok,
        tar_building(*final(b)) == tar_building(*old(b)).push((name@, false, data@)),
{
    let mut header = tar::Header::new_gnu();
    header.set_size(data.len() as u64);
    header.set_mode(0o644);
    header.set_cksum();
    b.inner.append_data(&mut header, std::path::Path::new(name), data).map_err(
        |_| StoreError::Pack,
    )
}

/// Relies on `tar::Builder::append_data` with a GNU directory header of
/// fixed mode `0o755`: a clean relative name is stored byte for byte,
/// the in-memory write cannot fail, and the archive gains exactly this
/// directory member.
#[verifier::external_body]
fn tar_append_dir(b: &mut TarBuilder, name: &str) -> (r: Result<(), StoreError>)
    requires
        clean_tar_path(str_bytes(name@)),
    ensures
        r is Ok,
        tar_building(*final(b)) == tar_building(*old(b)).push(
            (name@, true, Seq::<u8>::empty()),
        ),
{
    let mut header = tar::Header::new_gnu();
    header.set_entry_type(tar::EntryType::dir());
    header.set_size(0);
    header.set_mode(0o755);
    header.set_cksum();
    let empty: &[u8] = &[];
    b.inner.append_data(&mut header, std::path::Path::new(name), empty).map_err(
        |_| StoreError::Pack,
    )
}

/// Relies on `tar::Builder::into_inner`: finishing writes the two
/// terminating blocks into the in-memory buffer, which cannot fail, and
/// the archive's bytes list back exactly the members appended, in order.
#[verifier::external_body]
fn tar_finish(b: TarBuilder) -> (r: Result<Vec<u8>, StoreError>)
    ensures
        r is Ok,
        r matches Ok(bytes) ==> tar_items_of(bytes@) == Some(tar_building(b)),
{
    b.inner.into_inner().map_err(|_| StoreError::Pack)
}

/// Relies on `tar::Archive::entries`: the members of the archive, in
/// order, each converted to its path, kind and bytes; an unreadable
/// archive is an error.
#[verifier::external_body]
pub(crate) fn tar_list(archive: &[u8]) -> (r: Result<Vec<TarItem>, StoreError>)
    ensures
        r matches Ok(items) ==> Some(tar_items_view(items@)) == tar_items_of(archive@),
        r is Err ==> tar_items_of(archive@) is None,
        r matches Err(e) ==> e == StoreError::Pack,
{
    let mut ar = tar::Archive::new(archive);
    let entries = ar.entries().map_err(|_| StoreError::Pack)?;
    let mut out = Vec::new();
    for entry in entries {
        let mut entry = entry.map_err(|_| StoreError::Pack)?;
        let path = entry.path().map_err(|_| StoreError::Pack)?.to_string_lossy().into_owned();
        let is_dir = entry.header().entry_type().is_dir();
        let mut data = Vec::new();
        entry.read_to_end(&mut data).map_err(|_| StoreError::Pack)?;
        out.push(TarItem { path, is_dir, data });
    }
    Ok(out)
}

/// The bytes of the first member named `name`, if the archive has one.
pub open spec fn member_lookup(items: Seq<(Seq<char>, bool, Seq<u8>)>, name: Seq<char>) -> Option<
    Seq<u8>,
>
    decreases items.len(),
{
    if items.len() == 0 {
        None
    } else if items[0].0 == name {
        Some(items[0].2)
    } else {
        member_lookup(items.drop_first(), name)
    }
}

/// Package one file as a deterministic tar archive holding a single
/// member under the file's own name.  Packaging succeeds exactly when
/// the name is a clean relative path.
pub fn pack_file(name: &str, data: &[u8]) -> (r: Result<Vec<u8>, StoreError>)
    ensures
        r is Ok <==> clean_tar_path(str_bytes(name@)),
        r matches Ok(bytes) ==> tar_items_of(bytes@) == Some(
            seq![(name@, false, data@)],
        ),
        r matches Err(e) ==> e == StoreError::Pack,
{
    if !is_clean_tar_path(name) {
        return Err(StoreError::Pack);
    }
    let mut builder = tar_builder_new();
    match tar_append_file(&mut builder, name, data) {
        Ok(()) => {},
        Err(e) => {
            return Err(e);
        },
    }
    proof {
        assert(tar_building(builder) =~= seq![(name@, false, data@)]);
    }
    tar_finish(builder)
}

/// Every member name of a directory tree is a clean relative path.
pub open spec fn clean_dir_inputs(dirs: Seq<String>, files: Seq<(String, Vec<u8>)>) -> bool {
    &&& forall|i: int| 0 <= i < dirs.len() ==> clean_tar_path(str_bytes((#[trigger] dirs[i])@))
    &&& forall|i: int|
        0 <= i < files.len() ==> clean_tar_path(str_bytes((#[trigger] files[i]).0@))
}

/// Package a directory tree as a deterministic tar archive: the
/// directories first, then the files, in the order given, with paths
/// relative to the tree root.  Packaging succeeds exactly when every
/// member name is a clean relative path.
pub fn pack_dir(dirs: &Vec<String>, files: &Vec<(String, Vec<u8>)>) -> (r: Result<
    Vec<u8>,
    StoreError,
>)
    ensures
        r is Ok <==> clean_dir_inputs(dirs@, files@),
        r matches Ok(bytes) ==> tar_items_of(bytes@) == Some(
            dir_items(dirs@) + file_items(files@),
        ),
        r matches Err(e) ==> e == StoreError::Pack,
{
    let mut builder = tar_builder_new();

    let nd = dirs.len();
    let mut i: usize = 0;
    while i < nd
        invariant
            nd == dirs@.len(),
            i <= nd,
            forall|k: int|
                0 <= k < i ==> clean_tar_path(str_bytes((#[trigger] dirs@[k])@)),
            tar_building(builder) == dir_items(dirs@.subrange(0, i as int)),
        decreases nd - i,
    {
        if !is_clean_tar_path(dirs[i].as_str()) {
            return Err(StoreError::Pack);
        }
        match tar_append_dir(&mut builder, dirs[i].as_str()) {
            Ok(()) => {},
            Err(_) => {
                proof {
                    assert(false);
                }
                return Err(StoreError::Pack);
            },
        }
        proof {
            assert(dir_items(dirs@.subrange(0, i + 1 as int)) =~= dir_items(
                dirs@.subrange(0, i as int),
            ).push((dirs@[i as int]@, true, Seq::<u8>::empty())));
        }
        i += 1;
    }
    proof {
        assert(dirs@.subrange(0, nd as int) =~= dirs@);
    }

    let nf = files.len();
    let mut j: usize = 0;
    while j < nf
        invariant
            nf == files@.len(),
            j <= nf,
            forall|k: int|
                0 <= k < nf ==> clean_tar_path(str_bytes((#[trigger] dirs@[k])@)) || k
                    >= dirs@.len(),
            forall|k: int|
                0 <= k < dirs@.len() ==> clean_tar_path(str_bytes((#[trigger] dirs@[k])@)),
            forall|k: int|
                0 <= k < j ==> clean_tar_path(str_bytes((#[trigger] files@[k]).0@)),
            tar_building(builder) == dir_items(dirs@) + file_items(files@.subrange(0, j as int)),
        decreases nf - j,
    {
        if !is_clean_tar_path(files[j].0.as_str()) {
            return Err(StoreError::Pack);
        }
        match tar_append_file(&mut builder, files[j].0.as_str(), files[j].1.as_slice()) {
            Ok(()) => {},
            Err(_) => {
                proof {
                    assert(false);
                }
                return Err(StoreError::Pack);
            },
        }
        proof {
            assert(file_items(files@.subrange(0, j + 1 as int)) =~= file_items(
                files@.subrange(0, j as int),
            ).push((files@[j as int].0@, false, files@[j as int].1@)));
            assert(dir_items(dirs@) + file_items(files@.subrange(0, j + 1 as int)) =~= (dir_items(
                dirs@,
            ) + file_items(files@.subrange(0, j as int))).push(
                (files@[j as int].0@, false, files@[j as int].1@),
            ));
        }
        j += 1;
    }
    proof {
        assert(files@.subrange(0, nf as int) =~= files@);
        assert(tar_building(builder) =~= dir_items(dirs@) + file_items(files@));
    }

    tar_finish(builder)
}

/// The members a list of directory names contributes to an archive.
pub open spec fn dir_items(dirs: Seq<String>) -> Seq<(Seq<char>, bool, Seq<u8>)> {
    dirs.map_values(|d: String| (d@, true, Seq::<u8>::empty()))
}

/// The members a list of named files contributes to an archive.
pub open spec fn file_items(files: Seq<(String, Vec<u8>)>) -> Seq<(Seq<char>, bool, Seq<u8>)> {
    files.map_values(|f: (String, Vec<u8>)| (f.0@, false, f.1@))
}

/// The bytes of the member named `member`, extracted from an archive's
/// listed items.
pub fn find_member(items: &Vec<TarItem>, member: &str) -> (r: Option<Vec<u8>>)
    ensures
        match r {
            Some(d) => member_lookup(tar_items_view(items@), member@) == Some(d@),
            None => member_lookup(tar_items_view(items@), member@) is None,
        },
{
    let n = items.len();
    let mut i: usize = 0;
    while i < n
        invariant
            n == items@.len(),
            i <= n,
            forall|j: int| 0 <= j < i ==> tar_items_view(items@)[j].0 != member@,
        decreases n - i,
    {
        proof {
            assert(tar_items_view(items@)[i as int] == tar_item_view(items@[i as int]));
        }
        if str_eq(items[i].path.as_str(), member) {
            let out = crate::text::clone_bytes(&items[i].data);
            proof {
                lemma_member_lookup_skip(tar_items_view(items@), member@, i as int);
                assert(tar_items_view(items@).skip(i as int)[0] == tar_items_view(items@)[i as int]);
            }
            return Some(out);
        }
        i += 1;
    }
    proof {
        lemma_member_lookup_skip(tar_items_view(items@), member@, n as int);
        assert(tar_items_view(items@).skip(n as int) =~= Seq::<(Seq<char>, bool, Seq<u8>)>::empty());
    }
    None
}

/// Member lookup skips every member with a different name.
proof fn lemma_member_lookup_skip(
    items: Seq<(Seq<char>, bool, Seq<u8>)>,
    name: Seq<char>,
    n: int,
)
    requires
        0 <= n <= items.len(),
        forall|j: int| 0 <= j < n ==> items[j].0 != name,
    ensures
        member_lookup(items, name) == member_lookup(items.skip(n), name),
    decreases n,
{
    if n == 0 {
        assert(items.skip(0) =~= items);
    } else {
        assert(items[0].0 != name);
        assert forall|j: int| 0 <= j < n - 1 implies #[trigger] items.drop_first()[j].0 != name by {
            assert(items.drop_first()[j] == items[j + 1]);
        }
        lemma_member_lookup_skip(items.drop_first(), name, n - 1);
        assert(items.drop_first().skip(n - 1) =~= items.skip(n));
    }
}

} // verus!

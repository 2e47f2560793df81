//! Content-addressed checksum over a directory tree.
//!
//! The caller enumerates the regular files of a tree and hands them in as
//! [`FileEntry`] values; the engine puts them into canonical order, hashes
//! each file's contents, hashes the concatenation of the per-file digests and
//! encodes the final digest in padded standard base64.  The result is a pure
//! function of the set of (path, contents) pairs, independent of the order in
//! which the files were found ([`lemma_checksum_order_independent`]).

use vstd::prelude::*;
use vstd::multiset::Multiset;
use vstd::seq_lib::lemma_sorted_unique;
use vstd::relations::sorted_by;
use vstd::relations::total_ordering;
use crate::order::bytes_lt;
use crate::order::bytes_le;
use crate::order::bytes_le_exec;
use crate::order::lemma_bytes_lt_trichotomy;
use crate::order::lemma_bytes_lt_transitive;

verus! {

/// The SHA-256 digest of a byte sequence, as ring computes it.
pub uninterp spec fn sha256_of(data: Seq<u8>) -> Seq<u8>;

/// The padded standard base64 rendering of a byte sequence, as the base64
/// crate's STANDARD engine computes it.
pub uninterp spec fn base64_of(data: Seq<u8>) -> Seq<char>;

/// Relies on ring::digest::digest with &ring::digest::SHA256: the digest is a
/// function of the input bytes alone and is 32 bytes long.
#[verifier::external_body]
fn sha256(data: &Vec<u8>) -> (r: Vec<u8>)
    ensures
        r@ == sha256_of(data@),
        r@.len() == 32,
{
    ring::digest::digest(&ring::digest::SHA256, data.as_slice()).as_ref().to_vec()
}

/// Relies on base64's STANDARD engine (standard alphabet, padded): the
/// encoding is a function of the input bytes alone, four output characters
/// for every group of up to three input bytes.
#[verifier::external_body]
fn base64_encode(data: &Vec<u8>) -> (r: String)
    ensures
        r@ == base64_of(data@),
        r@.len() == 4 * ((data@.len() + 2) / 3),
{
    base64::Engine::encode(&base64::prelude::BASE64_STANDARD, data.as_slice())
}

/// One regular file of a directory tree: its canonical path key and its full
/// contents.
///
/// The path key is the file's relative path with the components joined by a
/// NUL byte (which no file name contains).  Because the separator is the
/// smallest byte, plain byte order on keys is exactly a name-sorted,
/// parents-first walk of the tree.
pub struct FileEntry {
    pub path: Vec<u8>,
    pub content: Vec<u8>,
}

#[verifier::ext_equal]
pub ghost struct FileEntryView {
    pub path: Seq<u8>,
    pub content: Seq<u8>,
}

impl View for FileEntry {
    type V = FileEntryView;

    open spec fn view(&self) -> FileEntryView {
        FileEntryView { path: self.path@, content: self.content@ }
    }
}

/// The mathematical image of a list of file entries.
pub open spec fn file_views(s: Seq<FileEntry>) -> Seq<FileEntryView> {
    s.map_values(|f: FileEntry| f@)
}

/// The canonical order on file entries: by path key, ties broken by contents.
pub open spec fn file_le(a: FileEntryView, b: FileEntryView) -> bool {
    bytes_lt(a.path, b.path) || (a.path == b.path && bytes_le(a.content, b.content))
}

/// The canonical order as a relation value, for vstd's sorting vocabulary.
pub open spec fn file_order() -> spec_fn(FileEntryView, FileEntryView) -> bool {
    |a: FileEntryView, b: FileEntryView| file_le(a, b)
}

/// The canonical, name-sorted arrangement of a list of file entries.
pub open spec fn canonical_files(files: Seq<FileEntryView>) -> Seq<FileEntryView> {
    files.sort_by(file_order())
}

/// The concatenation of the per-file SHA-256 digests, in list order.
pub open spec fn digest_concat(contents: Seq<Seq<u8>>) -> Seq<u8>
    decreases contents.len(),
{
    if contents.len() == 0 {
        Seq::empty()
    } else {
        digest_concat(contents.drop_last()) + sha256_of(contents.last())
    }
}

/// The contents of each entry, in list order.
pub open spec fn contents_of(files: Seq<FileEntryView>) -> Seq<Seq<u8>> {
    files.map_values(|f: FileEntryView| f.content)
}

/// What the checksum of a directory tree is: base64 of the SHA-256 of the
/// concatenated per-file SHA-256 digests, the files taken in canonical order.
pub open spec fn tree_checksum(files: Seq<FileEntryView>) -> Seq<char> {
    base64_of(sha256_of(digest_concat(contents_of(canonical_files(files)))))
}

/// The canonical order on file entries is a total ordering, so every list of
/// entries has exactly one sorted arrangement.
pub proof fn lemma_file_order_total()
    ensures
        total_ordering(file_order()),
{
    let ord = file_order();
    assert forall|a: FileEntryView| #[trigger] ord(a, a) by {
        lemma_bytes_lt_trichotomy(a.path, a.path);
    }
    assert forall|a: FileEntryView, b: FileEntryView| #[trigger] ord(a, b) && #[trigger] ord(
        b,
        a,
    ) implies a == b by {
        lemma_bytes_lt_trichotomy(a.path, b.path);
        lemma_bytes_lt_trichotomy(a.content, b.content);
        assert(a =~= b);
    }
    assert forall|a: FileEntryView, b: FileEntryView, c: FileEntryView|
        #[trigger] ord(a, b) && #[trigger] ord(b, c) implies ord(a, c) by {
        if bytes_lt(a.path, b.path) && bytes_lt(b.path, c.path) {
            lemma_bytes_lt_transitive(a.path, b.path, c.path);
        } else if a.path == b.path && b.path == c.path {
            if bytes_lt(a.content, b.content) && bytes_lt(b.content, c.content) {
                lemma_bytes_lt_transitive(a.content, b.content, c.content);
            }
        }
    }
    assert forall|a: FileEntryView, b: FileEntryView| #[trigger] ord(a, b) || #[trigger] ord(
        b,
        a,
    ) by {
        lemma_bytes_lt_trichotomy(a.path, b.path);
        if a.path == b.path {
            lemma_bytes_lt_trichotomy(a.content, b.content);
        }
    }
}

fn file_le_exec(x: &FileEntry, y: &FileEntry) -> (r: bool)
    ensures
        r == file_le(x@, y@),
{
    let le_xy = bytes_le_exec(&x.path, &y.path);
    let le_yx = bytes_le_exec(&y.path, &x.path);
    proof {
        lemma_bytes_lt_trichotomy(x.path@, y.path@);
    }
    if le_xy && le_yx {
        bytes_le_exec(&x.content, &y.content)
    } else {
        le_xy
    }
}

/// Put a list of file entries into canonical (name-sorted, parents-first)
/// order.
pub fn sort_files(files: Vec<FileEntry>) -> (r: Vec<FileEntry>)
    ensures
        file_views(r@) == canonical_files(file_views(files@)),
{
    broadcast use vstd::seq_lib::group_to_multiset_ensures;
    broadcast use vstd::multiset::group_multiset_axioms;

    let ghost orig = file_views(files@);
    proof {
        lemma_file_order_total();
    }
    let mut input = files;
    let mut out: Vec<FileEntry> = Vec::new();
    while input.len() > 0
        invariant
            sorted_by(file_views(out@), file_order()),
            file_views(out@).to_multiset().add(file_views(input@).to_multiset())
                =~= orig.to_multiset(),
            total_ordering(file_order()),
        decreases input.len(),
    {
        let ghost before = input@;
        let x = input.pop().unwrap();
        proof {
            // popping x leaves the views of input short of x@
            assert(before =~= input@.push(x));
            assert(file_views(before) =~= file_views(input@).push(x@));
            vstd::seq_lib::to_multiset_build(file_views(input@), x@);
            assert(file_views(before).to_multiset() =~= file_views(input@).to_multiset().insert(
                x@,
            ));
        }
        let mut j: usize = 0;
        while j < out.len() && file_le_exec(&out[j], &x)
            invariant
                j <= out.len(),
                forall|k: int| 0 <= k < j ==> file_le(#[trigger] file_views(out@)[k], x@),
            decreases out.len() - j,
        {
            j = j + 1;
        }
        let ghost pre_out = file_views(out@);
        out.insert(j, x);
        proof {
            assert(file_views(out@) =~= pre_out.insert(j as int, x@));
            vstd::seq_lib::to_multiset_insert(pre_out, j as int, x@);
            assert(pre_out.insert(j as int, x@).to_multiset() =~= pre_out.to_multiset().insert(
                x@,
            ));
            assert(file_views(out@).to_multiset().add(file_views(input@).to_multiset())
                =~= orig.to_multiset());
            let now = file_views(out@);
            let ord = file_order();
            assert forall|p: int, q: int| 0 <= p < q < now.len() implies #[trigger] ord(
                now[p],
                now[q],
            ) by {
                if p < j && q > j {
                    assert(ord(now[p], pre_out[q - 1]));
                } else if q == j {
                    assert(ord(pre_out[p], x@));
                } else if p == j {
                    // x goes before out[j] and everything after it
                    assert(q > j);
                    if j < pre_out.len() {
                        assert(!ord(pre_out[j as int], x@));
                        assert(ord(x@, pre_out[j as int]));
                        if q - 1 > j {
                            assert(ord(pre_out[j as int], pre_out[q - 1]));
                        }
                    }
                }
            }
        }
    }
    proof {
        assert forall|a: FileEntryView| file_views(input@).to_multiset().count(a) == 0 by {
            assert(!file_views(input@).contains(a));
        }
        assert(file_views(input@).to_multiset() =~= Multiset::<FileEntryView>::empty());
        assert(file_views(out@).to_multiset() =~= orig.to_multiset());
        orig.lemma_sort_by_ensures(file_order());
        lemma_sorted_unique(file_views(out@), canonical_files(orig), file_order());
    }
    out
}

/// Compute the checksum of a directory tree, handed in as its regular files
/// in any order.
///
/// The result is `base64(sha256(concat(sha256(file contents))))` with the
/// files taken in canonical name order, so it does not depend on the order of
/// `files`.
pub fn calculate_checksum(files: Vec<FileEntry>) -> (r: String)
    ensures
        r@ == tree_checksum(file_views(files@)),
{
    let sorted = sort_files(files);
    let ghost contents = contents_of(file_views(sorted@));
    let mut acc: Vec<u8> = Vec::new();
    let mut i: usize = 0;
    while i < sorted.len()
        invariant
            i <= sorted.len(),
            contents == contents_of(file_views(sorted@)),
            acc@ == digest_concat(contents.take(i as int)),
        decreases sorted.len() - i,
    {
        let mut d = sha256(&sorted[i].content);
        acc.append(&mut d);
        proof {
            let taken = contents.take(i + 1);
            assert(taken.drop_last() =~= contents.take(i as int));
            assert(taken.last() == contents[i as int]);
        }
        i = i + 1;
    }
    proof {
        assert(contents.take(contents.len() as int) =~= contents);
    }
    let overall = sha256(&acc);
    base64_encode(&overall)
}

/// Checksum of the local copy of one item, if there is one.
///
/// The caller looks the item's folder up; a missing folder is handed in as
/// `None` and yields no checksum, an existing folder is handed in as its file
/// list and yields its tree checksum.
pub fn calculate_local_checksum(local_files: Option<Vec<FileEntry>>) -> (r: Option<String>)
    ensures
        match local_files {
            Some(files) => r matches Some(c) && c@ == tree_checksum(file_views(files@)),
            None => r matches None,
        },
{
    match local_files {
        Some(files) => Some(calculate_checksum(files)),
        None => None,
    }
}

/// Law: the checksum is a function of the collection of (path, contents)
/// pairs alone.  Two trees whose files are the same pairs, enumerated in any
/// orders, have the same checksum.
pub proof fn lemma_checksum_order_independent(l1: Seq<FileEntryView>, l2: Seq<FileEntryView>)
    requires
        l1.to_multiset() == l2.to_multiset(),
    ensures
        tree_checksum(l1) == tree_checksum(l2),
{
    let ord = file_order();
    lemma_file_order_total();
    l1.lemma_sort_by_ensures(ord);
    l2.lemma_sort_by_ensures(ord);
    lemma_sorted_unique(l1.sort_by(ord), l2.sort_by(ord), ord);
    assert(canonical_files(l1) =~= canonical_files(l2));
}

/// Law: an empty directory has a well-defined checksum, the hash of an empty
/// buffer; it is the same for every empty tree.
pub proof fn lemma_empty_tree_checksum()
    ensures
        tree_checksum(Seq::<FileEntryView>::empty()) == base64_of(sha256_of(Seq::<u8>::empty())),
{
    broadcast use vstd::seq_lib::group_to_multiset_ensures;

    let empty = Seq::<FileEntryView>::empty();
    let ord = file_order();
    lemma_file_order_total();
    empty.lemma_sort_by_ensures(ord);
    assert(empty.to_multiset().len() == 0);
    assert(canonical_files(empty).to_multiset().len() == 0);
    assert(canonical_files(empty) =~= empty);
    assert(contents_of(empty) =~= Seq::<Seq<u8>>::empty());
    assert(digest_concat(Seq::<Seq<u8>>::empty()) =~= Seq::<u8>::empty());
}

} // verus!

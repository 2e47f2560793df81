use modsync::checksum::FileEntry;
use modsync::checksum::calculate_checksum;
use modsync::checksum::calculate_local_checksum;
use modsync::checksum::sort_files;

fn entry(path: &[u8], content: &[u8]) -> FileEntry {
    FileEntry { path: path.to_vec(), content: content.to_vec() }
}

#[test]
fn empty_tree_has_fixed_checksum() {
    let c = calculate_checksum(Vec::new());
    assert_eq!(c, "47DEQpj8HBSa+/TImW+5JCeuQeRkm5NMpJWZG3hSuFU=");
    let again = calculate_checksum(Vec::new());
    assert_eq!(again, "47DEQpj8HBSa+/TImW+5JCeuQeRkm5NMpJWZG3hSuFU=");
}

#[test]
fn single_file_checksum_exact() {
    let c = calculate_checksum(vec![entry(b"a.txt", b"abc")]);
    assert_eq!(c, "T4tCwi3TcptRm6b2jS2nzFstYG0F2u1a1RKMwD5sY1g=");
}

#[test]
fn two_files_checksum_exact_and_name_ordered() {
    // files are hashed in name order, whatever order they arrive in
    let c1 = calculate_checksum(vec![entry(b"a", b"abc"), entry(b"b", b"def")]);
    let c2 = calculate_checksum(vec![entry(b"b", b"def"), entry(b"a", b"abc")]);
    assert_eq!(c1, "nATTAFe3VK8bLS1PVnV4LdYaWmWcNO5sKvR1JrZsr6Y=");
    assert_eq!(c1, c2);
}

#[test]
fn checksum_is_deterministic() {
    let files = || vec![entry(b"x", b"abc"), entry(b"y", b"def"), entry(b"z", b"ghi")];
    assert_eq!(calculate_checksum(files()), calculate_checksum(files()));
}

#[test]
fn checksum_changes_when_a_byte_changes() {
    let before = calculate_checksum(vec![entry(b"a.txt", b"abc")]);
    let after = calculate_checksum(vec![entry(b"a.txt", b"abd")]);
    assert_ne!(before, after);
    assert_eq!(after, "nbsXOofLdQ7v8t36uOagAFvVOyYqRYNizNio0z+46RY=");
}

#[test]
fn checksum_changes_when_a_file_is_added_or_removed() {
    let two = calculate_checksum(vec![entry(b"a", b"abc"), entry(b"b", b"def")]);
    let three = calculate_checksum(vec![
        entry(b"a", b"abc"),
        entry(b"b", b"def"),
        entry(b"c", b"ghi"),
    ]);
    let one = calculate_checksum(vec![entry(b"a", b"abc")]);
    assert_ne!(two, three);
    assert_ne!(two, one);
    assert_eq!(three, "xfBYHVNaNm3BvOE5D3h8r12TpKFJPNDN7fyG0pv9iEg=");
}

#[test]
fn checksum_changes_when_a_rename_reorders_files() {
    // renaming "a" to "z" moves its contents behind "b" in the canonical
    // walk, so the digests are concatenated in the other order
    let before = calculate_checksum(vec![entry(b"a", b"abc"), entry(b"b", b"def")]);
    let after = calculate_checksum(vec![entry(b"z", b"abc"), entry(b"b", b"def")]);
    assert_ne!(before, after);
    assert_eq!(after, "KTkB2LqQfXya95/yhbQvRWylySRQ9cA+DqwO0URHLNY=");
}

#[test]
fn sort_files_walks_parents_before_siblings() {
    // path keys join components with NUL, so "a/b" sorts before "a-c"
    // even though '-' is smaller than every printable path start
    let sorted = sort_files(vec![
        entry(b"a.txt", b"3"),
        entry(b"a\x00b", b"1"),
        entry(b"a-c", b"2"),
    ]);
    let paths: Vec<&[u8]> = sorted.iter().map(|f| f.path.as_slice()).collect();
    assert_eq!(paths, vec![b"a\x00b".as_slice(), b"a-c".as_slice(), b"a.txt".as_slice()]);
}

#[test]
fn local_checksum_absent_folder_is_none() {
    assert!(calculate_local_checksum(None).is_none());
    let c = calculate_local_checksum(Some(vec![entry(b"a.txt", b"abc")]));
    assert_eq!(c.unwrap(), "T4tCwi3TcptRm6b2jS2nzFstYG0F2u1a1RKMwD5sY1g=");
}

use finspect::perms::{
    get_permission_string, parse_permissions, MODE_GROUP_EXEC, MODE_GROUP_READ, MODE_GROUP_WRITE,
    MODE_OTHER_EXEC, MODE_OTHER_READ, MODE_OTHER_WRITE, MODE_OWNER_EXEC, MODE_OWNER_READ,
    MODE_OWNER_WRITE,
};

fn expected_triplet(mode: u16, read: u16, write: u16, execute: u16) -> String {
    let mut s = String::new();
    s.push(if mode & read != 0 { 'r' } else { '-' });
    s.push(if mode & write != 0 { 'w' } else { '-' });
    s.push(if mode & execute != 0 { 'x' } else { '-' });
    s
}

fn expected_perm_string(mode: u16) -> String {
    let mut s = expected_triplet(mode, 0o400, 0o200, 0o100);
    s.push_str(&expected_triplet(mode, 0o40, 0o20, 0o10));
    s.push_str(&expected_triplet(mode, 0o4, 0o2, 0o1));
    s
}

#[test]
fn all_nine_bit_masks_match_table() {
    for mode in 0u16..512 {
        let s = parse_permissions(mode);
        assert_eq!(s.len(), 9);
        assert_eq!(s, expected_perm_string(mode));
    }
}

#[test]
fn higher_bits_are_ignored() {
    for mode in 0u16..512 {
        let plain = parse_permissions(mode);
        // regular-file and directory file-type bits must not matter
        assert_eq!(parse_permissions(mode | 0o100000), plain);
        assert_eq!(parse_permissions(mode | 0o40000), plain);
        assert_eq!(parse_permissions(mode | 0o170000), plain);
    }
}

#[test]
fn codec_is_idempotent() {
    for mode in [0o644u16, 0o755, 0o000, 0o777, 0o123] {
        let first = parse_permissions(mode);
        let second = parse_permissions(mode);
        assert_eq!(first, second);
    }
}

#[test]
fn common_modes() {
    assert_eq!(parse_permissions(0o644), "rw-r--r--");
    assert_eq!(parse_permissions(0o755), "rwxr-xr-x");
    assert_eq!(parse_permissions(0o000), "---------");
    assert_eq!(parse_permissions(0o777), "rwxrwxrwx");
    assert_eq!(parse_permissions(0o421), "r---w---x");
}

#[test]
fn single_triplet_groups() {
    assert_eq!(get_permission_string(0o7, 0o4, 0o2, 0o1), "rwx");
    assert_eq!(get_permission_string(0o0, 0o4, 0o2, 0o1), "---");
    assert_eq!(get_permission_string(0o5, 0o4, 0o2, 0o1), "r-x");
    assert_eq!(get_permission_string(0o3, 0o4, 0o2, 0o1), "-wx");
    assert_eq!(get_permission_string(0o6, 0o4, 0o2, 0o1), "rw-");
}

#[test]
fn mask_constants_match_libc() {
    assert_eq!(MODE_OWNER_READ as u32, libc::S_IRUSR);
    assert_eq!(MODE_OWNER_WRITE as u32, libc::S_IWUSR);
    assert_eq!(MODE_OWNER_EXEC as u32, libc::S_IXUSR);
    assert_eq!(MODE_GROUP_READ as u32, libc::S_IRGRP);
    assert_eq!(MODE_GROUP_WRITE as u32, libc::S_IWGRP);
    assert_eq!(MODE_GROUP_EXEC as u32, libc::S_IXGRP);
    assert_eq!(MODE_OTHER_READ as u32, libc::S_IROTH);
    assert_eq!(MODE_OTHER_WRITE as u32, libc::S_IWOTH);
    assert_eq!(MODE_OTHER_EXEC as u32, libc::S_IXOTH);
}
